//! Tests of the snapshot codec: the tokenizer, the encoder, the decoder,
//! the round trip, and the rejection of unsupported versions.

use mailsync::bencode::scan_token;
use mailsync::bencode::DecodeError;
use mailsync::bencode::Token;
use mailsync::decode::deserialize;
use mailsync::encode::serialize;
use mailsync::store::Chat;
use mailsync::store::Contact;
use mailsync::store::Keypair;
use mailsync::store::Mdn;
use mailsync::store::Message;
use mailsync::store::Store;

fn ana() -> Contact {
    Contact {
        id: 10,
        name: b"Ana".to_vec(),
        addr: b"ana@x.y".to_vec(),
        origin: Some(0x10),
        blocked: false,
        last_seen: 1700000000,
        param: Vec::new(),
        authname: Vec::new(),
        selfavatar_sent: 0,
        status: None,
    }
}

fn smoke_store() -> Store {
    Store {
        config: vec![(b"dbversion".to_vec(), b"99".to_vec())],
        contacts: vec![ana()],
        chats: Vec::new(),
        leftgroups: Vec::new(),
        keypairs: Vec::new(),
        messages: Vec::new(),
        mdns: Vec::new(),
    }
}

#[test]
fn snapshot_smoke() {
    let store = smoke_store();
    let bytes = serialize(&store);
    // The version entry is emitted inside the configuration section.
    let needle = b"9:dbversion";
    assert!(bytes.windows(needle.len()).any(|w| w == needle));
    let back = deserialize(bytes).unwrap();
    assert_eq!(back.config, store.config);
    assert_eq!(back.contacts.len(), 1);
    assert_eq!(back.contacts, store.contacts);
}

#[test]
fn snapshot_round_trip_full() {
    let store = Store {
        config: vec![
            (b"addr".to_vec(), b"me@host.example".to_vec()),
            (b"dbversion".to_vec(), b"99".to_vec()),
            (b"last_housekeeping".to_vec(), b"1700000000".to_vec()),
        ],
        contacts: vec![
            ana(),
            Contact {
                id: 11,
                name: b"Bob".to_vec(),
                addr: b"bob@z.w".to_vec(),
                origin: None,
                blocked: true,
                last_seen: -5,
                param: b"p=1".to_vec(),
                authname: b"bobby".to_vec(),
                selfavatar_sent: 3,
                status: Some(b"away".to_vec()),
            },
        ],
        chats: vec![Chat { id: 1, typ: Some(100) }, Chat { id: 2, typ: None }],
        leftgroups: vec![b"grp-1".to_vec()],
        keypairs: vec![Keypair {
            id: 1,
            addr: b"me@host.example".to_vec(),
            is_default: true,
            private_key: vec![1, 2, 3],
            public_key: vec![4, 5],
            created: 1700000001,
        }],
        messages: vec![Message {
            id: 7,
            rfc724_mid: b"<mid@host>".to_vec(),
            chat_id: 1,
            from_id: 10,
            to_id: 1,
            timestamp: 1700000002,
            typ: 10,
            state: 16,
            msgrmsg: 1,
            bytes: 0,
            txt: b"hello".to_vec(),
            txt_raw: b"hello".to_vec(),
            param: Vec::new(),
            timestamp_sent: 0,
            timestamp_rcvd: 0,
            hidden: 0,
            mime_headers: Vec::new(),
            mime_in_reply_to: Some(b"<other@host>".to_vec()),
            mime_references: None,
            location_id: 0,
        }],
        mdns: vec![Mdn { msg_id: 7, contact_id: 10, timestamp_sent: 1700000003 }],
    };
    let back = deserialize(serialize(&store)).unwrap();
    // The configuration and the contacts come back identically; the other
    // sections are read and dropped.
    assert_eq!(back.config, store.config);
    assert_eq!(back.contacts, store.contacts);
    assert!(back.chats.is_empty());
    assert!(back.leftgroups.is_empty());
    assert!(back.keypairs.is_empty());
    assert!(back.messages.is_empty());
    assert!(back.mdns.is_empty());
}

#[test]
fn snapshot_rejects_wrong_version() {
    let mut store = smoke_store();
    store.config = vec![(b"dbversion".to_vec(), b"98".to_vec())];
    assert!(deserialize(serialize(&store)).is_err());
}

#[test]
fn snapshot_rejects_missing_version() {
    let mut store = smoke_store();
    store.config = vec![(b"addr".to_vec(), b"me@host.example".to_vec())];
    assert!(deserialize(serialize(&store)).is_err());
}

#[test]
fn snapshot_rejects_repeated_version() {
    let mut store = smoke_store();
    store.config = vec![
        (b"dbversion".to_vec(), b"99".to_vec()),
        (b"dbversion".to_vec(), b"99".to_vec()),
    ];
    assert!(deserialize(serialize(&store)).is_err());
}

#[test]
fn snapshot_rejects_garbage() {
    assert!(deserialize(b"hello world".to_vec()).is_err());
    assert!(deserialize(Vec::new()).is_err());
    // A list where the top-level dictionary belongs.
    assert_eq!(deserialize(b"l\ne\n".to_vec()), Err(DecodeError::UnexpectedToken));
    // A dictionary whose first key is not the configuration section.
    assert_eq!(deserialize(b"d\n3:foo".to_vec()), Err(DecodeError::BadKey));
}

#[test]
fn tokenizer_reads_tokens() {
    let v = b"\n\ni42e".to_vec();
    assert_eq!(scan_token(&v, 0), Ok(Some((Token::Int(42), 6))));
    let v = b"i-7e".to_vec();
    assert_eq!(scan_token(&v, 0), Ok(Some((Token::Int(-7), 4))));
    let v = b"3:abc".to_vec();
    assert_eq!(scan_token(&v, 0), Ok(Some((Token::Str(b"abc".to_vec()), 5))));
    let v = b"0:".to_vec();
    assert_eq!(scan_token(&v, 0), Ok(Some((Token::Str(Vec::new()), 2))));
    let v = b"l".to_vec();
    assert_eq!(scan_token(&v, 0), Ok(Some((Token::List, 1))));
    let v = b"d".to_vec();
    assert_eq!(scan_token(&v, 0), Ok(Some((Token::Dict, 1))));
    let v = b"e".to_vec();
    assert_eq!(scan_token(&v, 0), Ok(Some((Token::End, 1))));
    let v = b"\n\n".to_vec();
    assert_eq!(scan_token(&v, 0), Ok(None));
    let v = Vec::new();
    assert_eq!(scan_token(&v, 0), Ok(None));
}

#[test]
fn tokenizer_integer_bounds() {
    let v = b"i9223372036854775807e".to_vec();
    assert_eq!(scan_token(&v, 0), Ok(Some((Token::Int(i64::MAX), 21))));
    let v = b"i-9223372036854775808e".to_vec();
    assert_eq!(scan_token(&v, 0), Ok(Some((Token::Int(i64::MIN), 22))));
    let v = b"i9223372036854775808e".to_vec();
    assert_eq!(scan_token(&v, 0), Err(DecodeError::BadInteger));
    let v = b"i-9223372036854775809e".to_vec();
    assert_eq!(scan_token(&v, 0), Err(DecodeError::BadInteger));
}

#[test]
fn tokenizer_rejects_malformed_tokens() {
    let v = b"x".to_vec();
    assert_eq!(scan_token(&v, 0), Err(DecodeError::UnexpectedByte));
    let v = b"i42".to_vec();
    assert_eq!(scan_token(&v, 0), Err(DecodeError::UnexpectedEof));
    let v = b"i4x2e".to_vec();
    assert_eq!(scan_token(&v, 0), Err(DecodeError::BadInteger));
    let v = b"ie".to_vec();
    assert_eq!(scan_token(&v, 0), Err(DecodeError::BadInteger));
    let v = b"i+3e".to_vec();
    assert_eq!(scan_token(&v, 0), Err(DecodeError::BadInteger));
    let v = b"5:ab".to_vec();
    assert_eq!(scan_token(&v, 0), Err(DecodeError::UnexpectedEof));
    let v = b"5x:ab".to_vec();
    assert_eq!(scan_token(&v, 0), Err(DecodeError::BadLength));
    let v = b"12".to_vec();
    assert_eq!(scan_token(&v, 0), Err(DecodeError::UnexpectedEof));
}

#[test]
fn decoder_accepts_extra_newlines() {
    let store = smoke_store();
    let mut bytes = serialize(&store);
    let mut padded = Vec::new();
    padded.push(b'\n');
    padded.append(&mut bytes);
    padded.push(b'\n');
    let back = deserialize(padded).unwrap();
    assert_eq!(back.config, store.config);
    assert_eq!(back.contacts, store.contacts);
}

#[test]
fn empty_status_is_read_back_as_absent() {
    // An empty status is written as no status at all, so it comes back as
    // absent; that is why the round-trip law leaves such rows out.
    let mut store = smoke_store();
    store.contacts[0].status = Some(Vec::new());
    let back = deserialize(serialize(&store)).unwrap();
    assert_eq!(back.contacts[0].status, None);
}
