//! The in-memory model of the application store that the snapshot codec
//! reads and writes: the configuration table, the contacts, and the other
//! tables the encoder emits.  Text and blobs are byte strings, exactly as
//! the store holds them.

use vstd::prelude::*;

use crate::bencode::Tok;
use crate::keys::kb_acpeerstates;
use crate::keys::kb_addr;
use crate::keys::kb_authname;
use crate::keys::kb_blocked;
use crate::keys::kb_bytes;
use crate::keys::kb_chat_id;
use crate::keys::kb_chats;
use crate::keys::kb_chats_contacts;
use crate::keys::kb_contact_id;
use crate::keys::kb_contacts;
use crate::keys::kb_created;
use crate::keys::kb_dbversion;
use crate::keys::kb_dns_cache;
use crate::keys::kb_from_id;
use crate::keys::kb_hidden;
use crate::keys::kb_id;
use crate::keys::kb_imap;
use crate::keys::kb_imap_sync;
use crate::keys::kb_is_default;
use crate::keys::kb_keypairs;
use crate::keys::kb_last_seen;
use crate::keys::kb_leftgroups;
use crate::keys::kb_location_id;
use crate::keys::kb_locations;
use crate::keys::kb_mdns;
use crate::keys::kb_messages;
use crate::keys::kb_mime_headers;
use crate::keys::kb_mime_in_reply_to;
use crate::keys::kb_mime_references;
use crate::keys::kb_msg_id;
use crate::keys::kb_msgrmsg;
use crate::keys::kb_msgs_status_updates;
use crate::keys::kb_multi_device_sync;
use crate::keys::kb_name;
use crate::keys::kb_origin;
use crate::keys::kb_param;
use crate::keys::kb_private_key;
use crate::keys::kb_public_key;
use crate::keys::kb_reactions;
use crate::keys::kb_rfc724_mid;
use crate::keys::kb_selfavatar_sent;
use crate::keys::kb_sending_domains;
use crate::keys::kb_state;
use crate::keys::kb_status;
use crate::keys::kb_timestamp;
use crate::keys::kb_timestamp_rcvd;
use crate::keys::kb_timestamp_sent;
use crate::keys::kb_to_id;
use crate::keys::kb_tokens;
use crate::keys::kb_top_config;
use crate::keys::kb_txt;
use crate::keys::kb_txt_raw;
use crate::keys::kb_typ;
use crate::keys::kb_v99;

verus! {

/// One row of the contacts table.
#[derive(Debug, Clone, PartialEq, Eq)]
pub struct Contact {
    pub id: u32,
    pub name: Vec<u8>,
    pub addr: Vec<u8>,
    pub origin: Option<u32>,
    pub blocked: bool,
    pub last_seen: i64,
    pub param: Vec<u8>,
    pub authname: Vec<u8>,
    pub selfavatar_sent: i64,
    /// An absent and an empty status are both emitted as nothing.
    pub status: Option<Vec<u8>>,
}

/// The value of a contact row.
pub struct ContactV {
    pub id: u32,
    pub name: Seq<u8>,
    pub addr: Seq<u8>,
    pub origin: Option<u32>,
    pub blocked: bool,
    pub last_seen: i64,
    pub param: Seq<u8>,
    pub authname: Seq<u8>,
    pub selfavatar_sent: i64,
    pub status: Option<Seq<u8>>,
}

impl View for Contact {
    type V = ContactV;

    open spec fn view(&self) -> ContactV {
        ContactV {
            id: self.id,
            name: self.name@,
            addr: self.addr@,
            origin: self.origin,
            blocked: self.blocked,
            last_seen: self.last_seen,
            param: self.param@,
            authname: self.authname@,
            selfavatar_sent: self.selfavatar_sent,
            status: match self.status {
                Option::Some(ref s) => Option::Some(s@),
                Option::None => Option::None,
            },
        }
    }
}

/// One row of the chats table.
#[derive(Debug, Clone, PartialEq, Eq)]
pub struct Chat {
    pub id: u32,
    pub typ: Option<u32>,
}

/// One row of the keypairs table.
#[derive(Debug, Clone, PartialEq, Eq)]
pub struct Keypair {
    pub id: u32,
    pub addr: Vec<u8>,
    pub is_default: bool,
    pub private_key: Vec<u8>,
    pub public_key: Vec<u8>,
    pub created: i64,
}

/// One row of the messages table.
#[derive(Debug, Clone, PartialEq, Eq)]
pub struct Message {
    pub id: i64,
    pub rfc724_mid: Vec<u8>,
    pub chat_id: i64,
    pub from_id: i64,
    pub to_id: i64,
    pub timestamp: i64,
    pub typ: i64,
    pub state: i64,
    pub msgrmsg: i64,
    pub bytes: i64,
    pub txt: Vec<u8>,
    pub txt_raw: Vec<u8>,
    pub param: Vec<u8>,
    pub timestamp_sent: i64,
    pub timestamp_rcvd: i64,
    pub hidden: i64,
    pub mime_headers: Vec<u8>,
    pub mime_in_reply_to: Option<Vec<u8>>,
    pub mime_references: Option<Vec<u8>>,
    pub location_id: i64,
}

/// One row of the read-receipt table.
#[derive(Debug, Clone, PartialEq, Eq)]
pub struct Mdn {
    pub msg_id: u32,
    pub contact_id: u32,
    pub timestamp_sent: i64,
}

/// The store: every table the snapshot carries.
#[derive(Debug, Clone, PartialEq, Eq)]
pub struct Store {
    /// Key/value configuration, `dbversion` among the keys.
    pub config: Vec<(Vec<u8>, Vec<u8>)>,
    pub contacts: Vec<Contact>,
    pub chats: Vec<Chat>,
    pub leftgroups: Vec<Vec<u8>>,
    pub keypairs: Vec<Keypair>,
    pub messages: Vec<Message>,
    pub mdns: Vec<Mdn>,
}

/// The configuration pairs as values.
pub open spec fn config_view(v: Seq<(Vec<u8>, Vec<u8>)>) -> Seq<(Seq<u8>, Seq<u8>)> {
    v.map_values(|p: (Vec<u8>, Vec<u8>)| (p.0@, p.1@))
}

/// The contact rows as values.
pub open spec fn contacts_view(v: Seq<Contact>) -> Seq<ContactV> {
    v.map_values(|c: Contact| c@)
}

/// The tokens of a sequence of rows, each encoded by `f`, in order.
pub open spec fn rows_toks<A>(rows: Seq<A>, f: spec_fn(A) -> Seq<Tok>) -> Seq<Tok>
    decreases rows.len(),
{
    if rows.len() == 0 {
        Seq::empty()
    } else {
        f(rows[0]) + rows_toks(rows.drop_first(), f)
    }
}

/// Extending the rows by one appends that row's tokens.
pub proof fn lemma_rows_toks_snoc<A>(rows: Seq<A>, f: spec_fn(A) -> Seq<Tok>, k: int)
    requires
        0 <= k < rows.len(),
    ensures
        rows_toks(rows.take(k + 1), f) == rows_toks(rows.take(k), f) + f(rows[k]),
    decreases k,
{
    if k == 0 {
        assert(rows.take(1)[0] == rows[0]);
        assert(rows.take(1).drop_first() =~= rows.take(0));
        assert(rows.take(0).len() == 0);
        assert(f(rows[0]) + Seq::<Tok>::empty() =~= f(rows[0]));
        assert(Seq::<Tok>::empty() + f(rows[0]) =~= f(rows[0]));
    } else {
        let tail = rows.drop_first();
        lemma_rows_toks_snoc(tail, f, k - 1);
        assert(rows.take(k + 1).drop_first() =~= tail.take(k));
        assert(rows.take(k).drop_first() =~= tail.take(k - 1));
        assert(rows.take(k + 1)[0] == rows[0]);
        assert(rows.take(k)[0] == rows[0]);
        assert(tail[k - 1] == rows[k]);
        assert(f(rows[0]) + (rows_toks(tail.take(k - 1), f) + f(rows[k])) =~= (f(rows[0])
            + rows_toks(tail.take(k - 1), f)) + f(rows[k]));
    }
}

/// The tokens of one configuration pair.
pub open spec fn pair_toks(p: (Seq<u8>, Seq<u8>)) -> Seq<Tok> {
    seq![Tok::Str(p.0), Tok::Str(p.1)]
}

/// The tokens of the configuration pairs, in order.
pub open spec fn config_pairs_toks(pairs: Seq<(Seq<u8>, Seq<u8>)>) -> Seq<Tok> {
    rows_toks(pairs, |p: (Seq<u8>, Seq<u8>)| pair_toks(p))
}

/// The `_config` section: a dictionary of the pairs.
pub open spec fn config_toks(pairs: Seq<(Seq<u8>, Seq<u8>)>) -> Seq<Tok> {
    seq![Tok::Dict] + config_pairs_toks(pairs) + seq![Tok::End]
}

/// The tokens of one contact row, fields in schema order, optional fields
/// omitted when absent (the status also when empty).
pub open spec fn contact_toks(c: ContactV) -> Seq<Tok> {
    seq![
        Tok::Dict,
        Tok::Str(kb_id()),
        Tok::Int(c.id as i64),
        Tok::Str(kb_name()),
        Tok::Str(c.name),
        Tok::Str(kb_addr()),
        Tok::Str(c.addr),
    ] + (match c.origin {
        Option::Some(o) => seq![Tok::Str(kb_origin()), Tok::Int(o as i64)],
        Option::None => Seq::empty(),
    }) + seq![
        Tok::Str(kb_blocked()),
        Tok::Int(if c.blocked { 1i64 } else { 0i64 }),
        Tok::Str(kb_last_seen()),
        Tok::Int(c.last_seen),
        Tok::Str(kb_param()),
        Tok::Str(c.param),
        Tok::Str(kb_authname()),
        Tok::Str(c.authname),
        Tok::Str(kb_selfavatar_sent()),
        Tok::Int(c.selfavatar_sent),
    ] + (match c.status {
        Option::Some(st) => if st.len() > 0 {
            seq![Tok::Str(kb_status()), Tok::Str(st)]
        } else {
            Seq::empty()
        },
        Option::None => Seq::empty(),
    }) + seq![Tok::End]
}

/// The rows of the contacts section.
pub open spec fn contact_rows_toks(cs: Seq<ContactV>) -> Seq<Tok> {
    rows_toks(cs, |c: ContactV| contact_toks(c))
}

/// The contacts section: a list of row dictionaries.
pub open spec fn contacts_toks(cs: Seq<ContactV>) -> Seq<Tok> {
    seq![Tok::List] + contact_rows_toks(cs) + seq![Tok::End]
}

/// The tokens of one chat row.
pub open spec fn chat_toks(c: Chat) -> Seq<Tok> {
    seq![Tok::Dict, Tok::Str(kb_id()), Tok::Int(c.id as i64)] + (match c.typ {
        Option::Some(t) => seq![Tok::Str(kb_typ()), Tok::Int(t as i64)],
        Option::None => Seq::empty(),
    }) + seq![Tok::End]
}

pub open spec fn chat_rows_toks(cs: Seq<Chat>) -> Seq<Tok> {
    rows_toks(cs, |c: Chat| chat_toks(c))
}

/// The tokens of the left-groups section: a list of group ids.
pub open spec fn leftgroups_rows_toks(gs: Seq<Seq<u8>>) -> Seq<Tok> {
    rows_toks(gs, |g: Seq<u8>| seq![Tok::Str(g)])
}

/// The tokens of one key pair row.  The address is stored under the key
/// `type`, as the store writes it.
pub open spec fn keypair_toks(k: KeypairV) -> Seq<Tok> {
    seq![
        Tok::Dict,
        Tok::Str(kb_id()),
        Tok::Int(k.id as i64),
        Tok::Str(kb_typ()),
        Tok::Str(k.addr),
        Tok::Str(kb_is_default()),
        Tok::Int(if k.is_default { 1i64 } else { 0i64 }),
        Tok::Str(kb_private_key()),
        Tok::Str(k.private_key),
        Tok::Str(kb_public_key()),
        Tok::Str(k.public_key),
        Tok::Str(kb_created()),
        Tok::Int(k.created),
        Tok::End,
    ]
}

/// The value of a key pair row.
pub struct KeypairV {
    pub id: u32,
    pub addr: Seq<u8>,
    pub is_default: bool,
    pub private_key: Seq<u8>,
    pub public_key: Seq<u8>,
    pub created: i64,
}

impl View for Keypair {
    type V = KeypairV;

    open spec fn view(&self) -> KeypairV {
        KeypairV {
            id: self.id,
            addr: self.addr@,
            is_default: self.is_default,
            private_key: self.private_key@,
            public_key: self.public_key@,
            created: self.created,
        }
    }
}

pub open spec fn keypair_rows_toks(ks: Seq<KeypairV>) -> Seq<Tok> {
    rows_toks(ks, |k: KeypairV| keypair_toks(k))
}

/// The value of a message row.
pub struct MessageV {
    pub id: i64,
    pub rfc724_mid: Seq<u8>,
    pub chat_id: i64,
    pub from_id: i64,
    pub to_id: i64,
    pub timestamp: i64,
    pub typ: i64,
    pub state: i64,
    pub msgrmsg: i64,
    pub bytes: i64,
    pub txt: Seq<u8>,
    pub txt_raw: Seq<u8>,
    pub param: Seq<u8>,
    pub timestamp_sent: i64,
    pub timestamp_rcvd: i64,
    pub hidden: i64,
    pub mime_headers: Seq<u8>,
    pub mime_in_reply_to: Option<Seq<u8>>,
    pub mime_references: Option<Seq<u8>>,
    pub location_id: i64,
}

impl View for Message {
    type V = MessageV;

    open spec fn view(&self) -> MessageV {
        MessageV {
            id: self.id,
            rfc724_mid: self.rfc724_mid@,
            chat_id: self.chat_id,
            from_id: self.from_id,
            to_id: self.to_id,
            timestamp: self.timestamp,
            typ: self.typ,
            state: self.state,
            msgrmsg: self.msgrmsg,
            bytes: self.bytes,
            txt: self.txt@,
            txt_raw: self.txt_raw@,
            param: self.param@,
            timestamp_sent: self.timestamp_sent,
            timestamp_rcvd: self.timestamp_rcvd,
            hidden: self.hidden,
            mime_headers: self.mime_headers@,
            mime_in_reply_to: match self.mime_in_reply_to {
                Option::Some(ref s) => Option::Some(s@),
                Option::None => Option::None,
            },
            mime_references: match self.mime_references {
                Option::Some(ref s) => Option::Some(s@),
                Option::None => Option::None,
            },
            location_id: self.location_id,
        }
    }
}

/// The tokens of one message row.
pub open spec fn message_toks(m: MessageV) -> Seq<Tok> {
    seq![
        Tok::Dict,
        Tok::Str(kb_id()),
        Tok::Int(m.id),
        Tok::Str(kb_rfc724_mid()),
        Tok::Str(m.rfc724_mid),
        Tok::Str(kb_chat_id()),
        Tok::Int(m.chat_id),
        Tok::Str(kb_from_id()),
        Tok::Int(m.from_id),
        Tok::Str(kb_to_id()),
        Tok::Int(m.to_id),
        Tok::Str(kb_timestamp()),
        Tok::Int(m.timestamp),
        Tok::Str(kb_typ()),
        Tok::Int(m.typ),
        Tok::Str(kb_state()),
        Tok::Int(m.state),
        Tok::Str(kb_msgrmsg()),
        Tok::Int(m.msgrmsg),
        Tok::Str(kb_bytes()),
        Tok::Int(m.bytes),
        Tok::Str(kb_txt()),
        Tok::Str(m.txt),
        Tok::Str(kb_txt_raw()),
        Tok::Str(m.txt_raw),
        Tok::Str(kb_param()),
        Tok::Str(m.param),
        Tok::Str(kb_timestamp_sent()),
        Tok::Int(m.timestamp_sent),
        Tok::Str(kb_timestamp_rcvd()),
        Tok::Int(m.timestamp_rcvd),
        Tok::Str(kb_hidden()),
        Tok::Int(m.hidden),
        Tok::Str(kb_mime_headers()),
        Tok::Str(m.mime_headers),
    ] + (match m.mime_in_reply_to {
        Option::Some(s) => seq![Tok::Str(kb_mime_in_reply_to()), Tok::Str(s)],
        Option::None => Seq::empty(),
    }) + (match m.mime_references {
        Option::Some(s) => seq![Tok::Str(kb_mime_references()), Tok::Str(s)],
        Option::None => Seq::empty(),
    }) + seq![Tok::Str(kb_location_id()), Tok::Int(m.location_id), Tok::End]
}

pub open spec fn message_rows_toks(ms: Seq<MessageV>) -> Seq<Tok> {
    rows_toks(ms, |m: MessageV| message_toks(m))
}

/// The tokens of one read-receipt row.
pub open spec fn mdn_toks(m: Mdn) -> Seq<Tok> {
    seq![
        Tok::Dict,
        Tok::Str(kb_msg_id()),
        Tok::Int(m.msg_id as i64),
        Tok::Str(kb_contact_id()),
        Tok::Int(m.contact_id as i64),
        Tok::Str(kb_timestamp_sent()),
        Tok::Int(m.timestamp_sent),
        Tok::End,
    ]
}

pub open spec fn mdn_rows_toks(ms: Seq<Mdn>) -> Seq<Tok> {
    rows_toks(ms, |m: Mdn| mdn_toks(m))
}

/// A section that holds a list of rows.
pub open spec fn list_section(rows: Seq<Tok>) -> Seq<Tok> {
    seq![Tok::List] + rows + seq![Tok::End]
}

/// A section the store holds nothing for: an empty list.
pub open spec fn empty_section() -> Seq<Tok> {
    seq![Tok::List, Tok::End]
}

/// The whole snapshot as a token sequence: the top-level dictionary with
/// its sections in their fixed order.
pub open spec fn store_toks(
    config: Seq<(Seq<u8>, Seq<u8>)>,
    contacts: Seq<ContactV>,
    chats: Seq<Chat>,
    leftgroups: Seq<Seq<u8>>,
    keypairs: Seq<KeypairV>,
    messages: Seq<MessageV>,
    mdns: Seq<Mdn>,
) -> Seq<Tok> {
    seq![Tok::Dict] + seq![Tok::Str(kb_top_config())] + config_toks(config) + seq![
        Tok::Str(kb_acpeerstates()),
    ] + empty_section() + seq![Tok::Str(kb_chats())] + list_section(chat_rows_toks(chats)) + seq![
        Tok::Str(kb_chats_contacts()),
    ] + empty_section() + seq![Tok::Str(kb_contacts())] + contacts_toks(contacts) + seq![
        Tok::Str(kb_dns_cache()),
    ] + empty_section() + seq![Tok::Str(kb_imap())] + empty_section() + seq![
        Tok::Str(kb_imap_sync()),
    ] + empty_section() + seq![Tok::Str(kb_keypairs())] + list_section(
        keypair_rows_toks(keypairs),
    ) + seq![Tok::Str(kb_leftgroups())] + list_section(leftgroups_rows_toks(leftgroups)) + seq![
        Tok::Str(kb_locations()),
    ] + empty_section() + seq![Tok::Str(kb_mdns())] + list_section(mdn_rows_toks(mdns)) + seq![
        Tok::Str(kb_messages()),
    ] + list_section(message_rows_toks(messages)) + seq![Tok::Str(kb_msgs_status_updates())]
        + empty_section() + seq![Tok::Str(kb_multi_device_sync())] + empty_section() + seq![
        Tok::Str(kb_reactions()),
    ] + empty_section() + seq![Tok::Str(kb_sending_domains())] + empty_section() + seq![
        Tok::Str(kb_tokens()),
    ] + empty_section() + seq![Tok::End]
}

/// The token sequence of a whole store value.
pub open spec fn store_toks_of(s: &Store) -> Seq<Tok> {
    store_toks(
        config_view(s.config@),
        contacts_view(s.contacts@),
        s.chats@,
        s.leftgroups@.map_values(|g: Vec<u8>| g@),
        s.keypairs@.map_values(|k: Keypair| k@),
        s.messages@.map_values(|m: Message| m@),
        s.mdns@,
    )
}

/// A configuration fit for a snapshot: exactly one `dbversion` entry, and
/// its value is the supported version.
pub open spec fn config_ok(pairs: Seq<(Seq<u8>, Seq<u8>)>) -> bool {
    (exists|i: int| 0 <= i < pairs.len() && (#[trigger] pairs[i]).0 == kb_dbversion()) && (forall|
        i: int,
    |
        0 <= i < pairs.len() && (#[trigger] pairs[i]).0 == kb_dbversion() ==> pairs[i].1
            == kb_v99()) && (forall|i: int, j: int|
        0 <= i < j < pairs.len() ==> !((#[trigger] pairs[i]).0 == kb_dbversion() && (
        #[trigger] pairs[j]).0 == kb_dbversion()))
}

/// Contact rows whose encoding reads back identically: an empty status is
/// written as no status at all, so it must not be stored as present.
pub open spec fn contacts_ok(cs: Seq<ContactV>) -> bool {
    forall|i: int| 0 <= i < cs.len() ==> (#[trigger] cs[i]).status != Option::Some(Seq::<u8>::empty())
}

} // verus!
