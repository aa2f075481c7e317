//! The snapshot encoder: turns a store into the byte stream that
//! `store_toks` and `cat` describe.  It first lays the store out as a
//! token sequence, then writes each token with a leading newline.

use vstd::prelude::*;

use crate::bencode::cat;
use crate::bencode::dec_i64;
use crate::bencode::dec_u64;
use crate::bencode::lemma_cat_add;
use crate::bencode::tok_bytes;
use crate::bencode::wf_tok;
use crate::bencode::wf_toks;
use crate::bencode::Tok;
use crate::bencode::Token;
use crate::keys::k_acpeerstates;
use crate::keys::k_addr;
use crate::keys::k_authname;
use crate::keys::k_blocked;
use crate::keys::k_bytes;
use crate::keys::k_chat_id;
use crate::keys::k_chats;
use crate::keys::k_chats_contacts;
use crate::keys::k_contact_id;
use crate::keys::k_contacts;
use crate::keys::k_created;
use crate::keys::k_dns_cache;
use crate::keys::k_from_id;
use crate::keys::k_hidden;
use crate::keys::k_id;
use crate::keys::k_imap;
use crate::keys::k_imap_sync;
use crate::keys::k_is_default;
use crate::keys::k_keypairs;
use crate::keys::k_last_seen;
use crate::keys::k_leftgroups;
use crate::keys::k_location_id;
use crate::keys::k_locations;
use crate::keys::k_mdns;
use crate::keys::k_messages;
use crate::keys::k_mime_headers;
use crate::keys::k_mime_in_reply_to;
use crate::keys::k_mime_references;
use crate::keys::k_msg_id;
use crate::keys::k_msgrmsg;
use crate::keys::k_msgs_status_updates;
use crate::keys::k_multi_device_sync;
use crate::keys::k_name;
use crate::keys::k_origin;
use crate::keys::k_param;
use crate::keys::k_private_key;
use crate::keys::k_public_key;
use crate::keys::k_reactions;
use crate::keys::k_rfc724_mid;
use crate::keys::k_selfavatar_sent;
use crate::keys::k_sending_domains;
use crate::keys::k_state;
use crate::keys::k_status;
use crate::keys::k_timestamp;
use crate::keys::k_timestamp_rcvd;
use crate::keys::k_timestamp_sent;
use crate::keys::k_to_id;
use crate::keys::k_tokens;
use crate::keys::k_top_config;
use crate::keys::k_txt;
use crate::keys::k_txt_raw;
use crate::keys::k_typ;
use crate::store::chat_rows_toks;
use crate::store::chat_toks;
use crate::store::config_pairs_toks;
use crate::store::config_toks;
use crate::store::config_view;
use crate::store::contact_rows_toks;
use crate::store::contact_toks;
use crate::store::contacts_toks;
use crate::store::contacts_view;
use crate::store::empty_section;
use crate::store::keypair_rows_toks;
use crate::store::keypair_toks;
use crate::store::leftgroups_rows_toks;
use crate::store::lemma_rows_toks_snoc;
use crate::store::list_section;
use crate::store::mdn_rows_toks;
use crate::store::mdn_toks;
use crate::store::message_rows_toks;
use crate::store::message_toks;
use crate::store::pair_toks;
use crate::store::store_toks_of;
use crate::store::Chat;
use crate::store::Contact;
use crate::store::Keypair;
use crate::store::Mdn;
use crate::store::Message;
use crate::store::Store;

verus! {

/// The values of a token vector.
pub open spec fn toks_view(v: Seq<Token>) -> Seq<Tok> {
    v.map_values(|t: Token| t@)
}

/// Copies a byte vector.
fn copy_bytes(v: &Vec<u8>) -> (r: Vec<u8>)
    ensures
        r@ == v@,
{
    let mut r: Vec<u8> = Vec::new();
    let mut k: usize = 0;
    while k < v.len()
        invariant
            0 <= k <= v@.len(),
            r@ == v@.subrange(0, k as int),
        decreases v@.len() - k,
    {
        r.push(v[k]);
        proof {
            assert(v@.subrange(0, k + 1 as int) =~= v@.subrange(0, k as int).push(v@[k as int]));
        }
        k = k + 1;
    }
    proof {
        assert(v@.subrange(0, v@.len() as int) =~= v@);
    }
    r
}

/// Appends one token; its value is well-formed because a vector is never
/// longer than the platform can address.
fn push_tok(out: &mut Vec<Token>, t: Token)
    ensures
        toks_view(final(out)@) == toks_view(old(out)@) + seq![t@],
        wf_tok(t@),
{
    let ghost tv = t@;
    let ghost prev = toks_view(out@);
    proof {
        match t {
            Token::Str(ref b) => {
                assert(b@.len() <= usize::MAX) by {
                    vstd::std_specs::vec::axiom_spec_len(b);
                }
            },
            _ => {},
        }
    }
    out.push(t);
    proof {
        assert forall|j: int| 0 <= j < toks_view(out@).len() implies #[trigger] toks_view(out@)[j]
            == (prev + seq![tv])[j] by {
            if j < prev.len() {
                assert(out@[j] == old(out)@[j]);
            } else {
                assert(out@[j]@ == tv);
            }
        }
        assert(toks_view(out@) =~= prev + seq![tv]);
    }
}

/// Appends the `_config` section tokens.
fn build_config(out: &mut Vec<Token>, pairs: &Vec<(Vec<u8>, Vec<u8>)>)
    ensures
        toks_view(final(out)@) == toks_view(old(out)@) + config_toks(config_view(pairs@)),
{
    let ghost base = toks_view(out@);
    let ghost pv = config_view(pairs@);
    push_tok(out, Token::Dict);
    let mut k: usize = 0;
    proof {
        assert(toks_view(out@) =~= base + (seq![Tok::Dict] + rows_prefix(pv, 0)));
    }
    while k < pairs.len()
        invariant
            0 <= k <= pairs@.len(),
            pv == config_view(pairs@),
            toks_view(out@) == base + (seq![Tok::Dict] + config_pairs_toks(pv.take(k as int))),
        decreases pairs@.len() - k,
    {
        let key = copy_bytes(&pairs[k].0);
        let val = copy_bytes(&pairs[k].1);
        let ghost before = toks_view(out@);
        push_tok(out, Token::Str(key));
        push_tok(out, Token::Str(val));
        proof {
            lemma_rows_toks_snoc(pv, |p: (Seq<u8>, Seq<u8>)| pair_toks(p), k as int);
            assert(pv[k as int] == (pairs@[k as int].0@, pairs@[k as int].1@));
            assert((before + seq![Tok::Str(pairs@[k as int].0@)]) + seq![
                Tok::Str(pairs@[k as int].1@),
            ] =~= base + (seq![Tok::Dict] + (config_pairs_toks(pv.take(k as int)) + pair_toks(
                pv[k as int],
            ))));
        }
        k = k + 1;
    }
    proof {
        assert(pv.take(pv.len() as int) =~= pv);
    }
    push_tok(out, Token::End);
    proof {
        assert((base + (seq![Tok::Dict] + config_pairs_toks(pv))) + seq![Tok::End] =~= base + (
        seq![Tok::Dict] + config_pairs_toks(pv) + seq![Tok::End]));
    }
}

/// The rows-of-tokens prefix helper used to phrase loop invariants.
pub open spec fn rows_prefix(pairs: Seq<(Seq<u8>, Seq<u8>)>, k: int) -> Seq<Tok> {
    config_pairs_toks(pairs.take(k))
}

/// Appends the tokens of one contact row.
#[verifier::rlimit(60)]
fn push_contact(out: &mut Vec<Token>, c: &Contact)
    ensures
        toks_view(final(out)@) == toks_view(old(out)@) + contact_toks(c@),
{
    let ghost base = toks_view(out@);
    push_tok(out, Token::Dict);
    push_tok(out, Token::Str(k_id()));
    push_tok(out, Token::Int(c.id as i64));
    push_tok(out, Token::Str(k_name()));
    push_tok(out, Token::Str(copy_bytes(&c.name)));
    push_tok(out, Token::Str(k_addr()));
    push_tok(out, Token::Str(copy_bytes(&c.addr)));
    match c.origin {
        Option::Some(o) => {
            push_tok(out, Token::Str(k_origin()));
            push_tok(out, Token::Int(o as i64));
        },
        Option::None => {},
    }
    push_tok(out, Token::Str(k_blocked()));
    push_tok(out, Token::Int(if c.blocked { 1i64 } else { 0i64 }));
    push_tok(out, Token::Str(k_last_seen()));
    push_tok(out, Token::Int(c.last_seen));
    push_tok(out, Token::Str(k_param()));
    push_tok(out, Token::Str(copy_bytes(&c.param)));
    push_tok(out, Token::Str(k_authname()));
    push_tok(out, Token::Str(copy_bytes(&c.authname)));
    push_tok(out, Token::Str(k_selfavatar_sent()));
    push_tok(out, Token::Int(c.selfavatar_sent));
    match c.status {
        Option::Some(ref st) => {
            if st.len() > 0 {
                push_tok(out, Token::Str(k_status()));
                push_tok(out, Token::Str(copy_bytes(st)));
            }
        },
        Option::None => {},
    }
    push_tok(out, Token::End);
    proof {
        assert(toks_view(out@) =~= base + contact_toks(c@));
    }
}

/// Appends the contacts section tokens.
fn build_contacts(out: &mut Vec<Token>, cs: &Vec<Contact>)
    ensures
        toks_view(final(out)@) == toks_view(old(out)@) + contacts_toks(contacts_view(cs@)),
{
    let ghost base = toks_view(out@);
    let ghost cv = contacts_view(cs@);
    push_tok(out, Token::List);
    let mut k: usize = 0;
    proof {
        assert(toks_view(out@) =~= base + (seq![Tok::List] + contact_rows_toks(
            cv.take(0),
        )));
    }
    while k < cs.len()
        invariant
            0 <= k <= cs@.len(),
            cv == contacts_view(cs@),
            toks_view(out@) == base + (seq![Tok::List] + contact_rows_toks(cv.take(k as int))),
        decreases cs@.len() - k,
    {
        let ghost before = toks_view(out@);
        push_contact(out, &cs[k]);
        proof {
            lemma_rows_toks_snoc(cv, |c: crate::store::ContactV| contact_toks(c), k as int);
            assert(cv[k as int] == cs@[k as int]@);
            assert(before + contact_toks(cv[k as int]) =~= base + (seq![Tok::List] + (
            contact_rows_toks(cv.take(k as int)) + contact_toks(cv[k as int]))));
        }
        k = k + 1;
    }
    proof {
        assert(cv.take(cv.len() as int) =~= cv);
    }
    push_tok(out, Token::End);
    proof {
        assert((base + (seq![Tok::List] + contact_rows_toks(cv))) + seq![Tok::End] =~= base
            + contacts_toks(cv));
    }
}

/// Appends the chats section tokens.
fn build_chats(out: &mut Vec<Token>, cs: &Vec<Chat>)
    ensures
        toks_view(final(out)@) == toks_view(old(out)@) + list_section(chat_rows_toks(cs@)),
{
    let ghost base = toks_view(out@);
    push_tok(out, Token::List);
    let mut k: usize = 0;
    proof {
        assert(toks_view(out@) =~= base + (seq![Tok::List] + chat_rows_toks(cs@.take(0))));
    }
    while k < cs.len()
        invariant
            0 <= k <= cs@.len(),
            toks_view(out@) == base + (seq![Tok::List] + chat_rows_toks(cs@.take(k as int))),
        decreases cs@.len() - k,
    {
        let ghost before = toks_view(out@);
        push_tok(out, Token::Dict);
        push_tok(out, Token::Str(k_id()));
        push_tok(out, Token::Int(cs[k].id as i64));
        match cs[k].typ {
            Option::Some(t) => {
                push_tok(out, Token::Str(k_typ()));
                push_tok(out, Token::Int(t as i64));
            },
            Option::None => {},
        }
        push_tok(out, Token::End);
        proof {
            lemma_rows_toks_snoc(cs@, |c: Chat| chat_toks(c), k as int);
            assert(toks_view(out@) =~= before + chat_toks(cs@[k as int]));
            assert(before + chat_toks(cs@[k as int]) =~= base + (seq![Tok::List] + (
            chat_rows_toks(cs@.take(k as int)) + chat_toks(cs@[k as int]))));
        }
        k = k + 1;
    }
    proof {
        assert(cs@.take(cs@.len() as int) =~= cs@);
    }
    push_tok(out, Token::End);
    proof {
        assert((base + (seq![Tok::List] + chat_rows_toks(cs@))) + seq![Tok::End] =~= base
            + list_section(chat_rows_toks(cs@)));
    }
}

/// Appends the left-groups section tokens.
fn build_leftgroups(out: &mut Vec<Token>, gs: &Vec<Vec<u8>>)
    ensures
        toks_view(final(out)@) == toks_view(old(out)@) + list_section(
            leftgroups_rows_toks(gs@.map_values(|g: Vec<u8>| g@)),
        ),
{
    let ghost base = toks_view(out@);
    let ghost gv = gs@.map_values(|g: Vec<u8>| g@);
    push_tok(out, Token::List);
    let mut k: usize = 0;
    proof {
        assert(toks_view(out@) =~= base + (seq![Tok::List] + leftgroups_rows_toks(gv.take(0))));
    }
    while k < gs.len()
        invariant
            0 <= k <= gs@.len(),
            gv == gs@.map_values(|g: Vec<u8>| g@),
            toks_view(out@) == base + (seq![Tok::List] + leftgroups_rows_toks(gv.take(k as int))),
        decreases gs@.len() - k,
    {
        let ghost before = toks_view(out@);
        push_tok(out, Token::Str(copy_bytes(&gs[k])));
        proof {
            lemma_rows_toks_snoc(gv, |g: Seq<u8>| seq![Tok::Str(g)], k as int);
            assert(gv[k as int] == gs@[k as int]@);
            assert(before + seq![Tok::Str(gv[k as int])] =~= base + (seq![Tok::List] + (
            leftgroups_rows_toks(gv.take(k as int)) + seq![Tok::Str(gv[k as int])])));
        }
        k = k + 1;
    }
    proof {
        assert(gv.take(gv.len() as int) =~= gv);
    }
    push_tok(out, Token::End);
    proof {
        assert((base + (seq![Tok::List] + leftgroups_rows_toks(gv))) + seq![Tok::End] =~= base
            + list_section(leftgroups_rows_toks(gv)));
    }
}

/// Appends the key pairs section tokens.
fn build_keypairs(out: &mut Vec<Token>, ks: &Vec<Keypair>)
    ensures
        toks_view(final(out)@) == toks_view(old(out)@) + list_section(
            keypair_rows_toks(ks@.map_values(|k: Keypair| k@)),
        ),
{
    let ghost base = toks_view(out@);
    let ghost kv = ks@.map_values(|k: Keypair| k@);
    push_tok(out, Token::List);
    let mut k: usize = 0;
    proof {
        assert(toks_view(out@) =~= base + (seq![Tok::List] + keypair_rows_toks(kv.take(0))));
    }
    while k < ks.len()
        invariant
            0 <= k <= ks@.len(),
            kv == ks@.map_values(|k: Keypair| k@),
            toks_view(out@) == base + (seq![Tok::List] + keypair_rows_toks(kv.take(k as int))),
        decreases ks@.len() - k,
    {
        let ghost before = toks_view(out@);
        push_tok(out, Token::Dict);
        push_tok(out, Token::Str(k_id()));
        push_tok(out, Token::Int(ks[k].id as i64));
        push_tok(out, Token::Str(k_typ()));
        push_tok(out, Token::Str(copy_bytes(&ks[k].addr)));
        push_tok(out, Token::Str(k_is_default()));
        push_tok(out, Token::Int(if ks[k].is_default { 1i64 } else { 0i64 }));
        push_tok(out, Token::Str(k_private_key()));
        push_tok(out, Token::Str(copy_bytes(&ks[k].private_key)));
        push_tok(out, Token::Str(k_public_key()));
        push_tok(out, Token::Str(copy_bytes(&ks[k].public_key)));
        push_tok(out, Token::Str(k_created()));
        push_tok(out, Token::Int(ks[k].created));
        push_tok(out, Token::End);
        proof {
            lemma_rows_toks_snoc(kv, |x: crate::store::KeypairV| keypair_toks(x), k as int);
            assert(kv[k as int] == ks@[k as int]@);
            assert(toks_view(out@) =~= before + keypair_toks(kv[k as int]));
            assert(before + keypair_toks(kv[k as int]) =~= base + (seq![Tok::List] + (
            keypair_rows_toks(kv.take(k as int)) + keypair_toks(kv[k as int]))));
        }
        k = k + 1;
    }
    proof {
        assert(kv.take(kv.len() as int) =~= kv);
    }
    push_tok(out, Token::End);
    proof {
        assert((base + (seq![Tok::List] + keypair_rows_toks(kv))) + seq![Tok::End] =~= base
            + list_section(keypair_rows_toks(kv)));
    }
}

/// Appends the tokens of one message row.
#[verifier::rlimit(60)]
fn push_message(out: &mut Vec<Token>, m: &Message)
    ensures
        toks_view(final(out)@) == toks_view(old(out)@) + message_toks(m@),
{
    let ghost base = toks_view(out@);
    push_tok(out, Token::Dict);
    push_tok(out, Token::Str(k_id()));
    push_tok(out, Token::Int(m.id));
    push_tok(out, Token::Str(k_rfc724_mid()));
    push_tok(out, Token::Str(copy_bytes(&m.rfc724_mid)));
    push_tok(out, Token::Str(k_chat_id()));
    push_tok(out, Token::Int(m.chat_id));
    push_tok(out, Token::Str(k_from_id()));
    push_tok(out, Token::Int(m.from_id));
    push_tok(out, Token::Str(k_to_id()));
    push_tok(out, Token::Int(m.to_id));
    push_tok(out, Token::Str(k_timestamp()));
    push_tok(out, Token::Int(m.timestamp));
    push_tok(out, Token::Str(k_typ()));
    push_tok(out, Token::Int(m.typ));
    push_tok(out, Token::Str(k_state()));
    push_tok(out, Token::Int(m.state));
    push_tok(out, Token::Str(k_msgrmsg()));
    push_tok(out, Token::Int(m.msgrmsg));
    push_tok(out, Token::Str(k_bytes()));
    push_tok(out, Token::Int(m.bytes));
    push_tok(out, Token::Str(k_txt()));
    push_tok(out, Token::Str(copy_bytes(&m.txt)));
    push_tok(out, Token::Str(k_txt_raw()));
    push_tok(out, Token::Str(copy_bytes(&m.txt_raw)));
    push_tok(out, Token::Str(k_param()));
    push_tok(out, Token::Str(copy_bytes(&m.param)));
    push_tok(out, Token::Str(k_timestamp_sent()));
    push_tok(out, Token::Int(m.timestamp_sent));
    push_tok(out, Token::Str(k_timestamp_rcvd()));
    push_tok(out, Token::Int(m.timestamp_rcvd));
    push_tok(out, Token::Str(k_hidden()));
    push_tok(out, Token::Int(m.hidden));
    push_tok(out, Token::Str(k_mime_headers()));
    push_tok(out, Token::Str(copy_bytes(&m.mime_headers)));
    match m.mime_in_reply_to {
        Option::Some(ref s) => {
            push_tok(out, Token::Str(k_mime_in_reply_to()));
            push_tok(out, Token::Str(copy_bytes(s)));
        },
        Option::None => {},
    }
    match m.mime_references {
        Option::Some(ref s) => {
            push_tok(out, Token::Str(k_mime_references()));
            push_tok(out, Token::Str(copy_bytes(s)));
        },
        Option::None => {},
    }
    push_tok(out, Token::Str(k_location_id()));
    push_tok(out, Token::Int(m.location_id));
    push_tok(out, Token::End);
    proof {
        assert(toks_view(out@) =~= base + message_toks(m@));
    }
}

/// Appends the messages section tokens.
fn build_messages(out: &mut Vec<Token>, ms: &Vec<Message>)
    ensures
        toks_view(final(out)@) == toks_view(old(out)@) + list_section(
            message_rows_toks(ms@.map_values(|m: Message| m@)),
        ),
{
    let ghost base = toks_view(out@);
    let ghost mv = ms@.map_values(|m: Message| m@);
    push_tok(out, Token::List);
    let mut k: usize = 0;
    proof {
        assert(toks_view(out@) =~= base + (seq![Tok::List] + message_rows_toks(mv.take(0))));
    }
    while k < ms.len()
        invariant
            0 <= k <= ms@.len(),
            mv == ms@.map_values(|m: Message| m@),
            toks_view(out@) == base + (seq![Tok::List] + message_rows_toks(mv.take(k as int))),
        decreases ms@.len() - k,
    {
        let ghost before = toks_view(out@);
        push_message(out, &ms[k]);
        proof {
            lemma_rows_toks_snoc(mv, |x: crate::store::MessageV| message_toks(x), k as int);
            assert(mv[k as int] == ms@[k as int]@);
            assert(before + message_toks(mv[k as int]) =~= base + (seq![Tok::List] + (
            message_rows_toks(mv.take(k as int)) + message_toks(mv[k as int]))));
        }
        k = k + 1;
    }
    proof {
        assert(mv.take(mv.len() as int) =~= mv);
    }
    push_tok(out, Token::End);
    proof {
        assert((base + (seq![Tok::List] + message_rows_toks(mv))) + seq![Tok::End] =~= base
            + list_section(message_rows_toks(mv)));
    }
}

/// Appends the read-receipts section tokens.
fn build_mdns(out: &mut Vec<Token>, ms: &Vec<Mdn>)
    ensures
        toks_view(final(out)@) == toks_view(old(out)@) + list_section(mdn_rows_toks(ms@)),
{
    let ghost base = toks_view(out@);
    push_tok(out, Token::List);
    let mut k: usize = 0;
    proof {
        assert(toks_view(out@) =~= base + (seq![Tok::List] + mdn_rows_toks(ms@.take(0))));
    }
    while k < ms.len()
        invariant
            0 <= k <= ms@.len(),
            toks_view(out@) == base + (seq![Tok::List] + mdn_rows_toks(ms@.take(k as int))),
        decreases ms@.len() - k,
    {
        let ghost before = toks_view(out@);
        push_tok(out, Token::Dict);
        push_tok(out, Token::Str(k_msg_id()));
        push_tok(out, Token::Int(ms[k].msg_id as i64));
        push_tok(out, Token::Str(k_contact_id()));
        push_tok(out, Token::Int(ms[k].contact_id as i64));
        push_tok(out, Token::Str(k_timestamp_sent()));
        push_tok(out, Token::Int(ms[k].timestamp_sent));
        push_tok(out, Token::End);
        proof {
            lemma_rows_toks_snoc(ms@, |x: Mdn| mdn_toks(x), k as int);
            assert(toks_view(out@) =~= before + mdn_toks(ms@[k as int]));
            assert(before + mdn_toks(ms@[k as int]) =~= base + (seq![Tok::List] + (mdn_rows_toks(
                ms@.take(k as int),
            ) + mdn_toks(ms@[k as int]))));
        }
        k = k + 1;
    }
    proof {
        assert(ms@.take(ms@.len() as int) =~= ms@);
    }
    push_tok(out, Token::End);
    proof {
        assert((base + (seq![Tok::List] + mdn_rows_toks(ms@))) + seq![Tok::End] =~= base
            + list_section(mdn_rows_toks(ms@)));
    }
}

/// Appends an empty list section.
fn build_empty_section(out: &mut Vec<Token>)
    ensures
        toks_view(final(out)@) == toks_view(old(out)@) + empty_section(),
{
    let ghost base = toks_view(out@);
    push_tok(out, Token::List);
    push_tok(out, Token::End);
    proof {
        assert((base + seq![Tok::List]) + seq![Tok::End] =~= base + empty_section());
    }
}

/// Lays the whole store out as a token sequence.
fn build_store_tokens(store: &Store) -> (out: Vec<Token>)
    ensures
        toks_view(out@) == store_toks_of(store),
{
    let mut out: Vec<Token> = Vec::new();
    push_tok(&mut out, Token::Dict);
    proof {
        assert(toks_view(out@) =~= seq![Tok::Dict]);
    }
    push_tok(&mut out, Token::Str(k_top_config()));
    build_config(&mut out, &store.config);
    push_tok(&mut out, Token::Str(k_acpeerstates()));
    build_empty_section(&mut out);
    push_tok(&mut out, Token::Str(k_chats()));
    build_chats(&mut out, &store.chats);
    push_tok(&mut out, Token::Str(k_chats_contacts()));
    build_empty_section(&mut out);
    push_tok(&mut out, Token::Str(k_contacts()));
    build_contacts(&mut out, &store.contacts);
    push_tok(&mut out, Token::Str(k_dns_cache()));
    build_empty_section(&mut out);
    push_tok(&mut out, Token::Str(k_imap()));
    build_empty_section(&mut out);
    push_tok(&mut out, Token::Str(k_imap_sync()));
    build_empty_section(&mut out);
    push_tok(&mut out, Token::Str(k_keypairs()));
    build_keypairs(&mut out, &store.keypairs);
    push_tok(&mut out, Token::Str(k_leftgroups()));
    build_leftgroups(&mut out, &store.leftgroups);
    push_tok(&mut out, Token::Str(k_locations()));
    build_empty_section(&mut out);
    push_tok(&mut out, Token::Str(k_mdns()));
    build_mdns(&mut out, &store.mdns);
    push_tok(&mut out, Token::Str(k_messages()));
    build_messages(&mut out, &store.messages);
    push_tok(&mut out, Token::Str(k_msgs_status_updates()));
    build_empty_section(&mut out);
    push_tok(&mut out, Token::Str(k_multi_device_sync()));
    build_empty_section(&mut out);
    push_tok(&mut out, Token::Str(k_reactions()));
    build_empty_section(&mut out);
    push_tok(&mut out, Token::Str(k_sending_domains()));
    build_empty_section(&mut out);
    push_tok(&mut out, Token::Str(k_tokens()));
    build_empty_section(&mut out);
    push_tok(&mut out, Token::End);
    proof {
        assert(toks_view(out@) == store_toks_of(store));
    }
    out
}

/// Every token held in a vector is well-formed: its payload fits the
/// platform.
proof fn lemma_toks_view_wf(v: Seq<Token>)
    ensures
        wf_toks(toks_view(v)),
{
    assert forall|i: int| 0 <= i < toks_view(v).len() implies wf_tok(
        #[trigger] toks_view(v)[i],
    ) by {
        let t = v[i];
        match t {
            Token::Str(b) => {
                vstd::std_specs::vec::axiom_spec_len(&b);
            },
            _ => {},
        }
    }
}

/// Writes the decimal digits of `n`.
fn push_u64_dec(out: &mut Vec<u8>, n: u64)
    ensures
        final(out)@ == old(out)@ + dec_u64(n as nat),
    decreases n,
{
    if n < 10 {
        out.push((48 + n) as u8);
        proof {
            assert(final(out)@ =~= old(out)@ + dec_u64(n as nat));
        }
    } else {
        push_u64_dec(out, n / 10);
        out.push((48 + n % 10) as u8);
        proof {
            assert((old(out)@ + dec_u64((n / 10) as nat)).push((48 + n % 10) as u8) =~= old(out)@
                + dec_u64(n as nat));
        }
    }
}

/// Writes the decimal form of a signed value, sign first.
fn push_i64_dec(out: &mut Vec<u8>, v: i64)
    ensures
        final(out)@ == old(out)@ + dec_i64(v as int),
{
    if v < 0 {
        out.push(45);
        let mag: u64 = if v == i64::MIN {
            0x8000_0000_0000_0000u64
        } else {
            (-v) as u64
        };
        proof {
            assert(mag as nat == (-(v as int)) as nat);
        }
        push_u64_dec(out, mag);
        proof {
            assert((old(out)@.push(45u8)) + dec_u64((-(v as int)) as nat) =~= old(out)@ + (
            seq![45u8] + dec_u64((-(v as int)) as nat)));
        }
    } else {
        push_u64_dec(out, v as u64);
    }
}

/// Appends a byte vector.
fn push_bytes(out: &mut Vec<u8>, b: &Vec<u8>)
    ensures
        final(out)@ == old(out)@ + b@,
{
    let mut k: usize = 0;
    while k < b.len()
        invariant
            0 <= k <= b@.len(),
            out@ == old(out)@ + b@.subrange(0, k as int),
        decreases b@.len() - k,
    {
        out.push(b[k]);
        proof {
            assert(old(out)@ + b@.subrange(0, k + 1 as int) =~= (old(out)@ + b@.subrange(
                0,
                k as int,
            )).push(b@[k as int]));
        }
        k = k + 1;
    }
    proof {
        assert(b@.subrange(0, b@.len() as int) =~= b@);
    }
}

/// Writes a token sequence as bytes, each token on its own line.
pub fn emit(tokens: &Vec<Token>) -> (out: Vec<u8>)
    ensures
        out@ == cat(toks_view(tokens@)),
{
    let ghost tv = toks_view(tokens@);
    proof {
        lemma_toks_view_wf(tokens@);
    }
    let mut out: Vec<u8> = Vec::new();
    let mut i: usize = 0;
    proof {
        assert(tv.take(0).len() == 0);
        assert(out@ =~= cat(tv.take(0)));
    }
    while i < tokens.len()
        invariant
            0 <= i <= tokens@.len(),
            tv == toks_view(tokens@),
            wf_toks(tv),
            out@ == cat(tv.take(i as int)),
        decreases tokens@.len() - i,
    {
        let ghost before = out@;
        out.push(10);
        match &tokens[i] {
            Token::End => {
                out.push(101);
            },
            Token::List => {
                out.push(108);
            },
            Token::Dict => {
                out.push(100);
            },
            Token::Int(v) => {
                out.push(105);
                push_i64_dec(&mut out, *v);
                out.push(101);
            },
            Token::Str(b) => {
                let l = b.len();
                push_u64_dec(&mut out, l as u64);
                out.push(58);
                push_bytes(&mut out, b);
            },
        }
        proof {
            assert(tv[i as int] == tokens@[i as int]@);
            assert(out@ =~= before + (seq![10u8] + tok_bytes(tv[i as int])));
            lemma_cat_add(tv.take(i as int), seq![tv[i as int]]);
            assert(tv.take(i + 1 as int) =~= tv.take(i as int) + seq![tv[i as int]]);
            assert(seq![tv[i as int]].drop_first() =~= Seq::<Tok>::empty());
            assert(cat(seq![tv[i as int]]) == seq![10u8] + tok_bytes(seq![tv[i as int]][0]) + cat(
                Seq::<Tok>::empty(),
            ));
            assert(seq![10u8] + tok_bytes(tv[i as int]) + Seq::<u8>::empty() =~= seq![10u8]
                + tok_bytes(tv[i as int]));
            assert(cat(seq![tv[i as int]]) =~= seq![10u8] + tok_bytes(tv[i as int]));
            assert(out@ =~= cat(tv.take(i + 1 as int)));
        }
        i = i + 1;
    }
    proof {
        assert(tv.take(tv.len() as int) =~= tv);
    }
    out
}

/// Serializes the store into a snapshot byte stream: the top-level
/// dictionary with its sections in their fixed order, exactly the bytes
/// that `store_toks_of` and `cat` describe.
pub fn serialize(store: &Store) -> (out: Vec<u8>)
    ensures
        out@ == cat(store_toks_of(store)),
        wf_toks(store_toks_of(store)),
{
    let tokens = build_store_tokens(store);
    proof {
        lemma_toks_view_wf(tokens@);
    }
    emit(&tokens)
}

} // verus!
