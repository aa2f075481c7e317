//! The snapshot decoder: a schema-directed walk over the token stream.
//! Each step is specified by a total function over `lex_at`, and the
//! executable decoder is proved exact against those functions.

use vstd::prelude::*;

use crate::bencode::lemma_lex_advances;
use crate::bencode::lex_at;
use crate::bencode::DecodeError;
use crate::bencode::LexStep;
use crate::bencode::skip_sp;
use crate::bencode::Tok;
use crate::bencode::Token;
use crate::bencode::Tokenizer;
use crate::keys::kb_addr;
use crate::keys::kb_authname;
use crate::keys::kb_blocked;
use crate::keys::kb_dbversion;
use crate::keys::kb_gossip_key;
use crate::keys::kb_gossip_key_fingerprint;
use crate::keys::kb_gossip_timestamp;
use crate::keys::kb_id;
use crate::keys::kb_last_seen;
use crate::keys::kb_last_seen_autocrypt;
use crate::keys::kb_name;
use crate::keys::kb_origin;
use crate::keys::kb_param;
use crate::keys::kb_prefer_encrypted;
use crate::keys::kb_public_key;
use crate::keys::kb_public_key_fingerprint;
use crate::keys::kb_selfavatar_sent;
use crate::keys::kb_status;
use crate::keys::kb_v99;
use crate::keys::kb_verified_key;
use crate::keys::kb_verified_key_fingerprint;
use crate::store::ContactV;

verus! {

/// A required string value under the given key: the positions after both
/// tokens, or nothing on any mismatch.
pub open spec fn sp_req_str(s: Seq<u8>, i: int, key: Seq<u8>) -> Option<(Seq<u8>, int)> {
    match lex_at(s, i) {
        LexStep::Next(Tok::Str(k), j) => if k == key {
            match lex_at(s, j) {
                LexStep::Next(Tok::Str(v), j2) => Option::Some((v, j2)),
                _ => Option::None,
            }
        } else {
            Option::None
        },
        _ => Option::None,
    }
}

/// A required integer value under the given key.
pub open spec fn sp_req_int(s: Seq<u8>, i: int, key: Seq<u8>) -> Option<(i64, int)> {
    match lex_at(s, i) {
        LexStep::Next(Tok::Str(k), j) => if k == key {
            match lex_at(s, j) {
                LexStep::Next(Tok::Int(v), j2) => Option::Some((v, j2)),
                _ => Option::None,
            }
        } else {
            Option::None
        },
        _ => Option::None,
    }
}

/// An optional string value: consumed when the next key matches, left
/// alone when another key or the end of the row follows; any other token
/// is an error.
pub open spec fn sp_opt_str(s: Seq<u8>, i: int, key: Seq<u8>) -> Option<(Option<Seq<u8>>, int)> {
    match lex_at(s, i) {
        LexStep::Next(Tok::Str(k), j) => if k == key {
            match lex_at(s, j) {
                LexStep::Next(Tok::Str(v), j2) => Option::Some((Option::Some(v), j2)),
                _ => Option::None,
            }
        } else {
            Option::Some((Option::None, i))
        },
        LexStep::Next(Tok::End, _) => Option::Some((Option::None, i)),
        _ => Option::None,
    }
}

/// An optional integer value, with the same peeking rule.
pub open spec fn sp_opt_int(s: Seq<u8>, i: int, key: Seq<u8>) -> Option<(Option<i64>, int)> {
    match lex_at(s, i) {
        LexStep::Next(Tok::Str(k), j) => if k == key {
            match lex_at(s, j) {
                LexStep::Next(Tok::Int(v), j2) => Option::Some((Option::Some(v), j2)),
                _ => Option::None,
            }
        } else {
            Option::Some((Option::None, i))
        },
        LexStep::Next(Tok::End, _) => Option::Some((Option::None, i)),
        _ => Option::None,
    }
}

pub proof fn lemma_sp_req_str_adv(s: Seq<u8>, i: int, key: Seq<u8>)
    requires
        sp_req_str(s, i, key) is Some,
    ensures
        i < sp_req_str(s, i, key)->Some_0.1 <= s.len(),
{
    lemma_lex_advances(s, i);
    let j = lex_at(s, i)->Next_1;
    lemma_lex_advances(s, j);
}

pub proof fn lemma_sp_req_int_adv(s: Seq<u8>, i: int, key: Seq<u8>)
    requires
        sp_req_int(s, i, key) is Some,
    ensures
        i < sp_req_int(s, i, key)->Some_0.1 <= s.len(),
{
    lemma_lex_advances(s, i);
    let j = lex_at(s, i)->Next_1;
    lemma_lex_advances(s, j);
}

pub proof fn lemma_sp_opt_str_adv(s: Seq<u8>, i: int, key: Seq<u8>)
    requires
        0 <= i <= s.len(),
        sp_opt_str(s, i, key) is Some,
    ensures
        i <= sp_opt_str(s, i, key)->Some_0.1 <= s.len(),
{
    if lex_at(s, i) is Next {
        lemma_lex_advances(s, i);
        let j = lex_at(s, i)->Next_1;
        if lex_at(s, j) is Next {
            lemma_lex_advances(s, j);
        }
    }
}

pub proof fn lemma_sp_opt_int_adv(s: Seq<u8>, i: int, key: Seq<u8>)
    requires
        0 <= i <= s.len(),
        sp_opt_int(s, i, key) is Some,
    ensures
        i <= sp_opt_int(s, i, key)->Some_0.1 <= s.len(),
{
    if lex_at(s, i) is Next {
        lemma_lex_advances(s, i);
        let j = lex_at(s, i)->Next_1;
        if lex_at(s, j) is Next {
            lemma_lex_advances(s, j);
        }
    }
}

/// The configuration pairs up to the closing end marker.  The version key
/// must not repeat, must carry the supported version, and `found` says
/// whether it was already seen.
pub open spec fn sp_config_items(s: Seq<u8>, i: int, found: bool) -> Option<
    (Seq<(Seq<u8>, Seq<u8>)>, int, bool),
>
    decreases s.len() - i, when 0 <= i <= s.len() via sp_config_items_dec
{
    match lex_at(s, i) {
        LexStep::Next(Tok::End, j) => Option::Some((Seq::empty(), j, found)),
        LexStep::Next(Tok::Str(k), j) => match lex_at(s, j) {
            LexStep::Next(Tok::Str(v), j2) => {
                if k == kb_dbversion() && found {
                    Option::None
                } else if k == kb_dbversion() && v != kb_v99() {
                    Option::None
                } else {
                    match sp_config_items(s, j2, found || k == kb_dbversion()) {
                        Option::Some((ps, j3, f3)) => Option::Some(
                            (seq![(k, v)] + ps, j3, f3),
                        ),
                        Option::None => Option::None,
                    }
                }
            },
            _ => Option::None,
        },
        _ => Option::None,
    }
}

#[via_fn]
proof fn sp_config_items_dec(s: Seq<u8>, i: int, found: bool) {
    if lex_at(s, i) is Next {
        lemma_lex_advances(s, i);
        let j = lex_at(s, i)->Next_1;
        if lex_at(s, j) is Next {
            lemma_lex_advances(s, j);
        }
    }
}

/// The `_config` section: a dictionary of pairs whose version entry is
/// present, unique, and supported.
pub open spec fn sp_config(s: Seq<u8>, i: int) -> Option<(Seq<(Seq<u8>, Seq<u8>)>, int)> {
    match lex_at(s, i) {
        LexStep::Next(Tok::Dict, j) => if 0 <= j <= s.len() {
            match sp_config_items(s, j, false) {
                Option::Some((ps, j2, true)) => Option::Some((ps, j2)),
                _ => Option::None,
            }
        } else {
            Option::None
        },
        _ => Option::None,
    }
}

/// One peer-state row after its opening dictionary token: the keys in
/// schema order, four of them optional, values discarded.
#[verifier::opaque]
pub open spec fn sp_acpeer_row(s: Seq<u8>, i: int) -> Option<int> {
    match sp_req_str(s, i, kb_addr()) {
        Option::None => Option::None,
        Option::Some((_a, p1)) => match sp_opt_str(s, p1, kb_gossip_key()) {
            Option::None => Option::None,
            Option::Some((_g, p2)) => match sp_opt_str(s, p2, kb_gossip_key_fingerprint()) {
                Option::None => Option::None,
                Option::Some((_gf, p3)) => match sp_req_int(s, p3, kb_gossip_timestamp()) {
                    Option::None => Option::None,
                    Option::Some((_gt, p4)) => match sp_req_int(s, p4, kb_last_seen()) {
                        Option::None => Option::None,
                        Option::Some((_ls, p5)) => match sp_req_int(
                            s,
                            p5,
                            kb_last_seen_autocrypt(),
                        ) {
                            Option::None => Option::None,
                            Option::Some((_la, p6)) => match sp_req_int(
                                s,
                                p6,
                                kb_prefer_encrypted(),
                            ) {
                                Option::None => Option::None,
                                Option::Some((_pe, p7)) => match sp_opt_str(
                                    s,
                                    p7,
                                    kb_public_key(),
                                ) {
                                    Option::None => Option::None,
                                    Option::Some((_pk, p8)) => match sp_opt_str(
                                        s,
                                        p8,
                                        kb_public_key_fingerprint(),
                                    ) {
                                        Option::None => Option::None,
                                        Option::Some((_pf, p9)) => match sp_opt_str(
                                            s,
                                            p9,
                                            kb_verified_key(),
                                        ) {
                                            Option::None => Option::None,
                                            Option::Some((_vk, p10)) => match sp_opt_str(
                                                s,
                                                p10,
                                                kb_verified_key_fingerprint(),
                                            ) {
                                                Option::None => Option::None,
                                                Option::Some((_vf, p11)) => match lex_at(s, p11) {
                                                    LexStep::Next(Tok::End, p12) => Option::Some(
                                                        p12,
                                                    ),
                                                    _ => Option::None,
                                                },
                                            },
                                        },
                                    },
                                },
                            },
                        },
                    },
                },
            },
        },
    }
}

pub proof fn lemma_sp_acpeer_row_adv(s: Seq<u8>, i: int)
    requires
        0 <= i <= s.len(),
        sp_acpeer_row(s, i) is Some,
    ensures
        i < sp_acpeer_row(s, i)->Some_0 <= s.len(),
{
    reveal(sp_acpeer_row);
    lemma_sp_req_str_adv(s, i, kb_addr());
    let p1 = sp_req_str(s, i, kb_addr())->Some_0.1;
    lemma_sp_opt_str_adv(s, p1, kb_gossip_key());
    let p2 = sp_opt_str(s, p1, kb_gossip_key())->Some_0.1;
    lemma_sp_opt_str_adv(s, p2, kb_gossip_key_fingerprint());
    let p3 = sp_opt_str(s, p2, kb_gossip_key_fingerprint())->Some_0.1;
    lemma_sp_req_int_adv(s, p3, kb_gossip_timestamp());
    let p4 = sp_req_int(s, p3, kb_gossip_timestamp())->Some_0.1;
    lemma_sp_req_int_adv(s, p4, kb_last_seen());
    let p5 = sp_req_int(s, p4, kb_last_seen())->Some_0.1;
    lemma_sp_req_int_adv(s, p5, kb_last_seen_autocrypt());
    let p6 = sp_req_int(s, p5, kb_last_seen_autocrypt())->Some_0.1;
    lemma_sp_req_int_adv(s, p6, kb_prefer_encrypted());
    let p7 = sp_req_int(s, p6, kb_prefer_encrypted())->Some_0.1;
    lemma_sp_opt_str_adv(s, p7, kb_public_key());
    let p8 = sp_opt_str(s, p7, kb_public_key())->Some_0.1;
    lemma_sp_opt_str_adv(s, p8, kb_public_key_fingerprint());
    let p9 = sp_opt_str(s, p8, kb_public_key_fingerprint())->Some_0.1;
    lemma_sp_opt_str_adv(s, p9, kb_verified_key());
    let p10 = sp_opt_str(s, p9, kb_verified_key())->Some_0.1;
    lemma_sp_opt_str_adv(s, p10, kb_verified_key_fingerprint());
    let p11 = sp_opt_str(s, p10, kb_verified_key_fingerprint())->Some_0.1;
    lemma_lex_advances(s, p11);
}

/// The peer-state rows up to the list's end marker.
pub open spec fn sp_acpeer_rows(s: Seq<u8>, i: int) -> Option<int>
    decreases s.len() - i, when 0 <= i <= s.len() via sp_acpeer_rows_dec
{
    match lex_at(s, i) {
        LexStep::Next(Tok::End, j) => Option::Some(j),
        LexStep::Next(Tok::Dict, j) => if 0 <= j <= s.len() {
            match sp_acpeer_row(s, j) {
                Option::Some(j2) => if j2 <= s.len() {
                    sp_acpeer_rows(s, j2)
                } else {
                    Option::None
                },
                Option::None => Option::None,
            }
        } else {
            Option::None
        },
        _ => Option::None,
    }
}

#[via_fn]
proof fn sp_acpeer_rows_dec(s: Seq<u8>, i: int) {
    if lex_at(s, i) is Next {
        lemma_lex_advances(s, i);
        let j = lex_at(s, i)->Next_1;
        if 0 <= j <= s.len() && sp_acpeer_row(s, j) is Some {
            lemma_sp_acpeer_row_adv(s, j);
        }
    }
}

/// One contact row after its opening dictionary token.
#[verifier::opaque]
pub open spec fn sp_contact_row(s: Seq<u8>, i: int) -> Option<(ContactV, int)> {
    match sp_req_int(s, i, kb_id()) {
        Option::None => Option::None,
        Option::Some((id, p1)) => if !(0 <= id <= u32::MAX) {
            Option::None
        } else {
            match sp_req_str(s, p1, kb_name()) {
                Option::None => Option::None,
                Option::Some((name, p2)) => match sp_req_str(s, p2, kb_addr()) {
                    Option::None => Option::None,
                    Option::Some((addr, p3)) => match sp_opt_int(s, p3, kb_origin()) {
                        Option::None => Option::None,
                        Option::Some((origin, p4)) => if !(match origin {
                            Option::Some(o) => 0 <= o <= u32::MAX,
                            Option::None => true,
                        }) {
                            Option::None
                        } else {
                            match sp_req_int(s, p4, kb_blocked()) {
                                Option::None => Option::None,
                                Option::Some((blocked, p5)) => match sp_req_int(
                                    s,
                                    p5,
                                    kb_last_seen(),
                                ) {
                                    Option::None => Option::None,
                                    Option::Some((last_seen, p6)) => match sp_req_str(
                                        s,
                                        p6,
                                        kb_param(),
                                    ) {
                                        Option::None => Option::None,
                                        Option::Some((param, p7)) => match sp_req_str(
                                            s,
                                            p7,
                                            kb_authname(),
                                        ) {
                                            Option::None => Option::None,
                                            Option::Some((authname, p8)) => match sp_req_int(
                                                s,
                                                p8,
                                                kb_selfavatar_sent(),
                                            ) {
                                                Option::None => Option::None,
                                                Option::Some((sas, p9)) => match sp_opt_str(
                                                    s,
                                                    p9,
                                                    kb_status(),
                                                ) {
                                                    Option::None => Option::None,
                                                    Option::Some((status, p10)) => match lex_at(
                                                        s,
                                                        p10,
                                                    ) {
                                                        LexStep::Next(Tok::End, p11) => Option::Some(
                                                            (
                                                                ContactV {
                                                                    id: id as u32,
                                                                    name,
                                                                    addr,
                                                                    origin: match origin {
                                                                        Option::Some(o) => Option::Some(
                                                                            o as u32,
                                                                        ),
                                                                        Option::None => Option::None,
                                                                    },
                                                                    blocked: blocked != 0,
                                                                    last_seen,
                                                                    param,
                                                                    authname,
                                                                    selfavatar_sent: sas,
                                                                    status,
                                                                },
                                                                p11,
                                                            ),
                                                        ),
                                                        _ => Option::None,
                                                    },
                                                },
                                            },
                                        },
                                    },
                                },
                            }
                        },
                    },
                },
            }
        },
    }
}

pub proof fn lemma_sp_contact_row_adv(s: Seq<u8>, i: int)
    requires
        0 <= i <= s.len(),
        sp_contact_row(s, i) is Some,
    ensures
        i < sp_contact_row(s, i)->Some_0.1 <= s.len(),
{
    reveal(sp_contact_row);
    lemma_sp_req_int_adv(s, i, kb_id());
    let p1 = sp_req_int(s, i, kb_id())->Some_0.1;
    lemma_sp_req_str_adv(s, p1, kb_name());
    let p2 = sp_req_str(s, p1, kb_name())->Some_0.1;
    lemma_sp_req_str_adv(s, p2, kb_addr());
    let p3 = sp_req_str(s, p2, kb_addr())->Some_0.1;
    lemma_sp_opt_int_adv(s, p3, kb_origin());
    let p4 = sp_opt_int(s, p3, kb_origin())->Some_0.1;
    lemma_sp_req_int_adv(s, p4, kb_blocked());
    let p5 = sp_req_int(s, p4, kb_blocked())->Some_0.1;
    lemma_sp_req_int_adv(s, p5, kb_last_seen());
    let p6 = sp_req_int(s, p5, kb_last_seen())->Some_0.1;
    lemma_sp_req_str_adv(s, p6, kb_param());
    let p7 = sp_req_str(s, p6, kb_param())->Some_0.1;
    lemma_sp_req_str_adv(s, p7, kb_authname());
    let p8 = sp_req_str(s, p7, kb_authname())->Some_0.1;
    lemma_sp_req_int_adv(s, p8, kb_selfavatar_sent());
    let p9 = sp_req_int(s, p8, kb_selfavatar_sent())->Some_0.1;
    lemma_sp_opt_str_adv(s, p9, kb_status());
    let p10 = sp_opt_str(s, p9, kb_status())->Some_0.1;
    lemma_lex_advances(s, p10);
}

/// The contact rows up to the list's end marker.
pub open spec fn sp_contact_rows(s: Seq<u8>, i: int) -> Option<(Seq<ContactV>, int)>
    decreases s.len() - i, when 0 <= i <= s.len() via sp_contact_rows_dec
{
    match lex_at(s, i) {
        LexStep::Next(Tok::End, j) => Option::Some((Seq::empty(), j)),
        LexStep::Next(Tok::Dict, j) => if 0 <= j <= s.len() {
            match sp_contact_row(s, j) {
                Option::Some((c, j2)) => if j2 <= s.len() {
                    match sp_contact_rows(s, j2) {
                        Option::Some((cs, j3)) => Option::Some((seq![c] + cs, j3)),
                        Option::None => Option::None,
                    }
                } else {
                    Option::None
                },
                Option::None => Option::None,
            }
        } else {
            Option::None
        },
        _ => Option::None,
    }
}

#[via_fn]
proof fn sp_contact_rows_dec(s: Seq<u8>, i: int) {
    if lex_at(s, i) is Next {
        lemma_lex_advances(s, i);
        let j = lex_at(s, i)->Next_1;
        if 0 <= j <= s.len() && sp_contact_row(s, j) is Some {
            lemma_sp_contact_row_adv(s, j);
        }
    }
}

/// A section read as a list of rows by `rows`, after its list token.
pub open spec fn sp_list_then<A>(s: Seq<u8>, i: int, rows: spec_fn(Seq<u8>, int) -> Option<A>) -> Option<A> {
    match lex_at(s, i) {
        LexStep::Next(Tok::List, j) => rows(s, j),
        _ => Option::None,
    }
}

/// A section whose rows are skipped wholesale: the list token, then
/// everything up to its end marker.
pub open spec fn sp_skip_section(s: Seq<u8>, i: int) -> Option<int> {
    match lex_at(s, i) {
        LexStep::Next(Tok::List, j) => skip_sp(s, j, 0),
        _ => Option::None,
    }
}

/// The expected section key.
pub open spec fn sp_key(s: Seq<u8>, i: int, key: Seq<u8>) -> Option<int> {
    match lex_at(s, i) {
        LexStep::Next(Tok::Str(k), j) => if k == key {
            Option::Some(j)
        } else {
            Option::None
        },
        _ => Option::None,
    }
}

/// The peer-states section.
pub open spec fn sp_acpeer_section(s: Seq<u8>, i: int) -> Option<int> {
    match lex_at(s, i) {
        LexStep::Next(Tok::List, j) => if 0 <= j <= s.len() {
            sp_acpeer_rows(s, j)
        } else {
            Option::None
        },
        _ => Option::None,
    }
}

/// The contacts section.
pub open spec fn sp_contacts_section(s: Seq<u8>, i: int) -> Option<(Seq<ContactV>, int)> {
    match lex_at(s, i) {
        LexStep::Next(Tok::List, j) => if 0 <= j <= s.len() {
            sp_contact_rows(s, j)
        } else {
            Option::None
        },
        _ => Option::None,
    }
}

/// A section key followed by a section whose rows are skipped.
pub open spec fn sp_keyed_skip(s: Seq<u8>, i: int, key: Seq<u8>) -> Option<int> {
    match sp_key(s, i, key) {
        Option::Some(j) => sp_skip_section(s, j),
        Option::None => Option::None,
    }
}

/// The sections from `messages` on, all skipped, and the closing end
/// marker of the top-level dictionary.
pub open spec fn sp_tail_rest(s: Seq<u8>, i: int) -> Option<int> {
    match sp_keyed_skip(s, i, crate::keys::kb_messages()) {
        Option::None => Option::None,
        Option::Some(p1) => match sp_keyed_skip(s, p1, crate::keys::kb_msgs_status_updates()) {
            Option::None => Option::None,
            Option::Some(p2) => match sp_keyed_skip(s, p2, crate::keys::kb_multi_device_sync()) {
                Option::None => Option::None,
                Option::Some(p3) => match sp_keyed_skip(s, p3, crate::keys::kb_reactions()) {
                    Option::None => Option::None,
                    Option::Some(p4) => match sp_keyed_skip(
                        s,
                        p4,
                        crate::keys::kb_sending_domains(),
                    ) {
                        Option::None => Option::None,
                        Option::Some(p5) => match sp_keyed_skip(s, p5, crate::keys::kb_tokens()) {
                            Option::None => Option::None,
                            Option::Some(p6) => match lex_at(s, p6) {
                                LexStep::Next(Tok::End, p7) => Option::Some(p7),
                                _ => Option::None,
                            },
                        },
                    },
                },
            },
        },
    }
}

/// The sections after `contacts`, all skipped, and the closing end marker
/// of the top-level dictionary.
pub open spec fn sp_tail_sections(s: Seq<u8>, i: int) -> Option<int> {
    match sp_keyed_skip(s, i, crate::keys::kb_dns_cache()) {
        Option::None => Option::None,
        Option::Some(p1) => match sp_keyed_skip(s, p1, crate::keys::kb_imap()) {
            Option::None => Option::None,
            Option::Some(p2) => match sp_keyed_skip(s, p2, crate::keys::kb_imap_sync()) {
                Option::None => Option::None,
                Option::Some(p3) => match sp_keyed_skip(s, p3, crate::keys::kb_keypairs()) {
                    Option::None => Option::None,
                    Option::Some(p4) => match sp_keyed_skip(s, p4, crate::keys::kb_leftgroups()) {
                        Option::None => Option::None,
                        Option::Some(p5) => match sp_keyed_skip(
                            s,
                            p5,
                            crate::keys::kb_locations(),
                        ) {
                            Option::None => Option::None,
                            Option::Some(p6) => match sp_keyed_skip(s, p6, crate::keys::kb_mdns()) {
                                Option::None => Option::None,
                                Option::Some(p7) => sp_tail_rest(s, p7),
                            },
                        },
                    },
                },
            },
        },
    }
}

/// The whole snapshot: the top-level dictionary with its sections in their
/// fixed order; the configuration pairs and the contact rows are returned,
/// the other sections are read and dropped.
pub open spec fn sp_snapshot(s: Seq<u8>) -> Option<(Seq<(Seq<u8>, Seq<u8>)>, Seq<ContactV>)> {
    match lex_at(s, 0) {
        LexStep::Next(Tok::Dict, j0) => match sp_key(s, j0, crate::keys::kb_top_config()) {
            Option::None => Option::None,
            Option::Some(j1) => match sp_config(s, j1) {
                Option::None => Option::None,
                Option::Some((pairs, j2)) => match sp_key(s, j2, crate::keys::kb_acpeerstates()) {
                    Option::None => Option::None,
                    Option::Some(j3) => match sp_acpeer_section(s, j3) {
                        Option::None => Option::None,
                        Option::Some(j4) => match sp_keyed_skip(s, j4, crate::keys::kb_chats()) {
                            Option::None => Option::None,
                            Option::Some(j5) => match sp_keyed_skip(
                                s,
                                j5,
                                crate::keys::kb_chats_contacts(),
                            ) {
                                Option::None => Option::None,
                                Option::Some(j6) => match sp_key(
                                    s,
                                    j6,
                                    crate::keys::kb_contacts(),
                                ) {
                                    Option::None => Option::None,
                                    Option::Some(j7) => match sp_contacts_section(s, j7) {
                                        Option::None => Option::None,
                                        Option::Some((cs, j8)) => match sp_tail_sections(s, j8) {
                                            Option::None => Option::None,
                                            Option::Some(_j9) => Option::Some((pairs, cs)),
                                        },
                                    },
                                },
                            },
                        },
                    },
                },
            },
        },
        _ => Option::None,
    }
}

/// Decides equality of two byte vectors.
fn bytes_eq(a: &Vec<u8>, b: &Vec<u8>) -> (r: bool)
    ensures
        r == (a@ == b@),
{
    if a.len() != b.len() {
        return false;
    }
    let mut i: usize = 0;
    while i < a.len()
        invariant
            0 <= i <= a@.len(),
            a@.len() == b@.len(),
            forall|j: int| 0 <= j < i ==> a@[j] == b@[j],
        decreases a@.len() - i,
    {
        if a[i] != b[i] {
            return false;
        }
        i = i + 1;
    }
    proof {
        assert(a@ =~= b@);
    }
    true
}

/// The snapshot decoder: a tokenizer and a schema-directed walk.
pub struct Decoder {
    /// The token stream.
    pub t: Tokenizer,
}

impl Decoder {
    /// The stream is in bounds.
    pub open spec fn wf(&self) -> bool {
        self.t.wf()
    }

    /// The whole input.
    pub open spec fn inp(&self) -> Seq<u8> {
        self.t.input@
    }

    /// The current position.
    pub open spec fn at(&self) -> int {
        self.t.at()
    }

    /// Starts decoding the given stream.
    pub fn new(input: Vec<u8>) -> (d: Self)
        ensures
            d.wf(),
            d.inp() == input@,
            d.at() == 0,
    {
        Decoder { t: Tokenizer::new(input) }
    }

    /// Reads the end marker that closes the current object.
    pub fn expect_end(&mut self) -> (r: Result<(), DecodeError>)
        requires
            old(self).wf(),
        ensures
            final(self).wf(),
            final(self).inp() == old(self).inp(),
            match r {
                Result::Ok(_) => lex_at(old(self).inp(), old(self).at()) == LexStep::Next(
                    Tok::End,
                    final(self).at(),
                ),
                Result::Err(_) => !(lex_at(old(self).inp(), old(self).at()) matches LexStep::Next(
                    Tok::End,
                    _,
                )),
            },
    {
        match self.t.next_token() {
            Result::Ok(Option::Some(Token::End)) => Result::Ok(()),
            Result::Ok(Option::Some(_)) => Result::Err(DecodeError::UnexpectedToken),
            Result::Ok(Option::None) => Result::Err(DecodeError::UnexpectedEof),
            Result::Err(e) => Result::Err(e),
        }
    }

    /// Reads a dictionary start.
    pub fn expect_dictionary(&mut self) -> (r: Result<(), DecodeError>)
        requires
            old(self).wf(),
        ensures
            final(self).wf(),
            final(self).inp() == old(self).inp(),
            match r {
                Result::Ok(_) => lex_at(old(self).inp(), old(self).at()) == LexStep::Next(
                    Tok::Dict,
                    final(self).at(),
                ),
                Result::Err(_) => !(lex_at(old(self).inp(), old(self).at()) matches LexStep::Next(
                    Tok::Dict,
                    _,
                )),
            },
    {
        match self.t.next_token() {
            Result::Ok(Option::Some(Token::Dict)) => Result::Ok(()),
            Result::Ok(Option::Some(_)) => Result::Err(DecodeError::UnexpectedToken),
            Result::Ok(Option::None) => Result::Err(DecodeError::UnexpectedEof),
            Result::Err(e) => Result::Err(e),
        }
    }

    /// Reads a dictionary start or the end of the surrounding list.
    pub fn expect_dictionary_opt(&mut self) -> (r: Result<bool, DecodeError>)
        requires
            old(self).wf(),
        ensures
            final(self).wf(),
            final(self).inp() == old(self).inp(),
            match r {
                Result::Ok(true) => lex_at(old(self).inp(), old(self).at()) == LexStep::Next(
                    Tok::Dict,
                    final(self).at(),
                ),
                Result::Ok(false) => lex_at(old(self).inp(), old(self).at()) == LexStep::Next(
                    Tok::End,
                    final(self).at(),
                ),
                Result::Err(_) => !(lex_at(old(self).inp(), old(self).at()) matches LexStep::Next(
                    Tok::Dict,
                    _,
                )) && !(lex_at(old(self).inp(), old(self).at()) matches LexStep::Next(
                    Tok::End,
                    _,
                )),
            },
    {
        match self.t.next_token() {
            Result::Ok(Option::Some(Token::Dict)) => Result::Ok(true),
            Result::Ok(Option::Some(Token::End)) => Result::Ok(false),
            Result::Ok(Option::Some(_)) => Result::Err(DecodeError::UnexpectedToken),
            Result::Ok(Option::None) => Result::Err(DecodeError::UnexpectedEof),
            Result::Err(e) => Result::Err(e),
        }
    }

    /// Reads a list start.
    pub fn expect_list(&mut self) -> (r: Result<(), DecodeError>)
        requires
            old(self).wf(),
        ensures
            final(self).wf(),
            final(self).inp() == old(self).inp(),
            match r {
                Result::Ok(_) => lex_at(old(self).inp(), old(self).at()) == LexStep::Next(
                    Tok::List,
                    final(self).at(),
                ),
                Result::Err(_) => !(lex_at(old(self).inp(), old(self).at()) matches LexStep::Next(
                    Tok::List,
                    _,
                )),
            },
    {
        match self.t.next_token() {
            Result::Ok(Option::Some(Token::List)) => Result::Ok(()),
            Result::Ok(Option::Some(_)) => Result::Err(DecodeError::UnexpectedToken),
            Result::Ok(Option::None) => Result::Err(DecodeError::UnexpectedEof),
            Result::Err(e) => Result::Err(e),
        }
    }

    /// Reads a byte string.
    pub fn expect_string(&mut self) -> (r: Result<Vec<u8>, DecodeError>)
        requires
            old(self).wf(),
        ensures
            final(self).wf(),
            final(self).inp() == old(self).inp(),
            match r {
                Result::Ok(b) => lex_at(old(self).inp(), old(self).at()) == LexStep::Next(
                    Tok::Str(b@),
                    final(self).at(),
                ),
                Result::Err(_) => !(lex_at(old(self).inp(), old(self).at()) matches LexStep::Next(
                    Tok::Str(_),
                    _,
                )),
            },
    {
        match self.t.next_token() {
            Result::Ok(Option::Some(Token::Str(b))) => Result::Ok(b),
            Result::Ok(Option::Some(_)) => Result::Err(DecodeError::UnexpectedToken),
            Result::Ok(Option::None) => Result::Err(DecodeError::UnexpectedEof),
            Result::Err(e) => Result::Err(e),
        }
    }

    /// Reads an integer.
    pub fn expect_i64(&mut self) -> (r: Result<i64, DecodeError>)
        requires
            old(self).wf(),
        ensures
            final(self).wf(),
            final(self).inp() == old(self).inp(),
            match r {
                Result::Ok(v) => lex_at(old(self).inp(), old(self).at()) == LexStep::Next(
                    Tok::Int(v),
                    final(self).at(),
                ),
                Result::Err(_) => !(lex_at(old(self).inp(), old(self).at()) matches LexStep::Next(
                    Tok::Int(_),
                    _,
                )),
            },
    {
        match self.t.next_token() {
            Result::Ok(Option::Some(Token::Int(v))) => Result::Ok(v),
            Result::Ok(Option::Some(_)) => Result::Err(DecodeError::UnexpectedToken),
            Result::Ok(Option::None) => Result::Err(DecodeError::UnexpectedEof),
            Result::Err(e) => Result::Err(e),
        }
    }

    /// Reads an integer that must fit an unsigned 32-bit value.
    pub fn expect_u32(&mut self) -> (r: Result<u32, DecodeError>)
        requires
            old(self).wf(),
        ensures
            final(self).wf(),
            final(self).inp() == old(self).inp(),
            match r {
                Result::Ok(v) => lex_at(old(self).inp(), old(self).at()) == LexStep::Next(
                    Tok::Int(v as i64),
                    final(self).at(),
                ),
                Result::Err(_) => match lex_at(old(self).inp(), old(self).at()) {
                    LexStep::Next(Tok::Int(x), _) => !(0 <= x <= u32::MAX),
                    _ => true,
                },
            },
    {
        match self.expect_i64() {
            Result::Ok(v) => {
                if v < 0 || v > u32::MAX as i64 {
                    return Result::Err(DecodeError::BadInteger);
                }
                Result::Ok(v as u32)
            },
            Result::Err(e) => Result::Err(e),
        }
    }

    /// Reads the given dictionary key.
    pub fn expect_key(&mut self, key: &Vec<u8>) -> (r: Result<(), DecodeError>)
        requires
            old(self).wf(),
        ensures
            final(self).wf(),
            final(self).inp() == old(self).inp(),
            match r {
                Result::Ok(_) => sp_key(old(self).inp(), old(self).at(), key@) == Option::Some(
                    final(self).at(),
                ),
                Result::Err(_) => sp_key(old(self).inp(), old(self).at(), key@) is None,
            },
    {
        match self.expect_string() {
            Result::Ok(k) => {
                if bytes_eq(&k, key) {
                    Result::Ok(())
                } else {
                    Result::Err(DecodeError::BadKey)
                }
            },
            Result::Err(e) => Result::Err(e),
        }
    }

    /// Looks at the next token: does it match the given key?  The end of
    /// the row also answers no; any other token is an error.
    pub fn expect_key_opt(&self, key: &Vec<u8>) -> (r: Result<bool, DecodeError>)
        requires
            self.wf(),
        ensures
            match r {
                Result::Ok(true) => lex_at(self.inp(), self.at()) matches LexStep::Next(
                    Tok::Str(k),
                    _,
                ) && k == key@,
                Result::Ok(false) => (lex_at(self.inp(), self.at()) matches LexStep::Next(
                    Tok::Str(k),
                    _,
                ) && k != key@) || lex_at(self.inp(), self.at()) matches LexStep::Next(
                    Tok::End,
                    _,
                ),
                Result::Err(_) => !(lex_at(self.inp(), self.at()) matches LexStep::Next(
                    Tok::Str(_),
                    _,
                )) && !(lex_at(self.inp(), self.at()) matches LexStep::Next(Tok::End, _)),
            },
    {
        match self.t.peek_token() {
            Result::Ok(Option::Some(Token::Str(k))) => Result::Ok(bytes_eq(&k, key)),
            Result::Ok(Option::Some(Token::End)) => Result::Ok(false),
            Result::Ok(Option::Some(_)) => Result::Err(DecodeError::UnexpectedToken),
            Result::Ok(Option::None) => Result::Err(DecodeError::UnexpectedEof),
            Result::Err(e) => Result::Err(e),
        }
    }

    /// Skips tokens until the end marker that closes the current object.
    pub fn skip_until_end(&mut self) -> (r: Result<(), DecodeError>)
        requires
            old(self).wf(),
        ensures
            final(self).wf(),
            final(self).inp() == old(self).inp(),
            match r {
                Result::Ok(_) => skip_sp(old(self).inp(), old(self).at(), 0) == Option::Some(
                    final(self).at(),
                ),
                Result::Err(_) => skip_sp(old(self).inp(), old(self).at(), 0) is None,
            },
    {
        let ghost inp = self.t.input@;
        let ghost at0 = self.at();
        let mut level: usize = 0;
        loop
            invariant
                self.wf(),
                inp == old(self).inp(),
                at0 == old(self).at(),
                self.inp() == inp,
                at0 <= self.at(),
                level <= self.at() - at0,
                skip_sp(inp, at0, 0) == skip_sp(inp, self.at(), level as nat),
            decreases inp.len() - self.at(),
        {
            let ghost at_prev = self.at();
            match self.t.next_token() {
                Result::Ok(Option::Some(tok)) => {
                    proof {
                        assert(at_prev < self.at());
                        assert(self.at() <= usize::MAX);
                    }
                    match tok {
                        Token::End => {
                            if level == 0 {
                                return Result::Ok(());
                            }
                            level = level - 1;
                        },
                        Token::Str(_) => {},
                        Token::Int(_) => {},
                        Token::List => {
                            level = level + 1;
                        },
                        Token::Dict => {
                            level = level + 1;
                        },
                    }
                },
                Result::Ok(Option::None) => {
                    return Result::Err(DecodeError::UnexpectedEof);
                },
                Result::Err(e) => {
                    return Result::Err(e);
                },
            }
        }
    }

    /// Reads one complete object: a plain value, or a list or dictionary
    /// with everything it holds; an end marker here is an error.
    pub fn skip_object(&mut self) -> (r: Result<(), DecodeError>)
        requires
            old(self).wf(),
        ensures
            final(self).wf(),
            final(self).inp() == old(self).inp(),
            match r {
                Result::Ok(_) => sp_skip_object(old(self).inp(), old(self).at()) == Option::Some(
                    final(self).at(),
                ),
                Result::Err(_) => sp_skip_object(old(self).inp(), old(self).at()) is None,
            },
    {
        match self.t.next_token() {
            Result::Ok(Option::Some(tok)) => match tok {
                Token::End => Result::Err(DecodeError::UnexpectedToken),
                Token::Str(_) => Result::Ok(()),
                Token::Int(_) => Result::Ok(()),
                Token::List => self.skip_until_end(),
                Token::Dict => self.skip_until_end(),
            },
            Result::Ok(Option::None) => Result::Err(DecodeError::UnexpectedEof),
            Result::Err(e) => Result::Err(e),
        }
    }
}

/// One complete object: a plain value or a balanced list or dictionary.
pub open spec fn sp_skip_object(s: Seq<u8>, i: int) -> Option<int> {
    match lex_at(s, i) {
        LexStep::Next(Tok::End, _) => Option::None,
        LexStep::Next(Tok::Str(_), j) => Option::Some(j),
        LexStep::Next(Tok::Int(_), j) => Option::Some(j),
        LexStep::Next(Tok::List, j) => skip_sp(s, j, 0),
        LexStep::Next(Tok::Dict, j) => skip_sp(s, j, 0),
        _ => Option::None,
    }
}

impl Decoder {
    /// Reads a required string field under the given key.
    fn req_str(&mut self, key: &Vec<u8>) -> (r: Result<Vec<u8>, DecodeError>)
        requires
            old(self).wf(),
        ensures
            final(self).wf(),
            final(self).inp() == old(self).inp(),
            match r {
                Result::Ok(v) => sp_req_str(old(self).inp(), old(self).at(), key@)
                    == Option::Some((v@, final(self).at())),
                Result::Err(_) => sp_req_str(old(self).inp(), old(self).at(), key@) is None,
            },
    {
        match self.expect_key(key) {
            Result::Ok(_) => self.expect_string(),
            Result::Err(e) => Result::Err(e),
        }
    }

    /// Reads a required integer field under the given key.
    fn req_int(&mut self, key: &Vec<u8>) -> (r: Result<i64, DecodeError>)
        requires
            old(self).wf(),
        ensures
            final(self).wf(),
            final(self).inp() == old(self).inp(),
            match r {
                Result::Ok(v) => sp_req_int(old(self).inp(), old(self).at(), key@)
                    == Option::Some((v, final(self).at())),
                Result::Err(_) => sp_req_int(old(self).inp(), old(self).at(), key@) is None,
            },
    {
        match self.expect_key(key) {
            Result::Ok(_) => self.expect_i64(),
            Result::Err(e) => Result::Err(e),
        }
    }

    /// Reads an optional string field: present only when the peeked key
    /// matches.
    fn opt_str(&mut self, key: &Vec<u8>) -> (r: Result<Option<Vec<u8>>, DecodeError>)
        requires
            old(self).wf(),
        ensures
            final(self).wf(),
            final(self).inp() == old(self).inp(),
            match r {
                Result::Ok(v) => sp_opt_str(old(self).inp(), old(self).at(), key@)
                    == Option::Some(
                    (
                        match v {
                            Option::Some(b) => Option::Some(b@),
                            Option::None => Option::None,
                        },
                        final(self).at(),
                    ),
                ),
                Result::Err(_) => sp_opt_str(old(self).inp(), old(self).at(), key@) is None,
            },
    {
        match self.expect_key_opt(key) {
            Result::Ok(true) => {
                match self.expect_key(key) {
                    Result::Ok(_) => {},
                    Result::Err(e) => {
                        return Result::Err(e);
                    },
                }
                match self.expect_string() {
                    Result::Ok(v) => Result::Ok(Option::Some(v)),
                    Result::Err(e) => Result::Err(e),
                }
            },
            Result::Ok(false) => Result::Ok(Option::None),
            Result::Err(e) => Result::Err(e),
        }
    }

    /// Reads an optional integer field.
    fn opt_int(&mut self, key: &Vec<u8>) -> (r: Result<Option<i64>, DecodeError>)
        requires
            old(self).wf(),
        ensures
            final(self).wf(),
            final(self).inp() == old(self).inp(),
            match r {
                Result::Ok(v) => sp_opt_int(old(self).inp(), old(self).at(), key@)
                    == Option::Some((v, final(self).at())),
                Result::Err(_) => sp_opt_int(old(self).inp(), old(self).at(), key@) is None,
            },
    {
        match self.expect_key_opt(key) {
            Result::Ok(true) => {
                match self.expect_key(key) {
                    Result::Ok(_) => {},
                    Result::Err(e) => {
                        return Result::Err(e);
                    },
                }
                match self.expect_i64() {
                    Result::Ok(v) => Result::Ok(Option::Some(v)),
                    Result::Err(e) => Result::Err(e),
                }
            },
            Result::Ok(false) => Result::Ok(Option::None),
            Result::Err(e) => Result::Err(e),
        }
    }

    /// Reads the `_config` section: its pairs, checking the version entry.
    pub fn deserialize_config(&mut self) -> (r: Result<Vec<(Vec<u8>, Vec<u8>)>, DecodeError>)
        requires
            old(self).wf(),
        ensures
            final(self).wf(),
            final(self).inp() == old(self).inp(),
            match r {
                Result::Ok(pairs) => sp_config(old(self).inp(), old(self).at()) == Option::Some(
                    (crate::store::config_view(pairs@), final(self).at()),
                ),
                Result::Err(_) => sp_config(old(self).inp(), old(self).at()) is None,
            },
    {
        let ghost inp = self.t.input@;
        match self.expect_dictionary() {
            Result::Ok(_) => {},
            Result::Err(e) => {
                return Result::Err(e);
            },
        }
        let ghost at1 = self.at();
        let kdb = crate::keys::k_dbversion();
        let k99 = crate::keys::k_v99();
        let mut pairs: Vec<(Vec<u8>, Vec<u8>)> = Vec::new();
        let mut found: bool = false;
        proof {
            assert(crate::store::config_view(pairs@) =~= Seq::<(Seq<u8>, Seq<u8>)>::empty());
            let items = sp_config_items(inp, at1, false);
            if items is Some {
                assert(crate::store::config_view(pairs@) + items->Some_0.0 =~= items->Some_0.0);
            }
        }
        loop
            invariant
                self.wf(),
                inp == old(self).inp(),
                self.inp() == inp,
                0 <= at1 <= self.at() <= inp.len(),
                kdb@ == kb_dbversion(),
                k99@ == kb_v99(),
                sp_config(inp, old(self).at()) == (match sp_config_items(
                    inp,
                    self.at(),
                    found,
                ) {
                    Option::Some((ps, j, true)) => Option::Some(
                        (crate::store::config_view(pairs@) + ps, j),
                    ),
                    _ => Option::<(Seq<(Seq<u8>, Seq<u8>)>, int)>::None,
                }),
            decreases inp.len() - self.at(),
        {
            let ghost at_prev = self.at();
            match self.t.next_token() {
                Result::Ok(Option::Some(Token::End)) => {
                    proof {
                        assert(sp_config_items(inp, at_prev, found) == Option::Some(
                            (Seq::<(Seq<u8>, Seq<u8>)>::empty(), self.at(), found),
                        ));
                        assert(crate::store::config_view(pairs@) + Seq::<(
                            Seq<u8>,
                            Seq<u8>,
                        )>::empty() =~= crate::store::config_view(pairs@));
                    }
                    if found {
                        return Result::Ok(pairs);
                    }
                    return Result::Err(DecodeError::BadVersion);
                },
                Result::Ok(Option::Some(Token::Str(key))) => {
                    let ghost at_mid = self.at();
                    let val = match self.t.next_token() {
                        Result::Ok(Option::Some(Token::Str(v))) => v,
                        Result::Ok(Option::Some(_)) => {
                            return Result::Err(DecodeError::UnexpectedToken);
                        },
                        Result::Ok(Option::None) => {
                            return Result::Err(DecodeError::UnexpectedEof);
                        },
                        Result::Err(e) => {
                            return Result::Err(e);
                        },
                    };
                    let ghost at_new = self.at();
                    let is_dbv = bytes_eq(&key, &kdb);
                    if is_dbv && found {
                        return Result::Err(DecodeError::BadVersion);
                    }
                    if is_dbv && !bytes_eq(&val, &k99) {
                        return Result::Err(DecodeError::BadVersion);
                    }
                    let ghost kv = (key@, val@);
                    let ghost prev = crate::store::config_view(pairs@);
                    let ghost pv0 = pairs@;
                    let ghost found0 = found;
                    found = found || is_dbv;
                    pairs.push((key, val));
                    proof {
                        assert forall|j: int|
                            0 <= j < crate::store::config_view(pairs@).len() implies #[trigger] crate::store::config_view(
                            pairs@,
                        )[j] == prev.push(kv)[j] by {
                            if j < pv0.len() {
                                assert(pairs@[j] == pv0[j]);
                            } else {
                                assert(pairs@[j].0@ == kv.0 && pairs@[j].1@ == kv.1);
                            }
                        }
                        assert(crate::store::config_view(pairs@) =~= prev.push(kv));
                        let items_new = sp_config_items(inp, at_new, found);
                        assert(sp_config_items(inp, at_prev, found0) == (match items_new {
                            Option::Some((ps, j3, f3)) => Option::Some((seq![kv] + ps, j3, f3)),
                            Option::None => Option::<(Seq<(Seq<u8>, Seq<u8>)>, int, bool)>::None,
                        }));
                        if items_new is Some {
                            let ps = items_new->Some_0.0;
                            assert(prev + (seq![kv] + ps) =~= prev.push(kv) + ps);
                        }
                    }
                },
                Result::Ok(Option::Some(_)) => {
                    return Result::Err(DecodeError::UnexpectedToken);
                },
                Result::Ok(Option::None) => {
                    return Result::Err(DecodeError::UnexpectedEof);
                },
                Result::Err(e) => {
                    return Result::Err(e);
                },
            }
        }
    }
}

impl Decoder {
    /// Reads one peer-state row, after its opening dictionary token.
    fn decode_acpeer_row(&mut self) -> (r: Result<(), DecodeError>)
        requires
            old(self).wf(),
        ensures
            final(self).wf(),
            final(self).inp() == old(self).inp(),
            match r {
                Result::Ok(_) => sp_acpeer_row(old(self).inp(), old(self).at()) == Option::Some(
                    final(self).at(),
                ),
                Result::Err(_) => sp_acpeer_row(old(self).inp(), old(self).at()) is None,
            },
    {
        proof {
            reveal(sp_acpeer_row);
        }
        match self.req_str(&crate::keys::k_addr()) {
            Result::Ok(_) => {},
            Result::Err(e) => {
                return Result::Err(e);
            },
        }
        match self.opt_str(&crate::keys::k_gossip_key()) {
            Result::Ok(_) => {},
            Result::Err(e) => {
                return Result::Err(e);
            },
        }
        match self.opt_str(&crate::keys::k_gossip_key_fingerprint()) {
            Result::Ok(_) => {},
            Result::Err(e) => {
                return Result::Err(e);
            },
        }
        match self.req_int(&crate::keys::k_gossip_timestamp()) {
            Result::Ok(_) => {},
            Result::Err(e) => {
                return Result::Err(e);
            },
        }
        match self.req_int(&crate::keys::k_last_seen()) {
            Result::Ok(_) => {},
            Result::Err(e) => {
                return Result::Err(e);
            },
        }
        match self.req_int(&crate::keys::k_last_seen_autocrypt()) {
            Result::Ok(_) => {},
            Result::Err(e) => {
                return Result::Err(e);
            },
        }
        match self.req_int(&crate::keys::k_prefer_encrypted()) {
            Result::Ok(_) => {},
            Result::Err(e) => {
                return Result::Err(e);
            },
        }
        match self.opt_str(&crate::keys::k_public_key()) {
            Result::Ok(_) => {},
            Result::Err(e) => {
                return Result::Err(e);
            },
        }
        match self.opt_str(&crate::keys::k_public_key_fingerprint()) {
            Result::Ok(_) => {},
            Result::Err(e) => {
                return Result::Err(e);
            },
        }
        match self.opt_str(&crate::keys::k_verified_key()) {
            Result::Ok(_) => {},
            Result::Err(e) => {
                return Result::Err(e);
            },
        }
        match self.opt_str(&crate::keys::k_verified_key_fingerprint()) {
            Result::Ok(_) => {},
            Result::Err(e) => {
                return Result::Err(e);
            },
        }
        self.expect_end()
    }

    /// Reads the peer-states section: each row's schema is checked, the
    /// values are dropped.
    #[verifier::rlimit(80)]
    pub fn deserialize_acpeerstates(&mut self) -> (r: Result<(), DecodeError>)
        requires
            old(self).wf(),
        ensures
            final(self).wf(),
            final(self).inp() == old(self).inp(),
            match r {
                Result::Ok(_) => sp_acpeer_section(old(self).inp(), old(self).at())
                    == Option::Some(final(self).at()),
                Result::Err(_) => sp_acpeer_section(old(self).inp(), old(self).at()) is None,
            },
    {
        let ghost inp = self.t.input@;
        match self.expect_list() {
            Result::Ok(_) => {},
            Result::Err(e) => {
                return Result::Err(e);
            },
        }
        loop
            invariant
                self.wf(),
                inp == old(self).inp(),
                self.inp() == inp,
                0 <= self.at() <= inp.len(),
                sp_acpeer_section(inp, old(self).at()) == sp_acpeer_rows(inp, self.at()),
            decreases inp.len() - self.at(),
        {
            let ghost at_prev = self.at();
            match self.expect_dictionary_opt() {
                Result::Ok(true) => {
                    match self.decode_acpeer_row() {
                        Result::Ok(_) => {},
                        Result::Err(e) => {
                            return Result::Err(e);
                        },
                    }
                    proof {
                        lemma_lex_advances(inp, at_prev);
                        lemma_sp_acpeer_row_adv(inp, lex_at(inp, at_prev)->Next_1);
                    }
                },
                Result::Ok(false) => {
                    return Result::Ok(());
                },
                Result::Err(e) => {
                    return Result::Err(e);
                },
            }
        }
    }

    /// Reads one contact row, after its opening dictionary token.
    fn decode_contact_row(&mut self) -> (r: Result<crate::store::Contact, DecodeError>)
        requires
            old(self).wf(),
        ensures
            final(self).wf(),
            final(self).inp() == old(self).inp(),
            match r {
                Result::Ok(c) => sp_contact_row(old(self).inp(), old(self).at()) == Option::Some(
                    (c@, final(self).at()),
                ),
                Result::Err(_) => sp_contact_row(old(self).inp(), old(self).at()) is None,
            },
    {
        proof {
            reveal(sp_contact_row);
        }
        match self.expect_key(&crate::keys::k_id()) {
            Result::Ok(_) => {},
            Result::Err(e) => {
                return Result::Err(e);
            },
        }
        let id = match self.expect_u32() {
            Result::Ok(v) => v,
            Result::Err(e) => {
                return Result::Err(e);
            },
        };
        let name = match self.req_str(&crate::keys::k_name()) {
            Result::Ok(v) => v,
            Result::Err(e) => {
                return Result::Err(e);
            },
        };
        let addr = match self.req_str(&crate::keys::k_addr()) {
            Result::Ok(v) => v,
            Result::Err(e) => {
                return Result::Err(e);
            },
        };
        let origin_raw = match self.opt_int(&crate::keys::k_origin()) {
            Result::Ok(v) => v,
            Result::Err(e) => {
                return Result::Err(e);
            },
        };
        let origin = match origin_raw {
            Option::Some(x) => {
                if x < 0 || x > u32::MAX as i64 {
                    return Result::Err(DecodeError::BadInteger);
                }
                Option::Some(x as u32)
            },
            Option::None => Option::None,
        };
        let blocked_raw = match self.req_int(&crate::keys::k_blocked()) {
            Result::Ok(v) => v,
            Result::Err(e) => {
                return Result::Err(e);
            },
        };
        let last_seen = match self.req_int(&crate::keys::k_last_seen()) {
            Result::Ok(v) => v,
            Result::Err(e) => {
                return Result::Err(e);
            },
        };
        let param = match self.req_str(&crate::keys::k_param()) {
            Result::Ok(v) => v,
            Result::Err(e) => {
                return Result::Err(e);
            },
        };
        let authname = match self.req_str(&crate::keys::k_authname()) {
            Result::Ok(v) => v,
            Result::Err(e) => {
                return Result::Err(e);
            },
        };
        let selfavatar_sent = match self.req_int(&crate::keys::k_selfavatar_sent()) {
            Result::Ok(v) => v,
            Result::Err(e) => {
                return Result::Err(e);
            },
        };
        let status = match self.opt_str(&crate::keys::k_status()) {
            Result::Ok(v) => v,
            Result::Err(e) => {
                return Result::Err(e);
            },
        };
        match self.expect_end() {
            Result::Ok(_) => {},
            Result::Err(e) => {
                return Result::Err(e);
            },
        }
        Result::Ok(
            crate::store::Contact {
                id,
                name,
                addr,
                origin,
                blocked: blocked_raw != 0,
                last_seen,
                param,
                authname,
                selfavatar_sent,
                status,
            },
        )
    }

    /// Reads the contacts section into rows.
    #[verifier::rlimit(80)]
    pub fn deserialize_contacts(&mut self) -> (r: Result<Vec<crate::store::Contact>, DecodeError>)
        requires
            old(self).wf(),
        ensures
            final(self).wf(),
            final(self).inp() == old(self).inp(),
            match r {
                Result::Ok(cs) => sp_contacts_section(old(self).inp(), old(self).at())
                    == Option::Some((crate::store::contacts_view(cs@), final(self).at())),
                Result::Err(_) => sp_contacts_section(old(self).inp(), old(self).at()) is None,
            },
    {
        let ghost inp = self.t.input@;
        match self.expect_list() {
            Result::Ok(_) => {},
            Result::Err(e) => {
                return Result::Err(e);
            },
        }
        let mut cs: Vec<crate::store::Contact> = Vec::new();
        proof {
            assert(crate::store::contacts_view(cs@) =~= Seq::<crate::store::ContactV>::empty());
            let rows = sp_contact_rows(inp, self.at());
            if rows is Some {
                assert(crate::store::contacts_view(cs@) + rows->Some_0.0 =~= rows->Some_0.0);
            }
        }
        loop
            invariant
                self.wf(),
                inp == old(self).inp(),
                self.inp() == inp,
                0 <= self.at() <= inp.len(),
                sp_contacts_section(inp, old(self).at()) == (match sp_contact_rows(
                    inp,
                    self.at(),
                ) {
                    Option::Some((ps, j)) => Option::Some(
                        (crate::store::contacts_view(cs@) + ps, j),
                    ),
                    Option::None => Option::<(Seq<crate::store::ContactV>, int)>::None,
                }),
            decreases inp.len() - self.at(),
        {
            let ghost at_prev = self.at();
            match self.expect_dictionary_opt() {
                Result::Ok(true) => {
                    let c = match self.decode_contact_row() {
                        Result::Ok(c) => c,
                        Result::Err(e) => {
                            return Result::Err(e);
                        },
                    };
                    proof {
                        lemma_lex_advances(inp, at_prev);
                        lemma_sp_contact_row_adv(inp, lex_at(inp, at_prev)->Next_1);
                    }
                    let ghost prev = crate::store::contacts_view(cs@);
                    let ghost cv0 = cs@;
                    let ghost cval = c@;
                    cs.push(c);
                    proof {
                        assert forall|j: int|
                            0 <= j < crate::store::contacts_view(cs@).len() implies #[trigger] crate::store::contacts_view(
                            cs@,
                        )[j] == prev.push(cval)[j] by {
                            if j < cv0.len() {
                                assert(cs@[j] == cv0[j]);
                            } else {
                                assert(cs@[j]@ == cval);
                            }
                        }
                        assert(crate::store::contacts_view(cs@) =~= prev.push(cval));
                        let rows_new = sp_contact_rows(inp, self.at());
                        if rows_new is Some {
                            let ps = rows_new->Some_0.0;
                            assert(prev + (seq![cval] + ps) =~= prev.push(cval) + ps);
                        }
                    }
                },
                Result::Ok(false) => {
                    proof {
                        assert(crate::store::contacts_view(cs@) + Seq::<
                            crate::store::ContactV,
                        >::empty() =~= crate::store::contacts_view(cs@));
                    }
                    return Result::Ok(cs);
                },
                Result::Err(e) => {
                    return Result::Err(e);
                },
            }
        }
    }

    /// Reads a section key and skips the section's whole list.
    fn skip_keyed_section(&mut self, key: &Vec<u8>) -> (r: Result<(), DecodeError>)
        requires
            old(self).wf(),
        ensures
            final(self).wf(),
            final(self).inp() == old(self).inp(),
            match r {
                Result::Ok(_) => sp_keyed_skip(old(self).inp(), old(self).at(), key@)
                    == Option::Some(final(self).at()),
                Result::Err(_) => sp_keyed_skip(old(self).inp(), old(self).at(), key@) is None,
            },
    {
        match self.expect_key(key) {
            Result::Ok(_) => {},
            Result::Err(e) => {
                return Result::Err(e);
            },
        }
        match self.expect_list() {
            Result::Ok(_) => {},
            Result::Err(e) => {
                return Result::Err(e);
            },
        }
        self.skip_until_end()
    }
}

/// Decodes a whole snapshot: the configuration pairs and the contacts are
/// read into a fresh store, every other section is checked and dropped,
/// exactly as `sp_snapshot` says.  A malformed stream, and in particular
/// one whose version entry is missing, repeated or unsupported, is
/// rejected and nothing is returned, so the caller's store stays as it
/// was.
pub fn deserialize(input: Vec<u8>) -> (r: Result<crate::store::Store, DecodeError>)
    ensures
        match sp_snapshot(input@) {
            Option::Some(pc) => (match r {
                Result::Ok(st) => crate::store::config_view(st.config@) == pc.0
                    && crate::store::contacts_view(st.contacts@) == pc.1 && st.chats@.len() == 0
                    && st.leftgroups@.len() == 0 && st.keypairs@.len() == 0 && st.messages@.len()
                    == 0 && st.mdns@.len() == 0,
                Result::Err(_) => false,
            }),
            Option::None => r is Err,
        },
{
    let mut d = Decoder::new(input);
    match d.expect_dictionary() {
        Result::Ok(_) => {},
        Result::Err(e) => {
            return Result::Err(e);
        },
    }
    match d.expect_key(&crate::keys::k_top_config()) {
        Result::Ok(_) => {},
        Result::Err(e) => {
            return Result::Err(e);
        },
    }
    let config = match d.deserialize_config() {
        Result::Ok(c) => c,
        Result::Err(e) => {
            return Result::Err(e);
        },
    };
    match d.expect_key(&crate::keys::k_acpeerstates()) {
        Result::Ok(_) => {},
        Result::Err(e) => {
            return Result::Err(e);
        },
    }
    match d.deserialize_acpeerstates() {
        Result::Ok(_) => {},
        Result::Err(e) => {
            return Result::Err(e);
        },
    }
    match d.skip_keyed_section(&crate::keys::k_chats()) {
        Result::Ok(_) => {},
        Result::Err(e) => {
            return Result::Err(e);
        },
    }
    match d.skip_keyed_section(&crate::keys::k_chats_contacts()) {
        Result::Ok(_) => {},
        Result::Err(e) => {
            return Result::Err(e);
        },
    }
    match d.expect_key(&crate::keys::k_contacts()) {
        Result::Ok(_) => {},
        Result::Err(e) => {
            return Result::Err(e);
        },
    }
    let contacts = match d.deserialize_contacts() {
        Result::Ok(c) => c,
        Result::Err(e) => {
            return Result::Err(e);
        },
    };
    match d.skip_keyed_section(&crate::keys::k_dns_cache()) {
        Result::Ok(_) => {},
        Result::Err(e) => {
            return Result::Err(e);
        },
    }
    match d.skip_keyed_section(&crate::keys::k_imap()) {
        Result::Ok(_) => {},
        Result::Err(e) => {
            return Result::Err(e);
        },
    }
    match d.skip_keyed_section(&crate::keys::k_imap_sync()) {
        Result::Ok(_) => {},
        Result::Err(e) => {
            return Result::Err(e);
        },
    }
    match d.skip_keyed_section(&crate::keys::k_keypairs()) {
        Result::Ok(_) => {},
        Result::Err(e) => {
            return Result::Err(e);
        },
    }
    match d.skip_keyed_section(&crate::keys::k_leftgroups()) {
        Result::Ok(_) => {},
        Result::Err(e) => {
            return Result::Err(e);
        },
    }
    match d.skip_keyed_section(&crate::keys::k_locations()) {
        Result::Ok(_) => {},
        Result::Err(e) => {
            return Result::Err(e);
        },
    }
    match d.skip_keyed_section(&crate::keys::k_mdns()) {
        Result::Ok(_) => {},
        Result::Err(e) => {
            return Result::Err(e);
        },
    }
    match d.skip_keyed_section(&crate::keys::k_messages()) {
        Result::Ok(_) => {},
        Result::Err(e) => {
            return Result::Err(e);
        },
    }
    match d.skip_keyed_section(&crate::keys::k_msgs_status_updates()) {
        Result::Ok(_) => {},
        Result::Err(e) => {
            return Result::Err(e);
        },
    }
    match d.skip_keyed_section(&crate::keys::k_multi_device_sync()) {
        Result::Ok(_) => {},
        Result::Err(e) => {
            return Result::Err(e);
        },
    }
    match d.skip_keyed_section(&crate::keys::k_reactions()) {
        Result::Ok(_) => {},
        Result::Err(e) => {
            return Result::Err(e);
        },
    }
    match d.skip_keyed_section(&crate::keys::k_sending_domains()) {
        Result::Ok(_) => {},
        Result::Err(e) => {
            return Result::Err(e);
        },
    }
    match d.skip_keyed_section(&crate::keys::k_tokens()) {
        Result::Ok(_) => {},
        Result::Err(e) => {
            return Result::Err(e);
        },
    }
    match d.expect_end() {
        Result::Ok(_) => {},
        Result::Err(e) => {
            return Result::Err(e);
        },
    }
    Result::Ok(
        crate::store::Store {
            config,
            contacts,
            chats: Vec::new(),
            leftgroups: Vec::new(),
            keypairs: Vec::new(),
            messages: Vec::new(),
            mdns: Vec::new(),
        },
    )
}

} // verus!
