//! The dictionary keys and fixed values of the snapshot format, as byte
//! strings: one spec constant and one builder for each.

use vstd::prelude::*;

verus! {

/// The bytes of `"_config"`.
pub open spec fn kb_top_config() -> Seq<u8> {
    seq![95u8, 99u8, 111u8, 110u8, 102u8, 105u8, 103u8]
}

/// Builds the bytes of `"_config"`.
pub fn k_top_config() -> (v: Vec<u8>)
    ensures
        v@ == kb_top_config(),
{
    let mut v: Vec<u8> = Vec::new();
    v.push(95);
    v.push(99);
    v.push(111);
    v.push(110);
    v.push(102);
    v.push(105);
    v.push(103);
    proof {
        assert(v@ =~= kb_top_config());
    }
    v
}

/// The bytes of `"acpeerstates"`.
pub open spec fn kb_acpeerstates() -> Seq<u8> {
    seq![97u8, 99u8, 112u8, 101u8, 101u8, 114u8, 115u8, 116u8, 97u8, 116u8, 101u8, 115u8]
}

/// Builds the bytes of `"acpeerstates"`.
pub fn k_acpeerstates() -> (v: Vec<u8>)
    ensures
        v@ == kb_acpeerstates(),
{
    let mut v: Vec<u8> = Vec::new();
    v.push(97);
    v.push(99);
    v.push(112);
    v.push(101);
    v.push(101);
    v.push(114);
    v.push(115);
    v.push(116);
    v.push(97);
    v.push(116);
    v.push(101);
    v.push(115);
    proof {
        assert(v@ =~= kb_acpeerstates());
    }
    v
}

/// The bytes of `"addr"`.
pub open spec fn kb_addr() -> Seq<u8> {
    seq![97u8, 100u8, 100u8, 114u8]
}

/// Builds the bytes of `"addr"`.
pub fn k_addr() -> (v: Vec<u8>)
    ensures
        v@ == kb_addr(),
{
    let mut v: Vec<u8> = Vec::new();
    v.push(97);
    v.push(100);
    v.push(100);
    v.push(114);
    proof {
        assert(v@ =~= kb_addr());
    }
    v
}

/// The bytes of `"authname"`.
pub open spec fn kb_authname() -> Seq<u8> {
    seq![97u8, 117u8, 116u8, 104u8, 110u8, 97u8, 109u8, 101u8]
}

/// Builds the bytes of `"authname"`.
pub fn k_authname() -> (v: Vec<u8>)
    ensures
        v@ == kb_authname(),
{
    let mut v: Vec<u8> = Vec::new();
    v.push(97);
    v.push(117);
    v.push(116);
    v.push(104);
    v.push(110);
    v.push(97);
    v.push(109);
    v.push(101);
    proof {
        assert(v@ =~= kb_authname());
    }
    v
}

/// The bytes of `"blocked"`.
pub open spec fn kb_blocked() -> Seq<u8> {
    seq![98u8, 108u8, 111u8, 99u8, 107u8, 101u8, 100u8]
}

/// Builds the bytes of `"blocked"`.
pub fn k_blocked() -> (v: Vec<u8>)
    ensures
        v@ == kb_blocked(),
{
    let mut v: Vec<u8> = Vec::new();
    v.push(98);
    v.push(108);
    v.push(111);
    v.push(99);
    v.push(107);
    v.push(101);
    v.push(100);
    proof {
        assert(v@ =~= kb_blocked());
    }
    v
}

/// The bytes of `"bytes"`.
pub open spec fn kb_bytes() -> Seq<u8> {
    seq![98u8, 121u8, 116u8, 101u8, 115u8]
}

/// Builds the bytes of `"bytes"`.
pub fn k_bytes() -> (v: Vec<u8>)
    ensures
        v@ == kb_bytes(),
{
    let mut v: Vec<u8> = Vec::new();
    v.push(98);
    v.push(121);
    v.push(116);
    v.push(101);
    v.push(115);
    proof {
        assert(v@ =~= kb_bytes());
    }
    v
}

/// The bytes of `"chat_id"`.
pub open spec fn kb_chat_id() -> Seq<u8> {
    seq![99u8, 104u8, 97u8, 116u8, 95u8, 105u8, 100u8]
}

/// Builds the bytes of `"chat_id"`.
pub fn k_chat_id() -> (v: Vec<u8>)
    ensures
        v@ == kb_chat_id(),
{
    let mut v: Vec<u8> = Vec::new();
    v.push(99);
    v.push(104);
    v.push(97);
    v.push(116);
    v.push(95);
    v.push(105);
    v.push(100);
    proof {
        assert(v@ =~= kb_chat_id());
    }
    v
}

/// The bytes of `"chats"`.
pub open spec fn kb_chats() -> Seq<u8> {
    seq![99u8, 104u8, 97u8, 116u8, 115u8]
}

/// Builds the bytes of `"chats"`.
pub fn k_chats() -> (v: Vec<u8>)
    ensures
        v@ == kb_chats(),
{
    let mut v: Vec<u8> = Vec::new();
    v.push(99);
    v.push(104);
    v.push(97);
    v.push(116);
    v.push(115);
    proof {
        assert(v@ =~= kb_chats());
    }
    v
}

/// The bytes of `"chats_contacts"`.
pub open spec fn kb_chats_contacts() -> Seq<u8> {
    seq![99u8, 104u8, 97u8, 116u8, 115u8, 95u8, 99u8, 111u8, 110u8, 116u8, 97u8, 99u8, 116u8, 115u8]
}

/// Builds the bytes of `"chats_contacts"`.
pub fn k_chats_contacts() -> (v: Vec<u8>)
    ensures
        v@ == kb_chats_contacts(),
{
    let mut v: Vec<u8> = Vec::new();
    v.push(99);
    v.push(104);
    v.push(97);
    v.push(116);
    v.push(115);
    v.push(95);
    v.push(99);
    v.push(111);
    v.push(110);
    v.push(116);
    v.push(97);
    v.push(99);
    v.push(116);
    v.push(115);
    proof {
        assert(v@ =~= kb_chats_contacts());
    }
    v
}

/// The bytes of `"contact_id"`.
pub open spec fn kb_contact_id() -> Seq<u8> {
    seq![99u8, 111u8, 110u8, 116u8, 97u8, 99u8, 116u8, 95u8, 105u8, 100u8]
}

/// Builds the bytes of `"contact_id"`.
pub fn k_contact_id() -> (v: Vec<u8>)
    ensures
        v@ == kb_contact_id(),
{
    let mut v: Vec<u8> = Vec::new();
    v.push(99);
    v.push(111);
    v.push(110);
    v.push(116);
    v.push(97);
    v.push(99);
    v.push(116);
    v.push(95);
    v.push(105);
    v.push(100);
    proof {
        assert(v@ =~= kb_contact_id());
    }
    v
}

/// The bytes of `"contacts"`.
pub open spec fn kb_contacts() -> Seq<u8> {
    seq![99u8, 111u8, 110u8, 116u8, 97u8, 99u8, 116u8, 115u8]
}

/// Builds the bytes of `"contacts"`.
pub fn k_contacts() -> (v: Vec<u8>)
    ensures
        v@ == kb_contacts(),
{
    let mut v: Vec<u8> = Vec::new();
    v.push(99);
    v.push(111);
    v.push(110);
    v.push(116);
    v.push(97);
    v.push(99);
    v.push(116);
    v.push(115);
    proof {
        assert(v@ =~= kb_contacts());
    }
    v
}

/// The bytes of `"created"`.
pub open spec fn kb_created() -> Seq<u8> {
    seq![99u8, 114u8, 101u8, 97u8, 116u8, 101u8, 100u8]
}

/// Builds the bytes of `"created"`.
pub fn k_created() -> (v: Vec<u8>)
    ensures
        v@ == kb_created(),
{
    let mut v: Vec<u8> = Vec::new();
    v.push(99);
    v.push(114);
    v.push(101);
    v.push(97);
    v.push(116);
    v.push(101);
    v.push(100);
    proof {
        assert(v@ =~= kb_created());
    }
    v
}

/// The bytes of `"dbversion"`.
pub open spec fn kb_dbversion() -> Seq<u8> {
    seq![100u8, 98u8, 118u8, 101u8, 114u8, 115u8, 105u8, 111u8, 110u8]
}

/// Builds the bytes of `"dbversion"`.
pub fn k_dbversion() -> (v: Vec<u8>)
    ensures
        v@ == kb_dbversion(),
{
    let mut v: Vec<u8> = Vec::new();
    v.push(100);
    v.push(98);
    v.push(118);
    v.push(101);
    v.push(114);
    v.push(115);
    v.push(105);
    v.push(111);
    v.push(110);
    proof {
        assert(v@ =~= kb_dbversion());
    }
    v
}

/// The bytes of `"dns_cache"`.
pub open spec fn kb_dns_cache() -> Seq<u8> {
    seq![100u8, 110u8, 115u8, 95u8, 99u8, 97u8, 99u8, 104u8, 101u8]
}

/// Builds the bytes of `"dns_cache"`.
pub fn k_dns_cache() -> (v: Vec<u8>)
    ensures
        v@ == kb_dns_cache(),
{
    let mut v: Vec<u8> = Vec::new();
    v.push(100);
    v.push(110);
    v.push(115);
    v.push(95);
    v.push(99);
    v.push(97);
    v.push(99);
    v.push(104);
    v.push(101);
    proof {
        assert(v@ =~= kb_dns_cache());
    }
    v
}

/// The bytes of `"from_id"`.
pub open spec fn kb_from_id() -> Seq<u8> {
    seq![102u8, 114u8, 111u8, 109u8, 95u8, 105u8, 100u8]
}

/// Builds the bytes of `"from_id"`.
pub fn k_from_id() -> (v: Vec<u8>)
    ensures
        v@ == kb_from_id(),
{
    let mut v: Vec<u8> = Vec::new();
    v.push(102);
    v.push(114);
    v.push(111);
    v.push(109);
    v.push(95);
    v.push(105);
    v.push(100);
    proof {
        assert(v@ =~= kb_from_id());
    }
    v
}

/// The bytes of `"gossip_key"`.
pub open spec fn kb_gossip_key() -> Seq<u8> {
    seq![103u8, 111u8, 115u8, 115u8, 105u8, 112u8, 95u8, 107u8, 101u8, 121u8]
}

/// Builds the bytes of `"gossip_key"`.
pub fn k_gossip_key() -> (v: Vec<u8>)
    ensures
        v@ == kb_gossip_key(),
{
    let mut v: Vec<u8> = Vec::new();
    v.push(103);
    v.push(111);
    v.push(115);
    v.push(115);
    v.push(105);
    v.push(112);
    v.push(95);
    v.push(107);
    v.push(101);
    v.push(121);
    proof {
        assert(v@ =~= kb_gossip_key());
    }
    v
}

/// The bytes of `"gossip_key_fingerprint"`.
pub open spec fn kb_gossip_key_fingerprint() -> Seq<u8> {
    seq![103u8, 111u8, 115u8, 115u8, 105u8, 112u8, 95u8, 107u8, 101u8, 121u8, 95u8, 102u8, 105u8, 110u8, 103u8, 101u8, 114u8, 112u8, 114u8, 105u8, 110u8, 116u8]
}

/// Builds the bytes of `"gossip_key_fingerprint"`.
pub fn k_gossip_key_fingerprint() -> (v: Vec<u8>)
    ensures
        v@ == kb_gossip_key_fingerprint(),
{
    let mut v: Vec<u8> = Vec::new();
    v.push(103);
    v.push(111);
    v.push(115);
    v.push(115);
    v.push(105);
    v.push(112);
    v.push(95);
    v.push(107);
    v.push(101);
    v.push(121);
    v.push(95);
    v.push(102);
    v.push(105);
    v.push(110);
    v.push(103);
    v.push(101);
    v.push(114);
    v.push(112);
    v.push(114);
    v.push(105);
    v.push(110);
    v.push(116);
    proof {
        assert(v@ =~= kb_gossip_key_fingerprint());
    }
    v
}

/// The bytes of `"gossip_timestamp"`.
pub open spec fn kb_gossip_timestamp() -> Seq<u8> {
    seq![103u8, 111u8, 115u8, 115u8, 105u8, 112u8, 95u8, 116u8, 105u8, 109u8, 101u8, 115u8, 116u8, 97u8, 109u8, 112u8]
}

/// Builds the bytes of `"gossip_timestamp"`.
pub fn k_gossip_timestamp() -> (v: Vec<u8>)
    ensures
        v@ == kb_gossip_timestamp(),
{
    let mut v: Vec<u8> = Vec::new();
    v.push(103);
    v.push(111);
    v.push(115);
    v.push(115);
    v.push(105);
    v.push(112);
    v.push(95);
    v.push(116);
    v.push(105);
    v.push(109);
    v.push(101);
    v.push(115);
    v.push(116);
    v.push(97);
    v.push(109);
    v.push(112);
    proof {
        assert(v@ =~= kb_gossip_timestamp());
    }
    v
}

/// The bytes of `"hidden"`.
pub open spec fn kb_hidden() -> Seq<u8> {
    seq![104u8, 105u8, 100u8, 100u8, 101u8, 110u8]
}

/// Builds the bytes of `"hidden"`.
pub fn k_hidden() -> (v: Vec<u8>)
    ensures
        v@ == kb_hidden(),
{
    let mut v: Vec<u8> = Vec::new();
    v.push(104);
    v.push(105);
    v.push(100);
    v.push(100);
    v.push(101);
    v.push(110);
    proof {
        assert(v@ =~= kb_hidden());
    }
    v
}

/// The bytes of `"id"`.
pub open spec fn kb_id() -> Seq<u8> {
    seq![105u8, 100u8]
}

/// Builds the bytes of `"id"`.
pub fn k_id() -> (v: Vec<u8>)
    ensures
        v@ == kb_id(),
{
    let mut v: Vec<u8> = Vec::new();
    v.push(105);
    v.push(100);
    proof {
        assert(v@ =~= kb_id());
    }
    v
}

/// The bytes of `"imap"`.
pub open spec fn kb_imap() -> Seq<u8> {
    seq![105u8, 109u8, 97u8, 112u8]
}

/// Builds the bytes of `"imap"`.
pub fn k_imap() -> (v: Vec<u8>)
    ensures
        v@ == kb_imap(),
{
    let mut v: Vec<u8> = Vec::new();
    v.push(105);
    v.push(109);
    v.push(97);
    v.push(112);
    proof {
        assert(v@ =~= kb_imap());
    }
    v
}

/// The bytes of `"imap_sync"`.
pub open spec fn kb_imap_sync() -> Seq<u8> {
    seq![105u8, 109u8, 97u8, 112u8, 95u8, 115u8, 121u8, 110u8, 99u8]
}

/// Builds the bytes of `"imap_sync"`.
pub fn k_imap_sync() -> (v: Vec<u8>)
    ensures
        v@ == kb_imap_sync(),
{
    let mut v: Vec<u8> = Vec::new();
    v.push(105);
    v.push(109);
    v.push(97);
    v.push(112);
    v.push(95);
    v.push(115);
    v.push(121);
    v.push(110);
    v.push(99);
    proof {
        assert(v@ =~= kb_imap_sync());
    }
    v
}

/// The bytes of `"is_default"`.
pub open spec fn kb_is_default() -> Seq<u8> {
    seq![105u8, 115u8, 95u8, 100u8, 101u8, 102u8, 97u8, 117u8, 108u8, 116u8]
}

/// Builds the bytes of `"is_default"`.
pub fn k_is_default() -> (v: Vec<u8>)
    ensures
        v@ == kb_is_default(),
{
    let mut v: Vec<u8> = Vec::new();
    v.push(105);
    v.push(115);
    v.push(95);
    v.push(100);
    v.push(101);
    v.push(102);
    v.push(97);
    v.push(117);
    v.push(108);
    v.push(116);
    proof {
        assert(v@ =~= kb_is_default());
    }
    v
}

/// The bytes of `"keypairs"`.
pub open spec fn kb_keypairs() -> Seq<u8> {
    seq![107u8, 101u8, 121u8, 112u8, 97u8, 105u8, 114u8, 115u8]
}

/// Builds the bytes of `"keypairs"`.
pub fn k_keypairs() -> (v: Vec<u8>)
    ensures
        v@ == kb_keypairs(),
{
    let mut v: Vec<u8> = Vec::new();
    v.push(107);
    v.push(101);
    v.push(121);
    v.push(112);
    v.push(97);
    v.push(105);
    v.push(114);
    v.push(115);
    proof {
        assert(v@ =~= kb_keypairs());
    }
    v
}

/// The bytes of `"last_seen"`.
pub open spec fn kb_last_seen() -> Seq<u8> {
    seq![108u8, 97u8, 115u8, 116u8, 95u8, 115u8, 101u8, 101u8, 110u8]
}

/// Builds the bytes of `"last_seen"`.
pub fn k_last_seen() -> (v: Vec<u8>)
    ensures
        v@ == kb_last_seen(),
{
    let mut v: Vec<u8> = Vec::new();
    v.push(108);
    v.push(97);
    v.push(115);
    v.push(116);
    v.push(95);
    v.push(115);
    v.push(101);
    v.push(101);
    v.push(110);
    proof {
        assert(v@ =~= kb_last_seen());
    }
    v
}

/// The bytes of `"last_seen_autocrypt"`.
pub open spec fn kb_last_seen_autocrypt() -> Seq<u8> {
    seq![108u8, 97u8, 115u8, 116u8, 95u8, 115u8, 101u8, 101u8, 110u8, 95u8, 97u8, 117u8, 116u8, 111u8, 99u8, 114u8, 121u8, 112u8, 116u8]
}

/// Builds the bytes of `"last_seen_autocrypt"`.
pub fn k_last_seen_autocrypt() -> (v: Vec<u8>)
    ensures
        v@ == kb_last_seen_autocrypt(),
{
    let mut v: Vec<u8> = Vec::new();
    v.push(108);
    v.push(97);
    v.push(115);
    v.push(116);
    v.push(95);
    v.push(115);
    v.push(101);
    v.push(101);
    v.push(110);
    v.push(95);
    v.push(97);
    v.push(117);
    v.push(116);
    v.push(111);
    v.push(99);
    v.push(114);
    v.push(121);
    v.push(112);
    v.push(116);
    proof {
        assert(v@ =~= kb_last_seen_autocrypt());
    }
    v
}

/// The bytes of `"leftgroups"`.
pub open spec fn kb_leftgroups() -> Seq<u8> {
    seq![108u8, 101u8, 102u8, 116u8, 103u8, 114u8, 111u8, 117u8, 112u8, 115u8]
}

/// Builds the bytes of `"leftgroups"`.
pub fn k_leftgroups() -> (v: Vec<u8>)
    ensures
        v@ == kb_leftgroups(),
{
    let mut v: Vec<u8> = Vec::new();
    v.push(108);
    v.push(101);
    v.push(102);
    v.push(116);
    v.push(103);
    v.push(114);
    v.push(111);
    v.push(117);
    v.push(112);
    v.push(115);
    proof {
        assert(v@ =~= kb_leftgroups());
    }
    v
}

/// The bytes of `"location_id"`.
pub open spec fn kb_location_id() -> Seq<u8> {
    seq![108u8, 111u8, 99u8, 97u8, 116u8, 105u8, 111u8, 110u8, 95u8, 105u8, 100u8]
}

/// Builds the bytes of `"location_id"`.
pub fn k_location_id() -> (v: Vec<u8>)
    ensures
        v@ == kb_location_id(),
{
    let mut v: Vec<u8> = Vec::new();
    v.push(108);
    v.push(111);
    v.push(99);
    v.push(97);
    v.push(116);
    v.push(105);
    v.push(111);
    v.push(110);
    v.push(95);
    v.push(105);
    v.push(100);
    proof {
        assert(v@ =~= kb_location_id());
    }
    v
}

/// The bytes of `"locations"`.
pub open spec fn kb_locations() -> Seq<u8> {
    seq![108u8, 111u8, 99u8, 97u8, 116u8, 105u8, 111u8, 110u8, 115u8]
}

/// Builds the bytes of `"locations"`.
pub fn k_locations() -> (v: Vec<u8>)
    ensures
        v@ == kb_locations(),
{
    let mut v: Vec<u8> = Vec::new();
    v.push(108);
    v.push(111);
    v.push(99);
    v.push(97);
    v.push(116);
    v.push(105);
    v.push(111);
    v.push(110);
    v.push(115);
    proof {
        assert(v@ =~= kb_locations());
    }
    v
}

/// The bytes of `"mdns"`.
pub open spec fn kb_mdns() -> Seq<u8> {
    seq![109u8, 100u8, 110u8, 115u8]
}

/// Builds the bytes of `"mdns"`.
pub fn k_mdns() -> (v: Vec<u8>)
    ensures
        v@ == kb_mdns(),
{
    let mut v: Vec<u8> = Vec::new();
    v.push(109);
    v.push(100);
    v.push(110);
    v.push(115);
    proof {
        assert(v@ =~= kb_mdns());
    }
    v
}

/// The bytes of `"messages"`.
pub open spec fn kb_messages() -> Seq<u8> {
    seq![109u8, 101u8, 115u8, 115u8, 97u8, 103u8, 101u8, 115u8]
}

/// Builds the bytes of `"messages"`.
pub fn k_messages() -> (v: Vec<u8>)
    ensures
        v@ == kb_messages(),
{
    let mut v: Vec<u8> = Vec::new();
    v.push(109);
    v.push(101);
    v.push(115);
    v.push(115);
    v.push(97);
    v.push(103);
    v.push(101);
    v.push(115);
    proof {
        assert(v@ =~= kb_messages());
    }
    v
}

/// The bytes of `"mime_headers"`.
pub open spec fn kb_mime_headers() -> Seq<u8> {
    seq![109u8, 105u8, 109u8, 101u8, 95u8, 104u8, 101u8, 97u8, 100u8, 101u8, 114u8, 115u8]
}

/// Builds the bytes of `"mime_headers"`.
pub fn k_mime_headers() -> (v: Vec<u8>)
    ensures
        v@ == kb_mime_headers(),
{
    let mut v: Vec<u8> = Vec::new();
    v.push(109);
    v.push(105);
    v.push(109);
    v.push(101);
    v.push(95);
    v.push(104);
    v.push(101);
    v.push(97);
    v.push(100);
    v.push(101);
    v.push(114);
    v.push(115);
    proof {
        assert(v@ =~= kb_mime_headers());
    }
    v
}

/// The bytes of `"mime_in_reply_to"`.
pub open spec fn kb_mime_in_reply_to() -> Seq<u8> {
    seq![109u8, 105u8, 109u8, 101u8, 95u8, 105u8, 110u8, 95u8, 114u8, 101u8, 112u8, 108u8, 121u8, 95u8, 116u8, 111u8]
}

/// Builds the bytes of `"mime_in_reply_to"`.
pub fn k_mime_in_reply_to() -> (v: Vec<u8>)
    ensures
        v@ == kb_mime_in_reply_to(),
{
    let mut v: Vec<u8> = Vec::new();
    v.push(109);
    v.push(105);
    v.push(109);
    v.push(101);
    v.push(95);
    v.push(105);
    v.push(110);
    v.push(95);
    v.push(114);
    v.push(101);
    v.push(112);
    v.push(108);
    v.push(121);
    v.push(95);
    v.push(116);
    v.push(111);
    proof {
        assert(v@ =~= kb_mime_in_reply_to());
    }
    v
}

/// The bytes of `"mime_references"`.
pub open spec fn kb_mime_references() -> Seq<u8> {
    seq![109u8, 105u8, 109u8, 101u8, 95u8, 114u8, 101u8, 102u8, 101u8, 114u8, 101u8, 110u8, 99u8, 101u8, 115u8]
}

/// Builds the bytes of `"mime_references"`.
pub fn k_mime_references() -> (v: Vec<u8>)
    ensures
        v@ == kb_mime_references(),
{
    let mut v: Vec<u8> = Vec::new();
    v.push(109);
    v.push(105);
    v.push(109);
    v.push(101);
    v.push(95);
    v.push(114);
    v.push(101);
    v.push(102);
    v.push(101);
    v.push(114);
    v.push(101);
    v.push(110);
    v.push(99);
    v.push(101);
    v.push(115);
    proof {
        assert(v@ =~= kb_mime_references());
    }
    v
}

/// The bytes of `"msg_id"`.
pub open spec fn kb_msg_id() -> Seq<u8> {
    seq![109u8, 115u8, 103u8, 95u8, 105u8, 100u8]
}

/// Builds the bytes of `"msg_id"`.
pub fn k_msg_id() -> (v: Vec<u8>)
    ensures
        v@ == kb_msg_id(),
{
    let mut v: Vec<u8> = Vec::new();
    v.push(109);
    v.push(115);
    v.push(103);
    v.push(95);
    v.push(105);
    v.push(100);
    proof {
        assert(v@ =~= kb_msg_id());
    }
    v
}

/// The bytes of `"msgrmsg"`.
pub open spec fn kb_msgrmsg() -> Seq<u8> {
    seq![109u8, 115u8, 103u8, 114u8, 109u8, 115u8, 103u8]
}

/// Builds the bytes of `"msgrmsg"`.
pub fn k_msgrmsg() -> (v: Vec<u8>)
    ensures
        v@ == kb_msgrmsg(),
{
    let mut v: Vec<u8> = Vec::new();
    v.push(109);
    v.push(115);
    v.push(103);
    v.push(114);
    v.push(109);
    v.push(115);
    v.push(103);
    proof {
        assert(v@ =~= kb_msgrmsg());
    }
    v
}

/// The bytes of `"msgs_status_updates"`.
pub open spec fn kb_msgs_status_updates() -> Seq<u8> {
    seq![109u8, 115u8, 103u8, 115u8, 95u8, 115u8, 116u8, 97u8, 116u8, 117u8, 115u8, 95u8, 117u8, 112u8, 100u8, 97u8, 116u8, 101u8, 115u8]
}

/// Builds the bytes of `"msgs_status_updates"`.
pub fn k_msgs_status_updates() -> (v: Vec<u8>)
    ensures
        v@ == kb_msgs_status_updates(),
{
    let mut v: Vec<u8> = Vec::new();
    v.push(109);
    v.push(115);
    v.push(103);
    v.push(115);
    v.push(95);
    v.push(115);
    v.push(116);
    v.push(97);
    v.push(116);
    v.push(117);
    v.push(115);
    v.push(95);
    v.push(117);
    v.push(112);
    v.push(100);
    v.push(97);
    v.push(116);
    v.push(101);
    v.push(115);
    proof {
        assert(v@ =~= kb_msgs_status_updates());
    }
    v
}

/// The bytes of `"multi_device_sync"`.
pub open spec fn kb_multi_device_sync() -> Seq<u8> {
    seq![109u8, 117u8, 108u8, 116u8, 105u8, 95u8, 100u8, 101u8, 118u8, 105u8, 99u8, 101u8, 95u8, 115u8, 121u8, 110u8, 99u8]
}

/// Builds the bytes of `"multi_device_sync"`.
pub fn k_multi_device_sync() -> (v: Vec<u8>)
    ensures
        v@ == kb_multi_device_sync(),
{
    let mut v: Vec<u8> = Vec::new();
    v.push(109);
    v.push(117);
    v.push(108);
    v.push(116);
    v.push(105);
    v.push(95);
    v.push(100);
    v.push(101);
    v.push(118);
    v.push(105);
    v.push(99);
    v.push(101);
    v.push(95);
    v.push(115);
    v.push(121);
    v.push(110);
    v.push(99);
    proof {
        assert(v@ =~= kb_multi_device_sync());
    }
    v
}

/// The bytes of `"name"`.
pub open spec fn kb_name() -> Seq<u8> {
    seq![110u8, 97u8, 109u8, 101u8]
}

/// Builds the bytes of `"name"`.
pub fn k_name() -> (v: Vec<u8>)
    ensures
        v@ == kb_name(),
{
    let mut v: Vec<u8> = Vec::new();
    v.push(110);
    v.push(97);
    v.push(109);
    v.push(101);
    proof {
        assert(v@ =~= kb_name());
    }
    v
}

/// The bytes of `"origin"`.
pub open spec fn kb_origin() -> Seq<u8> {
    seq![111u8, 114u8, 105u8, 103u8, 105u8, 110u8]
}

/// Builds the bytes of `"origin"`.
pub fn k_origin() -> (v: Vec<u8>)
    ensures
        v@ == kb_origin(),
{
    let mut v: Vec<u8> = Vec::new();
    v.push(111);
    v.push(114);
    v.push(105);
    v.push(103);
    v.push(105);
    v.push(110);
    proof {
        assert(v@ =~= kb_origin());
    }
    v
}

/// The bytes of `"param"`.
pub open spec fn kb_param() -> Seq<u8> {
    seq![112u8, 97u8, 114u8, 97u8, 109u8]
}

/// Builds the bytes of `"param"`.
pub fn k_param() -> (v: Vec<u8>)
    ensures
        v@ == kb_param(),
{
    let mut v: Vec<u8> = Vec::new();
    v.push(112);
    v.push(97);
    v.push(114);
    v.push(97);
    v.push(109);
    proof {
        assert(v@ =~= kb_param());
    }
    v
}

/// The bytes of `"prefer_encrypted"`.
pub open spec fn kb_prefer_encrypted() -> Seq<u8> {
    seq![112u8, 114u8, 101u8, 102u8, 101u8, 114u8, 95u8, 101u8, 110u8, 99u8, 114u8, 121u8, 112u8, 116u8, 101u8, 100u8]
}

/// Builds the bytes of `"prefer_encrypted"`.
pub fn k_prefer_encrypted() -> (v: Vec<u8>)
    ensures
        v@ == kb_prefer_encrypted(),
{
    let mut v: Vec<u8> = Vec::new();
    v.push(112);
    v.push(114);
    v.push(101);
    v.push(102);
    v.push(101);
    v.push(114);
    v.push(95);
    v.push(101);
    v.push(110);
    v.push(99);
    v.push(114);
    v.push(121);
    v.push(112);
    v.push(116);
    v.push(101);
    v.push(100);
    proof {
        assert(v@ =~= kb_prefer_encrypted());
    }
    v
}

/// The bytes of `"private_key"`.
pub open spec fn kb_private_key() -> Seq<u8> {
    seq![112u8, 114u8, 105u8, 118u8, 97u8, 116u8, 101u8, 95u8, 107u8, 101u8, 121u8]
}

/// Builds the bytes of `"private_key"`.
pub fn k_private_key() -> (v: Vec<u8>)
    ensures
        v@ == kb_private_key(),
{
    let mut v: Vec<u8> = Vec::new();
    v.push(112);
    v.push(114);
    v.push(105);
    v.push(118);
    v.push(97);
    v.push(116);
    v.push(101);
    v.push(95);
    v.push(107);
    v.push(101);
    v.push(121);
    proof {
        assert(v@ =~= kb_private_key());
    }
    v
}

/// The bytes of `"public_key"`.
pub open spec fn kb_public_key() -> Seq<u8> {
    seq![112u8, 117u8, 98u8, 108u8, 105u8, 99u8, 95u8, 107u8, 101u8, 121u8]
}

/// Builds the bytes of `"public_key"`.
pub fn k_public_key() -> (v: Vec<u8>)
    ensures
        v@ == kb_public_key(),
{
    let mut v: Vec<u8> = Vec::new();
    v.push(112);
    v.push(117);
    v.push(98);
    v.push(108);
    v.push(105);
    v.push(99);
    v.push(95);
    v.push(107);
    v.push(101);
    v.push(121);
    proof {
        assert(v@ =~= kb_public_key());
    }
    v
}

/// The bytes of `"public_key_fingerprint"`.
pub open spec fn kb_public_key_fingerprint() -> Seq<u8> {
    seq![112u8, 117u8, 98u8, 108u8, 105u8, 99u8, 95u8, 107u8, 101u8, 121u8, 95u8, 102u8, 105u8, 110u8, 103u8, 101u8, 114u8, 112u8, 114u8, 105u8, 110u8, 116u8]
}

/// Builds the bytes of `"public_key_fingerprint"`.
pub fn k_public_key_fingerprint() -> (v: Vec<u8>)
    ensures
        v@ == kb_public_key_fingerprint(),
{
    let mut v: Vec<u8> = Vec::new();
    v.push(112);
    v.push(117);
    v.push(98);
    v.push(108);
    v.push(105);
    v.push(99);
    v.push(95);
    v.push(107);
    v.push(101);
    v.push(121);
    v.push(95);
    v.push(102);
    v.push(105);
    v.push(110);
    v.push(103);
    v.push(101);
    v.push(114);
    v.push(112);
    v.push(114);
    v.push(105);
    v.push(110);
    v.push(116);
    proof {
        assert(v@ =~= kb_public_key_fingerprint());
    }
    v
}

/// The bytes of `"reactions"`.
pub open spec fn kb_reactions() -> Seq<u8> {
    seq![114u8, 101u8, 97u8, 99u8, 116u8, 105u8, 111u8, 110u8, 115u8]
}

/// Builds the bytes of `"reactions"`.
pub fn k_reactions() -> (v: Vec<u8>)
    ensures
        v@ == kb_reactions(),
{
    let mut v: Vec<u8> = Vec::new();
    v.push(114);
    v.push(101);
    v.push(97);
    v.push(99);
    v.push(116);
    v.push(105);
    v.push(111);
    v.push(110);
    v.push(115);
    proof {
        assert(v@ =~= kb_reactions());
    }
    v
}

/// The bytes of `"rfc724_mid"`.
pub open spec fn kb_rfc724_mid() -> Seq<u8> {
    seq![114u8, 102u8, 99u8, 55u8, 50u8, 52u8, 95u8, 109u8, 105u8, 100u8]
}

/// Builds the bytes of `"rfc724_mid"`.
pub fn k_rfc724_mid() -> (v: Vec<u8>)
    ensures
        v@ == kb_rfc724_mid(),
{
    let mut v: Vec<u8> = Vec::new();
    v.push(114);
    v.push(102);
    v.push(99);
    v.push(55);
    v.push(50);
    v.push(52);
    v.push(95);
    v.push(109);
    v.push(105);
    v.push(100);
    proof {
        assert(v@ =~= kb_rfc724_mid());
    }
    v
}

/// The bytes of `"selfavatar_sent"`.
pub open spec fn kb_selfavatar_sent() -> Seq<u8> {
    seq![115u8, 101u8, 108u8, 102u8, 97u8, 118u8, 97u8, 116u8, 97u8, 114u8, 95u8, 115u8, 101u8, 110u8, 116u8]
}

/// Builds the bytes of `"selfavatar_sent"`.
pub fn k_selfavatar_sent() -> (v: Vec<u8>)
    ensures
        v@ == kb_selfavatar_sent(),
{
    let mut v: Vec<u8> = Vec::new();
    v.push(115);
    v.push(101);
    v.push(108);
    v.push(102);
    v.push(97);
    v.push(118);
    v.push(97);
    v.push(116);
    v.push(97);
    v.push(114);
    v.push(95);
    v.push(115);
    v.push(101);
    v.push(110);
    v.push(116);
    proof {
        assert(v@ =~= kb_selfavatar_sent());
    }
    v
}

/// The bytes of `"sending_domains"`.
pub open spec fn kb_sending_domains() -> Seq<u8> {
    seq![115u8, 101u8, 110u8, 100u8, 105u8, 110u8, 103u8, 95u8, 100u8, 111u8, 109u8, 97u8, 105u8, 110u8, 115u8]
}

/// Builds the bytes of `"sending_domains"`.
pub fn k_sending_domains() -> (v: Vec<u8>)
    ensures
        v@ == kb_sending_domains(),
{
    let mut v: Vec<u8> = Vec::new();
    v.push(115);
    v.push(101);
    v.push(110);
    v.push(100);
    v.push(105);
    v.push(110);
    v.push(103);
    v.push(95);
    v.push(100);
    v.push(111);
    v.push(109);
    v.push(97);
    v.push(105);
    v.push(110);
    v.push(115);
    proof {
        assert(v@ =~= kb_sending_domains());
    }
    v
}

/// The bytes of `"state"`.
pub open spec fn kb_state() -> Seq<u8> {
    seq![115u8, 116u8, 97u8, 116u8, 101u8]
}

/// Builds the bytes of `"state"`.
pub fn k_state() -> (v: Vec<u8>)
    ensures
        v@ == kb_state(),
{
    let mut v: Vec<u8> = Vec::new();
    v.push(115);
    v.push(116);
    v.push(97);
    v.push(116);
    v.push(101);
    proof {
        assert(v@ =~= kb_state());
    }
    v
}

/// The bytes of `"status"`.
pub open spec fn kb_status() -> Seq<u8> {
    seq![115u8, 116u8, 97u8, 116u8, 117u8, 115u8]
}

/// Builds the bytes of `"status"`.
pub fn k_status() -> (v: Vec<u8>)
    ensures
        v@ == kb_status(),
{
    let mut v: Vec<u8> = Vec::new();
    v.push(115);
    v.push(116);
    v.push(97);
    v.push(116);
    v.push(117);
    v.push(115);
    proof {
        assert(v@ =~= kb_status());
    }
    v
}

/// The bytes of `"timestamp"`.
pub open spec fn kb_timestamp() -> Seq<u8> {
    seq![116u8, 105u8, 109u8, 101u8, 115u8, 116u8, 97u8, 109u8, 112u8]
}

/// Builds the bytes of `"timestamp"`.
pub fn k_timestamp() -> (v: Vec<u8>)
    ensures
        v@ == kb_timestamp(),
{
    let mut v: Vec<u8> = Vec::new();
    v.push(116);
    v.push(105);
    v.push(109);
    v.push(101);
    v.push(115);
    v.push(116);
    v.push(97);
    v.push(109);
    v.push(112);
    proof {
        assert(v@ =~= kb_timestamp());
    }
    v
}

/// The bytes of `"timestamp_rcvd"`.
pub open spec fn kb_timestamp_rcvd() -> Seq<u8> {
    seq![116u8, 105u8, 109u8, 101u8, 115u8, 116u8, 97u8, 109u8, 112u8, 95u8, 114u8, 99u8, 118u8, 100u8]
}

/// Builds the bytes of `"timestamp_rcvd"`.
pub fn k_timestamp_rcvd() -> (v: Vec<u8>)
    ensures
        v@ == kb_timestamp_rcvd(),
{
    let mut v: Vec<u8> = Vec::new();
    v.push(116);
    v.push(105);
    v.push(109);
    v.push(101);
    v.push(115);
    v.push(116);
    v.push(97);
    v.push(109);
    v.push(112);
    v.push(95);
    v.push(114);
    v.push(99);
    v.push(118);
    v.push(100);
    proof {
        assert(v@ =~= kb_timestamp_rcvd());
    }
    v
}

/// The bytes of `"timestamp_sent"`.
pub open spec fn kb_timestamp_sent() -> Seq<u8> {
    seq![116u8, 105u8, 109u8, 101u8, 115u8, 116u8, 97u8, 109u8, 112u8, 95u8, 115u8, 101u8, 110u8, 116u8]
}

/// Builds the bytes of `"timestamp_sent"`.
pub fn k_timestamp_sent() -> (v: Vec<u8>)
    ensures
        v@ == kb_timestamp_sent(),
{
    let mut v: Vec<u8> = Vec::new();
    v.push(116);
    v.push(105);
    v.push(109);
    v.push(101);
    v.push(115);
    v.push(116);
    v.push(97);
    v.push(109);
    v.push(112);
    v.push(95);
    v.push(115);
    v.push(101);
    v.push(110);
    v.push(116);
    proof {
        assert(v@ =~= kb_timestamp_sent());
    }
    v
}

/// The bytes of `"to_id"`.
pub open spec fn kb_to_id() -> Seq<u8> {
    seq![116u8, 111u8, 95u8, 105u8, 100u8]
}

/// Builds the bytes of `"to_id"`.
pub fn k_to_id() -> (v: Vec<u8>)
    ensures
        v@ == kb_to_id(),
{
    let mut v: Vec<u8> = Vec::new();
    v.push(116);
    v.push(111);
    v.push(95);
    v.push(105);
    v.push(100);
    proof {
        assert(v@ =~= kb_to_id());
    }
    v
}

/// The bytes of `"tokens"`.
pub open spec fn kb_tokens() -> Seq<u8> {
    seq![116u8, 111u8, 107u8, 101u8, 110u8, 115u8]
}

/// Builds the bytes of `"tokens"`.
pub fn k_tokens() -> (v: Vec<u8>)
    ensures
        v@ == kb_tokens(),
{
    let mut v: Vec<u8> = Vec::new();
    v.push(116);
    v.push(111);
    v.push(107);
    v.push(101);
    v.push(110);
    v.push(115);
    proof {
        assert(v@ =~= kb_tokens());
    }
    v
}

/// The bytes of `"txt"`.
pub open spec fn kb_txt() -> Seq<u8> {
    seq![116u8, 120u8, 116u8]
}

/// Builds the bytes of `"txt"`.
pub fn k_txt() -> (v: Vec<u8>)
    ensures
        v@ == kb_txt(),
{
    let mut v: Vec<u8> = Vec::new();
    v.push(116);
    v.push(120);
    v.push(116);
    proof {
        assert(v@ =~= kb_txt());
    }
    v
}

/// The bytes of `"txt_raw"`.
pub open spec fn kb_txt_raw() -> Seq<u8> {
    seq![116u8, 120u8, 116u8, 95u8, 114u8, 97u8, 119u8]
}

/// Builds the bytes of `"txt_raw"`.
pub fn k_txt_raw() -> (v: Vec<u8>)
    ensures
        v@ == kb_txt_raw(),
{
    let mut v: Vec<u8> = Vec::new();
    v.push(116);
    v.push(120);
    v.push(116);
    v.push(95);
    v.push(114);
    v.push(97);
    v.push(119);
    proof {
        assert(v@ =~= kb_txt_raw());
    }
    v
}

/// The bytes of `"type"`.
pub open spec fn kb_typ() -> Seq<u8> {
    seq![116u8, 121u8, 112u8, 101u8]
}

/// Builds the bytes of `"type"`.
pub fn k_typ() -> (v: Vec<u8>)
    ensures
        v@ == kb_typ(),
{
    let mut v: Vec<u8> = Vec::new();
    v.push(116);
    v.push(121);
    v.push(112);
    v.push(101);
    proof {
        assert(v@ =~= kb_typ());
    }
    v
}

/// The bytes of `"99"`.
pub open spec fn kb_v99() -> Seq<u8> {
    seq![57u8, 57u8]
}

/// Builds the bytes of `"99"`.
pub fn k_v99() -> (v: Vec<u8>)
    ensures
        v@ == kb_v99(),
{
    let mut v: Vec<u8> = Vec::new();
    v.push(57);
    v.push(57);
    proof {
        assert(v@ =~= kb_v99());
    }
    v
}

/// The bytes of `"verified_key"`.
pub open spec fn kb_verified_key() -> Seq<u8> {
    seq![118u8, 101u8, 114u8, 105u8, 102u8, 105u8, 101u8, 100u8, 95u8, 107u8, 101u8, 121u8]
}

/// Builds the bytes of `"verified_key"`.
pub fn k_verified_key() -> (v: Vec<u8>)
    ensures
        v@ == kb_verified_key(),
{
    let mut v: Vec<u8> = Vec::new();
    v.push(118);
    v.push(101);
    v.push(114);
    v.push(105);
    v.push(102);
    v.push(105);
    v.push(101);
    v.push(100);
    v.push(95);
    v.push(107);
    v.push(101);
    v.push(121);
    proof {
        assert(v@ =~= kb_verified_key());
    }
    v
}

/// The bytes of `"verified_key_fingerprint"`.
pub open spec fn kb_verified_key_fingerprint() -> Seq<u8> {
    seq![118u8, 101u8, 114u8, 105u8, 102u8, 105u8, 101u8, 100u8, 95u8, 107u8, 101u8, 121u8, 95u8, 102u8, 105u8, 110u8, 103u8, 101u8, 114u8, 112u8, 114u8, 105u8, 110u8, 116u8]
}

/// Builds the bytes of `"verified_key_fingerprint"`.
pub fn k_verified_key_fingerprint() -> (v: Vec<u8>)
    ensures
        v@ == kb_verified_key_fingerprint(),
{
    let mut v: Vec<u8> = Vec::new();
    v.push(118);
    v.push(101);
    v.push(114);
    v.push(105);
    v.push(102);
    v.push(105);
    v.push(101);
    v.push(100);
    v.push(95);
    v.push(107);
    v.push(101);
    v.push(121);
    v.push(95);
    v.push(102);
    v.push(105);
    v.push(110);
    v.push(103);
    v.push(101);
    v.push(114);
    v.push(112);
    v.push(114);
    v.push(105);
    v.push(110);
    v.push(116);
    proof {
        assert(v@ =~= kb_verified_key_fingerprint());
    }
    v
}

} // verus!
