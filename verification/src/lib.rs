//! Verified core of a chat-over-email messenger: the authentication-results
//! gate that guards encryption-key changes, the length-prefixed snapshot
//! codec used for multi-device state transfer, and the decision logic of the
//! mail-sync scheduler loops.

pub mod authres;
pub mod authres_laws;
pub mod bencode;
pub mod decode;
pub mod encode;
pub mod keys;
pub mod mime;
pub mod sched;
pub mod snapshot_laws;
pub mod store;
pub mod text;
