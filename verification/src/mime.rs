//! Owned message-header field types.  The header tree is a purely owned
//! structure of tagged variants: every node owns its payload by value, so
//! there are no shared pointers and nothing to free by hand.

use vstd::prelude::*;

verus! {

/// A parsed date: day of month, month, four-digit year, time of day, and
/// the zone as the decimal value one reads (for `-0200`, the value
/// `-200`).
#[allow(non_camel_case_types)]
#[derive(Debug, Clone, PartialEq, Eq, Structural)]
pub struct mailimf_date_time {
    pub day: u32,
    pub month: u32,
    pub year: i32,
    pub hour: u32,
    pub min: u32,
    pub sec: u32,
    pub zone: i32,
}

impl mailimf_date_time {
    /// The documented field ranges: a calendar day and a time of day.
    pub open spec fn wf(&self) -> bool {
        1 <= self.day <= 31 && 1 <= self.month <= 12 && self.hour <= 23 && self.min <= 59
            && self.sec <= 59
    }
}

/// Builds a date from its parts.
#[allow(non_snake_case)]
pub fn mailimf_date_time_new(
    day: u32,
    month: u32,
    year: i32,
    hour: u32,
    min: u32,
    sec: u32,
    zone: i32,
) -> (r: mailimf_date_time)
    ensures
        r == (mailimf_date_time { day, month, year, hour, min, sec, zone }),
{
    mailimf_date_time { day, month, year, hour, min, sec, zone }
}

/// The parsed `Date` field.
#[allow(non_camel_case_types)]
#[derive(Debug, Clone, PartialEq, Eq, Structural)]
pub struct mailimf_orig_date {
    pub dt_date_time: mailimf_date_time,
}

/// The parsed `Keywords` field: the list of keywords.
#[allow(non_camel_case_types)]
#[derive(Debug, Clone)]
pub struct mailimf_keywords {
    pub kw_list: Vec<String>,
}

/// The parsed `References` field: the listed message identifiers.
#[allow(non_camel_case_types)]
#[derive(Debug, Clone)]
pub struct mailimf_references {
    pub mid_list: Vec<String>,
}

/// The parsed `In-Reply-To` field: the listed message identifiers.
#[allow(non_camel_case_types)]
#[derive(Debug, Clone)]
pub struct mailimf_in_reply_to {
    pub mid_list: Vec<String>,
}

/// A single mailbox: an optional display name and the address itself.
#[allow(non_camel_case_types)]
#[derive(Debug, Clone)]
pub struct mailimf_mailbox {
    pub display_name: Option<String>,
    pub addr_spec: String,
}

/// A named group of mailboxes.
#[allow(non_camel_case_types)]
#[derive(Debug, Clone)]
pub struct mailimf_group {
    pub display_name: String,
    pub mb_list: Vec<mailimf_mailbox>,
}

/// An address: a single mailbox or a group.
#[allow(non_camel_case_types)]
#[derive(Debug, Clone)]
pub enum mailimf_address {
    Mailbox(mailimf_mailbox),
    Group(mailimf_group),
}

/// A field that was not parsed further: its name and its raw value.
#[allow(non_camel_case_types)]
#[derive(Debug, Clone)]
pub struct mailimf_optional_field {
    pub fld_name: String,
    pub fld_value: String,
}

/// One parsed header field, each variant owning its payload by value.
#[allow(non_camel_case_types)]
#[derive(Debug, Clone)]
pub enum mailimf_field {
    ReturnPath(String),
    OrigDate(mailimf_orig_date),
    From(Vec<mailimf_mailbox>),
    Sender(mailimf_mailbox),
    ReplyTo(Vec<mailimf_address>),
    To(Vec<mailimf_address>),
    Cc(Vec<mailimf_address>),
    Bcc(Vec<mailimf_address>),
    MessageId(String),
    InReplyTo(mailimf_in_reply_to),
    References(mailimf_references),
    Subject(String),
    Comments(String),
    Keywords(mailimf_keywords),
    OptionalField(mailimf_optional_field),
}

/// The parsed header block: its fields in order.
#[allow(non_camel_case_types)]
#[derive(Debug, Clone)]
pub struct mailimf_fields {
    pub fld_list: Vec<mailimf_field>,
}

/// The message identifiers a `References` field carries, as character
/// sequences.
pub open spec fn references_view(r: &mailimf_references) -> Seq<Seq<char>> {
    r.mid_list.deep_view()
}

impl mailimf_references {
    /// An empty reference list.
    pub fn new() -> (r: Self)
        ensures
            references_view(&r) == Seq::<Seq<char>>::empty(),
    {
        let r = Self { mid_list: Vec::new() };
        proof {
            assert(references_view(&r) =~= Seq::<Seq<char>>::empty());
        }
        r
    }

    /// Appends one message identifier.
    pub fn push_mid(&mut self, mid: String)
        ensures
            references_view(final(self)) == references_view(old(self)).push(mid@),
    {
        let ghost prev = self.mid_list.deep_view();
        let ghost mv = mid@;
        let ghost n = self.mid_list@.len();
        self.mid_list.push(mid);
        proof {
            assert forall|j: int|
                0 <= j < self.mid_list.deep_view().len() implies #[trigger] self.mid_list.deep_view()[j]
                == prev.push(mv)[j] by {
                if j < n {
                    assert(self.mid_list@[j] == old(self).mid_list@[j]);
                } else {
                    assert(self.mid_list@[j]@ == mv);
                }
            }
            assert(self.mid_list.deep_view() =~= prev.push(mv));
        }
    }
}

} // verus!
