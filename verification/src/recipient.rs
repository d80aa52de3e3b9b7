//! Who a message is addressed to.
use vstd::prelude::*;

use crate::text::opt_text;
use crate::text::opt_seq;

verus! {

/// The addressee of an outbound message.
#[derive(Debug, Clone, PartialEq, Eq)]
pub enum Recipient {
    Phone(String),
    BusinessScopedUserId(String),
    Individual { phone: Option<String>, business_scoped_user_id: Option<String> },
    Group(String),
}

/// The `to` address of a recipient, when it has one.
pub open spec fn send_to_spec(r: Recipient) -> Option<Seq<char>> {
    match r {
        Recipient::Phone(p) => Some(p@),
        Recipient::BusinessScopedUserId(_) => None,
        Recipient::Individual { phone, .. } => opt_text(phone),
        Recipient::Group(g) => Some(g@),
    }
}

/// The business-scoped user id of a recipient, when it has one.
pub open spec fn bsuid_spec(r: Recipient) -> Option<Seq<char>> {
    match r {
        Recipient::Phone(_) | Recipient::Group(_) => None,
        Recipient::BusinessScopedUserId(id) => Some(id@),
        Recipient::Individual { business_scoped_user_id, .. } => opt_text(business_scoped_user_id),
    }
}

fn owned(o: Option<&str>) -> (r: Option<String>)
    ensures
        opt_text(r) == opt_seq(o),
{
    match o {
        Some(t) => Some(String::from_str(t)),
        None => None,
    }
}

impl Recipient {
    pub fn phone(phone: &str) -> (r: Self)
        ensures
            r matches Recipient::Phone(p) && p@ == phone@,
    {
        Recipient::Phone(String::from_str(phone))
    }

    pub fn bsuid(id: &str) -> (r: Self)
        ensures
            r matches Recipient::BusinessScopedUserId(p) && p@ == id@,
    {
        Recipient::BusinessScopedUserId(String::from_str(id))
    }

    pub fn individual(phone: Option<&str>, business_scoped_user_id: Option<&str>) -> (r: Self)
        ensures
            r matches Recipient::Individual { phone: p, business_scoped_user_id: b } && opt_text(p)
                == opt_seq(phone) && opt_text(b) == opt_seq(business_scoped_user_id),
    {
        Recipient::Individual {
            phone: owned(phone),
            business_scoped_user_id: owned(business_scoped_user_id),
        }
    }

    pub fn group(group_id: &str) -> (r: Self)
        ensures
            r matches Recipient::Group(g) && g@ == group_id@,
    {
        Recipient::Group(String::from_str(group_id))
    }

    pub fn is_group(&self) -> (r: bool)
        ensures
            r == (*self is Group),
    {
        match self {
            Recipient::Group(_) => true,
            _ => false,
        }
    }

    /// The `to` address: the phone or group id.
    pub fn send_to(&self) -> (r: Option<&str>)
        ensures
            opt_seq(r) == send_to_spec(*self),
    {
        match self {
            Recipient::Phone(phone) => Some(phone.as_str()),
            Recipient::BusinessScopedUserId(_) => None,
            Recipient::Individual { phone, .. } => match phone {
                Some(p) => Some(p.as_str()),
                None => None,
            },
            Recipient::Group(group_id) => Some(group_id.as_str()),
        }
    }

    /// The business-scoped user id, for recipients addressed by it.
    pub fn business_scoped_user_id(&self) -> (r: Option<&str>)
        ensures
            opt_seq(r) == bsuid_spec(*self),
    {
        match self {
            Recipient::Phone(_) | Recipient::Group(_) => None,
            Recipient::BusinessScopedUserId(id) => Some(id.as_str()),
            Recipient::Individual { business_scoped_user_id, .. } => match business_scoped_user_id {
                Some(id) => Some(id.as_str()),
                None => None,
            },
        }
    }
}

/// The `to` address of a recipient is its phone number or group id: an individual is
/// addressed by its phone alone, so one without a phone has no `to` address, and a
/// recipient given only by a business-scoped user id has none either.
pub proof fn lemma_send_to_address(r: Recipient)
    ensures
        match r {
            Recipient::Phone(p) => send_to_spec(r) == Some(p@),
            Recipient::Group(g) => send_to_spec(r) == Some(g@),
            Recipient::BusinessScopedUserId(_) => send_to_spec(r) is None,
            Recipient::Individual { phone: Some(p), .. } => send_to_spec(r) == Some(p@),
            Recipient::Individual { phone: None, .. } => send_to_spec(r) is None,
        },
{
}

/// The business-scoped user id of a recipient is the one it was given; phone and group
/// recipients have none.
pub proof fn lemma_business_scoped_id(r: Recipient)
    ensures
        match r {
            Recipient::Phone(_) | Recipient::Group(_) => bsuid_spec(r) is None,
            Recipient::BusinessScopedUserId(id) => bsuid_spec(r) == Some(id@),
            Recipient::Individual { business_scoped_user_id: Some(b), .. } => bsuid_spec(r) == Some(b@),
            Recipient::Individual { business_scoped_user_id: None, .. } => bsuid_spec(r) is None,
        },
{
}

/// An individual's `to` address does not depend on its business-scoped user id, and its
/// business-scoped user id does not depend on its phone.
pub proof fn lemma_individual_addresses_independent(
    phone1: Option<String>,
    phone2: Option<String>,
    id1: Option<String>,
    id2: Option<String>,
)
    ensures
        send_to_spec(Recipient::Individual { phone: phone1, business_scoped_user_id: id1 })
            == send_to_spec(Recipient::Individual { phone: phone1, business_scoped_user_id: id2 }),
        bsuid_spec(Recipient::Individual { phone: phone1, business_scoped_user_id: id1 })
            == bsuid_spec(Recipient::Individual { phone: phone2, business_scoped_user_id: id1 }),
{
}

} // verus!
