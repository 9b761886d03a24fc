use vstd::prelude::*;
use crate::domain::subscriber_email::SubscriberEmail;
use crate::domain::subscriber_name::SubscriberName;

verus! {

/// A validated subscriber that has not been persisted yet. Both fields can
/// only come out of their `parse` constructors, so an aggregate never carries
/// malformed identity data.
#[derive(Debug)]
pub struct NewSubscriber {
    pub email: SubscriberEmail,
    pub name: SubscriberName,
}

} // verus!
