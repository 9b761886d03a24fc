pub mod domain;
pub mod form;
pub mod routes;
pub mod store;
pub mod text;
pub mod token;

use vstd::prelude::*;

verus! {

/// Status column of a stored subscription row. A row is created as
/// `PendingConfirmation`; only the separate confirmation endpoint, which is
/// outside this library, moves it to `Confirmed`.
#[derive(Clone, Copy, PartialEq, Eq, Structural, Debug)]
pub enum SubscriptionStatus {
    PendingConfirmation,
    Confirmed,
}

} // verus!
