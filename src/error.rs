use vstd::prelude::*;

verus! {

/// Every way in which a request to the ledger, a saga or the factory fails.
#[derive(Clone, Copy, Debug, PartialEq, Eq, Structural)]
pub enum TicketError {
    /// The caller is not allowed to do this.
    Unauthorized,
    /// A show, ticket type or ticket does not exist.
    NotFound,
    /// A show, ticket type or ticket with this key exists already.
    AlreadyExists,
    /// The sale window of the show has not opened yet.
    NotStarted,
    /// The sale window of the show has closed.
    Ended,
    /// Every ticket of the type is sold, or an amendment would sell more than the supply.
    SoldOut,
    /// The attached deposit does not cover what is owed.
    InsufficientDeposit,
    /// A price is negative or cannot be represented in minimal units.
    InvalidPrice,
    /// The caller does not own the ticket.
    NotOwner,
    /// A remote step of a saga failed.
    RemoteFailure,
}

} // verus!
