//! Ticketed-event sales: an inventory ledger of shows and ticket types, a
//! price calculator, a factory that provisions one sales deployment per
//! organizer, and the two sagas (provisioning and ticket sale) whose
//! continuations refund the caller when a remote step fails.
//!
//! Everything here is pure: the host hands in the caller, the attached
//! deposit, the current time and the outcome of remote steps, and carries out
//! the transfers and remote calls that the library describes.
pub mod error;
pub mod keyed;
pub mod price;
pub mod access;
pub mod saga;
pub mod token_id;
pub mod ticket;
pub mod factory;
