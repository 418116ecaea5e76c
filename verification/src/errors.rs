//! Error types for the store and the domain operations.

use vstd::prelude::*;

verus! {

/// Errors reported by the inventory store itself.
#[derive(Clone, Copy, Debug, PartialEq, Eq, Structural)]
pub enum StoreError {
    /// No row carries the requested item number.
    NotFound,
    /// The requested stock adjustment would drive a stock count negative;
    /// nothing was changed.
    InsufficientStock,
    /// The requested stock adjustment would push a stock count past the
    /// largest representable value; nothing was changed.
    StockOverflow,
}

/// Domain errors surfaced to a caller of `buy` or `search`.
#[derive(Clone, Copy, Debug, PartialEq, Eq, Structural)]
pub enum DomainError {
    /// The requested item number is not in the catalog.
    UnknownItem,
    /// The item exists but its stock is already zero.
    OutOfStock,
}

impl DomainError {
    /// The machine-distinguishable code a remote gateway attaches to the
    /// corresponding fault.
    pub fn fault_code(&self) -> (c: i32)
        ensures
            *self == DomainError::UnknownItem ==> c == 404,
            *self == DomainError::OutOfStock ==> c == 400,
    {
        match self {
            DomainError::UnknownItem => 404,
            DomainError::OutOfStock => 400,
        }
    }

    /// The human-readable message a remote gateway attaches to the
    /// corresponding fault.
    pub fn fault_message(&self) -> (m: String)
        ensures
            *self == DomainError::UnknownItem ==> m@ == "no such item in the catalog"@,
            *self == DomainError::OutOfStock ==> m@ == "no remaining stock of this item"@,
    {
        match self {
            DomainError::UnknownItem => "no such item in the catalog".to_owned(),
            DomainError::OutOfStock => "no remaining stock of this item".to_owned(),
        }
    }
}

} // verus!
