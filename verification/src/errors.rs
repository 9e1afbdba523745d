use vstd::prelude::*;

verus! {

/// The error taxonomy of the ledger. Every operation either fully succeeds or
/// returns exactly one of these values and leaves the stored state unchanged;
/// all of them are caller-recoverable and none is fatal.
#[derive(Clone, Copy, Debug, PartialEq, Eq, Structural)]
pub enum Error {
    /// No product with the requested id is stored.
    ProductNotFound,
    /// No sale with the requested code is stored.
    SaleNotFound,
    /// A sale line asked for more units than the product has on hand.
    InsufficientStock,
    /// A date failed the calendar range check.
    InvalidDate,
    /// A line subtotal or the running total left the numeric range.
    Overflow,
}

} // verus!
