//! An inventory-and-sales ledger: a product catalog and a sale ledger over
//! keyed storage, two monotonic id allocators, and a multi-line sale
//! registration engine with an all-or-nothing consistency guarantee and
//! checked arithmetic throughout.

pub mod date;
pub mod errors;
pub mod laws;
pub mod pallet;
pub mod product;
pub mod sale;

use vstd::prelude::*;

use crate::product::Product;
use crate::sale::Sale;

verus! {

/// Upper bound on the serialized size of one product record and one sale
/// record together, for capacity planning of the keyed store.
pub fn total_max_encoded_len() -> (r: usize)
    ensures
        r == 662,
{
    Product::max_encoded_len() + Sale::max_encoded_len()
}

} // verus!
