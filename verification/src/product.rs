use vstd::prelude::*;

use crate::date::Date;

verus! {

/// The category a product belongs to.
#[derive(Clone, Copy, Debug, PartialEq, Eq, Structural)]
pub enum Category {
    Electronic,
    Food,
    Clothing,
    Misc,
}

impl Category {
    /// Upper bound on the serialized size of a category: a single tag byte.
    pub fn max_encoded_len() -> (r: usize)
        ensures
            r == 1,
    {
        1
    }
}

/// A catalog item. The `id` is assigned once by the catalog's allocator and
/// is the product's identity; `stock` is the on-hand quantity, `price` the
/// unit price in the smallest currency unit, and `amount_to_restock` the
/// threshold below which restocking is signaled. The name is a display label
/// with no uniqueness requirement.
#[derive(Debug, PartialEq, Eq)]
pub struct Product {
    pub name: Vec<u8>,
    pub id: u64,
    pub stock: u64,
    pub price: u64,
    pub amount_to_restock: u64,
    pub restock_date: Date,
    pub category: Category,
}

/// The mathematical value of a product: the name as a byte sequence, every
/// other field as it stands.
pub struct ProductView {
    pub name: Seq<u8>,
    pub id: u64,
    pub stock: u64,
    pub price: u64,
    pub amount_to_restock: u64,
    pub restock_date: Date,
    pub category: Category,
}

impl View for Product {
    type V = ProductView;

    open spec fn view(&self) -> ProductView {
        ProductView {
            name: self.name@,
            id: self.id,
            stock: self.stock,
            price: self.price,
            amount_to_restock: self.amount_to_restock,
            restock_date: self.restock_date,
            category: self.category,
        }
    }
}

/// Copies a vector of plain values element by element.
pub(crate) fn clone_vec_copy<T: Copy>(v: &Vec<T>) -> (r: Vec<T>)
    ensures
        r@ == v@,
{
    let mut r: Vec<T> = Vec::new();
    let mut i: usize = 0;
    while i < v.len()
        invariant
            i <= v.len(),
            r@ == v@.take(i as int),
        decreases v.len() - i,
    {
        r.push(v[i]);
        proof {
            assert(v@.take(i as int).push(v@[i as int]) =~= v@.take(i + 1 as int));
        }
        i = i + 1;
    }
    proof {
        assert(v@.take(v@.len() as int) =~= v@);
    }
    r
}

impl Clone for Product {
    /// A cloned product has the same mathematical value as the original.
    fn clone(&self) -> (r: Self)
        ensures
            r@ == self@,
    {
        Product {
            name: clone_vec_copy(&self.name),
            id: self.id,
            stock: self.stock,
            price: self.price,
            amount_to_restock: self.amount_to_restock,
            restock_date: self.restock_date,
            category: self.category,
        }
    }
}

impl Product {
    /// Upper bound on the serialized size of a product: a name capped at 256
    /// bytes for capacity planning, the date and category bounds, and four
    /// eight-byte words for id, stock, price and restock threshold.
    pub fn max_encoded_len() -> (r: usize)
        ensures
            r == 299,
    {
        let max_name_length: usize = 256;
        let max_date_length: usize = Date::max_encoded_len();
        let max_category_length: usize = Category::max_encoded_len();

        max_name_length + max_date_length + max_category_length + 32
    }
}

} // verus!
