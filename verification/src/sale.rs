use vstd::prelude::*;

use crate::date::Date;
use crate::product::clone_vec_copy;

verus! {

/// The payment method a sale was settled with.
#[derive(Clone, Copy, Debug, PartialEq, Eq, Structural)]
pub enum PaymentMethod {
    Credit,
    Debit,
    Pix,
    Money,
}

impl PaymentMethod {
    /// Upper bound on the serialized size of a payment method: a single tag
    /// byte.
    pub fn max_encoded_len() -> (r: usize)
        ensures
            r == 1,
    {
        1
    }
}

/// One requested line of a sale registration: a product id and the quantity
/// to sell. Lines are transient input and are never stored.
#[derive(Clone, Copy, Debug, PartialEq, Eq, Structural)]
pub struct ItemSale {
    pub product_id: u64,
    pub amount: u64,
}

/// A completed sale. The `code` is assigned once by the ledger's allocator
/// and is the sale's identity; `products` lists the distinct product ids
/// involved, in first-seen order; `value` is the sum of the line subtotals.
/// Products are referenced weakly: a sale survives the later removal or
/// mutation of the products it names.
#[derive(Debug, PartialEq, Eq)]
pub struct Sale {
    pub seller: Vec<u8>,
    pub code: u64,
    pub products: Vec<u64>,
    pub value: u64,
    pub date: Date,
    pub payment_method: PaymentMethod,
}

/// The mathematical value of a sale: the seller and product list as
/// sequences, every other field as it stands.
pub struct SaleView {
    pub seller: Seq<u8>,
    pub code: u64,
    pub products: Seq<u64>,
    pub value: u64,
    pub date: Date,
    pub payment_method: PaymentMethod,
}

impl View for Sale {
    type V = SaleView;

    open spec fn view(&self) -> SaleView {
        SaleView {
            seller: self.seller@,
            code: self.code,
            products: self.products@,
            value: self.value,
            date: self.date,
            payment_method: self.payment_method,
        }
    }
}

impl Clone for Sale {
    /// A cloned sale has the same mathematical value as the original.
    fn clone(&self) -> (r: Self)
        ensures
            r@ == self@,
    {
        Sale {
            seller: clone_vec_copy(&self.seller),
            code: self.code,
            products: clone_vec_copy(&self.products),
            value: self.value,
            date: self.date,
            payment_method: self.payment_method,
        }
    }
}

impl Sale {
    /// Upper bound on the serialized size of a sale: a seller capped at 256
    /// bytes for capacity planning, the date and payment-method bounds, and
    /// 96 bytes for the code and value words and a capped product-id list.
    pub fn max_encoded_len() -> (r: usize)
        ensures
            r == 363,
    {
        let seller_length: usize = 256;
        let date_length: usize = Date::max_encoded_len();
        let payment_method_length: usize = PaymentMethod::max_encoded_len();

        seller_length + date_length + payment_method_length + 96
    }
}

} // verus!
