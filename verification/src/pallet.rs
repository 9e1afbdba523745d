use vstd::prelude::*;
use vstd::pervasive::VecAdditionalExecFns;

use crate::date::Date;
use crate::errors::Error;
use crate::product::{Category, Product, ProductView};
use crate::sale::{ItemSale, PaymentMethod, Sale, SaleView};

verus! {

/// The views of a sequence of stored products, in storage order.
pub open spec fn product_views(s: Seq<Product>) -> Seq<ProductView> {
    Seq::new(s.len(), |i: int| s[i]@)
}

/// The views of a sequence of stored sales, in storage order.
pub open spec fn sale_views(s: Seq<Sale>) -> Seq<SaleView> {
    Seq::new(s.len(), |i: int| s[i]@)
}

/// Whether some stored product carries the given id.
pub open spec fn has_product(s: Seq<ProductView>, id: u64) -> bool {
    exists|i: int| 0 <= i < s.len() && (#[trigger] s[i]).id == id
}

/// The position of the product with the given id; meaningful only where
/// `has_product` holds and ids are unique.
pub open spec fn product_index(s: Seq<ProductView>, id: u64) -> int {
    choose|i: int| 0 <= i < s.len() && (#[trigger] s[i]).id == id
}

/// The stored product with the given id, if any.
pub open spec fn spec_product(s: Seq<ProductView>, id: u64) -> Option<ProductView> {
    if has_product(s, id) {
        Some(s[product_index(s, id)])
    } else {
        None
    }
}

/// Whether some stored sale carries the given code.
pub open spec fn has_sale(s: Seq<SaleView>, code: u64) -> bool {
    exists|i: int| 0 <= i < s.len() && (#[trigger] s[i]).code == code
}

/// The position of the sale with the given code; meaningful only where
/// `has_sale` holds and codes are unique.
pub open spec fn sale_index(s: Seq<SaleView>, code: u64) -> int {
    choose|i: int| 0 <= i < s.len() && (#[trigger] s[i]).code == code
}

/// The stored sale with the given code, if any.
pub open spec fn spec_sale(s: Seq<SaleView>, code: u64) -> Option<SaleView> {
    if has_sale(s, code) {
        Some(s[sale_index(s, code)])
    } else {
        None
    }
}

/// Whether a product is flagged for restocking: its stock lies strictly
/// below its threshold, so a product exactly at the threshold is not flagged.
pub open spec fn needs_restock(p: ProductView) -> bool {
    p.stock < p.amount_to_restock
}

/// The products flagged for restocking, in storage order.
pub open spec fn restock_list(s: Seq<ProductView>) -> Seq<ProductView> {
    s.filter(|p: ProductView| needs_restock(p))
}

/// A product record with each supplied field overwritten and every other
/// field kept; the id is never touched.
pub open spec fn updated_product(
    p: ProductView,
    name: Option<Vec<u8>>,
    stock: Option<u64>,
    price: Option<u64>,
    amount_to_restock: Option<u64>,
    restock_date: Option<Date>,
    category: Option<Category>,
) -> ProductView {
    ProductView {
        name: match name {
            Some(n) => n@,
            None => p.name,
        },
        id: p.id,
        stock: match stock {
            Some(s) => s,
            None => p.stock,
        },
        price: match price {
            Some(v) => v,
            None => p.price,
        },
        amount_to_restock: match amount_to_restock {
            Some(a) => a,
            None => p.amount_to_restock,
        },
        restock_date: match restock_date {
            Some(d) => d,
            None => p.restock_date,
        },
        category: match category {
            Some(c) => c,
            None => p.category,
        },
    }
}

/// A sale record with each supplied field overwritten and every other field
/// kept; the code, product list and value are never touched.
pub open spec fn updated_sale(
    s: SaleView,
    seller: Option<Vec<u8>>,
    date: Option<Date>,
    payment_method: Option<PaymentMethod>,
) -> SaleView {
    SaleView {
        seller: match seller {
            Some(v) => v@,
            None => s.seller,
        },
        code: s.code,
        products: s.products,
        value: s.value,
        date: match date {
            Some(d) => d,
            None => s.date,
        },
        payment_method: match payment_method {
            Some(m) => m,
            None => s.payment_method,
        },
    }
}

/// Extending the store by one product extends its restock list exactly when
/// the new product is below its threshold.
pub proof fn lemma_restock_list_push(s: Seq<ProductView>, p: ProductView)
    ensures
        needs_restock(p) ==> restock_list(s.push(p)) == restock_list(s).push(p),
        !needs_restock(p) ==> restock_list(s.push(p)) == restock_list(s),
{
    reveal(Seq::filter);
    assert(s.push(p).drop_last() =~= s);
    assert(s.push(p).last() == p);
}

/// Whether a sequence of ids holds no value twice.
pub open spec fn distinct_ids(s: Seq<u64>) -> bool {
    forall|i: int, j: int| 0 <= i < j < s.len() ==> s[i] != s[j]
}

/// Whether two product records agree on every field but the stock.
pub open spec fn same_but_stock(a: ProductView, b: ProductView) -> bool {
    &&& b.name == a.name
    &&& b.id == a.id
    &&& b.price == a.price
    &&& b.amount_to_restock == a.amount_to_restock
    &&& b.restock_date == a.restock_date
    &&& b.category == a.category
}

/// The outcome of applying sale lines to a product store, line by line in
/// input order: the store with stocks decremented, the distinct product ids
/// in first-seen order, and the accumulated total value. Each line looks its
/// product up in the store as left by the earlier lines, so repeated lines
/// against one product draw from the already-decremented stock. The first
/// failing line decides the error: a missing product, a line asking for more
/// than the current stock, or a subtotal or total leaving the numeric range.
pub open spec fn process_lines(
    products: Seq<ProductView>,
    lines: Seq<ItemSale>,
    seen: Seq<u64>,
    total: u64,
) -> Result<(Seq<ProductView>, Seq<u64>, u64), Error>
    decreases lines.len(),
{
    if lines.len() == 0 {
        Ok((products, seen, total))
    } else {
        let line = lines[0];
        if !has_product(products, line.product_id) {
            Err(Error::ProductNotFound)
        } else {
            let k = product_index(products, line.product_id);
            let p = products[k];
            if p.stock < line.amount {
                Err(Error::InsufficientStock)
            } else if p.price * line.amount > u64::MAX {
                Err(Error::Overflow)
            } else if total + p.price * line.amount > u64::MAX {
                Err(Error::Overflow)
            } else {
                let decremented = ProductView { stock: (p.stock - line.amount) as u64, ..p };
                let seen2 = if seen.contains(line.product_id) {
                    seen
                } else {
                    seen.push(line.product_id)
                };
                process_lines(
                    products.update(k, decremented),
                    lines.drop_first(),
                    seen2,
                    (total + p.price * line.amount) as u64,
                )
            }
        }
    }
}

/// The mathematical state of the ledger: the stored products and sales in
/// storage order, and the two allocator counters.
pub struct PalletView {
    pub products: Seq<ProductView>,
    pub sales: Seq<SaleView>,
    pub next_product_id: u64,
    pub next_sale_code: u64,
}

impl PalletView {
    /// Well-formedness of the catalog half: product ids are unique, every id
    /// lies strictly below the allocator counter (so a fresh id never
    /// collides), and every stored restock date is valid.
    pub open spec fn products_wf(self) -> bool {
        &&& forall|i: int, j: int|
            0 <= i < j < self.products.len() ==> self.products[i].id != self.products[j].id
        &&& forall|i: int|
            0 <= i < self.products.len() ==> (#[trigger] self.products[i]).id
                < self.next_product_id
        &&& forall|i: int|
            0 <= i < self.products.len() ==> (#[trigger] self.products[i]).restock_date.valid()
    }

    /// Well-formedness of the ledger half: sale codes are unique and strictly
    /// below the allocator counter, every stored sale date is valid, and the
    /// product list of every sale is free of duplicates.
    pub open spec fn sales_wf(self) -> bool {
        &&& forall|i: int, j: int|
            0 <= i < j < self.sales.len() ==> self.sales[i].code != self.sales[j].code
        &&& forall|i: int|
            0 <= i < self.sales.len() ==> (#[trigger] self.sales[i]).code < self.next_sale_code
        &&& forall|i: int|
            0 <= i < self.sales.len() ==> (#[trigger] self.sales[i]).date.valid()
        &&& forall|i: int|
            0 <= i < self.sales.len() ==> distinct_ids((#[trigger] self.sales[i]).products)
    }

    /// The ledger's invariant: both halves are well-formed. Constructors
    /// establish it and every operation preserves it.
    pub open spec fn wf(self) -> bool {
        self.products_wf() && self.sales_wf()
    }
}

/// The ledger: keyed storage of products and sales, each with a monotonic
/// allocator that assigns ids once and never rewinds, and the sale
/// registration engine. Operations are serialized: each runs to completion
/// with exclusive access to the state.
pub struct Pallet {
    products: Vec<Product>,
    sales: Vec<Sale>,
    next_product_id: u64,
    next_sale_code: u64,
}

impl View for Pallet {
    type V = PalletView;

    closed spec fn view(&self) -> PalletView {
        PalletView {
            products: product_views(self.products@),
            sales: sale_views(self.sales@),
            next_product_id: self.next_product_id,
            next_sale_code: self.next_sale_code,
        }
    }
}

/// In a sequence with unique ids, any position whose product carries the
/// sought id is the position `product_index` names.
pub proof fn lemma_product_index_unique(s: Seq<ProductView>, id: u64, i: int)
    requires
        forall|k: int, l: int| 0 <= k < l < s.len() ==> s[k].id != s[l].id,
        0 <= i < s.len(),
        s[i].id == id,
    ensures
        has_product(s, id),
        product_index(s, id) == i,
        spec_product(s, id) == Some(s[i]),
{
    assert(has_product(s, id));
    let j = product_index(s, id);
    assert(0 <= j < s.len() && s[j].id == id);
    if i < j {
        assert(s[i].id != s[j].id);
    } else if j < i {
        assert(s[j].id != s[i].id);
    }
}

/// In a sequence with unique codes, any position whose sale carries the
/// sought code is the position `sale_index` names.
pub proof fn lemma_sale_index_unique(s: Seq<SaleView>, code: u64, i: int)
    requires
        forall|k: int, l: int| 0 <= k < l < s.len() ==> s[k].code != s[l].code,
        0 <= i < s.len(),
        s[i].code == code,
    ensures
        has_sale(s, code),
        sale_index(s, code) == i,
        spec_sale(s, code) == Some(s[i]),
{
    assert(has_sale(s, code));
    let j = sale_index(s, code);
    assert(0 <= j < s.len() && s[j].code == code);
    if i < j {
        assert(s[i].code != s[j].code);
    } else if j < i {
        assert(s[j].code != s[i].code);
    }
}

/// Finds the position of the product with the given id, scanning in storage
/// order.
fn find_product_index(products: &Vec<Product>, id: u64) -> (r: Option<usize>)
    ensures
        match r {
            Some(i) => i < products@.len() && product_views(products@)[i as int].id == id,
            None => !has_product(product_views(products@), id),
        },
{
    let ghost pv = product_views(products@);
    let mut i: usize = 0;
    while i < products.len()
        invariant
            i <= products.len(),
            pv == product_views(products@),
            forall|j: int| 0 <= j < i ==> pv[j].id != id,
        decreases products.len() - i,
    {
        if products[i].id == id {
            return Some(i);
        }
        i = i + 1;
    }
    None
}

/// Finds the position of the sale with the given code, scanning in storage
/// order.
fn find_sale_index(sales: &Vec<Sale>, code: u64) -> (r: Option<usize>)
    ensures
        match r {
            Some(i) => i < sales@.len() && sale_views(sales@)[i as int].code == code,
            None => !has_sale(sale_views(sales@), code),
        },
{
    let ghost sv = sale_views(sales@);
    let mut i: usize = 0;
    while i < sales.len()
        invariant
            i <= sales.len(),
            sv == sale_views(sales@),
            forall|j: int| 0 <= j < i ==> sv[j].code != code,
        decreases sales.len() - i,
    {
        if sales[i].code == code {
            return Some(i);
        }
        i = i + 1;
    }
    None
}

/// Whether the given id already stands in the list.
fn contains_id(ids: &Vec<u64>, id: u64) -> (r: bool)
    ensures
        r == ids@.contains(id),
{
    let mut i: usize = 0;
    while i < ids.len()
        invariant
            i <= ids.len(),
            forall|j: int| 0 <= j < i ==> ids@[j] != id,
        decreases ids.len() - i,
    {
        if ids[i] == id {
            return true;
        }
        i = i + 1;
    }
    false
}

/// Copies a product store element by element, keeping every record's
/// mathematical value.
fn clone_products(v: &Vec<Product>) -> (r: Vec<Product>)
    ensures
        product_views(r@) == product_views(v@),
{
    let mut r: Vec<Product> = Vec::new();
    let mut i: usize = 0;
    while i < v.len()
        invariant
            i <= v.len(),
            r@.len() == i,
            product_views(r@) == product_views(v@).take(i as int),
        decreases v.len() - i,
    {
        r.push(v[i].clone());
        proof {
            assert(product_views(r@) =~= product_views(v@).take(i + 1 as int));
        }
        i = i + 1;
    }
    proof {
        assert(product_views(v@).take(v@.len() as int) =~= product_views(v@));
    }
    r
}

impl Pallet {
    /// An empty ledger: no products, no sales, both allocators at zero.
    pub fn new() -> (r: Pallet)
        ensures
            r@.products.len() == 0,
            r@.sales.len() == 0,
            r@.next_product_id == 0,
            r@.next_sale_code == 0,
            r@.wf(),
    {
        Pallet { products: Vec::new(), sales: Vec::new(), next_product_id: 0, next_sale_code: 0 }
    }

    /// The id the catalog's allocator will assign next.
    pub fn next_product_id(&self) -> (r: u64)
        ensures
            r == self@.next_product_id,
    {
        self.next_product_id
    }

    /// The code the ledger's allocator will assign next.
    pub fn next_sale_code(&self) -> (r: u64)
        ensures
            r == self@.next_sale_code,
    {
        self.next_sale_code
    }

    /// Validates the restock date and, on success, stores a new product under
    /// a freshly assigned id, advancing the allocator by one. No uniqueness
    /// check is made on the name.
    pub fn add_product(
        &mut self,
        name: Vec<u8>,
        stock: u64,
        price: u64,
        amount_to_restock: u64,
        restock_date: Date,
        category: Category,
    ) -> (r: Result<u64, Error>)
        requires
            old(self)@.wf(),
            old(self)@.next_product_id < u64::MAX,
        ensures
            final(self)@.wf(),
            !restock_date.valid() ==> r == Err::<u64, Error>(Error::InvalidDate) && final(self)@
                == old(self)@,
            restock_date.valid() ==> {
                &&& r == Ok::<u64, Error>(old(self)@.next_product_id)
                &&& final(self)@.products == old(self)@.products.push(
                    ProductView {
                        name: name@,
                        id: old(self)@.next_product_id,
                        stock,
                        price,
                        amount_to_restock,
                        restock_date,
                        category,
                    },
                )
                &&& final(self)@.sales == old(self)@.sales
                &&& final(self)@.next_product_id == old(self)@.next_product_id + 1
                &&& final(self)@.next_sale_code == old(self)@.next_sale_code
            },
    {
        let restock_date = match Date::new(restock_date.day, restock_date.month, restock_date.year) {
            Ok(d) => d,
            Err(_) => {
                return Err(Error::InvalidDate);
            },
        };

        let product_id = self.next_product_id;
        let product = Product {
            name,
            id: product_id,
            stock,
            price,
            amount_to_restock,
            restock_date,
            category,
        };

        self.products.push(product);
        self.next_product_id = product_id + 1;

        proof {
            assert(product_views(self.products@) =~= product_views(old(self).products@).push(
                ProductView {
                    name: name@,
                    id: product_id,
                    stock,
                    price,
                    amount_to_restock,
                    restock_date,
                    category,
                },
            ));
        }

        Ok(product_id)
    }

    /// Returns a copy of the product stored under the given id.
    pub fn get_product(&self, id: u64) -> (r: Result<Product, Error>)
        requires
            self@.wf(),
        ensures
            match spec_product(self@.products, id) {
                Some(p) => r matches Ok(found) && found@ == p,
                None => r == Err::<Product, Error>(Error::ProductNotFound),
            },
    {
        match find_product_index(&self.products, id) {
            Some(i) => {
                proof {
                    lemma_product_index_unique(self@.products, id, i as int);
                }
                Ok(self.products[i].clone())
            },
            None => Err(Error::ProductNotFound),
        }
    }

    /// Returns a copy of every stored product, in storage order. Callers
    /// should treat the order as unspecified.
    pub fn list_all_products(&self) -> (r: Vec<Product>)
        ensures
            product_views(r@) == self@.products,
    {
        let mut r: Vec<Product> = Vec::new();
        let mut i: usize = 0;
        while i < self.products.len()
            invariant
                i <= self.products.len(),
                r@.len() == i,
                self@.products == product_views(self.products@),
                product_views(r@) == self@.products.take(i as int),
            decreases self.products.len() - i,
        {
            r.push(self.products[i].clone());
            proof {
                assert(product_views(r@) =~= self@.products.take(i + 1 as int));
            }
            i = i + 1;
        }
        proof {
            assert(self@.products.take(self.products@.len() as int) =~= self@.products);
        }
        r
    }

    /// Returns a copy of every product whose stock lies strictly below its
    /// restock threshold, in storage order. A product exactly at the
    /// threshold is not flagged.
    pub fn list_products_to_restock(&self) -> (r: Vec<Product>)
        ensures
            product_views(r@) == restock_list(self@.products),
    {
        let mut r: Vec<Product> = Vec::new();
        let mut i: usize = 0;
        while i < self.products.len()
            invariant
                i <= self.products.len(),
                r@.len() == restock_list(self@.products.take(i as int)).len(),
                self@.products == product_views(self.products@),
                product_views(r@) == restock_list(self@.products.take(i as int)),
            decreases self.products.len() - i,
        {
            let ghost prefix = self@.products.take(i as int);
            let ghost element = self@.products[i as int];
            if self.products[i].stock < self.products[i].amount_to_restock {
                r.push(self.products[i].clone());
            }
            proof {
                assert(self@.products.take(i + 1 as int) =~= prefix.push(element));
                lemma_restock_list_push(prefix, element);
                if needs_restock(element) {
                    assert(product_views(r@) =~= restock_list(prefix).push(element));
                }
            }
            i = i + 1;
        }
        proof {
            assert(self@.products.take(self.products@.len() as int) =~= self@.products);
        }
        r
    }

    /// Overwrites each supplied field of the product stored under the given
    /// id and writes the whole record back; a supplied restock date is
    /// re-validated under the same rule as at creation, and the id itself is
    /// never changed. Unsupplied fields keep their stored values.
    pub fn update_product(
        &mut self,
        id: u64,
        name: Option<Vec<u8>>,
        stock: Option<u64>,
        price: Option<u64>,
        amount_to_restock: Option<u64>,
        restock_date: Option<Date>,
        category: Option<Category>,
    ) -> (r: Result<(), Error>)
        requires
            old(self)@.wf(),
        ensures
            final(self)@.wf(),
            match spec_product(old(self)@.products, id) {
                None => r == Err::<(), Error>(Error::ProductNotFound) && final(self)@ == old(
                    self,
                )@,
                Some(p) => {
                    let date_ok = match restock_date {
                        Some(d) => d.valid(),
                        None => true,
                    };
                    if date_ok {
                        &&& r == Ok::<(), Error>(())
                        &&& final(self)@.products == old(self)@.products.update(
                            product_index(old(self)@.products, id),
                            updated_product(
                                p,
                                name,
                                stock,
                                price,
                                amount_to_restock,
                                restock_date,
                                category,
                            ),
                        )
                        &&& final(self)@.sales == old(self)@.sales
                        &&& final(self)@.next_product_id == old(self)@.next_product_id
                        &&& final(self)@.next_sale_code == old(self)@.next_sale_code
                    } else {
                        r == Err::<(), Error>(Error::InvalidDate) && final(self)@ == old(self)@
                    }
                },
            },
    {
        let i = match find_product_index(&self.products, id) {
            Some(i) => {
                proof {
                    lemma_product_index_unique(self@.products, id, i as int);
                }
                i
            },
            None => {
                return Err(Error::ProductNotFound);
            },
        };

        let mut product = self.products[i].clone();

        if let Some(new_name) = name {
            product.name = new_name;
        }
        if let Some(new_stock) = stock {
            product.stock = new_stock;
        }
        if let Some(new_price) = price {
            product.price = new_price;
        }
        if let Some(new_amount_to_restock) = amount_to_restock {
            product.amount_to_restock = new_amount_to_restock;
        }
        if let Some(new_restock_date) = restock_date {
            match Date::new(new_restock_date.day, new_restock_date.month, new_restock_date.year) {
                Ok(d) => {
                    product.restock_date = d;
                },
                Err(_) => {
                    return Err(Error::InvalidDate);
                },
            }
        }
        if let Some(new_category) = category {
            product.category = new_category;
        }

        self.products.set(i, product);

        proof {
            let ov = old(self)@.products;
            let k = product_index(ov, id);
            assert(product_views(self.products@) =~= ov.update(
                k,
                updated_product(
                    ov[k],
                    name,
                    stock,
                    price,
                    amount_to_restock,
                    restock_date,
                    category,
                ),
            ));
            assert(final(self)@.sales =~= old(self)@.sales);
        }

        Ok(())
    }

    /// Deletes the product stored under the given id. The id is permanently
    /// gone: the allocator never rewinds, so it is not reused. Sales that
    /// reference the id are not touched.
    pub fn remove_product(&mut self, id: u64) -> (r: Result<(), Error>)
        requires
            old(self)@.wf(),
        ensures
            final(self)@.wf(),
            match spec_product(old(self)@.products, id) {
                None => r == Err::<(), Error>(Error::ProductNotFound) && final(self)@ == old(
                    self,
                )@,
                Some(_) => {
                    &&& r == Ok::<(), Error>(())
                    &&& final(self)@.products == old(self)@.products.remove(
                        product_index(old(self)@.products, id),
                    )
                    &&& final(self)@.sales == old(self)@.sales
                    &&& final(self)@.next_product_id == old(self)@.next_product_id
                    &&& final(self)@.next_sale_code == old(self)@.next_sale_code
                },
            },
    {
        let i = match find_product_index(&self.products, id) {
            Some(i) => {
                proof {
                    lemma_product_index_unique(self@.products, id, i as int);
                }
                i
            },
            None => {
                return Err(Error::ProductNotFound);
            },
        };

        self.products.remove(i);

        proof {
            let ov = old(self)@.products;
            let k = product_index(ov, id);
            assert(product_views(self.products@) =~= ov.remove(k));
            assert(final(self)@.sales =~= old(self)@.sales);
        }

        Ok(())
    }

    /// Registers a multi-line sale atomically. The lines are validated and
    /// applied in input order against a staged copy of the catalog, each line
    /// seeing the stock as left by the earlier lines; the distinct product
    /// ids are collected in first-seen order and the subtotals accumulate
    /// under checked arithmetic. Only when every line has succeeded are the
    /// staged stocks committed, the sale stored under a freshly assigned code
    /// and the code allocator advanced; on any failure the whole state is
    /// left exactly as it was, with no partial decrement, no sale record and
    /// no allocator movement. The sale date is supplied by the caller's
    /// clock.
    pub fn register_sale(
        &mut self,
        seller: Vec<u8>,
        products: Vec<ItemSale>,
        payment_method: PaymentMethod,
        date: Date,
    ) -> (r: Result<u64, Error>)
        requires
            old(self)@.wf(),
            old(self)@.next_sale_code < u64::MAX,
            date.valid(),
        ensures
            final(self)@.wf(),
            match process_lines(old(self)@.products, products@, Seq::<u64>::empty(), 0u64) {
                Err(e) => r == Err::<u64, Error>(e) && final(self)@ == old(self)@,
                Ok(outcome) => {
                    &&& r == Ok::<u64, Error>(old(self)@.next_sale_code)
                    &&& final(self)@.products == outcome.0
                    &&& final(self)@.sales == old(self)@.sales.push(
                        SaleView {
                            seller: seller@,
                            code: old(self)@.next_sale_code,
                            products: outcome.1,
                            value: outcome.2,
                            date,
                            payment_method,
                        },
                    )
                    &&& final(self)@.next_product_id == old(self)@.next_product_id
                    &&& final(self)@.next_sale_code == old(self)@.next_sale_code + 1
                },
            },
    {
        let ghost orig = old(self)@.products;
        let ghost goal = process_lines(orig, products@, Seq::<u64>::empty(), 0u64);

        let mut staged = clone_products(&self.products);
        let mut sale_products: Vec<u64> = Vec::new();
        let mut total_value: u64 = 0;
        let mut idx: usize = 0;

        proof {
            assert(products@.skip(0) =~= products@);
        }

        while idx < products.len()
            invariant
                idx <= products.len(),
                old(self)@.wf(),
                orig == old(self)@.products,
                goal == process_lines(orig, products@, Seq::<u64>::empty(), 0u64),
                product_views(staged@).len() == orig.len(),
                forall|j: int|
                    0 <= j < orig.len() ==> same_but_stock(
                        orig[j],
                        #[trigger] product_views(staged@)[j],
                    ),
                distinct_ids(sale_products@),
                process_lines(
                    product_views(staged@),
                    products@.skip(idx as int),
                    sale_products@,
                    total_value,
                ) == goal,
            decreases products.len() - idx,
        {
            let ghost sv = product_views(staged@);
            let ghost rest = products@.skip(idx as int);
            proof {
                assert(rest[0] == products@[idx as int]);
                assert(rest.drop_first() =~= products@.skip(idx + 1 as int));
                assert forall|k: int, l: int| 0 <= k < l < sv.len() implies sv[k].id != sv[l].id by {
                    assert(same_but_stock(orig[k], sv[k]));
                    assert(same_but_stock(orig[l], sv[l]));
                }
            }
            let item = products[idx];

            let i = match find_product_index(&staged, item.product_id) {
                Some(i) => {
                    proof {
                        lemma_product_index_unique(sv, item.product_id, i as int);
                    }
                    i
                },
                None => {
                    return Err(Error::ProductNotFound);
                },
            };

            let current_stock = staged[i].stock;
            if current_stock < item.amount {
                return Err(Error::InsufficientStock);
            }
            let new_stock = current_stock - item.amount;

            let subtotal = match staged[i].price.checked_mul(item.amount) {
                Some(v) => v,
                None => {
                    return Err(Error::Overflow);
                },
            };
            let new_total = match total_value.checked_add(subtotal) {
                Some(v) => v,
                None => {
                    return Err(Error::Overflow);
                },
            };

            let mut decremented = staged[i].clone();
            decremented.stock = new_stock;
            staged.set(i, decremented);

            if !contains_id(&sale_products, item.product_id) {
                sale_products.push(item.product_id);
            }

            total_value = new_total;

            proof {
                let p = sv[i as int];
                assert(product_views(staged@) =~= sv.update(
                    i as int,
                    ProductView { stock: new_stock, ..p },
                ));
            }

            idx = idx + 1;
        }

        proof {
            assert(products@.skip(products@.len() as int).len() == 0);
            assert(goal == Ok::<_, Error>(
                (product_views(staged@), sale_products@, total_value),
            ));
        }

        self.products = staged;
        let sale_code = self.next_sale_code;
        let sale = Sale {
            seller,
            code: sale_code,
            products: sale_products,
            value: total_value,
            date,
            payment_method,
        };
        self.sales.push(sale);
        self.next_sale_code = sale_code + 1;

        proof {
            assert(sale_views(self.sales@) =~= old(self)@.sales.push(
                SaleView {
                    seller: seller@,
                    code: sale_code,
                    products: sale_products@,
                    value: total_value,
                    date,
                    payment_method,
                },
            ));
            assert forall|a: int, b: int|
                0 <= a < b < final(self)@.products.len() implies final(self)@.products[a].id
                != final(self)@.products[b].id by {
                assert(same_but_stock(orig[a], final(self)@.products[a]));
                assert(same_but_stock(orig[b], final(self)@.products[b]));
            }
        }

        Ok(sale_code)
    }

    /// Returns a copy of the sale stored under the given code.
    pub fn get_sale(&self, code: u64) -> (r: Result<Sale, Error>)
        requires
            self@.wf(),
        ensures
            match spec_sale(self@.sales, code) {
                Some(s) => r matches Ok(found) && found@ == s,
                None => r == Err::<Sale, Error>(Error::SaleNotFound),
            },
    {
        match find_sale_index(&self.sales, code) {
            Some(i) => {
                proof {
                    lemma_sale_index_unique(self@.sales, code, i as int);
                }
                Ok(self.sales[i].clone())
            },
            None => Err(Error::SaleNotFound),
        }
    }

    /// Returns a copy of every stored sale, in storage order. Callers should
    /// treat the order as unspecified.
    pub fn list_all_sales(&self) -> (r: Vec<Sale>)
        ensures
            sale_views(r@) == self@.sales,
    {
        let mut r: Vec<Sale> = Vec::new();
        let mut i: usize = 0;
        while i < self.sales.len()
            invariant
                i <= self.sales.len(),
                r@.len() == i,
                self@.sales == sale_views(self.sales@),
                sale_views(r@) == self@.sales.take(i as int),
            decreases self.sales.len() - i,
        {
            r.push(self.sales[i].clone());
            proof {
                assert(sale_views(r@) =~= self@.sales.take(i + 1 as int));
            }
            i = i + 1;
        }
        proof {
            assert(self@.sales.take(self.sales@.len() as int) =~= self@.sales);
        }
        r
    }

    /// Overwrites each supplied patchable field of the sale stored under the
    /// given code and writes the whole record back; a supplied date is
    /// re-validated. The code, the product list and the value are immutable
    /// after registration: no update path exists for them.
    pub fn update_sale(
        &mut self,
        code: u64,
        seller: Option<Vec<u8>>,
        date: Option<Date>,
        payment_method: Option<PaymentMethod>,
    ) -> (r: Result<(), Error>)
        requires
            old(self)@.wf(),
        ensures
            final(self)@.wf(),
            match spec_sale(old(self)@.sales, code) {
                None => r == Err::<(), Error>(Error::SaleNotFound) && final(self)@ == old(self)@,
                Some(s) => {
                    let date_ok = match date {
                        Some(d) => d.valid(),
                        None => true,
                    };
                    if date_ok {
                        &&& r == Ok::<(), Error>(())
                        &&& final(self)@.sales == old(self)@.sales.update(
                            sale_index(old(self)@.sales, code),
                            updated_sale(s, seller, date, payment_method),
                        )
                        &&& final(self)@.products == old(self)@.products
                        &&& final(self)@.next_product_id == old(self)@.next_product_id
                        &&& final(self)@.next_sale_code == old(self)@.next_sale_code
                    } else {
                        r == Err::<(), Error>(Error::InvalidDate) && final(self)@ == old(self)@
                    }
                },
            },
    {
        let i = match find_sale_index(&self.sales, code) {
            Some(i) => {
                proof {
                    lemma_sale_index_unique(self@.sales, code, i as int);
                }
                i
            },
            None => {
                return Err(Error::SaleNotFound);
            },
        };

        let mut sale = self.sales[i].clone();

        if let Some(new_seller) = seller {
            sale.seller = new_seller;
        }
        if let Some(new_date) = date {
            match Date::new(new_date.day, new_date.month, new_date.year) {
                Ok(d) => {
                    sale.date = d;
                },
                Err(_) => {
                    return Err(Error::InvalidDate);
                },
            }
        }
        if let Some(new_payment_method) = payment_method {
            sale.payment_method = new_payment_method;
        }

        self.sales.set(i, sale);

        proof {
            let ov = old(self)@.sales;
            let k = sale_index(ov, code);
            assert(sale_views(self.sales@) =~= ov.update(
                k,
                updated_sale(ov[k], seller, date, payment_method),
            ));
            assert(final(self)@.products =~= old(self)@.products);
        }

        Ok(())
    }

    /// Deletes the sale stored under the given code. The code is permanently
    /// gone: the allocator never rewinds, so it is not reused. Products are
    /// not touched.
    pub fn remove_sale(&mut self, code: u64) -> (r: Result<(), Error>)
        requires
            old(self)@.wf(),
        ensures
            final(self)@.wf(),
            match spec_sale(old(self)@.sales, code) {
                None => r == Err::<(), Error>(Error::SaleNotFound) && final(self)@ == old(self)@,
                Some(_) => {
                    &&& r == Ok::<(), Error>(())
                    &&& final(self)@.sales == old(self)@.sales.remove(
                        sale_index(old(self)@.sales, code),
                    )
                    &&& final(self)@.products == old(self)@.products
                    &&& final(self)@.next_product_id == old(self)@.next_product_id
                    &&& final(self)@.next_sale_code == old(self)@.next_sale_code
                },
            },
    {
        let i = match find_sale_index(&self.sales, code) {
            Some(i) => {
                proof {
                    lemma_sale_index_unique(self@.sales, code, i as int);
                }
                i
            },
            None => {
                return Err(Error::SaleNotFound);
            },
        };

        self.sales.remove(i);

        proof {
            let ov = old(self)@.sales;
            let k = sale_index(ov, code);
            assert(sale_views(self.sales@) =~= ov.remove(k));
            assert(final(self)@.products =~= old(self)@.products);
        }

        Ok(())
    }
}

} // verus!
