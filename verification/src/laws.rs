use vstd::prelude::*;

use crate::pallet::{
    distinct_ids, has_product, has_sale, needs_restock, process_lines, product_index,
    restock_list, spec_product, PalletView,
};
use crate::product::ProductView;
use crate::sale::ItemSale;

verus! {

/// Allocator monotonicity, catalog side: in any well-formed state the id the
/// allocator will assign next collides with no stored product, so a fresh id
/// is never a reuse — even after removals, since removal never rewinds the
/// counter. Together with `add_product`'s contract (it assigns exactly the
/// counter's value and advances it by one, starting from zero in a new
/// ledger), assigned ids are strictly increasing from zero.
pub proof fn lemma_fresh_product_id(s: PalletView)
    requires
        s.wf(),
    ensures
        !has_product(s.products, s.next_product_id),
        forall|i: int|
            0 <= i < s.products.len() ==> (#[trigger] s.products[i]).id != s.next_product_id,
{
}

/// Allocator monotonicity, ledger side: in any well-formed state the code the
/// allocator will assign next collides with no stored sale, so a fresh code
/// is never a reuse. Together with `register_sale`'s contract (it assigns
/// exactly the counter's value and advances it by one, starting from zero in
/// a new ledger), assigned codes are strictly increasing from zero.
pub proof fn lemma_fresh_sale_code(s: PalletView)
    requires
        s.wf(),
    ensures
        !has_sale(s.sales, s.next_sale_code),
        forall|i: int|
            0 <= i < s.sales.len() ==> (#[trigger] s.sales[i]).code != s.next_sale_code,
{
}

/// Round trip, creation side: a product stored under a fresh id — as
/// `add_product` stores it — is found under that id with every field exactly
/// as supplied.
pub proof fn lemma_create_then_get(s: PalletView, p: ProductView)
    requires
        s.wf(),
        p.id == s.next_product_id,
    ensures
        spec_product(s.products.push(p), p.id) == Some(p),
{
    let t = s.products.push(p);
    assert forall|k: int, l: int| 0 <= k < l < t.len() implies t[k].id != t[l].id by {
        if l < s.products.len() {
            assert(t[k] == s.products[k]);
            assert(t[l] == s.products[l]);
        } else {
            assert(t[k] == s.products[k]);
            assert(t[l] == p);
        }
    }
    crate::pallet::lemma_product_index_unique(t, p.id, s.products.len() as int);
}

/// Round trip, removal side: once the product under an id is removed — as
/// `remove_product` removes it — a lookup of that id finds nothing.
pub proof fn lemma_remove_then_get(s: PalletView, id: u64)
    requires
        s.wf(),
        has_product(s.products, id),
    ensures
        spec_product(s.products.remove(product_index(s.products, id)), id)
            == None::<ProductView>,
{
    let k = product_index(s.products, id);
    assert(0 <= k < s.products.len() && s.products[k].id == id);
    let t = s.products.remove(k);
    assert forall|j: int| 0 <= j < t.len() implies t[j].id != id by {
        if j < k {
            assert(t[j] == s.products[j]);
        } else {
            assert(t[j] == s.products[j + 1]);
        }
    }
    assert(!has_product(t, id));
}

/// Restock filter correctness: a product stands in the restock list exactly
/// when it stands in the store and its stock lies strictly below its
/// threshold; a product exactly at the threshold is excluded.
pub proof fn lemma_restock_membership(s: Seq<ProductView>, p: ProductView)
    ensures
        restock_list(s).contains(p) <==> (s.contains(p) && needs_restock(p)),
    decreases s.len(),
{
    reveal(Seq::filter);
    if s.len() == 0 {
        assert(!s.contains(p));
        assert(restock_list(s).len() == 0);
        assert(!restock_list(s).contains(p));
    } else {
        let butlast = s.drop_last();
        let x = s.last();
        lemma_restock_membership(butlast, p);
        assert(s.contains(p) <==> (butlast.contains(p) || x == p)) by {
            if s.contains(p) {
                let w = choose|w: int| 0 <= w < s.len() && s[w] == p;
                if w < s.len() - 1 {
                    assert(butlast[w] == p);
                    assert(butlast.contains(p));
                }
            }
            if butlast.contains(p) {
                let w = choose|w: int| 0 <= w < butlast.len() && butlast[w] == p;
                assert(s[w] == p);
                assert(s.contains(p));
            }
            if x == p {
                assert(s[s.len() - 1] == p);
                assert(s.contains(p));
            }
        }
        if needs_restock(x) {
            let t = restock_list(butlast);
            assert(restock_list(s) == t.push(x));
            assert(t.push(x).contains(p) <==> (t.contains(p) || x == p)) by {
                if t.push(x).contains(p) {
                    let w = choose|w: int| 0 <= w < t.push(x).len() && t.push(x)[w] == p;
                    if w < t.len() {
                        assert(t[w] == p);
                        assert(t.contains(p));
                    }
                }
                if t.contains(p) {
                    let w = choose|w: int| 0 <= w < t.len() && t[w] == p;
                    assert(t.push(x)[w] == p);
                    assert(t.push(x).contains(p));
                }
                if x == p {
                    assert(t.push(x)[t.len() as int] == p);
                    assert(t.push(x).contains(p));
                }
            }
        } else {
            assert(restock_list(s) == restock_list(butlast));
        }
    }
}

/// Deduplication of sale lines: the product list a successful registration
/// stores is free of duplicates, even when one product appears on several
/// lines of the request.
pub proof fn lemma_registered_products_distinct(
    products: Seq<ProductView>,
    lines: Seq<ItemSale>,
    seen: Seq<u64>,
    total: u64,
)
    requires
        distinct_ids(seen),
    ensures
        process_lines(products, lines, seen, total) matches Ok(o) ==> distinct_ids(o.1),
    decreases lines.len(),
{
    if lines.len() > 0 {
        let line = lines[0];
        if has_product(products, line.product_id) {
            let k = product_index(products, line.product_id);
            let p = products[k];
            if p.stock >= line.amount && p.price * line.amount <= u64::MAX && total + p.price
                * line.amount <= u64::MAX {
                let seen2 = if seen.contains(line.product_id) {
                    seen
                } else {
                    seen.push(line.product_id)
                };
                assert(distinct_ids(seen2)) by {
                    if !seen.contains(line.product_id) {
                        assert forall|i: int, j: int|
                            0 <= i < j < seen2.len() implies seen2[i] != seen2[j] by {
                            if j == seen.len() {
                                assert(seen2[i] == seen[i]);
                                if seen[i] == line.product_id {
                                    assert(seen.contains(line.product_id));
                                }
                            }
                        }
                    }
                }
                let decremented = ProductView { stock: (p.stock - line.amount) as u64, ..p };
                lemma_registered_products_distinct(
                    products.update(k, decremented),
                    lines.drop_first(),
                    seen2,
                    (total + p.price * line.amount) as u64,
                );
            }
        }
    }
}

} // verus!
