use inventory_ledger::date::Date;
use inventory_ledger::errors::Error;
use inventory_ledger::pallet::Pallet;
use inventory_ledger::product::{Category, Product};
use inventory_ledger::sale::{ItemSale, PaymentMethod, Sale};

fn operation_date() -> Date {
    Date::new(3, 2, 2025).unwrap()
}

fn add_plain_product(pallet: &mut Pallet, stock: u64, price: u64, amount_to_restock: u64) -> u64 {
    pallet
        .add_product(
            b"Test Product".to_vec(),
            stock,
            price,
            amount_to_restock,
            Date::new(1, 1, 2023).unwrap(),
            Category::Electronic,
        )
        .unwrap()
}

#[test]
fn test_product_ids_increase_and_are_never_reused() {
    let mut pallet = Pallet::new();
    assert_eq!(add_plain_product(&mut pallet, 1, 1, 1), 0);
    assert_eq!(add_plain_product(&mut pallet, 1, 1, 1), 1);
    assert!(pallet.remove_product(0).is_ok());
    assert_eq!(add_plain_product(&mut pallet, 1, 1, 1), 2);
    assert_eq!(pallet.next_product_id(), 3);
}

#[test]
fn test_sale_codes_increase_and_are_never_reused() {
    let mut pallet = Pallet::new();
    add_plain_product(&mut pallet, 100, 5, 1);
    let lines = vec![ItemSale { product_id: 0, amount: 1 }];
    let seller = b"Test Seller".to_vec();
    let first = pallet
        .register_sale(seller.clone(), lines.clone(), PaymentMethod::Pix, operation_date())
        .unwrap();
    let second = pallet
        .register_sale(seller.clone(), lines.clone(), PaymentMethod::Pix, operation_date())
        .unwrap();
    assert_eq!(first, 0);
    assert_eq!(second, 1);
    assert!(pallet.remove_sale(0).is_ok());
    let third = pallet
        .register_sale(seller, lines, PaymentMethod::Pix, operation_date())
        .unwrap();
    assert_eq!(third, 2);
    assert_eq!(pallet.next_sale_code(), 3);
}

#[test]
fn test_date_validation_bounds() {
    assert!(Date::new(1, 1, 2023).is_ok());
    assert!(Date::new(31, 12, 1000).is_ok());
    assert_eq!(Date::new(32, 10, 2012), Err(Error::InvalidDate));
    assert_eq!(Date::new(0, 10, 2012), Err(Error::InvalidDate));
    assert_eq!(Date::new(10, 0, 2012), Err(Error::InvalidDate));
    assert_eq!(Date::new(10, 13, 2012), Err(Error::InvalidDate));
    assert_eq!(Date::new(10, 10, 999), Err(Error::InvalidDate));
}

#[test]
fn test_restock_threshold_is_strict() {
    let mut pallet = Pallet::new();
    add_plain_product(&mut pallet, 9, 1, 10);
    add_plain_product(&mut pallet, 10, 1, 10);
    add_plain_product(&mut pallet, 11, 1, 10);
    let flagged = pallet.list_products_to_restock();
    assert_eq!(flagged.len(), 1);
    assert_eq!(flagged[0].stock, 9);
}

#[test]
fn test_failed_sale_leaves_state_unchanged() {
    let mut pallet = Pallet::new();
    add_plain_product(&mut pallet, 1, 50, 20);
    let lines = vec![ItemSale { product_id: 0, amount: 2 }];
    assert_eq!(
        pallet.register_sale(b"Test Seller".to_vec(), lines, PaymentMethod::Credit, operation_date()),
        Err(Error::InsufficientStock)
    );
    assert_eq!(pallet.get_product(0).unwrap().stock, 1);
    assert_eq!(pallet.get_sale(0), Err(Error::SaleNotFound));
    assert_eq!(pallet.next_sale_code(), 0);
    assert!(pallet.list_all_sales().is_empty());
}

#[test]
fn test_no_partial_effects_when_a_later_line_fails() {
    let mut pallet = Pallet::new();
    add_plain_product(&mut pallet, 5, 7, 1);
    let lines = vec![
        ItemSale { product_id: 0, amount: 3 },
        ItemSale { product_id: 999, amount: 1 },
    ];
    assert_eq!(
        pallet.register_sale(b"Test Seller".to_vec(), lines, PaymentMethod::Money, operation_date()),
        Err(Error::ProductNotFound)
    );
    assert_eq!(pallet.get_product(0).unwrap().stock, 5);
    assert_eq!(pallet.next_sale_code(), 0);
}

#[test]
fn test_cumulative_same_product_lines() {
    let mut pallet = Pallet::new();
    add_plain_product(&mut pallet, 10, 7, 1);
    let lines = vec![
        ItemSale { product_id: 0, amount: 4 },
        ItemSale { product_id: 0, amount: 4 },
    ];
    let code = pallet
        .register_sale(b"Test Seller".to_vec(), lines, PaymentMethod::Debit, operation_date())
        .unwrap();
    assert_eq!(pallet.get_product(0).unwrap().stock, 2);
    let sale = pallet.get_sale(code).unwrap();
    assert_eq!(sale.value, 7 * 8);
    assert_eq!(sale.products, vec![0]);
}

#[test]
fn test_cumulative_lines_can_exhaust_stock() {
    let mut pallet = Pallet::new();
    add_plain_product(&mut pallet, 10, 7, 1);
    let lines = vec![
        ItemSale { product_id: 0, amount: 6 },
        ItemSale { product_id: 0, amount: 6 },
    ];
    assert_eq!(
        pallet.register_sale(b"Test Seller".to_vec(), lines, PaymentMethod::Debit, operation_date()),
        Err(Error::InsufficientStock)
    );
    assert_eq!(pallet.get_product(0).unwrap().stock, 10);
}

#[test]
fn test_overflow_on_line_subtotal() {
    let mut pallet = Pallet::new();
    add_plain_product(&mut pallet, 10, u64::MAX, 1);
    let lines = vec![ItemSale { product_id: 0, amount: 2 }];
    assert_eq!(
        pallet.register_sale(b"Test Seller".to_vec(), lines, PaymentMethod::Credit, operation_date()),
        Err(Error::Overflow)
    );
    assert_eq!(pallet.get_product(0).unwrap().stock, 10);
}

#[test]
fn test_overflow_on_running_total() {
    let mut pallet = Pallet::new();
    add_plain_product(&mut pallet, 10, u64::MAX, 1);
    let lines = vec![
        ItemSale { product_id: 0, amount: 1 },
        ItemSale { product_id: 0, amount: 1 },
    ];
    assert_eq!(
        pallet.register_sale(b"Test Seller".to_vec(), lines, PaymentMethod::Credit, operation_date()),
        Err(Error::Overflow)
    );
    assert_eq!(pallet.get_product(0).unwrap().stock, 10);
}

#[test]
fn test_register_sale_with_no_lines() {
    let mut pallet = Pallet::new();
    let code = pallet
        .register_sale(b"Test Seller".to_vec(), Vec::new(), PaymentMethod::Money, operation_date())
        .unwrap();
    assert_eq!(code, 0);
    let sale = pallet.get_sale(0).unwrap();
    assert_eq!(sale.value, 0);
    assert!(sale.products.is_empty());
}

#[test]
fn test_update_with_no_fields_keeps_product() {
    let mut pallet = Pallet::new();
    add_plain_product(&mut pallet, 100, 50, 20);
    let before = pallet.get_product(0).unwrap();
    assert!(pallet.update_product(0, None, None, None, None, None, None).is_ok());
    let after = pallet.get_product(0).unwrap();
    assert_eq!(before, after);
}

#[test]
fn test_update_rejects_invalid_date_and_changes_nothing() {
    let mut pallet = Pallet::new();
    add_plain_product(&mut pallet, 100, 50, 20);
    let before = pallet.get_product(0).unwrap();
    assert_eq!(
        pallet.update_product(
            0,
            Some(b"Another".to_vec()),
            Some(1),
            None,
            None,
            Some(Date { day: 31, month: 2, year: 99 }),
            None
        ),
        Err(Error::InvalidDate)
    );
    assert_eq!(pallet.get_product(0).unwrap(), before);
}

#[test]
fn test_update_sale_keeps_products_and_value() {
    let mut pallet = Pallet::new();
    add_plain_product(&mut pallet, 100, 50, 20);
    let lines = vec![ItemSale { product_id: 0, amount: 2 }];
    pallet
        .register_sale(b"Test Seller".to_vec(), lines, PaymentMethod::Credit, operation_date())
        .unwrap();
    assert!(pallet
        .update_sale(0, Some(b"Other Seller".to_vec()), None, Some(PaymentMethod::Money))
        .is_ok());
    let sale = pallet.get_sale(0).unwrap();
    assert_eq!(sale.products, vec![0]);
    assert_eq!(sale.value, 100);
}

#[test]
fn test_sale_survives_product_removal() {
    let mut pallet = Pallet::new();
    add_plain_product(&mut pallet, 100, 50, 20);
    let lines = vec![ItemSale { product_id: 0, amount: 2 }];
    pallet
        .register_sale(b"Test Seller".to_vec(), lines, PaymentMethod::Credit, operation_date())
        .unwrap();
    assert!(pallet.remove_product(0).is_ok());
    let sale = pallet.get_sale(0).unwrap();
    assert_eq!(sale.products, vec![0]);
    assert_eq!(sale.value, 100);
}

#[test]
fn test_end_to_end_scenario() {
    let mut pallet = Pallet::new();
    let id = pallet
        .add_product(
            b"Widget".to_vec(),
            100,
            50,
            20,
            Date::new(1, 1, 2023).unwrap(),
            Category::Electronic,
        )
        .unwrap();
    assert_eq!(id, 0);

    let lines = vec![ItemSale { product_id: 0, amount: 2 }];
    let code = pallet
        .register_sale(b"Acme".to_vec(), lines, PaymentMethod::Credit, operation_date())
        .unwrap();
    assert_eq!(code, 0);

    let sale = pallet.get_sale(0).unwrap();
    assert_eq!(sale.value, 100);
    assert_eq!(sale.products, vec![0]);
    assert_eq!(pallet.get_product(0).unwrap().stock, 98);
}

#[test]
fn test_component_encoded_lens() {
    assert_eq!(Date::max_encoded_len(), 10);
    assert_eq!(Category::max_encoded_len(), 1);
    assert_eq!(PaymentMethod::max_encoded_len(), 1);
    assert_eq!(Product::max_encoded_len(), 299);
    assert_eq!(Sale::max_encoded_len(), 363);
}
