use central_choi::bundles::{merge_bundle_update, price_bundle, Bundle, BundleError, BundleUpdate, PricedBundle};
use central_choi::inventory::{ProductAsString, ProductWithQuantity};

fn item(id: &str, price: Option<u64>) -> Option<ProductAsString> {
    Some(ProductAsString {
        id: id.to_string(),
        name: Some(format!("item {}", id)),
        price,
        bar_code: None,
        quantity: Some(10),
        category: None,
    })
}

fn line(id: &str, qnt: u32) -> ProductWithQuantity {
    ProductWithQuantity { id: id.to_string(), qnt }
}

fn bundle(products: Vec<ProductWithQuantity>, discount: Option<u32>) -> Bundle {
    Bundle { name: "Combo".to_string(), products, discount }
}

#[test]
fn combo_bundle_with_ten_percent_discount() {
    let b = bundle(vec![line("products:1", 2), line("products:2", 1)], Some(1000));
    let items = vec![item("products:1", Some(1000)), item("products:2", Some(2000))];
    let priced = price_bundle(b, &items).ok().unwrap();
    assert_eq!(priced.name, "Combo");
    assert_eq!(priced.discount, 1000);
    assert_eq!(priced.final_price, 3600);
    assert_eq!(priced.products.len(), 2);
    assert_eq!(priced.products[0].id, "products:1");
}

#[test]
fn missing_discount_keeps_raw_total() {
    let b = bundle(vec![line("products:1", 3), line("products:2", 2)], None);
    let items = vec![item("products:1", Some(1250)), item("products:2", Some(499))];
    let priced = price_bundle(b, &items).ok().unwrap();
    assert_eq!(priced.discount, 0);
    assert_eq!(priced.final_price, 3 * 1250 + 2 * 499);
}

#[test]
fn discount_rounds_to_nearest_cent() {
    // 999 cents less 15% is 849.15 cents.
    let b = bundle(vec![line("products:1", 1)], Some(1500));
    let priced = price_bundle(b, &vec![item("products:1", Some(999))]).ok().unwrap();
    assert_eq!(priced.final_price, 849);
    // 1 cent less 50% is half a cent, which rounds up.
    let b = bundle(vec![line("products:1", 1)], Some(5000));
    let priced = price_bundle(b, &vec![item("products:1", Some(1))]).ok().unwrap();
    assert_eq!(priced.final_price, 1);
}

#[test]
fn fractional_percent_discount_is_exact() {
    // 12.5% off 1000 cents is 875 cents.
    let b = bundle(vec![line("products:1", 1)], Some(1250));
    let priced = price_bundle(b, &vec![item("products:1", Some(1000))]).ok().unwrap();
    assert_eq!(priced.discount, 1250);
    assert_eq!(priced.final_price, 875);
}

#[test]
fn discount_above_hundred_is_capped() {
    let b = bundle(vec![line("products:1", 4)], Some(25000));
    let priced = price_bundle(b, &vec![item("products:1", Some(700))]).ok().unwrap();
    assert_eq!(priced.discount, 10000);
    assert_eq!(priced.final_price, 0);
}

#[test]
fn unpriced_item_counts_as_zero() {
    let b = bundle(vec![line("exams:1", 5), line("products:2", 1)], Some(0));
    let items = vec![item("exams:1", None), item("products:2", Some(300))];
    assert_eq!(price_bundle(b, &items).ok().unwrap().final_price, 300);
}

#[test]
fn zero_quantity_contributes_nothing() {
    let b = bundle(vec![line("products:1", 0), line("products:2", 2)], None);
    let items = vec![item("products:1", Some(9999)), item("products:2", Some(100))];
    assert_eq!(price_bundle(b, &items).ok().unwrap().final_price, 200);
}

#[test]
fn unresolved_constituent_is_refused() {
    let b = bundle(vec![line("products:1", 1), line("products:404", 1), line("products:405", 1)], Some(1000));
    let items = vec![item("products:1", Some(1000)), None, None];
    match price_bundle(b, &items) {
        Err(BundleError::UnknownItem { id }) => assert_eq!(id, "products:404"),
        _ => panic!("expected the first unknown item"),
    }
}

#[test]
fn empty_bundle_costs_nothing() {
    let b = bundle(vec![], Some(1000));
    assert_eq!(price_bundle(b, &vec![]).ok().unwrap().final_price, 0);
}

#[test]
fn oversized_total_is_refused() {
    let b = bundle(vec![line("products:1", 2)], None);
    let items = vec![item("products:1", Some(u64::MAX))];
    assert!(matches!(price_bundle(b, &items), Err(BundleError::PriceOverflow)));
}

#[test]
fn largest_total_is_accepted() {
    let b = bundle(vec![line("products:1", 1)], None);
    let items = vec![item("products:1", Some(u64::MAX))];
    assert_eq!(price_bundle(b, &items).ok().unwrap().final_price, u64::MAX);
}

#[test]
fn partial_update_keeps_other_fields_and_reprices() {
    let stored = PricedBundle {
        name: "Combo".to_string(),
        products: vec![line("products:1", 2)],
        discount: 1000,
        final_price: 1,
    };
    let update = BundleUpdate { name: None, products: None, discount: Some(5000) };
    let merged = merge_bundle_update(stored, update);
    assert_eq!(merged.name, "Combo");
    assert_eq!(merged.discount, Some(5000));
    assert_eq!(merged.products.len(), 1);
    let priced = price_bundle(merged, &vec![item("products:1", Some(1000))]).ok().unwrap();
    assert_eq!(priced.final_price, 1000);
}

#[test]
fn update_keeps_stored_discount_when_absent() {
    let stored = PricedBundle {
        name: "Old".to_string(),
        products: vec![line("products:1", 1)],
        discount: 2000,
        final_price: 800,
    };
    let update = BundleUpdate {
        name: Some("New".to_string()),
        products: Some(vec![line("products:2", 3)]),
        discount: None,
    };
    let merged = merge_bundle_update(stored, update);
    assert_eq!(merged.name, "New");
    assert_eq!(merged.discount, Some(2000));
    assert_eq!(merged.products[0].id, "products:2");
    assert_eq!(merged.products[0].qnt, 3);
}
