use central_choi::inventory::{ProductAsString, ProductWithQuantity};
use central_choi::receipts::{generate_receipt, PrintedSales, ReceiptError};

fn item(id: &str, name: Option<&str>, price: Option<u64>) -> Option<ProductAsString> {
    Some(ProductAsString {
        id: id.to_string(),
        name: name.map(|n| n.to_string()),
        price,
        bar_code: None,
        quantity: None,
        category: None,
    })
}

fn sale(products: Vec<ProductWithQuantity>) -> PrintedSales {
    PrintedSales {
        cashier: "ana".to_string(),
        customer: None,
        payment_ref: "ref-1".to_string(),
        products,
        promocode: "NONE".to_string(),
        total_paid: 5000,
        type_: "cash".to_string(),
        currency: "NIO".to_string(),
        change: 2000,
    }
}

fn line(id: &str, qnt: u32) -> ProductWithQuantity {
    ProductWithQuantity { id: id.to_string(), qnt }
}

#[test]
fn unresolvable_line_is_left_out() {
    let s = sale(vec![line("products:1", 2), line("products:404", 1)]);
    let items = vec![item("products:1", Some("Belt"), Some(1500)), None];
    let rc = generate_receipt(s, &items, "01-02-2025 10:00".to_string(), None).ok().unwrap();
    assert_eq!(rc.items.len(), 1);
    assert_eq!(rc.items[0].name, "Belt");
    assert_eq!(rc.items[0].quantity, 2);
    assert_eq!(rc.items[0].price, 1500);
    assert_eq!(rc.items[0].total, 3000);
    assert_eq!(rc.totals.subtotal, 3000);
}

#[test]
fn subtotal_sums_printed_lines() {
    let s = sale(vec![line("products:1", 3), line("exams:2", 1), line("monthly:3", 2)]);
    let items = vec![
        item("products:1", Some("Gloves"), Some(250)),
        item("exams:2", Some("Exam"), Some(4000)),
        item("monthly:3", Some("Plan"), None),
    ];
    let rc = generate_receipt(s, &items, String::new(), None).ok().unwrap();
    let sum: u64 = rc.items.iter().map(|i| i.total).sum();
    assert_eq!(rc.totals.subtotal, sum);
    assert_eq!(rc.totals.subtotal, 750 + 4000);
    assert_eq!(rc.items[2].price, 0);
    assert_eq!(rc.items[2].total, 0);
}

#[test]
fn nameless_item_is_left_out() {
    let s = sale(vec![line("products:1", 1), line("products:2", 1)]);
    let items = vec![item("products:1", None, Some(900)), item("products:2", Some("Bag"), Some(100))];
    let rc = generate_receipt(s, &items, String::new(), None).ok().unwrap();
    assert_eq!(rc.items.len(), 1);
    assert_eq!(rc.items[0].name, "Bag");
    assert_eq!(rc.totals.subtotal, 100);
}

#[test]
fn receipt_carries_sale_metadata() {
    let s = sale(vec![]);
    let rc = generate_receipt(s, &vec![], "05-06-2025 09:30".to_string(), Some("sales:abc".to_string()))
        .ok()
        .unwrap();
    assert_eq!(rc.header.title, "Choi Taekwondo");
    assert_eq!(rc.header.branch, "Sucursal Reparto Serrano");
    assert_eq!(rc.header.date, "05-06-2025 09:30");
    assert_eq!(rc.header.cashier, "ana");
    assert_eq!(rc.payment_info.method, "cash");
    assert_eq!(rc.payment_info.payment_ref, "ref-1");
    assert_eq!(rc.payment_info.promocode, "NONE");
    assert_eq!(rc.totals.total, 5000);
    assert_eq!(rc.totals.currency, "NIO");
    assert_eq!(rc.totals.subtotal, 0);
    assert_eq!(rc.footer.sale_id.as_deref(), Some("sales:abc"));
    assert_eq!(rc.footer.qr_code_data.as_deref(), Some("sales:abc"));
    assert_eq!(rc.last_sale_id.as_deref(), Some("sales:abc"));
}

#[test]
fn missing_last_sale_leaves_trace_fields_empty() {
    let s = sale(vec![line("products:1", 1)]);
    let items = vec![item("products:1", Some("Belt"), Some(10))];
    let rc = generate_receipt(s, &items, String::new(), None).ok().unwrap();
    assert!(rc.footer.sale_id.is_none());
    assert!(rc.footer.qr_code_data.is_none());
    assert!(rc.last_sale_id.is_none());
}

#[test]
fn quantity_beyond_line_count_is_an_error() {
    let s = sale(vec![line("products:1", 1), line("products:2", 256)]);
    let items = vec![item("products:1", Some("A"), Some(1)), item("products:2", Some("B"), Some(1))];
    match generate_receipt(s, &items, String::new(), None) {
        Err(ReceiptError::QuantityTooLarge { id, qnt }) => {
            assert_eq!(id, "products:2");
            assert_eq!(qnt, 256);
        }
        _ => panic!("expected the quantity to be refused"),
    }
}

#[test]
fn largest_line_count_is_printed() {
    let s = sale(vec![line("products:1", 255)]);
    let items = vec![item("products:1", Some("A"), Some(2))];
    let rc = generate_receipt(s, &items, String::new(), None).ok().unwrap();
    assert_eq!(rc.items[0].quantity, 255);
    assert_eq!(rc.totals.subtotal, 510);
}

#[test]
fn subtotal_overflow_is_an_error() {
    let s = sale(vec![line("products:1", 1), line("products:2", 1)]);
    let items = vec![item("products:1", Some("A"), Some(u64::MAX)), item("products:2", Some("B"), Some(1))];
    assert!(matches!(generate_receipt(s, &items, String::new(), None), Err(ReceiptError::TotalOverflow)));
}

#[test]
fn all_lines_unresolved_gives_empty_receipt() {
    let s = sale(vec![line("products:7", 1), line("products:8", 2)]);
    let rc = generate_receipt(s, &vec![None, None], String::new(), None).ok().unwrap();
    assert!(rc.items.is_empty());
    assert_eq!(rc.totals.subtotal, 0);
}

#[test]
fn oversized_unresolved_line_is_skipped() {
    let s = sale(vec![line("products:404", 300), line("products:1", 2)]);
    let items = vec![None, item("products:1", Some("Belt"), Some(1500))];
    let rc = generate_receipt(s, &items, String::new(), None).ok().unwrap();
    assert_eq!(rc.items.len(), 1);
    assert_eq!(rc.totals.subtotal, 3000);
}

#[test]
fn oversized_nameless_line_is_skipped() {
    let s = sale(vec![line("products:1", 300)]);
    let items = vec![item("products:1", None, Some(10))];
    let rc = generate_receipt(s, &items, String::new(), None).ok().unwrap();
    assert!(rc.items.is_empty());
    assert_eq!(rc.totals.subtotal, 0);
}
