//! Receipt computation: each line of a sale is resolved against the
//! current catalog, lines that cannot be resolved are left out, and the
//! subtotal is the sum of the printed line totals.

use vstd::prelude::*;
use crate::inventory::{ProductAsString, ProductWithQuantity};
use crate::bundles::unit_price;

verus! {

/// A finished sale as handed to the receipt printer. Amounts are in cents.
pub struct PrintedSales {
    pub cashier: String,
    pub customer: Option<String>,
    pub payment_ref: String,
    pub products: Vec<ProductWithQuantity>,
    pub promocode: String,
    pub total_paid: u64,
    pub type_: String,
    pub currency: String,
    pub change: u64,
}

/// One printed line.
pub struct ReceiptItem {
    pub name: String,
    pub quantity: u8,
    pub price: u64,
    pub total: u64,
}

pub struct ReceiptHeader {
    pub title: String,
    pub branch: String,
    pub date: String,
    pub cashier: String,
}

pub struct PaymentInfo {
    pub method: String,
    pub payment_ref: String,
    pub promocode: String,
}

pub struct ReceiptTotals {
    pub subtotal: u64,
    pub total: u64,
    pub currency: String,
}

pub struct ReceiptFooter {
    pub sale_id: Option<String>,
    pub qr_code_data: Option<String>,
}

/// A complete receipt document.
pub struct ReceiptJson {
    pub header: ReceiptHeader,
    pub payment_info: PaymentInfo,
    pub items: Vec<ReceiptItem>,
    pub totals: ReceiptTotals,
    pub footer: ReceiptFooter,
    pub last_sale_id: Option<String>,
}

/// Why no receipt could be printed.
#[derive(Debug)]
pub enum ReceiptError {
    /// A line's quantity does not fit a printed line count.
    QuantityTooLarge { id: String, qnt: u32 },
    /// A line total or the subtotal does not fit in 64 bits of cents.
    TotalOverflow,
}

impl View for ReceiptItem {
    type V = (Seq<char>, u8, u64, u64);

    open spec fn view(&self) -> (Seq<char>, u8, u64, u64) {
        (self.name@, self.quantity, self.price, self.total)
    }
}

/// The largest quantity a printed line can show.
pub open spec fn max_line_quantity() -> int {
    255
}

/// A sale line is printed when its item resolved and has a name.
pub open spec fn is_printed(item: Option<ProductAsString>) -> bool {
    item matches Some(i) && i.name is Some
}

/// The printed lines for the first `n` sale lines: name, quantity, unit
/// price and line total, in sale order, unresolved or nameless ones left
/// out.
pub open spec fn receipt_lines(
    products: Seq<ProductWithQuantity>,
    items: Seq<Option<ProductAsString>>,
    n: int,
) -> Seq<(Seq<char>, int, int, int)>
    decreases n,
{
    if n <= 0 {
        seq![]
    } else if is_printed(items[n - 1]) {
        let item = items[n - 1]->Some_0;
        let q = products[n - 1].qnt as int;
        receipt_lines(products, items, n - 1).push(
            (item.name->Some_0@, q, unit_price(item), unit_price(item) * q),
        )
    } else {
        receipt_lines(products, items, n - 1)
    }
}

/// Σ of the line totals.
pub open spec fn line_sum(lines: Seq<(Seq<char>, int, int, int)>) -> int
    decreases lines.len(),
{
    if lines.len() == 0 {
        0
    } else {
        line_sum(lines.drop_last()) + lines.last().3
    }
}

/// The lines of a receipt, read as numbers.
pub open spec fn printed(items: Seq<ReceiptItem>) -> Seq<(Seq<char>, int, int, int)> {
    items.map_values(
        |it: ReceiptItem| (it.name@, it.quantity as int, it.price as int, it.total as int),
    )
}

/// Sale line `i` can be printed as far as its count goes: it is left off
/// the receipt, or its quantity fits a printed line.
pub open spec fn line_fits(
    products: Seq<ProductWithQuantity>,
    items: Seq<Option<ProductAsString>>,
    i: int,
) -> bool {
    !is_printed(items[i]) || products[i].qnt <= max_line_quantity()
}

/// Line `i` is the first printed line whose quantity is too large to print.
pub open spec fn first_oversized(
    products: Seq<ProductWithQuantity>,
    items: Seq<Option<ProductAsString>>,
    i: int,
) -> bool {
    &&& 0 <= i < products.len()
    &&& !line_fits(products, items, i)
    &&& forall|j: int| 0 <= j < i ==> #[trigger] line_fits(products, items, j)
}

/// Every printed line's quantity can be printed.
pub open spec fn quantities_fit(
    products: Seq<ProductWithQuantity>,
    items: Seq<Option<ProductAsString>>,
) -> bool {
    forall|i: int| 0 <= i < products.len() ==> #[trigger] line_fits(products, items, i)
}

proof fn lemma_line_sum_monotone(
    products: Seq<ProductWithQuantity>,
    items: Seq<Option<ProductAsString>>,
    m: int,
    n: int,
)
    requires
        0 <= m <= n <= products.len(),
        items.len() == products.len(),
    ensures
        0 <= line_sum(receipt_lines(products, items, m)) <= line_sum(
            receipt_lines(products, items, n),
        ),
    decreases n,
{
    if n > 0 {
        lemma_line_sum_monotone(products, items, if m < n { m } else { n - 1 }, n - 1);
        if is_printed(items[n - 1]) {
            let item = items[n - 1]->Some_0;
            let q = products[n - 1].qnt as int;
            let prev = receipt_lines(products, items, n - 1);
            assert(receipt_lines(products, items, n).drop_last() =~= prev);
            assert(unit_price(item) * q >= 0) by (nonlinear_arith)
                requires
                    unit_price(item) >= 0,
                    q >= 0,
            ;
        }
    }
}

proof fn lemma_lines_without(
    products: Seq<ProductWithQuantity>,
    items: Seq<Option<ProductAsString>>,
    i: int,
    n: int,
)
    requires
        items.len() == products.len(),
        0 <= i < products.len(),
        0 <= n <= products.len(),
        !is_printed(items[i]),
    ensures
        n <= i ==> receipt_lines(products, items, n) == receipt_lines(
            products.remove(i),
            items.remove(i),
            n,
        ),
        n > i ==> receipt_lines(products, items, n) == receipt_lines(
            products.remove(i),
            items.remove(i),
            n - 1,
        ),
    decreases n,
{
    if n > 0 {
        lemma_lines_without(products, items, i, n - 1);
        if n - 1 < i {
            assert(products.remove(i)[n - 1] == products[n - 1]);
            assert(items.remove(i)[n - 1] == items[n - 1]);
        } else if n - 1 > i {
            assert(products.remove(i)[n - 2] == products[n - 1]);
            assert(items.remove(i)[n - 2] == items[n - 1]);
        }
    }
}

/// A sale line that does not resolve (or resolves to a nameless item)
/// leaves no trace on the receipt: the printed lines, and so the subtotal,
/// are those of the sale without that line.
pub proof fn lemma_unresolved_line_omitted(
    products: Seq<ProductWithQuantity>,
    items: Seq<Option<ProductAsString>>,
    i: int,
)
    requires
        items.len() == products.len(),
        0 <= i < products.len(),
        !is_printed(items[i]),
    ensures
        receipt_lines(products, items, products.len() as int) == receipt_lines(
            products.remove(i),
            items.remove(i),
            products.len() - 1,
        ),
        line_sum(receipt_lines(products, items, products.len() as int)) == line_sum(
            receipt_lines(products.remove(i), items.remove(i), products.len() - 1),
        ),
{
    lemma_lines_without(products, items, i, products.len() as int);
}

/// The title printed at the head of every receipt.
pub open spec fn receipt_title() -> Seq<char> {
    "Choi Taekwondo"@
}

/// The branch printed under the title.
pub open spec fn receipt_branch() -> Seq<char> {
    "Sucursal Reparto Serrano"@
}

/// `rc` is the receipt for `sale`, printed on `date`, with its lines
/// resolved to `items` and traced to `last_sale_id`.
pub open spec fn describes(
    rc: ReceiptJson,
    sale: PrintedSales,
    items: Seq<Option<ProductAsString>>,
    date: String,
    last_sale_id: Option<String>,
) -> bool {
    &&& printed(rc.items@) == receipt_lines(sale.products@, items, sale.products@.len() as int)
    &&& rc.totals.subtotal == line_sum(printed(rc.items@))
    &&& rc.totals.total == sale.total_paid
    &&& rc.totals.currency == sale.currency
    &&& rc.header.title@ == receipt_title()
    &&& rc.header.branch@ == receipt_branch()
    &&& rc.header.date == date
    &&& rc.header.cashier == sale.cashier
    &&& rc.payment_info.method == sale.type_
    &&& rc.payment_info.payment_ref == sale.payment_ref
    &&& rc.payment_info.promocode == sale.promocode
    &&& rc.footer.sale_id == last_sale_id
    &&& rc.footer.qr_code_data == last_sale_id
    &&& rc.last_sale_id == last_sale_id
}

fn copy_sale_id(id: &Option<String>) -> (r: Option<String>)
    ensures
        r == *id,
{
    match id {
        Some(s) => Some(s.clone()),
        None => None,
    }
}

/// Builds the receipt for `sale` from what each of its lines resolved to
/// now (`items[i]` for `sale.products[i]`; `None` when the lookup failed).
/// Lines that did not resolve, or whose item has no name, are left out; the
/// receipt is still produced. A quantity that a printed line cannot hold
/// and a total beyond 64 bits are errors rather than wrapped values; the
/// quantities of lines left out are not looked at.
pub fn generate_receipt(
    sale: PrintedSales,
    items: &Vec<Option<ProductAsString>>,
    date: String,
    last_sale_id: Option<String>,
) -> (r: Result<ReceiptJson, ReceiptError>)
    requires
        items@.len() == sale.products@.len(),
    ensures
        !quantities_fit(sale.products@, items@) ==> (r matches Err(
            ReceiptError::QuantityTooLarge { id, qnt },
        ) && exists|i: int|
            first_oversized(sale.products@, items@, i) && id@ == sale.products@[i].id@ && qnt
                == sale.products@[i].qnt),
        quantities_fit(sale.products@, items@) && line_sum(
            receipt_lines(sale.products@, items@, items@.len() as int),
        ) > u64::MAX ==> r matches Err(ReceiptError::TotalOverflow),
        quantities_fit(sale.products@, items@) && line_sum(
            receipt_lines(sale.products@, items@, items@.len() as int),
        ) <= u64::MAX ==> (r matches Ok(rc) && describes(rc, sale, items@, date, last_sale_id)),
{
    let n = items.len();
    let mut i: usize = 0;
    while i < n
        invariant
            n == items@.len(),
            items@.len() == sale.products@.len(),
            i <= n,
            forall|j: int| 0 <= j < i ==> #[trigger] line_fits(sale.products@, items@, j),
        decreases n - i,
    {
        let printed_line = match &items[i] {
            Some(item) => item.name.is_some(),
            None => false,
        };
        if printed_line && sale.products[i].qnt > 255 {
            proof {
                assert(first_oversized(sale.products@, items@, i as int));
            }
            return Err(
                ReceiptError::QuantityTooLarge {
                    id: sale.products[i].id.clone(),
                    qnt: sale.products[i].qnt,
                },
            );
        }
        i = i + 1;
    }
    let mut lines: Vec<ReceiptItem> = Vec::new();
    let mut subtotal: u64 = 0;
    let mut k: usize = 0;
    while k < n
        invariant
            n == items@.len(),
            items@.len() == sale.products@.len(),
            k <= n,
            quantities_fit(sale.products@, items@),
            printed(lines@) == receipt_lines(sale.products@, items@, k as int),
            subtotal == line_sum(receipt_lines(sale.products@, items@, k as int)),
        decreases n - k,
    {
        proof {
            lemma_line_sum_monotone(sale.products@, items@, k as int, k as int + 1);
        }
        if let Some(item) = &items[k] {
            if let Some(name) = &item.name {
                let price: u64 = match item.price {
                    Some(p) => p,
                    None => 0,
                };
                proof {
                    assert(line_fits(sale.products@, items@, k as int));
                    assert(is_printed(items@[k as int]));
                }
                let quantity: u8 = sale.products[k].qnt as u8;
                proof {
                    assert(price * quantity <= u64::MAX * 255) by (nonlinear_arith)
                        requires
                            price <= u64::MAX,
                            quantity <= 255,
                    ;
                }
                let line_total: u128 = price as u128 * quantity as u128;
                proof {
                    assert(receipt_lines(sale.products@, items@, k as int + 1).drop_last()
                        =~= receipt_lines(sale.products@, items@, k as int));
                    assert(line_sum(receipt_lines(sale.products@, items@, k as int + 1)) == subtotal
                        + line_total);
                }
                if subtotal as u128 + line_total > u64::MAX as u128 {
                    proof {
                        lemma_line_sum_monotone(sale.products@, items@, k as int + 1, n as int);
                    }
                    return Err(ReceiptError::TotalOverflow);
                }
                let ghost before = printed(lines@);
                lines.push(
                    ReceiptItem {
                        name: name.clone(),
                        quantity,
                        price,
                        total: line_total as u64,
                    },
                );
                subtotal = (subtotal as u128 + line_total) as u64;
                proof {
                    assert(printed(lines@) =~= before.push(
                        (name@, quantity as int, price as int, line_total as int),
                    ));
                    assert(receipt_lines(sale.products@, items@, k as int + 1).drop_last()
                        =~= receipt_lines(sale.products@, items@, k as int));
                }
            }
        }
        k = k + 1;
    }
    proof {
        reveal_strlit("Choi Taekwondo");
        reveal_strlit("Sucursal Reparto Serrano");
    }
    let footer = ReceiptFooter {
        sale_id: copy_sale_id(&last_sale_id),
        qr_code_data: copy_sale_id(&last_sale_id),
    };
    Ok(
        ReceiptJson {
            header: ReceiptHeader {
                title: "Choi Taekwondo".to_owned(),
                branch: "Sucursal Reparto Serrano".to_owned(),
                date,
                cashier: sale.cashier,
            },
            payment_info: PaymentInfo {
                method: sale.type_,
                payment_ref: sale.payment_ref,
                promocode: sale.promocode,
            },
            items: lines,
            totals: ReceiptTotals { subtotal, total: sale.total_paid, currency: sale.currency },
            footer,
            last_sale_id,
        },
    )
}

} // verus!
