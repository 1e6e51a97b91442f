//! Bundle pricing: a bundle's constituents must all resolve, their prices
//! are summed by quantity and the optional percentage discount is applied.
//! The price is recomputed on every create and update.

use vstd::prelude::*;
use crate::inventory::{ProductAsString, ProductWithQuantity};

verus! {

/// A bundle as a caller describes it; `discount` is in basis points
/// (hundredths of a percent: 1250 is 12.5%).
pub struct Bundle {
    pub name: String,
    pub products: Vec<ProductWithQuantity>,
    pub discount: Option<u32>,
}

/// A bundle with its discount (in basis points) settled and its price
/// computed, ready to be stored. Prices are in cents.
pub struct PricedBundle {
    pub name: String,
    pub products: Vec<ProductWithQuantity>,
    pub discount: u32,
    pub final_price: u64,
}

/// Fields of a stored bundle that an update replaces; absent fields keep
/// their stored value.
pub struct BundleUpdate {
    pub name: Option<String>,
    pub products: Option<Vec<ProductWithQuantity>>,
    pub discount: Option<u32>,
}

/// Why a bundle could not be priced; nothing is stored in either case.
#[derive(Debug)]
pub enum BundleError {
    /// A constituent does not resolve to any catalog item.
    UnknownItem { id: String },
    /// The undiscounted total does not fit in 64 bits of cents.
    PriceOverflow,
}

/// The unit price that a resolved item contributes: unpriced items count
/// as zero.
pub open spec fn unit_price(item: ProductAsString) -> int {
    match item.price {
        Some(p) => p as int,
        None => 0,
    }
}

/// Σ unit price × quantity over the first `n` constituents.
pub open spec fn raw_total(
    products: Seq<ProductWithQuantity>,
    items: Seq<Option<ProductAsString>>,
    n: int,
) -> int
    decreases n,
{
    if n <= 0 {
        0
    } else {
        raw_total(products, items, n - 1) + match items[n - 1] {
            Some(item) => unit_price(item) * products[n - 1].qnt,
            None => 0,
        }
    }
}

/// The discount in force, in basis points: a missing one is zero, one above
/// a hundred percent is a hundred percent.
pub open spec fn effective_discount(discount: Option<u32>) -> int {
    match discount {
        None => 0,
        Some(d) => if d > full_discount() {
            full_discount()
        } else {
            d as int
        },
    }
}

/// A hundred percent, in basis points.
pub open spec fn full_discount() -> int {
    10000
}

/// `raw` less `bp` basis points, rounded to the nearest cent (halves up).
pub open spec fn discounted(raw: int, bp: int) -> int {
    (raw * (10000 - bp) + 5000) / 10000
}

/// Constituent `i` is the first that did not resolve.
pub open spec fn first_unresolved(items: Seq<Option<ProductAsString>>, i: int) -> bool {
    &&& 0 <= i < items.len()
    &&& items[i] is None
    &&& forall|j: int| 0 <= j < i ==> #[trigger] items[j] is Some
}

/// Every constituent resolved.
pub open spec fn all_resolved(items: Seq<Option<ProductAsString>>) -> bool {
    forall|i: int| 0 <= i < items.len() ==> #[trigger] items[i] is Some
}

proof fn lemma_line_bounds(price: int, qnt: int)
    requires
        0 <= price <= u64::MAX,
        0 <= qnt <= u32::MAX,
    ensures
        0 <= price * qnt <= u64::MAX * u32::MAX,
{
    assert(0 <= price * qnt <= u64::MAX * u32::MAX) by (nonlinear_arith)
        requires
            0 <= price <= u64::MAX,
            0 <= qnt <= u32::MAX,
    ;
}

proof fn lemma_raw_total_monotone(
    products: Seq<ProductWithQuantity>,
    items: Seq<Option<ProductAsString>>,
    m: int,
    n: int,
)
    requires
        0 <= m <= n <= products.len(),
        items.len() == products.len(),
    ensures
        0 <= raw_total(products, items, m) <= raw_total(products, items, n),
    decreases n,
{
    if n > 0 {
        if let Some(item) = items[n - 1] {
            lemma_line_bounds(unit_price(item), products[n - 1].qnt as int);
        }
        lemma_raw_total_monotone(products, items, if m < n { m } else { n - 1 }, n - 1);
    }
}

/// Prices `bundle` from what each constituent resolved to (`items[i]` for
/// `bundle.products[i]`; `None` when it resolved to nothing). The first
/// unresolved constituent is reported; otherwise the price is
/// `discounted(raw_total, effective_discount)`.
pub fn price_bundle(bundle: Bundle, items: &Vec<Option<ProductAsString>>) -> (r: Result<
    PricedBundle,
    BundleError,
>)
    requires
        items@.len() == bundle.products@.len(),
    ensures
        !all_resolved(items@) ==> (r matches Err(BundleError::UnknownItem { id }) && exists|i: int|
            first_unresolved(items@, i) && id@ == bundle.products@[i].id@),
        all_resolved(items@) && raw_total(bundle.products@, items@, items@.len() as int)
            > u64::MAX ==> r matches Err(BundleError::PriceOverflow),
        all_resolved(items@) && raw_total(bundle.products@, items@, items@.len() as int)
            <= u64::MAX ==> (r matches Ok(b) && b.name == bundle.name && b.products
            == bundle.products && b.discount == effective_discount(bundle.discount)
            && b.final_price == discounted(
            raw_total(bundle.products@, items@, items@.len() as int),
            effective_discount(bundle.discount),
        )),
{
    let n = items.len();
    let mut i: usize = 0;
    while i < n
        invariant
            n == items@.len(),
            items@.len() == bundle.products@.len(),
            i <= n,
            forall|j: int| 0 <= j < i ==> #[trigger] items@[j] is Some,
        decreases n - i,
    {
        if items[i].is_none() {
            proof {
                assert(first_unresolved(items@, i as int));
            }
            return Err(BundleError::UnknownItem { id: bundle.products[i].id.clone() });
        }
        i = i + 1;
    }
    let mut total: u64 = 0;
    let mut k: usize = 0;
    while k < n
        invariant
            n == items@.len(),
            items@.len() == bundle.products@.len(),
            k <= n,
            all_resolved(items@),
            total == raw_total(bundle.products@, items@, k as int),
        decreases n - k,
    {
        let line: u128 = match &items[k] {
            Some(item) => match item.price {
                Some(p) => {
                    proof {
                        lemma_line_bounds(p as int, bundle.products@[k as int].qnt as int);
                    }
                    p as u128 * bundle.products[k].qnt as u128
                },
                None => 0,
            },
            None => 0,
        };
        proof {
            lemma_raw_total_monotone(bundle.products@, items@, k as int, k as int + 1);
        }
        if total as u128 + line > u64::MAX as u128 {
            proof {
                lemma_raw_total_monotone(bundle.products@, items@, k as int + 1, n as int);
            }
            return Err(BundleError::PriceOverflow);
        }
        total = (total as u128 + line) as u64;
        k = k + 1;
    }
    let bp: u32 = match bundle.discount {
        None => 0,
        Some(d) => if d > 10000 {
            10000
        } else {
            d
        },
    };
    proof {
        assert(total * (10000 - bp) <= u64::MAX * 10000) by (nonlinear_arith)
            requires
                total <= u64::MAX,
                bp <= 10000,
        ;
    }
    let scaled: u128 = total as u128 * (10000 - bp) as u128 + 5000;
    proof {
        assert(scaled / 10000 <= u64::MAX) by (nonlinear_arith)
            requires
                scaled == total * (10000 - bp) + 5000,
                total <= u64::MAX,
                bp <= 10000,
        ;
    }
    let final_price: u64 = (scaled / 10000) as u64;
    Ok(PricedBundle { name: bundle.name, products: bundle.products, discount: bp, final_price })
}

/// The bundle to price again after `update` is applied to the stored
/// `current`: fields the update names replace the stored ones, the rest are
/// kept, and the stored price is dropped so that it is always recomputed.
pub fn merge_bundle_update(current: PricedBundle, update: BundleUpdate) -> (r: Bundle)
    ensures
        r.name == (match update.name {
            Some(n) => n,
            None => current.name,
        }),
        r.products == (match update.products {
            Some(p) => p,
            None => current.products,
        }),
        r.discount == Some(
            match update.discount {
                Some(d) => d,
                None => current.discount,
            },
        ),
{
    let name = match update.name {
        Some(n) => n,
        None => current.name,
    };
    let products = match update.products {
        Some(p) => p,
        None => current.products,
    };
    let discount = match update.discount {
        Some(d) => d,
        None => current.discount,
    };
    Bundle { name, products, discount: Some(discount) }
}

/// The stored price is the discounted total rounded to the nearest cent:
/// it lies within half a cent of `raw × (10000 − discount) / 10000`, and with no
/// discount it is the raw total itself.
pub proof fn lemma_bundle_price_rounding(raw: int, discount: Option<u32>)
    requires
        raw >= 0,
    ensures
        raw * (10000 - effective_discount(discount)) - 5000 < 10000 * discounted(
            raw,
            effective_discount(discount),
        ) <= raw * (10000 - effective_discount(discount)) + 5000,
        discount is None ==> discounted(raw, effective_discount(discount)) == raw,
        discounted(raw, effective_discount(discount)) >= 0,
{
    let bp = effective_discount(discount);
    let exact = raw * (10000 - bp);
    assert(exact >= 0) by (nonlinear_arith)
        requires
            raw >= 0,
            bp <= 10000,
            exact == raw * (10000 - bp),
    ;
    assert(exact - 5000 < 10000 * ((exact + 5000) / 10000) <= exact + 5000) by (nonlinear_arith)
        requires
            exact >= 0,
    ;
    if discount is None {
        assert((raw * 10000 + 5000) / 10000 == raw) by (nonlinear_arith)
            requires
                raw >= 0,
        ;
    }
}

} // verus!
