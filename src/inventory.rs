//! Items of the catalogs and the order in which an identifier is resolved.

use vstd::prelude::*;

verus! {

/// One of the item tables an identifier may belong to.
#[derive(PartialEq, Eq, Structural, Clone, Copy, Debug)]
pub enum Catalog {
    Products,
    Exams,
    Monthly,
}

/// An item as read from a catalog. Prices are in cents; `None` means
/// unpriced. Only retail products carry a stock quantity.
pub struct ProductAsString {
    pub id: String,
    pub name: Option<String>,
    pub price: Option<u64>,
    pub bar_code: Option<String>,
    pub quantity: Option<u32>,
    pub category: Option<String>,
}

/// A reference to an item together with a requested quantity.
pub struct ProductWithQuantity {
    pub id: String,
    pub qnt: u32,
}

/// A product category.
pub struct Category {
    pub name: String,
}

/// An item identifier paired with its display name.
pub struct EnrichedProduct {
    pub id: String,
    pub name: String,
}

/// The catalog searched after `c`, if any.
pub open spec fn next_catalog(c: Catalog) -> Option<Catalog> {
    match c {
        Catalog::Products => Some(Catalog::Exams),
        Catalog::Exams => Some(Catalog::Monthly),
        Catalog::Monthly => None,
    }
}

/// The catalogs in the order in which they are searched.
pub open spec fn search_order() -> Seq<Catalog> {
    seq![Catalog::Products, Catalog::Exams, Catalog::Monthly]
}

/// What to do after searching one catalog.
pub enum LookupStep {
    /// The item was found; the search is over.
    Found(ProductAsString),
    /// Search this catalog next.
    Search(Catalog),
    /// Every catalog was searched without a match.
    NotFound,
}

impl Catalog {
    /// The catalog searched first.
    pub fn first() -> (r: Catalog)
        ensures
            r == search_order()[0],
    {
        Catalog::Products
    }

    /// The name of the table that holds this catalog.
    pub fn table_name(&self) -> (r: &'static str)
        ensures
            *self == Catalog::Products ==> r@ == "products"@,
            *self == Catalog::Exams ==> r@ == "exams"@,
            *self == Catalog::Monthly ==> r@ == "monthly"@,
    {
        proof {
            reveal_strlit("products");
            reveal_strlit("exams");
            reveal_strlit("monthly");
        }
        match self {
            Catalog::Products => "products",
            Catalog::Exams => "exams",
            Catalog::Monthly => "monthly",
        }
    }
}

/// Decides the next move after catalog `searched` answered with `found`.
pub fn lookup_step(searched: Catalog, found: Option<ProductAsString>) -> (r: LookupStep)
    ensures
        match found {
            Some(item) => r == LookupStep::Found(item),
            None => match next_catalog(searched) {
                Some(c) => r == LookupStep::Search(c),
                None => r == LookupStep::NotFound,
            },
        },
{
    match found {
        Some(item) => LookupStep::Found(item),
        None => match searched {
            Catalog::Products => LookupStep::Search(Catalog::Exams),
            Catalog::Exams => LookupStep::Search(Catalog::Monthly),
            Catalog::Monthly => LookupStep::NotFound,
        },
    }
}

} // verus!
