//! Catalog-qualified item identifiers of the form `catalog:local`.

use vstd::prelude::*;

verus! {

/// An identifier split into its catalog qualifier and its local part.
pub struct ItemRef {
    pub catalog: String,
    pub local_id: String,
}

/// The separator between catalog and local id.
pub open spec fn separator() -> char {
    ':'
}

/// `catalog` and `local` are the two separator-free pieces around the one
/// separator of `s`.
pub open spec fn splits_into(s: Seq<char>, catalog: Seq<char>, local: Seq<char>) -> bool {
    &&& s == catalog + seq![separator()] + local
    &&& !catalog.contains(separator())
    &&& !local.contains(separator())
}

/// `s` holds exactly one separator.
pub open spec fn is_qualified(s: Seq<char>) -> bool {
    exists|catalog: Seq<char>, local: Seq<char>| splits_into(s, catalog, local)
}

/// Two splits of one text at a first separator agree.
proof fn lemma_first_split_unique(a: Seq<char>, b: Seq<char>, a2: Seq<char>, b2: Seq<char>)
    requires
        a + seq![separator()] + b == a2 + seq![separator()] + b2,
        !a.contains(separator()),
        !a2.contains(separator()),
    ensures
        a == a2,
        b == b2,
{
    let s = a + seq![separator()] + b;
    if a.len() < a2.len() {
        assert(s[a.len() as int] == separator());
        assert(a2[a.len() as int] == s[a.len() as int]);
    } else if a2.len() < a.len() {
        assert(s[a2.len() as int] == separator());
        assert(a[a2.len() as int] == s[a2.len() as int]);
    }
    assert(a =~= s.subrange(0, a.len() as int));
    assert(a2 =~= s.subrange(0, a2.len() as int));
    assert(b =~= s.subrange(a.len() as int + 1, s.len() as int));
    assert(b2 =~= s.subrange(a2.len() as int + 1, s.len() as int));
}

/// Splits `id` into catalog and local id; an identifier without exactly one
/// separator is malformed.
pub fn parse_item_id(id: &str) -> (r: Option<ItemRef>)
    ensures
        r is Some <==> is_qualified(id@),
        r matches Some(parts) ==> splits_into(id@, parts.catalog@, parts.local_id@),
{
    let len = id.unicode_len();
    let mut p: usize = 0;
    while p < len && id.get_char(p) != ':'
        invariant
            len == id@.len(),
            p <= len,
            forall|k: int| 0 <= k < p ==> id@[k] != separator(),
        decreases len - p,
    {
        p = p + 1;
    }
    if p == len {
        proof {
            if is_qualified(id@) {
                let (c, l) = choose|c: Seq<char>, l: Seq<char>| splits_into(id@, c, l);
                assert(id@[c.len() as int] == separator());
            }
        }
        return None;
    }
    let mut q: usize = p + 1;
    while q < len && id.get_char(q) != ':'
        invariant
            len == id@.len(),
            p < q <= len,
            id@[p as int] == separator(),
            forall|k: int| 0 <= k < p ==> id@[k] != separator(),
            forall|k: int| p < k < q ==> id@[k] != separator(),
        decreases len - q,
    {
        q = q + 1;
    }
    let catalog = id.substring_char(0, p);
    let local = id.substring_char(p + 1, len);
    proof {
        assert(id@ =~= catalog@ + seq![separator()] + local@);
        assert(!catalog@.contains(separator())) by {
            if catalog@.contains(separator()) {
                let k = choose|k: int| 0 <= k < catalog@.len() && catalog@[k] == separator();
                assert(id@[k] == separator());
            }
        }
    }
    if q < len {
        proof {
            if is_qualified(id@) {
                let (c, l) = choose|c: Seq<char>, l: Seq<char>| splits_into(id@, c, l);
                lemma_first_split_unique(catalog@, local@, c, l);
                assert(local@[q - p - 1] == separator());
            }
        }
        None
    } else {
        proof {
            assert(!local@.contains(separator())) by {
                if local@.contains(separator()) {
                    let k = choose|k: int| 0 <= k < local@.len() && local@[k] == separator();
                    assert(id@[p + 1 + k] == separator());
                }
            }
            assert(splits_into(id@, catalog@, local@));
        }
        Some(ItemRef { catalog: catalog.to_owned(), local_id: local.to_owned() })
    }
}

} // verus!
