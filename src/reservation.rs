//! Stock reservation in two phases: every requested line is checked against
//! the stock that was read for it, and only when all pass is a batch of
//! conditional decrements produced. The store applies that batch atomically.

use vstd::prelude::*;
use crate::inventory::ProductWithQuantity;

verus! {

/// What the store held for the item of one requested line.
pub enum StockRead {
    /// No record answers to the identifier.
    Missing,
    /// The item exists but keeps no stock count (exam fees, plans).
    Untracked,
    /// The item's current stock.
    Available(u64),
}

/// Take `amount` units of `id`, provided at least that many are in stock.
pub struct StockDecrement {
    pub id: String,
    pub amount: u32,
}

/// Why a reservation was refused; nothing is decremented in either case.
#[derive(Debug)]
pub enum ReservationError {
    NotFound { id: String },
    InsufficientStock { id: String, available: u64, requested: u128 },
}

impl View for StockDecrement {
    type V = (Seq<char>, u32);

    open spec fn view(&self) -> (Seq<char>, u32) {
        (self.id@, self.amount)
    }
}

/// Units of `id` asked for by the first `n` lines.
pub open spec fn requested_in(reqs: Seq<ProductWithQuantity>, id: Seq<char>, n: int) -> int
    decreases n,
{
    if n <= 0 {
        0
    } else {
        requested_in(reqs, id, n - 1) + if reqs[n - 1].id@ == id {
            reqs[n - 1].qnt as int
        } else {
            0
        }
    }
}

/// Line `i` can be served: it asks for nothing, or its item exists and
/// either keeps no count or has stock for everything the lines up to and
/// including `i` ask of it.
pub open spec fn line_ok(reqs: Seq<ProductWithQuantity>, reads: Seq<StockRead>, i: int) -> bool {
    reqs[i].qnt == 0 || match reads[i] {
        StockRead::Missing => false,
        StockRead::Untracked => true,
        StockRead::Available(a) => requested_in(reqs, reqs[i].id@, i + 1) <= a,
    }
}

/// Every line can be served.
pub open spec fn all_lines_ok(reqs: Seq<ProductWithQuantity>, reads: Seq<StockRead>) -> bool {
    forall|i: int| 0 <= i < reqs.len() ==> line_ok(reqs, reads, i)
}

/// `e` is the refusal that line `i` earns.
pub open spec fn reports(
    e: ReservationError,
    reqs: Seq<ProductWithQuantity>,
    reads: Seq<StockRead>,
    i: int,
) -> bool {
    match e {
        ReservationError::NotFound { id } => reads[i] is Missing && id@ == reqs[i].id@,
        ReservationError::InsufficientStock { id, available, requested } => {
            &&& reads[i] == StockRead::Available(available)
            &&& id@ == reqs[i].id@
            &&& requested == requested_in(reqs, reqs[i].id@, i + 1)
        },
    }
}

/// The decrements owed for the first `n` lines: one per line that asks for
/// something of an item with a stock count, in line order.
pub open spec fn planned(reqs: Seq<ProductWithQuantity>, reads: Seq<StockRead>, n: int) -> Seq<
    (Seq<char>, u32),
>
    decreases n,
{
    if n <= 0 {
        seq![]
    } else if reqs[n - 1].qnt > 0 && reads[n - 1] is Available {
        planned(reqs, reads, n - 1).push((reqs[n - 1].id@, reqs[n - 1].qnt))
    } else {
        planned(reqs, reads, n - 1)
    }
}

/// Units of `id` taken by a batch of decrements.
pub open spec fn decremented(decs: Seq<(Seq<char>, u32)>, id: Seq<char>) -> int
    decreases decs.len(),
{
    if decs.len() == 0 {
        0
    } else {
        decremented(decs.drop_last(), id) + if decs.last().0 == id {
            decs.last().1 as int
        } else {
            0
        }
    }
}

proof fn lemma_requested_bound(reqs: Seq<ProductWithQuantity>, id: Seq<char>, n: int)
    requires
        0 <= n <= reqs.len(),
    ensures
        0 <= requested_in(reqs, id, n) <= n * 0xffff_ffff,
    decreases n,
{
    if n > 0 {
        lemma_requested_bound(reqs, id, n - 1);
    }
}

/// Sums what the first `i + 1` lines ask of the item of line `i`.
fn requested_so_far(reqs: &Vec<ProductWithQuantity>, i: usize) -> (r: u128)
    requires
        i < reqs@.len(),
    ensures
        r == requested_in(reqs@, reqs@[i as int].id@, i + 1),
{
    let mut acc: u128 = 0;
    let mut j: usize = 0;
    while j < i
        invariant
            i < reqs@.len(),
            j <= i,
            acc == requested_in(reqs@, reqs@[i as int].id@, j as int),
            acc <= j * 0xffff_ffff,
        decreases i + 1 - j,
    {
        if reqs[j].id == reqs[i].id {
            acc = acc + reqs[j].qnt as u128;
        }
        j = j + 1;
    }
    acc + reqs[i].qnt as u128
}

/// Checks every requested line against the stock read for it and, only if
/// all can be served, returns the batch of decrements to apply. Lines are
/// checked in order and the first that cannot be served is reported.
pub fn plan_reservation(reqs: &Vec<ProductWithQuantity>, reads: &Vec<StockRead>) -> (r: Result<
    Vec<StockDecrement>,
    ReservationError,
>)
    requires
        reads@.len() == reqs@.len(),
    ensures
        r is Ok <==> all_lines_ok(reqs@, reads@),
        r matches Ok(decs) ==> decs@.map_values(|d: StockDecrement| d@) == planned(
            reqs@,
            reads@,
            reqs@.len() as int,
        ),
        r matches Err(e) ==> exists|i: int|
            0 <= i < reqs@.len() && !line_ok(reqs@, reads@, i) && (forall|j: int|
                0 <= j < i ==> line_ok(reqs@, reads@, j)) && reports(e, reqs@, reads@, i),
{
    let n = reqs.len();
    let mut i: usize = 0;
    while i < n
        invariant
            n == reqs@.len(),
            reads@.len() == n,
            i <= n,
            forall|j: int| 0 <= j < i ==> line_ok(reqs@, reads@, j),
        decreases n - i,
    {
        if reqs[i].qnt > 0 {
            match &reads[i] {
                StockRead::Missing => {
                    let e = ReservationError::NotFound { id: reqs[i].id.clone() };
                    proof {
                        assert(!line_ok(reqs@, reads@, i as int));
                        assert(reports(e, reqs@, reads@, i as int));
                    }
                    return Err(e);
                },
                StockRead::Untracked => {},
                StockRead::Available(a) => {
                    let wanted = requested_so_far(reqs, i);
                    if wanted > *a as u128 {
                        let e = ReservationError::InsufficientStock {
                            id: reqs[i].id.clone(),
                            available: *a,
                            requested: wanted,
                        };
                        proof {
                            assert(!line_ok(reqs@, reads@, i as int));
                            assert(reports(e, reqs@, reads@, i as int));
                        }
                        return Err(e);
                    }
                },
            }
        }
        i = i + 1;
    }
    let mut decs: Vec<StockDecrement> = Vec::new();
    let mut k: usize = 0;
    while k < n
        invariant
            n == reqs@.len(),
            reads@.len() == n,
            k <= n,
            decs@.map_values(|d: StockDecrement| d@) == planned(reqs@, reads@, k as int),
        decreases n - k,
    {
        if reqs[k].qnt > 0 {
            if let StockRead::Available(_) = &reads[k] {
                decs.push(StockDecrement { id: reqs[k].id.clone(), amount: reqs[k].qnt });
            }
        }
        proof {
            assert(decs@.map_values(|d: StockDecrement| d@) =~= planned(reqs@, reads@, k + 1));
        }
        k = k + 1;
    }
    Ok(decs)
}

/// Applies a batch as one atomic step of the store: each decrement in turn
/// must find its item with enough stock, else the whole batch is refused
/// (`None`) and the stock stays as it was.
pub open spec fn commit(stock: Map<Seq<char>, int>, decs: Seq<(Seq<char>, u32)>) -> Option<
    Map<Seq<char>, int>,
>
    decreases decs.len(),
{
    if decs.len() == 0 {
        Some(stock)
    } else {
        match commit(stock, decs.drop_last()) {
            None => None,
            Some(s) => {
                let (id, amount) = decs.last();
                if s.contains_key(id) && s[id] >= amount {
                    Some(s.insert(id, s[id] - amount))
                } else {
                    None
                }
            },
        }
    }
}

/// The stock after the store has taken the batches one after the other,
/// whatever order concurrent callers reached it in.
pub open spec fn run_batches(stock: Map<Seq<char>, int>, batches: Seq<Seq<(Seq<char>, u32)>>) -> Map<
    Seq<char>,
    int,
>
    decreases batches.len(),
{
    if batches.len() == 0 {
        stock
    } else {
        let before = run_batches(stock, batches.drop_last());
        match commit(before, batches.last()) {
            Some(after) => after,
            None => before,
        }
    }
}

/// Units of `id` handed out by the batches that the store accepted.
pub open spec fn granted(
    stock: Map<Seq<char>, int>,
    batches: Seq<Seq<(Seq<char>, u32)>>,
    id: Seq<char>,
) -> int
    decreases batches.len(),
{
    if batches.len() == 0 {
        0
    } else {
        let before = run_batches(stock, batches.drop_last());
        granted(stock, batches.drop_last(), id) + match commit(before, batches.last()) {
            Some(_) => decremented(batches.last(), id),
            None => 0,
        }
    }
}

proof fn lemma_planned_within_requests(
    reqs: Seq<ProductWithQuantity>,
    reads: Seq<StockRead>,
    id: Seq<char>,
    n: int,
)
    requires
        0 <= n <= reqs.len(),
        reads.len() == reqs.len(),
    ensures
        0 <= decremented(planned(reqs, reads, n), id) <= requested_in(reqs, id, n),
        (forall|i: int|
            0 <= i < n && reqs[i].id@ == id && reqs[i].qnt > 0 ==> reads[i] is Available)
            ==> decremented(planned(reqs, reads, n), id) == requested_in(reqs, id, n),
    decreases n,
{
    if n > 0 {
        lemma_planned_within_requests(reqs, reads, id, n - 1);
        let prev = planned(reqs, reads, n - 1);
        if reqs[n - 1].qnt > 0 && reads[n - 1] is Available {
            assert(planned(reqs, reads, n).drop_last() =~= prev);
        }
    }
}

/// A batch that is accepted takes from each item exactly what the batch
/// names for it, and never takes an item below zero.
proof fn lemma_commit_effect(stock: Map<Seq<char>, int>, decs: Seq<(Seq<char>, u32)>)
    ensures
        commit(stock, decs) matches Some(f) ==> {
            &&& f.dom() == stock.dom()
            &&& forall|id: Seq<char>|
                #[trigger] f.contains_key(id) ==> f[id] == stock[id] - decremented(decs, id)
            &&& forall|id: Seq<char>|
                #[trigger] f.contains_key(id) && stock[id] >= 0 ==> f[id] >= 0
        },
    decreases decs.len(),
{
    if decs.len() > 0 {
        lemma_commit_effect(stock, decs.drop_last());
        if let Some(s) = commit(stock, decs.drop_last()) {
            let (id, amount) = decs.last();
            if s.contains_key(id) && s[id] >= amount {
                let f = s.insert(id, s[id] - amount);
                assert(f.dom() =~= stock.dom());
            }
        }
    }
}

/// All or nothing: when every line passes the check against stock that was
/// read from `stock`, the store accepts the planned batch, and afterwards
/// each item has lost exactly the units that the lines ask of it; when some
/// line fails, no batch exists and nothing changes.
pub proof fn lemma_reservation_all_or_nothing(
    reqs: Seq<ProductWithQuantity>,
    reads: Seq<StockRead>,
    stock: Map<Seq<char>, int>,
)
    requires
        reads.len() == reqs.len(),
        all_lines_ok(reqs, reads),
        forall|i: int|
            0 <= i < reqs.len() ==> (#[trigger] reads[i] matches StockRead::Available(a) ==> (
            stock.contains_key(reqs[i].id@) && stock[reqs[i].id@] == a)),
    ensures
        commit(stock, planned(reqs, reads, reqs.len() as int)) matches Some(f) && f.dom()
            == stock.dom() && forall|id: Seq<char>|
            #[trigger] f.contains_key(id) && (forall|i: int|
                0 <= i < reqs.len() && reqs[i].id@ == id && reqs[i].qnt > 0
                    ==> reads[i] is Available) ==> f[id] == stock[id] - requested_in(
                reqs,
                id,
                reqs.len() as int,
            ),
{
    lemma_plan_commits(reqs, reads, stock, reqs.len() as int);
    let f = commit(stock, planned(reqs, reads, reqs.len() as int))->Some_0;
    assert forall|id: Seq<char>|
        #[trigger] f.contains_key(id) && (forall|i: int|
            0 <= i < reqs.len() && reqs[i].id@ == id && reqs[i].qnt > 0
                ==> reads[i] is Available) implies f[id] == stock[id] - requested_in(
        reqs,
        id,
        reqs.len() as int,
    ) by {
        lemma_planned_within_requests(reqs, reads, id, reqs.len() as int);
    }
}

proof fn lemma_plan_commits(
    reqs: Seq<ProductWithQuantity>,
    reads: Seq<StockRead>,
    stock: Map<Seq<char>, int>,
    n: int,
)
    requires
        0 <= n <= reqs.len(),
        reads.len() == reqs.len(),
        all_lines_ok(reqs, reads),
        forall|i: int|
            0 <= i < reqs.len() ==> (#[trigger] reads[i] matches StockRead::Available(a) ==> (
            stock.contains_key(reqs[i].id@) && stock[reqs[i].id@] == a)),
    ensures
        commit(stock, planned(reqs, reads, n)) matches Some(f) && f.dom() == stock.dom()
            && forall|id: Seq<char>|
            #[trigger] f.contains_key(id) ==> f[id] == stock[id] - decremented(
                planned(reqs, reads, n),
                id,
            ),
    decreases n,
{
    lemma_commit_effect(stock, planned(reqs, reads, n));
    if n > 0 {
        lemma_plan_commits(reqs, reads, stock, n - 1);
        let prev = planned(reqs, reads, n - 1);
        let i = n - 1;
        if reqs[i].qnt > 0 && reads[i] is Available {
            let id = reqs[i].id@;
            assert(planned(reqs, reads, n).drop_last() =~= prev);
            lemma_planned_within_requests(reqs, reads, id, n - 1);
            assert(line_ok(reqs, reads, i));
            let f = commit(stock, prev)->Some_0;
            assert(f.contains_key(id));
        }
    }
}

/// Never oversell: however the store serialises concurrent batches, no
/// item's stock goes below zero, and the units it accepted for an item
/// never exceed the stock the item started with.
pub proof fn lemma_batches_never_oversell(
    stock: Map<Seq<char>, int>,
    batches: Seq<Seq<(Seq<char>, u32)>>,
)
    requires
        forall|id: Seq<char>| #[trigger] stock.contains_key(id) ==> stock[id] >= 0,
    ensures
        run_batches(stock, batches).dom() == stock.dom(),
        forall|id: Seq<char>| #[trigger]
            stock.contains_key(id) ==> run_batches(stock, batches)[id] >= 0 && run_batches(
                stock,
                batches,
            )[id] == stock[id] - granted(stock, batches, id) && granted(stock, batches, id)
                <= stock[id],
    decreases batches.len(),
{
    if batches.len() > 0 {
        lemma_batches_never_oversell(stock, batches.drop_last());
        let before = run_batches(stock, batches.drop_last());
        lemma_commit_effect(before, batches.last());
    }
}

} // verus!
