//! The points ledger: each trader's running XLM delta, and the list of every
//! trader ever credited. Storage holds, per trader, the points recorded so far
//! (nothing before the first credit) and, once, the list of traders; the
//! functions here take what storage holds and say what is to be written back.
use vstd::prelude::*;

verus! {

/// The points contract.
pub struct Hodlers;

/// Why a credit was refused.
#[derive(Debug, Clone, Copy, PartialEq, Eq, Structural)]
pub enum HodlersError {
    /// A non-negative delta would take the total above `i128::MAX`.
    Overflow,
    /// A negative delta would take the total below `i128::MIN`.
    Underflow,
}

/// The outcome of an accepted credit: the new total, to be stored for the
/// trader, and whether the trader is new, to be appended to the list.
#[derive(Debug, Clone, Copy, PartialEq, Eq, Structural)]
pub struct PointsCredit {
    pub next: i128,
    pub first_time: bool,
}

/// A trader and their current total.
#[derive(Debug)]
pub struct TraderPoints {
    pub trader: String,
    pub points: i128,
}

/// The total of a trader whose stored record is `stored`: zero before the
/// first credit.
pub open spec fn points_spec(stored: Option<i128>) -> i128 {
    match stored {
        Some(p) => p,
        None => 0,
    }
}

/// The outcome of crediting `delta` to a trader whose stored record is
/// `stored`.
pub open spec fn credit_spec(stored: Option<i128>, delta: i128) -> Result<PointsCredit, HodlersError> {
    let sum = points_spec(stored) + delta;
    if sum > i128::MAX {
        Err(HodlersError::Overflow)
    } else if sum < i128::MIN {
        Err(HodlersError::Underflow)
    } else {
        Ok(PointsCredit { next: sum as i128, first_time: stored is None })
    }
}

impl Hodlers {
    /// Credits `delta` (negative to debit) to a trader whose stored record is
    /// `stored`, refusing a total that `i128` cannot hold.
    pub fn add_points(stored: Option<i128>, delta: i128) -> (r: Result<PointsCredit, HodlersError>)
        ensures
            r == credit_spec(stored, delta),
            r matches Ok(c) ==> c.next == points_spec(stored) + delta,
            r matches Err(e) ==> (e == HodlersError::Overflow <==> delta >= 0),
            r is Ok <==> i128::MIN <= points_spec(stored) + delta <= i128::MAX,
    {
        let first_time = stored.is_none();
        let current = Hodlers::points_of(stored);
        match current.checked_add(delta) {
            Some(next) => Ok(PointsCredit { next, first_time }),
            None => {
                if delta >= 0 {
                    Err(HodlersError::Overflow)
                } else {
                    Err(HodlersError::Underflow)
                }
            },
        }
    }

    /// The current total of a trader whose stored record is `stored`.
    pub fn points_of(stored: Option<i128>) -> (r: i128)
        ensures
            r == points_spec(stored),
    {
        match stored {
            Some(p) => p,
            None => 0,
        }
    }

    /// Every listed trader, in list order, with the total that their stored
    /// record gives; `stored[i]` is the record of `traders[i]`.
    pub fn all_points(traders: &Vec<String>, stored: &Vec<Option<i128>>) -> (r: Vec<TraderPoints>)
        requires
            traders.len() == stored.len(),
        ensures
            r.len() == traders.len(),
            forall|i: int|
                #![trigger r[i]]
                0 <= i < r.len() ==> r[i].trader == traders[i] && r[i].points == points_spec(stored[i]),
    {
        let mut out: Vec<TraderPoints> = Vec::new();
        let mut i: usize = 0;
        while i < traders.len()
            invariant
                traders.len() == stored.len(),
                i <= traders.len(),
                out.len() == i,
                forall|j: int|
                    #![trigger out[j]]
                    0 <= j < i ==> out[j].trader == traders[j] && out[j].points == points_spec(stored[j]),
            decreases traders.len() - i,
        {
            let trader = traders[i].clone();
            let points = Hodlers::points_of(stored[i]);
            out.push(TraderPoints { trader, points });
            i = i + 1;
        }
        out
    }
}


/// A credit is refused only when the new total would not fit in an `i128`:
/// it is accepted exactly when the current total (zero before the first
/// credit) plus `delta` lies in the `i128` range, the new total is that sum,
/// and the trader is new exactly when nothing was stored for it. A refusal is
/// `Overflow` above the range and `Underflow` below it.
pub proof fn lemma_credit_refused_only_out_of_range(stored: Option<i128>, delta: i128)
    ensures
        ({
            let current: int = match stored {
                Some(p) => p as int,
                None => 0,
            };
            &&& (credit_spec(stored, delta) is Ok) <==> (i128::MIN <= current + delta <= i128::MAX)
            &&& credit_spec(stored, delta) matches Ok(c) ==> c.next as int == current + delta
                && c.first_time == (stored is None)
            &&& credit_spec(stored, delta) == Err::<PointsCredit, HodlersError>(HodlersError::Overflow) <==> current
                + delta > i128::MAX
            &&& credit_spec(stored, delta) == Err::<PointsCredit, HodlersError>(HodlersError::Underflow) <==> current
                + delta < i128::MIN
        }),
{
}

/// The ledger's storage as a whole: each credited trader's total, and the
/// list of traders in the order of their first credit.
pub struct HodlersLedger {
    pub points: Map<Seq<char>, i128>,
    pub traders: Seq<Seq<char>>,
}

impl HodlersLedger {
    /// Storage before any credit.
    pub open spec fn empty() -> HodlersLedger {
        HodlersLedger { points: Map::empty(), traders: Seq::empty() }
    }

    /// The record stored for `trader`.
    pub open spec fn stored(self, trader: Seq<char>) -> Option<i128> {
        if self.points.dom().contains(trader) {
            Some(self.points[trader])
        } else {
            None
        }
    }

    /// The list holds each trader once, and exactly the traders with a record.
    pub open spec fn wf(self) -> bool {
        &&& self.traders.no_duplicates()
        &&& forall|t: Seq<char>| #[trigger] self.points.dom().contains(t) <==> self.traders.contains(t)
    }

    /// Storage after an accepted credit to `trader` has been written back:
    /// the new total is stored, and a new trader is appended to the list.
    pub open spec fn credited(self, trader: Seq<char>, c: PointsCredit) -> HodlersLedger {
        HodlersLedger {
            points: self.points.insert(trader, c.next),
            traders: if c.first_time {
                self.traders.push(trader)
            } else {
                self.traders
            },
        }
    }
}

/// Every trader starts at zero points, and empty storage is well formed.
pub proof fn lemma_starts_at_zero(trader: Seq<char>)
    ensures
        HodlersLedger::empty().wf(),
        points_spec(HodlersLedger::empty().stored(trader)) == 0,
{
}

/// Reading a trader's points after a credit of `delta` gives the old total
/// plus `delta`; the totals of all other traders are unchanged.
pub proof fn lemma_read_after_credit(l: HodlersLedger, trader: Seq<char>, other: Seq<char>, delta: i128)
    requires
        credit_spec(l.stored(trader), delta) is Ok,
        other != trader,
    ensures
        ({
            let after = l.credited(trader, credit_spec(l.stored(trader), delta)->Ok_0);
            &&& points_spec(after.stored(trader)) == points_spec(l.stored(trader)) + delta
            &&& after.stored(other) == l.stored(other)
        }),
{
}

/// A credit keeps storage well formed: a trader enters the list on the first
/// credit only, so the list never holds a trader twice and always holds
/// exactly the traders that have a total.
pub proof fn lemma_credit_keeps_wf(l: HodlersLedger, trader: Seq<char>, delta: i128)
    requires
        l.wf(),
        credit_spec(l.stored(trader), delta) is Ok,
    ensures
        l.credited(trader, credit_spec(l.stored(trader), delta)->Ok_0).wf(),
        l.credited(trader, credit_spec(l.stored(trader), delta)->Ok_0).traders.contains(trader),
{
    let c = credit_spec(l.stored(trader), delta)->Ok_0;
    let after = l.credited(trader, c);
    if c.first_time {
        assert(!l.traders.contains(trader));
        assert(after.traders.no_duplicates()) by {
            assert forall|i: int, j: int|
                0 <= i < after.traders.len() && 0 <= j < after.traders.len() && i != j implies
                after.traders[i] != after.traders[j] by {
                if i == l.traders.len() as int {
                    assert(l.traders[j] == after.traders[j]);
                } else if j == l.traders.len() as int {
                    assert(l.traders[i] == after.traders[i]);
                }
            }
        }
        assert(after.traders[l.traders.len() as int] == trader);
        assert forall|t: Seq<char>| #[trigger] after.points.dom().contains(t) <==> after.traders.contains(t) by {
            if after.traders.contains(t) && t != trader {
                let k = choose|k: int| 0 <= k < after.traders.len() && after.traders[k] == t;
                assert(l.traders[k] == t);
            }
            if l.traders.contains(t) {
                let k = choose|k: int| 0 <= k < l.traders.len() && l.traders[k] == t;
                assert(after.traders[k] == t);
            }
        }
    }
}


/// Storage after a call `add_points(trader, delta)`: an accepted credit is
/// written back, a refused one changes nothing.
pub open spec fn after_call(l: HodlersLedger, trader: Seq<char>, delta: i128) -> HodlersLedger {
    match credit_spec(l.stored(trader), delta) {
        Ok(c) => l.credited(trader, c),
        Err(_) => l,
    }
}

/// Storage after the calls `add_points(calls[i].0, calls[i].1)`, in order,
/// on a fresh contract.
pub open spec fn ledger_after(calls: Seq<(Seq<char>, i128)>) -> HodlersLedger
    decreases calls.len(),
{
    if calls.len() == 0 {
        HodlersLedger::empty()
    } else {
        after_call(ledger_after(calls.drop_last()), calls.last().0, calls.last().1)
    }
}

/// Whether the last of `calls` was accepted.
pub open spec fn last_accepted(calls: Seq<(Seq<char>, i128)>) -> bool
    recommends
        calls.len() > 0,
{
    credit_spec(ledger_after(calls.drop_last()).stored(calls.last().0), calls.last().1) is Ok
}

/// The sum of the deltas of the accepted calls that credited `trader`.
pub open spec fn credited_total(calls: Seq<(Seq<char>, i128)>, trader: Seq<char>) -> int
    decreases calls.len(),
{
    if calls.len() == 0 {
        0
    } else {
        credited_total(calls.drop_last(), trader) + if calls.last().0 == trader && last_accepted(calls) {
            calls.last().1 as int
        } else {
            0
        }
    }
}

/// The distinct traders with at least one accepted call, in the order of
/// their first accepted call.
pub open spec fn credited_traders(calls: Seq<(Seq<char>, i128)>) -> Seq<Seq<char>>
    decreases calls.len(),
{
    if calls.len() == 0 {
        Seq::empty()
    } else {
        let before = credited_traders(calls.drop_last());
        if last_accepted(calls) && !before.contains(calls.last().0) {
            before.push(calls.last().0)
        } else {
            before
        }
    }
}

/// What `all_points` lists for storage `l`: each listed trader, in list
/// order, with the total that its record gives.
pub open spec fn all_points_spec(l: HodlersLedger) -> Seq<(Seq<char>, int)> {
    l.traders.map_values(|t: Seq<char>| (t, points_spec(l.stored(t)) as int))
}

/// Over any history of `add_points` calls on a fresh contract, a trader's
/// total is the sum of the deltas of its accepted credits (zero for a trader
/// never credited), a trader has a record exactly when it was credited, and
/// the trader list holds exactly the credited traders, each once, in the order
/// of their first accepted credit.
pub proof fn lemma_totals_over_history(calls: Seq<(Seq<char>, i128)>)
    ensures
        ledger_after(calls).wf(),
        ledger_after(calls).traders == credited_traders(calls),
        forall|t: Seq<char>|
            #![trigger ledger_after(calls).stored(t)]
            points_spec(ledger_after(calls).stored(t)) == credited_total(calls, t),
        forall|t: Seq<char>|
            #![trigger ledger_after(calls).stored(t)]
            (ledger_after(calls).stored(t) is Some) <==> credited_traders(calls).contains(t),
    decreases calls.len(),
{
    if calls.len() > 0 {
        let prev = calls.drop_last();
        lemma_totals_over_history(prev);
        let l = ledger_after(prev);
        let (u, d) = calls.last();
        assert(ledger_after(calls) == after_call(l, u, d));
        if credit_spec(l.stored(u), d) is Ok {
            lemma_credit_keeps_wf(l, u, d);
            let c = credit_spec(l.stored(u), d)->Ok_0;
            assert(c.first_time <==> !credited_traders(prev).contains(u)) by {
                assert(l.stored(u) is Some <==> credited_traders(prev).contains(u));
            }
            assert forall|t: Seq<char>|
                #![trigger ledger_after(calls).stored(t)]
                points_spec(ledger_after(calls).stored(t)) == credited_total(calls, t) by {
                assert(l.stored(t) == ledger_after(prev).stored(t));
                if t != u {
                    lemma_read_after_credit(l, u, t, d);
                }
            }
            assert forall|t: Seq<char>|
                #![trigger ledger_after(calls).stored(t)]
                (ledger_after(calls).stored(t) is Some) <==> credited_traders(calls).contains(t) by {
                assert(l.stored(t) == ledger_after(prev).stored(t));
                if c.first_time {
                    assert(credited_traders(calls) == credited_traders(prev).push(u));
                    if credited_traders(calls).contains(t) && t != u {
                        let k = choose|k: int| 0 <= k < credited_traders(calls).len() && credited_traders(calls)[k] == t;
                        assert(credited_traders(prev)[k] == t);
                    }
                    if credited_traders(prev).contains(t) {
                        let k = choose|k: int| 0 <= k < credited_traders(prev).len() && credited_traders(prev)[k] == t;
                        assert(credited_traders(calls)[k] == t);
                    }
                    assert(credited_traders(calls)[credited_traders(prev).len() as int] == u);
                }
            }
        } else {
            assert forall|t: Seq<char>|
                #![trigger ledger_after(calls).stored(t)]
                points_spec(ledger_after(calls).stored(t)) == credited_total(calls, t) by {
                assert(l.stored(t) == ledger_after(prev).stored(t));
            }
            assert forall|t: Seq<char>|
                #![trigger ledger_after(calls).stored(t)]
                (ledger_after(calls).stored(t) is Some) <==> credited_traders(calls).contains(t) by {
                assert(l.stored(t) == ledger_after(prev).stored(t));
            }
        }
    }
}

/// Over any history of `add_points` calls on a fresh contract, `all_points`
/// lists every credited trader exactly once, in the order of its first
/// accepted credit, with the sum of its accepted deltas; a fresh contract
/// lists nobody.
pub proof fn lemma_all_points_over_history(calls: Seq<(Seq<char>, i128)>)
    ensures
        all_points_spec(ledger_after(calls)).len() == credited_traders(calls).len(),
        credited_traders(calls).no_duplicates(),
        forall|i: int|
            0 <= i < credited_traders(calls).len() ==> #[trigger] all_points_spec(ledger_after(calls))[i] == (
                credited_traders(calls)[i],
                credited_total(calls, credited_traders(calls)[i]),
            ),
        calls.len() == 0 ==> all_points_spec(ledger_after(calls)).len() == 0,
{
    lemma_totals_over_history(calls);
    let l = ledger_after(calls);
    assert forall|i: int|
        0 <= i < credited_traders(calls).len() implies #[trigger] all_points_spec(l)[i] == (
            credited_traders(calls)[i],
            credited_total(calls, credited_traders(calls)[i]),
        ) by {
        let t = credited_traders(calls)[i];
        assert(points_spec(l.stored(t)) == credited_total(calls, t));
    }
}

} // verus!
