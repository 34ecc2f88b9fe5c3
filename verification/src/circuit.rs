//! What the circuit does with one Phoenix swap event: the key under which the
//! swap's partial state is kept, what to emit once the swap is complete, and
//! how an attempt to commit the state with compare-and-swap ends.
use crate::abi::{abi_of_payload, HodlersPayload};
use crate::phoenix::{
    apply, apply_spec, field_of, finalize_spec, lemma_apply_commutes, negates_min, try_finalize, FieldUpdate, SwapState,
    XLM_SAC_CONTRACT_ID,
};
use vstd::prelude::*;

verus! {

/// The decimal digit character for `d < 10`.
pub open spec fn digit_char(d: nat) -> char {
    (48 + d) as char
}

/// The decimal numeral of `n`, without leading zeros.
pub open spec fn decimal(n: nat) -> Seq<char>
    decreases n,
{
    if n < 10 {
        seq![digit_char(n)]
    } else {
        decimal(n / 10).push(digit_char(n % 10))
    }
}

/// The one-character text of the decimal digit `d`.
fn digit_text(d: u32) -> (r: &'static str)
    requires
        d < 10,
    ensures
        r@ == seq![digit_char(d as nat)],
{
    proof {
        reveal_strlit("0");
        reveal_strlit("1");
        reveal_strlit("2");
        reveal_strlit("3");
        reveal_strlit("4");
        reveal_strlit("5");
        reveal_strlit("6");
        reveal_strlit("7");
        reveal_strlit("8");
        reveal_strlit("9");
    }
    match d {
        0 => "0",
        1 => "1",
        2 => "2",
        3 => "3",
        4 => "4",
        5 => "5",
        6 => "6",
        7 => "7",
        8 => "8",
        _ => "9",
    }
}

/// The decimal numeral of `n`, as `Display` writes it.
fn u32_to_decimal(n: u32) -> (r: String)
    ensures
        r@ == decimal(n as nat),
    decreases n,
{
    if n < 10 {
        String::from_str(digit_text(n))
    } else {
        let mut r = u32_to_decimal(n / 10);
        r.append(digit_text(n % 10));
        proof {
            assert(decimal(n as nat) == decimal((n / 10) as nat).push(digit_char((n % 10) as nat)));
        }
        r
    }
}

/// The key of a swap's state: its transaction hash and the index of the
/// operation within the transaction (0 when the event has none), joined by
/// a colon.
pub open spec fn swap_key_spec(transaction_hash: Seq<char>, operation_index: Option<u32>) -> Seq<char> {
    let index: nat = match operation_index {
        Some(i) => i as nat,
        None => 0,
    };
    transaction_hash + ":"@ + decimal(index)
}

/// The key under which the state of the event's swap is kept.
pub fn swap_key(transaction_hash: &str, operation_index: Option<u32>) -> (r: String)
    ensures
        r@ == swap_key_spec(transaction_hash@, operation_index),
{
    let index: u32 = match operation_index {
        Some(i) => i,
        None => 0,
    };
    let mut key = String::from_str(transaction_hash);
    key.append(":");
    let digits = u32_to_decimal(index);
    key.append(digits.as_str());
    key
}

/// The payload to emit for a swap whose events have all been recorded in
/// `state`: the ABI encoding of its trader and XLM delta, or nothing while the
/// swap is incomplete or involves no XLM.
pub fn completed_payload(state: &SwapState) -> (r: Option<Vec<u8>>)
    requires
        !negates_min(*state),
    ensures
        match finalize_spec(*state) {
            None => r is None,
            Some((trader, delta)) => r matches Some(b) && b@ == abi_of_payload(trader@, delta),
        },
{
    match try_finalize(state) {
        Some((trader, delta)) => {
            let payload = HodlersPayload { trader, delta };
            Some(payload.abi_encode())
        },
        None => None,
    }
}

/// The state after recording `update`, and the payload emitted then: a
/// finalized swap is left as it is and emits nothing; otherwise the update is
/// applied, and a swap that is now complete emits its payload and becomes a
/// tombstone.
pub open spec fn record_spec(state: SwapState, update: FieldUpdate) -> (SwapState, Option<Seq<u8>>) {
    if state.finalized {
        (state, None)
    } else {
        let next = apply_spec(state, update);
        match finalize_spec(next) {
            Some((trader, delta)) => (
                SwapState { finalized: true, ..next },
                Some(abi_of_payload(trader@, delta)),
            ),
            None => (next, None),
        }
    }
}

/// Records one event of a swap in its stored state and returns the payload
/// to emit, if the swap has just become complete. This is the change that the
/// accumulator commits with compare-and-swap.
pub fn record_event(state: &mut SwapState, update: FieldUpdate) -> (r: Option<Vec<u8>>)
    requires
        !old(state).finalized ==> !negates_min(apply_spec(*old(state), update)),
    ensures
        *final(state) == record_spec(*old(state), update).0,
        r matches Some(b) ==> record_spec(*old(state), update).1 == Some(b@),
        r is None <==> record_spec(*old(state), update).1 is None,
{
    if state.finalized {
        return None;
    }
    apply(state, update);
    let payload = completed_payload(state);
    if payload.is_some() {
        state.finalized = true;
    }
    payload
}

/// Whether recording `update` would negate `i128::MIN` when the swap is
/// finalized.
pub fn event_overflows(state: &SwapState, update: &FieldUpdate) -> (r: bool)
    ensures
        r == (!state.finalized && negates_min(apply_spec(*state, *update))),
{
    if state.finalized {
        return false;
    }
    let sender_set = match update {
        FieldUpdate::Sender(_) => true,
        _ => state.sender.is_some(),
    };
    let sell = match update {
        FieldUpdate::SellToken(s) => Some(s),
        _ => state.sell_token.as_ref(),
    };
    let buy = match update {
        FieldUpdate::BuyToken(s) => Some(s),
        _ => state.buy_token.as_ref(),
    };
    let offer = match update {
        FieldUpdate::OfferAmount(n) => Some(*n),
        _ => state.offer_amount,
    };
    match (sell, buy, offer) {
        (Some(sell), Some(buy), Some(amount)) => {
            let xlm = String::from_str(XLM_SAC_CONTRACT_ID);
            sender_set && !(*buy == xlm) && *sell == xlm && amount == i128::MIN
        },
        _ => false,
    }
}

/// Emission does not depend on which event completes a swap: whenever the
/// update makes a live swap complete, recording it emits the ABI payload of
/// the finalized trader and delta and leaves a tombstone with the updated
/// fields; while the swap stays incomplete nothing is emitted and the update
/// is simply applied; a tombstone ignores every update.
pub proof fn lemma_record_emits_on_completion(state: SwapState, update: FieldUpdate)
    ensures
        !state.finalized ==> match finalize_spec(apply_spec(state, update)) {
            Some((t, d)) => {
                &&& record_spec(state, update).1 == Some(abi_of_payload(t@, d))
                &&& record_spec(state, update).0.finalized
                &&& record_spec(state, update).0.sender == apply_spec(state, update).sender
                &&& record_spec(state, update).0.sell_token == apply_spec(state, update).sell_token
                &&& record_spec(state, update).0.buy_token == apply_spec(state, update).buy_token
                &&& record_spec(state, update).0.offer_amount == apply_spec(state, update).offer_amount
                &&& record_spec(state, update).0.return_amount == apply_spec(state, update).return_amount
            },
            None => record_spec(state, update) == (apply_spec(state, update), None::<Seq<u8>>),
        },
        state.finalized ==> record_spec(state, update) == (state, None::<Seq<u8>>),
{
}

/// The payloads emitted while recording `updates` in order, starting from
/// `state`.
pub open spec fn emitted(state: SwapState, updates: Seq<FieldUpdate>) -> Seq<Seq<u8>>
    decreases updates.len(),
{
    if updates.len() == 0 {
        Seq::empty()
    } else {
        let (next, out) = record_spec(state, updates[0]);
        let rest = emitted(next, updates.drop_first());
        match out {
            Some(b) => seq![b] + rest,
            None => rest,
        }
    }
}

/// A swap is emitted at most once, however many of its events arrive, in
/// whatever order and however often; once emitted, the tombstone emits
/// nothing more.
pub proof fn lemma_emitted_at_most_once(state: SwapState, updates: Seq<FieldUpdate>)
    ensures
        emitted(state, updates).len() <= 1,
        state.finalized ==> emitted(state, updates).len() == 0,
    decreases updates.len(),
{
    if updates.len() > 0 {
        let (next, out) = record_spec(state, updates[0]);
        lemma_emitted_at_most_once(next, updates.drop_first());
        if out is Some {
            assert(next.finalized);
        }
    }
}

/// How one compare-and-swap of a swap's state ended.
#[derive(Debug, Clone, Copy, PartialEq, Eq, Structural)]
pub enum CasReply {
    /// The new state was committed.
    Swapped,
    /// Another invocation committed first; the stored state has changed.
    Conflict,
    /// The store failed.
    StoreFailed,
}

/// What to do after a compare-and-swap.
#[derive(Debug, Clone, Copy, PartialEq, Eq, Structural)]
pub enum CasStep {
    /// Return the result of this attempt.
    Finish,
    /// Read the stored state again and apply the change to it afresh.
    Retry,
    /// Give up with the store's error.
    Fail,
}

/// After a compare-and-swap: a committed attempt finishes, a conflict is
/// retried on the state now stored, so that no concurrent update is lost,
/// and a store error ends the update.
pub fn after_swap(reply: CasReply) -> (r: CasStep)
    ensures
        reply == CasReply::Swapped <==> r == CasStep::Finish,
        reply == CasReply::Conflict <==> r == CasStep::Retry,
        reply == CasReply::StoreFailed <==> r == CasStep::Fail,
{
    match reply {
        CasReply::Swapped => CasStep::Finish,
        CasReply::Conflict => CasStep::Retry,
        CasReply::StoreFailed => CasStep::Fail,
    }
}


/// The state after applying `updates` in order, starting from `state`.
pub open spec fn apply_all(state: SwapState, updates: Seq<FieldUpdate>) -> SwapState
    decreases updates.len(),
{
    if updates.len() == 0 {
        state
    } else {
        apply_all(apply_spec(state, updates[0]), updates.drop_first())
    }
}

/// Whether `update` sets a field that `state` does not hold yet (or none).
pub open spec fn sets_fresh_field(state: SwapState, update: FieldUpdate) -> bool {
    match update {
        FieldUpdate::Sender(_) => state.sender is None,
        FieldUpdate::SellToken(_) => state.sell_token is None,
        FieldUpdate::BuyToken(_) => state.buy_token is None,
        FieldUpdate::OfferAmount(_) => state.offer_amount is None,
        FieldUpdate::ReturnAmount(_) => state.return_amount is None,
        FieldUpdate::Other => true,
    }
}

/// The events of one swap: each sets a different field, none of which the
/// state already holds.
pub open spec fn swap_events(state: SwapState, updates: Seq<FieldUpdate>) -> bool {
    &&& forall|i: int| 0 <= i < updates.len() ==> #[trigger] sets_fresh_field(state, updates[i])
    &&& forall|i: int, j: int|
        0 <= i < j < updates.len() && field_of(updates[i]) != 5 ==> #[trigger] field_of(updates[i]) != #[trigger] field_of(
            updates[j],
        )
}

proof fn lemma_swap_events_rest(state: SwapState, updates: Seq<FieldUpdate>)
    requires
        updates.len() > 0,
        swap_events(state, updates),
    ensures
        swap_events(apply_spec(state, updates[0]), updates.drop_first()),
{
    let rest = updates.drop_first();
    assert forall|i: int| 0 <= i < rest.len() implies #[trigger] sets_fresh_field(apply_spec(state, updates[0]), rest[i]) by {
        assert(rest[i] == updates[i + 1]);
        assert(sets_fresh_field(state, updates[i + 1]));
        if field_of(updates[0]) != 5 {
            assert(field_of(updates[0]) != field_of(updates[i + 1]));
        }
    }
    assert forall|i: int, j: int|
        0 <= i < j < rest.len() && field_of(rest[i]) != 5 implies #[trigger] field_of(rest[i]) != #[trigger] field_of(rest[j]) by {
        assert(rest[i] == updates[i + 1] && rest[j] == updates[j + 1]);
    }
}

/// Once a swap is complete, the remaining events of the swap (which cannot
/// change its sender, its tokens, or the amount its delta is taken from) leave
/// its trader and delta unchanged.
proof fn lemma_complete_is_stable(state: SwapState, updates: Seq<FieldUpdate>)
    requires
        finalize_spec(state) is Some,
        swap_events(state, updates),
    ensures
        finalize_spec(apply_all(state, updates)) == finalize_spec(state),
    decreases updates.len(),
{
    if updates.len() > 0 {
        assert(sets_fresh_field(state, updates[0]));
        lemma_swap_events_rest(state, updates);
        let next = apply_spec(state, updates[0]);
        assert(finalize_spec(next) == finalize_spec(state));
        lemma_complete_is_stable(next, updates.drop_first());
    }
}

/// The events of a swap, recorded in order from a live incomplete state, emit
/// exactly the payload of the trader and delta that all the events together
/// give, once, or nothing if they do not complete the swap. Which event comes
/// last does not matter.
pub proof fn lemma_emits_payload_of_all_events(state: SwapState, updates: Seq<FieldUpdate>)
    requires
        !state.finalized,
        finalize_spec(state) is None,
        swap_events(state, updates),
    ensures
        emitted(state, updates) == match finalize_spec(apply_all(state, updates)) {
            Some((t, d)) => seq![abi_of_payload(t@, d)],
            None => Seq::<Seq<u8>>::empty(),
        },
    decreases updates.len(),
{
    if updates.len() > 0 {
        lemma_swap_events_rest(state, updates);
        let next = apply_spec(state, updates[0]);
        let rest = updates.drop_first();
        match finalize_spec(next) {
            Some((t, d)) => {
                let tomb = record_spec(state, updates[0]).0;
                assert(tomb.finalized);
                lemma_emitted_at_most_once(tomb, rest);
                lemma_complete_is_stable(next, rest);
                assert(emitted(state, updates) =~= seq![abi_of_payload(t@, d)]);
            },
            None => {
                lemma_emits_payload_of_all_events(next, rest);
            },
        }
    }
}

/// After the events of a swap, each field holds the value of the event that
/// sets it, or what it held before if no event does, whatever the order of
/// the events.
pub proof fn lemma_apply_all_fields(state: SwapState, updates: Seq<FieldUpdate>)
    requires
        swap_events(state, updates),
    ensures
        apply_all(state, updates).finalized == state.finalized,
        forall|i: int| 0 <= i < updates.len() && #[trigger] updates[i] is Sender ==>
            apply_all(state, updates).sender == Some(updates[i]->Sender_0),
        forall|i: int| 0 <= i < updates.len() && #[trigger] updates[i] is SellToken ==>
            apply_all(state, updates).sell_token == Some(updates[i]->SellToken_0),
        forall|i: int| 0 <= i < updates.len() && #[trigger] updates[i] is BuyToken ==>
            apply_all(state, updates).buy_token == Some(updates[i]->BuyToken_0),
        forall|i: int| 0 <= i < updates.len() && #[trigger] updates[i] is OfferAmount ==>
            apply_all(state, updates).offer_amount == Some(updates[i]->OfferAmount_0),
        forall|i: int| 0 <= i < updates.len() && #[trigger] updates[i] is ReturnAmount ==>
            apply_all(state, updates).return_amount == Some(updates[i]->ReturnAmount_0),
        (forall|i: int| 0 <= i < updates.len() ==> !(#[trigger] updates[i] is Sender)) ==>
            apply_all(state, updates).sender == state.sender,
        (forall|i: int| 0 <= i < updates.len() ==> !(#[trigger] updates[i] is SellToken)) ==>
            apply_all(state, updates).sell_token == state.sell_token,
        (forall|i: int| 0 <= i < updates.len() ==> !(#[trigger] updates[i] is BuyToken)) ==>
            apply_all(state, updates).buy_token == state.buy_token,
        (forall|i: int| 0 <= i < updates.len() ==> !(#[trigger] updates[i] is OfferAmount)) ==>
            apply_all(state, updates).offer_amount == state.offer_amount,
        (forall|i: int| 0 <= i < updates.len() ==> !(#[trigger] updates[i] is ReturnAmount)) ==>
            apply_all(state, updates).return_amount == state.return_amount,
    decreases updates.len(),
{
    if updates.len() > 0 {
        lemma_swap_events_rest(state, updates);
        let next = apply_spec(state, updates[0]);
        let rest = updates.drop_first();
        lemma_apply_all_fields(next, rest);
        let fin = apply_all(state, updates);
        assert(fin == apply_all(next, rest));
        assert forall|i: int| 0 <= i < updates.len() && #[trigger] updates[i] is Sender implies fin.sender == Some(updates[i]->Sender_0) by {
            if i > 0 {
                assert(rest[i - 1] == updates[i]);
            } else {
                assert forall|j: int| 0 <= j < rest.len() implies !(#[trigger] rest[j] is Sender) by {
                    assert(rest[j] == updates[j + 1]);
                    assert(field_of(updates[0]) != field_of(updates[j + 1]));
                }
            }
        }
        assert forall|i: int| 0 <= i < updates.len() && #[trigger] updates[i] is SellToken implies fin.sell_token == Some(updates[i]->SellToken_0) by {
            if i > 0 {
                assert(rest[i - 1] == updates[i]);
            } else {
                assert forall|j: int| 0 <= j < rest.len() implies !(#[trigger] rest[j] is SellToken) by {
                    assert(rest[j] == updates[j + 1]);
                    assert(field_of(updates[0]) != field_of(updates[j + 1]));
                }
            }
        }
        assert forall|i: int| 0 <= i < updates.len() && #[trigger] updates[i] is BuyToken implies fin.buy_token == Some(updates[i]->BuyToken_0) by {
            if i > 0 {
                assert(rest[i - 1] == updates[i]);
            } else {
                assert forall|j: int| 0 <= j < rest.len() implies !(#[trigger] rest[j] is BuyToken) by {
                    assert(rest[j] == updates[j + 1]);
                    assert(field_of(updates[0]) != field_of(updates[j + 1]));
                }
            }
        }
        assert forall|i: int| 0 <= i < updates.len() && #[trigger] updates[i] is OfferAmount implies fin.offer_amount == Some(updates[i]->OfferAmount_0) by {
            if i > 0 {
                assert(rest[i - 1] == updates[i]);
            } else {
                assert forall|j: int| 0 <= j < rest.len() implies !(#[trigger] rest[j] is OfferAmount) by {
                    assert(rest[j] == updates[j + 1]);
                    assert(field_of(updates[0]) != field_of(updates[j + 1]));
                }
            }
        }
        assert forall|i: int| 0 <= i < updates.len() && #[trigger] updates[i] is ReturnAmount implies fin.return_amount == Some(updates[i]->ReturnAmount_0) by {
            if i > 0 {
                assert(rest[i - 1] == updates[i]);
            } else {
                assert forall|j: int| 0 <= j < rest.len() implies !(#[trigger] rest[j] is ReturnAmount) by {
                    assert(rest[j] == updates[j + 1]);
                    assert(field_of(updates[0]) != field_of(updates[j + 1]));
                }
            }
        }
        if forall|i: int| 0 <= i < updates.len() ==> !(#[trigger] updates[i] is Sender) {
            assert forall|j: int| 0 <= j < rest.len() implies !(#[trigger] rest[j] is Sender) by {
                assert(rest[j] == updates[j + 1]);
            }
            assert(!(updates[0] is Sender));
        }
        if forall|i: int| 0 <= i < updates.len() ==> !(#[trigger] updates[i] is SellToken) {
            assert forall|j: int| 0 <= j < rest.len() implies !(#[trigger] rest[j] is SellToken) by {
                assert(rest[j] == updates[j + 1]);
            }
            assert(!(updates[0] is SellToken));
        }
        if forall|i: int| 0 <= i < updates.len() ==> !(#[trigger] updates[i] is BuyToken) {
            assert forall|j: int| 0 <= j < rest.len() implies !(#[trigger] rest[j] is BuyToken) by {
                assert(rest[j] == updates[j + 1]);
            }
            assert(!(updates[0] is BuyToken));
        }
        if forall|i: int| 0 <= i < updates.len() ==> !(#[trigger] updates[i] is OfferAmount) {
            assert forall|j: int| 0 <= j < rest.len() implies !(#[trigger] rest[j] is OfferAmount) by {
                assert(rest[j] == updates[j + 1]);
            }
            assert(!(updates[0] is OfferAmount));
        }
        if forall|i: int| 0 <= i < updates.len() ==> !(#[trigger] updates[i] is ReturnAmount) {
            assert forall|j: int| 0 <= j < rest.len() implies !(#[trigger] rest[j] is ReturnAmount) by {
                assert(rest[j] == updates[j + 1]);
            }
            assert(!(updates[0] is ReturnAmount));
        }
    }
}


/// The events of a swap emit the same payload (or the same nothing) in
/// whatever order they are recorded: however concurrent events interleave,
/// the trader is credited once, with the same delta.
pub proof fn lemma_emission_order_independent(u: Seq<FieldUpdate>, v: Seq<FieldUpdate>)
    requires
        swap_events(SwapState::empty(), u),
        swap_events(SwapState::empty(), v),
        u.to_multiset() == v.to_multiset(),
    ensures
        emitted(SwapState::empty(), u) == emitted(SwapState::empty(), v),
        emitted(SwapState::empty(), u).len() <= 1,
{
    broadcast use vstd::seq_lib::group_to_multiset_ensures;

    let e = SwapState::empty();
    lemma_emits_payload_of_all_events(e, u);
    lemma_emits_payload_of_all_events(e, v);
    lemma_apply_all_fields(e, u);
    lemma_apply_all_fields(e, v);
    let fu = apply_all(e, u);
    let fv = apply_all(e, v);
    assert forall|x: FieldUpdate| u.contains(x) <==> v.contains(x) by {
        vstd::seq_lib::to_multiset_contains(u, x);
        vstd::seq_lib::to_multiset_contains(v, x);
        assert(u.to_multiset().count(x) == v.to_multiset().count(x));
    }
    if exists|i: int| 0 <= i < u.len() && #[trigger] u[i] is Sender {
        let i = choose|i: int| 0 <= i < u.len() && #[trigger] u[i] is Sender;
        assert(u.contains(u[i]));
        let j = choose|j: int| 0 <= j < v.len() && v[j] == u[i];
        assert(v[j] is Sender);
        assert(fu.sender == fv.sender);
    } else {
        assert forall|j: int| 0 <= j < v.len() implies !(#[trigger] v[j] is Sender) by {
            if v[j] is Sender {
                assert(v.contains(v[j]));
                let i = choose|i: int| 0 <= i < u.len() && u[i] == v[j];
                assert(u[i] is Sender);
            }
        }
        assert(fu.sender == fv.sender);
    }
    if exists|i: int| 0 <= i < u.len() && #[trigger] u[i] is SellToken {
        let i = choose|i: int| 0 <= i < u.len() && #[trigger] u[i] is SellToken;
        assert(u.contains(u[i]));
        let j = choose|j: int| 0 <= j < v.len() && v[j] == u[i];
        assert(v[j] is SellToken);
        assert(fu.sell_token == fv.sell_token);
    } else {
        assert forall|j: int| 0 <= j < v.len() implies !(#[trigger] v[j] is SellToken) by {
            if v[j] is SellToken {
                assert(v.contains(v[j]));
                let i = choose|i: int| 0 <= i < u.len() && u[i] == v[j];
                assert(u[i] is SellToken);
            }
        }
        assert(fu.sell_token == fv.sell_token);
    }
    if exists|i: int| 0 <= i < u.len() && #[trigger] u[i] is BuyToken {
        let i = choose|i: int| 0 <= i < u.len() && #[trigger] u[i] is BuyToken;
        assert(u.contains(u[i]));
        let j = choose|j: int| 0 <= j < v.len() && v[j] == u[i];
        assert(v[j] is BuyToken);
        assert(fu.buy_token == fv.buy_token);
    } else {
        assert forall|j: int| 0 <= j < v.len() implies !(#[trigger] v[j] is BuyToken) by {
            if v[j] is BuyToken {
                assert(v.contains(v[j]));
                let i = choose|i: int| 0 <= i < u.len() && u[i] == v[j];
                assert(u[i] is BuyToken);
            }
        }
        assert(fu.buy_token == fv.buy_token);
    }
    if exists|i: int| 0 <= i < u.len() && #[trigger] u[i] is OfferAmount {
        let i = choose|i: int| 0 <= i < u.len() && #[trigger] u[i] is OfferAmount;
        assert(u.contains(u[i]));
        let j = choose|j: int| 0 <= j < v.len() && v[j] == u[i];
        assert(v[j] is OfferAmount);
        assert(fu.offer_amount == fv.offer_amount);
    } else {
        assert forall|j: int| 0 <= j < v.len() implies !(#[trigger] v[j] is OfferAmount) by {
            if v[j] is OfferAmount {
                assert(v.contains(v[j]));
                let i = choose|i: int| 0 <= i < u.len() && u[i] == v[j];
                assert(u[i] is OfferAmount);
            }
        }
        assert(fu.offer_amount == fv.offer_amount);
    }
    if exists|i: int| 0 <= i < u.len() && #[trigger] u[i] is ReturnAmount {
        let i = choose|i: int| 0 <= i < u.len() && #[trigger] u[i] is ReturnAmount;
        assert(u.contains(u[i]));
        let j = choose|j: int| 0 <= j < v.len() && v[j] == u[i];
        assert(v[j] is ReturnAmount);
        assert(fu.return_amount == fv.return_amount);
    } else {
        assert forall|j: int| 0 <= j < v.len() implies !(#[trigger] v[j] is ReturnAmount) by {
            if v[j] is ReturnAmount {
                assert(v.contains(v[j]));
                let i = choose|i: int| 0 <= i < u.len() && u[i] == v[j];
                assert(u[i] is ReturnAmount);
            }
        }
        assert(fu.return_amount == fv.return_amount);
    }
    assert(fu == fv);
}

} // verus!
