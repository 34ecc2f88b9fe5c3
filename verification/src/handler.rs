//! The decisions of the on-chain handler that accepts a signed XLM envelope:
//! the envelope must decode, its event must be new, the operators' signatures
//! must be verified by the verification contract, its payload must decode,
//! and the points contract must accept the credit; only then is the event
//! marked as seen. Each of these steps is work on the ledger (storage reads
//! and writes, cross-contract calls, XDR conversions that the host makes);
//! `VerifyXlm` is the state of one call, and `step` takes the result of the
//! last piece of work and says which comes next.
use crate::abi::HodlersPayload;
use vstd::prelude::*;

verus! {

/// The handler contract.
pub struct StellarHandler;

/// The verifier contract for Ethereum-signed envelopes, which has no entry
/// points yet.
pub struct HodlersVerifier;

/// Why an envelope was refused.
#[derive(Debug, Clone, Copy, PartialEq, Eq, Structural)]
pub enum HandlerError {
    /// The envelope, or the payload inside it, is not of the expected shape.
    InvalidEnvelope,
    /// The envelope's event has already been credited.
    EventAlreadySeen,
    /// The signers' weight does not reach the quorum threshold.
    InsufficientWeight,
    /// The verification contract refused the signatures for another reason.
    VerificationFailed,
    /// The verification contract answered with a value that is not an error
    /// of its own.
    UnknownVerificationError,
    /// A contract call failed in the host, or the points contract refused
    /// the credit.
    OtherInvocationError,
}

/// A signed envelope, as the handler reads it: the event's id, its ordering
/// tag, and the payload bytes.
#[derive(Debug)]
pub struct XlmEnvelope {
    pub event_id: [u8; 20],
    pub ordering: [u8; 12],
    pub payload: Vec<u8>,
}

/// The answer of the verification contract's `verify`.
#[derive(Debug, Clone, Copy, PartialEq, Eq, Structural)]
pub enum VerificationReply {
    /// The signatures reach the quorum.
    Verified,
    /// The call returned a value that could not be read as the contract's
    /// own result or error.
    UnexpectedError,
    /// The contract refused with one of its errors, here converted.
    Rejected(HandlerError),
    /// The call itself failed in the host.
    InvocationFailed,
}

/// The result of one piece of work, handed back to the handler.
#[derive(Debug)]
pub enum HandlerEvent {
    /// The envelope bytes decoded to this envelope, or did not decode.
    EnvelopeDecoded(Option<XlmEnvelope>),
    /// Whether the envelope's event is already marked as seen.
    SeenChecked(bool),
    /// The verification contract's answer.
    VerificationReplied(VerificationReply),
    /// The envelope's payload decoded to this payload, or did not decode.
    PayloadDecoded(Option<HodlersPayload>),
    /// Whether the points contract accepted the credit.
    CreditReplied(bool),
    /// The event has been marked as seen.
    Marked,
}

/// The next piece of work, or the end of the call.
#[derive(Debug)]
pub enum HandlerAction {
    /// Check whether this event is already marked as seen.
    CheckSeen([u8; 20]),
    /// Ask the verification contract to verify the envelope's signatures.
    Verify,
    /// Decode these payload bytes.
    DecodePayload(Vec<u8>),
    /// Credit the payload's delta to its trader in the points contract.
    Credit(HodlersPayload),
    /// Mark this event as seen, extend the instance's lifetime and publish
    /// that the event was verified.
    MarkSeen([u8; 20]),
    /// End the call with this result.
    Return(Result<(), HandlerError>),
}

/// The state of one `verify_xlm` call.
#[derive(Debug)]
pub enum VerifyXlm {
    AwaitEnvelope,
    AwaitSeenCheck { event_id: [u8; 20], payload: Vec<u8> },
    AwaitVerification { event_id: [u8; 20], payload: Vec<u8> },
    AwaitPayload { event_id: [u8; 20] },
    AwaitCredit { event_id: [u8; 20] },
    AwaitMark,
    Done,
}

/// Whether `event` answers the work that state `s` waits for.
pub open spec fn accepts(s: VerifyXlm, event: HandlerEvent) -> bool {
    match (s, event) {
        (VerifyXlm::AwaitEnvelope, HandlerEvent::EnvelopeDecoded(_)) => true,
        (VerifyXlm::AwaitSeenCheck { .. }, HandlerEvent::SeenChecked(_)) => true,
        (VerifyXlm::AwaitVerification { .. }, HandlerEvent::VerificationReplied(_)) => true,
        (VerifyXlm::AwaitPayload { .. }, HandlerEvent::PayloadDecoded(_)) => true,
        (VerifyXlm::AwaitCredit { .. }, HandlerEvent::CreditReplied(_)) => true,
        (VerifyXlm::AwaitMark, HandlerEvent::Marked) => true,
        _ => false,
    }
}

/// The error that a refusal of the verification contract ends the call with.
pub open spec fn verification_error(reply: VerificationReply) -> HandlerError {
    match reply {
        VerificationReply::Rejected(e) => e,
        VerificationReply::UnexpectedError => HandlerError::UnknownVerificationError,
        _ => HandlerError::OtherInvocationError,
    }
}

/// The next state and the next piece of work, after `event` in state `s`.
pub open spec fn step_spec(s: VerifyXlm, event: HandlerEvent) -> (VerifyXlm, HandlerAction) {
    match (s, event) {
        (VerifyXlm::AwaitEnvelope, HandlerEvent::EnvelopeDecoded(Some(e))) => (
            VerifyXlm::AwaitSeenCheck { event_id: e.event_id, payload: e.payload },
            HandlerAction::CheckSeen(e.event_id),
        ),
        (VerifyXlm::AwaitSeenCheck { event_id, payload }, HandlerEvent::SeenChecked(false)) => (
            VerifyXlm::AwaitVerification { event_id, payload },
            HandlerAction::Verify,
        ),
        (
            VerifyXlm::AwaitVerification { event_id, payload },
            HandlerEvent::VerificationReplied(VerificationReply::Verified),
        ) => (VerifyXlm::AwaitPayload { event_id }, HandlerAction::DecodePayload(payload)),
        (VerifyXlm::AwaitVerification { .. }, HandlerEvent::VerificationReplied(reply)) => (
            VerifyXlm::Done,
            HandlerAction::Return(Err(verification_error(reply))),
        ),
        (VerifyXlm::AwaitPayload { event_id }, HandlerEvent::PayloadDecoded(Some(p))) => (
            VerifyXlm::AwaitCredit { event_id },
            HandlerAction::Credit(p),
        ),
        (VerifyXlm::AwaitCredit { event_id }, HandlerEvent::CreditReplied(true)) => (
            VerifyXlm::AwaitMark,
            HandlerAction::MarkSeen(event_id),
        ),
        (VerifyXlm::AwaitMark, HandlerEvent::Marked) => (VerifyXlm::Done, HandlerAction::Return(Ok(()))),
        (_, HandlerEvent::EnvelopeDecoded(None)) => (
            VerifyXlm::Done,
            HandlerAction::Return(Err(HandlerError::InvalidEnvelope)),
        ),
        (_, HandlerEvent::SeenChecked(true)) => (
            VerifyXlm::Done,
            HandlerAction::Return(Err(HandlerError::EventAlreadySeen)),
        ),
        (_, HandlerEvent::PayloadDecoded(None)) => (
            VerifyXlm::Done,
            HandlerAction::Return(Err(HandlerError::InvalidEnvelope)),
        ),
        (_, _) => (VerifyXlm::Done, HandlerAction::Return(Err(HandlerError::OtherInvocationError))),
    }
}

impl StellarHandler {
    /// Starts a `verify_xlm` call: the first piece of work is to decode the
    /// envelope bytes.
    pub fn verify_xlm() -> (s: VerifyXlm)
        ensures
            s == VerifyXlm::AwaitEnvelope,
    {
        VerifyXlm::AwaitEnvelope
    }

    /// The payload stored for an event: none is kept.
    pub fn payload(_event_id: [u8; 20]) -> (r: Option<Vec<u8>>)
        ensures
            r is None,
    {
        None
    }
}

impl VerifyXlm {
    /// Takes the result of the last piece of work and gives the next state
    /// and the next piece of work.
    pub fn step(self, event: HandlerEvent) -> (r: (VerifyXlm, HandlerAction))
        requires
            accepts(self, event),
        ensures
            r == step_spec(self, event),
    {
        match self {
            VerifyXlm::AwaitEnvelope => match event {
                HandlerEvent::EnvelopeDecoded(Some(e)) => {
                    let id = e.event_id;
                    (VerifyXlm::AwaitSeenCheck { event_id: id, payload: e.payload }, HandlerAction::CheckSeen(id))
                },
                _ => (VerifyXlm::Done, HandlerAction::Return(Err(HandlerError::InvalidEnvelope))),
            },
            VerifyXlm::AwaitSeenCheck { event_id, payload } => match event {
                HandlerEvent::SeenChecked(false) => (
                    VerifyXlm::AwaitVerification { event_id, payload },
                    HandlerAction::Verify,
                ),
                _ => (VerifyXlm::Done, HandlerAction::Return(Err(HandlerError::EventAlreadySeen))),
            },
            VerifyXlm::AwaitVerification { event_id, payload } => match event {
                HandlerEvent::VerificationReplied(VerificationReply::Verified) => (
                    VerifyXlm::AwaitPayload { event_id },
                    HandlerAction::DecodePayload(payload),
                ),
                HandlerEvent::VerificationReplied(VerificationReply::Rejected(e)) => (
                    VerifyXlm::Done,
                    HandlerAction::Return(Err(e)),
                ),
                HandlerEvent::VerificationReplied(VerificationReply::UnexpectedError) => (
                    VerifyXlm::Done,
                    HandlerAction::Return(Err(HandlerError::UnknownVerificationError)),
                ),
                _ => (VerifyXlm::Done, HandlerAction::Return(Err(HandlerError::OtherInvocationError))),
            },
            VerifyXlm::AwaitPayload { event_id } => match event {
                HandlerEvent::PayloadDecoded(Some(p)) => (VerifyXlm::AwaitCredit { event_id }, HandlerAction::Credit(p)),
                _ => (VerifyXlm::Done, HandlerAction::Return(Err(HandlerError::InvalidEnvelope))),
            },
            VerifyXlm::AwaitCredit { event_id } => match event {
                HandlerEvent::CreditReplied(true) => (VerifyXlm::AwaitMark, HandlerAction::MarkSeen(event_id)),
                _ => (VerifyXlm::Done, HandlerAction::Return(Err(HandlerError::OtherInvocationError))),
            },
            _ => (VerifyXlm::Done, HandlerAction::Return(Ok(()))),
        }
    }
}


/// The state after a sequence of results, and the work asked for after each.
pub open spec fn run(s: VerifyXlm, events: Seq<HandlerEvent>) -> (VerifyXlm, Seq<HandlerAction>)
    decreases events.len(),
{
    if events.len() == 0 {
        (s, Seq::empty())
    } else {
        let (next, action) = step_spec(s, events[0]);
        let (last, actions) = run(next, events.drop_first());
        (last, seq![action] + actions)
    }
}

/// Whether each result in `events` answers the work asked for just before.
pub open spec fn accepted(s: VerifyXlm, events: Seq<HandlerEvent>) -> bool
    decreases events.len(),
{
    events.len() == 0 || (accepts(s, events[0]) && accepted(step_spec(s, events[0]).0, events.drop_first()))
}

/// The event id of a decoded envelope, when the first result is one.
pub open spec fn envelope_id(events: Seq<HandlerEvent>) -> [u8; 20] {
    events[0]->EnvelopeDecoded_0->Some_0.event_id
}

/// The ids that a sequence of actions marks as seen.
pub open spec fn marked_ids(actions: Seq<HandlerAction>) -> Set<[u8; 20]> {
    Set::new(|id: [u8; 20]| exists|k: int| 0 <= k < actions.len() && actions[k] == HandlerAction::MarkSeen(id))
}

/// The state reached after the first `k` results.
pub open spec fn state_at(s: VerifyXlm, events: Seq<HandlerEvent>, k: nat) -> VerifyXlm
    decreases k,
{
    if k == 0 {
        s
    } else {
        step_spec(state_at(s, events, (k - 1) as nat), events[k - 1]).0
    }
}

proof fn lemma_run_unfold(s: VerifyXlm, events: Seq<HandlerEvent>)
    requires
        events.len() > 0,
    ensures
        run(s, events).1 == seq![step_spec(s, events[0]).1] + run(step_spec(s, events[0]).0, events.drop_first()).1,
        run(s, events).1.len() == events.len(),
    decreases events.len(),
{
    if events.len() > 1 {
        lemma_run_unfold(step_spec(s, events[0]).0, events.drop_first());
    }
}

/// Starting one result later reaches the same states.
proof fn lemma_state_at_shift(s: VerifyXlm, events: Seq<HandlerEvent>, k: nat)
    requires
        k + 1 <= events.len(),
    ensures
        state_at(step_spec(s, events[0]).0, events.drop_first(), k) == state_at(s, events, k + 1),
    decreases k,
{
    let s1 = step_spec(s, events[0]).0;
    if k == 0 {
        assert(state_at(s, events, 0) == s);
        assert(state_at(s, events, 1) == s1);
    } else {
        lemma_state_at_shift(s, events, (k - 1) as nat);
        assert(events.drop_first()[k - 1] == events[k as int]);
        assert(state_at(s1, events.drop_first(), k) == step_spec(
            state_at(s1, events.drop_first(), (k - 1) as nat),
            events.drop_first()[k - 1],
        ).0);
        assert(state_at(s, events, k + 1) == step_spec(state_at(s, events, k), events[k as int]).0);
    }
}

/// The k-th action of a run is what `step_spec` gives for the k-th result in
/// the state reached by then, and an accepted run answers that state's work.
proof fn lemma_run_at(s: VerifyXlm, events: Seq<HandlerEvent>, k: int)
    requires
        0 <= k < events.len(),
    ensures
        run(s, events).1.len() == events.len(),
        run(s, events).1[k] == step_spec(state_at(s, events, k as nat), events[k]).1,
        accepted(s, events) ==> accepts(state_at(s, events, k as nat), events[k]),
    decreases k,
{
    lemma_run_unfold(s, events);
    if k > 0 {
        let s1 = step_spec(s, events[0]).0;
        let e1 = events.drop_first();
        lemma_run_at(s1, e1, k - 1);
        lemma_state_at_shift(s, events, (k - 1) as nat);
        assert(e1[k - 1] == events[k]);
    }
}

/// What a call does, result by result: the k-th action of an accepted run
/// from the start is the one that `step_spec` gives for the k-th result in
/// the state reached so far, and no call takes more than six results.
proof fn lemma_run_steps(events: Seq<HandlerEvent>)
    requires
        accepted(VerifyXlm::AwaitEnvelope, events),
    ensures
        events.len() <= 6,
        run(VerifyXlm::AwaitEnvelope, events).1.len() == events.len(),
        events.len() >= 1 ==> events[0] is EnvelopeDecoded,
        events.len() >= 1 ==> run(VerifyXlm::AwaitEnvelope, events).1[0] == step_spec(VerifyXlm::AwaitEnvelope, events[0]).1,
        events.len() >= 2 ==> events[0]->EnvelopeDecoded_0 is Some && events[1] is SeenChecked,
        events.len() >= 2 ==> run(VerifyXlm::AwaitEnvelope, events).1[1] == (if events[1] == HandlerEvent::SeenChecked(false) {
            HandlerAction::Verify
        } else {
            HandlerAction::Return(Err(HandlerError::EventAlreadySeen))
        }),
        events.len() >= 3 ==> events[1] == HandlerEvent::SeenChecked(false) && events[2] is VerificationReplied,
        events.len() >= 3 ==> run(VerifyXlm::AwaitEnvelope, events).1[2] == (if events[2] == HandlerEvent::VerificationReplied(VerificationReply::Verified) {
            HandlerAction::DecodePayload(events[0]->EnvelopeDecoded_0->Some_0.payload)
        } else {
            HandlerAction::Return(Err(verification_error(events[2]->VerificationReplied_0)))
        }),
        events.len() >= 4 ==> events[2] == HandlerEvent::VerificationReplied(VerificationReply::Verified) && events[3] is PayloadDecoded,
        events.len() >= 4 ==> run(VerifyXlm::AwaitEnvelope, events).1[3] == (match events[3]->PayloadDecoded_0 {
            Some(p) => HandlerAction::Credit(p),
            None => HandlerAction::Return(Err(HandlerError::InvalidEnvelope)),
        }),
        events.len() >= 5 ==> events[3]->PayloadDecoded_0 is Some && events[4] is CreditReplied,
        events.len() >= 5 ==> run(VerifyXlm::AwaitEnvelope, events).1[4] == (if events[4] == HandlerEvent::CreditReplied(true) {
            HandlerAction::MarkSeen(envelope_id(events))
        } else {
            HandlerAction::Return(Err(HandlerError::OtherInvocationError))
        }),
        events.len() >= 6 ==> events[4] == HandlerEvent::CreditReplied(true) && events[5] == HandlerEvent::Marked,
        events.len() >= 6 ==> run(VerifyXlm::AwaitEnvelope, events).1[5] == HandlerAction::Return(Ok(())),
{
    let s0 = VerifyXlm::AwaitEnvelope;
    reveal_with_fuel(state_at, 7);
    if events.len() > 0 {
        lemma_run_at(s0, events, 0);
    }
    if events.len() > 1 {
        lemma_run_at(s0, events, 1);
    }
    if events.len() > 2 {
        lemma_run_at(s0, events, 2);
    }
    if events.len() > 3 {
        lemma_run_at(s0, events, 3);
    }
    if events.len() > 4 {
        lemma_run_at(s0, events, 4);
    }
    if events.len() > 5 {
        lemma_run_at(s0, events, 5);
    }
    if events.len() > 6 {
        lemma_run_at(s0, events, 6);
    }
}

/// An event that is already marked as seen is refused with
/// `EventAlreadySeen`, before any signature is verified and without any
/// credit or mark.
pub proof fn lemma_seen_event_rejected(events: Seq<HandlerEvent>)
    requires
        accepted(VerifyXlm::AwaitEnvelope, events),
        events.len() >= 2,
        events[1] == HandlerEvent::SeenChecked(true),
    ensures
        events.len() == 2,
        run(VerifyXlm::AwaitEnvelope, events).1 == seq![
            HandlerAction::CheckSeen(envelope_id(events)),
            HandlerAction::Return(Err(HandlerError::EventAlreadySeen)),
        ],
{
    lemma_run_steps(events);
    assert(run(VerifyXlm::AwaitEnvelope, events).1 =~= seq![
        HandlerAction::CheckSeen(envelope_id(events)),
        HandlerAction::Return(Err(HandlerError::EventAlreadySeen)),
    ]);
}

/// Points are credited only for a new event whose signatures the
/// verification contract accepted, and only with the payload that the
/// envelope carried.
pub proof fn lemma_credit_only_when_verified(events: Seq<HandlerEvent>, k: int)
    requires
        accepted(VerifyXlm::AwaitEnvelope, events),
        0 <= k < run(VerifyXlm::AwaitEnvelope, events).1.len(),
        run(VerifyXlm::AwaitEnvelope, events).1[k] is Credit,
    ensures
        k == 3,
        events[1] == HandlerEvent::SeenChecked(false),
        events[2] == HandlerEvent::VerificationReplied(VerificationReply::Verified),
        events[3] == HandlerEvent::PayloadDecoded(Some(run(VerifyXlm::AwaitEnvelope, events).1[k]->Credit_0)),
{
    lemma_run_steps(events);
}

/// An event is marked as seen only once its credit was accepted, and the id
/// marked is the envelope's own; a call succeeds only after that mark.
pub proof fn lemma_mark_only_after_credit(events: Seq<HandlerEvent>, k: int)
    requires
        accepted(VerifyXlm::AwaitEnvelope, events),
        0 <= k < run(VerifyXlm::AwaitEnvelope, events).1.len(),
        run(VerifyXlm::AwaitEnvelope, events).1[k] is MarkSeen || run(VerifyXlm::AwaitEnvelope, events).1[k] == HandlerAction::Return(Ok(())),
    ensures
        k == 4 || k == 5,
        run(VerifyXlm::AwaitEnvelope, events).1[3] is Credit,
        events[4] == HandlerEvent::CreditReplied(true),
        run(VerifyXlm::AwaitEnvelope, events).1[4] == HandlerAction::MarkSeen(envelope_id(events)),
{
    lemma_run_steps(events);
}

/// Replay protection across calls: once a call for an event has succeeded,
/// a later call for the same event id, whose seen-check reads storage as the
/// first call left it, is refused with `EventAlreadySeen`.
pub proof fn lemma_replay_rejected(
    seen: Set<[u8; 20]>,
    first: Seq<HandlerEvent>,
    second: Seq<HandlerEvent>,
    k: int,
)
    requires
        accepted(VerifyXlm::AwaitEnvelope, first),
        0 <= k < run(VerifyXlm::AwaitEnvelope, first).1.len(),
        run(VerifyXlm::AwaitEnvelope, first).1[k] == HandlerAction::Return(Ok(())),
        accepted(VerifyXlm::AwaitEnvelope, second),
        second.len() >= 2,
        envelope_id(second) == envelope_id(first),
        second[1] == HandlerEvent::SeenChecked(
            seen.union(marked_ids(run(VerifyXlm::AwaitEnvelope, first).1)).contains(envelope_id(second)),
        ),
    ensures
        run(VerifyXlm::AwaitEnvelope, second).1 == seq![
            HandlerAction::CheckSeen(envelope_id(second)),
            HandlerAction::Return(Err(HandlerError::EventAlreadySeen)),
        ],
{
    lemma_mark_only_after_credit(first, k);
    assert(marked_ids(run(VerifyXlm::AwaitEnvelope, first).1).contains(envelope_id(first)));
    lemma_seen_event_rejected(second);
}


/// A call that ends in an error changes nothing: it is the last step of the
/// call, no event is marked as seen (so nothing is published and the
/// instance's lifetime is not extended), and no credit was accepted by the
/// points contract, so every trader's total is as before.
pub proof fn lemma_error_changes_nothing(events: Seq<HandlerEvent>, k: int)
    requires
        accepted(VerifyXlm::AwaitEnvelope, events),
        0 <= k < run(VerifyXlm::AwaitEnvelope, events).1.len(),
        run(VerifyXlm::AwaitEnvelope, events).1[k] matches HandlerAction::Return(Err(_)),
    ensures
        k == events.len() - 1,
        forall|j: int|
            0 <= j < run(VerifyXlm::AwaitEnvelope, events).1.len() ==> !(#[trigger] run(
                VerifyXlm::AwaitEnvelope,
                events,
            ).1[j] is MarkSeen),
        forall|j: int| 0 <= j < events.len() ==> #[trigger] events[j] != HandlerEvent::CreditReplied(true),
{
    lemma_run_steps(events);
}

} // verus!
