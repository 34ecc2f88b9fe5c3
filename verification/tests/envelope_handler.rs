use hodlers::abi::HodlersPayload;
use hodlers::handler::{
    HandlerAction, HandlerError, HandlerEvent, StellarHandler, VerificationReply, XlmEnvelope,
};
use hodlers::hodlers::Hodlers;
use std::collections::{HashMap, HashSet};

// A ledger for the handler to work against: the seen events, the points of
// each trader, and what the verification contract answers.
struct Ledger {
    seen: HashSet<[u8; 20]>,
    points: HashMap<String, i128>,
    verification: VerificationReply,
}

fn envelope(event_id: u8) -> XlmEnvelope {
    let mut id = [0u8; 20];
    id[19] = event_id;
    XlmEnvelope { event_id: id, ordering: [0u8; 12], payload: vec![event_id] }
}

fn verify_xlm(
    ledger: &mut Ledger,
    envelope: Option<XlmEnvelope>,
    payload: Option<HodlersPayload>,
) -> Result<(), HandlerError> {
    let mut machine = StellarHandler::verify_xlm();
    let mut event = HandlerEvent::EnvelopeDecoded(envelope);
    loop {
        let (next, action) = machine.step(event);
        machine = next;
        event = match action {
            HandlerAction::CheckSeen(id) => HandlerEvent::SeenChecked(ledger.seen.contains(&id)),
            HandlerAction::Verify => HandlerEvent::VerificationReplied(ledger.verification),
            HandlerAction::DecodePayload(_) => HandlerEvent::PayloadDecoded(payload.clone()),
            HandlerAction::Credit(p) => {
                let stored = ledger.points.get(&p.trader).copied();
                match Hodlers::add_points(stored, p.delta) {
                    Ok(c) => {
                        ledger.points.insert(p.trader.clone(), c.next);
                        HandlerEvent::CreditReplied(true)
                    },
                    Err(_) => HandlerEvent::CreditReplied(false),
                }
            },
            HandlerAction::MarkSeen(id) => {
                ledger.seen.insert(id);
                HandlerEvent::Marked
            },
            HandlerAction::Return(r) => return r,
        };
    }
}

fn ledger(verification: VerificationReply) -> Ledger {
    Ledger { seen: HashSet::new(), points: HashMap::new(), verification }
}

fn payload(trader: &str, delta: i128) -> Option<HodlersPayload> {
    Some(HodlersPayload { trader: trader.to_string(), delta })
}

#[test]
fn happy_path_verifies_and_credits_hodlers() {
    // two signers of weight 100 each against a 55/100 threshold: verified
    let mut l = ledger(VerificationReply::Verified);
    let r = verify_xlm(&mut l, Some(envelope(1)), payload("GTRADER", 42));
    assert_eq!(r, Ok(()));
    assert_eq!(Hodlers::points_of(l.points.get("GTRADER").copied()), 42);
}

#[test]
fn replay_is_rejected() {
    let mut l = ledger(VerificationReply::Verified);
    verify_xlm(&mut l, Some(envelope(1)), payload("GTRADER", 10)).unwrap();
    let result = verify_xlm(&mut l, Some(envelope(1)), payload("GTRADER", 10));
    assert_eq!(result, Err(HandlerError::EventAlreadySeen));
    assert_eq!(l.points.get("GTRADER"), Some(&10));
}

#[test]
fn insufficient_quorum_rejected() {
    // one signer of two against a 55/100 threshold
    let mut l = ledger(VerificationReply::Rejected(HandlerError::InsufficientWeight));
    let result = verify_xlm(&mut l, Some(envelope(2)), payload("GTRADER", 10));
    assert_eq!(result, Err(HandlerError::InsufficientWeight));
    assert!(l.points.is_empty());
    assert!(l.seen.is_empty());
}

#[test]
fn malformed_envelope_rejected() {
    let mut l = ledger(VerificationReply::Verified);
    let result = verify_xlm(&mut l, None, None);
    assert_eq!(result, Err(HandlerError::InvalidEnvelope));
}

#[test]
fn malformed_payload_rejected_without_marking() {
    let mut l = ledger(VerificationReply::Verified);
    let result = verify_xlm(&mut l, Some(envelope(3)), None);
    assert_eq!(result, Err(HandlerError::InvalidEnvelope));
    assert!(l.seen.is_empty());
}

#[test]
fn verification_failures_map_to_handler_errors() {
    let mut l = ledger(VerificationReply::UnexpectedError);
    assert_eq!(verify_xlm(&mut l, Some(envelope(4)), payload("G", 1)), Err(HandlerError::UnknownVerificationError));
    let mut l = ledger(VerificationReply::InvocationFailed);
    assert_eq!(verify_xlm(&mut l, Some(envelope(4)), payload("G", 1)), Err(HandlerError::OtherInvocationError));
}

#[test]
fn refused_credit_leaves_event_unseen() {
    let mut l = ledger(VerificationReply::Verified);
    l.points.insert("G".to_string(), i128::MAX);
    let r = verify_xlm(&mut l, Some(envelope(5)), payload("G", 1));
    assert_eq!(r, Err(HandlerError::OtherInvocationError));
    assert!(l.seen.is_empty());
    assert_eq!(StellarHandler::payload(envelope(5).event_id), None);
}
