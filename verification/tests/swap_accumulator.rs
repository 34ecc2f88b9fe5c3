use hodlers::circuit::{
    after_swap, completed_payload, event_overflows, record_event, swap_key, CasReply,
    CasStep,
};
use hodlers::phoenix::{
    apply, decode_field, decode_i128, field_update, try_finalize, DecodeError, FieldUpdate, SwapState,
    XLM_SAC_CONTRACT_ID,
};
use hodlers::abi::HodlersPayload;
use hodlers::xdr::ScValue;
use std::str::FromStr;
use stellar_xdr::curr::{Int128Parts, Limits, ScAddress, ScString, ScSymbol, ScVal, StringM, WriteXdr};

fn string_topic(s: &str) -> String {
    let inner: StringM = s.try_into().unwrap();
    ScVal::String(ScString(inner)).to_xdr_base64(Limits::none()).unwrap()
}

fn symbol_topic(s: &str) -> String {
    let inner: StringM<32> = s.try_into().unwrap();
    ScVal::Symbol(ScSymbol(inner)).to_xdr_base64(Limits::none()).unwrap()
}

fn addr_value(strkey: &str) -> String {
    let addr = ScAddress::from_str(strkey).unwrap();
    ScVal::Address(addr).to_xdr_base64(Limits::none()).unwrap()
}

fn i128_value(n: i128) -> String {
    let hi = (n >> 64) as i64;
    let lo = n as u64;
    ScVal::I128(Int128Parts { hi, lo }).to_xdr_base64(Limits::none()).unwrap()
}

#[test]
fn finalize_buys_xlm_with_positive_delta() {
    let mut s = SwapState::default();
    apply(&mut s, FieldUpdate::Sender("GA...".into()));
    apply(&mut s, FieldUpdate::SellToken("CUSDC".into()));
    apply(&mut s, FieldUpdate::BuyToken(XLM_SAC_CONTRACT_ID.into()));
    apply(&mut s, FieldUpdate::OfferAmount(100));
    assert!(try_finalize(&s).is_none());
    apply(&mut s, FieldUpdate::ReturnAmount(500));
    assert_eq!(try_finalize(&s), Some(("GA...".into(), 500)));
}

#[test]
fn finalize_sells_xlm_with_negative_delta() {
    let mut s = SwapState::default();
    apply(&mut s, FieldUpdate::Sender("GA...".into()));
    apply(&mut s, FieldUpdate::SellToken(XLM_SAC_CONTRACT_ID.into()));
    apply(&mut s, FieldUpdate::BuyToken("CUSDC".into()));
    apply(&mut s, FieldUpdate::OfferAmount(700));
    assert_eq!(try_finalize(&s), Some(("GA...".into(), -700)));
}

#[test]
fn finalize_returns_none_for_non_xlm_swap() {
    let mut s = SwapState::default();
    apply(&mut s, FieldUpdate::Sender("GA...".into()));
    apply(&mut s, FieldUpdate::SellToken("CUSDC".into()));
    apply(&mut s, FieldUpdate::BuyToken("CSOMETHING".into()));
    apply(&mut s, FieldUpdate::OfferAmount(100));
    apply(&mut s, FieldUpdate::ReturnAmount(99));
    assert_eq!(try_finalize(&s), None);
}

// Recorded mainnet swap: trader GB3JC... sold 820_000_000 XLM stroops for
// 131_802_593 USDC units.
#[test]
fn decode_real_phoenix_event() {
    let trader = "GB3JCHJUP6HHZJLN5LKQDRFP2HWSLNXYE2TGWDGBTNXIW6MLVRQXNDBC";
    let xlm = XLM_SAC_CONTRACT_ID;
    let usdc = "CCW67TSZV3SSS2HXMBQ5JFGCKJNXKZM7UQUWUZPUTHXSTZLEO7SJMI75";

    let events = [
        (string_topic("swap"), string_topic("sender"), addr_value(trader)),
        (string_topic("swap"), string_topic("sell_token"), addr_value(xlm)),
        (string_topic("swap"), string_topic("offer_amount"), i128_value(820_000_000)),
        (string_topic("swap"), string_topic("buy_token"), addr_value(usdc)),
        (string_topic("swap"), string_topic("return_amount"), i128_value(131_802_593)),
    ];

    let mut state = SwapState::default();
    for (t0, t1, v) in &events {
        let update = decode_field(&[t0.clone(), t1.clone()], v).unwrap();
        apply(&mut state, update);
    }

    assert_eq!(try_finalize(&state), Some((trader.to_string(), -820_000_000)));
}

#[test]
fn events_commute_in_any_order() {
    let updates = vec![
        FieldUpdate::ReturnAmount(500),
        FieldUpdate::BuyToken(XLM_SAC_CONTRACT_ID.into()),
        FieldUpdate::OfferAmount(100),
        FieldUpdate::SellToken("CUSDC".into()),
        FieldUpdate::Sender("GA...".into()),
    ];
    let mut forward = SwapState::default();
    for u in updates.iter() {
        apply(&mut forward, u.clone());
    }
    let mut backward = SwapState::default();
    for u in updates.iter().rev() {
        apply(&mut backward, u.clone());
    }
    assert_eq!(try_finalize(&forward), Some(("GA...".into(), 500)));
    assert_eq!(try_finalize(&forward), try_finalize(&backward));
}

#[test]
fn later_update_replaces_earlier_one() {
    let mut s = SwapState::default();
    apply(&mut s, FieldUpdate::Sender("GA...".into()));
    apply(&mut s, FieldUpdate::Sender("GB...".into()));
    apply(&mut s, FieldUpdate::Other);
    assert_eq!(s.sender, Some("GB...".to_string()));
    assert_eq!(s.sell_token, None);
}

#[test]
fn finalize_needs_sender_and_both_tokens() {
    let mut s = SwapState::default();
    apply(&mut s, FieldUpdate::BuyToken(XLM_SAC_CONTRACT_ID.into()));
    apply(&mut s, FieldUpdate::SellToken("CUSDC".into()));
    apply(&mut s, FieldUpdate::ReturnAmount(5));
    assert_eq!(try_finalize(&s), None);
    apply(&mut s, FieldUpdate::Sender("GA...".into()));
    assert_eq!(try_finalize(&s), Some(("GA...".into(), 5)));
}

#[test]
fn decode_field_with_one_segment_is_other() {
    let r = decode_field(&[string_topic("swap")], &i128_value(1)).unwrap();
    assert!(matches!(r, FieldUpdate::Other));
}

#[test]
fn decode_field_reads_symbol_topics() {
    let r = decode_field(&[symbol_topic("swap"), symbol_topic("offer_amount")], &i128_value(-5)).unwrap();
    assert!(matches!(r, FieldUpdate::OfferAmount(-5)));
}

#[test]
fn decode_field_unknown_key_is_other() {
    let r = decode_field(&[string_topic("swap"), string_topic("fee")], &i128_value(3)).unwrap();
    assert!(matches!(r, FieldUpdate::Other));
}

#[test]
fn decode_field_non_name_topic_is_other() {
    let r = decode_field(&[string_topic("swap"), i128_value(7)], "not base64 at all").unwrap();
    assert!(matches!(r, FieldUpdate::Other));
}

#[test]
fn decode_field_rejects_undecodable_topic() {
    let r = decode_field(&[string_topic("swap"), "%%%".to_string()], &i128_value(3));
    assert_eq!(r.err(), Some(DecodeError::TopicUndecodable));
}

#[test]
fn decode_field_rejects_undecodable_value() {
    let r = decode_field(&[string_topic("swap"), string_topic("sender")], "%%%");
    assert_eq!(r.err(), Some(DecodeError::ValueUndecodable));
}

#[test]
fn decode_field_rejects_wrong_value_kinds() {
    let r = decode_field(&[string_topic("swap"), string_topic("sender")], &i128_value(3));
    assert_eq!(r.err(), Some(DecodeError::ExpectedAddress));
    let r = decode_field(
        &[string_topic("swap"), string_topic("return_amount")],
        &addr_value(XLM_SAC_CONTRACT_ID),
    );
    assert_eq!(r.err(), Some(DecodeError::ExpectedI128));
}

#[test]
fn field_update_dispatches_on_key() {
    let addr = ScValue::Address("CABC".to_string());
    assert!(matches!(field_update(&"buy_token".to_string(), &addr), Ok(FieldUpdate::BuyToken(ref s)) if s == "CABC"));
    assert!(matches!(field_update(&"sell_token".to_string(), &addr), Ok(FieldUpdate::SellToken(ref s)) if s == "CABC"));
    assert!(matches!(field_update(&"swap".to_string(), &addr), Ok(FieldUpdate::Other)));
}

#[test]
fn decode_i128_joins_halves() {
    assert_eq!(decode_i128(&ScValue::I128 { hi: 0, lo: 131_802_593 }), Ok(131_802_593));
    assert_eq!(decode_i128(&ScValue::I128 { hi: -1, lo: u64::MAX }), Ok(-1));
    assert_eq!(decode_i128(&ScValue::I128 { hi: 1, lo: 2 }), Ok((1i128 << 64) + 2));
    assert_eq!(decode_i128(&ScValue::I128 { hi: i64::MIN, lo: 0 }), Ok(i128::MIN));
    assert_eq!(decode_i128(&ScValue::Other), Err(DecodeError::ExpectedI128));
}

#[test]
fn swap_key_joins_hash_and_operation_index() {
    assert_eq!(swap_key("cfda8d13", Some(3)), "cfda8d13:3");
    assert_eq!(swap_key("cfda8d13", None), "cfda8d13:0");
    assert_eq!(swap_key("ab", Some(4_294_967_295)), "ab:4294967295");
}

#[test]
fn completed_payload_encodes_trader_and_delta() {
    let mut s = SwapState::default();
    apply(&mut s, FieldUpdate::Sender("GA...".into()));
    apply(&mut s, FieldUpdate::SellToken(XLM_SAC_CONTRACT_ID.into()));
    apply(&mut s, FieldUpdate::BuyToken("CUSDC".into()));
    assert_eq!(completed_payload(&s), None);
    apply(&mut s, FieldUpdate::OfferAmount(700));
    let bytes = completed_payload(&s).unwrap();
    let p = HodlersPayload::abi_decode_from(&bytes).unwrap();
    assert_eq!(p.trader, "GA...");
    assert_eq!(p.delta, -700);
}

#[test]
fn finalize_sale_of_near_min_amount() {
    let mut s = SwapState::default();
    apply(&mut s, FieldUpdate::Sender("GA...".into()));
    apply(&mut s, FieldUpdate::SellToken(XLM_SAC_CONTRACT_ID.into()));
    apply(&mut s, FieldUpdate::BuyToken("CUSDC".into()));
    assert!(event_overflows(&s, &FieldUpdate::OfferAmount(i128::MIN)));
    apply(&mut s, FieldUpdate::OfferAmount(i128::MIN + 1));
    assert!(!event_overflows(&s, &FieldUpdate::Other));
    assert_eq!(try_finalize(&s), Some(("GA...".into(), i128::MAX)));
}

#[test]
fn compare_and_swap_outcomes() {
    assert_eq!(after_swap(CasReply::Swapped), CasStep::Finish);
    assert_eq!(after_swap(CasReply::Conflict), CasStep::Retry);
    assert_eq!(after_swap(CasReply::StoreFailed), CasStep::Fail);
}

#[test]
fn record_event_emits_once_and_leaves_tombstone() {
    let events = vec![
        FieldUpdate::Sender("GA...".into()),
        FieldUpdate::SellToken("CUSDC".into()),
        FieldUpdate::BuyToken(XLM_SAC_CONTRACT_ID.into()),
        FieldUpdate::ReturnAmount(500),
        FieldUpdate::OfferAmount(100),
        FieldUpdate::ReturnAmount(500),
        FieldUpdate::Other,
    ];
    let mut s = SwapState::default();
    let mut emitted = Vec::new();
    for u in events {
        if let Some(b) = record_event(&mut s, u) {
            emitted.push(b);
        }
    }
    assert_eq!(emitted.len(), 1);
    assert!(s.finalized);
    let p = HodlersPayload::abi_decode_from(&emitted[0]).unwrap();
    assert_eq!((p.trader.as_str(), p.delta), ("GA...", 500));
    // a later event leaves the tombstone untouched
    assert_eq!(record_event(&mut s, FieldUpdate::Sender("GB...".into())), None);
    assert_eq!(s.sender, Some("GA...".to_string()));
}

#[test]
fn event_overflow_is_detected_before_recording() {
    let mut s = SwapState::default();
    apply(&mut s, FieldUpdate::Sender("GA...".into()));
    apply(&mut s, FieldUpdate::SellToken(XLM_SAC_CONTRACT_ID.into()));
    apply(&mut s, FieldUpdate::BuyToken("CUSDC".into()));
    assert!(event_overflows(&s, &FieldUpdate::OfferAmount(i128::MIN)));
    assert!(!event_overflows(&s, &FieldUpdate::OfferAmount(7)));
    assert!(!event_overflows(&s, &FieldUpdate::ReturnAmount(i128::MIN)));
    assert_eq!(record_event(&mut s, FieldUpdate::OfferAmount(7)).is_some(), true);
    assert!(!event_overflows(&s, &FieldUpdate::OfferAmount(i128::MIN)));
}

fn base64(bytes: &[u8]) -> String {
    const ALPHABET: &[u8] = b"ABCDEFGHIJKLMNOPQRSTUVWXYZabcdefghijklmnopqrstuvwxyz0123456789+/";
    let mut out = String::new();
    for chunk in bytes.chunks(3) {
        let b = [chunk[0], *chunk.get(1).unwrap_or(&0), *chunk.get(2).unwrap_or(&0)];
        let n = ((b[0] as u32) << 16) | ((b[1] as u32) << 8) | b[2] as u32;
        for i in 0..4 {
            if i <= chunk.len() {
                out.push(ALPHABET[((n >> (18 - 6 * i)) & 63) as usize] as char);
            } else {
                out.push('=');
            }
        }
    }
    out
}

#[test]
fn decode_field_refuses_deeply_nested_value() {
    // ScVal::Vec(Some([ ... ScVal::Vec(Some([ScVal::Void])) ... ])) nested 20_000 deep
    let mut bytes = Vec::new();
    for _ in 0..20_000 {
        bytes.extend_from_slice(&[0, 0, 0, 16, 0, 0, 0, 1, 0, 0, 0, 1]);
    }
    bytes.extend_from_slice(&[0, 0, 0, 1]);
    let value = base64(&bytes);
    let r = decode_field(&[string_topic("swap"), string_topic("sender")], &value);
    assert_eq!(r.err(), Some(DecodeError::ValueUndecodable));
    // a shallow vector decodes, and is not an address
    let shallow = base64(&[0, 0, 0, 16, 0, 0, 0, 1, 0, 0, 0, 1, 0, 0, 0, 1]);
    let r = decode_field(&[string_topic("swap"), string_topic("sender")], &shallow);
    assert_eq!(r.err(), Some(DecodeError::ExpectedAddress));
    assert_eq!(i128_value(5), base64(&[0, 0, 0, 10, 0, 0, 0, 0, 0, 0, 0, 0, 0, 0, 0, 0, 0, 0, 0, 5]));
}
