//! Accumulates the fields of one Phoenix swap, which arrive as separate
//! contract events, and turns a complete XLM swap into a signed point delta.
use crate::xdr::{scval_from_xdr_base64, scval_of_xdr_base64, ScValue, XDR_READ_DEPTH};
use vstd::prelude::*;

verus! {

/// The XLM Stellar Asset Contract on Stellar mainnet (the "native" SAC).
pub const XLM_SAC_CONTRACT_ID: &'static str = "CAS3J7GYLGXMF6TDJBBYYSE3HQ6BBSMLNUQ34T6TZMYMW2EVH34XOWMA";

/// The contract id of the XLM asset, as characters.
pub open spec fn xlm_sac_id() -> Seq<char> {
    XLM_SAC_CONTRACT_ID@
}

/// What is known so far of one swap; each of the first five fields is filled
/// by one event.
#[derive(Debug, Clone)]
pub struct SwapState {
    pub sender: Option<String>,
    pub sell_token: Option<String>,
    pub buy_token: Option<String>,
    pub offer_amount: Option<i128>,
    pub return_amount: Option<i128>,
    /// The swap's payload has been emitted; the state stays stored as a
    /// tombstone so that the swap is never emitted again.
    pub finalized: bool,
}

impl Default for SwapState {
    fn default() -> (s: Self)
        ensures
            s == SwapState::empty(),
    {
        SwapState {
            sender: None,
            sell_token: None,
            buy_token: None,
            offer_amount: None,
            return_amount: None,
            finalized: false,
        }
    }
}

impl SwapState {
    /// The state before any event of the swap has been seen.
    pub open spec fn empty() -> SwapState {
        SwapState {
            sender: None,
            sell_token: None,
            buy_token: None,
            offer_amount: None,
            return_amount: None,
            finalized: false,
        }
    }
}

/// One decoded swap event: which field it carries, or `Other` for events
/// that carry none of them.
#[derive(Debug, Clone)]
pub enum FieldUpdate {
    Sender(String),
    SellToken(String),
    BuyToken(String),
    OfferAmount(i128),
    ReturnAmount(i128),
    Other,
}

/// The state after `update`: the field it names is set to its value, and
/// every other field is kept.
pub open spec fn apply_spec(state: SwapState, update: FieldUpdate) -> SwapState {
    match update {
        FieldUpdate::Sender(s) => SwapState { sender: Some(s), ..state },
        FieldUpdate::SellToken(s) => SwapState { sell_token: Some(s), ..state },
        FieldUpdate::BuyToken(s) => SwapState { buy_token: Some(s), ..state },
        FieldUpdate::OfferAmount(n) => SwapState { offer_amount: Some(n), ..state },
        FieldUpdate::ReturnAmount(n) => SwapState { return_amount: Some(n), ..state },
        FieldUpdate::Other => state,
    }
}

/// Records `update` in `state`.
pub fn apply(state: &mut SwapState, update: FieldUpdate)
    ensures
        *final(state) == apply_spec(*old(state), update),
{
    match update {
        FieldUpdate::Sender(s) => state.sender = Some(s),
        FieldUpdate::SellToken(s) => state.sell_token = Some(s),
        FieldUpdate::BuyToken(s) => state.buy_token = Some(s),
        FieldUpdate::OfferAmount(n) => state.offer_amount = Some(n),
        FieldUpdate::ReturnAmount(n) => state.return_amount = Some(n),
        FieldUpdate::Other => {},
    }
}

/// Whether finalizing `state` would negate `i128::MIN`: an XLM sale whose
/// offered amount is the one value that has no negation.
pub open spec fn negates_min(state: SwapState) -> bool {
    &&& state.sender is Some
    &&& state.sell_token is Some
    &&& state.buy_token is Some
    &&& state.buy_token->0@ != xlm_sac_id()
    &&& state.sell_token->0@ == xlm_sac_id()
    &&& state.offer_amount == Some(i128::MIN)
}

/// The trader and the signed XLM delta of a complete swap: a purchase of XLM
/// credits the amount returned, a sale of XLM debits the amount offered, and a
/// swap that involves no XLM, or whose needed fields are missing, gives
/// nothing.
pub open spec fn finalize_spec(state: SwapState) -> Option<(String, i128)> {
    match (state.sender, state.sell_token, state.buy_token) {
        (Some(sender), Some(sell), Some(buy)) => {
            if buy@ == xlm_sac_id() {
                match state.return_amount {
                    Some(n) => Some((sender, n)),
                    None => None,
                }
            } else if sell@ == xlm_sac_id() {
                match state.offer_amount {
                    Some(n) => Some((sender, -n as i128)),
                    None => None,
                }
            } else {
                None
            }
        },
        _ => None,
    }
}

/// Returns the trader and signed XLM delta once the swap is complete.
pub fn try_finalize(state: &SwapState) -> (r: Option<(String, i128)>)
    requires
        !negates_min(*state),
    ensures
        r == finalize_spec(*state),
{
    let sender = match &state.sender {
        Some(s) => s,
        None => return None,
    };
    let sell_token = match &state.sell_token {
        Some(s) => s,
        None => return None,
    };
    let buy_token = match &state.buy_token {
        Some(s) => s,
        None => return None,
    };
    let xlm = String::from_str(XLM_SAC_CONTRACT_ID);
    if *buy_token == xlm {
        match state.return_amount {
            Some(amount) => Some((sender.clone(), amount)),
            None => None,
        }
    } else if *sell_token == xlm {
        match state.offer_amount {
            Some(amount) => Some((sender.clone(), -amount)),
            None => None,
        }
    } else {
        None
    }
}


/// Which field an update sets: 0 to 4 in the order of `SwapState`'s fields,
/// 5 for none.
pub open spec fn field_of(update: FieldUpdate) -> int {
    match update {
        FieldUpdate::Sender(_) => 0,
        FieldUpdate::SellToken(_) => 1,
        FieldUpdate::BuyToken(_) => 2,
        FieldUpdate::OfferAmount(_) => 3,
        FieldUpdate::ReturnAmount(_) => 4,
        FieldUpdate::Other => 5,
    }
}

/// Updates of different fields commute: the events of one swap, which fire
/// concurrently, give the same state in whatever order they are recorded.
pub proof fn lemma_apply_commutes(state: SwapState, u1: FieldUpdate, u2: FieldUpdate)
    requires
        field_of(u1) != field_of(u2),
    ensures
        apply_spec(apply_spec(state, u1), u2) == apply_spec(apply_spec(state, u2), u1),
{
}

/// A later update of a field replaces an earlier one; in particular an event
/// recorded twice leaves the state as recording it once does.
pub proof fn lemma_apply_last_wins(state: SwapState, u1: FieldUpdate, u2: FieldUpdate)
    requires
        field_of(u1) == field_of(u2),
    ensures
        apply_spec(apply_spec(state, u1), u2) == apply_spec(state, u2),
        apply_spec(apply_spec(state, u2), u2) == apply_spec(state, u2),
{
}

/// A purchase of XLM credits the trader with exactly the XLM returned,
/// whatever was offered for it; the offered amount matters only when XLM is
/// sold.
pub proof fn lemma_finalize_buying_xlm(state: SwapState, sender: String, sell: String, buy: String, returned: i128)
    requires
        state.sender == Some(sender),
        state.sell_token == Some(sell),
        state.buy_token == Some(buy),
        buy@ == XLM_SAC_CONTRACT_ID@,
        state.return_amount == Some(returned),
    ensures
        finalize_spec(state) == Some((sender, returned)),
        forall|offered: Option<i128>|
            #[trigger] finalize_spec(SwapState { offer_amount: offered, ..state }) == Some((sender, returned)),
{
}

/// A sale of XLM (for a token other than XLM) debits the trader with exactly
/// the XLM offered, whatever was returned for it.
pub proof fn lemma_finalize_selling_xlm(state: SwapState, sender: String, sell: String, buy: String, offered: i128)
    requires
        state.sender == Some(sender),
        state.sell_token == Some(sell),
        state.buy_token == Some(buy),
        buy@ != XLM_SAC_CONTRACT_ID@,
        sell@ == XLM_SAC_CONTRACT_ID@,
        state.offer_amount == Some(offered),
        offered != i128::MIN,
    ensures
        finalize_spec(state) matches Some((t, d)) && t == sender && d as int == -(offered as int),
        forall|returned: Option<i128>|
            #[trigger] finalize_spec(SwapState { return_amount: returned, ..state }) == finalize_spec(state),
{
}

/// A swap gives a delta only with a sender and both tokens, and only when one
/// of the tokens is XLM; the trader is always the sender.
pub proof fn lemma_finalize_needs_xlm_side(state: SwapState)
    ensures
        finalize_spec(state) matches Some((t, d)) ==> {
            &&& state.sender == Some(t)
            &&& state.sell_token is Some
            &&& state.buy_token is Some
            &&& (state.buy_token->0@ == XLM_SAC_CONTRACT_ID@ || state.sell_token->0@ == XLM_SAC_CONTRACT_ID@)
        },
        (state.sender is None || state.sell_token is None || state.buy_token is None) ==> finalize_spec(state) is None,
        (state.sell_token is Some && state.sell_token->0@ != XLM_SAC_CONTRACT_ID@ && state.buy_token is Some
            && state.buy_token->0@ != XLM_SAC_CONTRACT_ID@) ==> finalize_spec(state) is None,
{
}

/// Why a swap event could not be decoded.
#[derive(Debug, Clone, Copy, PartialEq, Eq, Structural)]
pub enum DecodeError {
    /// The second topic segment is not base64 XDR of a contract value
    /// nested at most `XDR_READ_DEPTH` deep.
    TopicUndecodable,
    /// The event value is not base64 XDR of a contract value nested at most
    /// `XDR_READ_DEPTH` deep.
    ValueUndecodable,
    /// An address field did not carry an address.
    ExpectedAddress,
    /// An amount field did not carry a 128-bit signed integer.
    ExpectedI128,
}

/// The name of the field that an event carries: its second topic, when that
/// is a symbol or a string.
pub open spec fn field_key_spec(topic: ScValue) -> Option<String> {
    match topic {
        ScValue::Symbol(s) => Some(s),
        ScValue::Str(s) => Some(s),
        _ => None,
    }
}

/// The integer whose upper 64 bits are `hi` and lower 64 bits are `lo`.
pub open spec fn i128_of_parts(hi: i64, lo: u64) -> int {
    hi as int * 0x1_0000_0000_0000_0000 + lo as int
}

pub open spec fn address_spec(val: ScValue) -> Result<String, DecodeError> {
    match val {
        ScValue::Address(s) => Ok(s),
        _ => Err(DecodeError::ExpectedAddress),
    }
}

pub open spec fn i128_spec(val: ScValue) -> Result<i128, DecodeError> {
    match val {
        ScValue::I128 { hi, lo } => Ok(i128_of_parts(hi, lo) as i128),
        _ => Err(DecodeError::ExpectedI128),
    }
}

/// The update that an event with field name `key` and value `val` carries.
pub open spec fn field_update_spec(key: Seq<char>, val: ScValue) -> Result<FieldUpdate, DecodeError> {
    if key == "sender"@ {
        match address_spec(val) {
            Ok(s) => Ok(FieldUpdate::Sender(s)),
            Err(e) => Err(e),
        }
    } else if key == "sell_token"@ {
        match address_spec(val) {
            Ok(s) => Ok(FieldUpdate::SellToken(s)),
            Err(e) => Err(e),
        }
    } else if key == "buy_token"@ {
        match address_spec(val) {
            Ok(s) => Ok(FieldUpdate::BuyToken(s)),
            Err(e) => Err(e),
        }
    } else if key == "offer_amount"@ {
        match i128_spec(val) {
            Ok(n) => Ok(FieldUpdate::OfferAmount(n)),
            Err(e) => Err(e),
        }
    } else if key == "return_amount"@ {
        match i128_spec(val) {
            Ok(n) => Ok(FieldUpdate::ReturnAmount(n)),
            Err(e) => Err(e),
        }
    } else {
        Ok(FieldUpdate::Other)
    }
}

/// Only the five field names set a field, each its own: every other name,
/// whatever its value, decodes to `Other`; an amount comes only from
/// `offer_amount` or `return_amount`, and an address only from `sender`,
/// `sell_token` or `buy_token`.
pub proof fn lemma_field_update_only_named_keys(key: Seq<char>, val: ScValue)
    ensures
        key != "sender"@ && key != "sell_token"@ && key != "buy_token"@ && key != "offer_amount"@
            && key != "return_amount"@ ==> field_update_spec(key, val) == Ok::<FieldUpdate, DecodeError>(
            FieldUpdate::Other,
        ),
        field_update_spec(key, val) matches Ok(FieldUpdate::ReturnAmount(n)) ==> (key == "return_amount"@
            && (val matches ScValue::I128 { hi, lo } && n as int == i128_of_parts(hi, lo))),
        field_update_spec(key, val) matches Ok(FieldUpdate::OfferAmount(n)) ==> (key == "offer_amount"@
            && (val matches ScValue::I128 { hi, lo } && n as int == i128_of_parts(hi, lo))),
        field_update_spec(key, val) matches Ok(FieldUpdate::Sender(s)) ==> key == "sender"@ && val == ScValue::Address(s),
        field_update_spec(key, val) matches Ok(FieldUpdate::SellToken(s)) ==> key == "sell_token"@ && val == ScValue::Address(s),
        field_update_spec(key, val) matches Ok(FieldUpdate::BuyToken(s)) ==> key == "buy_token"@ && val == ScValue::Address(s),
{
    if key == "sender"@ || key == "sell_token"@ || key == "buy_token"@ || key == "offer_amount"@ {
        reveal_strlit("sender");
        reveal_strlit("sell_token");
        reveal_strlit("buy_token");
        reveal_strlit("offer_amount");
        reveal_strlit("return_amount");
    }
}

/// What an event with these topic segments and this value decodes to. The
/// topic is decoded first; the value only where the topic names a field.
pub open spec fn decode_field_spec(topics: Seq<String>, value: Seq<char>) -> Result<FieldUpdate, DecodeError> {
    if topics.len() < 2 {
        Ok(FieldUpdate::Other)
    } else {
        match scval_of_xdr_base64(topics[1]@, XDR_READ_DEPTH) {
            Err(_) => Err(DecodeError::TopicUndecodable),
            Ok(topic) => match field_key_spec(topic) {
                None => Ok(FieldUpdate::Other),
                Some(key) => match scval_of_xdr_base64(value, XDR_READ_DEPTH) {
                    Err(_) => Err(DecodeError::ValueUndecodable),
                    Ok(val) => field_update_spec(key@, val),
                },
            },
        }
    }
}

/// Decodes one swap event, given the base64 XDR of its topic segments and of
/// its value, into the field update it carries.
pub fn decode_field(topic_segments: &[String], value: &str) -> (r: Result<FieldUpdate, DecodeError>)
    ensures
        r == decode_field_spec(topic_segments@, value@),
{
    if topic_segments.len() < 2 {
        return Ok(FieldUpdate::Other);
    }
    let topic = match scval_from_xdr_base64(topic_segments[1].as_str(), XDR_READ_DEPTH) {
        Ok(v) => v,
        Err(_) => return Err(DecodeError::TopicUndecodable),
    };
    let key = match field_key(&topic) {
        Some(k) => k,
        None => return Ok(FieldUpdate::Other),
    };
    let val = match scval_from_xdr_base64(value, XDR_READ_DEPTH) {
        Ok(v) => v,
        Err(_) => return Err(DecodeError::ValueUndecodable),
    };
    field_update(&key, &val)
}

/// The field name that a decoded topic carries.
pub fn field_key(topic: &ScValue) -> (r: Option<String>)
    ensures
        r == field_key_spec(*topic),
{
    match topic {
        ScValue::Symbol(s) => Some(s.clone()),
        ScValue::Str(s) => Some(s.clone()),
        _ => None,
    }
}

/// The update carried by an event whose field name is `key` and whose
/// decoded value is `val`.
pub fn field_update(key: &String, val: &ScValue) -> (r: Result<FieldUpdate, DecodeError>)
    ensures
        r == field_update_spec(key@, *val),
{
    if *key == String::from_str("sender") {
        match decode_address_strkey(val) {
            Ok(s) => Ok(FieldUpdate::Sender(s)),
            Err(e) => Err(e),
        }
    } else if *key == String::from_str("sell_token") {
        match decode_address_strkey(val) {
            Ok(s) => Ok(FieldUpdate::SellToken(s)),
            Err(e) => Err(e),
        }
    } else if *key == String::from_str("buy_token") {
        match decode_address_strkey(val) {
            Ok(s) => Ok(FieldUpdate::BuyToken(s)),
            Err(e) => Err(e),
        }
    } else if *key == String::from_str("offer_amount") {
        match decode_i128(val) {
            Ok(n) => Ok(FieldUpdate::OfferAmount(n)),
            Err(e) => Err(e),
        }
    } else if *key == String::from_str("return_amount") {
        match decode_i128(val) {
            Ok(n) => Ok(FieldUpdate::ReturnAmount(n)),
            Err(e) => Err(e),
        }
    } else {
        Ok(FieldUpdate::Other)
    }
}

/// The strkey of an address value.
pub fn decode_address_strkey(val: &ScValue) -> (r: Result<String, DecodeError>)
    ensures
        r == address_spec(*val),
{
    match val {
        ScValue::Address(s) => Ok(s.clone()),
        _ => Err(DecodeError::ExpectedAddress),
    }
}

/// Joins the halves of a 128-bit signed integer.
pub fn decode_i128(val: &ScValue) -> (r: Result<i128, DecodeError>)
    ensures
        r == i128_spec(*val),
        r matches Ok(n) ==> *val matches ScValue::I128 { hi, lo } && n == i128_of_parts(hi, lo),
{
    match val {
        ScValue::I128 { hi, lo } => {
            let hi = *hi;
            let lo = *lo;
            let n: i128 = ((hi as i128) << 64u32) | (lo as u128 as i128);
            assert(n as int == hi as int * 0x1_0000_0000_0000_0000 + lo as int) by (bit_vector)
                requires
                    n == ((hi as i128) << 64u32) | (lo as u128 as i128),
            ;
            Ok(n)
        },
        _ => Err(DecodeError::ExpectedI128),
    }
}

} // verus!
