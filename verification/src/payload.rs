//! The payload that carries one trader's XLM delta, written as the XDR of a
//! Soroban `contracttype` struct `HodlersPayload { delta: i128, trader: String }`.
use crate::phoenix::i128_of_parts;
use crate::xdr::{
    entry_fits, symbol_map_fits, utf8_len, xdr_encode_symbol_map, xdr_of_symbol_map, MapValue, MapValueView, SymbolEntry,
};
use vstd::prelude::*;
use vstd::utf8::is_ascii_chars_encode_utf8;

verus! {

/// Why a payload could not be encoded.
#[derive(Debug, Clone, Copy, PartialEq, Eq, Structural)]
pub enum PayloadError {
    /// The trader's strkey has more bytes than an XDR string can hold.
    TraderTooLong,
}

/// The upper 64 bits of `x`, as a signed integer.
pub open spec fn hi_part(x: i128) -> i64 {
    (x as int / 0x1_0000_0000_0000_0000) as i64
}

/// The lower 64 bits of `x`.
pub open spec fn lo_part(x: i128) -> u64 {
    (x as int % 0x1_0000_0000_0000_0000) as u64
}

/// Splits `x` into the halves of an XDR `Int128Parts`.
pub fn split_i128(x: i128) -> (r: (i64, u64))
    ensures
        r == (hi_part(x), lo_part(x)),
        i128_of_parts(r.0, r.1) == x,
{
    let hi = (x >> 64u32) as i64;
    let lo = (x as u128 & (u64::MAX as u128)) as u64;
    assert(hi as int == x as int / 0x1_0000_0000_0000_0000 && lo as int == x as int % 0x1_0000_0000_0000_0000
        && hi as int * 0x1_0000_0000_0000_0000 + lo as int == x as int) by (bit_vector)
        requires
            hi == (x >> 64u32) as i64,
            lo == (x as u128 & (u64::MAX as u128)) as u64,
    ;
    (hi, lo)
}

/// The halves that `split_i128` gives join back, as `decode_i128` joins
/// them, to the integer that was split.
pub proof fn lemma_i128_parts_round_trip(x: i128)
    ensures
        i128_of_parts(hi_part(x), lo_part(x)) == x,
{
    let q = x as int / 0x1_0000_0000_0000_0000;
    let r = x as int % 0x1_0000_0000_0000_0000;
    assert(-0x8000_0000_0000_0000 <= q < 0x8000_0000_0000_0000);
    assert(q * 0x1_0000_0000_0000_0000 + r == x as int);
}

/// The entries of the payload map, sorted by key as Soroban requires:
/// `delta` before `trader`.
pub open spec fn payload_entries(trader: Seq<char>, delta: i128) -> Seq<(Seq<char>, MapValueView)> {
    seq![
        ("delta"@, MapValueView::I128 { hi: hi_part(delta), lo: lo_part(delta) }),
        ("trader"@, MapValueView::Str(trader)),
    ]
}

/// The payload map holds exactly two entries, `delta` then `trader`; the
/// halves written for `delta` join back, as `decode_i128` joins them, to the
/// delta given, for every delta; and `trader` holds the trader's text.
pub proof fn lemma_encoded_entries_round_trip(trader: Seq<char>, delta: i128)
    ensures
        payload_entries(trader, delta).len() == 2,
        payload_entries(trader, delta)[0].0 == "delta"@,
        payload_entries(trader, delta)[0].1 matches MapValueView::I128 { hi, lo } && i128_of_parts(hi, lo) == delta,
        payload_entries(trader, delta)[1] == ("trader"@, MapValueView::Str(trader)),
{
    lemma_i128_parts_round_trip(delta);
}

/// Encodes the payload `{ delta, trader }` as the XDR of a Soroban map value.
pub fn encode(trader: &str, delta: i128) -> (r: Result<Vec<u8>, PayloadError>)
    ensures
        r is Err <==> utf8_len(trader@) > u32::MAX,
        r matches Err(e) ==> e == PayloadError::TraderTooLong,
        r matches Ok(b) ==> b@ == xdr_of_symbol_map(payload_entries(trader@, delta)),
{
    let (hi, lo) = split_i128(delta);
    let mut entries: Vec<SymbolEntry> = Vec::new();
    entries.push(SymbolEntry { key: String::from_str("delta"), val: MapValue::I128 { hi, lo } });
    entries.push(SymbolEntry { key: String::from_str("trader"), val: MapValue::Str(String::from_str(trader)) });
    proof {
        reveal_strlit("delta");
        reveal_strlit("trader");
        is_ascii_chars_encode_utf8("delta"@);
        is_ascii_chars_encode_utf8("trader"@);
        let v = entries@.map_values(|e: SymbolEntry| e@);
        assert(v =~= payload_entries(trader@, delta));
        assert(utf8_len("delta"@) == 5);
        assert(utf8_len("trader"@) == 6);
        assert(entry_fits(v[0]));
        assert(entry_fits(v[1]) <==> utf8_len(trader@) <= u32::MAX);
        assert(symbol_map_fits(v) <==> utf8_len(trader@) <= u32::MAX);
    }
    match xdr_encode_symbol_map(&entries) {
        Ok(b) => Ok(b),
        Err(_) => Err(PayloadError::TraderTooLong),
    }
}

} // verus!
