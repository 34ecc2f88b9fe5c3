//! Stellar XDR values as far as this library reads and writes them, and the
//! calls into `stellar_xdr` that decode and encode them.
use stellar_xdr::curr::{
    Int128Parts, Limits, ReadXdr, ScMap, ScMapEntry, ScString, ScSymbol, ScVal, WriteXdr,
};
use vstd::prelude::*;
use vstd::utf8::encode_utf8;

verus! {

/// A contract value, reduced to what the swap accumulator reads: symbols and
/// strings by their escaped text, addresses by their strkey, 128-bit integers
/// by their halves. Every other kind of value is `Other`.
#[derive(Debug)]
pub enum ScValue {
    Symbol(String),
    Str(String),
    Address(String),
    I128 { hi: i64, lo: u64 },
    Other,
}

/// The bytes were not a well-formed XDR value of the expected type.
#[derive(Debug, Clone, Copy, PartialEq, Eq, Structural)]
pub struct XdrError;

/// How deeply XDR values may nest while the swap accumulator decodes them.
/// Reading nests one call per level, so an unbounded depth would let a
/// crafted event exhaust the stack.
pub const XDR_READ_DEPTH: u32 = 500;

/// What `ScVal::from_xdr_base64`, with its nesting depth limited to `depth`
/// and no length limit, gives for the base64 text, as an `ScValue`.
pub uninterp spec fn scval_of_xdr_base64(b64: Seq<char>, depth: u32) -> Result<ScValue, XdrError>;

/// Decodes base64 text as one XDR `ScVal` with `stellar_xdr`'s
/// `ScVal::from_xdr_base64` and `Limits::depth(depth)`, which refuses with an
/// error any value nested deeper than `depth`. Symbols and strings are
/// rendered with `Display` (which escapes bytes that are not printable
/// ASCII), and addresses with their strkey `Display`. The contract names the
/// result and says nothing more of it.
#[verifier::external_body]
pub(crate) fn scval_from_xdr_base64(b64: &str, depth: u32) -> (r: Result<ScValue, XdrError>)
    ensures
        r == scval_of_xdr_base64(b64@, depth),
{
    match ScVal::from_xdr_base64(b64, Limits::depth(depth)) {
        Ok(ScVal::Symbol(ScSymbol(s))) => Ok(ScValue::Symbol(s.to_string())),
        Ok(ScVal::String(s)) => Ok(ScValue::Str(s.to_string())),
        Ok(ScVal::Address(a)) => Ok(ScValue::Address(a.to_string())),
        Ok(ScVal::I128(p)) => Ok(ScValue::I128 { hi: p.hi, lo: p.lo }),
        Ok(_) => Ok(ScValue::Other),
        Err(_) => Err(XdrError),
    }
}

/// A value stored under a symbol key in an XDR map written by this library.
#[derive(Debug)]
pub enum MapValue {
    I128 { hi: i64, lo: u64 },
    Str(String),
}

/// The abstract form of a `MapValue`, with the string taken by its characters.
pub enum MapValueView {
    I128 { hi: i64, lo: u64 },
    Str(Seq<char>),
}

/// One entry of an XDR map whose keys are symbols.
#[derive(Debug)]
pub struct SymbolEntry {
    pub key: String,
    pub val: MapValue,
}

impl View for SymbolEntry {
    type V = (Seq<char>, MapValueView);

    open spec fn view(&self) -> (Seq<char>, MapValueView) {
        (
            self.key@,
            match self.val {
                MapValue::I128 { hi, lo } => MapValueView::I128 { hi, lo },
                MapValue::Str(s) => MapValueView::Str(s@),
            },
        )
    }
}

/// The number of bytes in the UTF-8 encoding of `s`.
pub open spec fn utf8_len(s: Seq<char>) -> nat {
    encode_utf8(s).len()
}

/// Whether XDR can hold the entry: a symbol has at most 32 bytes, a string
/// at most `u32::MAX`.
pub open spec fn entry_fits(e: (Seq<char>, MapValueView)) -> bool {
    &&& utf8_len(e.0) <= 32
    &&& match e.1 {
        MapValueView::Str(s) => utf8_len(s) <= u32::MAX,
        MapValueView::I128 { .. } => true,
    }
}

/// Whether XDR can hold the whole map: at most `u32::MAX` entries, each of
/// which fits.
pub open spec fn symbol_map_fits(entries: Seq<(Seq<char>, MapValueView)>) -> bool {
    &&& entries.len() <= u32::MAX
    &&& forall|i: int| 0 <= i < entries.len() ==> #[trigger] entry_fits(entries[i])
}

/// The `width` low bytes of `n`, most significant first.
pub open spec fn be_bytes(n: nat, width: nat) -> Seq<u8>
    decreases width,
{
    if width == 0 {
        Seq::empty()
    } else {
        be_bytes(n / 256, (width - 1) as nat).push((n % 256) as u8)
    }
}

/// An XDR unsigned 32-bit integer (also an enum discriminant or a length).
pub open spec fn xdr_u32(n: nat) -> Seq<u8> {
    be_bytes(n, 4)
}

/// XDR variable-length opaque data: its length, the bytes, and zero padding
/// up to a multiple of four bytes.
pub open spec fn xdr_opaque(b: Seq<u8>) -> Seq<u8> {
    xdr_u32(b.len()) + b + Seq::new(((4 - b.len() % 4) % 4) as nat, |i: int| 0u8)
}

/// The XDR of one map entry: the key as `ScVal::Symbol` (discriminant 15),
/// the value as `ScVal::I128` (discriminant 10, then the two's-complement
/// upper half and the lower half, eight bytes each) or as `ScVal::String`
/// (discriminant 14).
pub open spec fn xdr_entry(e: (Seq<char>, MapValueView)) -> Seq<u8> {
    xdr_u32(15) + xdr_opaque(encode_utf8(e.0)) + match e.1 {
        MapValueView::I128 { hi, lo } => xdr_u32(10) + be_bytes(
            (hi as int % 0x1_0000_0000_0000_0000) as nat,
            8,
        ) + be_bytes(lo as nat, 8),
        MapValueView::Str(s) => xdr_u32(14) + xdr_opaque(encode_utf8(s)),
    }
}

/// The XDR of the entries, one after the other in the order given.
pub open spec fn xdr_entries(entries: Seq<(Seq<char>, MapValueView)>) -> Seq<u8>
    decreases entries.len(),
{
    if entries.len() == 0 {
        Seq::empty()
    } else {
        xdr_entries(entries.drop_last()) + xdr_entry(entries.last())
    }
}

/// The bytes of `ScVal::Map(Some(..))` holding these entries: the `Map`
/// discriminant (17), the present option (1), the number of entries, and the
/// entries in order.
pub open spec fn xdr_of_symbol_map(entries: Seq<(Seq<char>, MapValueView)>) -> Seq<u8> {
    xdr_u32(17) + xdr_u32(1) + xdr_u32(entries.len()) + xdr_entries(entries)
}

/// Writes `ScVal::Map(Some(ScMap(entries)))` with `stellar_xdr`'s `to_xdr`
/// and no limits, keys as `ScVal::Symbol`, strings as `ScVal::String` and
/// integers as `ScVal::I128`, in the order given. `StringM` and `VecM` refuse
/// exactly the keys, strings and entry lists that do not fit; with no limits
/// the write itself cannot fail. The bytes are those of the XDR encoding that
/// `write_xdr` produces for these types.
#[verifier::external_body]
pub(crate) fn xdr_encode_symbol_map(entries: &Vec<SymbolEntry>) -> (r: Result<Vec<u8>, XdrError>)
    ensures
        r is Ok <==> symbol_map_fits(entries@.map_values(|e: SymbolEntry| e@)),
        r matches Ok(b) ==> b@ == xdr_of_symbol_map(entries@.map_values(|e: SymbolEntry| e@)),
{
    let mut v = std::vec::Vec::new();
    for e in entries.iter() {
        let key = ScVal::Symbol(ScSymbol(e.key.as_bytes().try_into().map_err(|_| XdrError)?));
        let val = match &e.val {
            MapValue::I128 { hi, lo } => ScVal::I128(Int128Parts { hi: *hi, lo: *lo }),
            MapValue::Str(s) => ScVal::String(ScString(s.as_bytes().try_into().map_err(|_| XdrError)?)),
        };
        v.push(ScMapEntry { key, val });
    }
    let map = ScMap(v.try_into().map_err(|_| XdrError)?);
    ScVal::Map(Some(map)).to_xdr(Limits::none()).map_err(|_| XdrError)
}

} // verus!
