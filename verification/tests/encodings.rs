use alloy_primitives::{Bytes, FixedBytes};
use alloy_sol_types::SolValue;
use hodlers::abi::{Envelope, HodlersPayload};
use hodlers::payload::{encode, split_i128};
use hodlers::phoenix::decode_i128;
use hodlers::xdr::ScValue;
use stellar_xdr::curr::{Limits, ReadXdr, ScVal};

#[test]
fn payload_round_trips() {
    let sent = HodlersPayload {
        trader: "GAFRT3TQNZH2DVKMSAERPA5QDDXBLMSF6VRDOOEX4CYVXSXNW6YGBLGM".to_string(),
        delta: -1_234_567,
    };
    let encoded = sent.abi_encode();
    let decoded = HodlersPayload::abi_decode_from(&encoded).unwrap();
    assert_eq!(decoded.trader, sent.trader);
    assert_eq!(decoded.delta, sent.delta);
}

#[test]
fn payload_abi_matches_solidity_tuple() {
    let p = HodlersPayload { trader: "GA".to_string(), delta: 42 };
    let encoded = p.abi_encode();
    assert_eq!(encoded, ("GA".to_string(), 42i128).abi_encode());
    // outer offset, string offset, delta, string length, one padded data word
    assert_eq!(encoded.len(), 5 * 32);
    assert_eq!(encoded[31], 0x20);
    assert_eq!(encoded[63], 0x40);
    assert_eq!(encoded[95], 42);
    assert_eq!(encoded[127], 2);
    assert_eq!(&encoded[128..130], b"GA");
}

#[test]
fn payload_abi_decode_rejects_garbage() {
    assert!(HodlersPayload::abi_decode_from(&[1, 2, 3]).is_none());
}

#[test]
fn envelope_abi_decode_reads_fields() {
    let mut id = [0u8; 20];
    id[19] = 7;
    let ordering = [9u8; 12];
    let payload = vec![1u8, 2, 3];
    let bytes = (FixedBytes::<20>(id), FixedBytes::<12>(ordering), Bytes::from(payload.clone())).abi_encode();
    let e = Envelope::abi_decode_from(&bytes).unwrap();
    assert_eq!(e.event_id, id);
    assert_eq!(e.ordering, ordering);
    assert_eq!(e.payload, payload);
    assert!(Envelope::abi_decode_from(&bytes[..40]).is_none());
}

#[test]
fn split_i128_round_trips_through_decode() {
    for x in [0i128, 1, -1, 1_234_567, -1_234_567, i128::MAX, i128::MIN, 1i128 << 64, -(1i128 << 64)] {
        let (hi, lo) = split_i128(x);
        assert_eq!(decode_i128(&ScValue::I128 { hi, lo }), Ok(x));
    }
    assert_eq!(split_i128(-1), (-1, u64::MAX));
    assert_eq!(split_i128((5i128 << 64) + 9), (5, 9));
}

#[test]
fn encode_writes_sorted_soroban_map() {
    let trader = "GAFRT3TQNZH2DVKMSAERPA5QDDXBLMSF6VRDOOEX4CYVXSXNW6YGBLGM";
    let bytes = encode(trader, -1_234_567).unwrap();
    let val = ScVal::from_xdr(&bytes, Limits::none()).unwrap();
    let map = match val {
        ScVal::Map(Some(m)) => m,
        other => panic!("expected a map, got {other:?}"),
    };
    assert_eq!(map.0.len(), 2);
    match (&map.0[0].key, &map.0[0].val) {
        (ScVal::Symbol(k), ScVal::I128(p)) => {
            assert_eq!(k.0.to_string(), "delta");
            assert_eq!(decode_i128(&ScValue::I128 { hi: p.hi, lo: p.lo }), Ok(-1_234_567));
        },
        other => panic!("unexpected first entry {other:?}"),
    }
    match (&map.0[1].key, &map.0[1].val) {
        (ScVal::Symbol(k), ScVal::String(s)) => {
            assert_eq!(k.0.to_string(), "trader");
            assert_eq!(s.0.to_string(), trader);
        },
        other => panic!("unexpected second entry {other:?}"),
    }
}

#[test]
fn encode_empty_trader_minus_one_exact_bytes() {
    let mut expected: Vec<u8> = vec![0, 0, 0, 17, 0, 0, 0, 1, 0, 0, 0, 2];
    expected.extend_from_slice(&[0, 0, 0, 15, 0, 0, 0, 5, b'd', b'e', b'l', b't', b'a', 0, 0, 0]);
    expected.extend_from_slice(&[0, 0, 0, 10]);
    expected.extend_from_slice(&[0xff; 16]);
    expected.extend_from_slice(&[0, 0, 0, 15, 0, 0, 0, 6, b't', b'r', b'a', b'd', b'e', b'r', 0, 0]);
    expected.extend_from_slice(&[0, 0, 0, 14, 0, 0, 0, 0]);
    assert_eq!(encode("", -1).unwrap(), expected);
}

#[test]
fn payload_abi_exact_bytes_for_negative_delta() {
    let p = HodlersPayload { trader: "GA".to_string(), delta: -1 };
    let mut expected = vec![0u8; 31];
    expected.push(0x20);
    expected.extend_from_slice(&[0u8; 31]);
    expected.push(0x40);
    expected.extend_from_slice(&[0xff; 32]);
    expected.extend_from_slice(&[0u8; 31]);
    expected.push(2);
    expected.extend_from_slice(b"GA");
    expected.extend_from_slice(&[0u8; 30]);
    assert_eq!(p.abi_encode(), expected);
}
