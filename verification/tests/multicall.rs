use optimal_sizing::integration::{
    decode_address, decode_uint256_as_u128, encode_uint256_arg, from_hex, normalize,
    size_curve_3pool, size_uniswap_v2, to_hex, try_from_hex,
};
use optimal_sizing::multicall::{
    is_valid_hex, try_encode_aggregate3, decode_aggregate3_result, encode_aggregate3, encode_bytes_value, from_hex_bytes,
    read_uint256, try_decode_aggregate3_result, word_address, word_bool, word_uint256, Call3,
    MULTICALL3_ADDRESS, SEL_AGGREGATE3,
};
use optimal_sizing::Dec;

/// Builds a `(bool,bytes)[]` result the way `aggregate3` returns it.
fn encode_results(payloads: &[Vec<u8>], success: bool) -> Vec<u8> {
    let mut tuple_bodies = Vec::new();
    for p in payloads {
        let mut body = Vec::new();
        body.extend_from_slice(&word_bool(success));
        body.extend_from_slice(&word_uint256(64));
        body.extend_from_slice(&encode_bytes_value(p));
        tuple_bodies.push(body);
    }
    let n = payloads.len() as u64;
    let mut offsets = Vec::new();
    let mut running = 32 * n;
    for body in &tuple_bodies {
        offsets.push(word_uint256(running));
        running += body.len() as u64;
    }
    let mut array_data = Vec::new();
    array_data.extend_from_slice(&word_uint256(n));
    for o in &offsets {
        array_data.extend_from_slice(o);
    }
    for b in &tuple_bodies {
        array_data.extend_from_slice(b);
    }
    let mut full = Vec::new();
    full.extend_from_slice(&word_uint256(32));
    full.extend_from_slice(&array_data);
    full
}

#[test]
fn decode_round_trips_two_results_of_different_lengths() {
    let payloads: Vec<Vec<u8>> = vec![vec![0x11, 0x22], vec![0xaa, 0xbb, 0xcc, 0xdd]];

    let mut tuple_bodies = Vec::new();
    for p in &payloads {
        let mut body = Vec::new();
        body.extend_from_slice(&word_bool(true));
        body.extend_from_slice(&word_uint256(64));
        body.extend_from_slice(&encode_bytes_value(p));
        tuple_bodies.push(body);
    }
    let n = payloads.len() as u64;
    let head_len = 32 * n;
    let mut offsets = Vec::new();
    let mut running = head_len;
    for body in &tuple_bodies {
        offsets.push(word_uint256(running));
        running += body.len() as u64;
    }
    let mut array_data = Vec::new();
    array_data.extend_from_slice(&word_uint256(n));
    for o in &offsets {
        array_data.extend_from_slice(o);
    }
    for b in &tuple_bodies {
        array_data.extend_from_slice(b);
    }

    let mut full = Vec::new();
    full.extend_from_slice(&word_uint256(32));
    full.extend_from_slice(&array_data);

    let decoded = decode_aggregate3_result(&full);
    assert_eq!(decoded, payloads);
}

#[test]
fn encode_aggregate3_starts_with_verified_selector() {
    let calls = vec![Call3::new("0xB4e16d0168e52d35CaCD2c6185b44281Ec28C9Dc", "0902f1ac")];
    let encoded = encode_aggregate3(&calls);
    assert!(encoded.starts_with(SEL_AGGREGATE3));
}

#[test]
fn encode_then_decode_shape_is_internally_consistent() {
    let calls = vec![
        Call3::new("0xB4e16d0168e52d35CaCD2c6185b44281Ec28C9Dc", "0902f1ac"),
        Call3::new("0xbEbc44782C7dB0a1A60Cb6fe97d0b483032FF1C7", "f446c1d0"),
        Call3::new("0xbEbc44782C7dB0a1A60Cb6fe97d0b483032FF1C7", "ddca3f43"),
    ];
    let encoded = encode_aggregate3(&calls);
    let bytes = from_hex_bytes(&encoded[8..]);
    let array_offset = read_uint256(&bytes[0..32]) as usize;
    let n = read_uint256(&bytes[array_offset..array_offset + 32]);
    assert_eq!(n, 3);
}

#[test]
fn encode_aggregate3_exact_layout_for_one_call() {
    let calls = vec![Call3::new("0xB4e16d0168e52d35CaCD2c6185b44281Ec28C9Dc", "0902f1ac")];
    let encoded = encode_aggregate3(&calls);
    let bytes = from_hex_bytes(&encoded[8..]);
    // offset word, length word, one offset word, then a 5-word body:
    // address, allowFailure, bytes offset, bytes length, 4 data bytes padded.
    assert_eq!(bytes.len(), 32 * 3 + 32 * 5);
    assert_eq!(read_uint256(&bytes[64..96]), 32);
    let body = &bytes[96..];
    assert_eq!(&body[12..32], &from_hex_bytes("B4e16d0168e52d35CaCD2c6185b44281Ec28C9Dc")[..]);
    assert_eq!(read_uint256(&body[32..64]), 0);
    assert_eq!(read_uint256(&body[64..96]), 96);
    assert_eq!(read_uint256(&body[96..128]), 4);
    assert_eq!(&body[128..132], &[0x09, 0x02, 0xf1, 0xac]);
    assert!(body[132..160].iter().all(|&b| b == 0));
}

#[test]
fn word_uint256_round_trips_through_read_uint256() {
    for v in [0u64, 1, 255, 256, 0x0102030405060708, u64::MAX] {
        let w = word_uint256(v);
        assert!(w[..24].iter().all(|&b| b == 0));
        assert_eq!(read_uint256(&w), v);
    }
    assert_eq!(word_uint256(0x0102)[30..32], [0x01, 0x02]);
}

#[test]
fn word_bool_sets_only_the_last_byte() {
    assert_eq!(word_bool(true)[31], 1);
    assert!(word_bool(false).iter().all(|&b| b == 0));
}

#[test]
fn word_address_right_aligns_twenty_bytes() {
    let w = word_address(MULTICALL3_ADDRESS);
    assert!(w[..12].iter().all(|&b| b == 0));
    assert_eq!(w[12], 0xca);
    assert_eq!(w[31], 0x11);
}

#[test]
fn bytes_value_is_padded_to_a_word() {
    let enc = encode_bytes_value(&[1, 2, 3]);
    assert_eq!(enc.len(), 64);
    assert_eq!(read_uint256(&enc[0..32]), 3);
    assert_eq!(&enc[32..35], &[1, 2, 3]);
    assert_eq!(encode_bytes_value(&[0u8; 32]).len(), 64);
    assert_eq!(encode_bytes_value(&[]).len(), 32);
}

#[test]
fn hex_round_trip_and_prefix_and_sign() {
    let bytes = vec![0x00, 0x0f, 0xa0, 0xff];
    assert_eq!(to_hex(&bytes), "000fa0ff");
    assert_eq!(from_hex(&to_hex(&bytes)), bytes);
    assert_eq!(from_hex("0xFF0a"), vec![0xff, 0x0a]);
    // Each pair goes through `u8::from_str_radix`, which takes a leading '+'.
    assert_eq!(from_hex_bytes("+f10"), vec![0x0f, 0x10]);
    assert_eq!(from_hex_bytes(""), Vec::<u8>::new());
}

#[test]
fn decode_rejects_a_failed_entry_and_truncated_data() {
    let ok = encode_results(&[vec![1, 2, 3]], true);
    assert_eq!(try_decode_aggregate3_result(&ok), Some(vec![vec![1, 2, 3]]));
    let failed = encode_results(&[vec![1, 2, 3]], false);
    assert_eq!(try_decode_aggregate3_result(&failed), None);
    assert_eq!(try_decode_aggregate3_result(&ok[..ok.len() - 40]), None);
    assert_eq!(try_decode_aggregate3_result(&[0u8; 16]), None);
    assert_eq!(try_decode_aggregate3_result(&encode_results(&[], true)), Some(vec![]));
}

#[test]
fn integration_slot_helpers() {
    assert_eq!(encode_uint256_arg(2), format!("{}02", "0".repeat(62)));
    let mut slot = [0u8; 32];
    slot[30] = 0x01;
    slot[31] = 0x00;
    assert_eq!(decode_uint256_as_u128(&slot), 256);
    slot[16] = 0x01;
    assert_eq!(decode_uint256_as_u128(&slot), (1u128 << 120) + 256);
    let mut addr = [0u8; 32];
    addr[12] = 0xab;
    addr[31] = 0x01;
    let text = decode_address(&addr);
    assert_eq!(text.len(), 42);
    assert!(text.starts_with("0xab"));
    assert!(text.ends_with("01"));
}

#[test]
fn normalize_scales_by_decimals() {
    let v = normalize(1_500_000, 6).unwrap();
    assert_eq!(v, Dec::parse("1.5").unwrap());
    let w = normalize(42, 0).unwrap();
    assert_eq!(w, Dec::from_u64(42));
}

fn inum(s: &str) -> Dec {
    Dec::parse(s).unwrap()
}

fn ibig(x: &Dec) -> rust_decimal::Decimal {
    rust_decimal::Decimal::from_i128_with_scale(x.mantissa(), x.scale())
}

#[test]
fn uniswap_sizing_uses_a_tenth_of_a_percent_below_marginal() {
    let s = size_uniswap_v2(inum("1000"), inum("2000"), None).unwrap();
    assert_eq!(s.marginal_price, inum("1.994"));
    assert_eq!(s.reference_price, inum("1.992006"));
    assert!(s.outcome.is_ok());
    let t = size_uniswap_v2(inum("1000"), inum("2000"), Some(inum("2.5"))).unwrap();
    assert_eq!(t.reference_price, inum("2.5"));
    assert!(size_uniswap_v2(inum("0"), inum("2000"), None).is_err());
}

#[test]
fn curve_sizing_reads_fee_and_amplification() {
    let s = size_curve_3pool(inum("1000"), inum("1200"), inum("900"), 200, 4_000_000, None, None)
        .unwrap();
    assert_eq!(s.amplification_unscaled, inum("200"));
    assert_eq!(s.amplification_scaled, inum("2"));
    assert_eq!(s.pool.fee_retention, inum("0.9996"));
    assert_eq!(s.epsilon, inum("0.0012"));
    let est = s.estimate.unwrap();
    assert!(ibig(&est.marginal_price) < ibig(&inum("1")));
    assert!(ibig(&est.marginal_price) > ibig(&inum("0.99")));
    assert_eq!(
        ibig(&est.reference_price),
        ibig(&est.marginal_price) * ibig(&inum("0.999"))
    );
    let o = size_curve_3pool(inum("1000"), inum("1000"), inum("1000"), 0, 4_000_000, Some(inum("50")), None)
        .unwrap();
    assert_eq!(o.pool.amplification, inum("50"));
    assert!(size_curve_3pool(inum("1000"), inum("1000"), inum("1000"), 0, 4_000_000, None, None).is_err());
}

#[test]
fn hex_checks_and_checked_encoding() {
    assert!(is_valid_hex("0x0a0B"));
    assert!(is_valid_hex(""));
    assert!(!is_valid_hex("0x0"));
    assert!(!is_valid_hex("zz"));
    assert_eq!(try_from_hex("0xff01"), Some(vec![255, 1]));
    assert_eq!(try_from_hex("0xf"), None);
    let good = Call3::new("0x000000000000000000000000000000000000dEaD", "0902f1ac");
    let encoded = try_encode_aggregate3(&[good]).unwrap();
    let again = encode_aggregate3(&[Call3::new(
        "0x000000000000000000000000000000000000dEaD",
        "0902f1ac",
    )]);
    assert_eq!(encoded, again);
    let short = Call3::new("0xdead", "0902f1ac");
    assert!(try_encode_aggregate3(&[short]).is_none());
}
