use chainlink_ocr2::bytes::{
    array20, array32, be_decode, be_i128, be_u32, be_u64, bytes_eq, bytes_lt, i128_bits, push_all,
    push_be, push_repeat,
};
use chainlink_ocr2::digest::push_sign_extended;
use chainlink_ocr2::error::ErrorCode;
use chainlink_ocr2::flux::{decimal, Decimal, Error};
use chainlink_ocr2::report::{Report, ReportContext};
use chainlink_ocr2::signers::popcount;

#[test]
fn big_endian_numbers_are_read() {
    assert_eq!(be_decode(&[]), 0);
    assert_eq!(be_decode(&[1, 2]), 258);
    assert_eq!(be_decode(&[0xFF; 16]), u128::MAX);
    assert_eq!(be_u32(&[0x12, 0x34, 0x56, 0x78]), 0x12345678);
    assert_eq!(be_u64(&[0, 0, 0, 0, 0, 0, 1, 0]), 256);
    assert_eq!(be_i128(&[0xFF; 16]), -1);
    assert_eq!(be_i128(&(-1000i128).to_be_bytes()), -1000);
    assert_eq!(be_i128(&i128::MIN.to_be_bytes()), i128::MIN);
    assert_eq!(be_i128(&i128::MAX.to_be_bytes()), i128::MAX);
    assert_eq!(be_i128(&[0; 16]), 0);
}

#[test]
fn big_endian_numbers_are_written() {
    let mut out = vec![9];
    push_be(&mut out, 0x12345678, 4);
    assert_eq!(out, vec![9, 0x12, 0x34, 0x56, 0x78]);
    let mut out = Vec::new();
    push_be(&mut out, 1, 8);
    assert_eq!(out, 1u64.to_be_bytes().to_vec());
    // only the low bytes are written
    let mut out = Vec::new();
    push_be(&mut out, 0x0102_0304, 2);
    assert_eq!(out, vec![3, 4]);
    let mut out = Vec::new();
    push_be(&mut out, 5, 0);
    assert!(out.is_empty());
    assert_eq!(i128_bits(-1), u128::MAX);
    assert_eq!(i128_bits(i128::MIN), 1u128 << 127);
    assert_eq!(i128_bits(77), 77);
}

#[test]
fn answer_bounds_are_sign_extended_to_24_bytes() {
    let mut out = Vec::new();
    push_sign_extended(&mut out, -2);
    let mut expected = vec![0xFF; 24];
    expected[23] = 0xFE;
    assert_eq!(out, expected);
    let mut out = Vec::new();
    push_sign_extended(&mut out, 258);
    let mut expected = vec![0; 24];
    expected[22] = 1;
    expected[23] = 2;
    assert_eq!(out, expected);
}

#[test]
fn bytes_are_appended_and_copied() {
    let mut out = vec![1];
    push_all(&mut out, &[2, 3]);
    push_repeat(&mut out, 7, 3);
    push_repeat(&mut out, 8, 0);
    assert_eq!(out, vec![1, 2, 3, 7, 7, 7]);
    let data: Vec<u8> = (0u8..64).collect();
    assert_eq!(array20(&data, 12).to_vec(), data[12..32].to_vec());
    assert_eq!(array32(&data, 32).to_vec(), data[32..].to_vec());
}

#[test]
fn byte_strings_are_compared_as_slices_are() {
    let samples: [&[u8]; 7] = [&[], &[0], &[0, 0], &[0, 1], &[1], &[1, 0], &[255]];
    for a in samples {
        for b in samples {
            assert_eq!(bytes_lt(a, b), a < b);
            assert_eq!(bytes_eq(a, b), a == b);
        }
    }
}

#[test]
fn set_bits_are_counted() {
    assert_eq!(popcount(0), 0);
    assert_eq!(popcount(1), 1);
    assert_eq!(popcount(0b1011), 3);
    assert_eq!(popcount(1 << 31), 1);
    assert_eq!(popcount(u32::MAX), 32);
    assert_eq!(popcount(0x0007_ffff), 19);
}

#[test]
fn a_report_is_unpacked() {
    let mut raw = Vec::new();
    raw.extend_from_slice(&1_650_000_000u32.to_be_bytes());
    raw.push(4);
    let observers: Vec<u8> = (10u8..42).collect();
    raw.extend_from_slice(&observers);
    raw.extend_from_slice(&(-123_456_789i128).to_be_bytes());
    raw.extend_from_slice(&987_654_321u64.to_be_bytes());
    assert_eq!(raw.len(), Report::LEN);

    let report = Report::unpack(&raw).unwrap();
    assert_eq!(report.observations_timestamp, 1_650_000_000);
    assert_eq!(report.observer_count, 4);
    // the first 19 of the 32 observer bytes are kept
    assert_eq!(report.observers.to_vec(), observers[..19].to_vec());
    assert_eq!(report.median, -123_456_789);
    assert_eq!(report.juels_per_lamport, 987_654_321);

    assert_eq!(Report::unpack(&raw[..60]).err(), Some(ErrorCode::InvalidInput));
    raw.push(0);
    assert_eq!(Report::unpack(&raw).err(), Some(ErrorCode::InvalidInput));
}

#[test]
fn a_report_context_is_unpacked() {
    let mut raw = Vec::new();
    let digest: Vec<u8> = (100u8..132).collect();
    raw.extend_from_slice(&digest);
    raw.extend_from_slice(&[0xAA; 27]);
    raw.extend_from_slice(&0x01020304u32.to_be_bytes());
    raw.push(9);
    raw.extend_from_slice(&[0xBB; 32]);
    assert_eq!(raw.len(), ReportContext::LEN);

    let context = ReportContext::unpack(&raw).unwrap();
    assert_eq!(context.config_digest.to_vec(), digest);
    assert_eq!(context.epoch, 0x01020304);
    assert_eq!(context.round, 9);
    assert_eq!(ReportContext::unpack(&raw[..95]).err(), Some(ErrorCode::InvalidInput));
}

#[test]
fn whole_numbers_are_scaled_to_fixed_point() {
    assert_eq!(decimal(0, 9), 0);
    assert_eq!(decimal(7, 0), 7);
    assert_eq!(decimal(45, 8), 4_500_000_000);
    assert_eq!(decimal(60, 8), 6_000_000_000);
    assert_eq!(decimal(3, 38), 3 * 10u128.pow(38));
}

#[test]
fn a_price_keeps_its_value_and_decimals() {
    let price = Decimal::new(1_234_567, 5);
    assert_eq!(price.value, 1_234_567);
    assert_eq!(price.decimals, 5);
    assert_eq!(price, Decimal { value: 1_234_567, decimals: 5 });
}

#[test]
fn errors_have_their_numbers() {
    let all = [
        Error::NotRentExempt,
        Error::InsufficientFunds,
        Error::OwnerMismatch,
        Error::MissingSignature,
        Error::InvalidOracle,
        Error::AlreadyInUse,
        Error::UninitializedState,
        Error::InvalidInstruction,
        Error::InvalidState,
        Error::Overflow,
    ];
    for (i, error) in all.iter().enumerate() {
        assert_eq!(error.code(), i as u32);
    }
}

#[test]
fn a_price_is_written_with_its_decimal_point() {
    assert_eq!(Decimal::new(4_500_000_000, 9).to_string(), "4.500000000");
    assert_eq!(Decimal::new(5, 9).to_string(), "0.000000005");
    assert_eq!(Decimal::new(1_234_567, 5).to_string(), "12.34567");
    assert_eq!(Decimal::new(100, 3).to_string(), "0.100");
    assert_eq!(Decimal::new(0, 3).to_string(), "0.000");
    // without decimal places the point comes last
    assert_eq!(Decimal::new(123, 0).to_string(), "123.");
    assert_eq!(Decimal::new(0, 0).to_string(), "0.");
    assert_eq!(
        Decimal::new(u128::MAX, 38).to_string(),
        "3.40282366920938463463374607431768211455"
    );
}
