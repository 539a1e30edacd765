use canviewer::signal_parser::{parse_signal, ParsedSignal, SignalParseError};
use canviewer::tree_dbc::{ByteOrder, NumericVal, Signal, SignalType};

fn plain_signal(start_bit: u64, length_bits: u64, signed: bool, signal_type: SignalType) -> Signal {
    Signal {
        name: "S".to_string(),
        comment: None,
        signal_type,
        order: ByteOrder::LittleEndian,
        start_bit,
        length_bits,
        unit: "".to_string(),
        min: NumericVal::Uint(0),
        max: NumericVal::Uint(0),
        signed,
    }
}

fn linear(start_bit: u64, length_bits: u64, signed: bool) -> Signal {
    plain_signal(
        start_bit,
        length_bits,
        signed,
        SignalType::Linear { multi_bits: 1.0f64.to_bits(), offset_bits: 0.0f64.to_bits() },
    )
}

fn raw_of(parsed: ParsedSignal) -> i64 {
    match parsed {
        ParsedSignal::Number { raw, .. } => raw,
        other => panic!("expected a numeric value, got {:?}", other),
    }
}

#[test]
fn range_check_too_short() {
    let sig = linear(60, 8, false);
    let payload = [0u8; 8];
    let r = parse_signal(&sig, &payload);
    assert!(matches!(r, Err(SignalParseError::RangeTooBig)));
}

#[test]
fn range_check_fits() {
    let sig = linear(60, 8, false);
    let payload = [0u8; 9];
    let r = parse_signal(&sig, &payload);
    assert!(r.is_ok());
}

#[test]
fn sign_extension_negative() {
    // the four bits starting at stream position 0 hold the pattern 1000
    let sig = linear(0, 4, true);
    let payload = [0x08u8];
    assert_eq!(raw_of(parse_signal(&sig, &payload).unwrap()), -8);
}

#[test]
fn same_bits_unsigned() {
    let sig = linear(0, 4, false);
    let payload = [0x08u8];
    assert_eq!(raw_of(parse_signal(&sig, &payload).unwrap()), 8);
}

#[test]
fn extraction_is_lsb_first_across_bytes() {
    // 16 bits starting at bit 0 over [0x90, 0x01]: byte 0 holds the low
    // bits, so the field reads 0x0190 = 400
    let sig = linear(0, 16, false);
    let payload = [0x90u8, 0x01u8];
    assert_eq!(raw_of(parse_signal(&sig, &payload).unwrap()), 400);
}

#[test]
fn extraction_skips_start_bits() {
    // skip 4 bits, read 8: the high nibble of byte 0 becomes the low bits,
    // the low nibble of byte 1 the high bits: 0xA | 0xD << 4 = 0xDA
    let sig = linear(4, 8, false);
    let payload = [0xABu8, 0xCDu8];
    assert_eq!(raw_of(parse_signal(&sig, &payload).unwrap()), 0xDA);
}

#[test]
fn zero_width_field_reads_zero() {
    let sig = linear(3, 0, false);
    let payload = [0xFFu8];
    assert_eq!(raw_of(parse_signal(&sig, &payload).unwrap()), 0);
}

#[test]
fn full_width_unsigned_wraps_into_signed_container() {
    let sig = linear(0, 64, false);
    let payload = [0xFFu8; 8];
    assert_eq!(raw_of(parse_signal(&sig, &payload).unwrap()), -1);
}

#[test]
fn linear_rescale_to_zero() {
    let sig = plain_signal(
        0,
        16,
        false,
        SignalType::Linear { multi_bits: 0.1f64.to_bits(), offset_bits: (-40.0f64).to_bits() },
    );
    let payload = [0x90u8, 0x01u8];
    match parse_signal(&sig, &payload).unwrap() {
        ParsedSignal::Number { raw, multi_bits, offset_bits, unit } => {
            assert_eq!(raw, 400);
            let physical = (raw as f64) * f64::from_bits(multi_bits) + f64::from_bits(offset_bits);
            assert_eq!(physical, 0.0);
            assert_eq!(unit, Some("".to_string()));
        }
        other => panic!("expected a numeric value, got {:?}", other),
    }
}

#[test]
fn bool_signal_nonzero_is_true() {
    let sig = plain_signal(0, 1, false, SignalType::Bool);
    assert_eq!(parse_signal(&sig, &[0x01u8]).unwrap(), ParsedSignal::Bool(true));
    assert_eq!(parse_signal(&sig, &[0x00u8]).unwrap(), ParsedSignal::Bool(false));
}

#[test]
fn enum_lookup_finds_label() {
    let table = vec![(1i64, "A".to_string()), (2, "B".to_string()), (3, "C".to_string())];
    let sig = plain_signal(0, 8, false, SignalType::Enum(table));
    assert_eq!(
        parse_signal(&sig, &[0x02u8]).unwrap(),
        ParsedSignal::Enum(2, "B".to_string())
    );
}

#[test]
fn enum_lookup_first_match_wins() {
    let table = vec![(2i64, "first".to_string()), (2, "second".to_string())];
    let sig = plain_signal(0, 8, false, SignalType::Enum(table));
    assert_eq!(
        parse_signal(&sig, &[0x02u8]).unwrap(),
        ParsedSignal::Enum(2, "first".to_string())
    );
}

#[test]
fn unknown_enum_value_is_not_an_error() {
    let table = vec![(1i64, "A".to_string())];
    let sig = plain_signal(0, 8, false, SignalType::Enum(table));
    assert_eq!(
        parse_signal(&sig, &[0x07u8]).unwrap(),
        ParsedSignal::Enum(7, "INVALID VALUE".to_string())
    );
}

#[test]
fn display_text_bool_and_enum() {
    assert_eq!(ParsedSignal::Bool(true).display_text(), Some("true".to_string()));
    assert_eq!(ParsedSignal::Bool(false).display_text(), Some("false".to_string()));
    assert_eq!(
        ParsedSignal::Enum(-12, "Reverse".to_string()).display_text(),
        Some("-12 (Reverse)".to_string())
    );
    let number = ParsedSignal::Number {
        raw: 1,
        multi_bits: 1.0f64.to_bits(),
        offset_bits: 0,
        unit: None,
    };
    assert_eq!(number.display_text(), None);
}

#[test]
fn decimal_rendering() {
    assert_eq!(canviewer::render::u64_text(0), "0");
    assert_eq!(canviewer::render::u64_text(90210), "90210");
    assert_eq!(canviewer::render::i64_text(-407), "-407");
    assert_eq!(canviewer::render::i64_text(i64::MIN), "-9223372036854775808");
    assert_eq!(canviewer::render::i64_text(i64::MAX), "9223372036854775807");
}

#[test]
fn full_width_signed_minimum() {
    let sig = linear(0, 64, true);
    let payload = [0x00u8, 0x00, 0x00, 0x00, 0x00, 0x00, 0x00, 0x80];
    assert_eq!(raw_of(parse_signal(&sig, &payload).unwrap()), i64::MIN);
}

#[test]
fn signed_field_with_clear_top_bit_stays_positive() {
    let sig = linear(0, 4, true);
    let payload = [0x07u8];
    assert_eq!(raw_of(parse_signal(&sig, &payload).unwrap()), 7);
}
