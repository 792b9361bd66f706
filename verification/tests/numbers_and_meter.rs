use studio_project_manager::errors::{LiveSetError, TimeSignatureError};
use studio_project_manager::numbers::{format_decimal, format_hex8, parse_i32, parse_u32, IntErrorKind};
use studio_project_manager::time_signature::{load_time_signature, parse_encoded_time_signature};
use studio_project_manager::types::TimeSignature;

#[test]
fn parse_u32_like_std() {
    for s in ["0", "42", "+7", "4294967295", "", "+", "-", "-1", "4294967296", "12a", " 1", "007"] {
        let ours = parse_u32(s).map_err(|_| ());
        let std_result = s.parse::<u32>().map_err(|_| ());
        assert_eq!(ours, std_result, "input {:?}", s);
    }
    assert_eq!(parse_u32(""), Err(IntErrorKind::Empty));
    assert_eq!(parse_u32("-1"), Err(IntErrorKind::InvalidDigit));
    assert_eq!(parse_u32("4294967296"), Err(IntErrorKind::PosOverflow));
}

#[test]
fn parse_i32_like_std() {
    for s in ["-2147483648", "2147483647", "-2147483649", "2147483648", "-", "+", "-0", "+15", "1_0"] {
        let ours = parse_i32(s).map_err(|_| ());
        let std_result = s.parse::<i32>().map_err(|_| ());
        assert_eq!(ours, std_result, "input {:?}", s);
    }
    assert_eq!(parse_i32("-2147483649"), Err(IntErrorKind::NegOverflow));
    assert_eq!(parse_i32("2147483648"), Err(IntErrorKind::PosOverflow));
    assert_eq!(parse_i32("-"), Err(IntErrorKind::InvalidDigit));
}

#[test]
fn decimal_and_hex_formatting() {
    assert_eq!(format_decimal(0), "0");
    assert_eq!(format_decimal(1234567890), "1234567890");
    assert_eq!(format_decimal(u64::MAX), u64::MAX.to_string());
    assert_eq!(format_hex8(0), "00000000");
    assert_eq!(format_hex8(0xcbf4_3926), "cbf43926");
    assert_eq!(format_hex8(0xff), "000000ff");
}

#[test]
fn time_signature_decoding() {
    let ts = TimeSignature::from_encoded(201).unwrap();
    assert_eq!((ts.numerator, ts.denominator), (4, 4));
    let ts = TimeSignature::from_encoded(0).unwrap();
    assert_eq!((ts.numerator, ts.denominator), (1, 1));
    let ts = TimeSignature::from_encoded(494).unwrap();
    assert_eq!((ts.numerator, ts.denominator), (99, 16));
    let ts = TimeSignature::from_encoded(104).unwrap();
    assert_eq!((ts.numerator, ts.denominator), (6, 2));
    assert!(matches!(TimeSignature::from_encoded(495), Err(TimeSignatureError::InvalidEncodedValue(495))));
    assert!(matches!(TimeSignature::from_encoded(-1), Err(TimeSignatureError::InvalidEncodedValue(-1))));
}

#[test]
fn every_encoded_value_decodes_within_bounds() {
    for v in 0..=494 {
        let ts = TimeSignature::from_encoded(v).unwrap();
        assert!(1 <= ts.numerator && ts.numerator <= 99);
        assert!([1u8, 2, 4, 8, 16].contains(&ts.denominator));
        assert_eq!(ts.numerator as i32, v % 99 + 1);
    }
}

#[test]
fn numerator_and_denominator_of_negative_values() {
    assert_eq!(TimeSignature::decode_numerator(-5), 1);
    assert_eq!(TimeSignature::decode_denominator(-5), 1);
    assert_eq!(TimeSignature::decode_denominator(791), 128);
}

#[test]
fn encoded_time_signature_parse() {
    assert_eq!(parse_encoded_time_signature("4").unwrap(), 4);
    assert_eq!(parse_encoded_time_signature("201").unwrap(), 201);
    assert!(matches!(
        parse_encoded_time_signature("invalid"),
        Err(TimeSignatureError::ParseEncodedError(IntErrorKind::InvalidDigit))
    ));
}

#[test]
fn time_signature_from_live_set() {
    let xml = br#"<Ableton><LiveSet><MasterTrack><AutomationEnvelopes><EnumEvent Time="-63072000" Value="201" /></AutomationEnvelopes></MasterTrack></LiveSet></Ableton>"#;
    let ts = load_time_signature(xml).unwrap();
    assert_eq!((ts.numerator, ts.denominator), (4, 4));
}

#[test]
fn time_signature_errors() {
    assert!(matches!(
        load_time_signature(b"<Ableton><LiveSet /></Ableton>"),
        Err(LiveSetError::TimeSignatureError(TimeSignatureError::EnumEventNotFound))
    ));
    assert!(matches!(
        load_time_signature(br#"<Ableton><EnumEvent Time="0" /></Ableton>"#),
        Err(LiveSetError::TimeSignatureError(TimeSignatureError::ValueAttributeNotFound))
    ));
    assert!(matches!(
        load_time_signature(br#"<Ableton><EnumEvent Value="x" /></Ableton>"#),
        Err(LiveSetError::TimeSignatureError(TimeSignatureError::ParseEncodedError(IntErrorKind::InvalidDigit)))
    ));
    assert!(matches!(
        load_time_signature(br#"<Ableton><EnumEvent Value="900" /></Ableton>"#),
        Err(LiveSetError::TimeSignatureError(TimeSignatureError::InvalidEncodedValue(900)))
    ));
}

#[test]
fn decimal_text_reads_back() {
    for n in [0u32, 7, 10, 99, 100, 65535, 4_000_000_000, u32::MAX] {
        assert_eq!(parse_u32(&format_decimal(n as u64)), Ok(n));
    }
}

#[test]
fn distinct_encodings_give_distinct_time_signatures() {
    let mut seen = std::collections::HashSet::new();
    for v in 0..=494 {
        let ts = TimeSignature::from_encoded(v).unwrap();
        assert!(seen.insert((ts.numerator, ts.denominator)));
    }
}
