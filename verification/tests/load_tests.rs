use canviewer::signal_parser::{parse_signal, ParsedSignal};
use canviewer::tree_dbc::SignalType;
use canviewer::{load_dbc_from_bytes, CanViewError, CanViewerSettings, ErrorPage, ParseFailure};

const SMALL_DBC: &str = r#"VERSION "1.0"

BU_: ECU_A

BO_ 256 MSG1: 1 ECU_A
 SG_ Flag : 0|1@1+ (1,0) [0|1] "" Vector__XXX

"#;

#[test]
fn end_to_end_bool_round_trip() {
    let model = load_dbc_from_bytes(SMALL_DBC.as_bytes()).unwrap();
    assert_eq!(model.ecus.len(), 1);
    assert_eq!(model.ecus[0].name, "ECU_A");
    let msg = &model.ecus[0].messages[0];
    assert_eq!(msg.id, 0x100);
    assert_eq!(msg.name, "MSG1");
    assert_eq!(msg.length_bytes, 1);
    let sig = &msg.signals[0];
    assert_eq!(sig.name, "Flag");
    assert_eq!(sig.signal_type, SignalType::Bool);
    assert_eq!(sig.start_bit, 0);
    assert_eq!(sig.length_bits, 1);
    assert_eq!(parse_signal(sig, &[0x01]).unwrap(), ParsedSignal::Bool(true));
    assert_eq!(parse_signal(sig, &[0x00]).unwrap(), ParsedSignal::Bool(false));
}

const RICHER_DBC: &str = r#"VERSION "1.0"

BU_: GATEWAY

BO_ 291 STATUS: 8 GATEWAY
 SG_ Mode : 8|8@1+ (1,0) [0|3] "" Vector__XXX
 SG_ Temperature : 16|8@1+ (0.5,-40) [-40|87.5] "degC" Vector__XXX

BO_ 292 ORPHAN: 8 Vector__XXX
 SG_ Raw : 0|8@1+ (1,0) [0|255] "" Vector__XXX

CM_ BO_ 291 "gateway status";
CM_ SG_ 291 Mode "the mode";
VAL_ 291 Mode 3 "C" 1 "A" 2 "B" ;

"#;

#[test]
fn load_resolves_comments_tables_and_placeholder() {
    let model = load_dbc_from_bytes(RICHER_DBC.as_bytes()).unwrap();
    assert_eq!(model.ecus.len(), 2);
    assert_eq!(model.ecus[0].name, "GATEWAY");
    assert_eq!(model.ecus[1].name, "NULL SENDER");

    let status = &model.ecus[0].messages[0];
    assert_eq!(status.id, 291);
    assert_eq!(status.comment, Some("gateway status".to_string()));

    let mode = &status.signals[0];
    assert_eq!(mode.comment, Some("the mode".to_string()));
    assert_eq!(
        mode.signal_type,
        SignalType::Enum(vec![
            (1, "A".to_string()),
            (2, "B".to_string()),
            (3, "C".to_string()),
        ])
    );

    let temperature = &status.signals[1];
    assert_eq!(temperature.comment, None);
    match &temperature.signal_type {
        SignalType::Linear { multi_bits, offset_bits } => {
            assert_eq!(f64::from_bits(*multi_bits), 0.5);
            assert_eq!(f64::from_bits(*offset_bits), -40.0);
        }
        other => panic!("expected a linear signal, got {:?}", other),
    }
    assert_eq!(temperature.unit, "degC");

    // Mode sits in payload byte 1; value 2 carries label "B"
    let payload = [0x00u8, 0x02, 0x00, 0x00, 0x00, 0x00, 0x00, 0x00];
    assert_eq!(
        parse_signal(mode, &payload).unwrap(),
        ParsedSignal::Enum(2, "B".to_string())
    );
}

#[test]
fn malformed_schema_is_a_dbc_error() {
    let r = load_dbc_from_bytes(b"BO_ this is not a schema");
    match r {
        Err(CanViewError::DbcError(msg)) => assert!(!msg.is_empty()),
        other => panic!("expected a schema error, got {:?}", other),
    }
}

#[test]
fn non_utf8_bytes_are_a_dbc_error() {
    let r = load_dbc_from_bytes(&[0xFFu8, 0xFE, 0x00]);
    assert!(matches!(r, Err(CanViewError::DbcError(_))));
}

#[test]
fn failure_texts_are_fixed() {
    let e = CanViewError::from_failure(ParseFailure::MultipleMultiplexors);
    assert_eq!(
        e,
        CanViewError::DbcError("Multiple identical Multiplexors exist in DBC!".to_string())
    );
    let e = CanViewError::from_failure(ParseFailure::Grammar("line 3".to_string()));
    assert_eq!(e, CanViewError::DbcError("DBC grammar error: line 3".to_string()));
    let e = CanViewError::from_failure(ParseFailure::Other("odd".to_string()));
    assert_eq!(e, CanViewError::DbcError("DBC parse error: odd".to_string()));
}

#[test]
fn error_page_keeps_its_message() {
    let page = ErrorPage::new("no such interface".to_string());
    assert_eq!(page.message(), "no such interface");
}

#[test]
fn settings_hold_plain_values() {
    let settings = CanViewerSettings {
        socketcan_iface: "can0".to_string(),
        dbc_file: Some("bus.dbc".to_string()),
    };
    assert_eq!(settings.socketcan_iface, "can0");
    assert_eq!(settings.dbc_file.as_deref(), Some("bus.dbc"));
}

#[test]
fn loading_twice_yields_the_same_model() {
    let once = load_dbc_from_bytes(RICHER_DBC.as_bytes()).unwrap();
    let again = load_dbc_from_bytes(RICHER_DBC.as_bytes()).unwrap();
    assert_eq!(once, again);
}
