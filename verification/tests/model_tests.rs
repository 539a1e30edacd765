use std::collections::{HashMap, HashSet};

use canviewer::schema::{
    build_model, get_signal_type, locate_message_comment, locate_signal_comment, sort_value_table,
    DocComment, DocValueTable, RawMessage, RawSignal, SchemaDoc,
};
use canviewer::tree_dbc::{ByteOrder, NumericVal, SignalType, TreeDbc};

fn raw_signal(name: &str, length_bits: u64) -> RawSignal {
    RawSignal {
        name: name.to_string(),
        start_bit: 0,
        length_bits,
        order: ByteOrder::LittleEndian,
        signed: false,
        multi_bits: 1.0f64.to_bits(),
        offset_bits: 0.0f64.to_bits(),
        min: NumericVal::Uint(0),
        max: NumericVal::Uint(0),
        unit: "".to_string(),
    }
}

fn raw_message(id: u32, name: &str, transmitter: Option<&str>, signals: Vec<RawSignal>) -> RawMessage {
    RawMessage {
        id,
        name: name.to_string(),
        length_bytes: 8,
        transmitter: transmitter.map(|t| t.to_string()),
        signals,
    }
}

fn name_set(model: &TreeDbc) -> HashSet<String> {
    model.ecus.iter().map(|e| e.name.clone()).collect()
}

fn id_counts(model: &TreeDbc) -> HashMap<String, HashMap<u32, usize>> {
    let mut out: HashMap<String, HashMap<u32, usize>> = HashMap::new();
    for ecu in &model.ecus {
        let entry = out.entry(ecu.name.clone()).or_default();
        for m in &ecu.messages {
            *entry.entry(m.id).or_default() += 1;
        }
    }
    out
}

#[test]
fn ecu_merge_groups_messages_under_one_ecu() {
    let doc = SchemaDoc {
        messages: vec![
            raw_message(1, "M1", Some("ECU_A"), vec![]),
            raw_message(2, "M2", Some("ECU_B"), vec![]),
            raw_message(3, "M3", Some("ECU_A"), vec![]),
        ],
        comments: vec![],
        value_tables: vec![],
    };
    let model = build_model(&doc);
    assert_eq!(model.ecus.len(), 2);
    assert_eq!(model.ecus[0].name, "ECU_A");
    assert_eq!(model.ecus[0].messages.len(), 2);
    assert_eq!(model.ecus[0].messages[0].id, 1);
    assert_eq!(model.ecus[0].messages[1].id, 3);
    assert_eq!(model.ecus[1].name, "ECU_B");
    assert_eq!(model.ecus[1].messages.len(), 1);
}

#[test]
fn build_is_order_independent_on_names_and_ids() {
    let messages = vec![
        raw_message(1, "M1", Some("ECU_A"), vec![]),
        raw_message(2, "M2", Some("ECU_B"), vec![]),
        raw_message(3, "M3", Some("ECU_A"), vec![]),
        raw_message(3, "M3b", None, vec![]),
    ];
    let doc1 = SchemaDoc { messages: messages.clone(), comments: vec![], value_tables: vec![] };
    let mut permuted = messages;
    permuted.reverse();
    let doc2 = SchemaDoc { messages: permuted, comments: vec![], value_tables: vec![] };
    let m1 = build_model(&doc1);
    let m2 = build_model(&doc2);
    assert_eq!(name_set(&m1), name_set(&m2));
    assert_eq!(id_counts(&m1), id_counts(&m2));
}

#[test]
fn building_twice_yields_the_same_model() {
    let doc = SchemaDoc {
        messages: vec![
            raw_message(7, "M7", Some("ECU_A"), vec![raw_signal("S", 4)]),
            raw_message(8, "M8", None, vec![]),
        ],
        comments: vec![],
        value_tables: vec![],
    };
    assert_eq!(build_model(&doc), build_model(&doc));
}

#[test]
fn missing_transmitter_uses_placeholder_name() {
    let doc = SchemaDoc {
        messages: vec![raw_message(9, "M9", None, vec![])],
        comments: vec![],
        value_tables: vec![],
    };
    let model = build_model(&doc);
    assert_eq!(model.ecus.len(), 1);
    assert_eq!(model.ecus[0].name, "NULL SENDER");
}

#[test]
fn one_bit_signal_with_value_table_is_bool() {
    let doc = SchemaDoc {
        messages: vec![],
        comments: vec![],
        value_tables: vec![DocValueTable::Signal {
            message_id: 1,
            signal_name: "S".to_string(),
            entries: vec![(0, "Off".to_string()), (1, "On".to_string())],
        }],
    };
    let t = get_signal_type(&doc, 1, &raw_signal("S", 1));
    assert_eq!(t, SignalType::Bool);
}

#[test]
fn wide_signal_with_value_table_is_enum_sorted() {
    let doc = SchemaDoc {
        messages: vec![],
        comments: vec![],
        value_tables: vec![DocValueTable::Signal {
            message_id: 1,
            signal_name: "S".to_string(),
            entries: vec![
                (3, "C".to_string()),
                (1, "A".to_string()),
                (2, "B".to_string()),
            ],
        }],
    };
    let t = get_signal_type(&doc, 1, &raw_signal("S", 8));
    assert_eq!(
        t,
        SignalType::Enum(vec![
            (1, "A".to_string()),
            (2, "B".to_string()),
            (3, "C".to_string()),
        ])
    );
}

#[test]
fn signal_without_table_is_linear_with_declared_scaling() {
    let doc = SchemaDoc { messages: vec![], comments: vec![], value_tables: vec![] };
    let mut s = raw_signal("S", 8);
    s.multi_bits = 0.5f64.to_bits();
    s.offset_bits = 3.0f64.to_bits();
    let t = get_signal_type(&doc, 1, &s);
    assert_eq!(
        t,
        SignalType::Linear { multi_bits: 0.5f64.to_bits(), offset_bits: 3.0f64.to_bits() }
    );
}

#[test]
fn sort_keeps_ties_stable() {
    let entries = vec![
        (2i64, "second-first".to_string()),
        (1, "one".to_string()),
        (2, "second-second".to_string()),
    ];
    let sorted = sort_value_table(&entries);
    assert_eq!(
        sorted,
        vec![
            (1i64, "one".to_string()),
            (2, "second-first".to_string()),
            (2, "second-second".to_string()),
        ]
    );
}

#[test]
fn comment_lookups_find_first_match() {
    let doc = SchemaDoc {
        messages: vec![],
        comments: vec![
            DocComment::Other,
            DocComment::Message { message_id: 5, comment: "a message".to_string() },
            DocComment::Signal {
                message_id: 5,
                signal_name: "S".to_string(),
                comment: "a signal".to_string(),
            },
        ],
        value_tables: vec![],
    };
    assert_eq!(locate_message_comment(&doc, 5), Some("a message".to_string()));
    assert_eq!(locate_message_comment(&doc, 6), None);
    assert_eq!(
        locate_signal_comment(&doc, 5, &"S".to_string()),
        Some("a signal".to_string())
    );
    assert_eq!(locate_signal_comment(&doc, 5, &"T".to_string()), None);
}

#[test]
fn resolved_signals_carry_comments_and_types() {
    let doc = SchemaDoc {
        messages: vec![raw_message(
            4,
            "M4",
            Some("ECU_A"),
            vec![raw_signal("Flag", 1), raw_signal("Level", 8)],
        )],
        comments: vec![DocComment::Signal {
            message_id: 4,
            signal_name: "Level".to_string(),
            comment: "the level".to_string(),
        }],
        value_tables: vec![],
    };
    let model = build_model(&doc);
    let msg = &model.ecus[0].messages[0];
    assert_eq!(msg.signals.len(), 2);
    assert_eq!(msg.signals[0].signal_type, SignalType::Bool);
    assert_eq!(msg.signals[0].comment, None);
    assert_eq!(msg.signals[1].comment, Some("the level".to_string()));
}

#[test]
fn defaults_match_the_declared_scaling() {
    assert_eq!(ByteOrder::default(), ByteOrder::LittleEndian);
    assert_eq!(
        SignalType::default(),
        SignalType::Linear { multi_bits: 1.0f64.to_bits(), offset_bits: 0 }
    );
    assert_eq!(TreeDbc::default(), TreeDbc { ecus: vec![] });
}

#[test]
fn value_table_lookup_first_match_wins() {
    let doc = SchemaDoc {
        messages: vec![],
        comments: vec![],
        value_tables: vec![
            DocValueTable::Other,
            DocValueTable::Signal {
                message_id: 1,
                signal_name: "S".to_string(),
                entries: vec![(0, "first table".to_string())],
            },
            DocValueTable::Signal {
                message_id: 1,
                signal_name: "S".to_string(),
                entries: vec![(0, "second table".to_string())],
            },
        ],
    };
    let t = get_signal_type(&doc, 1, &raw_signal("S", 8));
    assert_eq!(t, SignalType::Enum(vec![(0, "first table".to_string())]));
}
