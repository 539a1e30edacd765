use vstd::prelude::*;

use crate::schema::{DocComment, DocValueTable, RawMessage, RawSignal, SchemaDoc, SchemaDocV};
use crate::tree_dbc::{ByteOrder, NumericVal};
use crate::{ParseFailure, ParseFailureV};

use can_dbc::Message as DbcMessage;
use can_dbc::Signal as DbcSignal;

verus! {

#[verifier::external_type_specification]
#[verifier::external_body]
pub struct ExDbcMessage(DbcMessage);

#[verifier::external_type_specification]
#[verifier::external_body]
pub struct ExDbcSignal(DbcSignal);

#[verifier::external_type_specification]
#[verifier::external_body]
pub struct ExDbcComment(can_dbc::Comment);

#[verifier::external_type_specification]
#[verifier::external_body]
pub struct ExDbcValueDescription(can_dbc::ValueDescription);

#[verifier::external_type_specification]
#[verifier::external_body]
pub struct ExDbcNumericValue(can_dbc::NumericValue);

#[verifier::external_type_specification]
#[verifier::external_body]
pub struct ExDbcError(can_dbc::DbcError);

/// What parsing a byte buffer as a schema text yields: the plain-value
/// document, or the failure with its cause. Parsing is a pure function of
/// the bytes, so the outcome carries a name; `parse_schema` is the one
/// trusted item that applies it.
pub uninterp spec fn dbc_parse_of(b: Seq<u8>) -> Result<SchemaDocV, ParseFailureV>;

/// Relies on can_dbc::DbcError's variants: the multiplexor conflict is kept
/// apart, a grammar (pest) failure and every other cause are kept as text.
#[verifier::external_body]
fn parse_failure_of(e: can_dbc::DbcError) -> (r: ParseFailure) {
    match e {
        can_dbc::DbcError::MultipleMultiplexors => ParseFailure::MultipleMultiplexors,
        can_dbc::DbcError::Pest(p) => ParseFailure::Grammar(format!("{}", p)),
        other => ParseFailure::Other(format!("{:?}", other)),
    }
}

/// Relies on can_dbc::NumericValue's variants; a floating-point bound is
/// carried as its f64 bit pattern.
#[verifier::external_body]
fn numeric_of(v: &can_dbc::NumericValue) -> (r: NumericVal) {
    match v {
        can_dbc::NumericValue::Uint(x) => NumericVal::Uint(*x),
        can_dbc::NumericValue::Int(x) => NumericVal::Int(*x),
        can_dbc::NumericValue::Double(x) => NumericVal::DoubleBits(x.to_bits()),
    }
}

/// Relies on can_dbc::Signal's public fields: name, start bit, bit width,
/// byte order, signedness, the f64 scale factor and offset as their bit
/// patterns, declared bounds and unit.
#[verifier::external_body]
fn signal_info(s: &DbcSignal) -> (r: RawSignal) {
    RawSignal {
        name: s.name.clone(),
        start_bit: s.start_bit,
        length_bits: s.size,
        order: if matches!(s.byte_order, can_dbc::ByteOrder::LittleEndian) { ByteOrder::LittleEndian } else { ByteOrder::BigEndian },
        signed: matches!(s.value_type, can_dbc::ValueType::Signed),
        multi_bits: s.factor.to_bits(),
        offset_bits: s.offset.to_bits(),
        min: numeric_of(&s.min),
        max: numeric_of(&s.max),
        unit: s.unit.clone(),
    }
}

/// Relies on can_dbc::Message's public fields and can_dbc::MessageId::raw:
/// the raw 32-bit identifier (extended flag bit included), name, byte size,
/// the declared transmitter (`None` for the schema's placeholder) and the
/// signals.
#[verifier::external_body]
fn message_info(m: &DbcMessage) -> (r: RawMessage) {
    RawMessage {
        id: m.id.raw(),
        name: m.name.clone(),
        length_bytes: m.size,
        transmitter: m.transmitter.clone(),
        signals: m.signals.iter().map(signal_info).collect(),
    }
}

/// Relies on can_dbc::Comment's variants and can_dbc::MessageId::raw; the
/// comment kinds the model does not carry collapse to `Other`.
#[verifier::external_body]
fn comment_info(c: &can_dbc::Comment) -> (r: DocComment) {
    match c {
        can_dbc::Comment::Message { id, comment } => DocComment::Message {
            message_id: id.raw(),
            comment: comment.clone(),
        },
        can_dbc::Comment::Signal { message_id, name, comment } => DocComment::Signal {
            message_id: message_id.raw(),
            signal_name: name.clone(),
            comment: comment.clone(),
        },
        can_dbc::Comment::Node { .. } => DocComment::Other,
        can_dbc::Comment::EnvVar { .. } => DocComment::Other,
        can_dbc::Comment::Plain { .. } => DocComment::Other,
    }
}

/// Relies on can_dbc::ValueDescription's variants, can_dbc::MessageId::raw
/// and can_dbc::ValDescription's public fields; an environment-variable
/// table is no signal table and collapses to `Other`.
#[verifier::external_body]
fn value_description_info(v: &can_dbc::ValueDescription) -> (r: DocValueTable) {
    match v {
        can_dbc::ValueDescription::Signal { message_id, name, value_descriptions } => DocValueTable::Signal {
            message_id: message_id.raw(),
            signal_name: name.clone(),
            entries: value_descriptions.iter().map(|e| (e.id, e.description.clone())).collect(),
        },
        can_dbc::ValueDescription::EnvironmentVariable { .. } => DocValueTable::Other,
    }
}

/// Relies on str::from_utf8 and can_dbc::Dbc::try_from::<&str>: decodes the
/// bytes as UTF-8 text, parses them as a schema, and moves the parsed
/// document's fields out into plain values, one for one, through the
/// conversion helpers above. Both steps are pure functions of the bytes, so
/// the whole outcome is `dbc_parse_of` of them.
#[verifier::external_body]
pub(crate) fn parse_schema(b: &[u8]) -> (r: Result<SchemaDoc, ParseFailure>)
    ensures
        match r {
            Ok(doc) => dbc_parse_of(b@) == Ok::<SchemaDocV, ParseFailureV>(doc@),
            Err(f) => dbc_parse_of(b@) == Err::<SchemaDocV, ParseFailureV>(f@),
        },
{
    let text = match core::str::from_utf8(b) {
        Ok(s) => s,
        Err(e) => return Err(ParseFailure::Other(format!("{}", e))),
    };
    let d = match can_dbc::Dbc::try_from(text) {
        Ok(d) => d,
        Err(e) => return Err(parse_failure_of(e)),
    };
    Ok(SchemaDoc {
        messages: d.messages.iter().map(message_info).collect(),
        comments: d.comments.iter().map(comment_info).collect(),
        value_tables: d.value_descriptions.iter().map(value_description_info).collect(),
    })
}

} // verus!
