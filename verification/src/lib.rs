use vstd::prelude::*;

pub mod dbc_input;
pub mod laws;
pub mod render;
pub mod schema;
pub mod signal_parser;
pub mod tree_dbc;

pub use signal_parser::{parse_signal, ParsedSignal, SignalParseError, SignalParseResult};
pub use tree_dbc::TreeDbc;

verus! {

/// An error surfaced while loading a schema or decoding a signal, with a
/// human-readable cause.
#[derive(Debug, Clone, PartialEq)]
pub enum CanViewError {
    DbcError(String),
    SignalParseError(String),
}

pub type CanResult<T> = Result<T, CanViewError>;

/// How the outside schema parser failed, with the cause kept as plain text.
#[derive(Debug, Clone, PartialEq)]
pub enum ParseFailure {
    MultipleMultiplexors,
    Grammar(String),
    Other(String),
}

/// Spec-level value of a `ParseFailure`.
pub enum ParseFailureV {
    MultipleMultiplexors,
    Grammar(Seq<char>),
    Other(Seq<char>),
}

impl View for ParseFailure {
    type V = ParseFailureV;

    open spec fn view(&self) -> ParseFailureV {
        match self {
            ParseFailure::MultipleMultiplexors => ParseFailureV::MultipleMultiplexors,
            ParseFailure::Grammar(d) => ParseFailureV::Grammar(d@),
            ParseFailure::Other(d) => ParseFailureV::Other(d@),
        }
    }
}

/// The message text a parse failure surfaces as.
pub open spec fn spec_failure_text(f: ParseFailureV) -> Seq<char> {
    match f {
        ParseFailureV::MultipleMultiplexors => "Multiple identical Multiplexors exist in DBC!"@,
        ParseFailureV::Grammar(d) => "DBC grammar error: "@ + d,
        ParseFailureV::Other(d) => "DBC parse error: "@ + d,
    }
}

impl CanViewError {
    /// Wraps a schema parse failure as a schema error with its message
    /// text.
    pub fn from_failure(f: ParseFailure) -> (r: CanViewError)
        ensures
            r matches CanViewError::DbcError(m) && m@ == spec_failure_text(f@),
    {
        match f {
            ParseFailure::MultipleMultiplexors => CanViewError::DbcError(
                "Multiple identical Multiplexors exist in DBC!".to_owned(),
            ),
            ParseFailure::Grammar(d) => {
                let mut m = "DBC grammar error: ".to_owned();
                m.append(d.as_str());
                CanViewError::DbcError(m)
            },
            ParseFailure::Other(d) => {
                let mut m = "DBC parse error: ".to_owned();
                m.append(d.as_str());
                CanViewError::DbcError(m)
            },
        }
    }
}

/// Loads a schema from its raw bytes: the outside parser reads the text
/// into the plain-value document the parse names, and the model is built
/// from that document. It succeeds exactly when the parser accepts the
/// bytes; the model is then the one the document builds to, with never two
/// ECUs of one name, and an error is always a schema error carrying the
/// failure's fixed message text. The builder itself never fails: malformed
/// individual signals are deferred to decode time.
pub fn load_dbc_from_bytes(b: &[u8]) -> (r: CanResult<TreeDbc>)
    ensures
        r is Ok <==> crate::dbc_input::dbc_parse_of(b@) is Ok,
        r matches Ok(t) ==> {
            &&& t@.ecus == crate::schema::spec_build(crate::dbc_input::dbc_parse_of(b@)->Ok_0)
            &&& crate::tree_dbc::ecu_names_distinct(t@.ecus)
        },
        r matches Err(e) ==> e matches CanViewError::DbcError(m) && m@ == spec_failure_text(
            crate::dbc_input::dbc_parse_of(b@)->Err_0,
        ),
{
    let doc = match crate::dbc_input::parse_schema(b) {
        Ok(d) => d,
        Err(f) => {
            return Err(CanViewError::from_failure(f));
        },
    };
    Ok(crate::schema::build_model(&doc))
}

/// Command-line settings of the viewer: the CAN interface to read from and
/// an optional schema file to load.
#[derive(Debug, Clone, PartialEq)]
pub struct CanViewerSettings {
    pub socketcan_iface: String,
    pub dbc_file: Option<String>,
}

/// A page shown when the viewer cannot start; it only carries the error text.
pub struct ErrorPage {
    msg: String,
}

impl View for ErrorPage {
    type V = Seq<char>;

    closed spec fn view(&self) -> Seq<char> {
        self.msg@
    }
}

impl ErrorPage {
    pub fn new(msg: String) -> (r: Self)
        ensures
            r@ == msg@,
    {
        Self { msg }
    }

    /// The error text this page displays.
    pub fn message(&self) -> (r: &String)
        ensures
            r@ == self@,
    {
        &self.msg
    }
}

} // verus!
