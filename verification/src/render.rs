use vstd::prelude::*;

use crate::signal_parser::{ParsedSignal, ParsedSignalV};

verus! {

/// The decimal digit character for a value below ten.
pub open spec fn digit_char(d: int) -> char {
    if d == 0 {
        '0'
    } else if d == 1 {
        '1'
    } else if d == 2 {
        '2'
    } else if d == 3 {
        '3'
    } else if d == 4 {
        '4'
    } else if d == 5 {
        '5'
    } else if d == 6 {
        '6'
    } else if d == 7 {
        '7'
    } else if d == 8 {
        '8'
    } else {
        '9'
    }
}

/// The decimal digits of an unsigned number, most significant first.
pub open spec fn spec_u64_digits(n: nat) -> Seq<char>
    decreases n,
{
    if n < 10 {
        seq![digit_char(n as int)]
    } else {
        spec_u64_digits(n / 10) + seq![digit_char((n % 10) as int)]
    }
}

/// The decimal rendering of a signed number: a minus sign ahead of the
/// digits when it is negative.
pub open spec fn spec_i64_text(v: int) -> Seq<char> {
    if v < 0 {
        seq!['-'] + spec_u64_digits((-v) as nat)
    } else {
        spec_u64_digits(v as nat)
    }
}

/// One decimal digit as text.
fn digit_str(d: u64) -> (r: &'static str)
    requires
        d < 10,
    ensures
        r@ == seq![digit_char(d as int)],
{
    proof {
        reveal_strlit("0");
        reveal_strlit("1");
        reveal_strlit("2");
        reveal_strlit("3");
        reveal_strlit("4");
        reveal_strlit("5");
        reveal_strlit("6");
        reveal_strlit("7");
        reveal_strlit("8");
        reveal_strlit("9");
    }
    match d {
        0 => "0",
        1 => "1",
        2 => "2",
        3 => "3",
        4 => "4",
        5 => "5",
        6 => "6",
        7 => "7",
        8 => "8",
        _ => "9",
    }
}

/// Renders an unsigned number in decimal.
pub fn u64_text(n: u64) -> (r: String)
    ensures
        r@ == spec_u64_digits(n as nat),
    decreases n,
{
    if n < 10 {
        digit_str(n).to_owned()
    } else {
        let mut s = u64_text(n / 10);
        s.append(digit_str(n % 10));
        s
    }
}

/// Renders a signed number in decimal.
pub fn i64_text(v: i64) -> (r: String)
    ensures
        r@ == spec_i64_text(v as int),
{
    if v >= 0 {
        u64_text(v as u64)
    } else {
        let mag: u64 = (-(v as i128)) as u64;
        proof {
            assert(mag == -(v as int));
            reveal_strlit("-");
        }
        let mut s = "-".to_owned();
        let digits = u64_text(mag);
        s.append(digits.as_str());
        proof {
            assert("-"@ =~= seq!['-']);
        }
        s
    }
}

/// The canonical text of a decoded value, where the library can state it
/// exactly: a boolean as its literal truth value, an enum value as
/// "raw (label)". A numeric value renders as the rescaled floating-point
/// number, which lives outside this library; callers compose it from the
/// raw integer, the scaling bit patterns and the unit.
pub open spec fn spec_display_text(p: ParsedSignalV) -> Option<Seq<char>> {
    match p {
        ParsedSignalV::Bool(b) => Some(if b {
            "true"@
        } else {
            "false"@
        }),
        ParsedSignalV::Enum(raw, label) => Some(
            spec_i64_text(raw as int) + " ("@ + label + ")"@,
        ),
        ParsedSignalV::Number { .. } => None,
    }
}

impl ParsedSignal {
    /// Renders the decoded value as display text; `None` exactly for the
    /// numeric variant, whose rescaled value is floating point and is
    /// rendered by the presentation layer.
    pub fn display_text(&self) -> (r: Option<String>)
        ensures
            crate::tree_dbc::view_opt_text(r) == spec_display_text(self@),
            r is None <==> self is Number,
    {
        match self {
            ParsedSignal::Bool(b) => {
                if *b {
                    Some("true".to_owned())
                } else {
                    Some("false".to_owned())
                }
            },
            ParsedSignal::Enum(raw, label) => {
                let mut s = i64_text(*raw);
                s.append(" (");
                s.append(label.as_str());
                s.append(")");
                Some(s)
            },
            ParsedSignal::Number { .. } => None,
        }
    }
}

} // verus!
