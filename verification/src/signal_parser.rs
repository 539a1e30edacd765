use vstd::prelude::*;
use vstd::arithmetic::power2::*;
use vstd::bits::{lemma_u64_pow2_no_overflow, lemma_u64_shl_is_mul};

use crate::tree_dbc::{Signal, SignalTypeV};

verus! {

/// A decoded signal value, ready for presentation. A numeric value carries
/// the extracted raw integer together with the declared scale factor and
/// offset (as floating-point bit patterns) and the unit; the rescaled
/// physical number itself is computed by the presentation layer.
#[derive(Debug, Clone, PartialEq)]
pub enum ParsedSignal {
    Enum(i64, String),
    Bool(bool),
    Number { raw: i64, multi_bits: u64, offset_bits: u64, unit: Option<String> },
}

/// Spec-level value of a `ParsedSignal`.
pub enum ParsedSignalV {
    Enum(i64, Seq<char>),
    Bool(bool),
    Number { raw: i64, multi_bits: u64, offset_bits: u64, unit: Option<Seq<char>> },
}

impl View for ParsedSignal {
    type V = ParsedSignalV;

    open spec fn view(&self) -> ParsedSignalV {
        match self {
            ParsedSignal::Enum(raw, label) => ParsedSignalV::Enum(*raw, label@),
            ParsedSignal::Bool(b) => ParsedSignalV::Bool(*b),
            ParsedSignal::Number { raw, multi_bits, offset_bits, unit } => ParsedSignalV::Number {
                raw: *raw,
                multi_bits: *multi_bits,
                offset_bits: *offset_bits,
                unit: crate::tree_dbc::view_opt_text(*unit),
            },
        }
    }
}

/// The only decode-time failure: the payload is shorter than the declared
/// bit span of the signal.
#[derive(Debug, Clone, PartialEq, Eq, Structural)]
pub enum SignalParseError {
    RangeTooBig,
}

pub type SignalParseResult<T> = Result<T, SignalParseError>;

/// The bit of the payload at stream position `i`: bits are numbered from
/// the least significant bit of byte 0 upwards, then on into byte 1, and so
/// on. Both byte orders use this one numbering scheme; the byte-order field
/// is carried through but extraction does not branch on it.
pub open spec fn stream_bit(data: Seq<u8>, i: int) -> u8 {
    (data[i / 8] >> ((i % 8) as u8)) & 1
}

/// The unsigned integer held by the `n` bits starting at stream position
/// `start`: the bit at `start` is the least significant.
pub open spec fn extract_unsigned(data: Seq<u8>, start: int, n: nat) -> nat
    decreases n,
{
    if n == 0 {
        0
    } else {
        extract_unsigned(data, start + 1, (n - 1) as nat) * 2 + stream_bit(data, start) as nat
    }
}

/// Reinterprets an `n`-bit raw field value as a two's-complement signed
/// integer of `n` bits.
pub open spec fn sign_extend(raw: nat, n: nat) -> int {
    if n > 0 && raw >= pow2((n - 1) as nat) {
        raw - pow2(n)
    } else {
        raw as int
    }
}

/// The integer a signal's bit field decodes to: the raw field, sign-extended
/// from its own width when the signal is signed, and otherwise placed into a
/// signed 64-bit container (so a full 64-bit unsigned field wraps).
pub open spec fn decoded_int(data: Seq<u8>, start: int, n: nat, signed: bool) -> int {
    let raw = extract_unsigned(data, start, n);
    if signed {
        sign_extend(raw, n)
    } else {
        sign_extend(raw, 64)
    }
}

/// The label an enum table gives to raw value `v`: the first entry with that
/// raw value wins, and a value no entry carries is labelled "INVALID VALUE".
pub open spec fn lookup_label(table: Seq<(i64, Seq<char>)>, v: i64) -> Seq<char>
    decreases table.len(),
{
    if table.len() == 0 {
        "INVALID VALUE"@
    } else if table[0].0 == v {
        table[0].1
    } else {
        lookup_label(table.drop_first(), v)
    }
}

/// What decoding a signal against a payload yields: the range error when the
/// declared bit span does not fit the payload, and otherwise the decoded
/// value as the signal's resolved type presents it.
pub open spec fn spec_parse_signal(sig: crate::tree_dbc::SignalV, data: Seq<u8>) -> Result<
    ParsedSignalV,
    SignalParseError,
> {
    if sig.start_bit + sig.length_bits > 8 * data.len() {
        Err(SignalParseError::RangeTooBig)
    } else {
        let v = decoded_int(data, sig.start_bit as int, sig.length_bits as nat, sig.signed);
        match sig.signal_type {
            SignalTypeV::Bool => Ok(ParsedSignalV::Bool(v != 0)),
            SignalTypeV::Linear { multi_bits, offset_bits } => Ok(
                ParsedSignalV::Number {
                    raw: v as i64,
                    multi_bits,
                    offset_bits,
                    unit: Some(sig.unit),
                },
            ),
            SignalTypeV::Enum(table) => Ok(
                ParsedSignalV::Enum(v as i64, lookup_label(table, v as i64)),
            ),
        }
    }
}

proof fn lemma_bit_le_one(x: u8, s: u8)
    by (bit_vector)
    ensures
        (x >> s) & 1 <= 1,
{
}

/// An `n`-bit field is below `pow2(n)`.
proof fn lemma_extract_bound(data: Seq<u8>, start: int, n: nat)
    ensures
        extract_unsigned(data, start, n) < pow2(n),
    decreases n,
{
    lemma2_to64();
    if n > 0 {
        lemma_extract_bound(data, start + 1, (n - 1) as nat);
        lemma_pow2_unfold(n);
        lemma_bit_le_one(data[start / 8], (start % 8) as u8);
    }
}

/// Reads the `n`-bit field starting at stream position `start` from the
/// payload, working down from the most significant bit of the field.
fn extract_field(data: &[u8], start: u64, n: u64) -> (r: u64)
    requires
        n <= 64,
        start + n <= 8 * data@.len(),
    ensures
        r == extract_unsigned(data@, start as int, n as nat),
        r < pow2(n as nat),
{
    let mut acc: u64 = 0;
    let mut k: u64 = n;
    proof {
        lemma2_to64();
        lemma2_to64_rest();
    }
    while k > 0
        invariant
            k <= n,
            n <= 64,
            start + n <= 8 * data@.len(),
            acc == extract_unsigned(data@, start as int + k, (n - k) as nat),
            acc < pow2((n - k) as nat),
        decreases k,
    {
        let pos: u128 = start as u128 + (k - 1) as u128;
        let idx: usize = (pos / 8) as usize;
        let sh: u8 = (pos % 8) as u8;
        let byte: u8 = data[idx];
        let b: u8 = (byte >> sh) & 1;
        proof {
            lemma_bit_le_one(byte, sh);
            assert(idx == (start as int + k - 1) / 8);
            assert(sh == ((start as int + k - 1) % 8) as u8);
            assert(b == stream_bit(data@, start as int + k - 1));
            lemma2_to64();
            lemma2_to64_rest();
            if n - k < 63 {
                lemma_pow2_strictly_increases((n - k) as nat, 63);
            }
            assert(acc < pow2(63));
            lemma_pow2_unfold((n - k + 1) as nat);
            assert(extract_unsigned(data@, start as int + k - 1, (n - k + 1) as nat) == acc * 2
                + b);
        }
        acc = acc * 2 + (b as u64);
        k = k - 1;
    }
    proof {
        lemma_extract_bound(data@, start as int, n as nat);
    }
    acc
}

/// Places the raw field value into a signed 64-bit container, sign-extending
/// from width `n` when `signed` holds.
fn widen_to_i64(raw: u64, n: u64, signed: bool) -> (r: i64)
    requires
        n <= 64,
        raw < pow2(n as nat),
    ensures
        r == (if signed {
            sign_extend(raw as nat, n as nat)
        } else {
            sign_extend(raw as nat, 64)
        }),
{
    proof {
        lemma2_to64();
        lemma2_to64_rest();
    }
    if n == 0 {
        0
    } else if signed && n < 64 {
        let half: u64 = 1u64 << ((n - 1) as u64);
        proof {
            lemma_u64_pow2_no_overflow((n - 1) as nat);
            lemma_u64_shl_is_mul(1u64, (n - 1) as u64);
            assert(half == pow2((n - 1) as nat));
            lemma_pow2_unfold(n as nat);
            if n < 63 {
                lemma_pow2_strictly_increases(n as nat, 63);
            }
        }
        if raw >= half {
            ((raw - half) as i64) - (half as i64)
        } else {
            raw as i64
        }
    } else {
        // the field is 64 bits wide, or unsigned: values with the top bit of
        // the 64-bit container set wrap to negative
        if raw >= 0x8000_0000_0000_0000u64 {
            proof {
                if n < 64 {
                    lemma_pow2_strictly_increases(n as nat, 64);
                }
            }
            ((raw - 0x8000_0000_0000_0000u64) as i64) - 0x4000_0000_0000_0000i64
                - 0x4000_0000_0000_0000i64
        } else {
            raw as i64
        }
    }
}

/// Decodes one signal against one payload buffer: checks that the declared
/// bit span fits, extracts the raw integer, and presents it as the signal's
/// resolved type dictates. A pure function of its two arguments.
pub fn parse_signal(signal: &Signal, raw: &[u8]) -> (r: SignalParseResult<ParsedSignal>)
    requires
        signal.length_bits <= 64,
    ensures
        match r {
            Ok(p) => spec_parse_signal(signal@, raw@) == Ok::<ParsedSignalV, SignalParseError>(
                p@,
            ),
            Err(e) => spec_parse_signal(signal@, raw@) == Err::<ParsedSignalV, SignalParseError>(
                e,
            ),
        },
{
    if signal.length_bits as u128 + signal.start_bit as u128 > (raw.len() as u128) * 8 {
        return Err(SignalParseError::RangeTooBig);
    }
    let field = extract_field(raw, signal.start_bit, signal.length_bits);
    let data = widen_to_i64(field, signal.length_bits, signal.signed);
    proof {
        assert(data == decoded_int(
            raw@,
            signal.start_bit as int,
            signal.length_bits as nat,
            signal.signed,
        ));
    }
    match &signal.signal_type {
        crate::tree_dbc::SignalType::Bool => Ok(ParsedSignal::Bool(data != 0)),
        crate::tree_dbc::SignalType::Linear { multi_bits, offset_bits } => Ok(
            ParsedSignal::Number {
                raw: data,
                multi_bits: *multi_bits,
                offset_bits: *offset_bits,
                unit: Some(signal.unit.clone()),
            },
        ),
        crate::tree_dbc::SignalType::Enum(entries) => {
            let ghost table: Seq<(i64, Seq<char>)> = signal@.signal_type->Enum_0;
            let mut i: usize = 0;
            proof {
                assert(table.skip(0) =~= table);
            }
            while i < entries.len()
                invariant
                    i <= entries.len(),
                    signal@.start_bit + signal@.length_bits <= 8 * raw@.len(),
                    signal@.signal_type == SignalTypeV::Enum(table),
                    table == entries@.map_values(|e: (i64, String)| (e.0, e.1@)),
                    data == decoded_int(
                        raw@,
                        signal@.start_bit as int,
                        signal@.length_bits as nat,
                        signal@.signed,
                    ),
                    lookup_label(table, data) == lookup_label(table.skip(i as int), data),
                decreases entries@.len() - i,
            {
                if entries[i].0 == data {
                    proof {
                        assert(table.skip(i as int)[0] == table[i as int]);
                        assert(lookup_label(table, data) == table[i as int].1);
                    }
                    return Ok(ParsedSignal::Enum(data, entries[i].1.clone()));
                }
                proof {
                    assert(table.skip(i as int).drop_first() =~= table.skip(i as int + 1));
                    assert(table.skip(i as int)[0] == table[i as int]);
                }
                i = i + 1;
            }
            proof {
                assert(table.skip(i as int) =~= Seq::<(i64, Seq<char>)>::empty());
            }
            Ok(ParsedSignal::Enum(data, "INVALID VALUE".to_owned()))
        },
    }
}

} // verus!
