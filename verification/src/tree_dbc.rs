use vstd::prelude::*;

verus! {

/// Byte order declared for a signal. It is carried through to the model but
/// the bit extraction itself does not branch on it; both orders use the same
/// bit numbering scheme.
#[derive(Debug, Clone, Copy, PartialEq, Eq, Structural)]
pub enum ByteOrder {
    LittleEndian,
    BigEndian,
}

impl Default for ByteOrder {
    fn default() -> (r: Self)
        ensures
            r == ByteOrder::LittleEndian,
    {
        ByteOrder::LittleEndian
    }
}

/// A numeric bound as the schema declares it: an unsigned or signed integer,
/// or a floating-point number carried as its raw bit pattern.
#[derive(Debug, Clone, Copy, PartialEq, Eq, Structural)]
pub enum NumericVal {
    Uint(u64),
    Int(i64),
    DoubleBits(u64),
}

/// Bit pattern of the floating-point number one, the default scale factor.
pub const ONE_BITS: u64 = 0x3FF0_0000_0000_0000;

/// How a decoded raw integer is to be presented. Resolved once when the model
/// is built: a one-bit signal is a `Bool` whatever else the schema says; a
/// wider signal with a non-empty value table is an `Enum` whose table is
/// sorted ascending by raw value; anything else rescales linearly, with the
/// declared scale factor and offset carried as floating-point bit patterns.
#[derive(Debug, Clone, PartialEq)]
pub enum SignalType {
    Bool,
    Linear { multi_bits: u64, offset_bits: u64 },
    Enum(Vec<(i64, String)>),
}

/// Spec-level value of a `SignalType`.
pub enum SignalTypeV {
    Bool,
    Linear { multi_bits: u64, offset_bits: u64 },
    Enum(Seq<(i64, Seq<char>)>),
}

impl View for SignalType {
    type V = SignalTypeV;

    open spec fn view(&self) -> SignalTypeV {
        match self {
            SignalType::Bool => SignalTypeV::Bool,
            SignalType::Linear { multi_bits, offset_bits } => SignalTypeV::Linear {
                multi_bits: *multi_bits,
                offset_bits: *offset_bits,
            },
            SignalType::Enum(table) => SignalTypeV::Enum(
                table@.map_values(|e: (i64, String)| (e.0, e.1@)),
            ),
        }
    }
}

impl Default for SignalType {
    fn default() -> (r: Self)
        ensures
            r == (SignalType::Linear { multi_bits: ONE_BITS, offset_bits: 0u64 }),
    {
        SignalType::Linear { multi_bits: ONE_BITS, offset_bits: 0 }
    }
}

/// One resolved signal of a message: where its bits lie in the payload, how
/// they are read, and how the raw integer is to be presented.
#[derive(Debug, Clone, PartialEq)]
pub struct Signal {
    pub name: String,
    pub comment: Option<String>,
    pub signal_type: SignalType,
    pub order: ByteOrder,
    pub start_bit: u64,
    pub length_bits: u64,
    pub unit: String,
    pub min: NumericVal,
    pub max: NumericVal,
    pub signed: bool,
}

/// Spec-level value of a `Signal`.
pub struct SignalV {
    pub name: Seq<char>,
    pub comment: Option<Seq<char>>,
    pub signal_type: SignalTypeV,
    pub order: ByteOrder,
    pub start_bit: u64,
    pub length_bits: u64,
    pub unit: Seq<char>,
    pub min: NumericVal,
    pub max: NumericVal,
    pub signed: bool,
}

/// Spec-level value of an optional text.
pub open spec fn view_opt_text(c: Option<String>) -> Option<Seq<char>> {
    match c {
        Option::Some(s) => Option::Some(s@),
        Option::None => Option::None,
    }
}

impl View for Signal {
    type V = SignalV;

    open spec fn view(&self) -> SignalV {
        SignalV {
            name: self.name@,
            comment: view_opt_text(self.comment),
            signal_type: self.signal_type@,
            order: self.order,
            start_bit: self.start_bit,
            length_bits: self.length_bits,
            unit: self.unit@,
            min: self.min,
            max: self.max,
            signed: self.signed,
        }
    }
}

/// One message of the model: its raw 32-bit identifier as the schema declared
/// it (extended-frame flag bits pass through uninterpreted), its declared
/// payload length, and its resolved signals.
#[derive(Debug, Clone, PartialEq)]
pub struct Message {
    pub id: u32,
    pub name: String,
    pub comment: Option<String>,
    pub length_bytes: u64,
    pub signals: Vec<Signal>,
}

/// Spec-level value of a `Message`.
pub struct MessageV {
    pub id: u32,
    pub name: Seq<char>,
    pub comment: Option<Seq<char>>,
    pub length_bytes: u64,
    pub signals: Seq<SignalV>,
}

impl View for Message {
    type V = MessageV;

    open spec fn view(&self) -> MessageV {
        MessageV {
            id: self.id,
            name: self.name@,
            comment: view_opt_text(self.comment),
            length_bytes: self.length_bytes,
            signals: self.signals@.map_values(|s: Signal| s@),
        }
    }
}

/// One ECU of the model: a transmitter name and the messages it transmits,
/// in order of discovery.
#[derive(Debug, Clone, PartialEq)]
pub struct Ecu {
    pub name: String,
    pub messages: Vec<Message>,
}

/// Spec-level value of an `Ecu`.
pub struct EcuV {
    pub name: Seq<char>,
    pub messages: Seq<MessageV>,
}

impl View for Ecu {
    type V = EcuV;

    open spec fn view(&self) -> EcuV {
        EcuV { name: self.name@, messages: self.messages@.map_values(|m: Message| m@) }
    }
}

/// The whole built model: every ECU the schema mentioned, each owning its
/// messages. At most one entry per distinct transmitter name.
#[derive(Debug, Clone, PartialEq)]
pub struct TreeDbc {
    pub ecus: Vec<Ecu>,
}

/// Spec-level value of a `TreeDbc`.
pub struct TreeDbcV {
    pub ecus: Seq<EcuV>,
}

impl View for TreeDbc {
    type V = TreeDbcV;

    open spec fn view(&self) -> TreeDbcV {
        TreeDbcV { ecus: self.ecus@.map_values(|e: Ecu| e@) }
    }
}

impl Default for TreeDbc {
    fn default() -> (r: Self)
        ensures
            r@.ecus == Seq::<EcuV>::empty(),
    {
        let r = TreeDbc { ecus: Vec::new() };
        proof {
            assert(r@.ecus =~= Seq::<EcuV>::empty());
        }
        r
    }
}

/// No two ECUs of the sequence share a name.
pub open spec fn ecu_names_distinct(ecus: Seq<EcuV>) -> bool {
    forall|i: int, j: int|
        0 <= i < ecus.len() && 0 <= j < ecus.len() && i != j ==> ecus[i].name != ecus[j].name
}

} // verus!
