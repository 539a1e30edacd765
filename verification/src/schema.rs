use vstd::prelude::*;

use vstd::multiset::Multiset;

use crate::tree_dbc::{ByteOrder, NumericVal, SignalType, SignalTypeV};

verus! {

/// One raw signal descriptor as the schema document hands it over: where the
/// bits lie, how they are read, and the declared scaling, bounds and unit.
/// Scale factor and offset are floating-point numbers of the schema, carried
/// as their raw bit patterns.
#[derive(Debug, Clone, PartialEq)]
pub struct RawSignal {
    pub name: String,
    pub start_bit: u64,
    pub length_bits: u64,
    pub order: ByteOrder,
    pub signed: bool,
    pub multi_bits: u64,
    pub offset_bits: u64,
    pub min: NumericVal,
    pub max: NumericVal,
    pub unit: String,
}

/// Spec-level value of a `RawSignal`.
pub struct RawSignalV {
    pub name: Seq<char>,
    pub start_bit: u64,
    pub length_bits: u64,
    pub order: ByteOrder,
    pub signed: bool,
    pub multi_bits: u64,
    pub offset_bits: u64,
    pub min: NumericVal,
    pub max: NumericVal,
    pub unit: Seq<char>,
}

impl View for RawSignal {
    type V = RawSignalV;

    open spec fn view(&self) -> RawSignalV {
        RawSignalV {
            name: self.name@,
            start_bit: self.start_bit,
            length_bits: self.length_bits,
            order: self.order,
            signed: self.signed,
            multi_bits: self.multi_bits,
            offset_bits: self.offset_bits,
            min: self.min,
            max: self.max,
            unit: self.unit@,
        }
    }
}

/// One raw message of the schema document: identifier, name, payload length,
/// declared transmitter (`None` when the schema uses its placeholder token)
/// and the raw signal descriptors.
#[derive(Debug, Clone, PartialEq)]
pub struct RawMessage {
    pub id: u32,
    pub name: String,
    pub length_bytes: u64,
    pub transmitter: Option<String>,
    pub signals: Vec<RawSignal>,
}

/// Spec-level value of a `RawMessage`.
pub struct RawMessageV {
    pub id: u32,
    pub name: Seq<char>,
    pub length_bytes: u64,
    pub transmitter: Option<Seq<char>>,
    pub signals: Seq<RawSignalV>,
}

impl View for RawMessage {
    type V = RawMessageV;

    open spec fn view(&self) -> RawMessageV {
        RawMessageV {
            id: self.id,
            name: self.name@,
            length_bytes: self.length_bytes,
            transmitter: crate::tree_dbc::view_opt_text(self.transmitter),
            signals: self.signals@.map_values(|s: RawSignal| s@),
        }
    }
}

/// One free-text comment of the schema document, keyed by the object it
/// belongs to. Comments on objects the model does not carry are `Other`.
#[derive(Debug, Clone, PartialEq)]
pub enum DocComment {
    Message { message_id: u32, comment: String },
    Signal { message_id: u32, signal_name: String, comment: String },
    Other,
}

/// Spec-level value of a `DocComment`.
pub enum DocCommentV {
    Message { message_id: u32, comment: Seq<char> },
    Signal { message_id: u32, signal_name: Seq<char>, comment: Seq<char> },
    Other,
}

impl View for DocComment {
    type V = DocCommentV;

    open spec fn view(&self) -> DocCommentV {
        match self {
            DocComment::Message { message_id, comment } => DocCommentV::Message {
                message_id: *message_id,
                comment: comment@,
            },
            DocComment::Signal { message_id, signal_name, comment } => DocCommentV::Signal {
                message_id: *message_id,
                signal_name: signal_name@,
                comment: comment@,
            },
            DocComment::Other => DocCommentV::Other,
        }
    }
}

/// One enumerated value table of the schema document, keyed by message
/// identifier and signal name. Tables attached to objects the model does
/// not carry (environment variables) are `Other`.
#[derive(Debug, Clone, PartialEq)]
pub enum DocValueTable {
    Signal { message_id: u32, signal_name: String, entries: Vec<(i64, String)> },
    Other,
}

/// Spec-level value of an enum table: raw values paired with labels.
pub open spec fn table_view(v: Seq<(i64, String)>) -> Seq<(i64, Seq<char>)> {
    v.map_values(|e: (i64, String)| (e.0, e.1@))
}

/// Spec-level value of a `DocValueTable`.
pub enum DocValueTableV {
    Signal { message_id: u32, signal_name: Seq<char>, entries: Seq<(i64, Seq<char>)> },
    Other,
}

impl View for DocValueTable {
    type V = DocValueTableV;

    open spec fn view(&self) -> DocValueTableV {
        match self {
            DocValueTable::Signal { message_id, signal_name, entries } => DocValueTableV::Signal {
                message_id: *message_id,
                signal_name: signal_name@,
                entries: table_view(entries@),
            },
            DocValueTable::Other => DocValueTableV::Other,
        }
    }
}

/// A whole parsed schema document, as plain values: the raw messages in
/// declaration order, and the comment and value-table lookups.
#[derive(Debug, Clone, PartialEq)]
pub struct SchemaDoc {
    pub messages: Vec<RawMessage>,
    pub comments: Vec<DocComment>,
    pub value_tables: Vec<DocValueTable>,
}

/// Spec-level value of a `SchemaDoc`.
pub struct SchemaDocV {
    pub messages: Seq<RawMessageV>,
    pub comments: Seq<DocCommentV>,
    pub value_tables: Seq<DocValueTableV>,
}

impl View for SchemaDoc {
    type V = SchemaDocV;

    open spec fn view(&self) -> SchemaDocV {
        SchemaDocV {
            messages: self.messages@.map_values(|m: RawMessage| m@),
            comments: self.comments@.map_values(|c: DocComment| c@),
            value_tables: self.value_tables@.map_values(|t: DocValueTable| t@),
        }
    }
}

/// The comment the document attaches to a message: the first entry keyed by
/// the message identifier wins.
pub open spec fn spec_message_comment(comments: Seq<DocCommentV>, id: u32) -> Option<Seq<char>>
    decreases comments.len(),
{
    if comments.len() == 0 {
        None
    } else {
        match comments[0] {
            DocCommentV::Message { message_id, comment } => if message_id == id {
                Some(comment)
            } else {
                spec_message_comment(comments.drop_first(), id)
            },
            _ => spec_message_comment(comments.drop_first(), id),
        }
    }
}

/// The comment the document attaches to a signal: the first entry keyed by
/// the message identifier and signal name wins.
pub open spec fn spec_signal_comment(comments: Seq<DocCommentV>, id: u32, name: Seq<char>) -> Option<
    Seq<char>,
>
    decreases comments.len(),
{
    if comments.len() == 0 {
        None
    } else {
        match comments[0] {
            DocCommentV::Signal { message_id, signal_name, comment } => if message_id == id
                && signal_name == name {
                Some(comment)
            } else {
                spec_signal_comment(comments.drop_first(), id, name)
            },
            _ => spec_signal_comment(comments.drop_first(), id, name),
        }
    }
}

/// The enumerated value table the document attaches to a signal: the first
/// entry keyed by the message identifier and signal name wins.
pub open spec fn spec_value_table(tables: Seq<DocValueTableV>, id: u32, name: Seq<char>) -> Option<
    Seq<(i64, Seq<char>)>,
>
    decreases tables.len(),
{
    if tables.len() == 0 {
        None
    } else {
        match tables[0] {
            DocValueTableV::Signal { message_id, signal_name, entries } => if message_id == id
                && signal_name == name {
                Some(entries)
            } else {
                spec_value_table(tables.drop_first(), id, name)
            },
            DocValueTableV::Other => spec_value_table(tables.drop_first(), id, name),
        }
    }
}

/// Finds the free-text comment the document attaches to a signal, if any.
pub fn locate_signal_comment(doc: &SchemaDoc, msg_id: u32, sig_name: &String) -> (r: Option<String>)
    ensures
        crate::tree_dbc::view_opt_text(r) == spec_signal_comment(doc@.comments, msg_id, sig_name@),
{
    let ghost cs: Seq<DocCommentV> = doc@.comments;
    let ghost goal = spec_signal_comment(doc@.comments, msg_id, sig_name@);
    let mut i: usize = 0;
    proof {
        assert(cs.skip(0) =~= cs);
    }
    while i < doc.comments.len()
        invariant
            i <= doc.comments.len(),
            cs == doc@.comments,
            goal == spec_signal_comment(doc@.comments, msg_id, sig_name@),
            goal == spec_signal_comment(cs.skip(i as int), msg_id, sig_name@),
        decreases doc.comments@.len() - i,
    {
        proof {
            assert(cs[i as int] == doc.comments@[i as int]@);
            assert(cs.skip(i as int)[0] == cs[i as int]);
            assert(cs.skip(i as int).drop_first() =~= cs.skip(i as int + 1));
        }
        match &doc.comments[i] {
            DocComment::Signal { message_id, signal_name, comment } => {
                if *message_id == msg_id && *signal_name == *sig_name {
                    return Some(comment.clone());
                }
            },
            _ => {},
        }
        i = i + 1;
    }
    proof {
        assert(cs.skip(i as int) =~= Seq::<DocCommentV>::empty());
    }
    None
}

/// Finds the free-text comment the document attaches to a message, if any.
pub fn locate_message_comment(doc: &SchemaDoc, msg_id: u32) -> (r: Option<String>)
    ensures
        crate::tree_dbc::view_opt_text(r) == spec_message_comment(doc@.comments, msg_id),
{
    let ghost cs: Seq<DocCommentV> = doc@.comments;
    let ghost goal = spec_message_comment(doc@.comments, msg_id);
    let mut i: usize = 0;
    proof {
        assert(cs.skip(0) =~= cs);
    }
    while i < doc.comments.len()
        invariant
            i <= doc.comments.len(),
            cs == doc@.comments,
            goal == spec_message_comment(doc@.comments, msg_id),
            goal == spec_message_comment(cs.skip(i as int), msg_id),
        decreases doc.comments@.len() - i,
    {
        proof {
            assert(cs[i as int] == doc.comments@[i as int]@);
            assert(cs.skip(i as int)[0] == cs[i as int]);
            assert(cs.skip(i as int).drop_first() =~= cs.skip(i as int + 1));
        }
        match &doc.comments[i] {
            DocComment::Message { message_id, comment } => {
                if *message_id == msg_id {
                    return Some(comment.clone());
                }
            },
            _ => {},
        }
        i = i + 1;
    }
    proof {
        assert(cs.skip(i as int) =~= Seq::<DocCommentV>::empty());
    }
    None
}

/// Finds the enumerated value table the document attaches to a signal, if
/// any.
pub fn locate_value_table<'a>(doc: &'a SchemaDoc, msg_id: u32, sig_name: &String) -> (r: Option<
    &'a Vec<(i64, String)>,
>)
    ensures
        match r {
            Some(entries) => spec_value_table(doc@.value_tables, msg_id, sig_name@) == Some(
                table_view(entries@),
            ),
            None => spec_value_table(doc@.value_tables, msg_id, sig_name@) is None,
        },
{
    let ghost ts: Seq<DocValueTableV> = doc@.value_tables;
    let mut i: usize = 0;
    proof {
        assert(ts.skip(0) =~= ts);
    }
    while i < doc.value_tables.len()
        invariant
            i <= doc.value_tables.len(),
            ts == doc@.value_tables,
            spec_value_table(doc@.value_tables, msg_id, sig_name@) == spec_value_table(
                ts.skip(i as int),
                msg_id,
                sig_name@,
            ),
        decreases doc.value_tables@.len() - i,
    {
        proof {
            assert(ts[i as int] == doc.value_tables@[i as int]@);
            assert(ts.skip(i as int)[0] == ts[i as int]);
            assert(ts.skip(i as int).drop_first() =~= ts.skip(i as int + 1));
        }
        match &doc.value_tables[i] {
            DocValueTable::Signal { message_id, signal_name, entries } => {
                if *message_id == msg_id && *signal_name == *sig_name {
                    return Some(entries);
                }
            },
            DocValueTable::Other => {},
        }
        i = i + 1;
    }
    proof {
        assert(ts.skip(i as int) =~= Seq::<DocValueTableV>::empty());
    }
    None
}

/// Where `e` goes when inserted into `s`, keeping entries with equal raw
/// values ahead of it: before the first entry with a strictly larger raw
/// value.
pub open spec fn spec_insert_sorted(e: (i64, Seq<char>), s: Seq<(i64, Seq<char>)>) -> Seq<
    (i64, Seq<char>),
>
    decreases s.len(),
{
    if s.len() == 0 {
        seq![e]
    } else if e.0 < s[0].0 {
        seq![e] + s
    } else {
        seq![s[0]] + spec_insert_sorted(e, s.drop_first())
    }
}

/// A stable insertion sort of an enum table, ascending by raw value.
pub open spec fn spec_sort_table(s: Seq<(i64, Seq<char>)>) -> Seq<(i64, Seq<char>)>
    decreases s.len(),
{
    if s.len() == 0 {
        Seq::empty()
    } else {
        spec_insert_sorted(s.last(), spec_sort_table(s.drop_last()))
    }
}

/// The table is ordered ascending by raw value.
pub open spec fn table_sorted_by_raw(s: Seq<(i64, Seq<char>)>) -> bool {
    forall|i: int, j: int| 0 <= i < j < s.len() ==> s[i].0 <= s[j].0
}

/// Inserting an element anywhere in a sequence adds exactly it to the
/// sequence's multiset.
proof fn lemma_seq_insert_to_multiset<A>(s: Seq<A>, p: int, e: A)
    requires
        0 <= p <= s.len(),
    ensures
        s.insert(p, e).to_multiset() == s.to_multiset().insert(e),
{
    broadcast use vstd::seq_lib::group_to_multiset_ensures;

    let t = s.insert(p, e);
    assert(t.remove(p) =~= s);
    assert(t[p] == e);
    assert(t.to_multiset().remove(e) =~= s.to_multiset());
    assert(t.to_multiset().contains(e)) by {
        assert(t.contains(e));
    }
    assert(t.to_multiset() =~= s.to_multiset().insert(e));
}

/// What `spec_insert_sorted` does: it keeps the multiset, every entry of the
/// result is `e` or one of `s`, and a sorted table stays sorted.
proof fn lemma_insert_sorted_props(e: (i64, Seq<char>), s: Seq<(i64, Seq<char>)>)
    ensures
        spec_insert_sorted(e, s).to_multiset() == s.to_multiset().insert(e),
        spec_insert_sorted(e, s).len() == s.len() + 1,
        forall|j: int|
            0 <= j < spec_insert_sorted(e, s).len() ==> (spec_insert_sorted(e, s)[j] == e
                || s.contains(#[trigger] spec_insert_sorted(e, s)[j])),
        table_sorted_by_raw(s) ==> table_sorted_by_raw(spec_insert_sorted(e, s)),
    decreases s.len(),
{
    let r = spec_insert_sorted(e, s);
    if s.len() == 0 {
        assert(r =~= Seq::<(i64, Seq<char>)>::empty().insert(0, e));
        lemma_seq_insert_to_multiset(Seq::<(i64, Seq<char>)>::empty(), 0, e);
        broadcast use vstd::seq_lib::group_to_multiset_ensures;

        assert(s.to_multiset() =~= Multiset::<(i64, Seq<char>)>::empty());
    } else if e.0 < s[0].0 {
        assert(r =~= s.insert(0, e));
        lemma_seq_insert_to_multiset(s, 0, e);
    } else {
        let sub = spec_insert_sorted(e, s.drop_first());
        lemma_insert_sorted_props(e, s.drop_first());
        assert(r =~= sub.insert(0, s[0]));
        lemma_seq_insert_to_multiset(sub, 0, s[0]);
        assert(s =~= s.drop_first().insert(0, s[0]));
        lemma_seq_insert_to_multiset(s.drop_first(), 0, s[0]);
        assert(r.to_multiset() =~= s.to_multiset().insert(e));
        assert(forall|j: int| 0 <= j < s.drop_first().len() ==> s.contains(#[trigger] s.drop_first()[j]))
            by {
            assert(forall|j: int|
                0 <= j < s.drop_first().len() ==> s.drop_first()[j] == s[j + 1]);
        }
        assert(forall|j: int| 0 <= j < r.len() ==> (r[j] == e || s.contains(#[trigger] r[j]))) by {
            assert(forall|j: int| 1 <= j < r.len() ==> r[j] == sub[j - 1]);
            assert(s.contains(s[0]));
        }
        if table_sorted_by_raw(s) {
            assert(table_sorted_by_raw(s.drop_first())) by {
                assert(forall|i: int, j: int|
                    0 <= i < j < s.drop_first().len() ==> (s.drop_first()[i].0
                        == s[i + 1].0 && s.drop_first()[j].0 == s[j + 1].0));
            }
            assert(table_sorted_by_raw(r)) by {
                assert(forall|j: int| 1 <= j < r.len() ==> r[j] == sub[j - 1]);
                assert(forall|j: int|
                    0 <= j < sub.len() ==> (sub[j] == e || s.drop_first().contains(
                        #[trigger] sub[j],
                    )));
                assert(forall|j: int| 0 <= j < sub.len() ==> s[0].0 <= sub[j].0) by {
                    assert(forall|k: int|
                        0 <= k < s.drop_first().len() ==> s[0].0 <= #[trigger] s.drop_first()[k].0);
                }
            }
        }
    }
}

/// Inserting before the first strictly larger raw value is what
/// `spec_insert_sorted` denotes.
proof fn lemma_insert_sorted_at(e: (i64, Seq<char>), s: Seq<(i64, Seq<char>)>, p: int)
    requires
        0 <= p <= s.len(),
        forall|j: int| 0 <= j < p ==> s[j].0 <= e.0,
        p < s.len() ==> e.0 < s[p].0,
    ensures
        spec_insert_sorted(e, s) == s.insert(p, e),
    decreases p,
{
    if p == 0 {
        if s.len() == 0 {
            assert(spec_insert_sorted(e, s) =~= s.insert(0, e));
        } else {
            assert(spec_insert_sorted(e, s) == seq![e] + s);
            assert(seq![e] + s =~= s.insert(0, e));
        }
    } else {
        assert(forall|j: int| 0 <= j < s.drop_first().len() ==> s.drop_first()[j] == s[j + 1]);
        lemma_insert_sorted_at(e, s.drop_first(), p - 1);
        assert(spec_insert_sorted(e, s) == seq![s[0]] + spec_insert_sorted(e, s.drop_first()));
        assert(seq![s[0]] + s.drop_first().insert(p - 1, e) =~= s.insert(p, e));
    }
}

/// What `spec_sort_table` yields: the same entries, ordered ascending by raw
/// value.
pub proof fn lemma_sort_table_props(s: Seq<(i64, Seq<char>)>)
    ensures
        spec_sort_table(s).to_multiset() == s.to_multiset(),
        spec_sort_table(s).len() == s.len(),
        table_sorted_by_raw(spec_sort_table(s)),
    decreases s.len(),
{
    broadcast use vstd::seq_lib::group_to_multiset_ensures;

    if s.len() == 0 {
    } else {
        lemma_sort_table_props(s.drop_last());
        lemma_insert_sorted_props(s.last(), spec_sort_table(s.drop_last()));
        assert(s =~= s.drop_last().push(s.last()));
        assert(s.drop_last().push(s.last()).to_multiset() == s.drop_last().to_multiset().insert(
            s.last(),
        ));
    }
}

/// Sorts an enum table ascending by raw value; entries with equal raw values
/// keep their relative order.
pub fn sort_value_table(entries: &Vec<(i64, String)>) -> (r: Vec<(i64, String)>)
    ensures
        table_view(r@) == spec_sort_table(table_view(entries@)),
{
    let ghost full: Seq<(i64, Seq<char>)> = table_view(entries@);
    let mut out: Vec<(i64, String)> = Vec::new();
    let mut i: usize = 0;
    proof {
        assert(full.take(0) =~= Seq::<(i64, Seq<char>)>::empty());
        assert(table_view(out@) =~= spec_sort_table(full.take(0)));
    }
    while i < entries.len()
        invariant
            i <= entries.len(),
            full == table_view(entries@),
            table_view(out@) == spec_sort_table(full.take(i as int)),
        decreases entries@.len() - i,
    {
        let e: (i64, String) = (entries[i].0, entries[i].1.clone());
        let ghost ev: (i64, Seq<char>) = (e.0, e.1@);
        let ghost before: Seq<(i64, Seq<char>)> = table_view(out@);
        let mut p: usize = 0;
        while p < out.len() && out[p].0 <= e.0
            invariant
                p <= out.len(),
                forall|j: int| 0 <= j < p ==> table_view(out@)[j].0 <= e.0,
                before == table_view(out@),
            decreases out@.len() - p,
        {
            p = p + 1;
        }
        out.insert(p, e);
        proof {
            lemma_insert_sorted_at(ev, before, p as int);
            assert(table_view(out@) =~= before.insert(p as int, ev));
            assert(full.take(i as int + 1).drop_last() =~= full.take(i as int));
            assert(full.take(i as int + 1).last() == ev);
            assert(table_view(out@) == spec_sort_table(full.take(i as int + 1)));
        }
        i = i + 1;
    }
    proof {
        assert(full.take(entries@.len() as int) =~= full);
    }
    out
}

/// The name of the ECU a message belongs to: the declared transmitter node
/// name verbatim, and the schema's "no transmitter" placeholder mapped to a
/// fixed display name.
pub open spec fn spec_sender_name(t: Option<Seq<char>>) -> Seq<char> {
    match t {
        Some(n) => n,
        None => "NULL SENDER"@,
    }
}

/// The representation a raw signal resolves to. A one-bit signal is a
/// `Bool`, whatever value table the document carries for it; a wider signal
/// with a non-empty value table is an `Enum` with the table sorted ascending
/// by raw value; anything else rescales linearly.
pub open spec fn spec_signal_type(tables: Seq<DocValueTableV>, id: u32, s: RawSignalV) -> SignalTypeV {
    if s.length_bits == 1 {
        SignalTypeV::Bool
    } else {
        match spec_value_table(tables, id, s.name) {
            Some(t) => if t.len() > 0 {
                SignalTypeV::Enum(spec_sort_table(t))
            } else {
                SignalTypeV::Linear { multi_bits: s.multi_bits, offset_bits: s.offset_bits }
            },
            None => SignalTypeV::Linear { multi_bits: s.multi_bits, offset_bits: s.offset_bits },
        }
    }
}

/// The fully resolved signal: type resolution plus the comment lookup.
pub open spec fn spec_resolve_signal(doc: SchemaDocV, id: u32, s: RawSignalV) -> crate::tree_dbc::SignalV {
    crate::tree_dbc::SignalV {
        name: s.name,
        comment: spec_signal_comment(doc.comments, id, s.name),
        signal_type: spec_signal_type(doc.value_tables, id, s),
        order: s.order,
        start_bit: s.start_bit,
        length_bits: s.length_bits,
        unit: s.unit,
        min: s.min,
        max: s.max,
        signed: s.signed,
    }
}

/// The fully resolved message: its comment lookup and each raw signal
/// resolved in order.
pub open spec fn spec_resolve_message(doc: SchemaDocV, m: RawMessageV) -> crate::tree_dbc::MessageV {
    crate::tree_dbc::MessageV {
        id: m.id,
        name: m.name,
        comment: spec_message_comment(doc.comments, m.id),
        length_bytes: m.length_bytes,
        signals: m.signals.map_values(|s: RawSignalV| spec_resolve_signal(doc, m.id, s)),
    }
}

/// Some ECU of the sequence carries this name.
pub open spec fn spec_has_ecu(ecus: Seq<crate::tree_dbc::EcuV>, name: Seq<char>) -> bool {
    exists|j: int| 0 <= j < ecus.len() && ecus[j].name == name
}

/// An index of an ECU carrying this name; under `ecu_names_distinct` it is
/// the only one.
pub open spec fn spec_ecu_index(ecus: Seq<crate::tree_dbc::EcuV>, name: Seq<char>) -> int {
    choose|j: int| 0 <= j < ecus.len() && ecus[j].name == name
}

/// Files one resolved message under its ECU: appended to the ECU already
/// carrying the name if there is one, and otherwise under a new ECU at the
/// end.
pub open spec fn spec_add_message(
    ecus: Seq<crate::tree_dbc::EcuV>,
    name: Seq<char>,
    msg: crate::tree_dbc::MessageV,
) -> Seq<crate::tree_dbc::EcuV> {
    if spec_has_ecu(ecus, name) {
        let j = spec_ecu_index(ecus, name);
        ecus.update(
            j,
            crate::tree_dbc::EcuV { name: ecus[j].name, messages: ecus[j].messages.push(msg) },
        )
    } else {
        ecus.push(crate::tree_dbc::EcuV { name: name, messages: seq![msg] })
    }
}

/// The ECUs the builder accumulates after filing the given messages in
/// order.
pub open spec fn spec_build_ecus(doc: SchemaDocV, msgs: Seq<RawMessageV>) -> Seq<
    crate::tree_dbc::EcuV,
>
    decreases msgs.len(),
{
    if msgs.len() == 0 {
        Seq::empty()
    } else {
        spec_add_message(
            spec_build_ecus(doc, msgs.drop_last()),
            spec_sender_name(msgs.last().transmitter),
            spec_resolve_message(doc, msgs.last()),
        )
    }
}

/// The whole model a schema document builds to.
pub open spec fn spec_build(doc: SchemaDocV) -> Seq<crate::tree_dbc::EcuV> {
    spec_build_ecus(doc, doc.messages)
}

/// Filing messages never produces two ECUs with one name.
pub proof fn lemma_build_distinct(doc: SchemaDocV, msgs: Seq<RawMessageV>)
    ensures
        crate::tree_dbc::ecu_names_distinct(spec_build_ecus(doc, msgs)),
    decreases msgs.len(),
{
    if msgs.len() > 0 {
        lemma_build_distinct(doc, msgs.drop_last());
        let prev = spec_build_ecus(doc, msgs.drop_last());
        let name = spec_sender_name(msgs.last().transmitter);
        let r = spec_build_ecus(doc, msgs);
        if spec_has_ecu(prev, name) {
            let j = spec_ecu_index(prev, name);
            assert(0 <= j < prev.len() && prev[j].name == name);
            assert(forall|k: int| 0 <= k < r.len() ==> r[k].name == prev[k].name);
        } else {
            assert(forall|k: int| 0 <= k < prev.len() ==> r[k].name == prev[k].name);
            assert(r[prev.len() as int].name == name);
            assert(forall|k: int| 0 <= k < prev.len() ==> prev[k].name != name);
        }
    }
}

/// Spec-level value of a vector of ECUs.
pub open spec fn ecus_view(ecus: Seq<crate::tree_dbc::Ecu>) -> Seq<crate::tree_dbc::EcuV> {
    ecus.map_values(|e: crate::tree_dbc::Ecu| e@)
}

/// Resolves one raw signal descriptor, attaching its comment and resolved
/// type.
pub fn resolve_signal(doc: &SchemaDoc, message_id: u32, signal: &RawSignal) -> (r: crate::tree_dbc::Signal)
    ensures
        r@ == spec_resolve_signal(doc@, message_id, signal@),
{
    let signal_type = get_signal_type(doc, message_id, signal);
    crate::tree_dbc::Signal {
        name: signal.name.clone(),
        comment: locate_signal_comment(doc, message_id, &signal.name),
        signal_type,
        order: signal.order,
        start_bit: signal.start_bit,
        length_bits: signal.length_bits,
        unit: signal.unit.clone(),
        min: signal.min,
        max: signal.max,
        signed: signal.signed,
    }
}

/// Resolves the representation type of one raw signal, by the precedence
/// rule: one-bit signals are `Bool` even when a value table exists; then a
/// non-empty value table makes an `Enum`; otherwise the signal is `Linear`.
pub fn get_signal_type(doc: &SchemaDoc, message_id: u32, signal: &RawSignal) -> (r: SignalType)
    ensures
        r@ == spec_signal_type(doc@.value_tables, message_id, signal@),
{
    if signal.length_bits == 1 {
        return SignalType::Bool;
    }
    match locate_value_table(doc, message_id, &signal.name) {
        Some(entries) => {
            if entries.len() > 0 {
                SignalType::Enum(sort_value_table(entries))
            } else {
                SignalType::Linear {
                    multi_bits: signal.multi_bits,
                    offset_bits: signal.offset_bits,
                }
            }
        },
        None => SignalType::Linear {
            multi_bits: signal.multi_bits,
            offset_bits: signal.offset_bits,
        },
    }
}

/// Resolves one raw message: comment lookup, and every signal resolved in
/// declaration order.
pub fn resolve_message(doc: &SchemaDoc, msg: &RawMessage) -> (r: crate::tree_dbc::Message)
    ensures
        r@ == spec_resolve_message(doc@, msg@),
{
    let mut signals: Vec<crate::tree_dbc::Signal> = Vec::new();
    let ghost goal: Seq<crate::tree_dbc::SignalV> = msg@.signals.map_values(
        |s: RawSignalV| spec_resolve_signal(doc@, msg@.id, s),
    );
    let mut i: usize = 0;
    proof {
        assert(signals@.map_values(|s: crate::tree_dbc::Signal| s@) =~= goal.take(0));
    }
    while i < msg.signals.len()
        invariant
            i <= msg.signals.len(),
            goal == msg@.signals.map_values(
                |s: RawSignalV| spec_resolve_signal(doc@, msg@.id, s),
            ),
            goal.len() == msg.signals@.len(),
            signals@.len() == i,
            signals@.map_values(|s: crate::tree_dbc::Signal| s@) == goal.take(i as int),
        decreases msg.signals@.len() - i,
    {
        let ghost before: Seq<crate::tree_dbc::Signal> = signals@;
        let s = resolve_signal(doc, msg.id, &msg.signals[i]);
        signals.push(s);
        proof {
            assert(msg@.signals[i as int] == msg.signals@[i as int]@);
            assert(signals@ == before.push(s));
            assert forall|k: int| 0 <= k < i + 1 implies signals@.map_values(
                |x: crate::tree_dbc::Signal| x@,
            )[k] == #[trigger] goal.take(i as int + 1)[k] by {
                assert(signals@.map_values(|x: crate::tree_dbc::Signal| x@)[k] == signals@[k]@);
                if k < i {
                    assert(signals@[k] == before[k]);
                    assert(before.map_values(|x: crate::tree_dbc::Signal| x@)[k] == before[k]@);
                    assert(before.map_values(|x: crate::tree_dbc::Signal| x@)[k] == goal.take(
                        i as int,
                    )[k]);
                } else {
                    assert(signals@[k] == s);
                    assert(goal[k] == spec_resolve_signal(doc@, msg@.id, msg@.signals[k]));
                    assert(s@ == goal[k]);
                }
            }
            assert(signals@.map_values(|x: crate::tree_dbc::Signal| x@) =~= goal.take(i as int + 1));
        }
        i = i + 1;
    }
    proof {
        assert(goal.take(msg.signals@.len() as int) =~= goal);
    }
    crate::tree_dbc::Message {
        id: msg.id,
        name: msg.name.clone(),
        comment: locate_message_comment(doc, msg.id),
        length_bytes: msg.length_bytes,
        signals,
    }
}

/// Finds the ECU already carrying this name, if any: the first match, which
/// under the builder's invariant is the only one.
fn find_ecu(ecus: &Vec<crate::tree_dbc::Ecu>, name: &String) -> (r: Option<usize>)
    ensures
        match r {
            Some(j) => j < ecus@.len() && ecus_view(ecus@)[j as int].name == name@,
            None => forall|k: int|
                0 <= k < ecus@.len() ==> ecus_view(ecus@)[k].name != name@,
        },
{
    let mut j: usize = 0;
    while j < ecus.len()
        invariant
            j <= ecus.len(),
            forall|k: int| 0 <= k < j ==> ecus_view(ecus@)[k].name != name@,
        decreases ecus@.len() - j,
    {
        if ecus[j].name == *name {
            proof {
                assert(ecus_view(ecus@)[j as int] == ecus@[j as int]@);
            }
            return Some(j);
        }
        proof {
            assert(ecus_view(ecus@)[j as int] == ecus@[j as int]@);
        }
        j = j + 1;
    }
    None
}

/// Builds the whole model from a schema document: every message resolved and
/// filed under its transmitter's ECU, in declaration order, with at most one
/// ECU per distinct transmitter name.
pub fn build_model(doc: &SchemaDoc) -> (r: crate::tree_dbc::TreeDbc)
    ensures
        r@.ecus == spec_build(doc@),
        crate::tree_dbc::ecu_names_distinct(r@.ecus),
{
    let mut ecus: Vec<crate::tree_dbc::Ecu> = Vec::new();
    let mut i: usize = 0;
    proof {
        assert(doc@.messages.take(0) =~= Seq::<RawMessageV>::empty());
        assert(ecus_view(ecus@) =~= spec_build_ecus(doc@, doc@.messages.take(0)));
    }
    while i < doc.messages.len()
        invariant
            i <= doc.messages.len(),
            ecus_view(ecus@) == spec_build_ecus(doc@, doc@.messages.take(i as int)),
        decreases doc.messages@.len() - i,
    {
        let msg = resolve_message(doc, &doc.messages[i]);
        let sender_name: String = match &doc.messages[i].transmitter {
            Some(name) => name.clone(),
            None => "NULL SENDER".to_owned(),
        };
        let ghost prev: Seq<crate::tree_dbc::EcuV> = ecus_view(ecus@);
        let ghost namev: Seq<char> = sender_name@;
        let ghost msgv: crate::tree_dbc::MessageV = msg@;
        proof {
            lemma_build_distinct(doc@, doc@.messages.take(i as int));
            assert(doc@.messages[i as int] == doc.messages@[i as int]@);
            assert(namev == spec_sender_name(doc@.messages[i as int].transmitter));
            assert(msgv == spec_resolve_message(doc@, doc@.messages[i as int]));
        }
        let ghost raw_prev: Seq<crate::tree_dbc::Ecu> = ecus@;
        match find_ecu(&ecus, &sender_name) {
            Some(j) => {
                let mut e = ecus.remove(j);
                let ghost e0: crate::tree_dbc::Ecu = e;
                e.messages.push(msg);
                ecus.insert(j, e);
                proof {
                    let jj = spec_ecu_index(prev, namev);
                    assert(spec_has_ecu(prev, namev));
                    assert(0 <= jj < prev.len() && prev[jj].name == namev);
                    assert(jj == j);
                    let target = spec_add_message(prev, namev, msgv);
                    assert(e0 == raw_prev[j as int]);
                    assert(ecus@ =~= raw_prev.update(j as int, e));
                    assert(e@.messages =~= prev[j as int].messages.push(msgv));
                    assert(e@ == target[j as int]);
                    assert forall|k: int| 0 <= k < target.len() implies ecus_view(
                        ecus@,
                    )[k] == #[trigger] target[k] by {
                        assert(ecus_view(ecus@)[k] == ecus@[k]@);
                        if k != j {
                            assert(ecus@[k] == raw_prev[k]);
                            assert(prev[k] == raw_prev[k]@);
                        }
                    }
                    assert(ecus_view(ecus@) =~= target);
                }
            },
            None => {
                let e = crate::tree_dbc::Ecu { name: sender_name, messages: vec![msg] };
                ecus.push(e);
                proof {
                    assert(!spec_has_ecu(prev, namev));
                    assert(e@.messages =~= seq![msgv]);
                    assert(ecus_view(ecus@) =~= spec_add_message(prev, namev, msgv));
                }
            },
        }
        proof {
            assert(doc@.messages.take(i as int + 1).drop_last() =~= doc@.messages.take(i as int));
            assert(doc@.messages.take(i as int + 1).last() == doc@.messages[i as int]);
            assert(ecus_view(ecus@) == spec_build_ecus(doc@, doc@.messages.take(i as int + 1)));
        }
        i = i + 1;
    }
    proof {
        assert(doc@.messages.take(doc.messages@.len() as int) =~= doc@.messages);
        lemma_build_distinct(doc@, doc@.messages);
    }
    crate::tree_dbc::TreeDbc { ecus }
}

} // verus!
