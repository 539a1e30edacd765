use vstd::prelude::*;

use crate::schema::{
    spec_add_message, spec_build, spec_build_ecus, spec_ecu_index, spec_has_ecu, spec_sender_name,
    spec_signal_type, spec_sort_table, spec_value_table, lemma_build_distinct,
    lemma_sort_table_props, table_sorted_by_raw, DocValueTableV, RawMessageV, RawSignalV,
    SchemaDocV,
};
use crate::tree_dbc::{ecu_names_distinct, EcuV, MessageV, SignalTypeV};

verus! {

/// The identifiers of the messages a given transmitter name sends, in
/// declaration order.
pub open spec fn spec_sender_ids(msgs: Seq<RawMessageV>, name: Seq<char>) -> Seq<u32>
    decreases msgs.len(),
{
    if msgs.len() == 0 {
        Seq::empty()
    } else {
        let rest = spec_sender_ids(msgs.drop_last(), name);
        if spec_sender_name(msgs.last().transmitter) == name {
            rest.push(msgs.last().id)
        } else {
            rest
        }
    }
}

/// The identifiers of the messages the built model files under the ECU with
/// the given name; empty when no such ECU exists.
pub open spec fn spec_ecu_ids(ecus: Seq<EcuV>, name: Seq<char>) -> Seq<u32> {
    if spec_has_ecu(ecus, name) {
        ecus[spec_ecu_index(ecus, name)].messages.map_values(|m: MessageV| m.id)
    } else {
        Seq::empty()
    }
}

/// Under distinct names, any index that carries the name is the index the
/// model's lookup denotes.
proof fn lemma_ecu_index_unique(ecus: Seq<EcuV>, name: Seq<char>, j: int)
    requires
        ecu_names_distinct(ecus),
        0 <= j < ecus.len(),
        ecus[j].name == name,
    ensures
        spec_has_ecu(ecus, name),
        spec_ecu_index(ecus, name) == j,
{
    assert(spec_has_ecu(ecus, name));
    let jj = spec_ecu_index(ecus, name);
    assert(0 <= jj < ecus.len() && ecus[jj].name == name);
}

/// The ECU a transmitter name gets in the built model owns exactly that
/// transmitter's message identifiers, in declaration order; and an ECU
/// exists for the name exactly when some message carries it.
pub proof fn lemma_build_ecu_ids(doc: SchemaDocV, msgs: Seq<RawMessageV>, name: Seq<char>)
    ensures
        spec_has_ecu(spec_build_ecus(doc, msgs), name) <==> spec_sender_ids(msgs, name).len() > 0,
        spec_ecu_ids(spec_build_ecus(doc, msgs), name) == spec_sender_ids(msgs, name),
    decreases msgs.len(),
{
    let r = spec_build_ecus(doc, msgs);
    if msgs.len() == 0 {
        assert(!spec_has_ecu(r, name));
        assert(spec_ecu_ids(r, name) == Seq::<u32>::empty());
    } else {
        let dl = msgs.drop_last();
        let x = msgs.last();
        let prev = spec_build_ecus(doc, dl);
        let n0 = spec_sender_name(x.transmitter);
        let m = crate::schema::spec_resolve_message(doc, x);
        lemma_build_ecu_ids(doc, dl, name);
        lemma_build_distinct(doc, dl);
        lemma_build_distinct(doc, msgs);
        assert(r == spec_add_message(prev, n0, m));
        assert(m.id == x.id);
        if spec_has_ecu(prev, n0) {
            let j = spec_ecu_index(prev, n0);
            assert(0 <= j < prev.len() && prev[j].name == n0);
            let updated = EcuV { name: prev[j].name, messages: prev[j].messages.push(m) };
            assert(r == prev.update(j, updated));
            assert(forall|k: int| 0 <= k < r.len() ==> r[k].name == prev[k].name);
            if n0 == name {
                lemma_ecu_index_unique(r, name, j);
                assert(spec_ecu_ids(r, name) == updated.messages.map_values(|mm: MessageV| mm.id));
                lemma_ecu_index_unique(prev, name, j);
                assert(updated.messages.map_values(|mm: MessageV| mm.id) =~= prev[j].messages.map_values(
                    |mm: MessageV| mm.id,
                ).push(m.id));
                assert(spec_sender_ids(msgs, name) == spec_sender_ids(dl, name).push(x.id));
            } else {
                if spec_has_ecu(prev, name) {
                    let i = spec_ecu_index(prev, name);
                    assert(0 <= i < prev.len() && prev[i].name == name);
                    assert(i != j);
                    lemma_ecu_index_unique(r, name, i);
                    assert(r[i] == prev[i]);
                } else {
                    assert(!spec_has_ecu(r, name)) by {
                        assert(forall|k: int|
                            0 <= k < r.len() ==> r[k].name == prev[k].name);
                    }
                }
                assert(spec_sender_ids(msgs, name) == spec_sender_ids(dl, name));
            }
        } else {
            let fresh = EcuV { name: n0, messages: seq![m] };
            assert(r == prev.push(fresh));
            assert(forall|k: int| 0 <= k < prev.len() ==> r[k] == prev[k]);
            assert(r[prev.len() as int] == fresh);
            if n0 == name {
                lemma_ecu_index_unique(r, name, prev.len() as int);
                assert(spec_ecu_ids(r, name) == seq![m].map_values(|mm: MessageV| mm.id));
                assert(seq![m].map_values(|mm: MessageV| mm.id) =~= seq![m.id]);
                assert(spec_sender_ids(dl, name).len() == 0);
                assert(spec_sender_ids(dl, name) =~= Seq::<u32>::empty());
                assert(spec_sender_ids(msgs, name) == spec_sender_ids(dl, name).push(x.id));
                assert(spec_ecu_ids(r, name) =~= spec_sender_ids(msgs, name));
            } else {
                if spec_has_ecu(prev, name) {
                    let i = spec_ecu_index(prev, name);
                    assert(0 <= i < prev.len() && prev[i].name == name);
                    lemma_ecu_index_unique(r, name, i);
                } else {
                    assert(!spec_has_ecu(r, name)) by {
                        assert(forall|k: int| 0 <= k < prev.len() ==> r[k].name == prev[k].name);
                        assert(r[prev.len() as int].name == n0);
                    }
                }
                assert(spec_sender_ids(msgs, name) == spec_sender_ids(dl, name));
            }
        }
    }
}

/// Law: messages sharing a transmitter name are merged: the built model
/// never holds two ECUs with one name, and the ECU carrying a name owns
/// exactly the identifiers of that transmitter's messages, in declaration
/// order.
pub proof fn lemma_ecu_merge(doc: SchemaDocV)
    ensures
        ecu_names_distinct(spec_build(doc)),
        forall|name: Seq<char>| #[trigger] spec_ecu_ids(spec_build(doc), name) == spec_sender_ids(
            doc.messages,
            name,
        ),
{
    lemma_build_distinct(doc, doc.messages);
    assert forall|name: Seq<char>| #[trigger] spec_ecu_ids(spec_build(doc), name)
        == spec_sender_ids(doc.messages, name) by {
        lemma_build_ecu_ids(doc, doc.messages, name);
    }
}

/// Removing one message removes exactly its contribution to a transmitter's
/// identifier multiset.
proof fn lemma_sender_ids_remove(msgs: Seq<RawMessageV>, i: int, name: Seq<char>)
    requires
        0 <= i < msgs.len(),
    ensures
        spec_sender_name(msgs[i].transmitter) == name ==> spec_sender_ids(
            msgs,
            name,
        ).to_multiset().count(msgs[i].id) >= 1,
        spec_sender_ids(msgs.remove(i), name).to_multiset() == (
        if spec_sender_name(msgs[i].transmitter) == name {
            spec_sender_ids(msgs, name).to_multiset().remove(msgs[i].id)
        } else {
            spec_sender_ids(msgs, name).to_multiset()
        }),
    decreases msgs.len(),
{
    broadcast use vstd::seq_lib::group_to_multiset_ensures;

    let dl = msgs.drop_last();
    let x = msgs.last();
    if i == msgs.len() - 1 {
        assert(msgs.remove(i) =~= dl);
        if spec_sender_name(x.transmitter) == name {
            assert(spec_sender_ids(msgs, name) == spec_sender_ids(dl, name).push(x.id));
            assert(spec_sender_ids(msgs, name).to_multiset() =~= spec_sender_ids(
                dl,
                name,
            ).to_multiset().insert(x.id));
            assert(spec_sender_ids(dl, name).to_multiset() =~= spec_sender_ids(
                msgs,
                name,
            ).to_multiset().remove(x.id));
        } else {
            assert(spec_sender_ids(msgs, name) == spec_sender_ids(dl, name));
        }
    } else {
        lemma_sender_ids_remove(dl, i, name);
        assert(msgs.remove(i).drop_last() =~= dl.remove(i));
        assert(msgs.remove(i).last() == x);
        assert(msgs[i] == dl[i]);
        let small = spec_sender_ids(dl.remove(i), name);
        if spec_sender_name(x.transmitter) == name {
            assert(spec_sender_ids(msgs, name) == spec_sender_ids(dl, name).push(x.id));
            assert(spec_sender_ids(msgs, name).to_multiset() =~= spec_sender_ids(
                dl,
                name,
            ).to_multiset().insert(x.id));
            assert(spec_sender_ids(msgs.remove(i), name) == small.push(x.id));
            assert(spec_sender_ids(msgs.remove(i), name).to_multiset() =~= small.to_multiset().insert(
                x.id,
            ));
            if spec_sender_name(msgs[i].transmitter) == name {
                assert(spec_sender_ids(msgs.remove(i), name).to_multiset() =~= spec_sender_ids(
                    msgs,
                    name,
                ).to_multiset().remove(msgs[i].id));
            }
        } else {
            assert(spec_sender_ids(msgs, name) == spec_sender_ids(dl, name));
            assert(spec_sender_ids(msgs.remove(i), name) == small);
        }
    }
}

/// A transmitter's identifier multiset is a function of the message multiset
/// alone: documents that permute the messages agree on it.
pub proof fn lemma_sender_ids_permutation(
    m1: Seq<RawMessageV>,
    m2: Seq<RawMessageV>,
    name: Seq<char>,
)
    requires
        m1.to_multiset() == m2.to_multiset(),
    ensures
        spec_sender_ids(m1, name).to_multiset() == spec_sender_ids(m2, name).to_multiset(),
    decreases m1.len(),
{
    broadcast use vstd::seq_lib::group_to_multiset_ensures;

    if m1.len() == 0 {
        assert(m2.len() == m1.to_multiset().len());
        assert(m2.len() == 0);
    } else {
        let dl = m1.drop_last();
        let x = m1.last();
        assert(m1 =~= dl.push(x));
        assert(m1.to_multiset() =~= dl.to_multiset().insert(x));
        assert(m2.to_multiset().count(x) >= 1) by {
            assert(m1.to_multiset().count(x) >= 1);
        }
        assert(m2.contains(x));
        let i2 = choose|i: int| 0 <= i < m2.len() && m2[i] == x;
        assert(m2.remove(i2).to_multiset() =~= m2.to_multiset().remove(x));
        assert(m2.remove(i2).to_multiset() =~= dl.to_multiset());
        lemma_sender_ids_permutation(dl, m2.remove(i2), name);
        lemma_sender_ids_remove(m2, i2, name);
        lemma_sender_ids_remove(m1, m1.len() - 1, name);
        assert(m1.remove(m1.len() - 1) =~= dl);
        if spec_sender_name(x.transmitter) == name {
            assert(spec_sender_ids(m1, name).to_multiset() =~= spec_sender_ids(
                m2,
                name,
            ).to_multiset());
        } else {
            assert(spec_sender_ids(m1, name) == spec_sender_ids(dl, name));
        }
    }
}

/// Law: the model a document builds to does not depend on the declaration
/// order of the messages: documents whose messages are permutations of one
/// another, with the same comment and value-table lookups, yield the same
/// set of ECU names and, for each name, the same multiset of message
/// identifiers.
pub proof fn lemma_build_order_independent(d1: SchemaDocV, d2: SchemaDocV)
    requires
        d1.messages.to_multiset() == d2.messages.to_multiset(),
    ensures
        forall|name: Seq<char>|
            spec_has_ecu(spec_build(d1), name) <==> spec_has_ecu(spec_build(d2), name),
        forall|name: Seq<char>| #[trigger] spec_ecu_ids(spec_build(d1), name).to_multiset()
            == spec_ecu_ids(spec_build(d2), name).to_multiset(),
{
    broadcast use vstd::seq_lib::group_to_multiset_ensures;

    assert forall|name: Seq<char>|
        spec_has_ecu(spec_build(d1), name) == spec_has_ecu(spec_build(d2), name) by {
        lemma_build_ecu_ids(d1, d1.messages, name);
        lemma_build_ecu_ids(d2, d2.messages, name);
        lemma_sender_ids_permutation(d1.messages, d2.messages, name);
        assert(spec_sender_ids(d1.messages, name).to_multiset().len() == spec_sender_ids(
            d1.messages,
            name,
        ).len());
        assert(spec_sender_ids(d2.messages, name).to_multiset().len() == spec_sender_ids(
            d2.messages,
            name,
        ).len());
    }
    assert forall|name: Seq<char>| #[trigger] spec_ecu_ids(spec_build(d1), name).to_multiset()
        == spec_ecu_ids(spec_build(d2), name).to_multiset() by {
        lemma_build_ecu_ids(d1, d1.messages, name);
        lemma_build_ecu_ids(d2, d2.messages, name);
        lemma_sender_ids_permutation(d1.messages, d2.messages, name);
    }
}

/// Law: decoding is total but for the range check: it fails exactly when
/// the signal's declared bit span exceeds the payload, and the failure is
/// always `RangeTooBig`; every bit pattern that fits decodes to a value.
pub proof fn lemma_decode_total(sig: crate::tree_dbc::SignalV, data: Seq<u8>)
    ensures
        crate::signal_parser::spec_parse_signal(sig, data) is Err <==> sig.start_bit
            + sig.length_bits > 8 * data.len(),
        crate::signal_parser::spec_parse_signal(sig, data) is Err ==> crate::signal_parser::spec_parse_signal(
            sig,
            data,
        )->Err_0 == crate::signal_parser::SignalParseError::RangeTooBig,
{
}

/// Law: a one-bit signal resolves to `Bool`, never to `Enum`, whatever
/// value table the document carries for it.
pub proof fn lemma_bool_precedence(tables: Seq<DocValueTableV>, id: u32, s: RawSignalV)
    requires
        s.length_bits == 1,
    ensures
        spec_signal_type(tables, id, s) == SignalTypeV::Bool,
{
}

/// Law: a resolved `Enum` table is ordered ascending by raw value, and
/// holds exactly the entries of the document's value table for the signal.
pub proof fn lemma_enum_table_sorted(tables: Seq<DocValueTableV>, id: u32, s: RawSignalV)
    requires
        spec_signal_type(tables, id, s) is Enum,
    ensures
        table_sorted_by_raw(spec_signal_type(tables, id, s)->Enum_0),
        spec_value_table(tables, id, s.name) is Some,
        spec_signal_type(tables, id, s)->Enum_0.to_multiset() == spec_value_table(
            tables,
            id,
            s.name,
        )->Some_0.to_multiset(),
{
    let t = spec_signal_type(tables, id, s)->Enum_0;
    let e = spec_value_table(tables, id, s.name)->Some_0;
    assert(t == spec_sort_table(e));
    lemma_sort_table_props(e);
}

} // verus!
