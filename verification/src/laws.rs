//! Laws of the emission protocol, proved over the model: every successful
//! walk leaves the grouping counter and the field-name stack exactly as it
//! found them, so every opened grouping and named group is closed at the
//! depth it was opened at.

use vstd::prelude::*;
use crate::model::{
    ends_with, ends_with_pair, seq_in_grouping_msg, spec_add_fieldname, spec_grouping,
    spec_tupple_start, spec_write_field_prefix, tok_colon_sp,
    spec_group_elems, spec_indent, spec_named_elems, spec_named_group, spec_pop_fieldname,
    spec_sequence, spec_seq_element, spec_seq_elems, spec_ser, spec_struct_element,
    spec_struct_end, spec_struct_start, spec_tupple_element, state_app, tok_close_brace,
    tok_eq_sep, tok_newline, EmitState, ErrView,
};
use crate::value::{Payload, Value};

verus! {

/// A successful walk of any value preserves the grouping counter and the
/// field-name stack of the context it started from.
pub proof fn lemma_ser_preserves_context(v: Value, st: EmitState)
    ensures
        spec_ser(v, st) matches Ok(st1) ==> st1.depth == st.depth && st1.names == st.names,
    decreases v, 0int,
{
    match v {
        Value::Optional(o) => match o {
            Option::Some(b) => lemma_ser_preserves_context(*b, st),
            Option::None => {},
        },
        Value::Sequence(es) => lemma_sequence_preserves_context(es@, st),
        Value::Grouping(es) => lemma_grouping_preserves_context(es@, st),
        Value::NamedGroup(fs) => lemma_named_group_preserves_context(fs@, st),
        Value::Variant(_, p) => match p {
            Payload::SinglePayload(b) => lemma_ser_preserves_context(*b, st),
            Payload::OrderedPayload(es) => lemma_grouping_preserves_context(es@, st),
            Payload::NamedPayload(fs) => lemma_named_group_preserves_context(fs@, st),
            Payload::NoPayload => {},
        },
        _ => {},
    }
}

/// A successful grouping element preserves the counter and the stack.
pub proof fn lemma_tupple_element_preserves_context(v: Value, st: EmitState)
    ensures
        spec_tupple_element(v, st) matches Ok(st1) ==> st1.depth == st.depth && st1.names
            == st.names,
    decreases v, 1int,
{
    lemma_ser_preserves_context(v, st);
}

pub proof fn lemma_group_elems_preserve_context(es: Seq<Value>, i: int, st: EmitState)
    ensures
        spec_group_elems(es, i, st) matches Ok(st1) ==> st1.depth == st.depth && st1.names
            == st.names,
    decreases es, es.len() - i,
{
    if 0 <= i < es.len() {
        lemma_tupple_element_preserves_context(es[i], st);
        match spec_tupple_element(es[i], st) {
            Ok(st1) => lemma_group_elems_preserve_context(es, i + 1, st1),
            Err(_) => {},
        }
    }
}

pub proof fn lemma_grouping_preserves_context(es: Seq<Value>, st: EmitState)
    ensures
        spec_grouping(es, st) matches Ok(st1) ==> st1.depth == st.depth && st1.names == st.names,
    decreases es, es.len() + 1,
{
    lemma_group_elems_preserve_context(es, 0, spec_tupple_start(st));
}

/// A successful named field preserves the counter and the stack: the name it
/// pushes is popped again once the field's value is written.
pub proof fn lemma_struct_element_preserves_context(key: Seq<char>, v: Value, st: EmitState)
    ensures
        spec_struct_element(key, v, st) matches Ok(st1) ==> st1.depth == st.depth && st1.names
            == st.names,
    decreases v, 1int,
{
    if st.depth > 0 {
        lemma_ser_preserves_context(v, state_app(st, key + tok_colon_sp()));
    } else {
        lemma_ser_preserves_context(v, spec_add_fieldname(st, key));
        assert(st.names.push(key).drop_last() =~= st.names);
    }
}

pub proof fn lemma_named_elems_preserve_context(fs: Seq<(String, Value)>, i: int, st: EmitState)
    ensures
        spec_named_elems(fs, i, st) matches Ok(st1) ==> st1.depth == st.depth && st1.names
            == st.names,
    decreases fs, fs.len() - i,
{
    if 0 <= i < fs.len() {
        lemma_struct_element_preserves_context(fs[i].0@, fs[i].1, st);
        match spec_struct_element(fs[i].0@, fs[i].1, st) {
            Ok(st1) => lemma_named_elems_preserve_context(fs, i + 1, st1),
            Err(_) => {},
        }
    }
}

pub proof fn lemma_named_group_preserves_context(fs: Seq<(String, Value)>, st: EmitState)
    ensures
        spec_named_group(fs, st) matches Ok(st1) ==> st1.depth == st.depth && st1.names
            == st.names,
    decreases fs, fs.len() + 1,
{
    match spec_struct_start(st) {
        Ok(st1) => lemma_named_elems_preserve_context(fs, 0, st1),
        Err(_) => {},
    }
}

/// A successful sequence element preserves the counter and the stack.
pub proof fn lemma_seq_element_preserves_context(v: Value, st: EmitState)
    ensures
        spec_seq_element(v, st) matches Ok(st1) ==> st1.depth == st.depth && st1.names
            == st.names,
    decreases v, 1int,
{
    if st.depth == 0 {
        lemma_ser_preserves_context(v, spec_write_field_prefix(st));
    }
}

pub proof fn lemma_seq_elems_preserve_context(es: Seq<Value>, i: int, st: EmitState)
    ensures
        spec_seq_elems(es, i, st) matches Ok(st1) ==> st1.depth == st.depth && st1.names
            == st.names,
    decreases es, es.len() - i,
{
    if 0 <= i < es.len() {
        lemma_seq_element_preserves_context(es[i], st);
        match spec_seq_element(es[i], st) {
            Ok(st1) => lemma_seq_elems_preserve_context(es, i + 1, st1),
            Err(_) => {},
        }
    }
}

pub proof fn lemma_sequence_preserves_context(es: Seq<Value>, st: EmitState)
    ensures
        spec_sequence(es, st) matches Ok(st1) ==> st1.depth == st.depth && st1.names == st.names,
    decreases es, es.len() + 1,
{
    lemma_seq_elems_preserve_context(es, 0, st);
}

/// A present optional renders exactly as its inner value does.
pub proof fn lemma_optional_present(inner: Box<Value>, st: EmitState)
    ensures
        spec_ser(Value::Optional(Option::Some(inner)), st) == spec_ser(*inner, st),
{
}

/// An absent optional renders as nothing: the context is untouched.
pub proof fn lemma_optional_absent(st: EmitState)
    ensures
        spec_ser(Value::Optional(Option::None), st) == Ok::<EmitState, (ErrView, EmitState)>(st),
{
}

/// A payload-less tagged value renders as its bare tag text: the only
/// payload shape that keeps its name.
pub proof fn lemma_variant_no_payload(tag: String, st: EmitState)
    ensures
        spec_ser(Value::Variant(tag, Payload::NoPayload), st) == Ok::<EmitState, (ErrView, EmitState)>(
            state_app(st, tag@),
        ),
{
}

/// A single-payload tagged value renders purely via its payload: the tag is
/// dropped and unrecoverable from the output.
pub proof fn lemma_variant_single_drops_tag(tag: String, inner: Box<Value>, st: EmitState)
    ensures
        spec_ser(Value::Variant(tag, Payload::SinglePayload(inner)), st) == spec_ser(*inner, st),
{
}

/// An ordered-fields tagged value renders exactly as the bare grouping of
/// its fields: the tag is dropped.
pub proof fn lemma_variant_ordered_drops_tag(tag: String, es: Vec<Value>, st: EmitState)
    ensures
        spec_ser(Value::Variant(tag, Payload::OrderedPayload(es)), st) == spec_ser(
            Value::Grouping(es),
            st,
        ),
{
}

/// A named-fields tagged value renders exactly as the bare named group of
/// its fields: the tag is dropped.
pub proof fn lemma_variant_named_drops_tag(tag: String, fs: Vec<(String, Value)>, st: EmitState)
    ensures
        spec_ser(Value::Variant(tag, Payload::NamedPayload(fs)), st) == spec_ser(
            Value::NamedGroup(fs),
            st,
        ),
{
}

/// A sequence met inside a grouping is rejected outright, whatever its
/// elements: repeated-key lines cannot stand on a comma-joined line. The
/// failure leaves the context exactly as it was, so no partial element is
/// ever written for it.
pub proof fn lemma_sequence_in_grouping_rejected(es: Vec<Value>, st: EmitState)
    requires
        st.depth > 0,
    ensures
        spec_ser(Value::Sequence(es), st) == Err::<EmitState, (ErrView, EmitState)>(
            (ErrView::NotSupported(seq_in_grouping_msg()), st),
        ),
{
    assert(spec_ser(Value::Sequence(es), st) == spec_sequence(es@, st));
    if es@.len() > 0 {
        assert(spec_seq_element(es@[0], st) == Err::<EmitState, (ErrView, EmitState)>(
            (ErrView::NotSupported(seq_in_grouping_msg()), st),
        ));
        assert(spec_seq_elems(es@, 0, st) == Err::<EmitState, (ErrView, EmitState)>(
            (ErrView::NotSupported(seq_in_grouping_msg()), st),
        ));
    } else {
        assert(spec_seq_elems(es@, 0, st) == Ok::<EmitState, (ErrView, EmitState)>(st));
    }
}

/// A named group written as a field of an enclosing group closes its block
/// and gets the field's own newline, so on success the buffer always ends
/// with `"}\n\n"` — also when the group is the last field of its parent.
pub proof fn lemma_nested_group_closes(key: Seq<char>, fs: Vec<(String, Value)>, st: EmitState)
    requires
        st.depth == 0,
    ensures
        spec_struct_element(key, Value::NamedGroup(fs), st) matches Ok(st1) ==> ends_with(
            st1.out,
            seq!['}', '\n', '\n'],
        ),
{
    let st1 = spec_add_fieldname(st, key);
    let wrote = spec_indent(st.names.push(key).len()) + key + tok_eq_sep();
    assert(st1.out =~= st.out + wrote);
    assert(spec_ser(Value::NamedGroup(fs), st1) == spec_named_group(fs@, st1));
    assert(ends_with_pair(st1.out, '=', ' ')) by {
        assert(st1.out.len() >= 2);
        assert(st1.out[st1.out.len() - 1] == ' ');
        assert(st1.out[st1.out.len() - 2] == '=');
    }
    match spec_struct_start(st1) {
        Ok(sa) => {
            lemma_named_elems_preserve_context(fs@, 0, sa);
            match spec_named_elems(fs@, 0, sa) {
                Ok(sb) => {
                    assert(sb.depth == 0 && sb.names == st1.names);
                    match spec_struct_end(sb) {
                        Ok(st2) => {
                            let fin = spec_pop_fieldname(state_app(st2, tok_newline()));
                            assert(fin.out =~= sb.out + spec_indent(sb.names.len())
                                + tok_close_brace() + tok_newline());
                            assert(ends_with(fin.out, seq!['}', '\n', '\n'])) by {
                                assert(fin.out.len() >= 3);
                                assert(fin.out.skip(fin.out.len() - 3) =~= seq!['}', '\n', '\n']);
                            }
                        },
                        Err(_) => {},
                    }
                },
                Err(_) => {},
            }
        },
        Err(_) => {},
    }
}

} // verus!
