//! The mathematical model of the emission protocol: the emission context as
//! a ghost state, one transition per operation of the encoder, and the
//! recursive walk that says, for every value and starting context, exactly
//! what text an encode call produces. A failing transition yields the error
//! together with the context reached at the moment of failure, so the error
//! paths are pinned as exactly as the successes: nothing is written after a
//! failure, and a rejection that writes nothing carries its input unchanged.

use vstd::prelude::*;
use crate::text::{dec_int, dec_nat, digit_char};
use crate::value::{Payload, Value};

verus! {

/// The emission context: the output buffer, the active field-name stack,
/// whether the current field's prefix is still owed, and how many
/// comma-joined groupings are open.
#[verifier::ext_equal]
pub struct EmitState {
    pub out: Seq<char>,
    pub names: Seq<Seq<char>>,
    pub prefix_needed: bool,
    pub depth: nat,
}

/// The abstract form of an encode error.
#[verifier::ext_equal]
pub enum ErrView {
    /// A failure raised by a value's own encoding logic.
    Message(Seq<char>),
    /// A permanent capability gap, named by the feature.
    NotSupported(Seq<char>),
    /// An expected trailing pattern was missing when a retroactive edit was
    /// attempted; carries the buffer snapshot at failure time.
    Unexpected(Seq<char>),
}

/// The context an encode call starts from: empty buffer, empty name stack,
/// a prefix owed, no grouping open.
pub open spec fn init_state() -> EmitState {
    EmitState { out: Seq::empty(), names: Seq::empty(), prefix_needed: true, depth: 0 }
}

/// The error every sequence nested inside a grouping is rejected with.
pub open spec fn seq_in_grouping_msg() -> Seq<char> {
    "A sequence (Array/List/etc) contained inside a Tupple"@
}

/// The error every byte-array value is rejected with.
pub open spec fn bytes_msg() -> Seq<char> {
    "Byte arrays"@
}

/// The error every keyed-map entry point is rejected with.
pub open spec fn maps_msg() -> Seq<char> {
    "Maps"@
}

pub open spec fn state_app(st: EmitState, t: Seq<char>) -> EmitState {
    EmitState { out: st.out + t, ..st }
}

/// The name of the field currently being written: the top of the stack,
/// or empty text at the document root.
pub open spec fn current_name(st: EmitState) -> Seq<char> {
    if st.names.len() == 0 {
        Seq::empty()
    } else {
        st.names.last()
    }
}

/// A run of `n` spaces.
pub open spec fn spaces(n: nat) -> Seq<char>
    decreases n,
{
    if n == 0 {
        Seq::empty()
    } else {
        spaces((n - 1) as nat).push(' ')
    }
}

/// The indentation for the given nesting depth: four spaces per level below
/// the root; root fields get none.
pub open spec fn spec_indent(names_len: nat) -> Seq<char> {
    if names_len == 0 {
        Seq::empty()
    } else {
        spaces(4 * (names_len - 1) as nat)
    }
}

pub open spec fn tok_eq_sep() -> Seq<char> {
    seq![' ', '=', ' ']
}

pub open spec fn tok_comma_sp() -> Seq<char> {
    seq![',', ' ']
}

pub open spec fn tok_colon_sp() -> Seq<char> {
    seq![':', ' ']
}

pub open spec fn tok_open_brace() -> Seq<char> {
    seq!['{', '\n']
}

pub open spec fn tok_close_brace() -> Seq<char> {
    seq!['}', '\n']
}

pub open spec fn tok_newline() -> Seq<char> {
    seq!['\n']
}

/// Whether `s` ends with the two characters `a`, `b`.
pub open spec fn ends_with_pair(s: Seq<char>, a: char, b: char) -> bool {
    s.len() >= 2 && s[s.len() - 2] == a && s[s.len() - 1] == b
}

/// `s` with its last two characters removed.
pub open spec fn trim2(s: Seq<char>) -> Seq<char>
    recommends
        s.len() >= 2,
{
    s.take(s.len() - 2)
}

/// Whether `s` ends with the text `t`.
pub open spec fn ends_with(s: Seq<char>, t: Seq<char>) -> bool {
    t.len() <= s.len() && s.skip(s.len() - t.len()) == t
}

/// Writing the pending field prefix: when the prefix was already written,
/// only the flag flips back; otherwise indentation, the current field name
/// and ` = ` are appended. The flag is left raised so that a repeated-key
/// sequence writes the prefix again for each later element.
pub open spec fn spec_write_field_prefix(st: EmitState) -> EmitState {
    if !st.prefix_needed {
        EmitState { prefix_needed: true, ..st }
    } else {
        state_app(st, spec_indent(st.names.len()) + current_name(st) + tok_eq_sep())
    }
}

/// Entering a named field: push its name, write its prefix at once, and
/// record that the prefix is no longer owed.
pub open spec fn spec_add_fieldname(st: EmitState, name: Seq<char>) -> EmitState {
    let pushed = EmitState { names: st.names.push(name), prefix_needed: true, ..st };
    EmitState { prefix_needed: false, ..spec_write_field_prefix(pushed) }
}

/// Leaving a named field: drop its name off the stack.
pub open spec fn spec_pop_fieldname(st: EmitState) -> EmitState {
    if st.names.len() == 0 {
        st
    } else {
        EmitState { names: st.names.drop_last(), ..st }
    }
}

/// Opening a grouping: only the counter moves.
pub open spec fn spec_tupple_start(st: EmitState) -> EmitState {
    EmitState { depth: st.depth + 1, ..st }
}

/// Closing a grouping: the trailing `", "` the last element appended is
/// withdrawn; its absence is an internal-consistency error.
pub open spec fn spec_tupple_end(st: EmitState) -> Result<EmitState, (ErrView, EmitState)>
    recommends
        st.depth > 0,
{
    if ends_with_pair(st.out, ',', ' ') {
        Ok(EmitState { out: trim2(st.out), depth: (st.depth - 1) as nat, ..st })
    } else {
        Err((ErrView::Unexpected(st.out), st))
    }
}

/// Opening a named group: nothing at the root and inside a grouping; in a
/// nested field the just-written `"= "` is withdrawn and `"{\n"` appended,
/// turning `name = ` into `name {`.
pub open spec fn spec_struct_start(st: EmitState) -> Result<EmitState, (ErrView, EmitState)> {
    if st.names.len() == 0 {
        Ok(st)
    } else if st.depth > 0 {
        Ok(st)
    } else if ends_with_pair(st.out, '=', ' ') {
        Ok(EmitState { out: trim2(st.out) + tok_open_brace(), ..st })
    } else {
        Err((ErrView::Unexpected(st.out), st))
    }
}

/// Closing a named group: inside a grouping the trailing `", "` of the last
/// inline field is withdrawn; in a nested field indentation and `"}\n"` are
/// appended; at the root nothing happens.
pub open spec fn spec_struct_end(st: EmitState) -> Result<EmitState, (ErrView, EmitState)> {
    if st.depth > 0 {
        if ends_with_pair(st.out, ',', ' ') {
            Ok(EmitState { out: trim2(st.out), ..st })
        } else {
            Err((ErrView::Unexpected(st.out), st))
        }
    } else if st.names.len() > 0 {
        Ok(state_app(st, spec_indent(st.names.len()) + tok_close_brace()))
    } else {
        Ok(st)
    }
}

/// The text of a string scalar: verbatim, unless it holds a comma, in which
/// case it is wrapped in double quotes. No other escaping exists.
pub open spec fn render_str(t: Seq<char>) -> Seq<char> {
    if t.contains(',') {
        seq!['"'] + t + seq!['"']
    } else {
        t
    }
}

pub open spec fn render_bool(b: bool) -> Seq<char> {
    if b {
        seq!['t', 'r', 'u', 'e']
    } else {
        seq!['f', 'a', 'l', 's', 'e']
    }
}

/// The whole walk: what encoding `v` does to the context `st`.
pub open spec fn spec_ser(v: Value, st: EmitState) -> Result<EmitState, (ErrView, EmitState)>
    decreases v, 0int,
{
    match v {
        Value::Int(i) => Ok(state_app(st, dec_int(i as int))),
        Value::Uint(u) => Ok(state_app(st, dec_nat(u as nat))),
        Value::Bool(b) => Ok(state_app(st, render_bool(b))),
        Value::Char(c) => Ok(state_app(st, render_str(seq![c]))),
        Value::Str(s) => Ok(state_app(st, render_str(s@))),
        Value::Unit => Ok(st),
        Value::Optional(o) => match o {
            Option::None => Ok(st),
            Option::Some(b) => spec_ser(*b, st),
        },
        Value::Sequence(es) => spec_sequence(es@, st),
        Value::Grouping(es) => spec_grouping(es@, st),
        Value::NamedGroup(fs) => spec_named_group(fs@, st),
        Value::Variant(tag, p) => match p {
            Payload::NoPayload => Ok(state_app(st, tag@)),
            Payload::SinglePayload(b) => spec_ser(*b, st),
            Payload::OrderedPayload(es) => spec_grouping(es@, st),
            Payload::NamedPayload(fs) => spec_named_group(fs@, st),
        },
    }
}

/// One grouping element: the element's own encoding, then `", "`,
/// unconditionally.
pub open spec fn spec_tupple_element(v: Value, st: EmitState) -> Result<EmitState, (ErrView, EmitState)>
    decreases v, 1int,
{
    match spec_ser(v, st) {
        Ok(st1) => Ok(state_app(st1, tok_comma_sp())),
        Err(e) => Err(e),
    }
}

pub open spec fn spec_group_elems(es: Seq<Value>, i: int, st: EmitState) -> Result<
    EmitState,
    (ErrView, EmitState),
>
    decreases es, es.len() - i,
{
    if i < 0 || i >= es.len() {
        Ok(st)
    } else {
        match spec_tupple_element(es[i], st) {
            Ok(st1) => spec_group_elems(es, i + 1, st1),
            Err(e) => Err(e),
        }
    }
}

/// A whole grouping: open, the elements in order, close.
pub open spec fn spec_grouping(es: Seq<Value>, st: EmitState) -> Result<EmitState, (ErrView, EmitState)>
    decreases es, es.len() + 1,
{
    match spec_group_elems(es, 0, spec_tupple_start(st)) {
        Ok(st1) => spec_tupple_end(st1),
        Err(e) => Err(e),
    }
}

/// One named field: inline `key: value, ` inside a grouping; otherwise a
/// full `name = value` line one level deeper.
pub open spec fn spec_struct_element(key: Seq<char>, v: Value, st: EmitState) -> Result<
    EmitState,
    (ErrView, EmitState),
>
    decreases v, 1int,
{
    if st.depth > 0 {
        match spec_ser(v, state_app(st, key + tok_colon_sp())) {
            Ok(st1) => Ok(state_app(st1, tok_comma_sp())),
            Err(e) => Err(e),
        }
    } else {
        match spec_ser(v, spec_add_fieldname(st, key)) {
            Ok(st1) => Ok(spec_pop_fieldname(state_app(st1, tok_newline()))),
            Err(e) => Err(e),
        }
    }
}

pub open spec fn spec_named_elems(fs: Seq<(String, Value)>, i: int, st: EmitState) -> Result<
    EmitState,
    (ErrView, EmitState),
>
    decreases fs, fs.len() - i,
{
    if i < 0 || i >= fs.len() {
        Ok(st)
    } else {
        match spec_struct_element(fs[i].0@, fs[i].1, st) {
            Ok(st1) => spec_named_elems(fs, i + 1, st1),
            Err(e) => Err(e),
        }
    }
}

/// A whole named group: open, the fields in order, close.
pub open spec fn spec_named_group(fs: Seq<(String, Value)>, st: EmitState) -> Result<
    EmitState,
    (ErrView, EmitState),
>
    decreases fs, fs.len() + 1,
{
    match spec_struct_start(st) {
        Ok(st1) => match spec_named_elems(fs, 0, st1) {
            Ok(st2) => spec_struct_end(st2),
            Err(e) => Err(e),
        },
        Err(e) => Err(e),
    }
}

/// One sequence element: rejected outright inside a grouping; otherwise the
/// shared field prefix, the element's own encoding, then a newline. The
/// prefix is owed again afterwards, so that the next element of the
/// repeated-key run writes its own copy whatever the element left behind.
pub open spec fn spec_seq_element(v: Value, st: EmitState) -> Result<EmitState, (ErrView, EmitState)>
    decreases v, 1int,
{
    if st.depth > 0 {
        Err((ErrView::NotSupported(seq_in_grouping_msg()), st))
    } else {
        match spec_ser(v, spec_write_field_prefix(st)) {
            Ok(st1) => Ok(EmitState { prefix_needed: true, ..state_app(st1, tok_newline()) }),
            Err(e) => Err(e),
        }
    }
}

pub open spec fn spec_seq_elems(es: Seq<Value>, i: int, st: EmitState) -> Result<
    EmitState,
    (ErrView, EmitState),
>
    decreases es, es.len() - i,
{
    if i < 0 || i >= es.len() {
        Ok(st)
    } else {
        match spec_seq_element(es[i], st) {
            Ok(st1) => spec_seq_elems(es, i + 1, st1),
            Err(e) => Err(e),
        }
    }
}

/// Finishing a sequence: still rejected inside a grouping, so that even an
/// empty nested sequence fails; otherwise nothing more is written.
pub open spec fn spec_seq_end(st: EmitState) -> Result<EmitState, (ErrView, EmitState)> {
    if st.depth > 0 {
        Err((ErrView::NotSupported(seq_in_grouping_msg()), st))
    } else {
        Ok(st)
    }
}

/// A whole sequence: the elements in order, then the closing check.
pub open spec fn spec_sequence(es: Seq<Value>, st: EmitState) -> Result<EmitState, (ErrView, EmitState)>
    decreases es, es.len() + 1,
{
    match spec_seq_elems(es, 0, st) {
        Ok(st1) => spec_seq_end(st1),
        Err(e) => Err(e),
    }
}

/// What an encode call returns for `v`: the finished text on success, the
/// error otherwise; a partial buffer is never returned.
pub open spec fn spec_to_string(v: Value) -> Result<Seq<char>, ErrView> {
    match spec_ser(v, init_state()) {
        Ok(st) => Ok(st.out),
        Err(f) => Err(f.0),
    }
}

} // verus!
