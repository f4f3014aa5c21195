//! The closed taxonomy of encodable values, one shape per rendering rule.

use vstd::prelude::*;

verus! {

/// An abstract value to encode. Signed and unsigned integers of any width
/// widen to 64 bits before rendering, so only the widened forms appear here.
pub enum Value {
    /// A signed integer scalar, rendered as base-10 text.
    Int(i64),
    /// An unsigned integer scalar, rendered as base-10 text.
    Uint(u64),
    /// A boolean, rendered as the literal `true` or `false`.
    Bool(bool),
    /// A single character, rendered as a one-character string.
    Char(char),
    /// A string, rendered verbatim unless it contains a comma, in which case
    /// it is wrapped in double quotes.
    Str(String),
    /// The unit value; renders as nothing at all.
    Unit,
    /// A value that may be absent; an absent one renders as empty text.
    Optional(Option<Box<Value>>),
    /// An ordered collection, rendered as repeated `name = value` lines that
    /// reuse the same field key.
    Sequence(Vec<Value>),
    /// A fixed-arity positional group, rendered comma-joined on one line.
    Grouping(Vec<Value>),
    /// Named fields, rendered as a braced category block, or inline as
    /// `key: value` pairs when inside a grouping.
    NamedGroup(Vec<(String, Value)>),
    /// A tagged-union value: a tag together with one of four payload shapes.
    Variant(String, Payload),
}

/// The payload shapes a tagged-union value can carry. Only `NoPayload`
/// keeps its tag in the output; the other three render purely via the
/// payload, the field's own key supplying the identity.
pub enum Payload {
    NoPayload,
    SinglePayload(Box<Value>),
    OrderedPayload(Vec<Value>),
    NamedPayload(Vec<(String, Value)>),
}

/// The number of nodes in a value tree. It bounds how far the grouping
/// counter can climb while the tree is walked, which is what ties the
/// encoder's `usize` counter to the machine's limits.
pub open spec fn size(v: Value) -> nat
    decreases v, 0int,
{
    match v {
        Value::Optional(o) => match o {
            Option::Some(b) => 1 + size(*b),
            Option::None => 1,
        },
        Value::Sequence(es) => 1 + sizes(es@, 0),
        Value::Grouping(es) => 1 + sizes(es@, 0),
        Value::NamedGroup(fs) => 1 + fsizes(fs@, 0),
        Value::Variant(_, p) => 1 + payload_size(p),
        _ => 1,
    }
}

pub open spec fn payload_size(p: Payload) -> nat
    decreases p, 0int,
{
    match p {
        Payload::NoPayload => 0,
        Payload::SinglePayload(b) => size(*b),
        Payload::OrderedPayload(es) => sizes(es@, 0),
        Payload::NamedPayload(fs) => fsizes(fs@, 0),
    }
}

/// The summed size of the elements of `es` from position `i` on.
pub open spec fn sizes(es: Seq<Value>, i: int) -> nat
    decreases es, es.len() - i,
{
    if i < 0 || i >= es.len() {
        0
    } else {
        size(es[i]) + sizes(es, i + 1)
    }
}

/// The summed size of the field values of `fs` from position `i` on.
pub open spec fn fsizes(fs: Seq<(String, Value)>, i: int) -> nat
    decreases fs, fs.len() - i,
{
    if i < 0 || i >= fs.len() {
        0
    } else {
        size(fs[i].1) + fsizes(fs, i + 1)
    }
}

/// Each element's size is bounded by the summed size of its sequence.
pub proof fn lemma_size_at(es: Seq<Value>, k: int, i: int)
    requires
        0 <= k <= i < es.len(),
    ensures
        size(es[i]) <= sizes(es, k),
    decreases i - k,
{
    if k < i {
        lemma_size_at(es, k + 1, i);
    }
}

/// Each field value's size is bounded by the summed size of its field list.
pub proof fn lemma_fsize_at(fs: Seq<(String, Value)>, k: int, i: int)
    requires
        0 <= k <= i < fs.len(),
    ensures
        size(fs[i].1) <= fsizes(fs, k),
    decreases i - k,
{
    if k < i {
        lemma_fsize_at(fs, k + 1, i);
    }
}

} // verus!
