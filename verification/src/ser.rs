//! The encoder: an emission context with one method per operation of the
//! protocol, and the recursive walk that drives them. Every method's
//! contract says exactly what it does to the context, in terms of the model.

use vstd::prelude::*;
use crate::laws::{
    lemma_seq_element_preserves_context, lemma_struct_element_preserves_context,
    lemma_tupple_element_preserves_context,
};
use crate::model::{
    bytes_msg, current_name, init_state, maps_msg, spec_add_fieldname, spec_grouping,
    spec_group_elems, spec_indent, spec_named_elems, spec_named_group, spec_pop_fieldname,
    spec_sequence, spec_seq_element, spec_seq_elems, spec_seq_end, spec_ser, spec_struct_element,
    spec_struct_end, spec_struct_start, spec_to_string, spec_tupple_element, spec_tupple_end,
    spec_tupple_start, spec_write_field_prefix, state_app, render_bool, render_str, spaces,
    tok_close_brace, tok_colon_sp, tok_comma_sp, tok_eq_sep, tok_newline, tok_open_brace, trim2,
    EmitState, ErrView,
};
use crate::text::{
    chars_to_string, dec_int, dec_nat, push_dec_i64, push_dec_u64, push_str_chars, str_has_comma,
};
use crate::value::{fsizes, lemma_fsize_at, lemma_size_at, size, sizes, Payload, Value};
use crate::Error;

verus! {

/// The view of the name stack: each stored name as its character sequence.
pub open spec fn names_view(s: Seq<String>) -> Seq<Seq<char>> {
    Seq::new(s.len(), |i: int| s[i]@)
}

proof fn lemma_names_view_push(s: Seq<String>, x: String, xv: Seq<char>)
    requires
        x@ == xv,
    ensures
        names_view(s.push(x)) == names_view(s).push(xv),
{
    assert forall|i: int| 0 <= i < s.len() + 1 implies names_view(s.push(x))[i] == names_view(
        s,
    ).push(xv)[i] by {
        if i < s.len() {
            assert(s.push(x)[i] == s[i]);
        } else {
            assert(s.push(x)[i] == x);
        }
    }
    assert(names_view(s.push(x)) =~= names_view(s).push(xv));
}

proof fn lemma_names_view_drop(s: Seq<String>)
    requires
        s.len() > 0,
    ensures
        names_view(s.drop_last()) == names_view(s).drop_last(),
{
    assert forall|i: int| 0 <= i < s.len() - 1 implies names_view(s.drop_last())[i] == names_view(
        s,
    ).drop_last()[i] by {
        assert(s.drop_last()[i] == s[i]);
    }
    assert(names_view(s.drop_last()) =~= names_view(s).drop_last());
}

/// The emission context of one encode call: the output buffer, the active
/// field-name stack, the pending-prefix flag, and the count of open
/// comma-joined groupings.
pub struct Serializer {
    output: Vec<char>,
    fieldname: Vec<String>,
    field_prefix_needed: bool,
    within_tupple: usize,
}

impl View for Serializer {
    type V = EmitState;

    closed spec fn view(&self) -> EmitState {
        EmitState {
            out: self.output@,
            names: names_view(self.fieldname@),
            prefix_needed: self.field_prefix_needed,
            depth: self.within_tupple as nat,
        }
    }
}

impl Serializer {
    /// A fresh context: empty buffer, empty stack, prefix owed, no grouping
    /// open.
    pub fn new() -> (s: Serializer)
        ensures
            s@ == init_state(),
    {
        let s = Serializer {
            output: Vec::new(),
            fieldname: Vec::new(),
            field_prefix_needed: true,
            within_tupple: 0,
        };
        proof {
            assert(names_view(s.fieldname@) =~= Seq::<Seq<char>>::empty());
            assert(s@ =~= init_state());
        }
        s
    }

    /// How many comma-joined groupings are currently open.
    pub fn grouping_depth(&self) -> (r: usize)
        ensures
            r as nat == self@.depth,
    {
        self.within_tupple
    }

    /// Gives up the context and hands out the finished buffer.
    pub fn finish(self) -> (r: String)
        ensures
            r@ == self@.out,
    {
        chars_to_string(&self.output)
    }

    /// Writes the current field's `name = ` prefix, indented, unless it was
    /// already written; then it only lowers the flag back.
    pub fn write_field_prefix(&mut self)
        ensures
            final(self)@ == spec_write_field_prefix(old(self)@),
    {
        if !self.field_prefix_needed {
            self.field_prefix_needed = true;
            proof {
                assert(self@ =~= spec_write_field_prefix(old(self)@));
            }
            return;
        }
        self.indent();
        let len = self.fieldname.len();
        if len > 0 {
            push_str_chars(&mut self.output, self.fieldname[len - 1].as_str());
        }
        self.output.push(' ');
        self.output.push('=');
        self.output.push(' ');
        proof {
            assert(self@.out =~= old(self)@.out + spec_indent(old(self)@.names.len())
                + current_name(old(self)@) + tok_eq_sep());
            assert(self@ =~= spec_write_field_prefix(old(self)@));
        }
    }

    /// Enters the named field `name`: pushes it and writes its prefix.
    pub fn add_fieldname(&mut self, name: &str)
        ensures
            final(self)@ == spec_add_fieldname(old(self)@, name@),
    {
        let owned = name.to_owned();
        self.fieldname.push(owned);
        self.field_prefix_needed = true;
        proof {
            lemma_names_view_push(old(self).fieldname@, self.fieldname@.last(), name@);
            assert(self@ =~= EmitState {
                names: old(self)@.names.push(name@),
                prefix_needed: true,
                ..old(self)@
            });
        }
        self.write_field_prefix();
        self.field_prefix_needed = false;
        proof {
            assert(self@ =~= spec_add_fieldname(old(self)@, name@));
        }
    }

    /// Leaves the current named field.
    pub fn pop_fieldname(&mut self)
        ensures
            final(self)@ == spec_pop_fieldname(old(self)@),
    {
        let _popped = self.fieldname.pop();
        proof {
            if old(self).fieldname@.len() > 0 {
                lemma_names_view_drop(old(self).fieldname@);
                assert(self.fieldname@ =~= old(self).fieldname@.drop_last());
                assert(self@ =~= spec_pop_fieldname(old(self)@));
            } else {
                assert(self@ =~= spec_pop_fieldname(old(self)@));
            }
        }
    }

    /// Writes four spaces for every nesting level below the root.
    pub fn indent(&mut self)
        ensures
            final(self)@ == state_app(old(self)@, spec_indent(old(self)@.names.len())),
    {
        let levels = self.fieldname.len();
        proof {
            assert(old(self).output@ + spaces(0) =~= old(self).output@);
        }
        let mut lv: usize = 1;
        while lv < levels
            invariant
                1 <= lv,
                levels == 0 ==> lv == 1,
                levels > 0 ==> lv <= levels,
                levels == self.fieldname.len(),
                self.fieldname == old(self).fieldname,
                self.field_prefix_needed == old(self).field_prefix_needed,
                self.within_tupple == old(self).within_tupple,
                self.output@ == old(self).output@ + spaces((4 * (lv - 1)) as nat),
            decreases levels - lv,
        {
            let ghost m = (4 * (lv - 1)) as nat;
            self.output.push(' ');
            self.output.push(' ');
            self.output.push(' ');
            self.output.push(' ');
            proof {
                assert(spaces(m + 1) == spaces(m).push(' '));
                assert(spaces(m + 2) == spaces(m + 1).push(' '));
                assert(spaces(m + 3) == spaces(m + 2).push(' '));
                assert(spaces(m + 4) == spaces(m + 3).push(' '));
                assert(self.output@ =~= old(self).output@ + spaces((4 * (lv + 1 - 1)) as nat));
            }
            lv = lv + 1;
        }
        proof {
            if levels == 0 {
                assert(spec_indent(0) =~= Seq::<char>::empty());
            }
            assert(self@ =~= state_app(old(self)@, spec_indent(old(self)@.names.len())));
        }
    }

    /// Whether the context is inside a comma-joined grouping.
    pub fn is_in_tupple(&self) -> (r: bool)
        ensures
            r == (self@.depth > 0),
    {
        self.within_tupple > 0
    }

    /// Opens a comma-joined grouping.
    pub fn tupple_start(&mut self) -> (r: Result<(), Error>)
        requires
            old(self)@.depth < usize::MAX as nat,
        ensures
            r is Ok,
            final(self)@ == spec_tupple_start(old(self)@),
    {
        self.within_tupple = self.within_tupple + 1;
        proof {
            assert(self@ =~= spec_tupple_start(old(self)@));
        }
        Ok(())
    }

    /// Closes a grouping: withdraws the trailing `", "` the last element
    /// appended, or reports the internal-consistency violation.
    pub fn tupple_end(&mut self) -> (r: Result<(), Error>)
        requires
            old(self)@.depth > 0,
        ensures
            match spec_tupple_end(old(self)@) {
                Ok(st) => r is Ok && final(self)@ == st,
                Err(f) => r matches Err(err) && err@ == f.0 && final(self)@ == f.1,
            },
    {
        let n = self.output.len();
        if n >= 2 && self.output[n - 2] == ',' && self.output[n - 1] == ' ' {
            let _last = self.output.pop();
            let _sep = self.output.pop();
            self.within_tupple = self.within_tupple - 1;
            proof {
                assert(self.output@ =~= trim2(old(self).output@));
                assert(self@ =~= spec_tupple_end(old(self)@)->Ok_0);
            }
            Ok(())
        } else {
            Err(Error::UnexpectedSequence(chars_to_string(&self.output)))
        }
    }

    /// Opens a named group: nothing at the root and inside a grouping; in a
    /// nested field the pending `"= "` is turned into `"{\n"`.
    pub fn struct_start(&mut self) -> (r: Result<(), Error>)
        ensures
            match spec_struct_start(old(self)@) {
                Ok(st) => r is Ok && final(self)@ == st,
                Err(f) => r matches Err(err) && err@ == f.0 && final(self)@ == f.1,
            },
    {
        if self.fieldname.len() == 0 {
            Ok(())
        } else if self.is_in_tupple() {
            Ok(())
        } else {
            let n = self.output.len();
            if n >= 2 && self.output[n - 2] == '=' && self.output[n - 1] == ' ' {
                let _last = self.output.pop();
                let _sep = self.output.pop();
                self.output.push('{');
                self.output.push('\n');
                proof {
                    assert(self.output@ =~= trim2(old(self).output@) + tok_open_brace());
                    assert(self@ =~= spec_struct_start(old(self)@)->Ok_0);
                }
                Ok(())
            } else {
                Err(Error::UnexpectedSequence(chars_to_string(&self.output)))
            }
        }
    }

    /// Closes a named group: inline mode withdraws the trailing `", "`;
    /// nested mode writes the indented `"}\n"`; the root needs nothing.
    pub fn struct_end(&mut self) -> (r: Result<(), Error>)
        ensures
            match spec_struct_end(old(self)@) {
                Ok(st) => r is Ok && final(self)@ == st,
                Err(f) => r matches Err(err) && err@ == f.0 && final(self)@ == f.1,
            },
    {
        if self.is_in_tupple() {
            let n = self.output.len();
            if n >= 2 && self.output[n - 2] == ',' && self.output[n - 1] == ' ' {
                let _last = self.output.pop();
                let _sep = self.output.pop();
                proof {
                    assert(self.output@ =~= trim2(old(self).output@));
                    assert(self@ =~= spec_struct_end(old(self)@)->Ok_0);
                }
                Ok(())
            } else {
                Err(Error::UnexpectedSequence(chars_to_string(&self.output)))
            }
        } else if self.fieldname.len() > 0 {
            self.indent();
            self.output.push('}');
            self.output.push('\n');
            proof {
                assert(self@.out =~= old(self)@.out + spec_indent(old(self)@.names.len())
                    + tok_close_brace());
                assert(self@ =~= spec_struct_end(old(self)@)->Ok_0);
            }
            Ok(())
        } else {
            Ok(())
        }
    }

    /// Renders a signed integer as base-10 text.
    pub fn serialize_i64(&mut self, v: i64) -> (r: Result<(), Error>)
        ensures
            r is Ok,
            final(self)@ == state_app(old(self)@, dec_int(v as int)),
    {
        push_dec_i64(&mut self.output, v);
        proof {
            assert(self@ =~= state_app(old(self)@, dec_int(v as int)));
        }
        Ok(())
    }

    pub fn serialize_i8(&mut self, v: i8) -> (r: Result<(), Error>)
        ensures
            r is Ok,
            final(self)@ == state_app(old(self)@, dec_int(v as int)),
    {
        self.serialize_i64(v as i64)
    }

    pub fn serialize_i16(&mut self, v: i16) -> (r: Result<(), Error>)
        ensures
            r is Ok,
            final(self)@ == state_app(old(self)@, dec_int(v as int)),
    {
        self.serialize_i64(v as i64)
    }

    pub fn serialize_i32(&mut self, v: i32) -> (r: Result<(), Error>)
        ensures
            r is Ok,
            final(self)@ == state_app(old(self)@, dec_int(v as int)),
    {
        self.serialize_i64(v as i64)
    }

    /// Renders an unsigned integer as base-10 text.
    pub fn serialize_u64(&mut self, v: u64) -> (r: Result<(), Error>)
        ensures
            r is Ok,
            final(self)@ == state_app(old(self)@, dec_nat(v as nat)),
    {
        push_dec_u64(&mut self.output, v);
        proof {
            assert(self@ =~= state_app(old(self)@, dec_nat(v as nat)));
        }
        Ok(())
    }

    pub fn serialize_u8(&mut self, v: u8) -> (r: Result<(), Error>)
        ensures
            r is Ok,
            final(self)@ == state_app(old(self)@, dec_nat(v as nat)),
    {
        self.serialize_u64(v as u64)
    }

    pub fn serialize_u16(&mut self, v: u16) -> (r: Result<(), Error>)
        ensures
            r is Ok,
            final(self)@ == state_app(old(self)@, dec_nat(v as nat)),
    {
        self.serialize_u64(v as u64)
    }

    pub fn serialize_u32(&mut self, v: u32) -> (r: Result<(), Error>)
        ensures
            r is Ok,
            final(self)@ == state_app(old(self)@, dec_nat(v as nat)),
    {
        self.serialize_u64(v as u64)
    }

    /// Renders a boolean as the literal `true` or `false`.
    pub fn serialize_bool(&mut self, v: bool) -> (r: Result<(), Error>)
        ensures
            r is Ok,
            final(self)@ == state_app(old(self)@, render_bool(v)),
    {
        if v {
            self.output.push('t');
            self.output.push('r');
            self.output.push('u');
            self.output.push('e');
        } else {
            self.output.push('f');
            self.output.push('a');
            self.output.push('l');
            self.output.push('s');
            self.output.push('e');
        }
        proof {
            assert(self@ =~= state_app(old(self)@, render_bool(v)));
        }
        Ok(())
    }

    /// Renders a character as a one-character string, quoted when it is the
    /// comma itself.
    pub fn serialize_char(&mut self, c: char) -> (r: Result<(), Error>)
        ensures
            r is Ok,
            final(self)@ == state_app(old(self)@, render_str(seq![c])),
    {
        if c == ',' {
            self.output.push('"');
            self.output.push(c);
            self.output.push('"');
            proof {
                assert(seq![c][0] == ',');
                assert(seq![c].contains(','));
                assert(self@ =~= state_app(old(self)@, render_str(seq![c])));
            }
        } else {
            self.output.push(c);
            proof {
                assert(forall|i: int| 0 <= i < seq![c].len() ==> seq![c][i] != ',');
                assert(!seq![c].contains(','));
                assert(self@ =~= state_app(old(self)@, render_str(seq![c])));
            }
        }
        Ok(())
    }

    /// Renders a string: verbatim, or wrapped in double quotes when it holds
    /// a comma. Nothing else is escaped.
    pub fn serialize_str(&mut self, v: &str) -> (r: Result<(), Error>)
        ensures
            r is Ok,
            final(self)@ == state_app(old(self)@, render_str(v@)),
    {
        if str_has_comma(v) {
            self.output.push('"');
            push_str_chars(&mut self.output, v);
            self.output.push('"');
            proof {
                assert(self@ =~= state_app(old(self)@, render_str(v@)));
            }
        } else {
            push_str_chars(&mut self.output, v);
            proof {
                assert(self@ =~= state_app(old(self)@, render_str(v@)));
            }
        }
        Ok(())
    }

    /// Byte arrays are a permanent capability gap; nothing is written.
    pub fn serialize_bytes(&mut self, _v: &[u8]) -> (r: Result<(), Error>)
        ensures
            r matches Err(e) && e@ == ErrView::NotSupported(bytes_msg()),
            final(self)@ == old(self)@,
    {
        Err(Error::NotSupported("Byte arrays"))
    }

    /// An absent optional renders as nothing.
    pub fn serialize_none(&mut self) -> (r: Result<(), Error>)
        ensures
            r is Ok,
            final(self)@ == old(self)@,
    {
        self.serialize_unit()
    }

    /// The unit value renders as nothing.
    pub fn serialize_unit(&mut self) -> (r: Result<(), Error>)
        ensures
            r is Ok,
            final(self)@ == old(self)@,
    {
        Ok(())
    }

    /// A unit struct renders as nothing.
    pub fn serialize_unit_struct(&mut self, _name: &str) -> (r: Result<(), Error>)
        ensures
            r is Ok,
            final(self)@ == old(self)@,
    {
        Ok(())
    }

    /// A payload-less tagged value renders as its bare tag text: the only
    /// shape that keeps its name.
    pub fn serialize_unit_variant(&mut self, variant: &str) -> (r: Result<(), Error>)
        ensures
            r is Ok,
            final(self)@ == state_app(old(self)@, variant@),
    {
        push_str_chars(&mut self.output, variant);
        proof {
            assert(self@ =~= state_app(old(self)@, variant@));
        }
        Ok(())
    }

    /// Keyed maps are a permanent capability gap; nothing is written.
    pub fn serialize_map(&mut self, _len: Option<usize>) -> (r: Result<(), Error>)
        ensures
            r matches Err(e) && e@ == ErrView::NotSupported(maps_msg()),
            final(self)@ == old(self)@,
    {
        Err(Error::NotSupported("Maps"))
    }

    /// A map key is never written.
    pub fn serialize_map_key(&mut self, _key: &Value) -> (r: Result<(), Error>)
        ensures
            r matches Err(e) && e@ == ErrView::NotSupported(maps_msg()),
            final(self)@ == old(self)@,
    {
        Err(Error::NotSupported("Maps"))
    }

    /// A map value is never written.
    pub fn serialize_map_value(&mut self, _value: &Value) -> (r: Result<(), Error>)
        ensures
            r matches Err(e) && e@ == ErrView::NotSupported(maps_msg()),
            final(self)@ == old(self)@,
    {
        Err(Error::NotSupported("Maps"))
    }

    /// A map entry is never written.
    pub fn serialize_map_entry(&mut self, _key: &Value, _value: &Value) -> (r: Result<(), Error>)
        ensures
            r matches Err(e) && e@ == ErrView::NotSupported(maps_msg()),
            final(self)@ == old(self)@,
    {
        Err(Error::NotSupported("Maps"))
    }

    /// Finishing a map fails like every other map entry point.
    pub fn serialize_map_end(&mut self) -> (r: Result<(), Error>)
        ensures
            r matches Err(e) && e@ == ErrView::NotSupported(maps_msg()),
            final(self)@ == old(self)@,
    {
        Err(Error::NotSupported("Maps"))
    }

    /// One grouping element: the element itself, then `", "` unconditionally;
    /// the grouping's close withdraws the last one.
    pub fn tupple_element(&mut self, value: &Value) -> (r: Result<(), Error>)
        requires
            old(self)@.depth + size(*value) <= usize::MAX as nat,
        ensures
            match spec_tupple_element(*value, old(self)@) {
                Ok(st) => r is Ok && final(self)@ == st,
                Err(f) => r matches Err(err) && err@ == f.0 && final(self)@ == f.1,
            },
        decreases *value, 1int,
    {
        let res = value.serialize(&mut *self);
        match res {
            Ok(()) => {
                self.output.push(',');
                self.output.push(' ');
                proof {
                    assert(self@ =~= state_app(spec_ser(*value, old(self)@)->Ok_0, tok_comma_sp()));
                }
                Ok(())
            },
            Err(e) => Err(e),
        }
    }

    /// One named field: `key: value, ` inline inside a grouping, a full
    /// `name = value` line one level deeper otherwise.
    pub fn struct_element(&mut self, key: &str, value: &Value) -> (r: Result<(), Error>)
        requires
            old(self)@.depth + size(*value) <= usize::MAX as nat,
        ensures
            match spec_struct_element(key@, *value, old(self)@) {
                Ok(st) => r is Ok && final(self)@ == st,
                Err(f) => r matches Err(err) && err@ == f.0 && final(self)@ == f.1,
            },
        decreases *value, 1int,
    {
        if self.is_in_tupple() {
            push_str_chars(&mut self.output, key);
            self.output.push(':');
            self.output.push(' ');
            proof {
                assert(self@ =~= state_app(old(self)@, key@ + tok_colon_sp()));
            }
            let res = value.serialize(&mut *self);
            match res {
                Ok(()) => {
                    self.output.push(',');
                    self.output.push(' ');
                    proof {
                        assert(self@ =~= state_app(
                            spec_ser(*value, state_app(old(self)@, key@ + tok_colon_sp()))->Ok_0,
                            tok_comma_sp(),
                        ));
                    }
                    Ok(())
                },
                Err(e) => Err(e),
            }
        } else {
            self.add_fieldname(key);
            let res = value.serialize(&mut *self);
            match res {
                Ok(()) => {
                    self.output.push('\n');
                    proof {
                        assert(self@ =~= state_app(
                            spec_ser(*value, spec_add_fieldname(old(self)@, key@))->Ok_0,
                            tok_newline(),
                        ));
                    }
                    self.pop_fieldname();
                    Ok(())
                },
                Err(e) => Err(e),
            }
        }
    }

    /// One sequence element: rejected inside a grouping, the context left
    /// untouched; otherwise the shared field prefix, the element, a newline.
    pub fn seq_element(&mut self, value: &Value) -> (r: Result<(), Error>)
        requires
            old(self)@.depth + size(*value) <= usize::MAX as nat,
        ensures
            match spec_seq_element(*value, old(self)@) {
                Ok(st) => r is Ok && final(self)@ == st,
                Err(f) => r matches Err(err) && err@ == f.0 && final(self)@ == f.1,
            },
        decreases *value, 1int,
    {
        if self.is_in_tupple() {
            Err(Error::NotSupported("A sequence (Array/List/etc) contained inside a Tupple"))
        } else {
            self.write_field_prefix();
            let res = value.serialize(&mut *self);
            match res {
                Ok(()) => {
                    self.output.push('\n');
                    self.field_prefix_needed = true;
                    proof {
                        assert(self@ =~= EmitState {
                            prefix_needed: true,
                            ..state_app(
                                spec_ser(*value, spec_write_field_prefix(old(self)@))->Ok_0,
                                tok_newline(),
                            )
                        });
                    }
                    Ok(())
                },
                Err(e) => Err(e),
            }
        }
    }

    /// A whole grouping: open, every element in order, close.
    fn run_grouping(&mut self, es: &Vec<Value>) -> (r: Result<(), Error>)
        requires
            old(self)@.depth + 1 + sizes(es@, 0) <= usize::MAX as nat,
        ensures
            match spec_grouping(es@, old(self)@) {
                Ok(st) => r is Ok && final(self)@ == st,
                Err(f) => r matches Err(err) && err@ == f.0 && final(self)@ == f.1,
            },
        decreases es@, 2int,
    {
        let _opened = self.tupple_start();
        proof {
            assert(self@ == spec_tupple_start(old(self)@));
        }
        let ghost st0 = self@;
        let mut i: usize = 0;
        while i < es.len()
            invariant
                i <= es@.len(),
                self@.depth == old(self)@.depth + 1,
                old(self)@.depth + 1 + sizes(es@, 0) <= usize::MAX as nat,
                st0 == spec_tupple_start(old(self)@),
                spec_group_elems(es@, 0, st0) == spec_group_elems(es@, i as int, self@),
            decreases es@.len() - i,
        {
            proof {
                lemma_size_at(es@, 0, i as int);
            }
            let ghost pre = self@;
            let res = self.tupple_element(&es[i]);
            match res {
                Ok(()) => {
                    proof {
                        lemma_tupple_element_preserves_context(es@[i as int], pre);
                        assert(spec_group_elems(es@, i as int, pre) == spec_group_elems(
                            es@,
                            i as int + 1,
                            self@,
                        ));
                    }
                },
                Err(e) => {
                    proof {
                        let f = spec_tupple_element(es@[i as int], pre)->Err_0;
                        assert(f =~= (e@, self@));
                        assert(spec_group_elems(es@, i as int, pre)
                            == Err::<EmitState, (ErrView, EmitState)>((e@, self@)));
                        assert(spec_grouping(es@, old(self)@)
                            == Err::<EmitState, (ErrView, EmitState)>((e@, self@)));
                    }
                    return Err(e);
                },
            }
            i = i + 1;
        }
        proof {
            assert(spec_group_elems(es@, i as int, self@) == Ok::<EmitState, (ErrView, EmitState)>(self@));
            assert(spec_grouping(es@, old(self)@) == spec_tupple_end(self@));
        }
        self.tupple_end()
    }

    /// A whole named group: open, every field in order, close.
    fn run_named_group(&mut self, fs: &Vec<(String, Value)>) -> (r: Result<(), Error>)
        requires
            old(self)@.depth + fsizes(fs@, 0) <= usize::MAX as nat,
        ensures
            match spec_named_group(fs@, old(self)@) {
                Ok(st) => r is Ok && final(self)@ == st,
                Err(f) => r matches Err(err) && err@ == f.0 && final(self)@ == f.1,
            },
        decreases fs@, 2int,
    {
        let opened = self.struct_start();
        match opened {
            Err(e) => {
                return Err(e);
            },
            Ok(()) => {},
        }
        let ghost st1 = self@;
        let mut i: usize = 0;
        while i < fs.len()
            invariant
                i <= fs@.len(),
                self@.depth == old(self)@.depth,
                old(self)@.depth + fsizes(fs@, 0) <= usize::MAX as nat,
                spec_struct_start(old(self)@) == Ok::<EmitState, (ErrView, EmitState)>(st1),
                spec_named_elems(fs@, 0, st1) == spec_named_elems(fs@, i as int, self@),
            decreases fs@.len() - i,
        {
            proof {
                lemma_fsize_at(fs@, 0, i as int);
            }
            let ghost pre = self@;
            let pair = &fs[i];
            let res = self.struct_element(pair.0.as_str(), &pair.1);
            match res {
                Ok(()) => {
                    proof {
                        lemma_struct_element_preserves_context(fs@[i as int].0@, fs@[i as int].1, pre);
                        assert(spec_named_elems(fs@, i as int, pre) == spec_named_elems(
                            fs@,
                            i as int + 1,
                            self@,
                        ));
                    }
                },
                Err(e) => {
                    proof {
                        let f = spec_struct_element(fs@[i as int].0@, fs@[i as int].1, pre)->Err_0;
                        assert(f =~= (e@, self@));
                        assert(spec_named_elems(fs@, i as int, pre)
                            == Err::<EmitState, (ErrView, EmitState)>((e@, self@)));
                        assert(spec_named_group(fs@, old(self)@)
                            == Err::<EmitState, (ErrView, EmitState)>((e@, self@)));
                    }
                    return Err(e);
                },
            }
            i = i + 1;
        }
        proof {
            assert(spec_named_elems(fs@, i as int, self@) == Ok::<EmitState, (ErrView, EmitState)>(self@));
            assert(spec_named_group(fs@, old(self)@) == spec_struct_end(self@));
        }
        self.struct_end()
    }

    /// A whole sequence: every element in order, then the closing check that
    /// rejects a sequence inside a grouping even when it is empty.
    fn run_sequence(&mut self, es: &Vec<Value>) -> (r: Result<(), Error>)
        requires
            old(self)@.depth + sizes(es@, 0) <= usize::MAX as nat,
        ensures
            match spec_sequence(es@, old(self)@) {
                Ok(st) => r is Ok && final(self)@ == st,
                Err(f) => r matches Err(err) && err@ == f.0 && final(self)@ == f.1,
            },
        decreases es@, 2int,
    {
        let mut i: usize = 0;
        while i < es.len()
            invariant
                i <= es@.len(),
                self@.depth == old(self)@.depth,
                old(self)@.depth + sizes(es@, 0) <= usize::MAX as nat,
                spec_seq_elems(es@, 0, old(self)@) == spec_seq_elems(es@, i as int, self@),
            decreases es@.len() - i,
        {
            proof {
                lemma_size_at(es@, 0, i as int);
            }
            let ghost pre = self@;
            let res = self.seq_element(&es[i]);
            match res {
                Ok(()) => {
                    proof {
                        lemma_seq_element_preserves_context(es@[i as int], pre);
                        assert(spec_seq_elems(es@, i as int, pre) == spec_seq_elems(
                            es@,
                            i as int + 1,
                            self@,
                        ));
                    }
                },
                Err(e) => {
                    proof {
                        let f = spec_seq_element(es@[i as int], pre)->Err_0;
                        assert(f =~= (e@, self@));
                        assert(spec_seq_elems(es@, i as int, pre)
                            == Err::<EmitState, (ErrView, EmitState)>((e@, self@)));
                        assert(spec_sequence(es@, old(self)@)
                            == Err::<EmitState, (ErrView, EmitState)>((e@, self@)));
                    }
                    return Err(e);
                },
            }
            i = i + 1;
        }
        proof {
            assert(spec_seq_elems(es@, i as int, self@) == Ok::<EmitState, (ErrView, EmitState)>(self@));
            assert(spec_sequence(es@, old(self)@) == spec_seq_end(self@));
        }
        if self.is_in_tupple() {
            Err(Error::NotSupported("A sequence (Array/List/etc) contained inside a Tupple"))
        } else {
            Ok(())
        }
    }
}

impl Value {
    /// Encodes this value into the given context: the walk that drives every
    /// encoder above, one arm per shape of the taxonomy.
    pub fn serialize(&self, ser: &mut Serializer) -> (r: Result<(), Error>)
        requires
            old(ser)@.depth + size(*self) <= usize::MAX as nat,
        ensures
            match spec_ser(*self, old(ser)@) {
                Ok(st) => r is Ok && final(ser)@ == st,
                Err(f) => r matches Err(err) && err@ == f.0 && final(ser)@ == f.1,
            },
        decreases *self, 0int,
    {
        match self {
            Value::Int(i) => ser.serialize_i64(*i),
            Value::Uint(u) => ser.serialize_u64(*u),
            Value::Bool(b) => ser.serialize_bool(*b),
            Value::Char(c) => ser.serialize_char(*c),
            Value::Str(s) => ser.serialize_str(s.as_str()),
            Value::Unit => ser.serialize_unit(),
            Value::Optional(o) => match o {
                Option::None => ser.serialize_none(),
                Option::Some(b) => b.serialize(ser),
            },
            Value::Sequence(es) => ser.run_sequence(es),
            Value::Grouping(es) => ser.run_grouping(es),
            Value::NamedGroup(fs) => ser.run_named_group(fs),
            Value::Variant(tag, p) => {
                proof {
                    assert(size(*self) == 1 + crate::value::payload_size(*p));
                }
                match p {
                    Payload::NoPayload => ser.serialize_unit_variant(tag.as_str()),
                    Payload::SinglePayload(b) => {
                        proof {
                            assert(crate::value::payload_size(*p) == size(**b));
                        }
                        b.serialize(ser)
                    },
                    Payload::OrderedPayload(es) => {
                        proof {
                            assert(crate::value::payload_size(*p) == sizes(es@, 0));
                        }
                        ser.run_grouping(es)
                    },
                    Payload::NamedPayload(fs) => {
                        proof {
                            assert(crate::value::payload_size(*p) == fsizes(fs@, 0));
                        }
                        ser.run_named_group(fs)
                    },
                }
            },
        }
    }
}

/// Encodes a whole value: a fresh context, one walk, and either the finished
/// text or the error the walk stopped with; a partial buffer is never
/// returned.
pub fn to_string(value: &Value) -> (r: Result<String, Error>)
    requires
        size(*value) <= usize::MAX as nat,
    ensures
        match spec_to_string(*value) {
            Ok(t) => r matches Ok(s) && s@ == t,
            Err(e) => r matches Err(err) && err@ == e,
        },
{
    let mut serial = Serializer::new();
    let res = value.serialize(&mut serial);
    match res {
        Ok(()) => Ok(serial.finish()),
        Err(e) => Err(e),
    }
}

} // verus!
