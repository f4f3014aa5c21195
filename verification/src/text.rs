//! Character-level text building: base-10 rendering of integers, pushing
//! string slices onto the character buffer, and the comma scan that decides
//! whether a string must be quoted.

use vstd::prelude::*;
use vstd::string::*;

verus! {

/// The character for one decimal digit.
pub open spec fn digit_char(d: int) -> char {
    if d == 0 {
        '0'
    } else if d == 1 {
        '1'
    } else if d == 2 {
        '2'
    } else if d == 3 {
        '3'
    } else if d == 4 {
        '4'
    } else if d == 5 {
        '5'
    } else if d == 6 {
        '6'
    } else if d == 7 {
        '7'
    } else if d == 8 {
        '8'
    } else {
        '9'
    }
}

/// The base-10 text of a non-negative integer, most significant digit first.
pub open spec fn dec_nat(n: nat) -> Seq<char>
    decreases n,
{
    if n < 10 {
        seq![digit_char(n as int)]
    } else {
        dec_nat(n / 10).push(digit_char((n % 10) as int))
    }
}

/// The base-10 text of a signed integer: a leading minus sign when negative.
pub open spec fn dec_int(i: int) -> Seq<char> {
    if i >= 0 {
        dec_nat(i as nat)
    } else {
        seq!['-'] + dec_nat((-i) as nat)
    }
}

fn push_digit(out: &mut Vec<char>, d: u64)
    requires
        d < 10,
    ensures
        final(out)@ == old(out)@.push(digit_char(d as int)),
{
    let c: char = if d == 0 {
        '0'
    } else if d == 1 {
        '1'
    } else if d == 2 {
        '2'
    } else if d == 3 {
        '3'
    } else if d == 4 {
        '4'
    } else if d == 5 {
        '5'
    } else if d == 6 {
        '6'
    } else if d == 7 {
        '7'
    } else if d == 8 {
        '8'
    } else {
        '9'
    };
    out.push(c);
}

/// Appends the base-10 text of `n` to `out`.
pub fn push_dec_u64(out: &mut Vec<char>, n: u64)
    ensures
        final(out)@ == old(out)@ + dec_nat(n as nat),
    decreases n,
{
    if n < 10 {
        push_digit(out, n);
        assert(out@ =~= old(out)@ + dec_nat(n as nat));
    } else {
        push_dec_u64(out, n / 10);
        push_digit(out, n % 10);
        assert(out@ =~= old(out)@ + dec_nat(n as nat));
    }
}

/// Appends the base-10 text of `v` to `out`, minus sign included.
pub fn push_dec_i64(out: &mut Vec<char>, v: i64)
    ensures
        final(out)@ == old(out)@ + dec_int(v as int),
{
    if v >= 0 {
        push_dec_u64(out, v as u64);
    } else {
        out.push('-');
        let wide: i128 = v as i128;
        let mag: u64 = (-wide) as u64;
        assert(mag as nat == (-(v as int)) as nat);
        push_dec_u64(out, mag);
        assert(out@ =~= old(out)@ + dec_int(v as int));
    }
}

/// Appends every character of `s` to `out`, in order.
pub fn push_str_chars(out: &mut Vec<char>, s: &str)
    ensures
        final(out)@ == old(out)@ + s@,
{
    let n: usize = s.unicode_len();
    let mut i: usize = 0;
    while i < n
        invariant
            i <= n,
            n == s@.len(),
            out@ == old(out)@ + s@.subrange(0, i as int),
        decreases n - i,
    {
        let c = s.get_char(i);
        out.push(c);
        assert(out@ =~= old(out)@ + s@.subrange(0, i + 1));
        i = i + 1;
    }
    assert(s@.subrange(0, n as int) =~= s@);
}

/// Whether `s` holds a comma anywhere.
pub fn str_has_comma(s: &str) -> (r: bool)
    ensures
        r == s@.contains(','),
{
    let n: usize = s.unicode_len();
    let mut i: usize = 0;
    while i < n
        invariant
            i <= n,
            n == s@.len(),
            forall|j: int| 0 <= j < i ==> s@[j] != ',',
        decreases n - i,
    {
        if s.get_char(i) == ',' {
            assert(s@[i as int] == ',');
            return true;
        }
        i = i + 1;
    }
    assert(!s@.contains(',')) by {
        assert(forall|j: int| 0 <= j < s@.len() ==> s@[j] != ',');
    }
    false
}

/// Relies on `String`'s `FromIterator` over `char`: collecting characters
/// yields the string of exactly those characters, in order.
#[verifier::external_body]
pub fn chars_to_string(v: &Vec<char>) -> (r: String)
    ensures
        r@ == v@,
{
    v.iter().collect()
}

} // verus!
