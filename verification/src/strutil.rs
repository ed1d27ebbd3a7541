//! Small helpers for moving between `String` values and `Vec<char>`,
//! which the rest of the library scans and builds character by character.

use vstd::prelude::*;

verus! {

/// Collects the characters of a string slice into a vector.
pub fn chars_of(s: &str) -> (r: Vec<char>)
    ensures
        r@ == s@,
{
    let n = s.unicode_len();
    let mut r: Vec<char> = Vec::new();
    let mut i: usize = 0;
    while i < n
        invariant
            n == s@.len(),
            i <= n,
            r@ == s@.subrange(0, i as int),
        decreases n - i,
    {
        r.push(s.get_char(i));
        i = i + 1;
        proof {
            assert(r@ =~= s@.subrange(0, i as int));
        }
    }
    proof {
        assert(r@ =~= s@);
    }
    r
}

/// The character for a single decimal digit.
pub open spec fn dec_digit(d: int) -> char {
    if d == 0 { '0' } else if d == 1 { '1' } else if d == 2 { '2' } else if d == 3 { '3' }
    else if d == 4 { '4' } else if d == 5 { '5' } else if d == 6 { '6' } else if d == 7 { '7' }
    else if d == 8 { '8' } else { '9' }
}

/// The decimal rendering of a nonnegative number.
pub open spec fn dec_str(n: int) -> Seq<char>
    recommends
        n >= 0,
    decreases n,
{
    if n < 10 {
        seq![dec_digit(n)]
    } else {
        dec_str(n / 10).push(dec_digit(n % 10))
    }
}

/// The character for a digit below ten.
fn dec_digit_char(d: u32) -> (r: char)
    requires
        d < 10,
    ensures
        r == dec_digit(d as int),
{
    if d == 0 { '0' } else if d == 1 { '1' } else if d == 2 { '2' } else if d == 3 { '3' }
    else if d == 4 { '4' } else if d == 5 { '5' } else if d == 6 { '6' } else if d == 7 { '7' }
    else if d == 8 { '8' } else { '9' }
}

/// Appends the decimal rendering of `n` to `out`.
fn push_dec(n: u32, out: &mut Vec<char>)
    ensures
        final (out)@ == old(out)@ + dec_str(n as int),
    decreases n,
{
    if n < 10 {
        out.push(dec_digit_char(n));
        proof {
            assert(out@ =~= old(out)@ + seq![dec_digit(n as int)]);
        }
    } else {
        let ghost out0 = out@;
        push_dec(n / 10, out);
        out.push(dec_digit_char(n % 10));
        proof {
            assert(out@ =~= out0 + dec_str((n / 10) as int).push(dec_digit((n % 10) as int)));
        }
    }
}

/// The decimal rendering of a number.
pub fn u32_to_string(n: u32) -> (r: String)
    ensures
        r@ == dec_str(n as int),
{
    let mut out: Vec<char> = Vec::new();
    push_dec(n, &mut out);
    proof {
        assert(out@ =~= dec_str(n as int));
    }
    string_from_chars(&out)
}

/// A count of tenths rendered as its whole part, with the tenth after a
/// decimal point only when it is not zero.
pub open spec fn tenths_str(t: int) -> Seq<char>
    recommends
        t >= 0,
{
    if t % 10 == 0 {
        dec_str(t / 10)
    } else {
        dec_str(t / 10) + seq!['.'] + seq![dec_digit(t % 10)]
    }
}

/// Renders a count of tenths, as the renderer writes lengths in inches.
pub fn tenths_to_string(t: u32) -> (r: String)
    ensures
        r@ == tenths_str(t as int),
{
    let whole = t / 10;
    let tenth = t % 10;
    if tenth == 0 {
        u32_to_string(whole)
    } else {
        let mut out: Vec<char> = Vec::new();
        push_dec(whole, &mut out);
        out.push('.');
        out.push(dec_digit_char(tenth));
        proof {
            assert(out@ =~= dec_str((t / 10) as int) + seq!['.'] + seq![dec_digit((t % 10) as int)]);
        }
        string_from_chars(&out)
    }
}

/// Compares two string slices by their characters.
pub fn str_eq(a: &str, b: &str) -> (r: bool)
    ensures
        r == (a@ == b@),
{
    let na = a.unicode_len();
    let nb = b.unicode_len();
    if na != nb {
        return false;
    }
    let mut i: usize = 0;
    while i < na
        invariant
            na == a@.len(),
            na == b@.len(),
            i <= na,
            forall|j: int| 0 <= j < i ==> a@[j] == b@[j],
        decreases na - i,
    {
        if a.get_char(i) != b.get_char(i) {
            return false;
        }
        i = i + 1;
    }
    proof {
        assert(a@ =~= b@);
    }
    true
}

/// Relies on `String`'s `FromIterator<char>` implementation: collecting
/// characters yields the string with exactly those characters in order.
#[verifier::external_body]
pub fn string_from_chars(v: &Vec<char>) -> (s: String)
    ensures
        s@ == v@,
{
    v.iter().collect()
}

} // verus!
