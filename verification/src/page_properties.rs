//! Paper sizes, orientation, and page margins.
//!
//! Dimensions are carried in tenths of an inch, which represents every
//! entry of the paper-size table exactly; margins are carried in whole
//! millimeters as supplied. The surrounding application divides by ten,
//! respectively by the millimeters-per-inch factor, when the renderer asks
//! for inches.

use vstd::prelude::*;

use crate::front_matter::trimmed;
use crate::front_matter::trimmed_chars;
use crate::strutil::chars_of;

verus! {

/// The two page orientations; Landscape swaps the paper's width and height.
#[derive(Clone, Copy, Debug, PartialEq, Eq, Structural)]
pub enum PaperOrientation {
    /// Width and height swapped.
    Landscape,
    /// The paper as the size table gives it.
    Portrait,
}

/// The supported paper sizes: ISO A and B series, common US sizes, and the
/// JIS B series.
#[derive(Clone, Copy, Debug, PartialEq, Eq, Structural)]
#[allow(missing_docs)]
pub enum PaperSize {
    A0,
    A1,
    A2,
    A3,
    A4,
    A5,
    A6,
    A7,
    A8,
    A9,
    A10,
    B0,
    B1,
    B2,
    B3,
    B4,
    B5,
    B6,
    B7,
    B8,
    B9,
    B10,
    HalfLetter,
    Letter,
    Legal,
    JuniorLegal,
    Ledger,
    Tabloid,
    JISB0,
    JISB1,
    JISB2,
    JISB3,
    JISB4,
    JISB5,
    JISB6,
    JISB7,
    JISB8,
    JISB9,
    JISB10,
}

/// A paper's width and height in tenths of an inch.
#[derive(Clone, Copy, Debug, PartialEq, Eq, Structural)]
pub struct PaperDimension {
    /// Width in tenths of an inch.
    pub width: u32,
    /// Height in tenths of an inch.
    pub height: u32,
}

/// The size table: each paper size's width and height in tenths of an inch.
pub open spec fn dimension_spec(p: PaperSize) -> PaperDimension {
    match p {
        PaperSize::A0 => PaperDimension { width: 331, height: 468 },
        PaperSize::A1 => PaperDimension { width: 234, height: 331 },
        PaperSize::A2 => PaperDimension { width: 165, height: 234 },
        PaperSize::A3 => PaperDimension { width: 117, height: 165 },
        PaperSize::A4 => PaperDimension { width: 83, height: 117 },
        PaperSize::A5 => PaperDimension { width: 58, height: 83 },
        PaperSize::A6 => PaperDimension { width: 41, height: 58 },
        PaperSize::A7 => PaperDimension { width: 29, height: 41 },
        PaperSize::A8 => PaperDimension { width: 20, height: 29 },
        PaperSize::A9 => PaperDimension { width: 15, height: 20 },
        PaperSize::A10 => PaperDimension { width: 10, height: 15 },
        PaperSize::B0 => PaperDimension { width: 394, height: 557 },
        PaperSize::B1 => PaperDimension { width: 278, height: 394 },
        PaperSize::B2 => PaperDimension { width: 197, height: 278 },
        PaperSize::B3 => PaperDimension { width: 139, height: 197 },
        PaperSize::B4 => PaperDimension { width: 98, height: 139 },
        PaperSize::B5 => PaperDimension { width: 69, height: 98 },
        PaperSize::B6 => PaperDimension { width: 49, height: 69 },
        PaperSize::B7 => PaperDimension { width: 35, height: 49 },
        PaperSize::B8 => PaperDimension { width: 24, height: 35 },
        PaperSize::B9 => PaperDimension { width: 17, height: 24 },
        PaperSize::B10 => PaperDimension { width: 12, height: 17 },
        PaperSize::HalfLetter => PaperDimension { width: 55, height: 85 },
        PaperSize::Letter => PaperDimension { width: 85, height: 110 },
        PaperSize::Legal => PaperDimension { width: 85, height: 140 },
        PaperSize::JuniorLegal => PaperDimension { width: 80, height: 50 },
        PaperSize::Ledger => PaperDimension { width: 170, height: 110 },
        PaperSize::Tabloid => PaperDimension { width: 110, height: 170 },
        PaperSize::JISB0 => PaperDimension { width: 406, height: 573 },
        PaperSize::JISB1 => PaperDimension { width: 287, height: 406 },
        PaperSize::JISB2 => PaperDimension { width: 203, height: 287 },
        PaperSize::JISB3 => PaperDimension { width: 143, height: 203 },
        PaperSize::JISB4 => PaperDimension { width: 101, height: 143 },
        PaperSize::JISB5 => PaperDimension { width: 72, height: 101 },
        PaperSize::JISB6 => PaperDimension { width: 50, height: 72 },
        PaperSize::JISB7 => PaperDimension { width: 36, height: 50 },
        PaperSize::JISB8 => PaperDimension { width: 25, height: 36 },
        PaperSize::JISB9 => PaperDimension { width: 18, height: 25 },
        PaperSize::JISB10 => PaperDimension { width: 13, height: 18 },
    }
}

impl PaperSize {
    /// The paper's width and height in tenths of an inch.
    pub fn to_dimensions(&self) -> (r: PaperDimension)
        ensures
            r == dimension_spec(*self),
    {
        match self {
            PaperSize::A0 => PaperDimension { width: 331, height: 468 },
            PaperSize::A1 => PaperDimension { width: 234, height: 331 },
            PaperSize::A2 => PaperDimension { width: 165, height: 234 },
            PaperSize::A3 => PaperDimension { width: 117, height: 165 },
            PaperSize::A4 => PaperDimension { width: 83, height: 117 },
            PaperSize::A5 => PaperDimension { width: 58, height: 83 },
            PaperSize::A6 => PaperDimension { width: 41, height: 58 },
            PaperSize::A7 => PaperDimension { width: 29, height: 41 },
            PaperSize::A8 => PaperDimension { width: 20, height: 29 },
            PaperSize::A9 => PaperDimension { width: 15, height: 20 },
            PaperSize::A10 => PaperDimension { width: 10, height: 15 },
            PaperSize::B0 => PaperDimension { width: 394, height: 557 },
            PaperSize::B1 => PaperDimension { width: 278, height: 394 },
            PaperSize::B2 => PaperDimension { width: 197, height: 278 },
            PaperSize::B3 => PaperDimension { width: 139, height: 197 },
            PaperSize::B4 => PaperDimension { width: 98, height: 139 },
            PaperSize::B5 => PaperDimension { width: 69, height: 98 },
            PaperSize::B6 => PaperDimension { width: 49, height: 69 },
            PaperSize::B7 => PaperDimension { width: 35, height: 49 },
            PaperSize::B8 => PaperDimension { width: 24, height: 35 },
            PaperSize::B9 => PaperDimension { width: 17, height: 24 },
            PaperSize::B10 => PaperDimension { width: 12, height: 17 },
            PaperSize::HalfLetter => PaperDimension { width: 55, height: 85 },
            PaperSize::Letter => PaperDimension { width: 85, height: 110 },
            PaperSize::Legal => PaperDimension { width: 85, height: 140 },
            PaperSize::JuniorLegal => PaperDimension { width: 80, height: 50 },
            PaperSize::Ledger => PaperDimension { width: 170, height: 110 },
            PaperSize::Tabloid => PaperDimension { width: 110, height: 170 },
            PaperSize::JISB0 => PaperDimension { width: 406, height: 573 },
            PaperSize::JISB1 => PaperDimension { width: 287, height: 406 },
            PaperSize::JISB2 => PaperDimension { width: 203, height: 287 },
            PaperSize::JISB3 => PaperDimension { width: 143, height: 203 },
            PaperSize::JISB4 => PaperDimension { width: 101, height: 143 },
            PaperSize::JISB5 => PaperDimension { width: 72, height: 101 },
            PaperSize::JISB6 => PaperDimension { width: 50, height: 72 },
            PaperSize::JISB7 => PaperDimension { width: 36, height: 50 },
            PaperSize::JISB8 => PaperDimension { width: 25, height: 36 },
            PaperSize::JISB9 => PaperDimension { width: 18, height: 25 },
            PaperSize::JISB10 => PaperDimension { width: 13, height: 18 },
        }
    }
}

/// The dimensions a paper presents under an orientation: Landscape swaps
/// width and height, Portrait keeps them.
pub open spec fn oriented_spec(d: PaperDimension, o: PaperOrientation) -> PaperDimension {
    match o {
        PaperOrientation::Landscape => PaperDimension { width: d.height, height: d.width },
        PaperOrientation::Portrait => d,
    }
}

/// The page dimensions for a paper size under an orientation.
pub fn oriented_dimensions(size: PaperSize, orientation: PaperOrientation) -> (r: PaperDimension)
    ensures
        r == oriented_spec(dimension_spec(size), orientation),
{
    let d = size.to_dimensions();
    match orientation {
        PaperOrientation::Landscape => PaperDimension { width: d.height, height: d.width },
        PaperOrientation::Portrait => d,
    }
}

/// The four page margins, each in whole millimeters.
#[derive(Clone, Copy, Debug, PartialEq, Eq, Structural)]
pub struct PageMargins {
    /// Top margin in millimeters.
    pub top: u32,
    /// Right margin in millimeters.
    pub right: u32,
    /// Bottom margin in millimeters.
    pub bottom: u32,
    /// Left margin in millimeters.
    pub left: u32,
}

/// The default margin in millimeters, applied on all four sides.
pub const DEFAULT_MARGIN: u32 = 10;

/// The default margin set.
pub open spec fn default_margins() -> PageMargins {
    PageMargins { top: 10, right: 10, bottom: 10, left: 10 }
}

/// The length of the run of characters before the first space; the whole
/// sequence when it has none.
pub open spec fn token_len(s: Seq<char>) -> nat
    decreases s.len(),
{
    if s.len() == 0 {
        0
    } else if s.first() == ' ' {
        0
    } else {
        1 + token_len(s.drop_first())
    }
}

/// `token_len` is the unique cut before the first space.
proof fn lemma_token_len_is(s: Seq<char>, c: int)
    requires
        0 <= c <= s.len(),
        forall|t: int| 0 <= t < c ==> s[t] != ' ',
        c < s.len() ==> s[c] == ' ',
    ensures
        token_len(s) == c,
    decreases s.len(),
{
    if c == 0 {
    } else {
        assert(s.first() != ' ');
        let r = s.drop_first();
        assert(forall|t: int| 0 <= t < c - 1 ==> r[t] == s[t + 1]);
        lemma_token_len_is(r, c - 1);
    }
}

/// A token is never longer than the text it is cut from.
proof fn lemma_token_len_le(s: Seq<char>)
    ensures
        token_len(s) <= s.len(),
    decreases s.len(),
{
    if s.len() > 0 && s.first() != ' ' {
        lemma_token_len_le(s.drop_first());
    }
}

/// The maximal space-free runs of `s`, in order; empty runs are dropped.
pub open spec fn split_tokens(s: Seq<char>) -> Seq<Seq<char>>
    decreases s.len(),
    via split_tokens_decreases
{
    if s.len() == 0 {
        Seq::empty()
    } else if s.first() == ' ' {
        split_tokens(s.drop_first())
    } else {
        let w = token_len(s);
        seq![s.take(w as int)] + split_tokens(s.skip(w as int))
    }
}

#[via_fn]
proof fn split_tokens_decreases(s: Seq<char>) {
    if s.len() > 0 && s.first() != ' ' {
        lemma_token_len_le(s);
    }
}

/// Splits `cs` into its space-separated tokens.
fn tokenize(cs: &Vec<char>) -> (r: Vec<Vec<char>>)
    ensures
        r.deep_view() == split_tokens(cs@),
{
    let n = cs.len();
    let mut r: Vec<Vec<char>> = Vec::new();
    let mut i: usize = 0;
    proof {
        assert(cs@.skip(0) =~= cs@);
        assert(r.deep_view() + split_tokens(cs@) =~~= split_tokens(cs@));
    }
    while i < n
        invariant
            n == cs@.len(),
            i <= n,
            split_tokens(cs@) == r.deep_view() + split_tokens(cs@.skip(i as int)),
        decreases n - i,
    {
        let ghost rem = cs@.skip(i as int);
        proof {
            assert(forall|t: int| 0 <= t < rem.len() ==> rem[t] == cs@[i + t]);
        }
        if cs[i] == ' ' {
            proof {
                assert(rem.drop_first() =~= cs@.skip(i + 1));
            }
            i = i + 1;
        } else {
            let mut j = i + 1;
            while j < n && cs[j] != ' '
                invariant
                    i + 1 <= j <= n,
                    n == cs@.len(),
                    cs@[i as int] != ' ',
                    forall|t: int| i <= t < j ==> cs@[t] != ' ',
                decreases n - j,
            {
                j = j + 1;
            }
            proof {
                assert(forall|t: int| 0 <= t < j - i ==> rem[t] != ' ');
                lemma_token_len_is(rem, j - i);
                assert(rem.take(j - i) =~= cs@.subrange(i as int, j as int));
                assert(rem.skip(j - i) =~= cs@.skip(j as int));
            }
            let mut tok: Vec<char> = Vec::new();
            let mut t = i;
            proof {
                assert(tok@ =~= cs@.subrange(i as int, i as int));
            }
            while t < j
                invariant
                    i <= t <= j <= cs@.len(),
                    tok@ == cs@.subrange(i as int, t as int),
                decreases j - t,
            {
                tok.push(cs[t]);
                t = t + 1;
                proof {
                    assert(tok@ =~= cs@.subrange(i as int, t as int));
                }
            }
            let ghost r0 = r.deep_view();
            r.push(tok);
            proof {
                assert(r.deep_view() =~~= r0 + seq![cs@.subrange(i as int, j as int)]);
                assert(r0 + (seq![cs@.subrange(i as int, j as int)] + split_tokens(
                    cs@.skip(j as int),
                )) =~= r.deep_view() + split_tokens(cs@.skip(j as int)));
            }
            i = j;
        }
    }
    proof {
        assert(cs@.skip(n as int) =~= Seq::<char>::empty());
        assert(r.deep_view() + Seq::<Seq<char>>::empty() =~~= r.deep_view());
    }
    r
}

/// Whether `c` is a decimal digit.
pub open spec fn is_digit(c: char) -> bool {
    48 <= c as int <= 57
}

/// The number a digit run denotes.
pub open spec fn digits_val(s: Seq<char>) -> int
    decreases s.len(),
{
    if s.len() == 0 {
        0
    } else {
        digits_val(s.drop_last()) * 10 + (s.last() as int - 48)
    }
}

/// A digit run denotes a nonnegative number.
proof fn lemma_digits_val_nonneg(s: Seq<char>)
    requires
        forall|i: int| 0 <= i < s.len() ==> is_digit(s[i]),
    ensures
        digits_val(s) >= 0,
    decreases s.len(),
{
    if s.len() > 0 {
        lemma_digits_val_nonneg(s.drop_last());
        assert(is_digit(s.last()));
    }
}

/// A digit run denotes at least what any of its prefixes denotes.
proof fn lemma_digits_val_prefix(s: Seq<char>, i: int)
    requires
        forall|t: int| 0 <= t < s.len() ==> is_digit(s[t]),
        0 <= i <= s.len(),
    ensures
        digits_val(s) >= digits_val(s.take(i)),
    decreases s.len() - i,
{
    if i < s.len() {
        let u = s.take(i + 1);
        assert(u.drop_last() =~= s.take(i));
        assert(forall|t: int| 0 <= t < s.take(i).len() ==> is_digit(s.take(i)[t]));
        lemma_digits_val_nonneg(s.take(i));
        assert(is_digit(u.last()));
        assert(digits_val(u) >= digits_val(s.take(i)));
        lemma_digits_val_prefix(s, i + 1);
    } else {
        assert(s.take(i) =~= s);
    }
}

/// The digits of a token after an optional leading plus sign.
pub open spec fn strip_plus(s: Seq<char>) -> Seq<char> {
    if s.len() > 0 && s.first() == '+' {
        s.drop_first()
    } else {
        s
    }
}

/// A token that `u32` parsing accepts: an optional plus sign, then at least
/// one digit, denoting a value within range.
pub open spec fn is_u32_token(s: Seq<char>) -> bool {
    let t = strip_plus(s);
    &&& t.len() > 0
    &&& forall|i: int| 0 <= i < t.len() ==> is_digit(t[i])
    &&& digits_val(t) <= u32::MAX
}

/// The value of an accepted token.
pub open spec fn token_u32(s: Seq<char>) -> int {
    digits_val(strip_plus(s))
}

/// Parses a margin token: an optional plus sign and decimal digits.
fn parse_u32_token(tok: &Vec<char>) -> (r: Option<u32>)
    ensures
        match r {
            Some(v) => is_u32_token(tok@) && v as int == token_u32(tok@),
            None => !is_u32_token(tok@),
        },
{
    let n = tok.len();
    let mut start: usize = 0;
    if n > 0 && tok[0] == '+' {
        start = 1;
    }
    let ghost t = strip_plus(tok@);
    proof {
        assert(t =~= tok@.skip(start as int));
        assert(forall|u: int| 0 <= u < t.len() ==> t[u] == tok@[start + u]);
    }
    if start == n {
        proof {
            assert(t.len() == 0);
        }
        return None;
    }
    let mut acc: u64 = 0;
    let mut i = start;
    proof {
        assert(t.take(0) =~= Seq::<char>::empty());
    }
    while i < n
        invariant
            start <= i <= n,
            n == tok@.len(),
            t == strip_plus(tok@),
            t =~= tok@.skip(start as int),
            acc <= u32::MAX,
            forall|u: int| 0 <= u < i - start ==> is_digit(t[u]),
            acc as int == digits_val(t.take(i - start)),
        decreases n - i,
    {
        let c = tok[i];
        let d: u64 = if c == '0' { 0 } else if c == '1' { 1 } else if c == '2' { 2 }
        else if c == '3' { 3 } else if c == '4' { 4 } else if c == '5' { 5 }
        else if c == '6' { 6 } else if c == '7' { 7 } else if c == '8' { 8 }
        else if c == '9' { 9 } else { 10 };
        if d == 10 {
            proof {
                assert(!is_digit(t[i - start])) by {
                    assert(t[i - start] == c);
                }
            }
            return None;
        }
        proof {
            assert(is_digit(t[i - start])) by {
                assert(t[i - start] == c);
            }
            assert(d as int == c as int - 48);
            let u = t.take(i - start + 1);
            assert(u.drop_last() =~= t.take(i - start));
            assert(u.last() == t[i - start]);
        }
        acc = acc * 10 + d;
        i = i + 1;
        if acc > u32::MAX as u64 {
            proof {
                assert(digits_val(t.take(i - start)) > u32::MAX);
                if is_u32_token(tok@) {
                    lemma_digits_val_prefix(t, i - start);
                }
            }
            return None;
        }
    }
    proof {
        assert(t.take(n - start) =~= t);
        lemma_digits_val_nonneg(t);
    }
    Some(acc as u32)
}

/// What a margins string denotes: its tokens, each a whole-millimeter
/// number, expanded to the four sides the way one to four values are read;
/// a token that is not a number falls back to the default set with a
/// warning; no tokens at all, or more than four, fall back silently.
pub open spec fn margins_spec(input: Seq<char>) -> (PageMargins, bool) {
    let toks = split_tokens(trimmed(input));
    if exists|i: int| 0 <= i < toks.len() && !is_u32_token(toks[i]) {
        (default_margins(), true)
    } else if toks.len() == 1 {
        let a = token_u32(toks[0]) as u32;
        (PageMargins { top: a, right: a, bottom: a, left: a }, false)
    } else if toks.len() == 2 {
        let tb = token_u32(toks[0]) as u32;
        let lr = token_u32(toks[1]) as u32;
        (PageMargins { top: tb, right: lr, bottom: tb, left: lr }, false)
    } else if toks.len() == 3 {
        let top = token_u32(toks[0]) as u32;
        let lr = token_u32(toks[1]) as u32;
        let bottom = token_u32(toks[2]) as u32;
        (PageMargins { top: top, right: lr, bottom: bottom, left: lr }, false)
    } else if toks.len() == 4 {
        let top = token_u32(toks[0]) as u32;
        let right = token_u32(toks[1]) as u32;
        let bottom = token_u32(toks[2]) as u32;
        let left = token_u32(toks[3]) as u32;
        (PageMargins { top: top, right: right, bottom: bottom, left: left }, false)
    } else {
        (default_margins(), false)
    }
}

/// Reads a margins string: one to four whole-millimeter values expanded to
/// the four sides. Yields the margin set and whether a malformed token
/// forced the default set, which the caller reports as a warning.
pub fn parse_margins(margins: &str) -> (r: (PageMargins, bool))
    ensures
        r == margins_spec(margins@),
{
    let cs = chars_of(margins);
    let trimmed_cs = trimmed_chars(&cs);
    let toks = tokenize(&trimmed_cs);
    let ghost tspec = split_tokens(trimmed(margins@));
    proof {
        assert(toks.deep_view() == tspec);
    }
    let n = toks.len();
    let mut vals: Vec<u32> = Vec::new();
    let mut i: usize = 0;
    while i < n
        invariant
            tspec == split_tokens(trimmed(margins@)),
            n == toks@.len(),
            toks.deep_view() == tspec,
            i <= n,
            vals@.len() == i,
            forall|j: int| 0 <= j < i ==> is_u32_token(tspec[j]),
            forall|j: int| 0 <= j < i ==> vals@[j] as int == token_u32(tspec[j]),
        decreases n - i,
    {
        proof {
            assert(toks@[i as int].deep_view() == tspec[i as int]);
            assert(toks@[i as int]@ =~= tspec[i as int]);
        }
        match parse_u32_token(&toks[i]) {
            Some(v) => {
                vals.push(v);
            }
            None => {
                proof {
                    assert(!is_u32_token(split_tokens(trimmed(margins@))[i as int]));
                    assert(exists|q: int|
                        0 <= q < split_tokens(trimmed(margins@)).len() && !is_u32_token(
                            split_tokens(trimmed(margins@))[q],
                        ));
                }
                return (
                    PageMargins {
                        top: DEFAULT_MARGIN,
                        right: DEFAULT_MARGIN,
                        bottom: DEFAULT_MARGIN,
                        left: DEFAULT_MARGIN,
                    },
                    true,
                );
            }
        }
        i = i + 1;
    }
    proof {
        assert(forall|j: int| 0 <= j < tspec.len() ==> is_u32_token(tspec[j]));
    }
    if n == 1 {
        let a = vals[0];
        (PageMargins { top: a, right: a, bottom: a, left: a }, false)
    } else if n == 2 {
        (PageMargins { top: vals[0], right: vals[1], bottom: vals[0], left: vals[1] }, false)
    } else if n == 3 {
        (PageMargins { top: vals[0], right: vals[1], bottom: vals[2], left: vals[1] }, false)
    } else if n == 4 {
        (PageMargins { top: vals[0], right: vals[1], bottom: vals[2], left: vals[3] }, false)
    } else {
        (
            PageMargins {
                top: DEFAULT_MARGIN,
                right: DEFAULT_MARGIN,
                bottom: DEFAULT_MARGIN,
                left: DEFAULT_MARGIN,
            },
            false,
        )
    }
}

} // verus!
