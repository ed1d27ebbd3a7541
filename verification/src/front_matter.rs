//! Splitting a document's lines into the YAML block and the Markdown body
//! along `---` delimiter lines.

use vstd::prelude::*;

use crate::strutil::chars_of;

verus! {

/// The characters that count as whitespace when a line is trimmed (the
/// Unicode `White_Space` set).
pub open spec fn is_space(c: char) -> bool {
    c == '\t' || c == '\n' || c == '\u{000B}' || c == '\u{000C}' || c == '\r' || c == ' '
        || c == '\u{0085}' || c == '\u{00A0}' || c == '\u{1680}' || c == '\u{2000}'
        || c == '\u{2001}' || c == '\u{2002}' || c == '\u{2003}' || c == '\u{2004}'
        || c == '\u{2005}' || c == '\u{2006}' || c == '\u{2007}' || c == '\u{2008}'
        || c == '\u{2009}' || c == '\u{200A}' || c == '\u{2028}' || c == '\u{2029}'
        || c == '\u{202F}' || c == '\u{205F}' || c == '\u{3000}'
}

/// Whether `c` counts as whitespace for trimming.
pub fn is_space_char(c: char) -> (b: bool)
    ensures
        b == is_space(c),
{
    c == '\t' || c == '\n' || c == '\u{000B}' || c == '\u{000C}' || c == '\r' || c == ' '
        || c == '\u{0085}' || c == '\u{00A0}' || c == '\u{1680}' || c == '\u{2000}'
        || c == '\u{2001}' || c == '\u{2002}' || c == '\u{2003}' || c == '\u{2004}'
        || c == '\u{2005}' || c == '\u{2006}' || c == '\u{2007}' || c == '\u{2008}'
        || c == '\u{2009}' || c == '\u{200A}' || c == '\u{2028}' || c == '\u{2029}'
        || c == '\u{202F}' || c == '\u{205F}' || c == '\u{3000}'
}

/// The characters of a line with leading and trailing whitespace removed.
pub open spec fn trimmed(s: Seq<char>) -> Seq<char>
    decreases s.len(),
{
    if s.len() == 0 {
        s
    } else if is_space(s.first()) {
        trimmed(s.drop_first())
    } else if is_space(s.last()) {
        trimmed(s.drop_last())
    } else {
        s
    }
}

/// The three dashes that delimit a front-matter block.
pub open spec fn delim_seq() -> Seq<char> {
    seq!['-', '-', '-']
}

/// A delimiter line: its trimmed content is exactly `---`.
pub open spec fn is_delim(s: Seq<char>) -> bool {
    trimmed(s) == delim_seq()
}

/// A line of whitespace only trims to nothing.
proof fn lemma_trimmed_all_space(s: Seq<char>)
    requires
        forall|i: int| 0 <= i < s.len() ==> is_space(s[i]),
    ensures
        trimmed(s).len() == 0,
    decreases s.len(),
{
    if s.len() > 0 {
        assert(is_space(s.first()));
        lemma_trimmed_all_space(s.drop_first());
    }
}

/// When positions `lo` and `hi` bound the non-whitespace content of a line,
/// trimming yields exactly that range.
proof fn lemma_trimmed_range(s: Seq<char>, lo: int, hi: int)
    requires
        0 <= lo <= hi < s.len(),
        !is_space(s[lo]),
        !is_space(s[hi]),
        forall|i: int| 0 <= i < lo ==> is_space(s[i]),
        forall|i: int| hi < i < s.len() ==> is_space(s[i]),
    ensures
        trimmed(s) == s.subrange(lo, hi + 1),
    decreases s.len(),
{
    if lo > 0 {
        let t = s.drop_first();
        assert(forall|i: int| 0 <= i < lo - 1 ==> is_space(t[i]));
        assert(forall|i: int| hi - 1 < i < t.len() ==> is_space(t[i]));
        lemma_trimmed_range(t, lo - 1, hi - 1);
        assert(t.subrange(lo - 1, hi) =~= s.subrange(lo, hi + 1));
    } else if hi < s.len() - 1 {
        assert(is_space(s.last()));
        let t = s.drop_last();
        assert(forall|i: int| hi < i < t.len() ==> is_space(t[i]));
        lemma_trimmed_range(t, lo, hi);
        assert(t.subrange(lo, hi + 1) =~= s.subrange(lo, hi + 1));
    } else {
        assert(!is_space(s.first()));
        assert(!is_space(s.last()));
        assert(s.subrange(0, s.len() as int) =~= s);
    }
}

/// Whether the line's trimmed content is exactly `---`.
pub fn is_delimiter_line(line: &str) -> (b: bool)
    ensures
        b == is_delim(line@),
{
    let cs = chars_of(line);
    let n = cs.len();
    let mut lo: usize = 0;
    while lo < n && is_space_char(cs[lo])
        invariant
            cs@ == line@,
            n == cs@.len(),
            lo <= n,
            forall|j: int| 0 <= j < lo ==> is_space(line@[j]),
        decreases n - lo,
    {
        lo = lo + 1;
    }
    if lo == n {
        proof {
            lemma_trimmed_all_space(line@);
        }
        return false;
    }
    let mut hi: usize = n - 1;
    while is_space_char(cs[hi])
        invariant
            cs@ == line@,
            n == cs@.len(),
            lo <= hi < n,
            !is_space(line@[lo as int]),
            forall|j: int| hi < j < n ==> is_space(line@[j]),
        decreases hi,
    {
        hi = hi - 1;
    }
    proof {
        lemma_trimmed_range(line@, lo as int, hi as int);
    }
    let b = hi - lo == 2 && cs[lo] == '-' && cs[lo + 1] == '-' && cs[lo + 2] == '-';
    proof {
        let t = trimmed(line@);
        assert(t == line@.subrange(lo as int, hi as int + 1));
        assert(t.len() == hi - lo + 1);
        if b {
            assert(t =~= delim_seq()) by {
                assert(t.len() == 3);
                assert(t[0] == line@[lo as int]);
                assert(t[1] == line@[lo as int + 1]);
                assert(t[2] == line@[lo as int + 2]);
            }
        } else if t == delim_seq() {
            assert(t.len() == 3);
            assert(line@[lo as int] == t[0]);
            assert(line@[lo as int + 1] == t[1]);
            assert(line@[lo as int + 2] == t[2]);
            assert(delim_seq()[0] == '-');
            assert(delim_seq()[1] == '-');
            assert(delim_seq()[2] == '-');
            assert(false);
        }
    }
    b
}

/// The characters of `cs` with leading and trailing whitespace removed.
pub fn trimmed_chars(cs: &Vec<char>) -> (r: Vec<char>)
    ensures
        r@ == trimmed(cs@),
{
    let n = cs.len();
    let mut lo: usize = 0;
    while lo < n && is_space_char(cs[lo])
        invariant
            n == cs@.len(),
            lo <= n,
            forall|j: int| 0 <= j < lo ==> is_space(cs@[j]),
        decreases n - lo,
    {
        lo = lo + 1;
    }
    if lo == n {
        proof {
            lemma_trimmed_all_space(cs@);
            assert(trimmed(cs@) =~= Seq::<char>::empty());
        }
        return Vec::new();
    }
    let mut hi: usize = n - 1;
    while is_space_char(cs[hi])
        invariant
            n == cs@.len(),
            lo <= hi < n,
            !is_space(cs@[lo as int]),
            forall|j: int| hi < j < n ==> is_space(cs@[j]),
        decreases hi,
    {
        hi = hi - 1;
    }
    proof {
        lemma_trimmed_range(cs@, lo as int, hi as int);
    }
    let mut out: Vec<char> = Vec::new();
    proof {
        assert(out@ =~= cs@.subrange(lo as int, lo as int));
    }
    let mut i = lo;
    while i < hi + 1
        invariant
            lo <= i <= hi + 1,
            hi < n == cs@.len(),
            out@ == cs@.subrange(lo as int, i as int),
        decreases hi + 1 - i,
    {
        out.push(cs[i]);
        i = i + 1;
        proof {
            assert(out@ =~= cs@.subrange(lo as int, i as int));
        }
    }
    out
}

/// A single newline, the separator appended after every extracted line.
pub open spec fn newline() -> Seq<char> {
    seq!['\n']
}

/// The lines joined back into text, each line followed by a newline.
pub open spec fn join_lines(lines: Seq<Seq<char>>) -> Seq<char>
    decreases lines.len(),
{
    if lines.len() == 0 {
        Seq::empty()
    } else {
        lines.first() + newline() + join_lines(lines.drop_first())
    }
}

/// What extraction does to the remaining lines, starting from `count`
/// delimiters already seen: with two delimiters seen every line goes to the
/// Markdown text; a delimiter line is consumed and counted (the second one
/// doubles as the transition marker and produces no output); any other line
/// goes to the YAML text. Yields (yaml text, markdown text, final count).
pub open spec fn extract_rec(lines: Seq<Seq<char>>, count: int) -> (Seq<char>, Seq<char>, int)
    decreases lines.len(),
{
    if lines.len() == 0 {
        (Seq::empty(), Seq::empty(), count)
    } else {
        let line = lines.first();
        let rest = lines.drop_first();
        if count >= 2 {
            let r = extract_rec(rest, count);
            (r.0, line + newline() + r.1, r.2)
        } else if is_delim(line) {
            extract_rec(rest, count + 1)
        } else {
            let r = extract_rec(rest, count);
            (line + newline() + r.0, r.1, r.2)
        }
    }
}

/// The extraction of a whole document.
pub open spec fn extract_spec(lines: Seq<Seq<char>>) -> (Seq<char>, Seq<char>, int) {
    extract_rec(lines, 0)
}

/// Once two delimiters have been seen, every remaining line goes to the
/// Markdown text unchanged.
proof fn lemma_extract_after_two(lines: Seq<Seq<char>>)
    ensures
        extract_rec(lines, 2) == (Seq::<char>::empty(), join_lines(lines), 2int),
    decreases lines.len(),
{
    if lines.len() > 0 {
        lemma_extract_after_two(lines.drop_first());
    }
}

/// With one delimiter already seen and the next at position `d`, the
/// Markdown text is the join of the lines after `d`.
proof fn lemma_extract_one_seen(lines: Seq<Seq<char>>, d: int)
    requires
        0 <= d < lines.len(),
        is_delim(lines[d]),
        forall|i: int| 0 <= i < d ==> !is_delim(lines[i]),
    ensures
        extract_rec(lines, 1).1 == join_lines(lines.skip(d + 1)),
        extract_rec(lines, 1).2 == 2,
    decreases lines.len(),
{
    let rest = lines.drop_first();
    if d == 0 {
        lemma_extract_after_two(rest);
        assert(rest =~= lines.skip(1));
    } else {
        assert(!is_delim(lines.first()));
        assert(rest[d - 1] == lines[d]);
        assert(forall|i: int| 0 <= i < d - 1 ==> rest[i] == lines[i + 1]);
        lemma_extract_one_seen(rest, d - 1);
        assert(rest.skip(d) =~= lines.skip(d + 1));
    }
}

/// For every document whose lines hold two delimiters, at `d1` and next at
/// `d2`, the extracted Markdown text is exactly the document content after
/// the second delimiter line, each line unmodified and followed by its
/// newline, and the delimiter count is two.
pub proof fn lemma_markdown_after_second_delimiter(lines: Seq<Seq<char>>, d1: int, d2: int)
    requires
        0 <= d1 < d2 < lines.len(),
        is_delim(lines[d1]),
        is_delim(lines[d2]),
        forall|i: int| 0 <= i < d2 && i != d1 ==> !is_delim(lines[i]),
    ensures
        extract_spec(lines).1 == join_lines(lines.skip(d2 + 1)),
        extract_spec(lines).2 == 2,
    decreases lines.len(),
{
    let rest = lines.drop_first();
    if d1 == 0 {
        assert(rest[d2 - 1] == lines[d2]);
        assert(forall|i: int| 0 <= i < d2 - 1 ==> rest[i] == lines[i + 1]);
        lemma_extract_one_seen(rest, d2 - 1);
        assert(rest.skip(d2) =~= lines.skip(d2 + 1));
    } else {
        assert(!is_delim(lines.first()));
        assert(rest[d1 - 1] == lines[d1]);
        assert(rest[d2 - 1] == lines[d2]);
        assert(forall|i: int| 0 <= i < d2 - 1 && i != d1 - 1 ==> rest[i] == lines[i + 1]);
        lemma_markdown_after_second_delimiter(rest, d1 - 1, d2 - 1);
        assert(rest.skip(d2) =~= lines.skip(d2 + 1));
        assert(extract_rec(lines, 0).1 == extract_rec(rest, 0).1);
    }
}

/// The pieces a document's lines split into.
pub struct FrontMatterSplit {
    /// The candidate YAML text: every line seen before the second delimiter
    /// that is not itself a delimiter line, each followed by a newline.
    pub yaml_text: String,
    /// The Markdown body: every line after the second delimiter, each
    /// followed by a newline.
    pub markdown_text: String,
    /// How many delimiter lines were counted, capped at two. A document
    /// with fewer than two has no valid front matter.
    pub delimiter_count: u32,
}

/// Splits a document's lines into its YAML block and its Markdown body.
pub fn extract_front_matter(lines: &Vec<String>) -> (r: FrontMatterSplit)
    ensures
        r.yaml_text@ == extract_spec(lines.deep_view()).0,
        r.markdown_text@ == extract_spec(lines.deep_view()).1,
        r.delimiter_count as int == extract_spec(lines.deep_view()).2,
        0 <= r.delimiter_count <= 2,
{
    let ghost deep = lines.deep_view();
    let n = lines.len();
    let mut yaml_text = String::new();
    let mut markdown_text = String::new();
    let mut count: u32 = 0;
    let mut i: usize = 0;
    proof {
        assert(deep.skip(0) =~= deep);
        assert(Seq::empty() + extract_rec(deep, 0).0 =~= extract_rec(deep, 0).0);
        assert(Seq::empty() + extract_rec(deep, 0).1 =~= extract_rec(deep, 0).1);
    }
    while i < n
        invariant
            deep == lines.deep_view(),
            n == lines@.len(),
            i <= n,
            0 <= count <= 2,
            extract_spec(deep).0 == yaml_text@ + extract_rec(deep.skip(i as int), count as int).0,
            extract_spec(deep).1 == markdown_text@ + extract_rec(
                deep.skip(i as int),
                count as int,
            ).1,
            extract_spec(deep).2 == extract_rec(deep.skip(i as int), count as int).2,
        decreases n - i,
    {
        let line = &lines[i];
        let ghost rem = deep.skip(i as int);
        proof {
            assert(rem.len() == n - i);
            assert(rem.first() == deep[i as int]);
            assert(deep[i as int] == line@);
            assert(rem.drop_first() =~= deep.skip(i as int + 1));
        }
        if count >= 2 {
            let ghost md0 = markdown_text@;
            markdown_text.append(line.as_str());
            markdown_text.append("\n");
            proof {
                reveal_strlit("\n");
                assert("\n"@ =~= newline());
                let r1 = extract_rec(rem.drop_first(), count as int).1;
                assert(extract_rec(rem, count as int).1 == line@ + newline() + r1);
                assert(markdown_text@ + r1 =~= md0 + (line@ + newline() + r1));
            }
        } else if is_delimiter_line(line.as_str()) {
            count = count + 1;
        } else {
            let ghost y0 = yaml_text@;
            yaml_text.append(line.as_str());
            yaml_text.append("\n");
            proof {
                reveal_strlit("\n");
                assert("\n"@ =~= newline());
                let r0 = extract_rec(rem.drop_first(), count as int).0;
                assert(extract_rec(rem, count as int).0 == line@ + newline() + r0);
                assert(yaml_text@ + r0 =~= y0 + (line@ + newline() + r0));
            }
        }
        i = i + 1;
    }
    proof {
        assert(deep.skip(n as int) =~= Seq::empty());
        assert(yaml_text@ + Seq::<char>::empty() =~= yaml_text@);
        assert(markdown_text@ + Seq::<char>::empty() =~= markdown_text@);
    }
    FrontMatterSplit { yaml_text, markdown_text, delimiter_count: count }
}

} // verus!
