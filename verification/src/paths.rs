//! Deriving a document's file name from its source path.

use vstd::prelude::*;

use crate::strutil::chars_of;
use crate::strutil::string_from_chars;

verus! {

/// The position of the last path separator in `s`, or minus one when it
/// has none.
pub open spec fn last_sep(s: Seq<char>) -> int
    decreases s.len(),
{
    if s.len() == 0 {
        -1
    } else if s.last() == '/' {
        s.len() - 1
    } else {
        last_sep(s.drop_last())
    }
}

/// `last_sep` is the unique position of the final separator.
proof fn lemma_last_sep_is(s: Seq<char>, i: int)
    requires
        0 <= i < s.len(),
        s[i] == '/',
        forall|j: int| i < j < s.len() ==> s[j] != '/',
    ensures
        last_sep(s) == i,
    decreases s.len(),
{
    if i < s.len() - 1 {
        assert(s.last() != '/');
        let t = s.drop_last();
        assert(forall|j: int| i < j < t.len() ==> t[j] == s[j]);
        lemma_last_sep_is(t, i);
    }
}

/// A path without separators has none to find.
proof fn lemma_no_sep(s: Seq<char>)
    requires
        forall|j: int| 0 <= j < s.len() ==> s[j] != '/',
    ensures
        last_sep(s) == -1,
    decreases s.len(),
{
    if s.len() > 0 {
        lemma_no_sep(s.drop_last());
    }
}

/// What extracting the text after the last separator yields: the whole
/// input when it has no separator, nothing when the separator is the final
/// character, and the tail after the separator otherwise.
pub open spec fn extract_to_end_spec(s: Seq<char>) -> Option<Seq<char>> {
    let i = last_sep(s);
    if i == -1 {
        Some(s)
    } else if i < s.len() - 1 {
        Some(s.skip(i + 1))
    } else {
        None
    }
}

/// Extracts the text after the last path separator: the whole input when it
/// has none, `None` when the separator is the last character.
pub fn extract_to_end_string(input: &str) -> (r: Option<&str>)
    ensures
        match r {
            Some(t) => extract_to_end_spec(input@) == Some(t@),
            None => extract_to_end_spec(input@) is None,
        },
{
    let cs = chars_of(input);
    let n = cs.len();
    let mut k = n;
    while k > 0 && cs[k - 1] != '/'
        invariant
            cs@ == input@,
            n == cs@.len(),
            k <= n,
            forall|j: int| k <= j < n ==> cs@[j] != '/',
        decreases k,
    {
        k = k - 1;
    }
    if k == 0 {
        proof {
            lemma_no_sep(input@);
        }
        Some(input)
    } else {
        proof {
            lemma_last_sep_is(input@, k - 1);
        }
        if k < n {
            let t = input.substring_char(k, n);
            proof {
                assert(t@ =~= input@.skip(k as int));
            }
            Some(t)
        } else {
            None
        }
    }
}

/// The path with every trailing `.md` suffix removed.
pub open spec fn strip_md_spec(s: Seq<char>) -> Seq<char>
    decreases s.len(),
{
    if s.len() >= 3 && s[s.len() - 3] == '.' && s[s.len() - 2] == 'm' && s[s.len() - 1] == 'd' {
        strip_md_spec(s.take(s.len() - 3))
    } else {
        s
    }
}

/// Removes every trailing `.md` suffix from a path.
pub fn strip_md_suffix(path: &str) -> (r: String)
    ensures
        r@ == strip_md_spec(path@),
{
    let mut cs = chars_of(path);
    while cs.len() >= 3 && cs[cs.len() - 3] == '.' && cs[cs.len() - 2] == 'm' && cs[cs.len() - 1]
        == 'd'
        invariant
            strip_md_spec(cs@) == strip_md_spec(path@),
        decreases cs@.len(),
    {
        let ghost before = cs@;
        cs.pop();
        cs.pop();
        cs.pop();
        proof {
            assert(cs@ =~= before.take(before.len() - 3));
        }
    }
    string_from_chars(&cs)
}

/// The document's derived file name: the final path segment of the source
/// path after trailing `.md` suffixes are removed; `None` when the path
/// ends in a separator.
pub open spec fn derived_file_name_spec(path: Seq<char>) -> Option<Seq<char>> {
    extract_to_end_spec(strip_md_spec(path))
}

/// Derives the document's file name from its source path.
pub fn derived_file_name(source_file: &str) -> (r: Option<String>)
    ensures
        match r {
            Some(t) => derived_file_name_spec(source_file@) == Some(t@),
            None => derived_file_name_spec(source_file@) is None,
        },
{
    let stripped = strip_md_suffix(source_file);
    match extract_to_end_string(stripped.as_str()) {
        Some(t) => Some(t.to_owned()),
        None => None,
    }
}

} // verus!
