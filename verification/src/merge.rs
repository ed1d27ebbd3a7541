//! Substitution of `{{key}}` placeholders in a Markdown body from the
//! string-valued entries of the front-matter map.

use vstd::prelude::*;

use crate::ordered_map::OrderedMap;
use crate::strutil::chars_of;
use crate::strutil::string_from_chars;
use crate::yaml::YamlValue;
use crate::yaml::string_entries;
use crate::yaml::string_subset;
use crate::yaml::string_view_map;

verus! {

/// The length of the run of characters before the first closing brace; the
/// whole sequence when it has none.
pub open spec fn non_brace_len(s: Seq<char>) -> nat
    decreases s.len(),
{
    if s.len() == 0 {
        0
    } else if s.first() == '}' {
        0
    } else {
        1 + non_brace_len(s.drop_first())
    }
}

/// `non_brace_len` is the unique cut: everything before it differs from a
/// closing brace, and it stops at one or at the end.
proof fn lemma_non_brace_len_is(s: Seq<char>, c: int)
    requires
        0 <= c <= s.len(),
        forall|t: int| 0 <= t < c ==> s[t] != '}',
        c < s.len() ==> s[c] == '}',
    ensures
        non_brace_len(s) == c,
    decreases s.len(),
{
    if c == 0 {
    } else {
        assert(s.first() != '}');
        let r = s.drop_first();
        assert(forall|t: int| 0 <= t < c - 1 ==> r[t] == s[t + 1]);
        lemma_non_brace_len_is(r, c - 1);
    }
}

/// A placeholder stands at the front of `s`: two opening braces, a run of
/// non-brace characters, and two closing braces.
pub open spec fn placeholder_at_front(s: Seq<char>) -> bool {
    &&& s.len() >= 4
    &&& s[0] == '{'
    &&& s[1] == '{'
    &&& {
        let c = non_brace_len(s.skip(2));
        &&& 2 + c + 1 < s.len()
        &&& s[2 + c as int] == '}'
        &&& s[2 + c as int + 1] == '}'
    }
}

/// The captured text of the placeholder at the front of `s`: the maximal
/// run of non-brace characters after the opening braces, taken verbatim.
pub open spec fn capture(s: Seq<char>) -> Seq<char> {
    s.subrange(2, 2 + non_brace_len(s.skip(2)) as int)
}

/// The number of characters the placeholder at the front of `s` spans.
pub open spec fn span_len(s: Seq<char>) -> nat {
    non_brace_len(s.skip(2)) + 4
}

/// The merged text: a placeholder whose capture is a key of `m` becomes
/// that key's value, in a single pass that does not rescan the replacement;
/// a placeholder with no matching key stays as written; everything else is
/// copied unchanged.
pub open spec fn merge_spec(m: Map<Seq<char>, Seq<char>>, body: Seq<char>) -> Seq<char>
    decreases body.len(),
{
    if body.len() == 0 {
        Seq::empty()
    } else if placeholder_at_front(body) {
        let rest = merge_spec(m, body.skip(span_len(body) as int));
        if m.dom().contains(capture(body)) {
            m[capture(body)] + rest
        } else {
            body.take(span_len(body) as int) + rest
        }
    } else {
        seq![body.first()] + merge_spec(m, body.drop_first())
    }
}

/// Appends the characters of `s` to `out`.
fn push_str_chars(out: &mut Vec<char>, s: &str)
    ensures
        final (out)@ == old(out)@ + s@,
{
    let mut tmp = chars_of(s);
    out.append(&mut tmp);
}

/// Appends `cs[from..to]` to `out`.
fn push_range(out: &mut Vec<char>, cs: &Vec<char>, from: usize, to: usize)
    requires
        from <= to <= cs@.len(),
    ensures
        final (out)@ == old(out)@ + cs@.subrange(from as int, to as int),
{
    let mut i = from;
    while i < to
        invariant
            from <= i <= to <= cs@.len(),
            out@ == old(out)@ + cs@.subrange(from as int, i as int),
        decreases to - i,
    {
        out.push(cs[i]);
        i = i + 1;
        proof {
            assert(out@ =~= old(out)@ + cs@.subrange(from as int, i as int));
        }
    }
    proof {
        assert(out@ =~= old(out)@ + cs@.subrange(from as int, to as int));
    }
}

/// Merges the string-valued front-matter entries into the Markdown content:
/// every `{{key}}` placeholder whose captured text is a key with a string
/// value is replaced by that value; every other placeholder, and all other
/// text, is left exactly as written. The operation is total and pure.
pub fn merge_markdown_yaml(yaml_btreemap: &OrderedMap<YamlValue>, markdown_content: &str) -> (r:
    String)
    requires
        yaml_btreemap.wf(),
    ensures
        r@ == merge_spec(string_subset(yaml_btreemap.as_map()), markdown_content@),
{
    let ghost m = string_subset(yaml_btreemap.as_map());
    let strings = string_entries(yaml_btreemap);
    let cs = chars_of(markdown_content);
    let n = cs.len();
    let mut out: Vec<char> = Vec::new();
    let mut i: usize = 0;
    proof {
        assert(cs@.skip(0) =~= cs@);
        assert(Seq::empty() + merge_spec(m, cs@) =~= merge_spec(m, cs@));
    }
    while i < n
        invariant
            yaml_btreemap.wf(),
            strings.wf(),
            string_view_map(strings.as_map()) == m,
            m == string_subset(yaml_btreemap.as_map()),
            cs@ == markdown_content@,
            n == cs@.len(),
            i <= n,
            merge_spec(m, cs@) == out@ + merge_spec(m, cs@.skip(i as int)),
        decreases n - i,
    {
        let ghost rem = cs@.skip(i as int);
        proof {
            assert(rem.len() == n - i);
            assert(forall|t: int| 0 <= t < rem.len() ==> rem[t] == cs@[i + t]);
        }
        if n - i >= 4 && cs[i] == '{' && cs[i + 1] == '{' {
            let mut j = i + 2;
            while j < n && cs[j] != '}'
                invariant
                    i + 2 <= j <= n,
                    n == cs@.len(),
                    forall|t: int| i + 2 <= t < j ==> cs@[t] != '}',
                decreases n - j,
            {
                j = j + 1;
            }
            proof {
                let tail = rem.skip(2);
                assert(forall|t: int| 0 <= t < tail.len() ==> tail[t] == cs@[i + 2 + t]);
                assert(forall|t: int| 0 <= t < j - i - 2 ==> tail[t] != '}');
                lemma_non_brace_len_is(tail, j - i - 2);
            }
            if n - j >= 2 && cs[j + 1] == '}' {
                proof {
                    assert(placeholder_at_front(rem));
                    assert(capture(rem) =~= cs@.subrange(i + 2, j as int));
                    assert(span_len(rem) == j + 2 - i);
                    assert(rem.skip(span_len(rem) as int) =~= cs@.skip(j + 2));
                }
                let mut cap_vec: Vec<char> = Vec::new();
                push_range(&mut cap_vec, &cs, i + 2, j);
                let cap_s = string_from_chars(&cap_vec);
                proof {
                    assert(Seq::empty() + cs@.subrange(i + 2, j as int) =~= cs@.subrange(
                        i + 2,
                        j as int,
                    ));
                    assert(cap_s@ == capture(rem));
                }
                let ghost out0 = out@;
                match strings.get(&cap_s) {
                    Some(v) => {
                        proof {
                            assert(string_view_map(strings.as_map()).dom().contains(cap_s@));
                            assert(m[capture(rem)] == v@);
                        }
                        push_str_chars(&mut out, v.as_str());
                        proof {
                            assert(out@ + merge_spec(m, cs@.skip(j + 2)) =~= out0 + (m[capture(
                                rem,
                            )] + merge_spec(m, rem.skip(span_len(rem) as int))));
                        }
                    }
                    None => {
                        proof {
                            assert(!string_view_map(strings.as_map()).dom().contains(cap_s@));
                            assert(!m.dom().contains(capture(rem)));
                            assert(rem.take(span_len(rem) as int) =~= cs@.subrange(
                                i as int,
                                j + 2,
                            ));
                        }
                        push_range(&mut out, &cs, i, j + 2);
                        proof {
                            assert(out@ + merge_spec(m, cs@.skip(j + 2)) =~= out0 + (rem.take(
                                span_len(rem) as int,
                            ) + merge_spec(m, rem.skip(span_len(rem) as int))));
                        }
                    }
                }
                i = j + 2;
            } else {
                proof {
                    assert(!placeholder_at_front(rem)) by {
                        let c = non_brace_len(rem.skip(2));
                        assert(c == j - i - 2);
                        if j + 1 >= n {
                            assert(!(2 + c + 1 < rem.len()));
                        } else {
                            assert(rem[2 + c as int + 1] == cs@[j + 1]);
                        }
                    }
                    assert(rem.drop_first() =~= cs@.skip(i + 1));
                }
                let ghost out0 = out@;
                out.push(cs[i]);
                proof {
                    assert(out@ =~= out0 + seq![rem.first()]);
                    assert(out@ + merge_spec(m, cs@.skip(i + 1)) =~= out0 + (seq![rem.first()]
                        + merge_spec(m, rem.drop_first())));
                }
                i = i + 1;
            }
        } else {
            proof {
                assert(!placeholder_at_front(rem)) by {
                    if n - i >= 4 {
                        assert(rem[0] == cs@[i as int]);
                        assert(rem[1] == cs@[i + 1]);
                    }
                }
                assert(rem.drop_first() =~= cs@.skip(i + 1));
            }
            let ghost out0 = out@;
            out.push(cs[i]);
            proof {
                assert(out@ =~= out0 + seq![rem.first()]);
                assert(out@ + merge_spec(m, cs@.skip(i + 1)) =~= out0 + (seq![rem.first()]
                    + merge_spec(m, rem.drop_first())));
            }
            i = i + 1;
        }
    }
    proof {
        assert(cs@.skip(n as int) =~= Seq::<char>::empty());
        assert(out@ + Seq::<char>::empty() =~= out@);
    }
    string_from_chars(&out)
}

/// Merging with an empty map gives the body back unchanged, whatever the
/// body holds.
pub proof fn lemma_merge_empty_map(body: Seq<char>)
    ensures
        merge_spec(Map::<Seq<char>, Seq<char>>::empty(), body) == body,
    decreases body.len(),
{
    let m = Map::<Seq<char>, Seq<char>>::empty();
    if body.len() == 0 {
        assert(merge_spec(m, body) =~= body);
    } else if placeholder_at_front(body) {
        lemma_merge_empty_map(body.skip(span_len(body) as int));
        assert(!m.dom().contains(capture(body)));
        assert(body.take(span_len(body) as int) + body.skip(span_len(body) as int) =~= body);
    } else {
        lemma_merge_empty_map(body.drop_first());
        assert(seq![body.first()] + body.drop_first() =~= body);
    }
}

/// A body that is exactly one placeholder `{{k}}` merges to the value held
/// for `k` when the map has one, and stays written as it is when not.
pub proof fn lemma_placeholder_round_trip(m: Map<Seq<char>, Seq<char>>, k: Seq<char>)
    requires
        forall|i: int| 0 <= i < k.len() ==> k[i] != '}',
    ensures
        merge_spec(m, seq!['{', '{'] + k + seq!['}', '}']) == if m.dom().contains(k) {
            m[k]
        } else {
            seq!['{', '{'] + k + seq!['}', '}']
        },
{
    let body = seq!['{', '{'] + k + seq!['}', '}'];
    assert(body.len() == k.len() + 4);
    assert(body[0] == '{');
    assert(body[1] == '{');
    let tail = body.skip(2);
    assert(forall|t: int| 0 <= t < k.len() ==> tail[t] == k[t]);
    assert(tail[k.len() as int] == '}');
    lemma_non_brace_len_is(tail, k.len() as int);
    assert(body[2 + k.len() as int] == '}');
    assert(body[2 + k.len() as int + 1] == '}');
    assert(placeholder_at_front(body));
    assert(capture(body) =~= k);
    assert(span_len(body) == body.len());
    assert(body.skip(span_len(body) as int) =~= Seq::<char>::empty());
    let rest = merge_spec(m, body.skip(span_len(body) as int));
    assert(rest == merge_spec(m, Seq::<char>::empty()));
    assert(rest =~= Seq::<char>::empty());
    if m.dom().contains(k) {
        assert(m[k] + Seq::<char>::empty() =~= m[k]);
    } else {
        assert(body.take(span_len(body) as int) =~= body);
        assert(body + Seq::<char>::empty() =~= body);
    }
}

} // verus!
