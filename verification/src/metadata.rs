//! The metadata mapper: field-name normalization, the decision which
//! document-information entries exist, and the fixed Creator and Producer
//! values.

use vstd::prelude::*;

use crate::ordered_map::OrderedMap;
use crate::strutil::chars_of;
use crate::strutil::str_eq;
use crate::strutil::string_from_chars;

verus! {

/// The product identifier written as Producer, and as Creator when the
/// front matter names no generator.
pub const PACKAGE_NAME: &'static str = "PDF Composer";

/// One association between a document-information field and the YAML key
/// whose value fills it.
pub struct PDFDocInfoEntry {
    /// The name of the document-information entry.
    pub doc_info_entry: String,
    /// The YAML key whose string value supplies the entry.
    pub yaml_entry: String,
}

/// An upper-case ASCII letter mapped to its lower-case form; every other
/// character is left as it is.
pub open spec fn lower_char(c: char) -> char {
    if c == 'A' { 'a' } else if c == 'B' { 'b' } else if c == 'C' { 'c' }
    else if c == 'D' { 'd' } else if c == 'E' { 'e' } else if c == 'F' { 'f' }
    else if c == 'G' { 'g' } else if c == 'H' { 'h' } else if c == 'I' { 'i' }
    else if c == 'J' { 'j' } else if c == 'K' { 'k' } else if c == 'L' { 'l' }
    else if c == 'M' { 'm' } else if c == 'N' { 'n' } else if c == 'O' { 'o' }
    else if c == 'P' { 'p' } else if c == 'Q' { 'q' } else if c == 'R' { 'r' }
    else if c == 'S' { 's' } else if c == 'T' { 't' } else if c == 'U' { 'u' }
    else if c == 'V' { 'v' } else if c == 'W' { 'w' } else if c == 'X' { 'x' }
    else if c == 'Y' { 'y' } else if c == 'Z' { 'z' } else { c }
}

/// Lower-cases the ASCII letters of `c`.
fn lower_char_exec(c: char) -> (r: char)
    ensures
        r == lower_char(c),
{
    if c == 'A' { 'a' } else if c == 'B' { 'b' } else if c == 'C' { 'c' }
    else if c == 'D' { 'd' } else if c == 'E' { 'e' } else if c == 'F' { 'f' }
    else if c == 'G' { 'g' } else if c == 'H' { 'h' } else if c == 'I' { 'i' }
    else if c == 'J' { 'j' } else if c == 'K' { 'k' } else if c == 'L' { 'l' }
    else if c == 'M' { 'm' } else if c == 'N' { 'n' } else if c == 'O' { 'o' }
    else if c == 'P' { 'p' } else if c == 'Q' { 'q' } else if c == 'R' { 'r' }
    else if c == 'S' { 's' } else if c == 'T' { 't' } else if c == 'U' { 'u' }
    else if c == 'V' { 'v' } else if c == 'W' { 'w' } else if c == 'X' { 'x' }
    else if c == 'Y' { 'y' } else if c == 'Z' { 'z' } else { c }
}

/// The ASCII lower-casing of a whole name.
pub open spec fn lower_seq(s: Seq<char>) -> Seq<char> {
    s.map_values(|c: char| lower_char(c))
}

/// The canonical form of a document-information field name: the four
/// reserved names are capitalized whatever their case; every other name is
/// kept exactly as supplied.
pub open spec fn normalize_field_name_spec(name: Seq<char>) -> Seq<char> {
    if lower_seq(name) == "title"@ {
        "Title"@
    } else if lower_seq(name) == "author"@ {
        "Author"@
    } else if lower_seq(name) == "subject"@ {
        "Subject"@
    } else if lower_seq(name) == "keywords"@ {
        "Keywords"@
    } else {
        name
    }
}

/// Normalizes a document-information field name.
pub fn normalize_field_name(name: &str) -> (r: String)
    ensures
        r@ == normalize_field_name_spec(name@),
{
    let cs = chars_of(name);
    let n = cs.len();
    let mut low: Vec<char> = Vec::new();
    let mut i: usize = 0;
    while i < n
        invariant
            cs@ == name@,
            n == cs@.len(),
            i <= n,
            low@ == lower_seq(name@).take(i as int),
        decreases n - i,
    {
        low.push(lower_char_exec(cs[i]));
        i = i + 1;
        proof {
            assert(low@ =~= lower_seq(name@).take(i as int));
        }
    }
    proof {
        assert(lower_seq(name@).take(n as int) =~= lower_seq(name@));
    }
    let lowered = string_from_chars(&low);
    if str_eq(lowered.as_str(), "title") {
        "Title".to_owned()
    } else if str_eq(lowered.as_str(), "author") {
        "Author".to_owned()
    } else if str_eq(lowered.as_str(), "subject") {
        "Subject".to_owned()
    } else if str_eq(lowered.as_str(), "keywords") {
        "Keywords".to_owned()
    } else {
        name.to_owned()
    }
}

/// Whether the map holds a value under the given entry name.
pub fn check_entry_exists(entry: String, btree: &OrderedMap<String>) -> (b: bool)
    ensures
        b == btree.as_map().dom().contains(entry@),
{
    btree.contains_key(&entry)
}

/// The document-information pairs that the rules produce: one pair for
/// each rule whose YAML key holds a string value, in rule order, carrying
/// that value; a rule whose key holds no value produces nothing.
pub open spec fn rule_pairs(
    keys: Seq<Seq<char>>,
    rm: Map<Seq<char>, String>,
    sm: Map<Seq<char>, Seq<char>>,
) -> Seq<(Seq<char>, Seq<char>)>
    decreases keys.len(),
{
    if keys.len() == 0 {
        Seq::empty()
    } else {
        let rest = rule_pairs(keys.drop_last(), rm, sm);
        let f = keys.last();
        let yk = rm[f]@;
        if sm.dom().contains(yk) {
            rest.push((f, sm[yk]))
        } else {
            rest
        }
    }
}

/// Whether some produced pair carries the field name `f`.
pub open spec fn has_field(pairs: Seq<(Seq<char>, Seq<char>)>, f: Seq<char>) -> bool {
    exists|i: int| 0 <= i < pairs.len() && pairs[i].0 == f
}

/// The full entry set: the rule-produced pairs, and, when none of them
/// fills the Title field, a final Title pair carrying the document's
/// derived file name, so that Title is always present.
pub open spec fn doc_info_spec(
    keys: Seq<Seq<char>>,
    rm: Map<Seq<char>, String>,
    sm: Map<Seq<char>, Seq<char>>,
    name: Seq<char>,
) -> Seq<(Seq<char>, Seq<char>)> {
    let base = rule_pairs(keys, rm, sm);
    if has_field(base, "Title"@) {
        base
    } else {
        base.push(("Title"@, name))
    }
}

/// The character content of a pair sequence.
pub open spec fn pairs_view(s: Seq<(String, String)>) -> Seq<(Seq<char>, Seq<char>)> {
    s.map_values(|p: (String, String)| (p.0@, p.1@))
}

/// Decides the document-information entries: each rule looks its YAML key
/// up in the string-valued entries and produces a pair only when a value is
/// there; the Title fallback closes the set.
pub fn doc_info_entries(
    rules: &OrderedMap<String>,
    strings: &OrderedMap<String>,
    derived_name: &str,
) -> (r: Vec<(String, String)>)
    requires
        rules.wf(),
        strings.wf(),
    ensures
        pairs_view(r@) == doc_info_spec(
            rules.keys(),
            rules.as_map(),
            crate::yaml::string_view_map(strings.as_map()),
            derived_name@,
        ),
{
    let ghost rm = rules.as_map();
    let ghost sm = crate::yaml::string_view_map(strings.as_map());
    let n = rules.len();
    let mut r: Vec<(String, String)> = Vec::new();
    let mut has_title = false;
    let mut i: usize = 0;
    proof {
        assert(rules.keys().take(0) =~= Seq::<Seq<char>>::empty());
        assert(pairs_view(r@) =~= rule_pairs(rules.keys().take(0), rm, sm));
    }
    while i < n
        invariant
            rules.wf(),
            strings.wf(),
            rm == rules.as_map(),
            sm == crate::yaml::string_view_map(strings.as_map()),
            n == rules.keys().len(),
            i <= n,
            pairs_view(r@) == rule_pairs(rules.keys().take(i as int), rm, sm),
            has_title == has_field(rule_pairs(rules.keys().take(i as int), rm, sm), "Title"@),
        decreases n - i,
    {
        let ghost prefix = rules.keys().take(i as int);
        let ghost prefix1 = rules.keys().take(i + 1);
        proof {
            assert(prefix1.drop_last() =~= prefix);
            assert(prefix1.last() == rules.keys()[i as int]);
            rules.lemma_pair_at(i as int);
        }
        let field = rules.key_at(i);
        let yk = rules.value_at(i);
        let ghost base = rule_pairs(prefix, rm, sm);
        match strings.get(yk) {
            Some(v) => {
                let pair = (field.clone(), v.clone());
                r.push(pair);
                proof {
                    assert(sm.dom().contains(yk@));
                    assert(sm[yk@] == v@);
                    assert(pairs_view(r@) =~= base.push((field@, v@)));
                    assert(rule_pairs(prefix1, rm, sm) == base.push((field@, sm[yk@])));
                }
                if str_eq(field.as_str(), "Title") {
                    has_title = true;
                    proof {
                        let p1 = rule_pairs(prefix1, rm, sm);
                        assert(p1[p1.len() - 1].0 == "Title"@);
                    }
                } else {
                    proof {
                        let p1 = rule_pairs(prefix1, rm, sm);
                        if has_field(p1, "Title"@) {
                            let t = choose|t: int| 0 <= t < p1.len() && p1[t].0 == "Title"@;
                            if t == p1.len() - 1 {
                                assert(false);
                            } else {
                                assert(base[t].0 == "Title"@);
                            }
                        }
                        if has_field(base, "Title"@) {
                            let t = choose|t: int| 0 <= t < base.len() && base[t].0 == "Title"@;
                            assert(p1[t].0 == "Title"@);
                        }
                    }
                }
            }
            None => {
                proof {
                    assert(!sm.dom().contains(yk@));
                    assert(rule_pairs(prefix1, rm, sm) == base);
                }
            }
        }
        i = i + 1;
    }
    proof {
        assert(rules.keys().take(n as int) =~= rules.keys());
    }
    if !has_title {
        let name_string = derived_name.to_owned();
        let title_key = "Title".to_owned();
        r.push((title_key, name_string));
        proof {
            assert(pairs_view(r@) =~= rule_pairs(rules.keys(), rm, sm).push((
                "Title"@,
                derived_name@,
            )));
        }
    }
    r
}

/// A pair that some rule produces: its field is a rule's field, that
/// rule's YAML key holds a string value, and the pair carries it.
pub open spec fn pair_from_rule(
    pr: (Seq<char>, Seq<char>),
    keys: Seq<Seq<char>>,
    rm: Map<Seq<char>, String>,
    sm: Map<Seq<char>, Seq<char>>,
) -> bool {
    exists|t: int|
        0 <= t < keys.len() && pr.0 == #[trigger] keys[t] && sm.dom().contains(rm[keys[t]]@)
            && pr.1 == sm[rm[keys[t]]@]
}

/// Every pair that the rules produce points back to a rule whose YAML key
/// holds a string value, and carries exactly that value.
pub proof fn lemma_rule_pairs_membership(
    keys: Seq<Seq<char>>,
    rm: Map<Seq<char>, String>,
    sm: Map<Seq<char>, Seq<char>>,
)
    ensures
        forall|j: int|
            0 <= j < rule_pairs(keys, rm, sm).len() ==> pair_from_rule(
                #[trigger] rule_pairs(keys, rm, sm)[j],
                keys,
                rm,
                sm,
            ),
    decreases keys.len(),
{
    if keys.len() > 0 {
        lemma_rule_pairs_membership(keys.drop_last(), rm, sm);
        let rest = rule_pairs(keys.drop_last(), rm, sm);
        let whole = rule_pairs(keys, rm, sm);
        assert forall|j: int| 0 <= j < whole.len() implies pair_from_rule(
            #[trigger] whole[j],
            keys,
            rm,
            sm,
        ) by {
            if j < rest.len() {
                assert(whole[j] == rest[j]);
                assert(pair_from_rule(rule_pairs(keys.drop_last(), rm, sm)[j], keys.drop_last(), rm, sm));
                let t = choose|t: int|
                    0 <= t < keys.drop_last().len() && rest[j].0 == #[trigger] keys.drop_last()[t]
                        && sm.dom().contains(rm[keys.drop_last()[t]]@) && rest[j].1
                        == sm[rm[keys.drop_last()[t]]@];
                assert(keys.drop_last()[t] == keys[t]);
                assert(whole[j].0 == keys[t] && sm.dom().contains(rm[keys[t]]@) && whole[j].1
                    == sm[rm[keys[t]]@]);
            } else {
                let t = keys.len() - 1;
                assert(whole[j].0 == keys[t] && sm.dom().contains(rm[keys[t]]@) && whole[j].1
                    == sm[rm[keys[t]]@]);
            }
        }
    }
}

/// A rule other than Title whose YAML key holds no string value produces no
/// document-information pair for its field: absent values are skipped, never
/// written as empty entries. (The Title field alone is always filled, by its
/// file-name fallback.)
pub proof fn lemma_absent_value_gives_no_pair(
    keys: Seq<Seq<char>>,
    rm: Map<Seq<char>, String>,
    sm: Map<Seq<char>, Seq<char>>,
    name: Seq<char>,
    i: int,
)
    requires
        forall|x: int, y: int| 0 <= x < y < keys.len() ==> keys[x] != keys[y],
        0 <= i < keys.len(),
        !sm.dom().contains(rm[keys[i]]@),
        keys[i] != "Title"@,
    ensures
        forall|j: int|
            0 <= j < doc_info_spec(keys, rm, sm, name).len() ==> (#[trigger] doc_info_spec(
                keys,
                rm,
                sm,
                name,
            )[j]).0 != keys[i],
{
    lemma_rule_pairs_membership(keys, rm, sm);
    let base = rule_pairs(keys, rm, sm);
    let whole = doc_info_spec(keys, rm, sm, name);
    assert forall|j: int| 0 <= j < whole.len() implies (#[trigger] whole[j]).0 != keys[i] by {
        if j < base.len() {
            assert(whole[j] == base[j]);
            assert(pair_from_rule(rule_pairs(keys, rm, sm)[j], keys, rm, sm));
            let t = choose|t: int|
                0 <= t < keys.len() && base[j].0 == #[trigger] keys[t] && sm.dom().contains(
                    rm[keys[t]]@,
                ) && base[j].1 == sm[rm[keys[t]]@];
            if t == i {
                assert(false);
            } else {
                assert(keys[t] != keys[i]);
            }
        } else {
            assert(whole[j].0 == "Title"@);
        }
    }
}

/// Produces the byte-level dictionary pair for one entry: the entry name
/// and the string value held under it, both as their UTF-8 bytes. The
/// value must be present; absent entries are filtered out beforehand.
pub fn populate_dictionary(yaml_entry: String, string_values_btreemap: &OrderedMap<String>) -> (r:
    (Vec<u8>, Vec<u8>))
    requires
        string_values_btreemap.wf(),
        string_values_btreemap.as_map().dom().contains(yaml_entry@),
    ensures
        r.0@ == vstd::utf8::encode_utf8(yaml_entry@),
        r.1@ == vstd::utf8::encode_utf8(
            string_values_btreemap.as_map()[yaml_entry@]@,
        ),
{
    let value = match string_values_btreemap.get(&yaml_entry) {
        Some(v) => v.clone(),
        None => {
            proof {
                assert(false);
            }
            String::new()
        }
    };
    let key_bytes = yaml_entry.as_str().as_bytes_vec();
    let value_bytes = value.as_str().as_bytes_vec();
    (key_bytes, value_bytes)
}

/// The Creator value a string-entry map decides: what its `generator` key
/// holds when it has one, else the fixed product identifier.
pub open spec fn creator_spec(sm: Map<Seq<char>, Seq<char>>) -> Seq<char> {
    if sm.dom().contains("generator"@) {
        sm["generator"@]
    } else {
        PACKAGE_NAME@
    }
}

/// The Creator value: the string held under the `generator` key when the
/// front matter has one, else the fixed product identifier.
pub fn creator_entry(strings: &OrderedMap<String>) -> (r: String)
    requires
        strings.wf(),
    ensures
        r@ == creator_spec(crate::yaml::string_view_map(strings.as_map())),
{
    let key = "generator".to_owned();
    match strings.get(&key) {
        Some(v) => v.clone(),
        None => PACKAGE_NAME.to_owned(),
    }
}

/// The Producer value: always the fixed product identifier.
pub fn producer_entry() -> (r: String)
    ensures
        r@ == PACKAGE_NAME@,
{
    PACKAGE_NAME.to_owned()
}

} // verus!
