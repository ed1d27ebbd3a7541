//! The library's model of a parsed YAML value, the conversion of a mapping
//! into an ordered key/value model, and the extraction of its string-valued
//! entries.

use vstd::prelude::*;

use crate::ordered_map::OrderedMap;
use crate::ordered_map::sorted_keys;

verus! {

/// A YAML value as the library reads it: scalars carry their content, a
/// number carries its rendered text, and structured values keep their shape.
#[derive(Debug, PartialEq, Eq)]
pub enum YamlValue {
    /// The null value.
    Null,
    /// A boolean scalar.
    Bool(bool),
    /// A numeric scalar, kept as its rendered text.
    Number(String),
    /// A string scalar.
    Str(String),
    /// A sequence of values.
    Sequence(Vec<YamlValue>),
    /// A mapping, as a sequence of key/value pairs in document order.
    Mapping(Vec<(YamlValue, YamlValue)>),
    /// A tagged value.
    Tagged(Box<YamlValue>),
}

/// The character content of a string scalar.
pub open spec fn yaml_str_view(v: YamlValue) -> Seq<char>
    recommends
        v is Str,
{
    match v {
        YamlValue::Str(s) => s@,
        _ => Seq::empty(),
    }
}

/// Every key of the pair sequence is a string scalar.
pub open spec fn all_string_keys(pairs: Seq<(YamlValue, YamlValue)>) -> bool {
    forall|i: int| 0 <= i < pairs.len() ==> pairs[i].0 is Str
}

/// The mapping denoted by a YAML pair sequence; when a key occurs more than
/// once, the first pair wins.
pub open spec fn mapping_map(pairs: Seq<(YamlValue, YamlValue)>) -> Map<Seq<char>, YamlValue>
    decreases pairs.len(),
{
    if pairs.len() == 0 {
        Map::empty()
    } else {
        let m = mapping_map(pairs.drop_last());
        let k = yaml_str_view(pairs.last().0);
        if m.dom().contains(k) {
            m
        } else {
            m.insert(k, pairs.last().1)
        }
    }
}

/// Converts a parsed YAML value into an ordered map keyed by its string
/// keys, enumerating in ascending key order the way a B-tree map does.
/// The conversion is all-or-nothing: it succeeds exactly when the value is
/// a mapping whose keys are all string scalars, and then holds every pair;
/// a repeated key keeps its first value. Anything else, a non-mapping root
/// included, yields `None`.
pub fn yaml_mapping_to_btreemap(yaml: YamlValue) -> (r: Option<OrderedMap<YamlValue>>)
    ensures
        match yaml {
            YamlValue::Mapping(pairs) => if all_string_keys(pairs@) {
                r matches Some(m) && m.wf() && m.as_map() == mapping_map(pairs@)
                    && sorted_keys(m.keys())
            } else {
                r is None
            },
            _ => r is None,
        },
{
    match yaml {
        YamlValue::Mapping(mut pairs) => {
            let ghost pairs0 = pairs;
            let ghost all = pairs@;
            proof {
                assert(yaml == YamlValue::Mapping(pairs0));
            }
            let n0 = pairs.len();
            proof {
                assert(all.len() == n0 as int);
            }
            let mut m = OrderedMap::<YamlValue>::new();
            let mut i: usize = 0;
            while pairs.len() > 0
                invariant
                    yaml == YamlValue::Mapping(pairs0),
                    all == pairs0@,
                    all.len() <= usize::MAX,
                    i + pairs@.len() == all.len(),
                    pairs@ =~= all.skip(i as int),
                    m.wf(),
                    all_string_keys(all.take(i as int)),
                    m.as_map() == mapping_map(all.take(i as int)),
                    sorted_keys(m.keys()),
                decreases pairs@.len(),
            {
                let p = pairs.remove(0);
                proof {
                    assert(p == all[i as int]);
                    assert(all.take(i + 1).drop_last() =~= all.take(i as int));
                    assert(all.take(i + 1).last() == all[i as int]);
                }
                match p {
                    (YamlValue::Str(k), v) => {
                        proof {
                            assert(yaml_str_view(all[i as int].0) == k@);
                            assert forall|j: int| 0 <= j < i + 1 implies (#[trigger] all.take(
                                i + 1,
                            )[j]).0 is Str by {
                                if j < i {
                                    assert(all.take(i as int)[j].0 is Str);
                                }
                            }
                        }
                        if !m.contains_key(&k) {
                            m.insert_in_order(k, v);
                        }
                    }
                    _ => {
                        proof {
                            assert(!(all[i as int].0 is Str));
                            assert(!all_string_keys(all));
                        }
                        return None;
                    }
                }
                i = i + 1;
                proof {
                    assert(pairs@ =~= all.skip(i as int));
                }
            }
            proof {
                assert(all.take(i as int) =~= all);
            }
            Some(m)
        }
        _ => None,
    }
}

/// The conversion keeps exactly the mapping's key set: a key is in the
/// converted map's domain precisely when some pair of the mapping carries
/// it. Together with the conversion's contract this says that a mapping
/// whose keys are all strings converts to a map over exactly those keys,
/// and that nothing else ever appears.
pub proof fn lemma_mapping_map_dom(pairs: Seq<(YamlValue, YamlValue)>, k: Seq<char>)
    ensures
        mapping_map(pairs).dom().contains(k) <==> exists|i: int|
            0 <= i < pairs.len() && yaml_str_view(#[trigger] pairs[i].0) == k,
    decreases pairs.len(),
{
    if pairs.len() > 0 {
        lemma_mapping_map_dom(pairs.drop_last(), k);
        let d = pairs.drop_last();
        if mapping_map(pairs).dom().contains(k) {
            if yaml_str_view(pairs.last().0) == k {
                assert(yaml_str_view(pairs[pairs.len() - 1].0) == k);
            } else {
                assert(mapping_map(d).dom().contains(k));
                let i = choose|i: int|
                    0 <= i < d.len() && yaml_str_view(#[trigger] d[i].0) == k;
                assert(yaml_str_view(pairs[i].0) == k);
            }
        }
        if exists|i: int| 0 <= i < pairs.len() && yaml_str_view(#[trigger] pairs[i].0) == k {
            let i = choose|i: int|
                0 <= i < pairs.len() && yaml_str_view(#[trigger] pairs[i].0) == k;
            if i == pairs.len() - 1 {
                assert(mapping_map(pairs).dom().contains(k));
            } else {
                assert(yaml_str_view(d[i].0) == k);
                assert(mapping_map(d).dom().contains(k));
            }
        }
    }
}

#[verifier::external_type_specification]
#[verifier::external_body]
pub struct ExSerdeYamlValue(serde_yml::Value);

/// What parsing a YAML text yields in the library's value model: the
/// parser's result is a function of the text alone, and `None` stands for
/// a text it rejects.
pub uninterp spec fn yaml_of(text: Seq<char>) -> Option<YamlValue>;

/// Relies on the variants of `serde_yml::Value`: each is carried over to
/// the library's own value type one for one, with a number kept as its
/// rendered text. Mapping keys are strings in this version of the crate.
/// Reached only through `parse_yaml`, whose conversion of the parsed tree
/// must recurse through this function.
#[verifier::external_body]
fn yaml_value_model(v: &serde_yml::Value) -> (r: YamlValue) {
    match v {
        serde_yml::Value::Null => YamlValue::Null,
        serde_yml::Value::Bool(b) => YamlValue::Bool(*b),
        serde_yml::Value::Number(n) => YamlValue::Number(n.to_string()),
        serde_yml::Value::String(s) => YamlValue::Str(s.clone()),
        serde_yml::Value::Sequence(xs) => YamlValue::Sequence(
            xs.iter().map(yaml_value_model).collect(),
        ),
        serde_yml::Value::Mapping(mp) => YamlValue::Mapping(
            mp.iter().map(|(k, w)| (YamlValue::Str(k.clone()), yaml_value_model(w))).collect(),
        ),
        serde_yml::Value::Tagged(t) => YamlValue::Tagged(Box::new(yaml_value_model(t.value()))),
    }
}

/// Relies on `serde_yml::from_str`, with the parsed tree carried into the
/// library's value model by `yaml_value_model`: the whole parse is a
/// function of the YAML text alone, so its result bears the name
/// `yaml_of`; a text the parser rejects yields `None`.
#[verifier::external_body]
pub fn parse_yaml(text: &str) -> (r: Option<YamlValue>)
    ensures
        r == yaml_of(text@),
{
    match serde_yml::from_str::<serde_yml::Value>(text).ok() {
        Some(v) => Some(yaml_value_model(&v)),
        None => None,
    }
}

/// The string-valued portion of a mapping from keys to YAML values.
pub open spec fn string_subset(m: Map<Seq<char>, YamlValue>) -> Map<Seq<char>, Seq<char>> {
    Map::new(
        |k: Seq<char>| m.dom().contains(k) && m[k] is Str,
        |k: Seq<char>| yaml_str_view(m[k]),
    )
}

/// The character content of a map with `String` values.
pub open spec fn string_view_map(m: Map<Seq<char>, String>) -> Map<Seq<char>, Seq<char>> {
    Map::new(|k: Seq<char>| m.dom().contains(k), |k: Seq<char>| m[k]@)
}

/// Restricts an ordered YAML map to its entries with string-scalar values;
/// everything else is left out, which is what keeps non-string values away
/// from placeholder substitution and metadata mapping.
pub fn string_entries(map: &OrderedMap<YamlValue>) -> (r: OrderedMap<String>)
    requires
        map.wf(),
    ensures
        r.wf(),
        string_view_map(r.as_map()) == string_subset(map.as_map()),
{
    let n = map.len();
    let mut r = OrderedMap::<String>::new();
    let mut i: usize = 0;
    while i < n
        invariant
            map.wf(),
            n == map.keys().len(),
            i <= n,
            r.wf(),
            forall|k: Seq<char>| #[trigger]
                r.as_map().dom().contains(k) <==> exists|j: int|
                    0 <= j < i && map.keys()[j] == k && map.values()[j] is Str,
            forall|j: int|
                0 <= j < i && map.values()[j] is Str ==> r.as_map().dom().contains(
                    #[trigger] map.keys()[j],
                ) && r.as_map()[map.keys()[j]]@ == yaml_str_view(map.values()[j]),
        decreases n - i,
    {
        let key = map.key_at(i);
        let is_str_value = match map.value_at(i) {
            YamlValue::Str(sv) => Some(sv.clone()),
            _ => None,
        };
        match is_str_value {
            Some(v) => {
                let k2 = key.clone();
                r.insert(k2, v);
                proof {
                    assert(map.values()[i as int] is Str);
                    assert forall|k: Seq<char>| #[trigger]
                        r.as_map().dom().contains(k) implies exists|j: int|
                        0 <= j < i + 1 && map.keys()[j] == k && map.values()[j] is Str by {
                        if k == map.keys()[i as int] {
                            assert(0 <= i < i + 1 && map.keys()[i as int] == k
                                && map.values()[i as int] is Str);
                        }
                    }
                }
            }
            None => {
                proof {
                    assert(!(map.values()[i as int] is Str));
                }
            }
        }
        i = i + 1;
    }
    proof {
        let ghost sv = string_view_map(r.as_map());
        let ghost ss = string_subset(map.as_map());
        assert forall|k: Seq<char>| #[trigger] ss.dom().contains(k) implies sv.dom().contains(
            k,
        ) by {
            map.lemma_dom_keys(k);
            let j = choose|j: int| 0 <= j < map.keys().len() && map.keys()[j] == k;
            map.lemma_pair_at(j);
            assert(map.as_map()[k] == map.values()[j]);
            assert(map.values()[j] is Str);
            assert(r.as_map().dom().contains(k));
        }
        assert forall|k: Seq<char>| #[trigger] sv.dom().contains(k) implies ss.dom().contains(
            k,
        ) by {
            assert(r.as_map().dom().contains(k));
            let j = choose|j: int| 0 <= j < i && map.keys()[j] == k && map.values()[j] is Str;
            map.lemma_pair_at(j);
            map.lemma_dom_keys(k);
        }
        assert(sv.dom() =~= ss.dom());
        assert forall|k: Seq<char>| #[trigger] sv.dom().contains(k) implies sv[k] == ss[k] by {
            assert(ss.dom().contains(k));
            assert(r.as_map().dom().contains(k));
            let j = choose|j: int| 0 <= j < i && map.keys()[j] == k && map.values()[j] is Str;
            map.lemma_pair_at(j);
            assert(map.as_map()[k] == map.values()[j]);
            assert(r.as_map()[k]@ == yaml_str_view(map.values()[j]));
        }
        assert(sv =~= ss);
    }
    r
}

} // verus!
