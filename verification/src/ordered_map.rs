//! An ordered map with `String` keys, used for the front-matter entries
//! (kept in ascending key order) and for the document-information rule
//! registry (kept in registration order).
//!
//! The map is a vector of key/value pairs with pairwise-distinct keys. Its
//! mathematical content is given by [`map_of`], which turns the pair
//! sequence into a `Map<Seq<char>, V>`; [`insert`](OrderedMap::insert)
//! appends a fresh key at the end, while
//! [`insert_in_order`](OrderedMap::insert_in_order) keeps the keys in the
//! lexicographic order [`lex_lt`].

use vstd::prelude::*;

verus! {

/// The mapping denoted by a sequence of key/value pairs; a later pair for
/// the same key shadows an earlier one (irrelevant under distinct keys).
pub open spec fn map_of<V>(s: Seq<(String, V)>) -> Map<Seq<char>, V>
    decreases s.len(),
{
    if s.len() == 0 {
        Map::empty()
    } else {
        map_of(s.drop_last()).insert(s.last().0@, s.last().1)
    }
}

/// The key views of a pair sequence, in order.
pub open spec fn key_seq<V>(s: Seq<(String, V)>) -> Seq<Seq<char>> {
    s.map_values(|p: (String, V)| p.0@)
}

/// Pairwise-distinct keys.
pub open spec fn distinct_keys<V>(s: Seq<(String, V)>) -> bool {
    forall|i: int, j: int|
        0 <= i < j < s.len() ==> key_seq(s)[i] != key_seq(s)[j]
}

/// Distinctness of keys is preserved by dropping the last pair.
proof fn lemma_distinct_drop_last<V>(s: Seq<(String, V)>)
    requires
        distinct_keys(s),
        s.len() > 0,
    ensures
        distinct_keys(s.drop_last()),
{
    let t = s.drop_last();
    assert forall|x: int, y: int| 0 <= x < y < t.len() implies key_seq(t)[x] != key_seq(t)[y] by {
        assert(key_seq(t)[x] == t[x].0@);
        assert(key_seq(t)[y] == t[y].0@);
        assert(key_seq(s)[x] == s[x].0@);
        assert(key_seq(s)[y] == s[y].0@);
    }
}

/// A key is in the domain of `map_of(s)` exactly when some pair holds it.
pub proof fn lemma_map_of_dom<V>(s: Seq<(String, V)>, k: Seq<char>)
    ensures
        map_of(s).dom().contains(k) <==> exists|i: int|
            0 <= i < s.len() && key_seq(s)[i] == k,
    decreases s.len(),
{
    if s.len() > 0 {
        lemma_map_of_dom(s.drop_last(), k);
        if s.last().0@ == k {
            assert(key_seq(s)[s.len() - 1] == k);
        } else if map_of(s).dom().contains(k) {
            let i = choose|i: int|
                0 <= i < s.drop_last().len() && key_seq(s.drop_last())[i] == k;
            assert(key_seq(s)[i] == k);
        } else if exists|i: int| 0 <= i < s.len() && key_seq(s)[i] == k {
            let i = choose|i: int| 0 <= i < s.len() && key_seq(s)[i] == k;
            assert(key_seq(s.drop_last())[i] == k);
        }
    }
}

/// Under distinct keys, `map_of(s)` sends the key of pair `i` to its value.
pub proof fn lemma_map_of_index<V>(s: Seq<(String, V)>, i: int)
    requires
        distinct_keys(s),
        0 <= i < s.len(),
    ensures
        map_of(s).dom().contains(key_seq(s)[i]),
        map_of(s)[key_seq(s)[i]] == s[i].1,
    decreases s.len(),
{
    if i == s.len() - 1 {
    } else {
        lemma_distinct_drop_last(s);
        lemma_map_of_index(s.drop_last(), i);
        assert(key_seq(s.drop_last())[i] == key_seq(s)[i]);
        assert(key_seq(s)[i] != key_seq(s)[s.len() - 1]);
    }
}

/// Strict lexicographic order on character sequences by code point; a
/// proper prefix comes before its extensions. This is the order `String`
/// comparison gives, and so the order a B-tree map enumerates in.
pub open spec fn lex_lt(a: Seq<char>, b: Seq<char>) -> bool
    decreases a.len(),
{
    if b.len() == 0 {
        false
    } else if a.len() == 0 {
        true
    } else if a.first() != b.first() {
        (a.first() as int) < (b.first() as int)
    } else {
        lex_lt(a.drop_first(), b.drop_first())
    }
}

/// How a common prefix of length `i` decides the order: equal sequences
/// are unordered, a proper prefix comes first, and otherwise the first
/// differing character decides.
proof fn lemma_lex_lt_common_prefix(a: Seq<char>, b: Seq<char>, i: int)
    requires
        0 <= i <= a.len(),
        i <= b.len(),
        forall|j: int| 0 <= j < i ==> a[j] == b[j],
    ensures
        i == a.len() && i == b.len() ==> !lex_lt(a, b),
        i == a.len() && i < b.len() ==> lex_lt(a, b),
        i == b.len() && i < a.len() ==> !lex_lt(a, b),
        i < a.len() && i < b.len() && a[i] != b[i] ==> (lex_lt(a, b) <==> (a[i] as int) < (
        b[i] as int)),
    decreases i,
{
    if i == 0 {
    } else {
        assert(a.first() == b.first());
        let a1 = a.drop_first();
        let b1 = b.drop_first();
        assert(forall|j: int| 0 <= j < i - 1 ==> a1[j] == b1[j]);
        lemma_lex_lt_common_prefix(a1, b1, i - 1);
        if i < a.len() && i < b.len() && a[i] != b[i] {
            assert(a1[i - 1] == a[i]);
            assert(b1[i - 1] == b[i]);
        }
    }
}

/// Any two distinct sequences are ordered one way or the other.
proof fn lemma_lex_lt_connex(a: Seq<char>, b: Seq<char>)
    requires
        a != b,
    ensures
        lex_lt(a, b) || lex_lt(b, a),
    decreases a.len(),
{
    if a.len() == 0 {
        assert(b.len() > 0) by {
            if b.len() == 0 {
                assert(a =~= b);
            }
        }
    } else if b.len() == 0 {
    } else if a.first() != b.first() {
    } else {
        assert(a.drop_first() != b.drop_first()) by {
            if a.drop_first() == b.drop_first() {
                assert(a.drop_first().len() == a.len() - 1);
                assert(b.drop_first().len() == b.len() - 1);
                assert(a.len() == b.len());
                assert forall|t: int| 0 <= t < a.len() implies a[t] == b[t] by {
                    if t > 0 {
                        assert(a.drop_first()[t - 1] == b.drop_first()[t - 1]);
                    }
                }
                assert(a =~= b);
            }
        }
        lemma_lex_lt_connex(a.drop_first(), b.drop_first());
    }
}

/// The order is transitive.
proof fn lemma_lex_lt_trans(a: Seq<char>, b: Seq<char>, c: Seq<char>)
    requires
        lex_lt(a, b),
        lex_lt(b, c),
    ensures
        lex_lt(a, c),
    decreases a.len(),
{
    if a.len() == 0 {
    } else {
        assert(b.len() > 0);
        assert(c.len() > 0);
        if a.first() == b.first() && b.first() == c.first() {
            lemma_lex_lt_trans(a.drop_first(), b.drop_first(), c.drop_first());
        }
    }
}

/// Nothing comes before itself.
proof fn lemma_lex_lt_irrefl(a: Seq<char>)
    ensures
        !lex_lt(a, a),
    decreases a.len(),
{
    if a.len() > 0 {
        lemma_lex_lt_irrefl(a.drop_first());
    }
}

/// The keys stand in strictly ascending order.
pub open spec fn sorted_keys(ks: Seq<Seq<char>>) -> bool {
    forall|i: int, j: int| 0 <= i < j < ks.len() ==> lex_lt(ks[i], ks[j])
}

/// Compares two strings in the lexicographic order.
fn str_lt(a: &String, b: &String) -> (r: bool)
    ensures
        r == lex_lt(a@, b@),
{
    let na = a.as_str().unicode_len();
    let nb = b.as_str().unicode_len();
    let mut i: usize = 0;
    while i < na && i < nb
        invariant
            na == a@.len(),
            nb == b@.len(),
            i <= na,
            i <= nb,
            forall|j: int| 0 <= j < i ==> a@[j] == b@[j],
        decreases na - i,
    {
        let ca = a.as_str().get_char(i);
        let cb = b.as_str().get_char(i);
        if ca != cb {
            proof {
                lemma_lex_lt_common_prefix(a@, b@, i as int);
            }
            return ca < cb;
        }
        i = i + 1;
    }
    proof {
        lemma_lex_lt_common_prefix(a@, b@, i as int);
    }
    na < nb
}

/// An insertion-ordered map from `String` keys to values of type `V`.
pub struct OrderedMap<V> {
    pairs: Vec<(String, V)>,
}

impl<V> OrderedMap<V> {
    /// The underlying pair sequence.
    pub closed spec fn pairs_seq(&self) -> Seq<(String, V)> {
        self.pairs@
    }

    /// The key views, in insertion order.
    pub open spec fn keys(&self) -> Seq<Seq<char>> {
        key_seq(self.pairs_seq())
    }

    /// The values, in insertion order.
    pub open spec fn values(&self) -> Seq<V> {
        self.pairs_seq().map_values(|p: (String, V)| p.1)
    }

    /// The mapping the pairs denote.
    pub open spec fn as_map(&self) -> Map<Seq<char>, V> {
        map_of(self.pairs_seq())
    }

    /// Well-formed: no two pairs share a key.
    pub open spec fn wf(&self) -> bool {
        distinct_keys(self.pairs_seq())
    }

    /// Creates an empty map.
    pub fn new() -> (m: Self)
        ensures
            m.wf(),
            m.as_map() == Map::<Seq<char>, V>::empty(),
            m.keys() == Seq::<Seq<char>>::empty(),
            m.values() == Seq::<V>::empty(),
    {
        let m = OrderedMap { pairs: Vec::new() };
        proof {
            assert(m.keys() =~= Seq::<Seq<char>>::empty());
            assert(m.values() =~= Seq::<V>::empty());
        }
        m
    }

    /// The number of entries.
    pub fn len(&self) -> (n: usize)
        ensures
            n == self.keys().len(),
    {
        self.pairs.len()
    }

    /// Whether the map has no entries.
    pub fn is_empty(&self) -> (b: bool)
        ensures
            b == (self.keys().len() == 0),
    {
        self.pairs.len() == 0
    }

    /// The position of the pair holding key `k`, if any.
    fn index_of(&self, k: &String) -> (r: Option<usize>)
        ensures
            match r {
                Some(i) => i < self.keys().len() && self.keys()[i as int] == k@,
                None => forall|i: int|
                    0 <= i < self.keys().len() ==> self.keys()[i] != k@,
            },
    {
        let n = self.pairs.len();
        let mut i: usize = 0;
        while i < n
            invariant
                n == self.pairs_seq().len(),
                i <= n,
                forall|j: int| 0 <= j < i ==> self.keys()[j] != k@,
            decreases n - i,
        {
            if self.pairs[i].0 == *k {
                return Some(i);
            }
            i = i + 1;
        }
        None
    }

    /// Whether key `k` is present.
    pub fn contains_key(&self, k: &String) -> (b: bool)
        ensures
            b == self.as_map().dom().contains(k@),
    {
        match self.index_of(k) {
            Some(i) => {
                proof {
                    lemma_map_of_dom(self.pairs_seq(), k@);
                    assert(key_seq(self.pairs_seq())[i as int] == k@);
                }
                true
            }
            None => {
                proof {
                    lemma_map_of_dom(self.pairs_seq(), k@);
                    assert forall|j: int|
                        0 <= j < self.pairs_seq().len() implies key_seq(self.pairs_seq())[j]
                        != k@ by {
                        assert(self.keys()[j] != k@);
                    }
                }
                false
            }
        }
    }

    /// The value held for key `k`, if any.
    pub fn get(&self, k: &String) -> (r: Option<&V>)
        requires
            self.wf(),
        ensures
            match r {
                Some(v) => self.as_map().dom().contains(k@) && *v == self.as_map()[k@],
                None => !self.as_map().dom().contains(k@),
            },
    {
        match self.index_of(k) {
            Some(i) => {
                proof {
                    lemma_map_of_dom(self.pairs_seq(), k@);
                    assert(key_seq(self.pairs_seq())[i as int] == k@);
                    lemma_map_of_index(self.pairs_seq(), i as int);
                }
                Some(&self.pairs[i].1)
            }
            None => {
                proof {
                    lemma_map_of_dom(self.pairs_seq(), k@);
                    assert forall|j: int|
                        0 <= j < self.pairs_seq().len() implies key_seq(self.pairs_seq())[j]
                        != k@ by {
                        assert(self.keys()[j] != k@);
                    }
                }
                None
            }
        }
    }

    /// Inserts `v` under `k`; an existing entry for `k` is overwritten in
    /// place, a new key is appended at the end.
    pub fn insert(&mut self, k: String, v: V)
        requires
            old(self).wf(),
        ensures
            final(self).wf(),
            final(self).as_map() == old(self).as_map().insert(k@, v),
            final(self).keys() == if old(self).as_map().dom().contains(k@) {
                old(self).keys()
            } else {
                old(self).keys().push(k@)
            },
    {
        proof {
            lemma_map_of_dom(self.pairs_seq(), k@);
        }
        match self.index_of(&k) {
            Some(i) => {
                let ghost old_pairs = self.pairs_seq();
                self.pairs[i].1 = v;
                proof {
                    assert(self.pairs_seq() =~= old_pairs.update(
                        i as int,
                        (old_pairs[i as int].0, v),
                    ));
                    lemma_map_of_update(old_pairs, i as int, (old_pairs[i as int].0, v));
                    assert(self.keys() =~= old(self).keys());
                    assert(self.as_map() =~= old(self).as_map().insert(k@, v));
                }
            }
            None => {
                self.pairs.push((k, v));
                proof {
                    assert(self.pairs_seq().drop_last() =~= old(self).pairs_seq());
                    assert(self.keys() =~= old(self).keys().push(k@));
                    assert(self.values() =~= old(self).values().push(v));
                }
            }
        }
    }

    /// Inserts `v` under the fresh key `k` at its ordered position: a map
    /// whose keys stand in ascending order keeps them so, the way a B-tree
    /// map enumerates.
    pub fn insert_in_order(&mut self, k: String, v: V)
        requires
            old(self).wf(),
            sorted_keys(old(self).keys()),
            !old(self).as_map().dom().contains(k@),
        ensures
            final (self).wf(),
            sorted_keys(final (self).keys()),
            final (self).as_map() == old(self).as_map().insert(k@, v),
            final (self).keys().len() == old(self).keys().len() + 1,
    {
        let ghost kview = k@;
        proof {
            lemma_map_of_dom(self.pairs_seq(), k@);
            assert(forall|j: int| 0 <= j < self.keys().len() ==> self.keys()[j] != kview);
        }
        let n = self.pairs.len();
        let mut i: usize = 0;
        while i < n && str_lt(&self.pairs[i].0, &k)
            invariant
                *self == *old(self),
                kview == k@,
                n == self.pairs_seq().len(),
                i <= n,
                forall|j: int| 0 <= j < i ==> lex_lt(self.keys()[j], kview),
            decreases n - i,
        {
            proof {
                assert(self.keys()[i as int] == self.pairs_seq()[i as int].0@);
            }
            i = i + 1;
        }
        let ghost old_pairs = self.pairs_seq();
        let ghost ok = self.keys();
        proof {
            if i < n {
                assert(ok[i as int] == old_pairs[i as int].0@);
                assert(!lex_lt(ok[i as int], kview));
                lemma_lex_lt_connex(ok[i as int], kview);
                assert(lex_lt(kview, ok[i as int]));
            }
        }
        self.pairs.insert(i, (k, v));
        proof {
            let nk = self.keys();
            assert(self.pairs_seq()[i as int].0@ == kview);
            assert forall|x: int| 0 <= x < nk.len() implies nk[x] == (if x < i {
                ok[x]
            } else if x == i {
                kview
            } else {
                ok[x - 1]
            }) by {
                assert(nk[x] == self.pairs_seq()[x].0@);
                if x < i {
                    assert(self.pairs_seq()[x] == old_pairs[x]);
                    assert(ok[x] == old_pairs[x].0@);
                } else if x > i {
                    assert(self.pairs_seq()[x] == old_pairs[x - 1]);
                    assert(ok[x - 1] == old_pairs[x - 1].0@);
                }
            }
            assert(nk.len() == ok.len() + 1);
            assert forall|x: int, y: int| 0 <= x < y < nk.len() implies lex_lt(nk[x], nk[y]) by {
                if y < i {
                    assert(lex_lt(ok[x], ok[y]));
                } else if y == i {
                    assert(lex_lt(ok[x], kview));
                } else if x < i {
                    assert(lex_lt(ok[x], ok[y - 1]));
                } else if x == i {
                    if y - 1 == i {
                        assert(lex_lt(kview, ok[i as int]));
                    } else {
                        assert(lex_lt(kview, ok[i as int]));
                        assert(lex_lt(ok[i as int], ok[y - 1]));
                        lemma_lex_lt_trans(kview, ok[i as int], ok[y - 1]);
                    }
                } else {
                    assert(lex_lt(ok[x - 1], ok[y - 1]));
                }
            }
            assert forall|x: int, y: int|
                0 <= x < y < nk.len() implies #[trigger] nk[x] != #[trigger] nk[y] by {
                assert(lex_lt(nk[x], nk[y]));
                if nk[x] == nk[y] {
                    lemma_lex_lt_irrefl(nk[x]);
                }
            }
            lemma_map_of_insert_at(old_pairs, i as int, self.pairs_seq()[i as int]);
        }
    }

    /// The key of the pair at position `i`.
    pub fn key_at(&self, i: usize) -> (k: &String)
        requires
            i < self.keys().len(),
        ensures
            k@ == self.keys()[i as int],
    {
        &self.pairs[i].0
    }

    /// The value of the pair at position `i`.
    pub fn value_at(&self, i: usize) -> (v: &V)
        requires
            i < self.values().len(),
        ensures
            *v == self.values()[i as int],
    {
        &self.pairs[i].1
    }

    /// Relates positional access to the mapping: under well-formedness the
    /// pair at position `i` is what `as_map` holds for its key.
    pub proof fn lemma_pair_at(&self, i: int)
        requires
            self.wf(),
            0 <= i < self.keys().len(),
        ensures
            self.as_map().dom().contains(self.keys()[i]),
            self.as_map()[self.keys()[i]] == self.values()[i],
    {
        lemma_map_of_index(self.pairs_seq(), i);
    }

    /// Every key in the mapping comes from some position.
    pub proof fn lemma_dom_keys(&self, k: Seq<char>)
        ensures
            self.as_map().dom().contains(k) <==> exists|i: int|
                0 <= i < self.keys().len() && self.keys()[i] == k,
    {
        lemma_map_of_dom(self.pairs_seq(), k);
        if self.as_map().dom().contains(k) {
            let i = choose|i: int|
                0 <= i < self.pairs_seq().len() && key_seq(self.pairs_seq())[i] == k;
            assert(self.keys()[i] == k);
        }
        if exists|i: int| 0 <= i < self.keys().len() && self.keys()[i] == k {
            let i = choose|i: int| 0 <= i < self.keys().len() && self.keys()[i] == k;
            assert(key_seq(self.pairs_seq())[i] == k);
        }
    }
}

/// Replacing the pair at `i` with one carrying the same key updates the
/// denoted mapping at that key.
proof fn lemma_map_of_update<V>(s: Seq<(String, V)>, i: int, p: (String, V))
    requires
        distinct_keys(s),
        0 <= i < s.len(),
        p.0@ == s[i].0@,
    ensures
        map_of(s.update(i, p)) == map_of(s).insert(p.0@, p.1),
    decreases s.len(),
{
    let t = s.update(i, p);
    if i == s.len() - 1 {
        assert(t.drop_last() =~= s.drop_last());
        assert(t.last() == p);
        assert(map_of(t) == map_of(s.drop_last()).insert(p.0@, p.1));
        assert(map_of(s).insert(p.0@, p.1) =~= map_of(s.drop_last()).insert(
            p.0@,
            p.1,
        ));
    } else {
        lemma_distinct_drop_last(s);
        assert(t.drop_last() =~= s.drop_last().update(i, p));
        lemma_map_of_update(s.drop_last(), i, p);
        assert(t.last() == s.last());
        assert(key_seq(s)[i] != key_seq(s)[s.len() - 1]);
        assert(p.0@ != s.last().0@);
        assert(map_of(t) == map_of(s.drop_last()).insert(p.0@, p.1).insert(
            s.last().0@,
            s.last().1,
        ));
        assert(map_of(s.drop_last()).insert(p.0@, p.1).insert(s.last().0@, s.last().1)
            =~= map_of(s.drop_last()).insert(s.last().0@, s.last().1).insert(p.0@, p.1));
    }
}

/// Inserting a pair with a fresh key at any position adds exactly that
/// entry to the denoted mapping.
proof fn lemma_map_of_insert_at<V>(s: Seq<(String, V)>, i: int, p: (String, V))
    requires
        0 <= i <= s.len(),
        forall|j: int| 0 <= j < s.len() ==> key_seq(s)[j] != p.0@,
    ensures
        map_of(s.insert(i, p)) == map_of(s).insert(p.0@, p.1),
    decreases s.len(),
{
    let t = s.insert(i, p);
    if i == s.len() {
        assert(t =~= s.push(p));
        assert(t.drop_last() =~= s);
        assert(t.last() == p);
    } else {
        let d = s.drop_last();
        assert(forall|j: int| 0 <= j < d.len() ==> key_seq(d)[j] == key_seq(s)[j]);
        lemma_map_of_insert_at(d, i, p);
        assert(t.drop_last() =~= d.insert(i, p));
        assert(t.last() == s.last());
        assert(map_of(t) == map_of(d).insert(p.0@, p.1).insert(s.last().0@, s.last().1));
        assert(key_seq(s)[s.len() - 1] == s.last().0@);
        assert(p.0@ != s.last().0@);
        assert(map_of(d).insert(p.0@, p.1).insert(s.last().0@, s.last().1) =~= map_of(
            d,
        ).insert(s.last().0@, s.last().1).insert(p.0@, p.1));
    }
}

} // verus!
