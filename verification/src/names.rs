//! Small string-keyed tables used by the compiler: a map with first-match
//! lookup and a set. Insertion replaces an existing entry, so a key occurs
//! at most once.
use vstd::prelude::*;

verus! {

/// Value of the first entry whose key has the view `key`.
pub(crate) open spec fn map_get<V>(entries: Seq<(String, V)>, key: Seq<char>) -> Option<V>
    decreases entries.len(),
{
    if entries.len() == 0 {
        None
    } else if entries[0].0@ == key {
        Some(entries[0].1)
    } else {
        map_get(entries.drop_first(), key)
    }
}

/// Index of the first entry whose key has the view `key`, if any.
pub(crate) open spec fn map_index<V>(entries: Seq<(String, V)>, key: Seq<char>) -> Option<int>
    decreases entries.len(),
{
    if entries.len() == 0 {
        None
    } else if entries[0].0@ == key {
        Some(0)
    } else {
        match map_index(entries.drop_first(), key) {
            Some(i) => Some(i + 1),
            None => None,
        }
    }
}

pub(crate) proof fn lemma_map_index<V>(entries: Seq<(String, V)>, key: Seq<char>)
    ensures
        match map_index(entries, key) {
            Some(i) => 0 <= i < entries.len() && entries[i].0@ == key && map_get(entries, key) == Some(
                entries[i].1,
            ) && forall|j: int| 0 <= j < i ==> entries[j].0@ != key,
            None => map_get(entries, key) is None && forall|j: int|
                0 <= j < entries.len() ==> entries[j].0@ != key,
        },
    decreases entries.len(),
{
    if entries.len() > 0 {
        lemma_map_index(entries.drop_first(), key);
        if entries[0].0@ != key {
            match map_index(entries.drop_first(), key) {
                Some(i) => {
                    assert forall|j: int| 0 <= j < i + 1 implies entries[j].0@ != key by {
                        if j > 0 {
                            assert(entries[j] == entries.drop_first()[j - 1]);
                        }
                    }
                },
                None => {
                    assert forall|j: int| 0 <= j < entries.len() implies entries[j].0@ != key by {
                        if j > 0 {
                            assert(entries[j] == entries.drop_first()[j - 1]);
                        }
                    }
                },
            }
        }
    }
}

/// Every value of the table is below `bound`.
pub(crate) open spec fn values_below(entries: Seq<(String, u16)>, bound: int) -> bool {
    forall|i: int| 0 <= i < entries.len() ==> (#[trigger] entries[i]).1 < bound
}

/// A string-keyed table.
pub(crate) struct NameMap<V> {
    pub(crate) entries: Vec<(String, V)>,
}

impl<V: Copy> NameMap<V> {
    pub(crate) open spec fn get_spec(&self, key: Seq<char>) -> Option<V> {
        map_get(self.entries@, key)
    }

    /// An empty table.
    pub(crate) fn new() -> (r: NameMap<V>)
        ensures
            r.entries@.len() == 0,
    {
        NameMap { entries: Vec::new() }
    }

    fn find(&self, key: &String) -> (r: Option<usize>)
        ensures
            r matches Some(i) ==> map_index(self.entries@, key@) == Some(i as int),
            r is None ==> map_index(self.entries@, key@) is None,
    {
        proof { lemma_map_index(self.entries@, key@); }
        let mut i: usize = 0;
        while i < self.entries.len()
            invariant
                i <= self.entries.len(),
                forall|j: int| 0 <= j < i ==> self.entries@[j].0@ != key@,
                match map_index(self.entries@, key@) {
                    Some(k) => 0 <= k < self.entries@.len() && self.entries@[k].0@ == key@ && forall|j: int|
                        0 <= j < k ==> self.entries@[j].0@ != key@,
                    None => forall|j: int| 0 <= j < self.entries@.len() ==> self.entries@[j].0@ != key@,
                },
            decreases self.entries.len() - i,
        {
            if self.entries[i].0 == *key {
                return Some(i);
            }
            i = i + 1;
        }
        None
    }

    /// Value stored for `key`.
    pub(crate) fn get(&self, key: &String) -> (r: Option<V>)
        ensures
            r == self.get_spec(key@),
            r matches Some(v) ==> exists|i: int| 0 <= i < self.entries@.len() && self.entries@[i].1 == v,
    {
        proof { lemma_map_index(self.entries@, key@); }
        match self.find(key) {
            Some(i) => Some(self.entries[i].1),
            None => None,
        }
    }

    /// Whether `key` has a value.
    pub(crate) fn contains_key(&self, key: &String) -> (r: bool)
        ensures
            r == self.get_spec(key@) is Some,
    {
        proof { lemma_map_index(self.entries@, key@); }
        self.find(key).is_some()
    }

    /// Stores `v` under `key`, returning the value it replaces.
    pub(crate) fn insert(&mut self, key: String, v: V) -> (r: Option<V>)
        ensures
            r == old(self).get_spec(key@),
            final(self).get_spec(key@) == Some(v),
            forall|k: Seq<char>| k != key@ ==> final(self).get_spec(k) == old(self).get_spec(k),
            final(self).entries@.len() <= old(self).entries@.len() + 1,
            forall|j: int|
                0 <= j < final(self).entries@.len() ==> (final(self).entries@[j].1 == v || (j < old(
                    self,
                ).entries@.len() && final(self).entries@[j].1 == old(self).entries@[j].1)),
    {
        let ghost e0 = self.entries@;
        proof { lemma_map_index(e0, key@); }
        match self.find(&key) {
            Some(i) => {
                let old_v = self.entries[i].1;
                self.entries.set(i, (key, v));
                proof {
                    let e1 = self.entries@;
                    assert forall|k: Seq<char>| k != key@ implies map_get(e1, k) == map_get(e0, k) by {
                        lemma_map_get_update(e0, i as int, (e1[i as int].0, v), k);
                    }
                    lemma_map_get_update(e0, i as int, (e1[i as int].0, v), key@);
                    assert(e1 == e0.update(i as int, (e1[i as int].0, v)));
                    lemma_map_get_first(e1, i as int);
                }
                Some(old_v)
            },
            None => {
                let ghost kv = key@;
                self.entries.push((key, v));
                proof {
                    lemma_map_get_push(e0, self.entries@[e0.len() as int], kv);
                    assert(self.entries@ == e0.push(self.entries@[e0.len() as int]));
                    assert forall|k: Seq<char>| k != kv implies map_get(self.entries@, k) == map_get(e0, k) by {
                        lemma_map_get_push(e0, self.entries@[e0.len() as int], k);
                    }
                }
                None
            },
        }
    }

}

impl NameMap<u16> {
    /// Deletes the entry of `key`, returning its value.
    pub(crate) fn remove(&mut self, key: &String) -> (r: Option<u16>)
        ensures
            r == old(self).get_spec(key@),
            forall|b: int| values_below(old(self).entries@, b) ==> values_below(final(self).entries@, b),
    {
        proof { lemma_map_index(self.entries@, key@); }
        let ghost e0 = self.entries@;
        match self.find(key) {
            Some(i) => {
                let e = self.entries.remove(i);
                proof {
                    assert forall|b: int| values_below(e0, b) implies values_below(self.entries@, b) by {
                        assert forall|j: int| 0 <= j < self.entries@.len() implies (#[trigger] self.entries@[j]).1 < b by {
                            if j < i {
                                assert(self.entries@[j] == e0[j]);
                            } else {
                                assert(self.entries@[j] == e0[j + 1]);
                            }
                        }
                    }
                }
                Some(e.1)
            },
            None => {

                None
            },
        }
    }
}

proof fn lemma_map_get_update<V>(e: Seq<(String, V)>, i: int, x: (String, V), k: Seq<char>)
    requires
        0 <= i < e.len(),
        x.0@ == e[i].0@,
        map_index(e, x.0@) == Some(i),
    ensures
        k != x.0@ ==> map_get(e.update(i, x), k) == map_get(e, k),
        k == x.0@ ==> map_get(e.update(i, x), k) == Some(x.1),
    decreases e.len(),
{
    if i == 0 {
        assert(e.update(i, x).drop_first() =~= e.drop_first());
    } else {
        assert(e.update(i, x).drop_first() =~= e.drop_first().update(i - 1, x));
        assert(e[0].0@ != x.0@);
        lemma_map_get_update(e.drop_first(), i - 1, x, k);
    }
}

proof fn lemma_map_get_first<V>(e: Seq<(String, V)>, i: int)
    requires
        0 <= i < e.len(),
        forall|j: int| 0 <= j < i ==> e[j].0@ != e[i].0@,
    ensures
        map_get(e, e[i].0@) == Some(e[i].1),
    decreases e.len(),
{
    if i > 0 {
        assert forall|j: int| 0 <= j < i - 1 implies (#[trigger] e.drop_first()[j]).0@ != e.drop_first()[i - 1].0@ by {
            assert(e.drop_first()[j] == e[j + 1]);
        }
        lemma_map_get_first(e.drop_first(), i - 1);
    }
}

proof fn lemma_map_get_push<V>(e: Seq<(String, V)>, x: (String, V), k: Seq<char>)
    requires
        map_get(e, x.0@) is None,
    ensures
        k != x.0@ ==> map_get(e.push(x), k) == map_get(e, k),
        k == x.0@ ==> map_get(e.push(x), k) == Some(x.1),
    decreases e.len(),
{
    if e.len() > 0 {
        assert(e.push(x).drop_first() =~= e.drop_first().push(x));
        lemma_map_get_push(e.drop_first(), x, k);
    } else {
        assert(e.push(x).drop_first() =~= e);
    }
}

/// Whether `s` holds a string with the same characters as `key`.
pub(crate) fn set_contains(s: &Vec<String>, key: &String) -> (r: bool)
    ensures
        r == (exists|i: int| 0 <= i < s@.len() && s@[i]@ == key@),
{
    let mut i: usize = 0;
    while i < s.len()
        invariant
            i <= s.len(),
            forall|j: int| 0 <= j < i ==> s@[j]@ != key@,
        decreases s.len() - i,
    {
        if s[i] == *key {
            return true;
        }
        i = i + 1;
    }
    false
}

/// Adds `key` to the set unless a string with the same characters is present.
pub(crate) fn set_insert(s: &mut Vec<String>, key: String)
    ensures
        exists|i: int| 0 <= i < final(s)@.len() && final(s)@[i]@ == key@,
        forall|i: int| 0 <= i < old(s)@.len() ==> final(s)@[i] == old(s)@[i],
        final(s)@.len() <= old(s)@.len() + 1,
        final(s)@.len() >= old(s)@.len(),
        forall|i: int| old(s)@.len() <= i < final(s)@.len() ==> final(s)@[i]@ == key@,
{
    if !set_contains(s, &key) {
        s.push(key);
        assert(s@[s@.len() - 1]@ == key@);
    }
}

/// Lexicographic order of character sequences by code point (the order of
/// `String`'s `Ord`: UTF-8 byte order is code-point order).
pub open spec fn seq_lt(a: Seq<char>, b: Seq<char>) -> bool
    decreases a.len(),
{
    if a.len() == 0 {
        b.len() > 0
    } else if b.len() == 0 {
        false
    } else if a[0] < b[0] {
        true
    } else if a[0] == b[0] {
        seq_lt(a.drop_first(), b.drop_first())
    } else {
        false
    }
}

/// The strings are in name order: none sorts before one ahead of it.
pub open spec fn names_sorted(s: Seq<String>) -> bool {
    forall|i: int, j: int| 0 <= i < j < s.len() ==> !seq_lt(#[trigger] s[j]@, #[trigger] s[i]@)
}

/// The names of `(name, index)` pairs, in order.
pub open spec fn pair_names(s: Seq<(String, u16)>) -> Seq<String> {
    s.map_values(|p: (String, u16)| p.0)
}

/// `seq_lt` is asymmetric.
proof fn lemma_seq_lt_asym(a: Seq<char>, b: Seq<char>)
    ensures
        seq_lt(a, b) ==> !seq_lt(b, a),
    decreases a.len(),
{
    if a.len() > 0 && b.len() > 0 && a[0] == b[0] {
        lemma_seq_lt_asym(a.drop_first(), b.drop_first());
    }
}

/// `seq_lt` is transitive.
proof fn lemma_seq_lt_trans(a: Seq<char>, b: Seq<char>, c: Seq<char>)
    requires
        seq_lt(a, b),
        seq_lt(b, c),
    ensures
        seq_lt(a, c),
    decreases a.len(),
{
    if a.len() > 0 && a[0] == b[0] && b[0] == c[0] {
        lemma_seq_lt_trans(a.drop_first(), b.drop_first(), c.drop_first());
    }
}

/// Any two sequences are equal or ordered one way.
proof fn lemma_seq_lt_total(a: Seq<char>, b: Seq<char>)
    ensures
        a == b || seq_lt(a, b) || seq_lt(b, a),
    decreases a.len(),
{
    if a.len() == 0 && b.len() == 0 {
        assert(a =~= b);
    } else if a.len() > 0 && b.len() > 0 && a[0] != b[0] {
    } else if a.len() > 0 && b.len() > 0 {
        let da = a.drop_first();
        let db = b.drop_first();
        lemma_seq_lt_total(da, db);
        assert(da.len() == a.len() - 1 && db.len() == b.len() - 1);
        if da == db {
            assert(a.len() == b.len());
            assert forall|i: int| 0 <= i < a.len() implies a[i] == b[i] by {
                if i > 0 {
                    assert(a[i] == a.drop_first()[i - 1]);
                    assert(b[i] == b.drop_first()[i - 1]);
                }
            }
            assert(a =~= b);
        }
    }
}

/// In name order, an element that does not sort after the last of a sorted
/// prefix does not sort after any of them.
proof fn lemma_not_before_prefix(r: Seq<String>, x: Seq<char>, k: int, p: int)
    requires
        0 <= p < k <= r.len(),
        forall|a: int, b: int| 0 <= a < b < k ==> !seq_lt(#[trigger] r[b]@, #[trigger] r[a]@),
        !seq_lt(x, r[k - 1]@),
    ensures
        !seq_lt(x, r[p]@),
{
    if seq_lt(x, r[p]@) && p < k - 1 {
        assert(!seq_lt(r[k - 1]@, r[p]@));
        lemma_seq_lt_total(r[p]@, r[k - 1]@);
        if r[p]@ != r[k - 1]@ {
            lemma_seq_lt_trans(x, r[p]@, r[k - 1]@);
        }
    }
}

/// Whether `a` sorts before `b`.
pub(crate) fn str_lt(a: &str, b: &str) -> (r: bool)
    ensures
        r == seq_lt(a@, b@),
{
    let n = a.unicode_len();
    let m = b.unicode_len();
    let mut i: usize = 0;
    proof {
        assert(a@.skip(0) =~= a@);
        assert(b@.skip(0) =~= b@);
    }
    while i < n && i < m
        invariant
            n == a@.len(),
            m == b@.len(),
            i <= n,
            i <= m,
            seq_lt(a@.skip(i as int), b@.skip(i as int)) == seq_lt(a@, b@),
        decreases n - i,
    {
        let ca = a.get_char(i);
        let cb = b.get_char(i);
        assert(a@.skip(i as int)[0] == ca);
        assert(b@.skip(i as int)[0] == cb);
        if ca < cb {
            return true;
        }
        if ca != cb {
            return false;
        }
        assert(a@.skip(i as int).drop_first() =~= a@.skip(i as int + 1));
        assert(b@.skip(i as int).drop_first() =~= b@.skip(i as int + 1));
        i = i + 1;
    }
    i == n && i < m
}

/// Sorts strings into name order (`seq_lt`; stable insertion sort): the
/// result is a rearrangement of the input.
pub(crate) fn sort_strings(v: &mut Vec<String>)
    ensures
        final(v)@.len() == old(v)@.len(),
        final(v)@.to_multiset() == old(v)@.to_multiset(),
        names_sorted(final(v)@),
        forall|i: int| 0 <= i < final(v)@.len() ==> old(v)@.contains(#[trigger] final(v)@[i]),
{
    broadcast use vstd::seq_lib::group_to_multiset_ensures;

    let ghost v0 = v@;
    let mut i: usize = 1;
    while i < v.len()
        invariant
            v0 == old(v)@,
            v@.len() == v0.len(),
            i >= 1,
            v@.to_multiset() == v0.to_multiset(),
            forall|p: int, q: int| 0 <= p < q < v@.len() && q < i ==> !seq_lt(#[trigger] v@[q]@, #[trigger] v@[p]@),
        decreases v@.len() - i,
    {
        let ghost before = v@;
        let x = v.remove(i);
        let ghost r = v@;
        assert(r == before.remove(i as int));
        let mut k: usize = i;
        while k > 0 && str_lt(x.as_str(), v[k - 1].as_str())
            invariant
                k <= i,
                i <= v@.len(),
                v@ == r,
                forall|p: int| k <= p < i ==> seq_lt(x@, #[trigger] r[p]@),
            decreases k,
        {
            k = k - 1;
        }
        v.insert(k, x);
        proof {
            let w = v@;
            assert(w == r.insert(k as int, x));
            assert(x == before[i as int]);
            assert(before.contains(before[i as int]));
            vstd::seq_lib::to_multiset_contains(before, x);
            assert(before.to_multiset().count(x) > 0);
            assert(before.to_multiset().remove(x).insert(x) =~= before.to_multiset()) by {
                broadcast use vstd::multiset::group_multiset_axioms;
            }
            vstd::seq_lib::to_multiset_remove(before, i as int);
            vstd::seq_lib::to_multiset_insert(r, k as int, x);
            assert(r.to_multiset() == before.to_multiset().remove(x));
            assert(r.insert(k as int, x).to_multiset() == r.to_multiset().insert(x));
            assert(w.to_multiset() == v0.to_multiset());
            assert forall|a: int, b: int| 0 <= a < b < i implies !seq_lt(#[trigger] r[b]@, #[trigger] r[a]@) by {
                assert(r[a] == before[a] && r[b] == before[b]);
            }
            assert forall|p: int, q: int| 0 <= p < q < w.len() && q < i + 1 implies !seq_lt(#[trigger] w[q]@, #[trigger] w[p]@) by {
                if q < k {
                    assert(w[p] == r[p] && w[q] == r[q]);
                } else if q == k {
                    assert(w[p] == r[p]);
                    lemma_not_before_prefix(r, x@, k as int, p);
                } else if p < k {
                    assert(w[p] == r[p] && w[q] == r[q - 1]);
                } else if p == k {
                    assert(w[q] == r[q - 1]);
                    lemma_seq_lt_asym(x@, r[q - 1]@);
                } else {
                    assert(w[p] == r[p - 1] && w[q] == r[q - 1]);
                }
            }
        }
        i = i + 1;
    }
    proof {
        assert forall|p: int| 0 <= p < v@.len() implies v0.contains(#[trigger] v@[p]) by {
            assert(v@.to_multiset().count(v@[p]) > 0);
        }
    }
}

/// Sorts `(name, value)` pairs by value (stable insertion sort): the result is a rearrangement of the input.
pub(crate) fn sort_pairs_by_value(v: &mut Vec<(String, u16)>)
    ensures
        final(v)@.len() == old(v)@.len(),
        final(v)@.to_multiset() == old(v)@.to_multiset(),
        forall|a: int, b: int| 0 <= a < b < final(v)@.len() ==> (#[trigger] final(v)@[a]).1 <= (#[trigger] final(v)@[b]).1,
        forall|i: int| 0 <= i < final(v)@.len() ==> old(v)@.contains(#[trigger] final(v)@[i]),
{
    broadcast use vstd::seq_lib::group_to_multiset_ensures;

    let ghost v0 = v@;
    let mut i: usize = 1;
    while i < v.len()
        invariant
            v0 == old(v)@,
            v@.len() == v0.len(),
            i >= 1,
            v@.to_multiset() == v0.to_multiset(),
            forall|a: int, b: int| 0 <= a < b < v@.len() && b < i ==> (#[trigger] v@[a]).1 <= (#[trigger] v@[b]).1,
        decreases v@.len() - i,
    {
        let ghost before = v@;
        let x = v.remove(i);
        let ghost r = v@;
        assert(r == before.remove(i as int));
        let mut k: usize = i;
        while k > 0 && x.1 < v[k - 1].1
            invariant
                k <= i,
                i <= v@.len(),
                v@ == r,
                forall|p: int| k <= p < i ==> x.1 < (#[trigger] r[p]).1,
            decreases k,
        {
            k = k - 1;
        }
        v.insert(k, x);
        proof {
            let w = v@;
            assert(w == r.insert(k as int, x));
            assert(x == before[i as int]);
            assert(before.contains(before[i as int]));
            vstd::seq_lib::to_multiset_contains(before, x);
            assert(before.to_multiset().remove(x).insert(x) =~= before.to_multiset()) by {
                broadcast use vstd::multiset::group_multiset_axioms;
            }
            vstd::seq_lib::to_multiset_remove(before, i as int);
            vstd::seq_lib::to_multiset_insert(r, k as int, x);
            assert(w.to_multiset() == v0.to_multiset());
            assert forall|a: int, b: int| 0 <= a < b < i implies (#[trigger] r[a]).1 <= (#[trigger] r[b]).1 by {
                assert(r[a] == before[a] && r[b] == before[b]);
            }
            assert forall|a: int, b: int| 0 <= a < b < w.len() && b < i + 1 implies (#[trigger] w[a]).1 <= (#[trigger] w[b]).1 by {
                if b < k {
                    assert(w[a] == r[a] && w[b] == r[b]);
                } else if b == k {
                    assert(w[a] == r[a]);
                    assert(r[k - 1].1 <= x.1);
                    if a < k - 1 {
                        assert(r[a].1 <= r[k - 1].1);
                    }
                } else if a < k {
                    assert(w[a] == r[a] && w[b] == r[b - 1]);
                } else if a == k {
                    assert(w[b] == r[b - 1]);
                } else {
                    assert(w[a] == r[a - 1] && w[b] == r[b - 1]);
                }
            }
        }
        i = i + 1;
    }
    proof {
        assert forall|p: int| 0 <= p < v@.len() implies v0.contains(#[trigger] v@[p]) by {
            vstd::seq_lib::to_multiset_contains(v@, v@[p]);
            vstd::seq_lib::to_multiset_contains(v0, v@[p]);
        }
    }
}

/// Sorts `(name, slot, mutable)` captures by slot (stable insertion sort): the result is a rearrangement of the input.
pub(crate) fn sort_captures_by_slot(v: &mut Vec<(String, u16, bool)>)
    ensures
        final(v)@.len() == old(v)@.len(),
        final(v)@.to_multiset() == old(v)@.to_multiset(),
        forall|a: int, b: int| 0 <= a < b < final(v)@.len() ==> (#[trigger] final(v)@[a]).1 <= (#[trigger] final(v)@[b]).1,
        forall|i: int| 0 <= i < final(v)@.len() ==> old(v)@.contains(#[trigger] final(v)@[i]),
{
    broadcast use vstd::seq_lib::group_to_multiset_ensures;

    let ghost v0 = v@;
    let mut i: usize = 1;
    while i < v.len()
        invariant
            v0 == old(v)@,
            v@.len() == v0.len(),
            i >= 1,
            v@.to_multiset() == v0.to_multiset(),
            forall|a: int, b: int| 0 <= a < b < v@.len() && b < i ==> (#[trigger] v@[a]).1 <= (#[trigger] v@[b]).1,
        decreases v@.len() - i,
    {
        let ghost before = v@;
        let x = v.remove(i);
        let ghost r = v@;
        assert(r == before.remove(i as int));
        let mut k: usize = i;
        while k > 0 && x.1 < v[k - 1].1
            invariant
                k <= i,
                i <= v@.len(),
                v@ == r,
                forall|p: int| k <= p < i ==> x.1 < (#[trigger] r[p]).1,
            decreases k,
        {
            k = k - 1;
        }
        v.insert(k, x);
        proof {
            let w = v@;
            assert(w == r.insert(k as int, x));
            assert(x == before[i as int]);
            assert(before.contains(before[i as int]));
            vstd::seq_lib::to_multiset_contains(before, x);
            assert(before.to_multiset().remove(x).insert(x) =~= before.to_multiset()) by {
                broadcast use vstd::multiset::group_multiset_axioms;
            }
            vstd::seq_lib::to_multiset_remove(before, i as int);
            vstd::seq_lib::to_multiset_insert(r, k as int, x);
            assert(w.to_multiset() == v0.to_multiset());
            assert forall|a: int, b: int| 0 <= a < b < i implies (#[trigger] r[a]).1 <= (#[trigger] r[b]).1 by {
                assert(r[a] == before[a] && r[b] == before[b]);
            }
            assert forall|a: int, b: int| 0 <= a < b < w.len() && b < i + 1 implies (#[trigger] w[a]).1 <= (#[trigger] w[b]).1 by {
                if b < k {
                    assert(w[a] == r[a] && w[b] == r[b]);
                } else if b == k {
                    assert(w[a] == r[a]);
                    assert(r[k - 1].1 <= x.1);
                    if a < k - 1 {
                        assert(r[a].1 <= r[k - 1].1);
                    }
                } else if a < k {
                    assert(w[a] == r[a] && w[b] == r[b - 1]);
                } else if a == k {
                    assert(w[b] == r[b - 1]);
                } else {
                    assert(w[a] == r[a - 1] && w[b] == r[b - 1]);
                }
            }
        }
        i = i + 1;
    }
    proof {
        assert forall|p: int| 0 <= p < v@.len() implies v0.contains(#[trigger] v@[p]) by {
            vstd::seq_lib::to_multiset_contains(v@, v@[p]);
            vstd::seq_lib::to_multiset_contains(v0, v@[p]);
        }
    }
}

} // verus!
