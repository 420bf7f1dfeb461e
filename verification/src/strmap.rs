//! A string-keyed map kept in key order, as `BTreeMap<String, V>` keeps it:
//! keys are distinct and iteration visits them in ascending order of their
//! characters (which is the byte order of their UTF-8 encoding).
use crate::text::chars_of;
use vstd::prelude::*;

verus! {

/// Strict lexicographic order on character sequences, by code point.
pub open spec fn key_lt(a: Seq<char>, b: Seq<char>) -> bool
    decreases a.len(),
{
    if a.len() == 0 {
        b.len() > 0
    } else if b.len() == 0 {
        false
    } else if a[0] < b[0] {
        true
    } else if a[0] > b[0] {
        false
    } else {
        key_lt(a.drop_first(), b.drop_first())
    }
}

/// No key is below itself.
pub proof fn lemma_key_lt_irreflexive(a: Seq<char>)
    ensures
        !key_lt(a, a),
    decreases a.len(),
{
    if a.len() > 0 {
        lemma_key_lt_irreflexive(a.drop_first());
    }
}

/// The order is transitive.
pub proof fn lemma_key_lt_transitive(a: Seq<char>, b: Seq<char>, c: Seq<char>)
    requires
        key_lt(a, b),
        key_lt(b, c),
    ensures
        key_lt(a, c),
    decreases a.len(),
{
    if a.len() > 0 && b.len() > 0 && c.len() > 0 {
        if a[0] == b[0] && b[0] == c[0] {
            lemma_key_lt_transitive(a.drop_first(), b.drop_first(), c.drop_first());
        }
    }
}

/// Two different keys are ordered one way or the other.
pub proof fn lemma_key_lt_total(a: Seq<char>, b: Seq<char>)
    requires
        a != b,
    ensures
        key_lt(a, b) || key_lt(b, a),
    decreases a.len(),
{
    if a.len() > 0 && b.len() > 0 {
        if a[0] == b[0] {
            if a.drop_first() == b.drop_first() {
                assert(a =~= seq![a[0]] + a.drop_first());
                assert(b =~= seq![b[0]] + b.drop_first());
            }
            lemma_key_lt_total(a.drop_first(), b.drop_first());
        }
    } else if a.len() == 0 && b.len() == 0 {
        assert(a =~= b);
    }
}

/// The order is asymmetric.
pub proof fn lemma_key_lt_asymmetric(a: Seq<char>, b: Seq<char>)
    requires
        key_lt(a, b),
    ensures
        !key_lt(b, a),
{
    if key_lt(b, a) {
        lemma_key_lt_transitive(a, b, a);
        lemma_key_lt_irreflexive(a);
    }
}

/// How two keys compare.
#[derive(Debug, Clone, Copy, PartialEq, Eq, Structural)]
pub enum KeyOrder {
    Below,
    Same,
    Above,
}

/// Compares two keys.
pub fn compare_keys(a: &[char], b: &[char]) -> (r: KeyOrder)
    ensures
        r == KeyOrder::Below <==> key_lt(a@, b@),
        r == KeyOrder::Same <==> a@ == b@,
        r == KeyOrder::Above <==> key_lt(b@, a@),
{
    let n = a.len();
    let m = b.len();
    let mut i: usize = 0;
    assert(a@.skip(0) =~= a@);
    assert(b@.skip(0) =~= b@);
    while i < n && i < m
        invariant
            n == a@.len(),
            m == b@.len(),
            i <= n,
            i <= m,
            a@.take(i as int) == b@.take(i as int),
            key_lt(a@, b@) == key_lt(a@.skip(i as int), b@.skip(i as int)),
            key_lt(b@, a@) == key_lt(b@.skip(i as int), a@.skip(i as int)),
        decreases n - i,
    {
        let x = a[i];
        let y = b[i];
        assert(a@.skip(i as int)[0] == a@[i as int]);
        assert(b@.skip(i as int)[0] == b@[i as int]);
        if x < y {
            proof {
                lemma_key_lt_asymmetric(a@, b@);
            }
            assert(a@ != b@);
            return KeyOrder::Below;
        }
        if x > y {
            proof {
                lemma_key_lt_asymmetric(b@, a@);
            }
            assert(a@ != b@);
            return KeyOrder::Above;
        }
        assert(a@.skip(i as int).drop_first() =~= a@.skip(i + 1));
        assert(b@.skip(i as int).drop_first() =~= b@.skip(i + 1));
        assert(a@.take(i + 1) =~= a@.take(i as int).push(a@[i as int]));
        assert(b@.take(i + 1) =~= b@.take(i as int).push(b@[i as int]));
        i = i + 1;
    }
    if n == m {
        assert(a@ =~= a@.take(i as int));
        assert(b@ =~= b@.take(i as int));
        proof {
            lemma_key_lt_irreflexive(a@);
        }
        KeyOrder::Same
    } else if n < m {
        assert(a@.skip(i as int).len() == 0);
        proof {
            lemma_key_lt_asymmetric(a@, b@);
        }
        KeyOrder::Below
    } else {
        assert(b@.skip(i as int).len() == 0);
        proof {
            lemma_key_lt_asymmetric(b@, a@);
        }
        KeyOrder::Above
    }
}

/// Whether the entries are in strictly ascending key order.
pub open spec fn sorted<V>(s: Seq<(String, V)>) -> bool {
    forall|i: int, j: int| 0 <= i < j < s.len() ==> key_lt(#[trigger] s[i].0@, #[trigger] s[j].0@)
}

/// Whether some entry has key `k`.
pub open spec fn has_key<V>(s: Seq<(String, V)>, k: Seq<char>) -> bool {
    exists|i: int| 0 <= i < s.len() && #[trigger] s[i].0@ == k
}

/// The value stored under `k`, if any.
pub open spec fn lookup<V>(s: Seq<(String, V)>, k: Seq<char>) -> Option<V> {
    if has_key(s, k) {
        Some(s[choose|i: int| 0 <= i < s.len() && #[trigger] s[i].0@ == k].1)
    } else {
        None
    }
}

/// Where `k` goes in the sorted entries `s`: every key before `p` is below `k`
/// and no key from `p` on is.
pub open spec fn is_slot<V>(s: Seq<(String, V)>, k: Seq<char>, p: int) -> bool {
    &&& 0 <= p <= s.len()
    &&& forall|i: int| 0 <= i < p ==> key_lt(#[trigger] s[i].0@, k)
    &&& forall|i: int| p <= i < s.len() ==> !key_lt(#[trigger] s[i].0@, k)
}

/// `s` with `(k, v)` stored: the entry with key `k` replaced if there is one,
/// else inserted at the slot `p`.
pub open spec fn stored<V>(s: Seq<(String, V)>, p: int, k: String, v: V) -> Seq<(String, V)> {
    if p < s.len() && s[p].0@ == k@ {
        s.update(p, (k, v))
    } else {
        s.insert(p, (k, v))
    }
}

/// A map from strings to `V`, in ascending key order.
#[derive(Debug)]
pub struct StrMap<V> {
    entries: Vec<(String, V)>,
}

impl<V> StrMap<V> {
    #[verifier::type_invariant]
    spec fn well_formed(self) -> bool {
        sorted(self.entries@)
    }

    /// The entries, in ascending key order.
    pub closed spec fn view(&self) -> Seq<(String, V)> {
        self.entries@
    }

    /// An empty map.
    pub fn new() -> (m: Self)
        ensures
            m@ == Seq::<(String, V)>::empty(),
    {
        StrMap { entries: Vec::new() }
    }

    /// The number of entries.
    pub fn len(&self) -> (n: usize)
        ensures
            n == self@.len(),
    {
        self.entries.len()
    }

    /// Whether the map is empty.
    pub fn is_empty(&self) -> (b: bool)
        ensures
            b == (self@.len() == 0),
    {
        self.entries.len() == 0
    }

    /// The key of the `i`-th entry.
    pub fn key_at(&self, i: usize) -> (k: &String)
        requires
            i < self@.len(),
        ensures
            *k == self@[i as int].0,
    {
        &self.entries[i].0
    }

    /// The value of the `i`-th entry.
    pub fn value_at(&self, i: usize) -> (v: &V)
        requires
            i < self@.len(),
        ensures
            *v == self@[i as int].1,
    {
        &self.entries[i].1
    }

    /// The slot of `k`.
    fn slot(&self, k: &[char]) -> (p: usize)
        ensures
            is_slot(self@, k@, p as int),
    {
        proof {
            use_type_invariant(self);
        }
        let n = self.entries.len();
        let mut i: usize = 0;
        while i < n
            invariant
                n == self.entries@.len(),
                i <= n,
                sorted(self.entries@),
                forall|j: int| 0 <= j < i ==> key_lt(#[trigger] self.entries@[j].0@, k@),
            decreases n - i,
        {
            let key = chars_of(self.entries[i].0.as_str());
            if compare_keys(key.as_slice(), k) != KeyOrder::Below {
                assert forall|j: int| i <= j < n implies !key_lt(#[trigger] self.entries@[j].0@, k@) by {
                    if j > i {
                        assert(key_lt(self.entries@[i as int].0@, self.entries@[j].0@));
                        if key_lt(self.entries@[j].0@, k@) {
                            lemma_key_lt_transitive(
                                self.entries@[i as int].0@,
                                self.entries@[j].0@,
                                k@,
                            );
                        }
                    }
                }
                return i;
            }
            i = i + 1;
        }
        i
    }

    /// The index of the entry with key `k`, if any.
    pub fn find(&self, k: &str) -> (r: Option<usize>)
        ensures
            r is None <==> !has_key(self@, k@),
            r matches Some(i) ==> i < self@.len() && self@[i as int].0@ == k@,
    {
        proof {
            use_type_invariant(self);
        }
        let kc = chars_of(k);
        let p = self.slot(kc.as_slice());
        if p < self.entries.len() {
            let key = chars_of(self.entries[p].0.as_str());
            if compare_keys(key.as_slice(), kc.as_slice()) == KeyOrder::Same {
                return Some(p);
            }
        }
        assert forall|i: int| 0 <= i < self@.len() implies #[trigger] self@[i].0@ != k@ by {
            if i < p {
                lemma_key_lt_irreflexive(k@);
            } else if i > p {
                assert(key_lt(self@[p as int].0@, self@[i].0@));
                if self@[i].0@ == k@ {
                    lemma_key_lt_total(self@[p as int].0@, k@);
                }
            }
        }
        None
    }

    /// The value stored under `k`.
    pub fn get(&self, k: &str) -> (r: Option<&V>)
        ensures
            r is None <==> !has_key(self@, k@),
            forall|i: int| 0 <= i < self@.len() && #[trigger] self@[i].0@ == k@ ==> r == Some(&self@[i].1),
    {
        proof {
            use_type_invariant(self);
        }
        match self.find(k) {
            Some(i) => {
                assert forall|j: int| 0 <= j < self@.len() && #[trigger] self@[j].0@ == k@ implies j == i by {
                    if j < i {
                        assert(key_lt(self@[j].0@, self@[i as int].0@));
                        lemma_key_lt_irreflexive(k@);
                    } else if j > i {
                        assert(key_lt(self@[i as int].0@, self@[j].0@));
                        lemma_key_lt_irreflexive(k@);
                    }
                }
                Some(&self.entries[i].1)
            },
            None => None,
        }
    }

    /// Whether some entry has key `k`.
    pub fn contains_key(&self, k: &str) -> (b: bool)
        ensures
            b == has_key(self@, k@),
    {
        self.find(k).is_some()
    }

    /// Stores `v` under `k`, replacing the value there if any.
    pub fn insert(&mut self, k: String, v: V)
        ensures
            exists|p: int| is_slot(old(self)@, k@, p) && final(self)@ == stored(old(self)@, p, k, v),
            lookup(final(self)@, k@) == Some(v),
            forall|other: Seq<char>|
                other != k@ ==> #[trigger] lookup(final(self)@, other) == lookup(old(self)@, other),
    {
        proof {
            use_type_invariant(&*self);
        }
        let kc = chars_of(k.as_str());
        let p = self.slot(kc.as_slice());
        let ghost old_entries = self.entries@;
        let ghost kk = k;
        let ghost vv = v;
        let mut replace = false;
        if p < self.entries.len() {
            let key = chars_of(self.entries[p].0.as_str());
            replace = compare_keys(key.as_slice(), kc.as_slice()) == KeyOrder::Same;
        }
        let mut entries = Vec::new();
        std::mem::swap(&mut entries, &mut self.entries);
        if replace {
            entries.set(p, (k, v));
        } else {
            entries.insert(p, (k, v));
        }
        proof {
            lemma_stored_sorted(old_entries, p as int, kk, vv);
            lemma_lookup_stored(old_entries, p as int, kk, vv, kk@);
            assert forall|other: Seq<char>| other != kk@ implies #[trigger] lookup(
                stored(old_entries, p as int, kk, vv),
                other,
            ) == lookup(old_entries, other) by {
                lemma_lookup_stored(old_entries, p as int, kk, vv, other);
            }
        }
        self.entries = entries;
        assert(is_slot(old_entries, kk@, p as int));
        assert(self.entries@ == stored(old_entries, p as int, kk, vv));
    }

    /// Stores `v` under `k` only where `k` has no entry yet.
    pub fn insert_if_absent(&mut self, k: String, v: V)
        ensures
            has_key(old(self)@, k@) ==> final(self)@ == old(self)@,
            !has_key(old(self)@, k@) ==> exists|p: int|
                is_slot(old(self)@, k@, p) && final(self)@ == old(self)@.insert(p, (k, v)),
            !has_key(old(self)@, k@) ==> lookup(final(self)@, k@) == Some(v),
            forall|other: Seq<char>|
                other != k@ ==> #[trigger] lookup(final(self)@, other) == lookup(old(self)@, other),
    {
        if !self.contains_key(k.as_str()) {
            let ghost before = self@;
            self.insert(k, v);
            proof {
                let p = choose|p: int| is_slot(before, k@, p) && self@ == stored(before, p, k, v);
                if p < before.len() && before[p].0@ == k@ {
                    assert(has_key(before, k@));
                }
            }
        }
    }

    /// Fills in, from `other`, every key that `self` lacks; keys `self`
    /// already has keep their values.
    pub fn fill_from(&mut self, other: StrMap<V>)
        ensures
            forall|k: Seq<char>|
                #[trigger] lookup(final(self)@, k) == if has_key(old(self)@, k) {
                    lookup(old(self)@, k)
                } else {
                    lookup(other@, k)
                },
    {
        proof {
            use_type_invariant(&other);
        }
        let ghost o = other@;
        let ghost start = self@;
        let mut rest = other.entries;
        let mut j: usize = rest.len();
        assert(o.skip(j as int) =~= Seq::<(String, V)>::empty());
        while j > 0
            invariant
                sorted(o),
                j <= o.len(),
                rest@ == o.take(j as int),
                forall|k: Seq<char>|
                    #[trigger] lookup(self@, k) == if has_key(start, k) {
                        lookup(start, k)
                    } else if has_key(o.skip(j as int), k) {
                        lookup(o, k)
                    } else {
                        None
                    },
            decreases j,
        {
            let (key, value) = rest.pop().unwrap();
            let ghost kk = key@;
            let ghost jj = j - 1;
            assert(o[jj] == (key, value));
            proof {
                lemma_lookup_at(o, jj);
                assert(o.skip(jj) =~= seq![o[jj]] + o.skip(j as int));
                assert forall|k: Seq<char>| k != kk implies has_key(o.skip(jj), k) == has_key(
                    o.skip(j as int),
                    k,
                ) by {
                    if has_key(o.skip(jj), k) {
                        let c = choose|c: int| 0 <= c < o.skip(jj).len() && #[trigger] o.skip(jj)[c].0@ == k;
                        assert(c != 0);
                        assert(o.skip(j as int)[c - 1] == o.skip(jj)[c]);
                    }
                    if has_key(o.skip(j as int), k) {
                        let c = choose|c: int| 0 <= c < o.skip(j as int).len() && #[trigger] o.skip(j as int)[c].0@ == k;
                        assert(o.skip(jj)[c + 1] == o.skip(j as int)[c]);
                    }
                }
                assert(o.skip(jj)[0].0@ == kk);
                assert(has_key(o.skip(jj), kk));
                if has_key(o.skip(j as int), kk) {
                    let c = choose|c: int| 0 <= c < o.skip(j as int).len() && #[trigger] o.skip(j as int)[c].0@ == kk;
                    assert(o[j + c].0@ == kk);
                    lemma_unique(o, j + c, jj);
                }
            }
            let ghost before = self@;
            self.insert_if_absent(key, value);
            proof {
                assert forall|k: Seq<char>|
                    #[trigger] lookup(self@, k) == if has_key(start, k) {
                        lookup(start, k)
                    } else if has_key(o.skip(jj), k) {
                        lookup(o, k)
                    } else {
                        None
                    } by {
                    if k == kk {
                        if has_key(start, kk) {
                            assert(lookup(before, kk) == lookup(start, kk));
                            assert(has_key(before, kk));
                        } else {
                            assert(lookup(before, kk) is None);
                        }
                    }
                }
            }
            j = j - 1;
            assert(rest@ =~= o.take(j as int));
        }
        assert(o.skip(0) =~= o);
    }
}

proof fn lemma_unique<V>(s: Seq<(String, V)>, i: int, j: int)
    requires
        sorted(s),
        0 <= i < s.len(),
        0 <= j < s.len(),
        s[i].0@ == s[j].0@,
    ensures
        i == j,
{
    if i < j {
        assert(key_lt(s[i].0@, s[j].0@));
        lemma_key_lt_irreflexive(s[i].0@);
    } else if j < i {
        assert(key_lt(s[j].0@, s[i].0@));
        lemma_key_lt_irreflexive(s[i].0@);
    }
}

proof fn lemma_lookup_at<V>(s: Seq<(String, V)>, i: int)
    requires
        sorted(s),
        0 <= i < s.len(),
    ensures
        lookup(s, s[i].0@) == Some(s[i].1),
{
    assert(has_key(s, s[i].0@));
    let c = choose|c: int| 0 <= c < s.len() && #[trigger] s[c].0@ == s[i].0@;
    lemma_unique(s, c, i);
}

/// Storing an entry at its slot keeps the entries sorted.
pub proof fn lemma_stored_sorted<V>(s: Seq<(String, V)>, p: int, k: String, v: V)
    requires
        sorted(s),
        is_slot(s, k@, p),
    ensures
        sorted(stored(s, p, k, v)),
{
    let t = stored(s, p, k, v);
    if p < s.len() && s[p].0@ == k@ {
        assert forall|i: int, j: int| 0 <= i < j < t.len() implies key_lt(
            #[trigger] t[i].0@,
            #[trigger] t[j].0@,
        ) by {
            assert(key_lt(s[i].0@, s[j].0@));
        }
    } else {
        assert forall|i: int, j: int| 0 <= i < j < t.len() implies key_lt(
            #[trigger] t[i].0@,
            #[trigger] t[j].0@,
        ) by {
            if j < p {
                assert(key_lt(s[i].0@, s[j].0@));
            } else if j == p {
                assert(key_lt(s[i].0@, k@));
            } else if i == p {
                let o = s[j - 1].0@;
                assert(!key_lt(o, k@));
                if j - 1 == p {
                    assert(o != k@);
                } else {
                    assert(key_lt(s[p].0@, o));
                    if o == k@ {
                        assert(!key_lt(s[p].0@, k@));
                    }
                }
                lemma_key_lt_total(k@, o);
            } else if i < p {
                assert(key_lt(s[i].0@, s[j - 1].0@));
            } else {
                assert(key_lt(s[i - 1].0@, s[j - 1].0@));
            }
        }
    }
}

impl<V: Clone> Clone for StrMap<V> {
    /// A copy with the same keys, in the same order, and cloned values.
    fn clone(&self) -> (r: Self)
        ensures
            r@.len() == self@.len(),
            forall|i: int| 0 <= i < r@.len() ==> (#[trigger] r@[i]).0 == self@[i].0 && cloned::<V>(self@[i].1, r@[i].1),
    {
        proof {
            use_type_invariant(self);
        }
        let n = self.entries.len();
        let mut out: Vec<(String, V)> = Vec::new();
        let mut i: usize = 0;
        while i < n
            invariant
                n == self.entries@.len(),
                i <= n,
                sorted(self.entries@),
                out@.len() == i,
                forall|j: int| 0 <= j < i ==> (#[trigger] out@[j]).0 == self.entries@[j].0 && cloned::<V>(self.entries@[j].1, out@[j].1),
            decreases n - i,
        {
            let k = self.entries[i].0.clone();
            let v = self.entries[i].1.clone();
            out.push((k, v));
            i = i + 1;
        }
        assert(sorted(out@)) by {
            assert forall|a: int, b: int| 0 <= a < b < out@.len() implies key_lt(#[trigger] out@[a].0@, #[trigger] out@[b].0@) by {
                assert(key_lt(self.entries@[a].0@, self.entries@[b].0@));
            }
        }
        StrMap { entries: out }
    }
}

/// After storing `v` under `k`, a lookup of `k` finds `v`, and every other
/// key keeps what it had.
pub proof fn lemma_lookup_stored<V>(s: Seq<(String, V)>, p: int, k: String, v: V, other: Seq<char>)
    requires
        sorted(s),
        is_slot(s, k@, p),
    ensures
        lookup(stored(s, p, k, v), k@) == Some(v),
        other != k@ ==> lookup(stored(s, p, k, v), other) == lookup(s, other),
{
    let t = stored(s, p, k, v);
    let replace = p < s.len() && s[p].0@ == k@;
    lemma_stored_sorted(s, p, k, v);
    lemma_lookup_at(t, p);
    if other != k@ {
        if has_key(s, other) {
            let a = choose|a: int| 0 <= a < s.len() && #[trigger] s[a].0@ == other;
            let b = if replace || a < p {
                a
            } else {
                a + 1
            };
            assert(t[b] == s[a]);
            lemma_lookup_at(t, b);
            lemma_lookup_at(s, a);
        } else if has_key(t, other) {
            let c = choose|c: int| 0 <= c < t.len() && #[trigger] t[c].0@ == other;
            assert(c != p);
            let a2 = if replace || c < p {
                c
            } else {
                c - 1
            };
            assert(s[a2] == t[c]);
            assert(s[a2].0@ == other);
        }
    }
}

/// The characters of each string of a list.
pub open spec fn string_views(v: Seq<String>) -> Seq<Seq<char>> {
    Seq::new(v.len(), |i: int| v[i]@)
}

/// The characters of each string of an optional list.
pub open spec fn opt_views(o: Option<Vec<String>>) -> Option<Seq<Seq<char>>> {
    match o {
        Some(v) => Some(string_views(v@)),
        None => None,
    }
}

/// Whether `s` is in ascending string order.
pub open spec fn ascending(s: Seq<Seq<char>>) -> bool {
    forall|i: int, j: int| 0 <= i < j < s.len() ==> !key_lt(#[trigger] s[j], #[trigger] s[i])
}

/// Whether `a` comes before `b` in string order.
pub fn str_lt(a: &str, b: &str) -> (r: bool)
    ensures
        r == key_lt(a@, b@),
{
    let x = chars_of(a);
    let y = chars_of(b);
    compare_keys(x.as_slice(), y.as_slice()) == KeyOrder::Below
}

/// The strings of `v` in ascending order, as `sort` leaves them.
pub fn sort_strings(v: &Vec<String>) -> (r: Vec<String>)
    ensures
        string_views(r@).to_multiset() == string_views(v@).to_multiset(),
        ascending(string_views(r@)),
{
    broadcast use vstd::seq_lib::group_to_multiset_ensures;

    let n = v.len();
    let mut r: Vec<String> = Vec::new();
    let mut i: usize = 0;
    assert(string_views(v@).take(0) =~= Seq::<Seq<char>>::empty());
    assert(string_views(r@) =~= Seq::<Seq<char>>::empty());
    while i < n
        invariant
            n == v@.len(),
            i <= n,
            string_views(r@).to_multiset() == string_views(v@).take(i as int).to_multiset(),
            ascending(string_views(r@)),
        decreases n - i,
    {
        let x = v[i].clone();
        let m = r.len();
        let mut p: usize = 0;
        while p < m && !str_lt(x.as_str(), r[p].as_str())
            invariant
                m == r@.len(),
                p <= m,
                forall|j: int| 0 <= j < p ==> !key_lt(x@, #[trigger] r@[j]@),
            decreases m - p,
        {
            p = p + 1;
        }
        let ghost before = r@;
        let ghost bv = string_views(before);
        r.insert(p, x);
        assert(string_views(r@) =~= bv.insert(p as int, x@));
        assert(string_views(v@).take(i + 1) =~= string_views(v@).take(i as int).push(x@));
        proof {
            vstd::seq_lib::to_multiset_insert(bv, p as int, x@);
            vstd::seq_lib::to_multiset_build(string_views(v@).take(i as int), x@);
            let nv = string_views(r@);
            assert forall|a: int, b: int| 0 <= a < b < nv.len() implies !key_lt(#[trigger] nv[b], #[trigger] nv[a]) by {
                if b < p {
                    assert(nv[a] == bv[a] && nv[b] == bv[b]);
                } else if b == p {
                    assert(nv[a] == bv[a]);
                    assert(!key_lt(x@, before[a]@));
                } else if a == p {
                    assert(nv[b] == bv[b - 1]);
                    assert(key_lt(x@, bv[p as int]));
                    if key_lt(bv[b - 1], x@) {
                        lemma_key_lt_transitive(bv[b - 1], x@, bv[p as int]);
                        if b - 1 == p {
                            lemma_key_lt_irreflexive(bv[p as int]);
                        }
                    }
                } else if a < p {
                    assert(nv[a] == bv[a] && nv[b] == bv[b - 1]);
                } else {
                    assert(nv[a] == bv[a - 1] && nv[b] == bv[b - 1]);
                }
            }
        }
        i = i + 1;
    }
    assert(string_views(v@).take(n as int) =~= string_views(v@));
    r
}

} // verus!
