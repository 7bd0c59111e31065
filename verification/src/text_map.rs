//! A map keyed by text, kept in key order.

use crate::text_order::{
    place, text_lt, text_lt_irreflexive, text_lt_total, text_lt_transitive, Placement,
};
use vstd::prelude::*;

verus! {

/// Whether `s` lists the pairs of `m`, each once, in the order of their keys.
pub open spec fn is_listing<W>(m: Map<Seq<char>, W>, s: Seq<(Seq<char>, W)>) -> bool {
    &&& forall|i: int, j: int| 0 <= i < j < s.len() ==> text_lt(#[trigger] s[i].0, #[trigger] s[j].0)
    &&& forall|i: int| 0 <= i < s.len() ==> m.contains_key((#[trigger] s[i]).0) && m[s[i].0] == s[i].1
    &&& forall|k: Seq<char>| #[trigger]
        m.contains_key(k) ==> exists|i: int| 0 <= i < s.len() && (#[trigger] s[i]).0 == k
}

/// The pairs of a finite map in the order of their keys.
pub open spec fn listing<W>(m: Map<Seq<char>, W>) -> Seq<(Seq<char>, W)> {
    choose|s: Seq<(Seq<char>, W)>| is_listing(m, s)
}

/// The map that keeps the pairs whose value passes `p`.
pub open spec fn keep_values<W>(m: Map<Seq<char>, W>, p: spec_fn(W) -> bool) -> Map<
    Seq<char>,
    W,
> {
    Map::new(|k: Seq<char>| m.contains_key(k) && p(m[k]), |k: Seq<char>| m[k])
}

/// A map has one listing at most.
pub proof fn listing_unique<W>(
    m: Map<Seq<char>, W>,
    a: Seq<(Seq<char>, W)>,
    b: Seq<(Seq<char>, W)>,
)
    requires
        is_listing(m, a),
        is_listing(m, b),
    ensures
        a == b,
    decreases a.len(),
{
    if a.len() == 0 {
        if b.len() > 0 {
            assert(m.contains_key(b[0].0));
        }
        assert(a =~= b);
    } else {
        assert(m.contains_key(a[0].0));
        let j = choose|j: int| 0 <= j < b.len() && (#[trigger] b[j]).0 == a[0].0;
        assert(m.contains_key(b[0].0));
        let i = choose|i: int| 0 <= i < a.len() && (#[trigger] a[i]).0 == b[0].0;
        if j > 0 {
            assert(text_lt(b[0].0, b[j].0));
            if i > 0 {
                assert(text_lt(a[0].0, a[i].0));
                text_lt_transitive(a[0].0, b[0].0, a[0].0);
            }
            text_lt_irreflexive(a[0].0);
        }
        let ra = a.drop_first();
        let rb = b.drop_first();
        let rest = m.remove(a[0].0);
        listing_tail(m, a);
        listing_tail(m, b);
        listing_unique(rest, ra, rb);
        assert(a =~= seq![a[0]] + ra);
        assert(b =~= seq![b[0]] + rb);
    }
}

/// The tail of a listing lists the map without its first key.
proof fn listing_tail<W>(m: Map<Seq<char>, W>, a: Seq<(Seq<char>, W)>)
    requires
        is_listing(m, a),
        a.len() > 0,
    ensures
        is_listing(m.remove(a[0].0), a.drop_first()),
{
    let r = a.drop_first();
    let rest = m.remove(a[0].0);
    assert forall|i: int| 0 <= i < r.len() implies rest.contains_key((#[trigger] r[i]).0)
        && rest[r[i].0] == r[i].1 by {
        assert(r[i] == a[i + 1]);
        assert(text_lt(a[0].0, a[i + 1].0));
        text_lt_irreflexive(a[0].0);
    }
    assert forall|k: Seq<char>| #[trigger] rest.contains_key(k) implies exists|i: int|
        0 <= i < r.len() && (#[trigger] r[i]).0 == k by {
        assert(m.contains_key(k));
        let i = choose|i: int| 0 <= i < a.len() && (#[trigger] a[i]).0 == k;
        assert(r[i - 1] == a[i]);
    }
}

/// A listing of `m` is the listing of `m`.
pub proof fn listing_is<W>(m: Map<Seq<char>, W>, s: Seq<(Seq<char>, W)>)
    requires
        is_listing(m, s),
    ensures
        listing(m) == s,
{
    listing_unique(m, listing(m), s);
}

/// Whether the pairs of a map can be listed, as those of every `TextMap` can.
pub open spec fn can_list<W>(m: Map<Seq<char>, W>) -> bool {
    is_listing(m, listing(m))
}

/// The number of pairs at the start of a listing whose keys come before `k`.
spec fn place_in<W>(s: Seq<(Seq<char>, W)>, k: Seq<char>) -> int
    decreases s.len(),
{
    if s.len() == 0 {
        0
    } else if text_lt(s[0].0, k) {
        1 + place_in(s.drop_first(), k)
    } else {
        0
    }
}

proof fn place_parts<W>(s: Seq<(Seq<char>, W)>, k: Seq<char>)
    requires
        forall|i: int, j: int|
            0 <= i < j < s.len() ==> text_lt(#[trigger] s[i].0, #[trigger] s[j].0),
        forall|i: int| 0 <= i < s.len() ==> (#[trigger] s[i]).0 != k,
    ensures
        0 <= place_in(s, k) <= s.len(),
        forall|j: int| 0 <= j < place_in(s, k) ==> text_lt((#[trigger] s[j]).0, k),
        forall|j: int| place_in(s, k) <= j < s.len() ==> text_lt(k, (#[trigger] s[j]).0),
    decreases s.len(),
{
    if s.len() > 0 {
        let rest = s.drop_first();
        if text_lt(s[0].0, k) {
            assert forall|i: int, j: int| 0 <= i < j < rest.len() implies text_lt(
                #[trigger] rest[i].0,
                #[trigger] rest[j].0,
            ) by {
                assert(rest[i] == s[i + 1] && rest[j] == s[j + 1]);
            }
            assert forall|i: int| 0 <= i < rest.len() implies (#[trigger] rest[i]).0 != k by {
                assert(rest[i] == s[i + 1]);
            }
            place_parts(rest, k);
            assert forall|j: int| 0 <= j < place_in(s, k) implies text_lt(
                (#[trigger] s[j]).0,
                k,
            ) by {
                if j > 0 {
                    assert(rest[j - 1] == s[j]);
                }
            }
            assert forall|j: int| place_in(s, k) <= j < s.len() implies text_lt(
                k,
                (#[trigger] s[j]).0,
            ) by {
                assert(rest[j - 1] == s[j]);
            }
        } else {
            text_lt_total(s[0].0, k);
            assert forall|j: int| 0 <= j < s.len() implies text_lt(k, (#[trigger] s[j]).0) by {
                assert(s[0].0 != k);
                if j > 0 {
                    text_lt_transitive(k, s[0].0, s[j].0);
                }
            }
        }
    }
}

/// A map that can be listed can still be listed with one pair more, or with another value.
pub proof fn insertion_can_list<W>(m: Map<Seq<char>, W>, k: Seq<char>, v: W)
    requires
        can_list(m),
    ensures
        can_list(m.insert(k, v)),
{
    let s = listing(m);
    let after = m.insert(k, v);
    if m.contains_key(k) {
        let at = choose|i: int| 0 <= i < s.len() && (#[trigger] s[i]).0 == k;
        let t = s.update(at, (k, v));
        assert forall|i: int| 0 <= i < t.len() implies after.contains_key((#[trigger] t[i]).0)
            && after[t[i].0] == t[i].1 by {
            assert(m.contains_key(s[i].0));
            if i != at && s[i].0 == k {
                text_lt_irreflexive(k);
                if i < at {
                    assert(text_lt(s[i].0, s[at].0));
                } else {
                    assert(text_lt(s[at].0, s[i].0));
                }
            }
        }
        assert forall|i: int, j: int| 0 <= i < j < t.len() implies text_lt(
            #[trigger] t[i].0,
            #[trigger] t[j].0,
        ) by {
            assert(t[i].0 == s[i].0 && t[j].0 == s[j].0);
        }
        assert forall|key: Seq<char>| #[trigger] after.contains_key(key) implies exists|i: int|
            0 <= i < t.len() && (#[trigger] t[i]).0 == key by {
            assert(m.contains_key(key));
            let i = choose|i: int| 0 <= i < s.len() && (#[trigger] s[i]).0 == key;
            assert(t[i].0 == key);
        }
        listing_is(after, t);
    } else {
        assert forall|i: int| 0 <= i < s.len() implies (#[trigger] s[i]).0 != k by {
            assert(m.contains_key(s[i].0));
        }
        place_parts(s, k);
        let at = place_in(s, k);
        let t = s.insert(at, (k, v));
        assert forall|i: int, j: int| 0 <= i < j < t.len() implies text_lt(
            #[trigger] t[i].0,
            #[trigger] t[j].0,
        ) by {
            let p = if i <= at { i } else { i - 1 };
            let q = if j <= at { j } else { j - 1 };
            if i == at {
                assert(t[j] == s[q]);
            } else if j == at {
                assert(t[i] == s[p]);
            } else {
                assert(t[i] == s[p] && t[j] == s[q]);
            }
        }
        assert forall|i: int| 0 <= i < t.len() implies after.contains_key((#[trigger] t[i]).0)
            && after[t[i].0] == t[i].1 by {
            if i != at {
                let p = if i < at { i } else { i - 1 };
                assert(t[i] == s[p]);
                assert(m.contains_key(s[p].0));
            }
        }
        assert forall|key: Seq<char>| #[trigger] after.contains_key(key) implies exists|i: int|
            0 <= i < t.len() && (#[trigger] t[i]).0 == key by {
            if key == k {
                assert(t[at].0 == key);
            } else {
                assert(m.contains_key(key));
                let i = choose|i: int| 0 <= i < s.len() && (#[trigger] s[i]).0 == key;
                if i < at {
                    assert(t[i].0 == key);
                } else {
                    assert(t[i + 1].0 == key);
                }
            }
        }
        listing_is(after, t);
    }
}

/// The empty map can be listed.
pub proof fn nothing_can_list<W>()
    ensures
        can_list(Map::<Seq<char>, W>::empty()),
{
    let none: Seq<(Seq<char>, W)> = Seq::empty();
    assert(is_listing(Map::<Seq<char>, W>::empty(), none));
}

/// A map that can be listed can still be listed without one of its keys.
pub proof fn removal_can_list<W>(m: Map<Seq<char>, W>, k: Seq<char>)
    requires
        can_list(m),
    ensures
        can_list(m.remove(k)),
{
    let s = listing(m);
    let after = m.remove(k);
    if m.contains_key(k) {
        let at = choose|i: int| 0 <= i < s.len() && (#[trigger] s[i]).0 == k;
        let t = s.remove(at);
        assert forall|i: int, j: int| 0 <= i < j < t.len() implies text_lt(
            #[trigger] t[i].0,
            #[trigger] t[j].0,
        ) by {
            let p = if i < at { i } else { i + 1 };
            let q = if j < at { j } else { j + 1 };
            assert(t[i] == s[p] && t[j] == s[q]);
        }
        assert forall|i: int| 0 <= i < t.len() implies after.contains_key((#[trigger] t[i]).0)
            && after[t[i].0] == t[i].1 by {
            let p = if i < at { i } else { i + 1 };
            assert(t[i] == s[p]);
            assert(m.contains_key(s[p].0));
            text_lt_irreflexive(k);
            if p < at {
                assert(text_lt(s[p].0, s[at].0));
            } else {
                assert(text_lt(s[at].0, s[p].0));
            }
        }
        assert forall|key: Seq<char>| #[trigger] after.contains_key(key) implies exists|i: int|
            0 <= i < t.len() && (#[trigger] t[i]).0 == key by {
            assert(m.contains_key(key));
            let i = choose|i: int| 0 <= i < s.len() && (#[trigger] s[i]).0 == key;
            if i < at {
                assert(t[i].0 == key);
            } else {
                assert(t[i - 1].0 == key);
            }
        }
        listing_is(after, t);
    } else {
        assert(after =~= m);
    }
}

/// A map from text to values, with its keys in order.
#[derive(Debug)]
pub struct TextMap<V: DeepView> {
    entries: Vec<(String, V)>,
}

spec fn keys_ordered<V>(entries: Seq<(String, V)>) -> bool {
    forall|i: int, j: int|
        0 <= i < j < entries.len() ==> text_lt((#[trigger] entries[i]).0@, (#[trigger] entries[j]).0@)
}

spec fn holds_key<V>(entries: Seq<(String, V)>, k: Seq<char>) -> bool {
    exists|i: int| 0 <= i < entries.len() && (#[trigger] entries[i]).0@ == k
}

spec fn position<V>(entries: Seq<(String, V)>, k: Seq<char>) -> int {
    choose|i: int| 0 <= i < entries.len() && (#[trigger] entries[i]).0@ == k
}

spec fn pairs<V: DeepView>(entries: Seq<(String, V)>) -> Seq<(Seq<char>, V::V)> {
    Seq::new(entries.len(), |i: int| (entries[i].0@, entries[i].1.deep_view()))
}

spec fn contents<V: DeepView>(entries: Seq<(String, V)>) -> Map<Seq<char>, V::V> {
    Map::new(
        |k: Seq<char>| holds_key(entries, k),
        |k: Seq<char>| entries[position(entries, k)].1.deep_view(),
    )
}

impl<V: DeepView> DeepView for TextMap<V> {
    type V = Map<Seq<char>, V::V>;

    closed spec fn deep_view(&self) -> Map<Seq<char>, V::V> {
        contents(self.entries@)
    }
}

proof fn position_unique<V>(entries: Seq<(String, V)>, i: int, j: int)
    requires
        keys_ordered(entries),
        0 <= i < entries.len(),
        0 <= j < entries.len(),
        entries[i].0@ == entries[j].0@,
    ensures
        i == j,
{
    text_lt_irreflexive(entries[i].0@);
    if i < j {
        assert(text_lt(entries[i].0@, entries[j].0@));
    } else if j < i {
        assert(text_lt(entries[j].0@, entries[i].0@));
    }
}

proof fn contents_at<V: DeepView>(entries: Seq<(String, V)>, i: int)
    requires
        keys_ordered(entries),
        0 <= i < entries.len(),
    ensures
        contents(entries).contains_key(entries[i].0@),
        contents(entries)[entries[i].0@] == entries[i].1.deep_view(),
{
    let k = entries[i].0@;
    assert(holds_key(entries, k));
    position_unique(entries, i, position(entries, k));
}

proof fn contents_listed<V: DeepView>(entries: Seq<(String, V)>)
    requires
        keys_ordered(entries),
    ensures
        is_listing(contents(entries), pairs(entries)),
        listing(contents(entries)) == pairs(entries),
{
    let m = contents(entries);
    let s = pairs(entries);
    assert forall|i: int| 0 <= i < s.len() implies m.contains_key((#[trigger] s[i]).0) && m[s[i].0]
        == s[i].1 by {
        contents_at(entries, i);
    }
    assert forall|k: Seq<char>| #[trigger] m.contains_key(k) implies exists|i: int|
        0 <= i < s.len() && (#[trigger] s[i]).0 == k by {
        let i = position(entries, k);
        assert(s[i].0 == k);
    }
    listing_is(m, s);
}

impl<V: DeepView> TextMap<V> {
    #[verifier::type_invariant]
    spec fn in_order(self) -> bool {
        keys_ordered(self.entries@)
    }

    /// The empty map.
    pub fn new() -> (r: Self)
        ensures
            r.deep_view() == Map::<Seq<char>, V::V>::empty(),
    {
        let r = TextMap { entries: Vec::new() };
        assert(r.deep_view() =~= Map::<Seq<char>, V::V>::empty());
        r
    }

    /// The number of pairs.
    pub fn len(&self) -> (n: usize)
        ensures
            n == listing(self.deep_view()).len(),
            is_listing(self.deep_view(), listing(self.deep_view())),
    {
        proof {
            use_type_invariant(self);
            contents_listed(self.entries@);
        }
        self.entries.len()
    }

    /// The key of the pair that is `i`-th in order.
    pub fn key_at(&self, i: usize) -> (k: &String)
        requires
            i < listing(self.deep_view()).len(),
        ensures
            k@ == listing(self.deep_view())[i as int].0,
    {
        proof {
            use_type_invariant(self);
            contents_listed(self.entries@);
        }
        &self.entries[i].0
    }

    /// The value of the pair that is `i`-th in order.
    pub fn value_at(&self, i: usize) -> (v: &V)
        requires
            i < listing(self.deep_view()).len(),
        ensures
            v.deep_view() == listing(self.deep_view())[i as int].1,
    {
        proof {
            use_type_invariant(self);
            contents_listed(self.entries@);
        }
        &self.entries[i].1
    }

    fn find(entries: &Vec<(String, V)>, key: &str) -> (r: (bool, usize))
        requires
            keys_ordered(entries@),
        ensures
            r.0 == holds_key(entries@, key@),
            r.0 ==> r.1 < entries@.len() && entries@[r.1 as int].0@ == key@,
            !r.0 ==> r.1 <= entries@.len(),
            !r.0 ==> forall|j: int| 0 <= j < r.1 ==> text_lt((#[trigger] entries@[j]).0@, key@),
            !r.0 ==> forall|j: int|
                r.1 <= j < entries@.len() ==> text_lt(key@, (#[trigger] entries@[j]).0@),
    {
        let mut low: usize = 0;
        let mut high: usize = entries.len();
        while low < high
            invariant
                keys_ordered(entries@),
                low <= high <= entries@.len(),
                forall|j: int| 0 <= j < low ==> text_lt((#[trigger] entries@[j]).0@, key@),
                forall|j: int| high <= j < entries@.len() ==> text_lt(key@, (#[trigger] entries@[j]).0@),
            decreases high - low,
        {
            let mid: usize = low + (high - low) / 2;
            match place(entries[mid].0.as_str(), key) {
                Placement::Same => {
                    return (true, mid);
                },
                Placement::Before => {
                    proof {
                        assert forall|j: int| 0 <= j < mid + 1 implies text_lt(
                            (#[trigger] entries@[j]).0@,
                            key@,
                        ) by {
                            if j < mid {
                                assert(text_lt(entries@[j].0@, entries@[mid as int].0@));
                                text_lt_transitive(
                                    entries@[j].0@,
                                    entries@[mid as int].0@,
                                    key@,
                                );
                            }
                        }
                    }
                    low = mid + 1;
                },
                Placement::After => {
                    proof {
                        assert forall|j: int| mid <= j < entries@.len() implies text_lt(
                            key@,
                            (#[trigger] entries@[j]).0@,
                        ) by {
                            if mid < j {
                                assert(text_lt(entries@[mid as int].0@, entries@[j].0@));
                                text_lt_transitive(
                                    key@,
                                    entries@[mid as int].0@,
                                    entries@[j].0@,
                                );
                            }
                        }
                    }
                    high = mid;
                },
            }
        }
        proof {
            text_lt_irreflexive(key@);
        }
        (false, low)
    }

    /// The value held under `key`.
    pub fn get(&self, key: &str) -> (r: Option<&V>)
        ensures
            r is Some == self.deep_view().contains_key(key@),
            r matches Some(v) ==> v.deep_view() == self.deep_view()[key@],
    {
        proof {
            use_type_invariant(self);
        }
        let found = Self::find(&self.entries, key);
        if found.0 {
            proof {
                contents_at(self.entries@, found.1 as int);
            }
            Some(&self.entries[found.1].1)
        } else {
            None
        }
    }

    /// Whether `key` holds a value.
    pub fn contains_key(&self, key: &str) -> (r: bool)
        ensures
            r == self.deep_view().contains_key(key@),
    {
        self.get(key).is_some()
    }

    /// Holds `value` under `key`, in place of what was there.
    pub fn insert(&mut self, key: String, value: V)
        ensures
            final(self).deep_view() == old(self).deep_view().insert(key@, value.deep_view()),
    {
        proof {
            use_type_invariant(&*self);
        }
        let mut entries: Vec<(String, V)> = Vec::new();
        std::mem::swap(&mut entries, &mut self.entries);
        let ghost before = entries@;
        let ghost pair = (key, value);
        let found = Self::find(&entries, key.as_str());
        let at: usize = found.1;
        if found.0 {
            entries[at] = (key, value);
            proof {
                insert_at_found(before, at as int, pair);
            }
        } else {
            entries.insert(at, (key, value));
            proof {
                insert_at_gap(before, at as int, pair);
            }
        }
        self.entries = entries;
    }

    /// Takes the value held under `key` out of the map.
    pub fn remove(&mut self, key: &str) -> (r: Option<V>)
        ensures
            r is Some == old(self).deep_view().contains_key(key@),
            r matches Some(v) ==> v.deep_view() == old(self).deep_view()[key@],
            final(self).deep_view() == old(self).deep_view().remove(key@),
    {
        proof {
            use_type_invariant(&*self);
        }
        let mut entries: Vec<(String, V)> = Vec::new();
        std::mem::swap(&mut entries, &mut self.entries);
        let ghost before = entries@;
        let found = Self::find(&entries, key);
        let mut taken = None;
        if found.0 {
            proof {
                contents_at(before, found.1 as int);
                remove_at(before, found.1 as int);
            }
            let pair = entries.remove(found.1);
            taken = Some(pair.1);
        } else {
            assert(contents(before) =~= contents(before).remove(key@));
        }
        self.entries = entries;
        taken
    }

    /// Puts `change` of each value in place of it; `g` says what that is.
    pub(crate) fn update_all<F: Fn(V) -> V>(&mut self, change: F, Ghost(g): Ghost<spec_fn(V::V) -> V::V>)
        requires
            forall|v: V| #[trigger] call_requires(change, (v,)),
            forall|v: V, w: V| #[trigger]
                call_ensures(change, (v,), w) ==> w.deep_view() == g(v.deep_view()),
        ensures
            final(self).deep_view() == old(self).deep_view().map_values(g),
    {
        proof {
            use_type_invariant(&*self);
        }
        let mut entries: Vec<(String, V)> = Vec::new();
        std::mem::swap(&mut entries, &mut self.entries);
        let ghost before = entries@;
        let mut changed: Vec<(String, V)> = Vec::new();
        let ghost mut i: int = 0;
        assert(before.skip(0) =~= before);
        while entries.len() > 0
            invariant
                forall|v: V| #[trigger] call_requires(change, (v,)),
                forall|v: V, w: V| #[trigger]
                    call_ensures(change, (v,), w) ==> w.deep_view() == g(v.deep_view()),
                0 <= i <= before.len(),
                entries@ == before.skip(i),
                changed@.len() == i,
                forall|j: int|
                    0 <= j < i ==> (#[trigger] changed@[j]).0@ == before[j].0@
                        && changed@[j].1.deep_view() == g(before[j].1.deep_view()),
            decreases entries@.len(),
        {
            assert(entries@[0] == before[i]);
            let (key, value) = entries.remove(0);
            let value = change(value);
            changed.push((key, value));
            proof {
                i = i + 1;
                assert(entries@ =~= before.skip(i));
            }
        }
        proof {
            assert(before.skip(i).len() == 0);
            assert forall|a: int, b: int| 0 <= a < b < changed@.len() implies text_lt(
                (#[trigger] changed@[a]).0@,
                (#[trigger] changed@[b]).0@,
            ) by {
                assert(text_lt(before[a].0@, before[b].0@));
            }
            let m = contents(changed@);
            let n = contents(before);
            assert forall|k: Seq<char>| #[trigger] m.contains_key(k) == n.contains_key(k) by {
                if holds_key(changed@, k) {
                    assert(before[position(changed@, k)].0@ == k);
                }
                if holds_key(before, k) {
                    assert(changed@[position(before, k)].0@ == k);
                }
            }
            assert forall|k: Seq<char>| #[trigger] m.contains_key(k) implies m[k] == g(n[k]) by {
                let at = position(changed@, k);
                contents_at(changed@, at);
                contents_at(before, at);
                assert(before[at].0@ == k);
            }
            assert(m =~= n.map_values(g));
        }
        self.entries = changed;
    }

    /// A copy of the map, made with a copy of each value.
    pub(crate) fn duplicate<F: Fn(&V) -> V>(&self, copy: F) -> (r: Self)
        requires
            forall|v: &V| #[trigger] call_requires(copy, (v,)),
            forall|v: &V, w: V| #[trigger]
                call_ensures(copy, (v,), w) ==> w.deep_view() == v.deep_view(),
        ensures
            r.deep_view() == self.deep_view(),
    {
        proof {
            use_type_invariant(self);
        }
        let mut entries: Vec<(String, V)> = Vec::new();
        let mut i: usize = 0;
        while i < self.entries.len()
            invariant
                forall|v: &V| #[trigger] call_requires(copy, (v,)),
                forall|v: &V, w: V| #[trigger]
                    call_ensures(copy, (v,), w) ==> w.deep_view() == v.deep_view(),
                i <= self.entries@.len(),
                entries@.len() == i,
                forall|j: int|
                    0 <= j < i ==> (#[trigger] entries@[j]).0@ == self.entries@[j].0@
                        && entries@[j].1.deep_view() == self.entries@[j].1.deep_view(),
            decreases self.entries@.len() - i,
        {
            let value = copy(&self.entries[i].1);
            entries.push((self.entries[i].0.clone(), value));
            i += 1;
        }
        proof {
            assert forall|a: int, b: int| 0 <= a < b < entries@.len() implies text_lt(
                (#[trigger] entries@[a]).0@,
                (#[trigger] entries@[b]).0@,
            ) by {
                assert(text_lt(self.entries@[a].0@, self.entries@[b].0@));
            }
            contents_listed(entries@);
            contents_listed(self.entries@);
            assert(pairs(entries@) =~= pairs(self.entries@));
            let m = contents(entries@);
            let n = contents(self.entries@);
            assert forall|k: Seq<char>| #[trigger] m.contains_key(k) == n.contains_key(k) by {
                if holds_key(entries@, k) {
                    assert(self.entries@[position(entries@, k)].0@ == k);
                }
                if holds_key(self.entries@, k) {
                    assert(entries@[position(self.entries@, k)].0@ == k);
                }
            }
            assert forall|k: Seq<char>| #[trigger] m.contains_key(k) implies m[k] == n[k] by {
                let at = position(entries@, k);
                contents_at(entries@, at);
                contents_at(self.entries@, at);
                assert(self.entries@[at].0@ == k);
            }
            assert(m =~= n);
        }
        TextMap { entries }
    }

    /// Keeps the pairs whose value `keep` accepts; `p` says which those are.
    pub(crate) fn retain<F: Fn(&V) -> bool>(&mut self, keep: F, Ghost(p): Ghost<spec_fn(V::V) -> bool>)
        requires
            forall|v: &V| #[trigger] call_requires(keep, (v,)),
            forall|v: &V, b: bool| #[trigger]
                call_ensures(keep, (v,), b) ==> b == p(v.deep_view()),
        ensures
            final(self).deep_view() == keep_values(old(self).deep_view(), p),
    {
        proof {
            use_type_invariant(&*self);
        }
        let mut entries: Vec<(String, V)> = Vec::new();
        std::mem::swap(&mut entries, &mut self.entries);
        let ghost before = entries@;
        let mut i: usize = 0;
        while i < entries.len()
            invariant
                forall|v: &V| #[trigger] call_requires(keep, (v,)),
                forall|v: &V, b: bool| #[trigger]
                    call_ensures(keep, (v,), b) ==> b == p(v.deep_view()),
                i <= entries@.len(),
                keys_ordered(entries@),
                forall|j: int| 0 <= j < i ==> p((#[trigger] entries@[j]).1.deep_view()),
                forall|k: Seq<char>| #[trigger]
                    contents(entries@).contains_key(k) ==> contents(before).contains_key(k)
                        && contents(before)[k] == contents(entries@)[k],
                forall|k: Seq<char>| #[trigger]
                    contents(before).contains_key(k) && p(contents(before)[k]) ==> contents(
                        entries@,
                    ).contains_key(k),
            decreases entries@.len() - i,
        {
            let kept = keep(&entries[i].1);
            if kept {
                i += 1;
            } else {
                let ghost earlier = entries@;
                proof {
                    contents_at(earlier, i as int);
                    remove_at(earlier, i as int);
                }
                entries.remove(i);
                assert forall|k: Seq<char>| #[trigger]
                    contents(entries@).contains_key(k) implies contents(before).contains_key(k)
                    && contents(before)[k] == contents(entries@)[k] by {
                    assert(contents(earlier).contains_key(k));
                }
                assert forall|k: Seq<char>| #[trigger]
                    contents(before).contains_key(k) && p(contents(before)[k]) implies contents(
                    entries@,
                ).contains_key(k) by {
                    assert(contents(earlier).contains_key(k));
                }
            }
        }
        proof {
            let after = contents(entries@);
            let wanted = keep_values(contents(before), p);
            assert forall|k: Seq<char>| #[trigger] after.contains_key(k) implies wanted.contains_key(
                k,
            ) by {
                contents_at(entries@, position(entries@, k));
            }
            assert forall|k: Seq<char>| #[trigger] wanted.contains_key(k) implies after.contains_key(
                k,
            ) by {
                assert(contents(before).contains_key(k));
            }
            assert(after =~= wanted);
        }
        self.entries = entries;
    }
}

/// A copy of a map of texts.
pub fn clone_texts(texts: &TextMap<String>) -> (r: TextMap<String>)
    ensures
        r.deep_view() == texts.deep_view(),
{
    let copy = |text: &String| -> (c: String)
        ensures
            c.deep_view() == text.deep_view(),
    {
        text.clone()
    };
    texts.duplicate(copy)
}

proof fn insert_at_found<V: DeepView>(entries: Seq<(String, V)>, at: int, pair: (String, V))
    requires
        keys_ordered(entries),
        0 <= at < entries.len(),
        entries[at].0@ == pair.0@,
    ensures
        keys_ordered(entries.update(at, pair)),
        contents(entries.update(at, pair)) == contents(entries).insert(
            pair.0@,
            pair.1.deep_view(),
        ),
{
    let after = entries.update(at, pair);
    assert forall|k: Seq<char>| #[trigger]
        contents(after).contains_key(k) == contents(entries).insert(
            pair.0@,
            pair.1.deep_view(),
        ).contains_key(k) by {
        if holds_key(entries, k) {
            assert(after[position(entries, k)].0@ == k);
        }
        if holds_key(after, k) {
            assert(entries[position(after, k)].0@ == k);
        }
        if k == pair.0@ {
            assert(after[at].0@ == k);
        }
    }
    assert forall|k: Seq<char>| #[trigger] contents(after).contains_key(k) implies contents(
        after,
    )[k] == contents(entries).insert(pair.0@, pair.1.deep_view())[k] by {
        let i = position(after, k);
        contents_at(after, i);
        contents_at(entries, i);
        position_unique(after, i, i);
        if k == pair.0@ {
            position_unique(after, i, at);
        }
    }
    assert(contents(after) =~= contents(entries).insert(pair.0@, pair.1.deep_view()));
}

proof fn insert_at_gap<V: DeepView>(entries: Seq<(String, V)>, at: int, pair: (String, V))
    requires
        keys_ordered(entries),
        0 <= at <= entries.len(),
        forall|j: int| 0 <= j < at ==> text_lt((#[trigger] entries[j]).0@, pair.0@),
        forall|j: int| at <= j < entries.len() ==> text_lt(pair.0@, (#[trigger] entries[j]).0@),
    ensures
        keys_ordered(entries.insert(at, pair)),
        contents(entries.insert(at, pair)) == contents(entries).insert(
            pair.0@,
            pair.1.deep_view(),
        ),
{
    let after = entries.insert(at, pair);
    assert forall|i: int, j: int| 0 <= i < j < after.len() implies text_lt(
        (#[trigger] after[i]).0@,
        (#[trigger] after[j]).0@,
    ) by {
        if i < at && j < at {
            assert(after[i] == entries[i] && after[j] == entries[j]);
        } else if i < at && j == at {
            assert(after[i] == entries[i]);
        } else if i < at {
            assert(after[i] == entries[i] && after[j] == entries[j - 1]);
        } else if i == at {
            assert(after[j] == entries[j - 1]);
        } else {
            assert(after[i] == entries[i - 1] && after[j] == entries[j - 1]);
        }
    }
    let wanted = contents(entries).insert(pair.0@, pair.1.deep_view());
    assert(after[at] == pair);
    assert forall|k: Seq<char>| #[trigger] contents(after).contains_key(k) == wanted.contains_key(
        k,
    ) by {
        if holds_key(entries, k) {
            let i = position(entries, k);
            if i < at {
                assert(after[i].0@ == k);
            } else {
                assert(after[i + 1].0@ == k);
            }
        }
        if holds_key(after, k) {
            let i = position(after, k);
            if i < at {
                assert(entries[i].0@ == k);
            } else if i > at {
                assert(entries[i - 1].0@ == k);
            }
        }
    }
    assert forall|k: Seq<char>| #[trigger] contents(after).contains_key(k) implies contents(
        after,
    )[k] == wanted[k] by {
        let i = position(after, k);
        contents_at(after, i);
        if k == pair.0@ {
            position_unique(after, i, at);
        } else if i < at {
            assert(after[i] == entries[i]);
            contents_at(entries, i);
        } else if i > at {
            assert(after[i] == entries[i - 1]);
            contents_at(entries, i - 1);
        }
    }
    assert(contents(after) =~= wanted);
}

proof fn remove_at<V: DeepView>(entries: Seq<(String, V)>, at: int)
    requires
        keys_ordered(entries),
        0 <= at < entries.len(),
    ensures
        keys_ordered(entries.remove(at)),
        contents(entries.remove(at)) == contents(entries).remove(entries[at].0@),
{
    let after = entries.remove(at);
    let wanted = contents(entries).remove(entries[at].0@);
    assert forall|i: int, j: int| 0 <= i < j < after.len() implies text_lt(
        (#[trigger] after[i]).0@,
        (#[trigger] after[j]).0@,
    ) by {
        let p = if i < at { i } else { i + 1 };
        let q = if j < at { j } else { j + 1 };
        assert(after[i] == entries[p] && after[j] == entries[q]);
    }
    assert forall|k: Seq<char>| #[trigger] contents(after).contains_key(k) == wanted.contains_key(
        k,
    ) by {
        if wanted.contains_key(k) {
            let i = position(entries, k);
            if i < at {
                assert(after[i].0@ == k);
            } else {
                assert(after[i - 1].0@ == k);
            }
        }
        if holds_key(after, k) {
            let i = position(after, k);
            let p = if i < at { i } else { i + 1 };
            assert(entries[p].0@ == k);
            if k == entries[at].0@ {
                position_unique(entries, p, at);
            }
        }
    }
    assert forall|k: Seq<char>| #[trigger] contents(after).contains_key(k) implies contents(
        after,
    )[k] == wanted[k] by {
        let i = position(after, k);
        contents_at(after, i);
        let p = if i < at { i } else { i + 1 };
        assert(after[i] == entries[p]);
        contents_at(entries, p);
    }
    assert(contents(after) =~= wanted);
}

} // verus!
