//! A map from pairs of texts to texts.

use crate::text::same_text;
use vstd::prelude::*;

verus! {

/// A map from pairs of texts to texts, each pair at most once.
#[derive(Debug)]
pub struct PairMap {
    entries: Vec<((String, String), String)>,
}

type Entry = ((String, String), String);

spec fn key(e: Entry) -> (Seq<char>, Seq<char>) {
    (e.0.0@, e.0.1@)
}

spec fn keys_unique(entries: Seq<Entry>) -> bool {
    forall|i: int, j: int|
        0 <= i < j < entries.len() ==> key(#[trigger] entries[i]) != key(#[trigger] entries[j])
}

spec fn holds(entries: Seq<Entry>, k: (Seq<char>, Seq<char>)) -> bool {
    exists|i: int| 0 <= i < entries.len() && key(#[trigger] entries[i]) == k
}

spec fn position(entries: Seq<Entry>, k: (Seq<char>, Seq<char>)) -> int {
    choose|i: int| 0 <= i < entries.len() && key(#[trigger] entries[i]) == k
}

spec fn contents(entries: Seq<Entry>) -> Map<(Seq<char>, Seq<char>), Seq<char>> {
    Map::new(
        |k: (Seq<char>, Seq<char>)| holds(entries, k),
        |k: (Seq<char>, Seq<char>)| entries[position(entries, k)].1@,
    )
}

impl DeepView for PairMap {
    type V = Map<(Seq<char>, Seq<char>), Seq<char>>;

    closed spec fn deep_view(&self) -> Map<(Seq<char>, Seq<char>), Seq<char>> {
        contents(self.entries@)
    }
}

proof fn contents_at(entries: Seq<Entry>, i: int)
    requires
        keys_unique(entries),
        0 <= i < entries.len(),
    ensures
        contents(entries).contains_key(key(entries[i])),
        contents(entries)[key(entries[i])] == entries[i].1@,
        position(entries, key(entries[i])) == i,
{
    assert(holds(entries, key(entries[i])));
    let j = position(entries, key(entries[i]));
    if i < j {
        assert(key(entries[i]) != key(entries[j]));
    } else if j < i {
        assert(key(entries[j]) != key(entries[i]));
    }
}

proof fn pushed(entries: Seq<Entry>, e: Entry)
    requires
        keys_unique(entries),
        !holds(entries, key(e)),
    ensures
        keys_unique(entries.push(e)),
        contents(entries.push(e)) == contents(entries).insert(key(e), e.1@),
{
    let after = entries.push(e);
    let wanted = contents(entries).insert(key(e), e.1@);
    assert forall|i: int, j: int| 0 <= i < j < after.len() implies key(#[trigger] after[i]) != key(
        #[trigger] after[j],
    ) by {
        assert(after[i] == entries[i]);
        if j < entries.len() {
            assert(after[j] == entries[j]);
        } else {
            assert(holds(entries, key(entries[i])));
        }
    }
    assert(after[entries.len() as int] == e);
    assert forall|k: (Seq<char>, Seq<char>)| #[trigger]
        contents(after).contains_key(k) == wanted.contains_key(k) by {
        if holds(entries, k) {
            assert(key(after[position(entries, k)]) == k);
        }
        if holds(after, k) && k != key(e) {
            assert(key(entries[position(after, k)]) == k);
        }
    }
    assert forall|k: (Seq<char>, Seq<char>)| #[trigger]
        contents(after).contains_key(k) implies contents(after)[k] == wanted[k] by {
        let i = position(after, k);
        contents_at(after, i);
        if i < entries.len() {
            assert(after[i] == entries[i]);
            contents_at(entries, i);
            assert(holds(entries, k));
        }
    }
    assert(contents(after) =~= wanted);
}

proof fn removed(entries: Seq<Entry>, at: int)
    requires
        keys_unique(entries),
        0 <= at < entries.len(),
    ensures
        keys_unique(entries.remove(at)),
        contents(entries.remove(at)) == contents(entries).remove(key(entries[at])),
        !holds(entries.remove(at), key(entries[at])),
{
    let after = entries.remove(at);
    let wanted = contents(entries).remove(key(entries[at]));
    assert forall|i: int, j: int| 0 <= i < j < after.len() implies key(#[trigger] after[i]) != key(
        #[trigger] after[j],
    ) by {
        let p = if i < at { i } else { i + 1 };
        let q = if j < at { j } else { j + 1 };
        assert(after[i] == entries[p] && after[j] == entries[q]);
    }
    assert forall|k: (Seq<char>, Seq<char>)| #[trigger]
        contents(after).contains_key(k) == wanted.contains_key(k) by {
        if holds(entries, k) && k != key(entries[at]) {
            let i = position(entries, k);
            if i < at {
                assert(key(after[i]) == k);
            } else {
                assert(key(after[i - 1]) == k);
            }
        }
        if holds(after, k) {
            let i = position(after, k);
            let p = if i < at { i } else { i + 1 };
            assert(after[i] == entries[p]);
            contents_at(entries, p);
            contents_at(entries, at);
        }
    }
    assert forall|k: (Seq<char>, Seq<char>)| #[trigger]
        contents(after).contains_key(k) implies contents(after)[k] == wanted[k] by {
        let i = position(after, k);
        contents_at(after, i);
        let p = if i < at { i } else { i + 1 };
        assert(after[i] == entries[p]);
        contents_at(entries, p);
    }
    assert(contents(after) =~= wanted);
    assert(!wanted.contains_key(key(entries[at])));
    assert(contents(after).contains_key(key(entries[at])) == holds(after, key(entries[at])));
}

impl PairMap {
    #[verifier::type_invariant]
    spec fn each_once(self) -> bool {
        keys_unique(self.entries@)
    }

    /// The empty map.
    pub fn new() -> (r: Self)
        ensures
            r.deep_view() == Map::<(Seq<char>, Seq<char>), Seq<char>>::empty(),
    {
        let r = PairMap { entries: Vec::new() };
        assert(r.deep_view() =~= Map::<(Seq<char>, Seq<char>), Seq<char>>::empty());
        r
    }

    fn find(entries: &Vec<((String, String), String)>, a: &str, b: &str) -> (r: Option<usize>)
        ensures
            r is Some == holds(entries@, (a@, b@)),
            r matches Some(i) ==> i < entries@.len() && key(entries@[i as int]) == (a@, b@),
    {
        let mut i: usize = 0;
        while i < entries.len()
            invariant
                i <= entries@.len(),
                forall|j: int| 0 <= j < i ==> key(#[trigger] entries@[j]) != (a@, b@),
            decreases entries@.len() - i,
        {
            if same_text(entries[i].0.0.as_str(), a) && same_text(entries[i].0.1.as_str(), b) {
                return Some(i);
            }
            i += 1;
        }
        None
    }

    /// The text held under the pair.
    pub fn get(&self, a: &str, b: &str) -> (r: Option<&String>)
        ensures
            r is Some == self.deep_view().contains_key((a@, b@)),
            r matches Some(v) ==> v@ == self.deep_view()[(a@, b@)],
    {
        proof {
            use_type_invariant(self);
        }
        match Self::find(&self.entries, a, b) {
            Some(i) => {
                proof {
                    contents_at(self.entries@, i as int);
                }
                Some(&self.entries[i].1)
            },
            None => None,
        }
    }

    /// Drops what is held under the pair.
    pub fn remove(&mut self, a: &str, b: &str)
        ensures
            final(self).deep_view() == old(self).deep_view().remove((a@, b@)),
    {
        proof {
            use_type_invariant(&*self);
        }
        let mut entries: Vec<((String, String), String)> = Vec::new();
        std::mem::swap(&mut entries, &mut self.entries);
        match Self::find(&entries, a, b) {
            Some(i) => {
                proof {
                    removed(entries@, i as int);
                }
                entries.remove(i);
            },
            None => {
                assert(contents(entries@) =~= contents(entries@).remove((a@, b@)));
            },
        }
        self.entries = entries;
    }

    /// Holds `value` under the pair, in place of what was there.
    pub fn insert(&mut self, a: String, b: String, value: String)
        ensures
            final(self).deep_view() == old(self).deep_view().insert((a@, b@), value@),
    {
        let ghost before = self.deep_view();
        self.remove(a.as_str(), b.as_str());
        proof {
            use_type_invariant(&*self);
        }
        let mut entries: Vec<((String, String), String)> = Vec::new();
        std::mem::swap(&mut entries, &mut self.entries);
        proof {
            assert(!contents(entries@).contains_key((a@, b@)));
            pushed(entries@, ((a, b), value));
            assert(before.remove((a@, b@)).insert((a@, b@), value@) =~= before.insert(
                (a@, b@),
                value@,
            ));
        }
        entries.push(((a, b), value));
        self.entries = entries;
    }
}

} // verus!
