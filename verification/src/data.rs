//! The raw submitted data: an ordered mapping from field identifiers to
//! string values, with unique keys.

use vstd::prelude::*;
use crate::codec::entry_views;

verus! {

/// The value bound to the first occurrence of `key`, or `None`.
pub open spec fn lookup(s: Seq<(Seq<char>, Seq<char>)>, key: Seq<char>) -> Option<Seq<char>>
    decreases s.len(),
{
    if s.len() == 0 {
        None
    } else if s[0].0 == key {
        Some(s[0].1)
    } else {
        lookup(s.drop_first(), key)
    }
}

/// True when no key occurs twice.
pub open spec fn unique_keys(s: Seq<(Seq<char>, Seq<char>)>) -> bool {
    forall|i: int, j: int| 0 <= i < j < s.len() ==> (#[trigger] s[i]).0 != (#[trigger] s[j]).0
}

/// Raw submitted form data: field identifier / value pairs in submission
/// order, with no identifier repeated.
pub struct FormData {
    entries: Vec<(String, String)>,
}

impl View for FormData {
    type V = Seq<(Seq<char>, Seq<char>)>;

    closed spec fn view(&self) -> Seq<(Seq<char>, Seq<char>)> {
        entry_views(self.entries@)
    }
}

impl FormData {
    /// Key uniqueness, the type's invariant.
    pub open spec fn wf(&self) -> bool {
        unique_keys(self@)
    }

    /// The mapping the pairs denote, independent of order.
    pub open spec fn spec_map(&self) -> Map<Seq<char>, Seq<char>> {
        Map::new(
            |k: Seq<char>| lookup(self@, k) is Some,
            |k: Seq<char>| lookup(self@, k)->Some_0,
        )
    }

    /// An empty data map.
    pub fn new() -> (r: FormData)
        ensures
            r@ =~= Seq::<(Seq<char>, Seq<char>)>::empty(),
            r.wf(),
    {
        FormData { entries: Vec::new() }
    }

    /// Wraps already-collected pairs as a data map, keeping their order.
    pub fn from_entries(entries: Vec<(String, String)>) -> (r: FormData)
        ensures
            r@ == entry_views(entries@),
    {
        FormData { entries }
    }

    /// How many fields are present.
    pub fn len(&self) -> (r: usize)
        ensures
            r == self@.len(),
    {
        self.entries.len()
    }

    /// The pairs, in submission order.
    pub fn entries(&self) -> (r: &Vec<(String, String)>)
        ensures
            entry_views(r@) == self@,
    {
        &self.entries
    }

    /// The position of `key`, or `None` when absent.
    fn index_of(&self, key: &String) -> (r: Option<usize>)
        ensures
            match r {
                Some(i) => i < self@.len() && self@[i as int].0 == key@ && (forall|j: int|
                    0 <= j < i ==> (#[trigger] self@[j]).0 != key@),
                None => forall|j: int| 0 <= j < self@.len() ==> (#[trigger] self@[j]).0 != key@,
            },
    {
        let mut i: usize = 0;
        while i < self.entries.len()
            invariant
                i <= self@.len(),
                self@.len() == self.entries@.len(),
                forall|j: int| 0 <= j < i ==> (#[trigger] self@[j]).0 != key@,
            decreases self@.len() - i,
        {
            let e = &self.entries[i];
            proof {
                assert(self@[i as int] == (self.entries@[i as int].0@, self.entries@[i as int].1@));
            }
            if e.0 == *key {
                return Some(i);
            }
            i = i + 1;
        }
        None
    }

    /// Looks a field's value up by its identifier.
    pub fn get(&self, key: &String) -> (r: Option<&String>)
        ensures
            match r {
                Some(v) => lookup(self@, key@) == Some(v@),
                None => lookup(self@, key@) is None,
            },
    {
        let idx = self.index_of(key);
        proof {
            lemma_lookup_by_index(self@, key@);
        }
        match idx {
            Some(i) => Some(&self.entries[i].1),
            None => None,
        }
    }

    /// Binds `key` to `value`: replaces the bound value when the key is
    /// already present, appends the pair otherwise. Every other binding is
    /// untouched.
    pub fn insert(&mut self, key: String, value: String)
        requires
            old(self).wf(),
        ensures
            final(self).wf(),
            lookup(final(self)@, key@) == Some(value@),
            forall|k: Seq<char>|
                k != key@ ==> #[trigger] lookup(final(self)@, k) == lookup(old(self)@, k),
            final(self)@.len() == if lookup(old(self)@, key@) is Some {
                old(self)@.len()
            } else {
                old(self)@.len() + 1
            },
    {
        let ghost pre = self@;
        let idx = self.index_of(&key);
        proof {
            lemma_lookup_by_index(pre, key@);
        }
        match idx {
            Some(i) => {
                self.entries.remove(i);
                self.entries.insert(i, (key, value));
                proof {
                    assert(self@ =~= pre.update(i as int, (pre[i as int].0, value@)));
                    lemma_lookup_update(pre, i as int, value@);
                }
            },
            None => {
                self.entries.push((key, value));
                proof {
                    assert(self@ =~= pre.push((key@, value@)));
                    lemma_lookup_push(pre, key@, value@);
                }
            },
        }
    }
}

/// Positional search agrees with `lookup`: the value at the first position
/// holding the key, or `None` when no position holds it.
pub proof fn lemma_lookup_by_index(s: Seq<(Seq<char>, Seq<char>)>, key: Seq<char>)
    ensures
        (forall|j: int| 0 <= j < s.len() ==> (#[trigger] s[j]).0 != key) ==> lookup(s, key) is None,
        forall|i: int|
            0 <= i < s.len() && (#[trigger] s[i]).0 == key && (forall|j: int|
                0 <= j < i ==> (#[trigger] s[j]).0 != key) ==> lookup(s, key) == Some(s[i].1),
    decreases s.len(),
{
    if s.len() > 0 {
        lemma_lookup_by_index(s.drop_first(), key);
        assert forall|i: int|
            0 <= i < s.len() && (#[trigger] s[i]).0 == key && (forall|j: int|
                0 <= j < i ==> (#[trigger] s[j]).0 != key) implies lookup(s, key) == Some(
            s[i].1,
        ) by {
            if i > 0 {
                assert(s[0].0 != key);
                assert(s.drop_first()[i - 1].0 == key);
                assert(forall|j: int| 0 <= j < i - 1 ==> (#[trigger] s.drop_first()[j]).0 != key);
            }
        }
    }
}

/// Updating the value at a position changes only that key's binding, when
/// keys are unique.
proof fn lemma_lookup_update(s: Seq<(Seq<char>, Seq<char>)>, i: int, v: Seq<char>)
    requires
        unique_keys(s),
        0 <= i < s.len(),
    ensures
        unique_keys(s.update(i, (s[i].0, v))),
        lookup(s.update(i, (s[i].0, v)), s[i].0) == Some(v),
        forall|k: Seq<char>|
            k != s[i].0 ==> #[trigger] lookup(s.update(i, (s[i].0, v)), k) == lookup(s, k),
    decreases s.len(),
{
    let t = s.update(i, (s[i].0, v));
    assert(forall|j: int| 0 <= j < s.len() && j != i ==> t[j] == s[j]);
    if i == 0 {
        assert(t[0].0 == s[0].0);
        assert(t.drop_first() =~= s.drop_first());
        assert forall|k: Seq<char>| k != s[i].0 implies #[trigger] lookup(t, k) == lookup(
            s,
            k,
        ) by {
            assert(lookup(t, k) == lookup(t.drop_first(), k));
            assert(lookup(s, k) == lookup(s.drop_first(), k));
        }
    } else {
        assert(t[0] == s[0]);
        let sd = s.drop_first();
        assert(t.drop_first() =~= sd.update(i - 1, (sd[i - 1].0, v)));
        lemma_lookup_update(sd, i - 1, v);
        assert(s[0].0 != s[i].0);
        assert(lookup(t, s[i].0) == lookup(t.drop_first(), s[i].0));
        assert forall|k: Seq<char>| k != s[i].0 implies #[trigger] lookup(t, k) == lookup(
            s,
            k,
        ) by {
            if s[0].0 == k {
            } else {
                assert(lookup(t, k) == lookup(t.drop_first(), k));
                assert(lookup(s, k) == lookup(sd, k));
                assert(lookup(t.drop_first(), k) == lookup(sd, k));
            }
        }
    }
}

/// Appending a fresh key binds it and changes no other binding.
proof fn lemma_lookup_push(s: Seq<(Seq<char>, Seq<char>)>, key: Seq<char>, v: Seq<char>)
    requires
        unique_keys(s),
        forall|j: int| 0 <= j < s.len() ==> (#[trigger] s[j]).0 != key,
    ensures
        unique_keys(s.push((key, v))),
        lookup(s.push((key, v)), key) == Some(v),
        forall|k: Seq<char>| k != key ==> #[trigger] lookup(s.push((key, v)), k) == lookup(s, k),
    decreases s.len(),
{
    let t = s.push((key, v));
    if s.len() == 0 {
        assert(t[0] == (key, v));
        assert(t.drop_first() =~= Seq::<(Seq<char>, Seq<char>)>::empty());
        assert forall|k: Seq<char>| k != key implies #[trigger] lookup(t, k) == lookup(s, k) by {
            assert(lookup(t, k) == lookup(t.drop_first(), k));
        }
    } else {
        assert(t[0] == s[0]);
        assert(t.drop_first() =~= s.drop_first().push((key, v)));
        lemma_lookup_push(s.drop_first(), key, v);
        assert(lookup(t, key) == lookup(t.drop_first(), key));
        assert forall|k: Seq<char>| k != key implies #[trigger] lookup(t, k) == lookup(s, k) by {
            if s[0].0 == k {
            } else {
                assert(lookup(t, k) == lookup(t.drop_first(), k));
                assert(lookup(s, k) == lookup(s.drop_first(), k));
            }
        }
    }
}

} // verus!
