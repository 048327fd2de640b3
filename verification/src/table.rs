//! A map from texts to values that keeps its keys in the order of texts.
use vstd::prelude::*;

use crate::text;
use crate::text::Standing;

verus! {

/// A map from texts to values. Its keys are distinct and stand in ascending
/// order, so that walking it gives the same order every time.
#[derive(Debug, PartialEq, Eq)]
pub struct Table<V> {
    entries: Vec<(String, V)>,
}

/// Whether the keys of a row of entries ascend.
pub open spec fn ascending<V>(s: Seq<(String, V)>) -> bool {
    forall|i: int, j: int| 0 <= i < j < s.len() ==> text::before(#[trigger] s[i].0@, #[trigger] s[j].0@)
}

/// The map that a row of entries makes, a later entry in place of an earlier one
/// under the same key.
pub open spec fn map_of<V>(s: Seq<(String, V)>) -> Map<Seq<char>, V>
    decreases s.len(),
{
    if s.len() == 0 {
        Map::empty()
    } else {
        map_of(s.drop_last()).insert(s.last().0@, s.last().1)
    }
}

/// A key is in the map if and only if an entry has it.
pub proof fn lemma_map_of_keys<V>(s: Seq<(String, V)>, k: Seq<char>)
    ensures
        map_of(s).contains_key(k) <==> exists|i: int| 0 <= i < s.len() && #[trigger] s[i].0@ == k,
    decreases s.len(),
{
    if s.len() > 0 {
        let t = s.drop_last();
        lemma_map_of_keys(t, k);
        if s.last().0@ == k {
            assert(s[s.len() - 1].0@ == k);
        } else if map_of(t).contains_key(k) {
            let i = choose|i: int| 0 <= i < t.len() && #[trigger] t[i].0@ == k;
            assert(s[i].0@ == k);
        } else if exists|i: int| 0 <= i < s.len() && #[trigger] s[i].0@ == k {
            let i = choose|i: int| 0 <= i < s.len() && #[trigger] s[i].0@ == k;
            assert(t[i].0@ == k);
        }
    }
}

/// A row of entries with ascending keys makes a map of as many keys.
pub proof fn lemma_map_of_len<V>(s: Seq<(String, V)>)
    requires
        ascending(s),
    ensures
        map_of(s).dom().finite(),
        map_of(s).len() == s.len(),
    decreases s.len(),
{
    if s.len() > 0 {
        let t = s.drop_last();
        assert(ascending(t)) by {
            assert forall|i: int, j: int| 0 <= i < j < t.len() implies text::before(
                #[trigger] t[i].0@,
                #[trigger] t[j].0@,
            ) by {
                assert(text::before(s[i].0@, s[j].0@));
            }
        }
        lemma_map_of_len(t);
        lemma_map_of_keys(t, s.last().0@);
        if map_of(t).contains_key(s.last().0@) {
            let i = choose|i: int| 0 <= i < t.len() && #[trigger] t[i].0@ == s.last().0@;
            lemma_ascending_distinct(s, i, s.len() - 1);
        }
        assert(map_of(s).dom() =~= map_of(t).dom().insert(s.last().0@));
    } else {
        assert(map_of(s).dom() =~= Set::empty());
    }
}

/// A row of entries makes a finite map.
pub proof fn lemma_map_of_finite<V>(s: Seq<(String, V)>)
    ensures
        map_of(s).dom().finite(),
    decreases s.len(),
{
    if s.len() > 0 {
        lemma_map_of_finite(s.drop_last());
    }
}

/// Under the key of an entry stands the value of that entry, where keys ascend.
pub proof fn lemma_map_of_entry<V>(s: Seq<(String, V)>, i: int)
    requires
        ascending(s),
        0 <= i < s.len(),
    ensures
        map_of(s).contains_key(s[i].0@),
        map_of(s)[s[i].0@] == s[i].1,
    decreases s.len(),
{
    if i < s.len() - 1 {
        let t = s.drop_last();
        assert(ascending(t)) by {
            assert forall|a: int, b: int| 0 <= a < b < t.len() implies text::before(
                #[trigger] t[a].0@,
                #[trigger] t[b].0@,
            ) by {
                assert(t[a] == s[a] && t[b] == s[b]);
            }
        }
        lemma_map_of_entry(t, i);
        assert(t[i] == s[i]);
        assert(text::before(s[i].0@, s[s.len() - 1].0@));
        text::lemma_before_asymmetric(s[i].0@, s[s.len() - 1].0@);
    }
}

/// No two entries have the same key, where keys ascend.
pub proof fn lemma_ascending_distinct<V>(s: Seq<(String, V)>, i: int, j: int)
    requires
        ascending(s),
        0 <= i < s.len(),
        0 <= j < s.len(),
        s[i].0@ == s[j].0@,
    ensures
        i == j,
{
    if i < j {
        assert(text::before(s[i].0@, s[j].0@));
        text::lemma_before_asymmetric(s[i].0@, s[j].0@);
    } else if j < i {
        assert(text::before(s[j].0@, s[i].0@));
        text::lemma_before_asymmetric(s[j].0@, s[i].0@);
    }
}

impl<V> View for Table<V> {
    type V = Map<Seq<char>, V>;

    open spec fn view(&self) -> Map<Seq<char>, V> {
        map_of(self.entries())
    }
}

impl<V> Table<V> {
    /// The entries, in the order of their keys.
    pub closed spec fn entries(&self) -> Seq<(String, V)> {
        self.entries@
    }

    #[verifier::type_invariant]
    spec fn sound(self) -> bool {
        ascending(self.entries@)
    }

    /// A table is larger than its entries.
    pub proof fn lemma_entries_smaller(t: Table<V>)
        ensures
            decreases_to!(t => t.entries()),
    {
    }

    /// The empty table.
    pub fn new() -> (r: Table<V>)
        ensures
            r@ == Map::<Seq<char>, V>::empty(),
            r.entries() == Seq::<(String, V)>::empty(),
    {
        Table { entries: Vec::new() }
    }

    /// The table of the given entries, whose keys ascend.
    pub fn from_ascending(entries: Vec<(String, V)>) -> (r: Table<V>)
        requires
            ascending(entries@),
        ensures
            r.entries() == entries@,
    {
        Table { entries }
    }

    /// The number of entries.
    pub fn len(&self) -> (r: usize)
        ensures
            r == self.entries().len(),
            ascending(self.entries()),
    {
        proof {
            use_type_invariant(self);
        }
        self.entries.len()
    }

    /// The key of the entry at position `i`.
    pub fn key_at(&self, i: usize) -> (r: &String)
        requires
            i < self.entries().len(),
        ensures
            *r == self.entries()[i as int].0,
    {
        &self.entries[i].0
    }

    /// The value of the entry at position `i`.
    pub fn value_at(&self, i: usize) -> (r: &V)
        requires
            i < self.entries().len(),
        ensures
            *r == self.entries()[i as int].1,
    {
        &self.entries[i].1
    }

    /// The entries, taken out of the table.
    pub fn into_entries(self) -> (r: Vec<(String, V)>)
        ensures
            r@ == self.entries(),
            ascending(r@),
    {
        proof {
            use_type_invariant(&self);
        }
        self.entries
    }

    /// Where the first entry stands whose key is not before `key`, and whether
    /// it has that key.
    fn place(entries: &Vec<(String, V)>, key: &str) -> (r: (usize, bool))
        requires
            ascending(entries@),
        ensures
            r.0 <= entries@.len(),
            forall|j: int| 0 <= j < r.0 ==> text::before(#[trigger] entries@[j].0@, key@),
            r.1 ==> r.0 < entries@.len() && entries@[r.0 as int].0@ == key@,
            !r.1 ==> forall|j: int|
                r.0 <= j < entries@.len() ==> text::before(key@, #[trigger] entries@[j].0@),
    {
        let mut i: usize = 0;
        while i < entries.len()
            invariant
                0 <= i <= entries@.len(),
                ascending(entries@),
                forall|j: int| 0 <= j < i ==> text::before(#[trigger] entries@[j].0@, key@),
            decreases entries@.len() - i,
        {
            match text::standing(entries[i].0.as_str(), key) {
                Standing::Before => {},
                Standing::Same => {
                    return (i, true);
                },
                Standing::After => {
                    proof {
                        assert forall|j: int| i <= j < entries@.len() implies text::before(
                            key@,
                            #[trigger] entries@[j].0@,
                        ) by {
                            if i < j {
                                assert(text::before(entries@[i as int].0@, entries@[j].0@));
                                text::lemma_before_transitive(
                                    key@,
                                    entries@[i as int].0@,
                                    entries@[j].0@,
                                );
                            }
                        }
                    }
                    return (i, false);
                },
            }
            i += 1;
        }
        (i, false)
    }

    /// The value under `key`.
    pub fn get(&self, key: &str) -> (r: Option<&V>)
        ensures
            match r {
                Some(v) => self@.contains_key(key@) && *v == self@[key@],
                None => !self@.contains_key(key@),
            },
    {
        proof {
            use_type_invariant(self);
        }
        let (i, found) = Self::place(&self.entries, key);
        proof {
            lemma_map_of_keys(self.entries@, key@);
            if found {
                lemma_map_of_entry(self.entries@, i as int);
            } else {
                self.lemma_absent(key@, i as int);
            }
        }
        if found {
            Some(&self.entries[i].1)
        } else {
            None
        }
    }

    /// A key with no entry at its place is not in the table.
    proof fn lemma_absent(&self, k: Seq<char>, i: int)
        requires
            0 <= i <= self.entries@.len(),
            forall|j: int| 0 <= j < i ==> text::before(#[trigger] self.entries@[j].0@, k),
            forall|j: int| i <= j < self.entries@.len() ==> text::before(k, #[trigger] self.entries@[j].0@),
        ensures
            !self@.contains_key(k),
    {
        lemma_map_of_keys(self.entries@, k);
        if self@.contains_key(k) {
            let j = choose|j: int| 0 <= j < self.entries@.len() && #[trigger] self.entries@[j].0@ == k;
            if j < i {
                text::lemma_before_asymmetric(self.entries@[j].0@, k);
            } else {
                text::lemma_before_asymmetric(k, self.entries@[j].0@);
            }
        }
    }

    /// Whether `key` has a value.
    pub fn contains_key(&self, key: &str) -> (r: bool)
        ensures
            r == self@.contains_key(key@),
    {
        match self.get(key) {
            Some(_) => true,
            None => false,
        }
    }

    /// Puts `value` under `key`, in place of what stood there.
    pub fn insert(&mut self, key: String, value: V)
        ensures
            final(self)@ == old(self)@.insert(key@, value),
            ascending(final(self).entries()),
    {
        proof {
            use_type_invariant(&*self);
        }
        let mut entries: Vec<(String, V)> = Vec::new();
        std::mem::swap(&mut entries, &mut self.entries);
        let ghost s = entries@;
        let (i, found) = Self::place(&entries, key.as_str());
        let ghost k = key@;
        if found {
            entries.set(i, (key, value));
        } else {
            entries.insert(i, (key, value));
        }
        let ghost t = entries@;
        proof {
            assert(t[i as int].0@ == k && t[i as int].1 == value);
            assert(found ==> t.len() == s.len() && forall|j: int|
                0 <= j < t.len() && j != i ==> t[j] == s[j]);
            assert(!found ==> t.len() == s.len() + 1 && (forall|j: int| 0 <= j < i ==> t[j] == s[j])
                && (forall|j: int| i < j < t.len() ==> t[j] == s[j - 1]));
            assert forall|a: int, b: int| 0 <= a < b < t.len() implies text::before(
                #[trigger] t[a].0@,
                #[trigger] t[b].0@,
            ) by {
                let x = if found || a < i { a } else { a - 1 };
                let y = if found || b < i { b } else { b - 1 };
                if a == i {
                    if found {
                        assert(text::before(s[i as int].0@, s[b].0@));
                    } else {
                        assert(text::before(k, s[y].0@));
                    }
                } else if b == i {
                    assert(text::before(s[a].0@, k));
                } else {
                    assert(text::before(s[x].0@, s[y].0@));
                }
            }
            assert(ascending(t));
            lemma_replaced(s, t, i as int, found, k, value);
        }
        self.entries = entries;
    }

    /// Takes out what stands under `key`.
    pub fn remove(&mut self, key: &str) -> (r: Option<V>)
        ensures
            final(self)@ == old(self)@.remove(key@),
            match r {
                Some(v) => old(self)@.contains_key(key@) && v == old(self)@[key@],
                None => !old(self)@.contains_key(key@),
            },
    {
        proof {
            use_type_invariant(&*self);
        }
        let ghost before_call = *self;
        let mut entries: Vec<(String, V)> = Vec::new();
        std::mem::swap(&mut entries, &mut self.entries);
        let ghost s = entries@;
        let (i, found) = Self::place(&entries, key);
        if found {
            let (k, v) = entries.remove(i);
            let ghost t = entries@;
            proof {
                assert(forall|j: int| 0 <= j < i ==> t[j] == s[j]);
                assert(forall|j: int| i <= j < t.len() ==> t[j] == s[j + 1]);
                assert forall|a: int, b: int| 0 <= a < b < t.len() implies text::before(
                    #[trigger] t[a].0@,
                    #[trigger] t[b].0@,
                ) by {
                    let x = if a < i { a } else { a + 1 };
                    let y = if b < i { b } else { b + 1 };
                    assert(text::before(s[x].0@, s[y].0@));
                }
                assert(ascending(t));
                lemma_map_of_entry(s, i as int);
                lemma_removed(s, t, i as int);
            }
            self.entries = entries;
            Some(v)
        } else {
            proof {
                before_call.lemma_absent(key@, i as int);
                assert(map_of(s).remove(key@) =~= map_of(s));
            }
            self.entries = entries;
            None
        }
    }
}

/// Setting the entry at its place sets the value under its key.
proof fn lemma_replaced<V>(
    s: Seq<(String, V)>,
    t: Seq<(String, V)>,
    i: int,
    found: bool,
    k: Seq<char>,
    v: V,
)
    requires
        ascending(s),
        ascending(t),
        0 <= i < t.len(),
        t[i].0@ == k,
        t[i].1 == v,
        found ==> s[i].0@ == k && t.len() == s.len() && forall|j: int|
            0 <= j < t.len() && j != i ==> t[j] == s[j],
        !found ==> t.len() == s.len() + 1 && (forall|j: int| 0 <= j < i ==> t[j] == s[j]) && (
        forall|j: int| i < j < t.len() ==> t[j] == s[j - 1]),
    ensures
        map_of(t) == map_of(s).insert(k, v),
{
    let m = map_of(s);
    let n = map_of(t);
    assert forall|q: Seq<char>|
        #![trigger n.contains_key(q)]
        n.contains_key(q) == m.insert(k, v).contains_key(q) && (n.contains_key(q) ==> n[q]
            == m.insert(k, v)[q]) by {
        lemma_map_of_keys(s, q);
        lemma_map_of_keys(t, q);
        lemma_map_of_entry(t, i);
        if q != k {
            if n.contains_key(q) {
                let j = choose|j: int| 0 <= j < t.len() && #[trigger] t[j].0@ == q;
                let x = if found || j < i { j } else { j - 1 };
                assert(t[j] == s[x]);
                lemma_map_of_entry(t, j);
                lemma_map_of_entry(s, x);
            }
            if m.contains_key(q) {
                let x = choose|x: int| 0 <= x < s.len() && #[trigger] s[x].0@ == q;
                let j = if found || x < i { x } else { x + 1 };
                assert(t[j] == s[x]);
                assert(t[j].0@ == q);
            }
        }
    }
    assert(n =~= m.insert(k, v));
}

/// Taking out an entry takes out its key.
proof fn lemma_removed<V>(s: Seq<(String, V)>, t: Seq<(String, V)>, i: int)
    requires
        ascending(s),
        ascending(t),
        0 <= i < s.len(),
        t.len() == s.len() - 1,
        forall|j: int| 0 <= j < i ==> t[j] == s[j],
        forall|j: int| i <= j < t.len() ==> t[j] == s[j + 1],
    ensures
        map_of(t) == map_of(s).remove(s[i].0@),
{
    let m = map_of(s);
    let n = map_of(t);
    let k = s[i].0@;
    assert forall|q: Seq<char>|
        #![trigger n.contains_key(q)]
        n.contains_key(q) == m.remove(k).contains_key(q) && (n.contains_key(q) ==> n[q] == m.remove(
            k,
        )[q]) by {
        lemma_map_of_keys(s, q);
        lemma_map_of_keys(t, q);
        if n.contains_key(q) {
            let j = choose|j: int| 0 <= j < t.len() && #[trigger] t[j].0@ == q;
            let x = if j < i { j } else { j + 1 };
            assert(t[j] == s[x]);
            lemma_map_of_entry(t, j);
            lemma_map_of_entry(s, x);
            if q == k {
                lemma_ascending_distinct(s, x, i);
            }
        }
        if m.contains_key(q) && q != k {
            let x = choose|x: int| 0 <= x < s.len() && #[trigger] s[x].0@ == q;
            let j = if x < i { x } else { x - 1 };
            assert(t[j] == s[x]);
            assert(t[j].0@ == q);
        }
    }
    assert(n =~= m.remove(k));
}

}
