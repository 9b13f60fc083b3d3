//! Key-value tables: what a contract keeps under a family of storage keys.
use vstd::prelude::*;
use crate::types::{same_bytes, Address, Bytes32};

verus! {

/// A value that can key a [`Table`].
pub trait Key: Copy + Sized {
    /// Whether two keys are equal.
    fn same(&self, other: &Self) -> (r: bool)
        ensures
            r == (*self == *other),
    ;
}

impl Key for Address {
    fn same(&self, other: &Self) -> (r: bool) {
        self.same_as(other)
    }
}

impl Key for Bytes32 {
    fn same(&self, other: &Self) -> (r: bool) {
        self.same_as(other)
    }
}

impl Key for u32 {
    fn same(&self, other: &Self) -> (r: bool) {
        *self == *other
    }
}

/// A finite map, held as a list of entries in which no key occurs twice.
pub struct Table<K, V> {
    pub entries: Vec<(K, V)>,
}

/// Whether `key` occurs in `entries`.
pub open spec fn occurs<K, V>(entries: Seq<(K, V)>, key: K) -> bool {
    exists|i: int| 0 <= i < entries.len() && (#[trigger] entries[i]).0 == key
}

/// Where `key` occurs in `entries`.
pub open spec fn position<K, V>(entries: Seq<(K, V)>, key: K) -> int {
    choose|i: int| 0 <= i < entries.len() && (#[trigger] entries[i]).0 == key
}

/// The map that `entries` stands for: each key with the view of its value.
pub open spec fn contents<K, V: View>(entries: Seq<(K, V)>) -> Map<K, V::V> {
    Map::new(|k: K| occurs(entries, k), |k: K| entries[position(entries, k)].1@)
}

/// No key occurs twice.
pub open spec fn distinct_keys<K, V>(entries: Seq<(K, V)>) -> bool {
    forall|i: int, j: int|
        0 <= i < j < entries.len() ==> (#[trigger] entries[i]).0 != (#[trigger] entries[j]).0
}

/// An entry is what the map holds under its key.
pub proof fn lemma_entry<K, V: View>(entries: Seq<(K, V)>, i: int)
    requires
        distinct_keys(entries),
        0 <= i < entries.len(),
    ensures
        contents(entries).contains_key(entries[i].0),
        contents(entries)[entries[i].0] == entries[i].1@,
{
    let k = entries[i].0;
    assert(occurs(entries, k));
    let p = position(entries, k);
    assert(0 <= p < entries.len() && entries[p].0 == k);
    if p < i {
        assert(entries[p].0 != entries[i].0);
    } else if i < p {
        assert(entries[i].0 != entries[p].0);
    }
}

proof fn lemma_finite<K, V: View>(entries: Seq<(K, V)>)
    ensures
        contents(entries).dom().finite(),
    decreases entries.len(),
{
    if entries.len() == 0 {
        assert(contents(entries).dom() =~= Set::empty());
    } else {
        let rest = entries.drop_last();
        lemma_finite(rest);
        let last = entries.last().0;
        assert(contents(entries).dom() =~= contents(rest).dom().insert(last)) by {
            assert forall|k: K| #[trigger]
                contents(entries).dom().contains(k) implies contents(rest).dom().insert(
                last,
            ).contains(k) by {
                let i = position(entries, k);
                if i < rest.len() {
                    assert(rest[i].0 == k);
                    assert(occurs(rest, k));
                }
            }
            assert forall|k: K| #[trigger]
                contents(rest).dom().insert(last).contains(k) implies contents(
                entries,
            ).dom().contains(k) by {
                if k == last {
                    assert(entries[entries.len() - 1].0 == k);
                } else {
                    let i = position(rest, k);
                    assert(entries[i].0 == k);
                }
                assert(occurs(entries, k));
            }
        }
    }
}

impl<K, V: View> View for Table<K, V> {
    type V = Map<K, V::V>;

    open spec fn view(&self) -> Map<K, V::V> {
        contents(self.entries@)
    }
}

impl<K: Key, V: View> Table<K, V> {
    /// No key occurs twice.
    pub open spec fn wf(&self) -> bool {
        distinct_keys(self.entries@)
    }

    /// The empty table.
    pub fn new() -> (r: Self)
        ensures
            r.wf(),
            r@ == Map::<K, V::V>::empty(),
    {
        let r = Table { entries: Vec::new() };
        assert(r@ =~= Map::<K, V::V>::empty());
        r
    }

    /// A table holds finitely many keys.
    pub proof fn lemma_finite_keys(&self)
        ensures
            self@.dom().finite(),
    {
        lemma_finite(self.entries@);
    }

    fn find(&self, key: K) -> (r: Option<usize>)
        requires
            self.wf(),
        ensures
            match r {
                Some(i) => i < self.entries@.len() && self.entries@[i as int].0 == key,
                None => !self@.contains_key(key),
            },
    {
        let mut i: usize = 0;
        while i < self.entries.len()
            invariant
                i <= self.entries@.len(),
                forall|j: int| 0 <= j < i ==> (#[trigger] self.entries@[j]).0 != key,
            decreases self.entries@.len() - i,
        {
            if self.entries[i].0.same(&key) {
                return Some(i);
            }
            i += 1;
        }
        None
    }

    /// Whether an entry is stored under `key`.
    pub fn has(&self, key: K) -> (r: bool)
        requires
            self.wf(),
        ensures
            r == self@.contains_key(key),
    {
        match self.find(key) {
            Some(i) => {
                proof {
                    lemma_entry(self.entries@, i as int);
                }
                true
            },
            None => false,
        }
    }

    /// The entry stored under `key`.
    pub fn get(&self, key: K) -> (r: Option<&V>)
        requires
            self.wf(),
        ensures
            match r {
                Some(v) => self@.contains_key(key) && v@ == self@[key],
                None => !self@.contains_key(key),
            },
    {
        match self.find(key) {
            Some(i) => {
                proof {
                    lemma_entry(self.entries@, i as int);
                }
                Some(&self.entries[i].1)
            },
            None => None,
        }
    }

    /// Stores `value` under `key`, in place of what was stored there.
    pub fn set(&mut self, key: K, value: V)
        requires
            old(self).wf(),
        ensures
            final(self).wf(),
            final(self)@ == old(self)@.insert(key, value@),
    {
        let ghost before = self.entries@;
        match self.find(key) {
            Some(i) => {
                self.entries.set(i, (key, value));
                proof {
                    lemma_replace(before, i as int, value);
                }
            },
            None => {
                self.entries.push((key, value));
                proof {
                    lemma_append(before, key, value);
                }
            },
        }
    }

    /// The entry stored under `key`, to be changed in place.
    pub fn entry_mut(&mut self, key: K) -> (r: &mut V)
        requires
            old(self).wf(),
            old(self)@.contains_key(key),
        ensures
            r@ == old(self)@[key],
            final(self).wf(),
            final(self)@ == old(self)@.insert(key, (*final(r))@),
    {
        let found = self.find(key);
        let i: usize = match found {
            Some(i) => i,
            None => {
                proof {
                    assert(false);
                }
                0
            },
        };
        proof {
            lemma_entry(self.entries@, i as int);
            assert forall|v: V| #![trigger self.entries@.update(i as int, (key, v))]
                distinct_keys(self.entries@.update(i as int, (key, v))) && contents(
                    self.entries@.update(i as int, (key, v)),
                ) == contents(self.entries@).insert(key, v@) by {
                lemma_replace(self.entries@, i as int, v);
            }
        }
        &mut self.entries[i].1
    }

    /// Removes what is stored under `key`, if anything is.
    pub fn remove(&mut self, key: K)
        requires
            old(self).wf(),
        ensures
            final(self).wf(),
            final(self)@ == old(self)@.remove(key),
    {
        let ghost before = self.entries@;
        match self.find(key) {
            Some(i) => {
                self.entries.remove(i);
                proof {
                    lemma_delete(before, i as int);
                }
            },
            None => {
                assert(self@ =~= old(self)@.remove(key));
            },
        }
    }
}

proof fn lemma_replace<K, V: View>(entries: Seq<(K, V)>, i: int, value: V)
    requires
        distinct_keys(entries),
        0 <= i < entries.len(),
    ensures
        distinct_keys(entries.update(i, (entries[i].0, value))),
        contents(entries.update(i, (entries[i].0, value))) == contents(entries).insert(
            entries[i].0,
            value@,
        ),
{
    let key = entries[i].0;
    let after = entries.update(i, (key, value));
    assert forall|a: int, b: int| 0 <= a < b < after.len() implies (#[trigger] after[a]).0 != (
    #[trigger] after[b]).0 by {
        assert(after[a].0 == entries[a].0 && after[b].0 == entries[b].0);
        assert(entries[a].0 != entries[b].0);
    }
    assert forall|k: K| #[trigger] contents(after).contains_key(k) == contents(entries).insert(
        key,
        value@,
    ).contains_key(k) by {
        if occurs(after, k) {
            let p = position(after, k);
            assert(entries[p].0 == k);
            assert(occurs(entries, k));
        }
        if k == key || occurs(entries, k) {
            let p = if k == key { i } else { position(entries, k) };
            assert(entries[p].0 == k);
            assert(after[p].0 == k);
            assert(occurs(after, k));
        }
    }
    assert forall|k: K| #[trigger] contents(after).contains_key(k) implies contents(after)[k]
        == contents(entries).insert(key, value@)[k] by {
        let p = position(after, k);
        lemma_entry(after, p);
        lemma_entry(entries, p);
        if p == i {
        } else {
            lemma_entry(after, i);
            if k == key {
                if p < i {
                    assert(after[p].0 != after[i].0);
                } else {
                    assert(after[i].0 != after[p].0);
                }
            }
        }
    }
    assert(contents(after) =~= contents(entries).insert(key, value@));
}

proof fn lemma_append<K, V: View>(entries: Seq<(K, V)>, key: K, value: V)
    requires
        distinct_keys(entries),
        !contents(entries).contains_key(key),
    ensures
        distinct_keys(entries.push((key, value))),
        contents(entries.push((key, value))) == contents(entries).insert(key, value@),
{
    let after = entries.push((key, value));
    assert forall|a: int, b: int| 0 <= a < b < after.len() implies (#[trigger] after[a]).0 != (
    #[trigger] after[b]).0 by {
        assert(after[a].0 == entries[a].0);
        if b == entries.len() {
            if entries[a].0 == key {
                assert(occurs(entries, key));
            }
        } else {
            assert(after[b].0 == entries[b].0);
            assert(entries[a].0 != entries[b].0);
        }
    }
    assert forall|k: K| #[trigger] contents(after).contains_key(k) == contents(entries).insert(
        key,
        value@,
    ).contains_key(k) by {
        if occurs(after, k) {
            let p = position(after, k);
            if p < entries.len() {
                assert(entries[p].0 == k);
                assert(occurs(entries, k));
            }
        }
        if k == key {
            assert(after[entries.len() as int].0 == k);
            assert(occurs(after, k));
        } else if occurs(entries, k) {
            let p = position(entries, k);
            assert(after[p].0 == k);
            assert(occurs(after, k));
        }
    }
    assert forall|k: K| #[trigger] contents(after).contains_key(k) implies contents(after)[k]
        == contents(entries).insert(key, value@)[k] by {
        let p = position(after, k);
        lemma_entry(after, p);
        if p < entries.len() {
            assert(after[p] == entries[p]);
            lemma_entry(entries, p);
            assert(k != key);
        } else {
            assert(after[p] == (key, value));
        }
    }
    assert(contents(after) =~= contents(entries).insert(key, value@));
}

proof fn lemma_delete<K, V: View>(entries: Seq<(K, V)>, i: int)
    requires
        distinct_keys(entries),
        0 <= i < entries.len(),
    ensures
        distinct_keys(entries.remove(i)),
        contents(entries.remove(i)) == contents(entries).remove(entries[i].0),
{
    let key = entries[i].0;
    let after = entries.remove(i);
    let origin = |a: int| if a < i { a } else { a + 1 };
    assert(forall|a: int| 0 <= a < after.len() ==> #[trigger] after[a] == entries[origin(a)]);
    assert forall|a: int, b: int| 0 <= a < b < after.len() implies (#[trigger] after[a]).0 != (
    #[trigger] after[b]).0 by {
        assert(entries[origin(a)].0 != entries[origin(b)].0);
    }
    assert forall|k: K| #[trigger] contents(after).contains_key(k) == contents(entries).remove(
        key,
    ).contains_key(k) by {
        if occurs(after, k) {
            let p = position(after, k);
            let q = origin(p);
            assert(entries[q].0 == k);
            assert(occurs(entries, k));
            if k == key {
                if q < i {
                    assert(entries[q].0 != entries[i].0);
                } else {
                    assert(entries[i].0 != entries[q].0);
                }
            }
        }
        if k != key && occurs(entries, k) {
            let p = position(entries, k);
            let q = if p < i { p } else { p - 1 };
            assert(after[q].0 == k);
            assert(occurs(after, k));
        }
    }
    assert forall|k: K| #[trigger] contents(after).contains_key(k) implies contents(after)[k]
        == contents(entries).remove(key)[k] by {
        let p = position(after, k);
        lemma_entry(after, p);
        lemma_entry(entries, origin(p));
    }
    assert(contents(after) =~= contents(entries).remove(key));
}

/// A finite set of byte strings.
pub struct TextSet {
    pub texts: Vec<Vec<u8>>,
}

impl View for TextSet {
    type V = Set<Seq<u8>>;

    open spec fn view(&self) -> Set<Seq<u8>> {
        Set::new(
            |t: Seq<u8>|
                exists|i: int| 0 <= i < self.texts@.len() && (#[trigger] self.texts@[i])@ == t,
        )
    }
}

impl TextSet {
    /// The empty set.
    pub fn new() -> (r: Self)
        ensures
            r@ == Set::<Seq<u8>>::empty(),
    {
        let r = TextSet { texts: Vec::new() };
        assert(r@ =~= Set::<Seq<u8>>::empty());
        r
    }

    /// Whether `text` is in the set.
    pub fn has(&self, text: &Vec<u8>) -> (r: bool)
        ensures
            r == self@.contains(text@),
    {
        let mut i: usize = 0;
        while i < self.texts.len()
            invariant
                i <= self.texts@.len(),
                forall|j: int| 0 <= j < i ==> (#[trigger] self.texts@[j])@ != text@,
            decreases self.texts@.len() - i,
        {
            if same_bytes(&self.texts[i], text) {
                return true;
            }
            i += 1;
        }
        false
    }

    /// Puts `text` into the set.
    pub fn add(&mut self, text: Vec<u8>)
        ensures
            final(self)@ == old(self)@.insert(text@),
    {
        let ghost before = self.texts@;
        self.texts.push(text);
        proof {
            let after = self.texts@;
            assert forall|t: Seq<u8>| #[trigger]
                self@.contains(t) == old(self)@.insert(text@).contains(t) by {
                if exists|i: int| 0 <= i < after.len() && (#[trigger] after[i])@ == t {
                    let i = choose|i: int| 0 <= i < after.len() && (#[trigger] after[i])@ == t;
                    if i < before.len() {
                        assert(before[i]@ == t);
                    }
                }
                if old(self)@.contains(t) {
                    let i = choose|i: int| 0 <= i < before.len() && (#[trigger] before[i])@ == t;
                    assert(after[i]@ == t);
                }
                if t == text@ {
                    assert(after[before.len() as int]@ == t);
                }
            }
            assert(self@ =~= old(self)@.insert(text@));
        }
    }

    /// Takes `text` out of the set.
    pub fn remove(&mut self, text: &Vec<u8>)
        ensures
            final(self)@ == old(self)@.remove(text@),
    {
        let ghost before = self.texts@;
        let mut i: usize = 0;
        while i < self.texts.len()
            invariant
                i <= self.texts@.len(),
                before == old(self).texts@,
                forall|j: int| 0 <= j < i ==> (#[trigger] self.texts@[j])@ != text@,
                forall|j: int|
                    0 <= j < self.texts@.len() ==> before.contains(#[trigger] self.texts@[j]),
                forall|j: int|
                    0 <= j < before.len() && (#[trigger] before[j])@ != text@
                        ==> self.texts@.contains(before[j]),
            decreases self.texts@.len() - i,
        {
            if same_bytes(&self.texts[i], text) {
                let ghost now = self.texts@;
                self.texts.remove(i);
                proof {
                    let next = self.texts@;
                    assert forall|j: int| 0 <= j < next.len() implies before.contains(
                        #[trigger] next[j],
                    ) by {
                        let o = if j < i { j } else { j + 1 };
                        assert(next[j] == now[o]);
                    }
                    assert forall|j: int|
                        0 <= j < before.len() && (#[trigger] before[j])@
                            != text@ implies next.contains(before[j]) by {
                        let o = choose|o: int| 0 <= o < now.len() && now[o] == before[j];
                        let p = if o < i { o } else { o - 1 };
                        assert(o != i);
                        assert(next[p] == before[j]);
                    }
                }
            } else {
                i += 1;
            }
        }
        proof {
            let after = self.texts@;
            assert forall|t: Seq<u8>| #[trigger]
                self@.contains(t) == old(self)@.remove(text@).contains(t) by {
                if exists|i: int| 0 <= i < after.len() && (#[trigger] after[i])@ == t {
                    let i = choose|i: int| 0 <= i < after.len() && (#[trigger] after[i])@ == t;
                    assert(before.contains(after[i]));
                    let o = choose|o: int| 0 <= o < before.len() && before[o] == after[i];
                    assert(before[o]@ == t);
                }
                if old(self)@.contains(t) && t != text@ {
                    let i = choose|i: int| 0 <= i < before.len() && (#[trigger] before[i])@ == t;
                    assert(after.contains(before[i]));
                    let o = choose|o: int| 0 <= o < after.len() && after[o] == before[i];
                    assert(after[o]@ == t);
                }
            }
            assert(self@ =~= old(self)@.remove(text@));
        }
    }
}

} // verus!
