//! A map kept sorted by key, over a vector.

use vstd::prelude::*;

use crate::text::{lemma_text_order, text_before, text_precedes};

verus! {

/// A key with a strict total order on what identifies it.
pub trait OrderedKey: Sized {
    /// What identifies a key: two keys with the same identity are the same key.
    type Id;

    spec fn id(&self) -> Self::Id;

    spec fn before(a: Self::Id, b: Self::Id) -> bool;

    proof fn lemma_order(a: Self::Id, b: Self::Id, c: Self::Id)
        ensures
            !Self::before(a, a),
            Self::before(a, b) && Self::before(b, c) ==> Self::before(a, c),
            Self::before(a, b) || Self::before(b, a) || a == b,
    ;

    /// Whether this key comes before the other one.
    fn precedes(&self, other: &Self) -> (r: bool)
        ensures
            r == Self::before(self.id(), other.id()),
    ;
}

impl OrderedKey for String {
    type Id = Seq<char>;

    open spec fn id(&self) -> Seq<char> {
        self@
    }

    open spec fn before(a: Seq<char>, b: Seq<char>) -> bool {
        text_before(a, b)
    }

    proof fn lemma_order(a: Seq<char>, b: Seq<char>, c: Seq<char>) {
        lemma_text_order(a, b, c);
    }

    fn precedes(&self, other: &Self) -> (r: bool) {
        text_precedes(self.as_str(), other.as_str())
    }
}

/// Whether the keys of the entries ascend strictly, so that no key occurs twice.
pub open spec fn ascending<K: OrderedKey, V>(entries: Seq<(K, V)>) -> bool {
    forall|i: int, j: int|
        #![trigger entries[i], entries[j]]
        0 <= i < j < entries.len() ==> K::before(entries[i].0.id(), entries[j].0.id())
}

/// Whether the entry at position `i` has the key `id`.
pub open spec fn entry_at<K: OrderedKey, V>(entries: Seq<(K, V)>, id: K::Id, i: int) -> bool {
    0 <= i < entries.len() && entries[i].0.id() == id
}

/// Whether some entry has the key `id`.
pub open spec fn has_entry<K: OrderedKey, V>(entries: Seq<(K, V)>, id: K::Id) -> bool {
    exists|i: int| entry_at(entries, id, i)
}

/// The value of the entry with the key `id`.
pub open spec fn entry_value<K: OrderedKey, V>(entries: Seq<(K, V)>, id: K::Id) -> V {
    entries[choose|i: int| entry_at(entries, id, i)].1
}

/// The map that the entries stand for.
pub open spec fn entries_map<K: OrderedKey, V>(entries: Seq<(K, V)>) -> Map<K::Id, V> {
    Map::new(|id: K::Id| has_entry(entries, id), |id: K::Id| entry_value(entries, id))
}

/// A map whose entries are kept in the order of their keys.
pub struct SortedMap<K: OrderedKey, V> {
    entries: Vec<(K, V)>,
}

impl<K: OrderedKey, V> View for SortedMap<K, V> {
    type V = Map<K::Id, V>;

    open spec fn view(&self) -> Map<K::Id, V> {
        entries_map(self.entries())
    }
}

/// In ascending entries a key has one position, so the map holds the value found there.
pub proof fn lemma_entry<K: OrderedKey, V>(entries: Seq<(K, V)>, i: int)
    requires
        ascending(entries),
        0 <= i < entries.len(),
    ensures
        entries_map(entries).contains_key(entries[i].0.id()),
        entries_map(entries)[entries[i].0.id()] == entries[i].1,
        forall|j: int| entry_at(entries, entries[i].0.id(), j) ==> j == i,
{
    let id = entries[i].0.id();
    assert(entry_at(entries, id, i));
    assert forall|j: int| entry_at(entries, id, j) implies j == i by {
        K::lemma_order(id, id, id);
        if j < i {
            assert(K::before(entries[j].0.id(), entries[i].0.id()));
        } else if i < j {
            assert(K::before(entries[i].0.id(), entries[j].0.id()));
        }
    }
    assert(entry_at(entries, id, choose|j: int| entry_at(entries, id, j)));
}

/// Ascending entries that stand for the same map are the same in number and order: the
/// order of the keys leaves no choice.
pub proof fn law_order_is_unique<K: OrderedKey, V>(a: Seq<(K, V)>, b: Seq<(K, V)>)
    requires
        ascending(a),
        ascending(b),
        entries_map(a) == entries_map(b),
    ensures
        a.len() == b.len(),
        forall|i: int| #![auto] 0 <= i < a.len() ==> a[i].0.id() == b[i].0.id() && a[i].1 == b[i].1,
    decreases a.len(),
{
    if a.len() == 0 {
        if b.len() > 0 {
            lemma_entry(b, 0);
            let id = b[0].0.id();
            assert(entries_map(a).contains_key(id));
            assert(has_entry(a, id));
        }
    } else {
        let m = a.len() - 1;
        lemma_entry(a, m);
        assert(has_entry(b, a[m].0.id()));
        let n = b.len() - 1;
        lemma_entry(b, n);
        assert(has_entry(a, b[n].0.id()));
        let i = choose|i: int| entry_at(b, a[m].0.id(), i);
        let j = choose|j: int| entry_at(a, b[n].0.id(), j);
        K::lemma_order(a[m].0.id(), b[n].0.id(), a[m].0.id());
        assert(a[m].0.id() == b[n].0.id()) by {
            if i < n {
                assert(K::before(b[i].0.id(), b[n].0.id()));
            }
            if j < m {
                assert(K::before(a[j].0.id(), a[m].0.id()));
            }
        }
        let last = a[m].0.id();
        let x = a.drop_last();
        let y = b.drop_last();
        assert(entries_map(x) =~= entries_map(a).remove(last)) by {
            lemma_drop_last(a);
        }
        assert(entries_map(y) =~= entries_map(b).remove(last)) by {
            lemma_drop_last(b);
        }
        law_order_is_unique(x, y);
        assert forall|k: int| #![auto] 0 <= k < a.len() implies a[k].0.id() == b[k].0.id() && a[k].1
            == b[k].1 by {
            if k < m {
                assert(x[k] == a[k] && y[k] == b[k]);
            }
        }
    }
}

proof fn lemma_drop_last<K: OrderedKey, V>(a: Seq<(K, V)>)
    requires
        ascending(a),
        a.len() > 0,
    ensures
        ascending(a.drop_last()),
        entries_map(a.drop_last()) == entries_map(a).remove(a.last().0.id()),
{
    let x = a.drop_last();
    let m = a.len() - 1;
    let last = a[m].0.id();
    assert forall|i: int, j: int|
        #![trigger x[i], x[j]]
        0 <= i < j < x.len() implies K::before(x[i].0.id(), x[j].0.id()) by {
        assert(x[i] == a[i] && x[j] == a[j]);
    }
    assert forall|id: K::Id| #[trigger]
        entries_map(x).contains_key(id) == (entries_map(a).contains_key(id) && id != last) by {
        if has_entry(x, id) {
            let i = choose|i: int| entry_at(x, id, i);
            assert(entry_at(a, id, i));
            lemma_entry(a, i);
            lemma_entry(a, m);
        }
        if has_entry(a, id) && id != last {
            let i = choose|i: int| entry_at(a, id, i);
            assert(entry_at(x, id, i));
        }
    }
    assert forall|id: K::Id| #[trigger] entries_map(x).contains_key(id) implies entries_map(x)[id]
        == entries_map(a)[id] by {
        let i = choose|i: int| entry_at(x, id, i);
        lemma_entry(x, i);
        lemma_entry(a, i);
    }
    assert(entries_map(x) =~= entries_map(a).remove(last));
}

impl<K: OrderedKey, V> SortedMap<K, V> {
    /// The entries in the order of their keys.
    pub closed spec fn entries(&self) -> Seq<(K, V)> {
        self.entries@
    }

    /// The keys of the entries ascend strictly.
    pub open spec fn wf(&self) -> bool {
        ascending(self.entries())
    }

    /// A map without entries.
    pub fn new() -> (r: Self)
        ensures
            r.wf(),
            r.entries() == Seq::<(K, V)>::empty(),
            r@ == Map::<K::Id, V>::empty(),
    {
        let r = SortedMap { entries: Vec::new() };
        assert(r@ =~= Map::<K::Id, V>::empty()) by {
            assert forall|id: K::Id| !has_entry(r.entries(), id) by {}
        }
        r
    }

    /// The number of entries.
    pub fn len(&self) -> (r: usize)
        ensures
            r == self.entries().len(),
    {
        self.entries.len()
    }

    /// The entry at a position, counted in the order of the keys.
    pub fn entry(&self, i: usize) -> (r: &(K, V))
        requires
            i < self.entries().len(),
        ensures
            *r == self.entries()[i as int],
    {
        &self.entries[i]
    }

    /// The values in the order of their keys.
    pub fn values(&self) -> (r: Vec<&V>)
        ensures
            r@.len() == self.entries().len(),
            forall|i: int|
                #![trigger r@[i]]
                0 <= i < r@.len() ==> *r@[i] == self.entries()[i].1,
    {
        let mut r: Vec<&V> = Vec::new();
        let mut i: usize = 0;
        while i < self.entries.len()
            invariant
                i <= self.entries@.len(),
                r@.len() == i,
                forall|j: int|
                    #![trigger r@[j]]
                    0 <= j < i ==> *r@[j] == self.entries@[j].1,
            decreases self.entries@.len() - i,
        {
            r.push(&self.entries[i].1);
            i = i + 1;
        }
        r
    }

    /// The entries, handed out in the order of their keys.
    pub fn into_entries(self) -> (r: Vec<(K, V)>)
        ensures
            r@ == self.entries(),
    {
        self.entries
    }

    /// The position of the first entry whose key does not come before `key`.
    fn position(&self, key: &K) -> (p: usize)
        requires
            self.wf(),
        ensures
            p <= self.entries().len(),
            forall|i: int|
                0 <= i < p ==> K::before(#[trigger] self.entries()[i].0.id(), key.id()),
            p < self.entries().len() ==> !K::before(self.entries()[p as int].0.id(), key.id()),
    {
        let mut p: usize = 0;
        while p < self.entries.len()
            invariant
                p <= self.entries@.len(),
                forall|i: int|
                    0 <= i < p ==> K::before(#[trigger] self.entries@[i].0.id(), key.id()),
            decreases self.entries@.len() - p,
        {
            if !self.entries[p].0.precedes(key) {
                return p;
            }
            p = p + 1;
        }
        p
    }

    /// The value of a key.
    pub fn get(&self, key: &K) -> (r: Option<&V>)
        requires
            self.wf(),
        ensures
            r is Some == self@.contains_key(key.id()),
            r is Some ==> *r->0 == self@[key.id()],
    {
        let p = self.position(key);
        if p < self.entries.len() && !key.precedes(&self.entries[p].0) {
            proof {
                K::lemma_order(key.id(), self.entries()[p as int].0.id(), key.id());
                lemma_entry(self.entries(), p as int);
            }
            Some(&self.entries[p].1)
        } else {
            proof {
                self.lemma_absent(key.id(), p as int);
            }
            None
        }
    }

    proof fn lemma_absent(&self, id: K::Id, p: int)
        requires
            self.wf(),
            0 <= p <= self.entries().len(),
            forall|i: int| 0 <= i < p ==> K::before(#[trigger] self.entries()[i].0.id(), id),
            p < self.entries().len() ==> K::before(id, self.entries()[p].0.id()),
        ensures
            !has_entry(self.entries(), id),
    {
        if has_entry(self.entries(), id) {
            let i = choose|i: int| entry_at(self.entries(), id, i);
            K::lemma_order(id, id, id);
            if i < p {
                assert(K::before(self.entries()[i].0.id(), id));
            } else if i > p {
                assert(K::before(self.entries()[p].0.id(), self.entries()[i].0.id()));
                K::lemma_order(id, self.entries()[p].0.id(), id);
            }
        }
    }

    /// Whether a key has a value.
    pub fn contains_key(&self, key: &K) -> (r: bool)
        requires
            self.wf(),
        ensures
            r == self@.contains_key(key.id()),
    {
        self.get(key).is_some()
    }

    /// Gives a key a value, in place of the one it had.
    pub fn insert(&mut self, key: K, value: V)
        requires
            old(self).wf(),
        ensures
            final(self).wf(),
            final(self)@ == old(self)@.insert(key.id(), value),
            final(self).entries().len() == old(self).entries().len() + if old(
                self,
            )@.contains_key(key.id()) {
                0int
            } else {
                1int
            },
            final(self).entries().contains((key, value)),
            forall|e: (K, V)|
                #![trigger final(self).entries().contains(e)]
                e.0.id() != key.id() ==> final(self).entries().contains(e) == old(
                    self,
                ).entries().contains(e),
            forall|e: (K, V)|
                #![trigger final(self).entries().contains(e)]
                e.0.id() == key.id() && final(self).entries().contains(e) ==> e == (key, value),
    {
        let ghost before = self.entries@;
        let p = self.position(&key);
        let ghost id = key.id();
        let ghost entry = (key, value);
        if p < self.entries.len() && !key.precedes(&self.entries[p].0) {
            proof {
                K::lemma_order(id, before[p as int].0.id(), id);
                lemma_entry(before, p as int);
            }
            self.entries.set(p, (key, value));
            proof {
                let after = self.entries@;
                assert(after =~= before.update(p as int, entry));
                assert(ascending(after)) by {
                    assert forall|i: int, j: int|
                        #![trigger after[i], after[j]]
                        0 <= i < j < after.len() implies K::before(
                        after[i].0.id(),
                        after[j].0.id(),
                    ) by {
                        assert(K::before(before[i].0.id(), before[j].0.id()));
                    }
                }
                Self::lemma_changed(before, after, entry, p as int, p as int);
            }
        } else {
            proof {
                self.lemma_absent(id, p as int);
            }
            self.entries.insert(p, (key, value));
            proof {
                let after = self.entries@;
                assert(after =~= before.insert(p as int, entry));
                assert(ascending(after)) by {
                    assert forall|i: int, j: int|
                        #![trigger after[i], after[j]]
                        0 <= i < j < after.len() implies K::before(
                        after[i].0.id(),
                        after[j].0.id(),
                    ) by {
                        let oi = if i <= p { i } else { i - 1 };
                        let oj = if j <= p { j } else { j - 1 };
                        if i == p {
                            assert(after[j] == before[j - 1]);
                            if j - 1 > p {
                                assert(K::before(before[p as int].0.id(), before[j - 1].0.id()));
                                K::lemma_order(id, before[p as int].0.id(), before[j - 1].0.id());
                            }
                        } else if j == p {
                            assert(after[i] == before[i]);
                        } else {
                            assert(after[i] == before[oi]);
                            assert(after[j] == before[oj]);
                            assert(K::before(before[oi].0.id(), before[oj].0.id()));
                        }
                    }
                }
                Self::lemma_changed(before, after, entry, p as int, p + 1);
            }
        }
    }

    /// Putting `entry` at position `p`, in place of the entries from `p` up to `q` less one,
    /// none of which has another key, adds it to the map.
    proof fn lemma_changed(before: Seq<(K, V)>, after: Seq<(K, V)>, entry: (K, V), p: int, q: int)
        requires
            ascending(before),
            ascending(after),
            0 <= p < after.len(),
            p <= q <= p + 1,
            after[p] == entry,
            after.len() == before.len() + (q - p),
            forall|i: int| 0 <= i < p ==> after[i] == before[i],
            forall|i: int| p < i < after.len() ==> after[i] == before[i - (q - p)],
            q == p ==> before[p].0.id() == entry.0.id(),
            q == p + 1 ==> !has_entry(before, entry.0.id()),
        ensures
            entries_map(after) == entries_map(before).insert(entry.0.id(), entry.1),
            after.contains(entry),
            q == p ==> has_entry(before, entry.0.id()),
            forall|e: (K, V)|
                #![trigger after.contains(e)]
                e.0.id() != entry.0.id() ==> after.contains(e) == before.contains(e),
            forall|e: (K, V)|
                #![trigger after.contains(e)]
                e.0.id() == entry.0.id() && after.contains(e) ==> e == entry,
    {
        let id = entry.0.id();
        let d = q - p;
        lemma_entry(after, p);
        if q == p {
            assert(entry_at(before, id, p));
        }
        assert forall|x: K::Id| x != id implies #[trigger] has_entry(after, x) == has_entry(
            before,
            x,
        ) && (has_entry(before, x) ==> entry_value(after, x) == entry_value(before, x)) by {
            if has_entry(after, x) {
                let i = choose|i: int| entry_at(after, x, i);
                let o = if i < p { i } else { i - d };
                assert(after[i] == before[o]);
                assert(entry_at(before, x, o));
                lemma_entry(after, i);
                lemma_entry(before, o);
            }
            if has_entry(before, x) {
                let o = choose|o: int| entry_at(before, x, o);
                if q == p {
                    lemma_entry(before, p);
                }
                let i = if o < p { o } else { o + d };
                assert(after[i] == before[o]);
                assert(entry_at(after, x, i));
            }
        }
        assert(entries_map(after) =~= entries_map(before).insert(id, entry.1));
        assert(after[p] == entry);
        assert forall|e: (K, V)| #![trigger after.contains(e)] e.0.id() != id implies after.contains(
            e,
        ) == before.contains(e) by {
            if after.contains(e) {
                let i = choose|i: int| 0 <= i < after.len() && after[i] == e;
                let o = if i < p { i } else { i - d };
                assert(before[o] == e);
            }
            if before.contains(e) {
                let o = choose|o: int| 0 <= o < before.len() && before[o] == e;
                let i = if o < p { o } else { o + d };
                assert(after[i] == e);
            }
        }
        assert forall|e: (K, V)|
            #![trigger after.contains(e)]
            e.0.id() == id && after.contains(e) implies e == entry by {
            let i = choose|i: int| 0 <= i < after.len() && after[i] == e;
            assert(entry_at(after, id, i));
        }
    }
}

impl<K: OrderedKey + Clone, V: Clone> Clone for SortedMap<K, V> {
    fn clone(&self) -> (r: Self)
        ensures
            r.entries().len() == self.entries().len(),
            forall|i: int|
                #![trigger r.entries()[i]]
                0 <= i < self.entries().len() ==> cloned::<K>(
                    self.entries()[i].0,
                    r.entries()[i].0,
                ) && cloned::<V>(self.entries()[i].1, r.entries()[i].1),
    {
        let mut entries: Vec<(K, V)> = Vec::new();
        let mut i: usize = 0;
        while i < self.entries.len()
            invariant
                i <= self.entries@.len(),
                entries@.len() == i,
                forall|j: int|
                    #![trigger entries@[j]]
                    0 <= j < i ==> cloned::<K>(self.entries@[j].0, entries@[j].0) && cloned::<V>(
                        self.entries@[j].1,
                        entries@[j].1,
                    ),
            decreases self.entries@.len() - i,
        {
            entries.push((self.entries[i].0.clone(), self.entries[i].1.clone()));
            i = i + 1;
        }
        SortedMap { entries }
    }
}

} // verus!
