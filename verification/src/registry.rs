//! Tables of records found by a 128-bit identifier.
//!
//! The identifiers are indexed by a [`dashmap::DashMap`], which says in which row the
//! record stands.

use dashmap::DashMap;
use vstd::prelude::*;

verus! {

/// The concurrent map of the crate `dashmap`. Nothing inside it is known but its entries,
/// see [`index_entries`].
#[verifier::external_type_specification]
#[verifier::external_body]
#[verifier::reject_recursive_types(K)]
#[verifier::reject_recursive_types(V)]
#[verifier::reject_recursive_types(S)]
pub struct ExDashMap<K, V, S>(DashMap<K, V, S>);

/// The entries of an index: which row each identifier stands in.
pub uninterp spec fn index_entries(index: DashMap<u128, usize>) -> Map<u128, usize>;

/// `DashMap::new`: the map has no entries.
#[verifier::external_body]
fn index_new() -> (r: DashMap<u128, usize>)
    ensures
        forall|key: u128| !index_entries(r).contains_key(key),
{
    DashMap::new()
}

/// `DashMap::insert`: the key maps to the value afterwards, and every other key to what it
/// mapped to before. The map is borrowed mutably, so nobody else changes it meanwhile.
#[verifier::external_body]
fn index_insert(index: &mut DashMap<u128, usize>, key: u128, row: usize)
    ensures
        index_entries(*final(index)) == index_entries(*old(index)).insert(key, row),
{
    index.insert(key, row);
}

/// `DashMap::get`: the value that the key maps to, if there is one.
#[verifier::external_body]
fn index_get(index: &DashMap<u128, usize>, key: u128) -> (r: Option<usize>)
    ensures
        r == (if index_entries(*index).contains_key(key) {
            Some(index_entries(*index)[key])
        } else {
            None
        }),
{
    index.get(&key).map(|row| *row.value())
}

/// `DashMap::iter`: a walk that meets every key once. The order of the walk depends on a
/// hasher that is seeded anew for each map, so nothing is said of it.
#[verifier::external_body]
fn index_walk(index: &DashMap<u128, usize>) -> (r: Vec<u128>)
    ensures
        r@.no_duplicates(),
        forall|key: u128| #[trigger] r@.contains(key) <==> index_entries(*index).contains_key(key),
{
    index.iter().map(|entry| *entry.key()).collect()
}

/// Whether a walk meets every key of the map exactly once.
pub open spec fn is_walk<V>(walk: Seq<u128>, records: Map<u128, V>) -> bool {
    &&& walk.no_duplicates()
    &&& forall|key: u128| #[trigger] walk.contains(key) <==> records.contains_key(key)
}

/// Records of one kind, each found by its identifier.
pub struct Registry<V> {
    index: DashMap<u128, usize>,
    rows: Vec<V>,
}

impl<V> View for Registry<V> {
    type V = Map<u128, V>;

    closed spec fn view(&self) -> Map<u128, V> {
        Map::new(
            |key: u128| index_entries(self.index).contains_key(key),
            |key: u128| self.rows@[index_entries(self.index)[key] as int],
        )
    }
}

impl<V> Registry<V> {
    /// Every identifier stands in a row of its own.
    pub closed spec fn wf(&self) -> bool {
        let entries = index_entries(self.index);
        &&& forall|key: u128| #[trigger]
            entries.contains_key(key) ==> 0 <= entries[key] < self.rows@.len()
        &&& forall|a: u128, b: u128|
            #![trigger entries[a], entries[b]]
            entries.contains_key(a) && entries.contains_key(b) && entries[a] == entries[b] ==> a
                == b
    }

    /// A registry without records.
    pub fn new() -> (r: Self)
        ensures
            r.wf(),
            r@ == Map::<u128, V>::empty(),
    {
        let r = Registry { index: index_new(), rows: Vec::new() };
        assert(r@ =~= Map::<u128, V>::empty());
        r
    }

    /// The record with the given identifier.
    pub fn get(&self, key: u128) -> (r: Option<&V>)
        requires
            self.wf(),
        ensures
            r is Some == self@.contains_key(key),
            r is Some ==> *r->0 == self@[key],
    {
        match index_get(&self.index, key) {
            Some(row) => Some(&self.rows[row]),
            None => None,
        }
    }

    /// Whether there is a record with the given identifier.
    pub fn contains_key(&self, key: u128) -> (r: bool)
        requires
            self.wf(),
        ensures
            r == self@.contains_key(key),
    {
        self.get(key).is_some()
    }

    /// Stores a record under an identifier, in place of the one that was there.
    pub fn insert(&mut self, key: u128, record: V)
        requires
            old(self).wf(),
        ensures
            final(self).wf(),
            final(self)@ == old(self)@.insert(key, record),
    {
        let ghost before = *self;
        let ghost entries = index_entries(self.index);
        match index_get(&self.index, key) {
            Some(row) => {
                self.rows.set(row, record);
            },
            None => {
                let row = self.rows.len();
                self.rows.push(record);
                index_insert(&mut self.index, key, row);
            },
        }
        assert(self@ =~= before@.insert(key, record));
    }

    /// The identifiers, each once, in no particular order.
    pub fn walk(&self) -> (r: Vec<u128>)
        requires
            self.wf(),
        ensures
            is_walk(r@, self@),
    {
        index_walk(&self.index)
    }
}

} // verus!
