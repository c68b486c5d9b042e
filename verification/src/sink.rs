//! The output multiplexer's core: a pool of destination sinks deduplicated
//! by a stable key (such as a file path), so that many logical channels can
//! share one sink, and a map from normalized template names to the sink
//! each name is routed to.

use vstd::prelude::*;

use crate::text::bytes_eq;

verus! {

/// Whether some sink in the pool carries this key.
pub open spec fn pool_has_key(keys: Seq<Seq<u8>>, k: Seq<u8>) -> bool {
    exists|i: int| 0 <= i < keys.len() && keys[i] == k
}

/// Sink keys are pairwise distinct: sink identity is determined solely by
/// the key.
pub open spec fn pool_distinct(keys: Seq<Seq<u8>>) -> bool {
    forall|i: int, j: int| 0 <= i < j < keys.len() ==> keys[i] != keys[j]
}

/// What resolving a key against the pool yields: the existing sink when
/// the key is already present, else a fresh sink appended at the end.
pub open spec fn spec_resolve(keys: Seq<Seq<u8>>, k: Seq<u8>) -> (Seq<Seq<u8>>, int) {
    if pool_has_key(keys, k) {
        (keys, choose|i: int| 0 <= i < keys.len() && keys[i] == k)
    } else {
        (keys.push(k), keys.len() as int)
    }
}

/// A pool of destination sinks, identified by their distinct keys; the
/// sink with identifier `i` carries the `i`-th key.
pub struct SinkPool {
    keys: Vec<Vec<u8>>,
}

impl SinkPool {
    /// The keys of all sinks, in creation order.
    pub closed spec fn view_spec(&self) -> Seq<Seq<u8>> {
        self.keys@.map_values(|k: Vec<u8>| k@)
    }

    /// At most one sink exists per distinct key.
    pub closed spec fn inv(&self) -> bool {
        pool_distinct(self.view_spec())
    }

    /// An empty pool.
    pub fn new() -> (r: SinkPool)
        ensures
            r.inv(),
            r.view_spec() == Seq::<Seq<u8>>::empty(),
    {
        let r = SinkPool { keys: Vec::new() };
        proof {
            assert(r.view_spec() =~= Seq::<Seq<u8>>::empty());
        }
        r
    }

    /// How many sinks exist.
    pub fn len(&self) -> (r: usize)
        ensures
            r == self.view_spec().len(),
    {
        self.keys.len()
    }

    /// The key of a sink.
    pub fn key_at(&self, id: usize) -> (r: &Vec<u8>)
        requires
            id < self.view_spec().len(),
        ensures
            r@ == self.view_spec()[id as int],
    {
        &self.keys[id]
    }

    /// The sink carrying a key, if one exists.
    pub fn find(&self, key: &[u8]) -> (r: Option<usize>)
        requires
            self.inv(),
        ensures
            (match r {
                Some(id) => id < self.view_spec().len() && self.view_spec()[id as int] == key@,
                None => !pool_has_key(self.view_spec(), key@),
            }),
    {
        let mut i: usize = 0;
        while i < self.keys.len()
            invariant
                0 <= i <= self.view_spec().len(),
                self.view_spec().len() == self.keys@.len(),
                forall|j: int| 0 <= j < i ==> self.view_spec()[j] != key@,
            decreases self.keys@.len() - i,
        {
            if bytes_eq(self.keys[i].as_slice(), key) {
                return Some(i);
            }
            i = i + 1;
        }
        None
    }

    /// Returns the sink carrying `key`, creating it only when no sink
    /// carries that key yet: repeated keys resolve to the same sink, and
    /// the pool never holds two sinks for one key.
    pub fn get_or_create(&mut self, key: &[u8]) -> (id: usize)
        requires
            old(self).inv(),
        ensures
            final(self).inv(),
            (final(self).view_spec(), id as int) == spec_resolve(old(self).view_spec(), key@),
            id < final(self).view_spec().len(),
            final(self).view_spec()[id as int] == key@,
    {
        match self.find(key) {
            Some(id) => {
                proof {
                    let i = choose|i: int|
                        0 <= i < self.view_spec().len() && self.view_spec()[i] == key@;
                    assert(i == id as int);
                }
                id
            },
            None => {
                let id = self.keys.len();
                let mut k: Vec<u8> = Vec::new();
                let mut i: usize = 0;
                while i < key.len()
                    invariant
                        0 <= i <= key@.len(),
                        k@ =~= key@.subrange(0, i as int),
                    decreases key@.len() - i,
                {
                    k.push(key[i]);
                    i = i + 1;
                }
                proof {
                    assert(key@.subrange(0, key@.len() as int) =~= key@);
                }
                self.keys.push(k);
                proof {
                    assert(self.view_spec() =~= old(self).view_spec().push(key@));
                }
                id
            },
        }
    }
}

/// Sink identity: resolving the same key a second time returns the same
/// sink and creates nothing, and two sinks returned for different keys are
/// never the same.
pub proof fn lemma_sink_identity(keys: Seq<Seq<u8>>, k1: Seq<u8>, k2: Seq<u8>)
    requires
        pool_distinct(keys),
    ensures
        spec_resolve(spec_resolve(keys, k1).0, k1) == spec_resolve(keys, k1),
        k1 != k2 ==> spec_resolve(spec_resolve(keys, k1).0, k2).1 != spec_resolve(keys, k1).1,
{
    let (keys1, id1) = spec_resolve(keys, k1);
    assert(pool_distinct(keys1)) by {
        if !pool_has_key(keys, k1) {
            assert(forall|i: int| 0 <= i < keys.len() ==> keys1[i] == keys[i]);
            assert(keys1[keys.len() as int] == k1);
        }
    }
    assert(0 <= id1 < keys1.len() && keys1[id1] == k1) by {
        if pool_has_key(keys, k1) {
            let i = choose|i: int| 0 <= i < keys.len() && keys[i] == k1;
            assert(keys1[i] == k1);
        } else {
            assert(keys1[keys.len() as int] == k1);
        }
    }
    assert(pool_has_key(keys1, k1));
    let j = choose|i: int| 0 <= i < keys1.len() && keys1[i] == k1;
    assert(j == id1);
    if k1 != k2 {
        let (keys2, id2) = spec_resolve(keys1, k2);
        if pool_has_key(keys1, k2) {
            let m = choose|i: int| 0 <= i < keys1.len() && keys1[i] == k2;
            assert(keys1[m] == k2);
            assert(m != id1);
        } else {
            assert(id2 == keys1.len());
        }
    }
}

/// A map from normalized template names to the sink each is routed to.
pub struct TemplateMap {
    entries: Vec<(Vec<u8>, usize)>,
}

/// Whether some entry carries this name.
pub open spec fn entries_has_key(entries: Seq<(Vec<u8>, usize)>, k: Seq<u8>) -> bool {
    exists|i: int| 0 <= i < entries.len() && entries[i].0@ == k
}

/// The sink of the entry carrying this name.
pub open spec fn entries_value_of(entries: Seq<(Vec<u8>, usize)>, k: Seq<u8>) -> usize {
    entries[choose|i: int| 0 <= i < entries.len() && entries[i].0@ == k].1
}

impl TemplateMap {
    /// Entry names are pairwise distinct.
    pub closed spec fn inv(&self) -> bool {
        forall|i: int, j: int|
            0 <= i < j < self.entries@.len() ==> self.entries@[i].0@ != self.entries@[j].0@
    }

    /// The abstract value: a map from names to sink identifiers.
    pub closed spec fn view_spec(&self) -> Map<Seq<u8>, usize> {
        Map::new(
            |k: Seq<u8>| entries_has_key(self.entries@, k),
            |k: Seq<u8>| entries_value_of(self.entries@, k),
        )
    }

    /// An empty map.
    pub fn new() -> (r: TemplateMap)
        ensures
            r.inv(),
            r.view_spec() == Map::<Seq<u8>, usize>::empty(),
    {
        let r = TemplateMap { entries: Vec::new() };
        proof {
            assert(r.view_spec() =~= Map::<Seq<u8>, usize>::empty());
        }
        r
    }

    /// The sink a name is routed to, if any.
    pub fn get(&self, key: &[u8]) -> (r: Option<usize>)
        requires
            self.inv(),
        ensures
            (match r {
                Some(id) => self.view_spec().contains_key(key@) && self.view_spec()[key@] == id,
                None => !self.view_spec().contains_key(key@),
            }),
    {
        let mut i: usize = 0;
        while i < self.entries.len()
            invariant
                self.inv(),
                0 <= i <= self.entries@.len(),
                forall|j: int| 0 <= j < i ==> self.entries@[j].0@ != key@,
            decreases self.entries@.len() - i,
        {
            if bytes_eq(self.entries[i].0.as_slice(), key) {
                proof {
                    assert(entries_has_key(self.entries@, key@));
                    let j = choose|j: int|
                        0 <= j < self.entries@.len() && self.entries@[j].0@ == key@;
                    assert(j == i as int);
                }
                return Some(self.entries[i].1);
            }
            i = i + 1;
        }
        None
    }

    /// Routes a name to a sink: a later insert for the same name overrides
    /// an earlier one.
    pub fn insert(&mut self, key: Vec<u8>, id: usize)
        requires
            old(self).inv(),
        ensures
            final(self).inv(),
            final(self).view_spec() == old(self).view_spec().insert(key@, id),
    {
        let mut i: usize = 0;
        while i < self.entries.len()
            invariant
                self.inv(),
                self.entries@ == old(self).entries@,
                0 <= i <= self.entries@.len(),
                forall|j: int| 0 <= j < i ==> self.entries@[j].0@ != key@,
            decreases self.entries@.len() - i,
        {
            if bytes_eq(self.entries[i].0.as_slice(), key.as_slice()) {
                let ghost old_entries = self.entries@;
                self.entries.set(i, (key, id));
                proof {
                    assert(forall|j: int|
                        0 <= j < self.entries@.len() && j != i ==> #[trigger] self.entries@[j]
                            == old_entries[j]);
                    assert(self.entries@[i as int].0@ == key@);
                    lemma_insert_view(old_entries, self.entries@, key@, id, i as int);
                }
                return ;
            }
            i = i + 1;
        }
        let ghost old_entries = self.entries@;
        self.entries.push((key, id));
        proof {
            assert(forall|j: int|
                0 <= j < old_entries.len() ==> #[trigger] self.entries@[j] == old_entries[j]);
            assert(self.entries@[old_entries.len() as int].0@ == key@);
            lemma_insert_view(old_entries, self.entries@, key@, id, old_entries.len() as int);
        }
    }
}

/// Updating or appending the entry for one name updates the map at that
/// name and nothing else.
proof fn lemma_insert_view(
    before: Seq<(Vec<u8>, usize)>,
    after: Seq<(Vec<u8>, usize)>,
    key: Seq<u8>,
    id: usize,
    at: int,
)
    requires
        forall|i: int, j: int| 0 <= i < j < before.len() ==> before[i].0@ != before[j].0@,
        0 <= at < after.len(),
        after.len() == before.len() || after.len() == before.len() + 1,
        after.len() == before.len() ==> before[at].0@ == key,
        after.len() == before.len() + 1 ==> (at == before.len() && !entries_has_key(before, key)),
        forall|j: int| 0 <= j < before.len() && j != at ==> #[trigger] after[j] == before[j],
        after[at].0@ == key,
        after[at].1 == id,
    ensures
        forall|i: int, j: int| 0 <= i < j < after.len() ==> after[i].0@ != after[j].0@,
        Map::new(
            |k: Seq<u8>| entries_has_key(after, k),
            |k: Seq<u8>| entries_value_of(after, k),
        ) == Map::new(
            |k: Seq<u8>| entries_has_key(before, k),
            |k: Seq<u8>| entries_value_of(before, k),
        ).insert(key, id),
{
    let ma = Map::new(
        |k: Seq<u8>| entries_has_key(after, k),
        |k: Seq<u8>| entries_value_of(after, k),
    );
    let mb = Map::new(
        |k: Seq<u8>| entries_has_key(before, k),
        |k: Seq<u8>| entries_value_of(before, k),
    );
    assert forall|k: Seq<u8>| #[trigger]
        entries_has_key(after, k) implies (entries_has_key(before, k) || k == key) by {
        let i = choose|i: int| 0 <= i < after.len() && after[i].0@ == k;
        if i != at {
            assert(before[i].0@ == k);
        }
    }
    assert forall|k: Seq<u8>| #[trigger]
        entries_has_key(before, k) implies entries_has_key(after, k) by {
        let i = choose|i: int| 0 <= i < before.len() && before[i].0@ == k;
        if i == at {
            if before[i].0@ == key {
                assert(after[at].0@ == k);
            } else {
                assert(after[i].0@ == k);
            }
        } else {
            assert(after[i].0@ == k);
        }
    }
    assert(entries_has_key(after, key));
    assert forall|k: Seq<u8>| #[trigger]
        entries_has_key(after, k) && k != key implies entries_value_of(after, k)
        == entries_value_of(before, k) by {
        let i = choose|i: int| 0 <= i < after.len() && after[i].0@ == k;
        assert(i != at);
        assert(before[i].0@ == k);
        let ib = choose|j: int| 0 <= j < before.len() && before[j].0@ == k;
        let ia = choose|j: int| 0 <= j < after.len() && after[j].0@ == k;
        assert(after[ia].0@ == k);
        if ia == at {
            assert(false);
        }
        assert(before[ia].0@ == k);
        assert(entries_value_of(before, k) == before[ib].1);
        assert(entries_value_of(after, k) == after[ia].1);
        assert(before[ib].1 == after[ia].1) by {
            if ia != ib {
                assert(before[ia].0@ == before[ib].0@);
            }
        }
    }
    assert(entries_value_of(after, key) == id) by {
        let i = choose|i: int| 0 <= i < after.len() && after[i].0@ == key;
        if i != at {
            assert(before[i].0@ == key);
        }
    }
    assert(ma =~= mb.insert(key, id));
}

} // verus!
