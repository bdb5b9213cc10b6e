use vstd::prelude::*;

verus! {

/// One retained input with the metadata recorded at its insertion.
///
/// An entry is immutable once stored, except for the `favored` flag; entries
/// are never deleted during a run.
pub struct CorpusEntry {
    /// The input bytes.
    pub bytes: Vec<u8>,
    /// The bucketed coverage signature observed when the entry was inserted.
    pub signature: Vec<u8>,
    /// The execution cost (wall-clock micros) of the run that earned it.
    pub cost: u64,
    /// Whether this entry is the cheapest known input for some edge.
    pub favored: bool,
}

/// Keep every cached id other than the one being touched.
pub open spec fn keep_other(id: usize) -> spec_fn(usize) -> bool {
    |x: usize| x != id
}

/// The cache after `id` is used: `id` moves to the front, the rest keep
/// their order, and the least recently used ids past the capacity fall out.
pub open spec fn spec_touch(cache: Seq<usize>, id: usize, cap: int) -> Seq<usize> {
    let fronted = seq![id] + cache.filter(keep_other(id));
    if fronted.len() > cap {
        fronted.take(cap)
    } else {
        fronted
    }
}

/// Stores every accepted input. All entries stay resident in `entries` (the
/// model of durable storage: a caller mirrors each inserted input to disk);
/// `cache` additionally tracks which entry ids are held resident for cheap
/// re-reading, most recently used first, evicted past `cache_cap`.
pub struct CorpusManager {
    pub entries: Vec<CorpusEntry>,
    pub cache: Vec<usize>,
    pub cache_cap: usize,
}

impl CorpusManager {
    /// Every cached id names an entry and the cache respects its capacity.
    pub open spec fn wf(self) -> bool {
        &&& self.cache_cap >= 1
        &&& self.cache@.len() <= self.cache_cap
        &&& forall|i: int| 0 <= i < self.cache@.len() ==> self.cache@[i] < self.entries@.len()
    }

    pub fn new(cache_cap: usize) -> (r: CorpusManager)
        requires
            cache_cap >= 1,
        ensures
            r.wf(),
            r.entries@.len() == 0,
            r.cache@.len() == 0,
            r.cache_cap == cache_cap,
    {
        CorpusManager { entries: Vec::new(), cache: Vec::new(), cache_cap }
    }

    pub fn count(&self) -> (r: usize)
        ensures
            r == self.entries@.len(),
    {
        self.entries.len()
    }

    /// Move `id` to the front of the resident cache, evicting past the
    /// capacity.
    fn touch(&mut self, id: usize)
        requires
            old(self).wf(),
            id < old(self).entries@.len(),
        ensures
            final(self).wf(),
            final(self).entries@ == old(self).entries@,
            final(self).cache_cap == old(self).cache_cap,
            final(self).cache@ == spec_touch(old(self).cache@, id, old(self).cache_cap as int),
    {
        let ghost pred = keep_other(id);
        let mut fresh: Vec<usize> = Vec::new();
        fresh.push(id);
        let mut i: usize = 0;
        while i < self.cache.len()
            invariant
                self.wf(),
                id < self.entries@.len(),
                i <= self.cache@.len(),
                pred == keep_other(id),
                fresh@ == seq![id] + self.cache@.take(i as int).filter(pred),
                forall|k: int| 0 <= k < fresh@.len() ==> fresh@[k] < self.entries@.len(),
            decreases self.cache@.len() - i,
        {
            let c = self.cache[i];
            proof {
                reveal(Seq::filter);
                assert(self.cache@.take(i + 1).drop_last() =~= self.cache@.take(i as int));
                assert(self.cache@.take(i + 1).last() == self.cache@[i as int]);
            }
            if c != id {
                fresh.push(c);
                proof {
                    assert(fresh@ =~= seq![id] + self.cache@.take(i + 1).filter(pred));
                }
            } else {
                proof {
                    assert(fresh@ =~= seq![id] + self.cache@.take(i + 1).filter(pred));
                }
            }
            i = i + 1;
        }
        proof {
            assert(self.cache@.take(self.cache@.len() as int) =~= self.cache@);
        }
        if fresh.len() > self.cache_cap {
            fresh.truncate(self.cache_cap);
            proof {
                assert(fresh@ =~= (seq![id] + old(self).cache@.filter(pred)).take(
                    self.cache_cap as int,
                ));
            }
        }
        self.cache = fresh;
    }

    /// Append a novel input; insertion always succeeds and never displaces
    /// an existing entry, so the corpus only ever grows. The new entry is
    /// made resident. Returns the new entry's id.
    pub fn insert(&mut self, bytes: Vec<u8>, signature: Vec<u8>, cost: u64) -> (id: usize)
        requires
            old(self).wf(),
            old(self).entries@.len() < usize::MAX,
        ensures
            final(self).wf(),
            id == old(self).entries@.len(),
            final(self).entries@.len() == old(self).entries@.len() + 1,
            forall|i: int|
                0 <= i < old(self).entries@.len() ==> final(self).entries@[i] == old(
                    self,
                ).entries@[i],
            final(self).entries@[id as int].bytes@ == bytes@,
            final(self).entries@[id as int].signature@ == signature@,
            final(self).entries@[id as int].cost == cost,
            !final(self).entries@[id as int].favored,
            final(self).cache_cap == old(self).cache_cap,
            final(self).cache@ == spec_touch(old(self).cache@, id, old(self).cache_cap as int),
    {
        let id = self.entries.len();
        self.entries.push(CorpusEntry { bytes, signature, cost, favored: false });
        self.touch(id);
        id
    }

    /// Fetch an entry's input bytes (from the resident cache, or read back
    /// from storage), marking the entry most recently used.
    pub fn get(&mut self, id: usize) -> (bytes: Vec<u8>)
        requires
            old(self).wf(),
            id < old(self).entries@.len(),
        ensures
            final(self).wf(),
            final(self).entries@ == old(self).entries@,
            final(self).cache_cap == old(self).cache_cap,
            bytes@ == old(self).entries@[id as int].bytes@,
            final(self).cache@ == spec_touch(old(self).cache@, id, old(self).cache_cap as int),
    {
        self.touch(id);
        clone_bytes(&self.entries[id].bytes)
    }

    /// Recompute an entry's favored flag; all other metadata and the input
    /// itself stay as they were inserted.
    pub fn set_favored(&mut self, id: usize, favored: bool)
        requires
            old(self).wf(),
            id < old(self).entries@.len(),
        ensures
            final(self).wf(),
            final(self).entries@.len() == old(self).entries@.len(),
            forall|i: int|
                0 <= i < old(self).entries@.len() && i != id ==> final(self).entries@[i] == old(
                    self,
                ).entries@[i],
            final(self).entries@[id as int].bytes@ == old(self).entries@[id as int].bytes@,
            final(self).entries@[id as int].signature@ == old(
                self,
            ).entries@[id as int].signature@,
            final(self).entries@[id as int].cost == old(self).entries@[id as int].cost,
            final(self).entries@[id as int].favored == favored,
            final(self).cache@ == old(self).cache@,
            final(self).cache_cap == old(self).cache_cap,
    {
        let bytes = clone_bytes(&self.entries[id].bytes);
        let signature = clone_bytes(&self.entries[id].signature);
        let cost = self.entries[id].cost;
        self.entries[id] = CorpusEntry { bytes, signature, cost, favored };
    }
}

/// Copy a byte vector.
pub fn clone_bytes(v: &Vec<u8>) -> (r: Vec<u8>)
    ensures
        r@ == v@,
{
    let mut r: Vec<u8> = Vec::new();
    let mut i: usize = 0;
    while i < v.len()
        invariant
            i <= v@.len(),
            r@ == v@.take(i as int),
        decreases v@.len() - i,
    {
        r.push(v[i]);
        proof {
            assert(v@.take(i + 1) =~= v@.take(i as int).push(v@[i as int]));
        }
        i = i + 1;
    }
    proof {
        assert(v@.take(v@.len() as int) =~= v@);
    }
    r
}

} // verus!
