use vstd::prelude::*;

verus! {

/// Largest bucket index: hit counts are summarised into buckets 0 through 7.
pub const MAX_BUCKET: u8 = 7;

/// Hit counts are compared through coarse buckets so that novelty is not
/// over-sensitive to exact counts: 0, 1, 2, 3, 4-7, 8-15, 16-31, 32 and up.
pub open spec fn spec_bucket(hits: u8) -> u8 {
    if hits == 0 {
        0
    } else if hits == 1 {
        1
    } else if hits == 2 {
        2
    } else if hits == 3 {
        3
    } else if hits < 8 {
        4
    } else if hits < 16 {
        5
    } else if hits < 32 {
        6
    } else {
        7
    }
}

pub fn bucket(hits: u8) -> (r: u8)
    ensures
        r == spec_bucket(hits),
        r <= MAX_BUCKET,
{
    if hits == 0 {
        0
    } else if hits == 1 {
        1
    } else if hits == 2 {
        2
    } else if hits == 3 {
        3
    } else if hits < 8 {
        4
    } else if hits < 16 {
        5
    } else if hits < 32 {
        6
    } else {
        7
    }
}

/// Whether a raw coverage map improves on a cumulative best-bucket table:
/// at least one edge reaches a strictly higher bucket than ever recorded.
pub open spec fn spec_novel(best: Seq<u8>, map: Seq<u8>) -> bool {
    exists|i: int| 0 <= i < map.len() && spec_bucket(map[i]) > best[i]
}

/// The table after folding a raw map in: the pointwise maximum of the old
/// table and the map's buckets.
pub open spec fn spec_merged(best: Seq<u8>, map: Seq<u8>) -> Seq<u8>
    recommends
        best.len() == map.len(),
{
    Seq::new(best.len(), |i: int| if spec_bucket(map[i]) > best[i] {
        spec_bucket(map[i])
    } else {
        best[i]
    })
}

/// Consumes the raw per-edge hit-count map after each execution and decides
/// whether the execution saw something new. The cumulative `best` table
/// holds, per edge, the highest bucket any execution has reached.
pub struct CoverageTracker {
    pub best: Vec<u8>,
}

impl CoverageTracker {
    /// The number of instrumented edges, fixed at setup.
    pub open spec fn edges(self) -> nat {
        self.best@.len()
    }

    pub fn new(num_edges: usize) -> (r: CoverageTracker)
        ensures
            r.edges() == num_edges,
            forall|i: int| 0 <= i < num_edges ==> r.best@[i] == 0,
    {
        let mut best: Vec<u8> = Vec::new();
        let mut i: usize = 0;
        while i < num_edges
            invariant
                i <= num_edges,
                best@.len() == i,
                forall|j: int| 0 <= j < i ==> best@[j] == 0,
            decreases num_edges - i,
        {
            best.push(0);
            i = i + 1;
        }
        CoverageTracker { best }
    }

    /// Decide whether `map` is novel and, in the same step, fold it into the
    /// cumulative table. The table never regresses: each edge's recorded
    /// bucket is monotonically non-decreasing across the run.
    pub fn observe(&mut self, map: &Vec<u8>) -> (novel: bool)
        requires
            old(self).edges() == map@.len(),
        ensures
            final(self).best@ == spec_merged(old(self).best@, map@),
            novel == spec_novel(old(self).best@, map@),
            final(self).edges() == old(self).edges(),
            forall|i: int| 0 <= i < old(self).edges() ==> final(self).best@[i]
                >= old(self).best@[i],
    {
        let ghost best0 = self.best@;
        let mut novel = false;
        let mut i: usize = 0;
        while i < map.len()
            invariant
                i <= map@.len(),
                self.best@.len() == map@.len(),
                best0.len() == map@.len(),
                novel == spec_novel(best0.take(i as int), map@.take(i as int)),
                forall|j: int| 0 <= j < i ==> self.best@[j] == spec_merged(best0, map@)[j],
                forall|j: int| i <= j < map@.len() ==> self.best@[j] == best0[j],
            decreases map@.len() - i,
        {
            let b = bucket(map[i]);
            if b > self.best[i] {
                self.best[i] = b;
                novel = true;
                assert(spec_bucket(map@[i as int]) > best0[i as int]);
            }
            proof {
                assert(best0.take(i + 1).drop_last() =~= best0.take(i as int));
                assert(map@.take(i + 1).drop_last() =~= map@.take(i as int));
                assert(spec_novel(best0.take(i + 1), map@.take(i + 1)) == (spec_novel(
                    best0.take(i as int),
                    map@.take(i as int),
                ) || spec_bucket(map@[i as int]) > best0[i as int])) by {
                    let bt = best0.take(i + 1);
                    let mt = map@.take(i + 1);
                    if spec_novel(bt, mt) {
                        let k = choose|k: int| 0 <= k < mt.len() && spec_bucket(mt[k]) > bt[k];
                        if k < i {
                            assert(spec_bucket(map@.take(i as int)[k]) > best0.take(i as int)[k]);
                        }
                    }
                    if spec_novel(best0.take(i as int), map@.take(i as int)) {
                        let k = choose|k: int|
                            0 <= k < i && spec_bucket(map@.take(i as int)[k]) > best0.take(
                                i as int,
                            )[k];
                        assert(spec_bucket(mt[k]) > bt[k]);
                    }
                    if spec_bucket(map@[i as int]) > best0[i as int] {
                        assert(spec_bucket(mt[i as int]) > bt[i as int]);
                    }
                }
            }
            i = i + 1;
        }
        proof {
            assert(best0.take(map@.len() as int) =~= best0);
            assert(map@.take(map@.len() as int) =~= map@);
            assert(self.best@ =~= spec_merged(best0, map@));
        }
        novel
    }
}

} // verus!
