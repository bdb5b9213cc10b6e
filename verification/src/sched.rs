use vstd::prelude::*;

verus! {

/// The exhaustive queue policy: corpus entries are visited in insertion
/// order, wrapping around, so that every entry receives equal attention.
pub struct QueueScheduler {
    pub cursor: usize,
}

impl QueueScheduler {
    pub fn new() -> (r: QueueScheduler)
        ensures
            r.cursor == 0,
    {
        QueueScheduler { cursor: 0 }
    }

    /// Select the next corpus entry to mutate. Undefined on an empty
    /// corpus, which must not occur once the seed corpus is loaded.
    pub fn next(&mut self, corpus_len: usize) -> (id: usize)
        requires
            corpus_len > 0,
        ensures
            id == if old(self).cursor < corpus_len {
                old(self).cursor
            } else {
                0
            },
            final(self).cursor == id + 1,
            id < corpus_len,
    {
        let id = if self.cursor < corpus_len {
            self.cursor
        } else {
            0
        };
        self.cursor = id + 1;
        id
    }
}

} // verus!
