use crate::oracle::Outcome;
use vstd::prelude::*;

verus! {

pub const FNV_OFFSET: u64 = 0xcbf29ce484222325;

pub const FNV_PRIME: u64 = 0x100000001b3;

/// One FNV-1a step: fold a byte into the running hash.
pub open spec fn fnv_step(h: u64, b: u8) -> u64 {
    vstd::wrapping::u64_specs::wrapping_mul(h ^ (b as u64), FNV_PRIME)
}

pub open spec fn spec_fnv_from(h: u64, bytes: Seq<u8>) -> u64
    decreases bytes.len(),
{
    if bytes.len() == 0 {
        h
    } else {
        spec_fnv_from(fnv_step(h, bytes[0]), bytes.drop_first())
    }
}

/// The FNV-1a hash of a byte string: the stable, content-derived name under
/// which inputs are persisted.
pub open spec fn spec_fnv(bytes: Seq<u8>) -> u64 {
    spec_fnv_from(FNV_OFFSET, bytes)
}

pub fn fnv_hash(bytes: &Vec<u8>) -> (r: u64)
    ensures
        r == spec_fnv(bytes@),
{
    let mut h: u64 = FNV_OFFSET;
    let mut i: usize = 0;
    proof {
        assert(bytes@.skip(0) =~= bytes@);
    }
    while i < bytes.len()
        invariant
            i <= bytes@.len(),
            spec_fnv_from(h, bytes@.skip(i as int)) == spec_fnv(bytes@),
        decreases bytes@.len() - i,
    {
        proof {
            assert(bytes@.skip(i as int).drop_first() =~= bytes@.skip(i + 1));
            assert(bytes@.skip(i as int)[0] == bytes@[i as int]);
        }
        h = (h ^ (bytes[i] as u64)).wrapping_mul(FNV_PRIME);
        i = i + 1;
    }
    proof {
        assert(bytes@.skip(bytes@.len() as int) =~= Seq::<u8>::empty());
    }
    h
}

/// The stable signature an objective is deduplicated by: derived from the
/// diagnostic text when there is one, else from the input's content.
pub open spec fn spec_signature(input: Seq<u8>, diagnostic: Option<Seq<u8>>) -> u64 {
    match diagnostic {
        Some(d) => spec_fnv(d),
        None => spec_fnv(input),
    }
}

/// An input whose execution outcome is worth permanently recording, with
/// the outcome kind and optional diagnostic text; never mutated after
/// creation.
pub struct ObjectiveEntry {
    pub bytes: Vec<u8>,
    pub outcome: Outcome,
    pub diagnostic: Option<Vec<u8>>,
    /// The stable name the entry is stored (and deduplicated) under.
    pub name: u64,
}

/// Persists crash- and timeout-classified inputs under stable names,
/// deduplicated: repeated discoveries of the same divergence are not
/// rewritten. (A caller mirrors each newly added entry to durable storage.)
pub struct ObjectiveStore {
    pub entries: Vec<ObjectiveEntry>,
}

impl ObjectiveStore {
    /// No two recorded entries share a name.
    pub open spec fn wf(self) -> bool {
        forall|i: int, j: int|
            0 <= i < j < self.entries@.len() ==> self.entries@[i].name != self.entries@[j].name
    }

    pub open spec fn has_name(self, name: u64) -> bool {
        exists|i: int| 0 <= i < self.entries@.len() && self.entries@[i].name == name
    }

    pub fn new() -> (r: ObjectiveStore)
        ensures
            r.wf(),
            r.entries@.len() == 0,
    {
        ObjectiveStore { entries: Vec::new() }
    }

    pub fn count(&self) -> (r: usize)
        ensures
            r == self.entries@.len(),
    {
        self.entries.len()
    }

    /// Record an objective unless one with the same signature is already
    /// stored. Returns true exactly when a new entry was added; existing
    /// entries are never mutated or displaced.
    pub fn record(
        &mut self,
        input: Vec<u8>,
        outcome: Outcome,
        diagnostic: Option<Vec<u8>>,
    ) -> (added: bool)
        requires
            old(self).wf(),
            old(self).entries@.len() < usize::MAX,
        ensures
            final(self).wf(),
            added == !old(self).has_name(
                spec_signature(
                    input@,
                    match diagnostic {
                        Some(d) => Some(d@),
                        None => None,
                    },
                ),
            ),
            !added ==> final(self).entries@ == old(self).entries@,
            added ==> final(self).entries@.len() == old(self).entries@.len() + 1,
            added ==> forall|i: int|
                0 <= i < old(self).entries@.len() ==> final(self).entries@[i] == old(
                    self,
                ).entries@[i],
            added ==> {
                let e = final(self).entries@.last();
                &&& e.bytes@ == input@
                &&& e.outcome == outcome
                &&& (match (e.diagnostic, diagnostic) {
                    (Some(a), Some(b)) => a@ == b@,
                    (None, None) => true,
                    _ => false,
                })
                &&& e.name == spec_signature(
                    input@,
                    match diagnostic {
                        Some(d) => Some(d@),
                        None => None,
                    },
                )
            },
            final(self).has_name(
                spec_signature(
                    input@,
                    match diagnostic {
                        Some(d) => Some(d@),
                        None => None,
                    },
                ),
            ),
    {
        let ghost dview: Option<Seq<u8>> = match &diagnostic {
            Some(d) => Some(d@),
            None => None,
        };
        let name = match &diagnostic {
            Some(d) => fnv_hash(d),
            None => fnv_hash(&input),
        };
        proof {
            assert(name == spec_signature(input@, dview));
        }
        let mut i: usize = 0;
        while i < self.entries.len()
            invariant
                old(self).wf(),
                self.entries@ == old(self).entries@,
                i <= self.entries@.len(),
                name == spec_signature(input@, dview),
                dview == (match &diagnostic {
                    Some(d) => Some(d@),
                    None => None,
                }),
                forall|j: int| 0 <= j < i ==> self.entries@[j].name != name,
            decreases self.entries@.len() - i,
        {
            if self.entries[i].name == name {
                proof {
                    assert(old(self).entries@[i as int].name == name);
                    assert(old(self).has_name(name));
                }
                return false;
            }
            i = i + 1;
        }
        proof {
            assert(!old(self).has_name(name)) by {
                if old(self).has_name(name) {
                    let k = choose|k: int|
                        0 <= k < old(self).entries@.len() && old(self).entries@[k].name == name;
                    assert(old(self).entries@[k].name != name);
                }
            }
        }
        self.entries.push(ObjectiveEntry { bytes: input, outcome, diagnostic, name });
        proof {
            assert(self.entries@.last().name == name);
            assert(self.has_name(name));
        }
        true
    }
}

/// The store's names after recording an objective with signature `sig`.
pub open spec fn spec_after_record(names: Seq<u64>, sig: u64) -> Seq<u64> {
    if names.contains(sig) {
        names
    } else {
        names.push(sig)
    }
}

/// Deduplication: recording the same objective twice is the same as
/// recording it once, so replaying one crash-triggering input repeatedly
/// leaves exactly one stored entry for it.
pub proof fn lemma_record_idempotent(names: Seq<u64>, sig: u64)
    ensures
        spec_after_record(spec_after_record(names, sig), sig) == spec_after_record(names, sig),
{
    if !names.contains(sig) {
        assert(names.push(sig)[names.len() as int] == sig);
        assert(names.push(sig).contains(sig));
    }
}

/// A store with distinct names holds, after a record, exactly one entry
/// named by the recorded signature.
pub proof fn lemma_record_unique(names: Seq<u64>, sig: u64)
    requires
        forall|i: int, j: int| 0 <= i < j < names.len() ==> names[i] != names[j],
    ensures
        forall|i: int, j: int|
            0 <= i < j < spec_after_record(names, sig).len() ==> spec_after_record(names, sig)[i]
                != spec_after_record(names, sig)[j],
        exists|i: int|
            0 <= i < spec_after_record(names, sig).len() && spec_after_record(names, sig)[i]
                == sig,
{
    let after = spec_after_record(names, sig);
    if names.contains(sig) {
        let k = choose|k: int| 0 <= k < names.len() && names[k] == sig;
        assert(0 <= k < after.len() && after[k] == sig);
    } else {
        assert(after[names.len() as int] == sig);
        assert(forall|i: int, j: int|
            0 <= i < j < after.len() && j < names.len() ==> after[i] != after[j]);
        assert forall|i: int, j: int|
            0 <= i < j < after.len() && j == names.len() implies after[i] != after[j] by {
            assert(after[i] == names[i]);
            if names[i] == sig {
                assert(names.contains(sig));
            }
        }
    }
}

} // verus!
