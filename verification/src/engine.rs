use crate::corpus::{spec_touch, CorpusManager};
use crate::coverage::{spec_bucket, spec_merged, spec_novel, CoverageTracker};
use crate::mutate::{mutate, spec_mutate};
use crate::objective::{spec_signature, ObjectiveStore};
use crate::oracle::{run_oracle, spec_oracle, Outcome};
use crate::rng::Rng64;
use crate::sched::QueueScheduler;
use vstd::prelude::*;

verus! {

/// The run parameters fixed at setup.
#[derive(Clone, Copy, Debug, PartialEq, Eq, Structural)]
pub struct FuzzConfig {
    /// Seed of the deterministic random stream; a run is reproducible from it.
    pub rng_seed: u64,
    /// Number of instrumented edges in the coverage map.
    pub num_edges: usize,
    /// Inputs never grow beyond this many bytes.
    pub max_input_len: usize,
    /// The run stops once this many executions have been absorbed.
    pub exec_budget: u64,
    /// The execution deadline (microseconds) the execution context enforces.
    pub timeout_micros: u64,
    /// Whether the out-of-range numeric divergence is whitelisted as benign.
    pub whitelist_out_of_range: bool,
    /// How many corpus entries stay resident in the read cache.
    pub cache_cap: usize,
}

impl FuzzConfig {
    pub open spec fn valid(self) -> bool {
        &&& 1 <= self.max_input_len < usize::MAX
        &&& self.exec_budget < u64::MAX
        &&& self.cache_cap >= 1
    }
}

/// What the fault-isolated execution context reported for one run of the
/// harness: a normal return, the configured deadline exceeded, or an
/// abnormal termination of the target.
#[derive(Clone, Copy, Debug, PartialEq, Eq, Structural)]
pub enum ExecStatus {
    Completed,
    TimedOut,
    Faulted,
}

/// Why the seed-loading phase failed; either aborts the run before the
/// main loop starts.
#[derive(Clone, Copy, Debug, PartialEq, Eq, Structural)]
pub enum LoadError {
    MissingDirectory,
    NoUsableSeeds,
}

/// The final outcome of one execution given what the execution context
/// reported: a timed-out or faulted execution overrides whatever the
/// oracle would have said, a completed one keeps the oracle's word.
pub open spec fn spec_outcome_of_status(status: ExecStatus, oracle_outcome: Outcome) -> Outcome {
    match status {
        ExecStatus::Completed => oracle_outcome,
        ExecStatus::TimedOut => Outcome::Timeout,
        ExecStatus::Faulted => Outcome::Crash,
    }
}

pub fn outcome_of_status(status: ExecStatus, oracle_outcome: Outcome) -> (r: Outcome)
    ensures
        r == spec_outcome_of_status(status, oracle_outcome),
{
    match status {
        ExecStatus::Completed => oracle_outcome,
        ExecStatus::TimedOut => Outcome::Timeout,
        ExecStatus::Faulted => Outcome::Crash,
    }
}

/// The bucketed coverage signature of a raw map.
pub open spec fn spec_buckets(map: Seq<u8>) -> Seq<u8> {
    map.map_values(|h: u8| spec_bucket(h))
}

pub fn bucketize(map: &Vec<u8>) -> (r: Vec<u8>)
    ensures
        r@ == spec_buckets(map@),
{
    let mut r: Vec<u8> = Vec::new();
    let mut i: usize = 0;
    while i < map.len()
        invariant
            i <= map@.len(),
            r@.len() == i,
            forall|j: int| 0 <= j < i ==> r@[j] == spec_bucket(map@[j]),
        decreases map@.len() - i,
    {
        r.push(crate::coverage::bucket(map[i]));
        i = i + 1;
    }
    proof {
        assert(r@ =~= spec_buckets(map@));
    }
    r
}

/// What one absorbed execution did to the run's state.
pub struct StepOutcome {
    /// The execution improved the cumulative coverage table.
    pub novel: bool,
    /// The id the input was stored under, when it earned a corpus slot.
    pub corpus_id: Option<usize>,
    /// A new objective entry was recorded (false also covers a duplicate).
    pub objective_added: bool,
}

/// The views of the dictionary fragments.
pub open spec fn dict_views(dict: Seq<Vec<u8>>) -> Seq<Seq<u8>> {
    dict.map_values(|d: Vec<u8>| d@)
}

/// The whole run's state: the deterministic random stream, the cumulative
/// coverage table, the corpus, the queue scheduler, the objective store,
/// the splice dictionary, and the execution counter.
pub struct Fuzzer {
    pub config: FuzzConfig,
    pub rng: Rng64,
    pub tracker: CoverageTracker,
    pub corpus: CorpusManager,
    pub sched: QueueScheduler,
    pub objectives: ObjectiveStore,
    pub dict: Vec<Vec<u8>>,
    pub executions: u64,
}

impl Fuzzer {
    pub open spec fn wf(self) -> bool {
        &&& self.config.valid()
        &&& self.corpus.wf()
        &&& self.objectives.wf()
        &&& self.corpus.cache_cap == self.config.cache_cap
        &&& self.tracker.edges() == self.config.num_edges
        &&& forall|i: int|
            0 <= i < self.corpus.entries@.len() ==> (#[trigger] self.corpus.entries@[i]).bytes@.len()
                <= self.config.max_input_len
        &&& self.dict@.len() <= self.corpus.entries@.len()
    }

    pub fn new(config: FuzzConfig) -> (r: Fuzzer)
        requires
            config.valid(),
        ensures
            r.wf(),
            r.config == config,
            r.rng.state == crate::rng::rng_init(config.rng_seed),
            r.tracker.edges() == config.num_edges,
            forall|i: int| 0 <= i < config.num_edges ==> r.tracker.best@[i] == 0,
            r.corpus.entries@.len() == 0,
            r.sched.cursor == 0,
            r.objectives.entries@.len() == 0,
            r.dict@.len() == 0,
            r.executions == 0,
    {
        Fuzzer {
            config,
            rng: Rng64::new(config.rng_seed),
            tracker: CoverageTracker::new(config.num_edges),
            corpus: CorpusManager::new(config.cache_cap),
            sched: QueueScheduler::new(),
            objectives: ObjectiveStore::new(),
            dict: Vec::new(),
            executions: 0,
        }
    }

    pub fn corpus_size(&self) -> (r: usize)
        ensures
            r == self.corpus.entries@.len(),
    {
        self.corpus.count()
    }

    pub fn objectives_found(&self) -> (r: usize)
        ensures
            r == self.objectives.entries@.len(),
    {
        self.objectives.count()
    }

    /// An external stop signal is honored at iteration boundaries; the
    /// engine itself stops once the execution budget is spent.
    pub fn should_stop(&self) -> (r: bool)
        ensures
            r == (self.executions >= self.config.exec_budget),
    {
        self.executions >= self.config.exec_budget
    }

    /// The corpus id the queue policy selects next.
    pub open spec fn spec_next_id(self) -> int {
        if self.sched.cursor < self.corpus.entries@.len() {
            self.sched.cursor as int
        } else {
            0
        }
    }

    /// The child the next iteration derives, and the random-stream state
    /// it leaves behind: an exact function of the run's state.
    pub open spec fn spec_next_child(self) -> (Seq<u8>, u64) {
        spec_mutate(
            self.corpus.entries@[self.spec_next_id()].bytes@,
            self.rng.state,
            self.config.max_input_len as int,
            dict_views(self.dict@),
        )
    }

    /// Select a seed (round-robin) and derive a child from it by stacked
    /// random mutation. Touches only the scheduler cursor, the random
    /// stream, and the corpus read cache.
    pub fn next_candidate(&mut self) -> (child: Vec<u8>)
        requires
            old(self).wf(),
            0 < old(self).corpus.entries@.len() < usize::MAX,
        ensures
            final(self).wf(),
            child@ == old(self).spec_next_child().0,
            final(self).rng.state == old(self).spec_next_child().1,
            child@.len() <= old(self).config.max_input_len,
            final(self).sched.cursor == old(self).spec_next_id() + 1,
            final(self).config == old(self).config,
            final(self).tracker == old(self).tracker,
            final(self).corpus.entries@ == old(self).corpus.entries@,
            final(self).corpus.cache_cap == old(self).corpus.cache_cap,
            final(self).corpus.cache@ == spec_touch(
                old(self).corpus.cache@,
                old(self).spec_next_id() as usize,
                old(self).corpus.cache_cap as int,
            ),
            final(self).objectives == old(self).objectives,
            final(self).dict == old(self).dict,
            final(self).executions == old(self).executions,
    {
        let id = self.sched.next(self.corpus.count());
        let seed = self.corpus.get(id);
        mutate(&seed, &mut self.rng, self.config.max_input_len, &self.dict)
    }

    /// Absorb one executed input: fold its raw coverage map into the
    /// cumulative table (which never regresses), give it a corpus slot
    /// exactly when it completed normally and improved the table, record
    /// it as an objective exactly when it crashed or timed out (never
    /// twice under one signature), and count the execution.
    pub fn absorb(
        &mut self,
        child: Vec<u8>,
        outcome: Outcome,
        diagnostic: Option<Vec<u8>>,
        coverage: &Vec<u8>,
        cost: u64,
    ) -> (r: StepOutcome)
        requires
            old(self).wf(),
            child@.len() <= old(self).config.max_input_len,
            coverage@.len() == old(self).tracker.edges(),
            old(self).corpus.entries@.len() < usize::MAX,
            old(self).objectives.entries@.len() < usize::MAX,
            old(self).executions < u64::MAX,
        ensures
            final(self).wf(),
            final(self).config == old(self).config,
            final(self).rng == old(self).rng,
            final(self).sched == old(self).sched,
            final(self).executions == old(self).executions + 1,
            final(self).tracker.best@ == spec_merged(old(self).tracker.best@, coverage@),
            r.novel == spec_novel(old(self).tracker.best@, coverage@),
            // the corpus only grows, and only for a novel normal completion
            final(self).corpus.entries@.len() >= old(self).corpus.entries@.len(),
            forall|i: int|
                0 <= i < old(self).corpus.entries@.len() ==> final(self).corpus.entries@[i] == old(
                    self,
                ).corpus.entries@[i],
            (outcome == Outcome::Normal && r.novel) ==> {
                &&& final(self).corpus.entries@.len() == old(self).corpus.entries@.len() + 1
                &&& final(self).corpus.entries@.last().bytes@ == child@
                &&& final(self).corpus.entries@.last().signature@ == spec_buckets(coverage@)
                &&& final(self).corpus.entries@.last().cost == cost
                &&& r.corpus_id == Some(old(self).corpus.entries@.len() as usize)
                &&& dict_views(final(self).dict@) == dict_views(old(self).dict@).push(child@)
            },
            !(outcome == Outcome::Normal && r.novel) ==> {
                &&& final(self).corpus.entries@ == old(self).corpus.entries@
                &&& r.corpus_id is None
                &&& final(self).dict@ == old(self).dict@
            },
            // objectives: recorded once, deduplicated by stable signature
            outcome == Outcome::Normal ==> final(self).objectives == old(self).objectives
                && !r.objective_added,
            outcome != Outcome::Normal ==> {
                let sig = spec_signature(
                    child@,
                    match diagnostic {
                        Some(d) => Some(d@),
                        None => None,
                    },
                );
                &&& r.objective_added == !old(self).objectives.has_name(sig)
                &&& final(self).objectives.has_name(sig)
                &&& (!r.objective_added ==> final(self).objectives.entries@ == old(
                    self,
                ).objectives.entries@)
                &&& (r.objective_added ==> {
                    &&& final(self).objectives.entries@.len() == old(
                        self,
                    ).objectives.entries@.len() + 1
                    &&& final(self).objectives.entries@.last().bytes@ == child@
                    &&& final(self).objectives.entries@.last().outcome == outcome
                })
                &&& forall|i: int|
                    0 <= i < old(self).objectives.entries@.len()
                        ==> final(self).objectives.entries@[i] == old(
                        self,
                    ).objectives.entries@[i]
            },
    {
        let novel = self.tracker.observe(coverage);
        let mut r = StepOutcome { novel, corpus_id: None, objective_added: false };
        match outcome {
            Outcome::Normal => {
                if novel {
                    let signature = bucketize(coverage);
                    let fragment = crate::corpus::clone_bytes(&child);
                    let stored = crate::corpus::clone_bytes(&child);
                    let id = self.corpus.insert(stored, signature, cost);
                    self.dict.push(fragment);
                    proof {
                        assert(dict_views(self.dict@) =~= dict_views(old(self).dict@).push(
                            child@,
                        ));
                    }
                    r.corpus_id = Some(id);
                }
            },
            _ => {
                let added = self.objectives.record(child, outcome, diagnostic);
                r.objective_added = added;
            },
        }
        self.executions = self.executions + 1;
        r
    }

    /// One full iteration of the in-process loop: select and mutate, run
    /// both targets on the child under the oracle, and absorb the result
    /// together with the coverage map instrumentation wrote during the
    /// execution. Returns the child and its outcome. On a crash-classified
    /// divergence the rejecting target's message is the diagnostic the
    /// objective is deduplicated by; on any other objective the input's
    /// own content is.
    pub fn fuzz_one(&mut self, coverage: &Vec<u8>, cost: u64) -> (r: (Vec<u8>, Outcome))
        requires
            old(self).wf(),
            old(self).corpus.entries@.len() > 0,
            coverage@.len() == old(self).tracker.edges(),
            old(self).corpus.entries@.len() < usize::MAX,
            old(self).objectives.entries@.len() < usize::MAX,
            old(self).executions < u64::MAX,
        ensures
            final(self).wf(),
            r.0@ == old(self).spec_next_child().0,
            r.1 == spec_oracle(
                old(self).spec_next_child().0,
                old(self).config.whitelist_out_of_range,
            ),
            final(self).executions == old(self).executions + 1,
            final(self).corpus.entries@.len() >= old(self).corpus.entries@.len(),
            forall|i: int|
                0 <= i < old(self).corpus.entries@.len() ==> final(self).corpus.entries@[i] == old(
                    self,
                ).corpus.entries@[i],
            forall|i: int|
                0 <= i < old(self).tracker.edges() ==> final(self).tracker.best@[i] >= old(
                    self,
                ).tracker.best@[i],
            // a corpus slot is earned only by a normal completion whose
            // coverage improved the cumulative table
            final(self).corpus.entries@.len() <= old(self).corpus.entries@.len() + 1,
            final(self).corpus.entries@.len() > old(self).corpus.entries@.len() ==> r.1
                == Outcome::Normal && spec_novel(old(self).tracker.best@, coverage@),
            // objectives change only on a crash or timeout, and by one
            // deduplicated entry at most
            r.1 == Outcome::Normal ==> final(self).objectives == old(self).objectives,
            final(self).objectives.entries@.len() <= old(self).objectives.entries@.len() + 1,
            forall|i: int|
                0 <= i < old(self).objectives.entries@.len()
                    ==> final(self).objectives.entries@[i] == old(self).objectives.entries@[i],
            final(self).config == old(self).config,
    {
        let child = self.next_candidate();
        let (outcome, report) = run_oracle(&child, self.config.whitelist_out_of_range);
        let returned = crate::corpus::clone_bytes(&child);
        let diagnostic: Option<Vec<u8>> = match (outcome, report.serde_error) {
            (Outcome::Crash, Some(msg)) => Some(msg),
            _ => None,
        };
        self.absorb(child, outcome, diagnostic, coverage, cost);
        (returned, outcome)
    }

    /// Absorb one seed input during the loading phase: the seed is run
    /// through the oracle once; a seed that crashes or times out is
    /// redirected to the objective store, any other is given a corpus slot
    /// when its coverage is novel.
    pub fn load_seed(
        &mut self,
        bytes: Vec<u8>,
        status: ExecStatus,
        coverage: &Vec<u8>,
        cost: u64,
    ) -> (r: (Outcome, StepOutcome))
        requires
            old(self).wf(),
            bytes@.len() <= old(self).config.max_input_len,
            coverage@.len() == old(self).tracker.edges(),
            old(self).corpus.entries@.len() < usize::MAX,
            old(self).objectives.entries@.len() < usize::MAX,
            old(self).executions < u64::MAX,
        ensures
            final(self).wf(),
            r.0 == spec_outcome_of_status(
                status,
                spec_oracle(bytes@, old(self).config.whitelist_out_of_range),
            ),
            final(self).executions == old(self).executions + 1,
            final(self).corpus.entries@.len() >= old(self).corpus.entries@.len(),
            (r.0 == Outcome::Normal && r.1.novel) ==> final(self).corpus.entries@.len() == old(
                self,
            ).corpus.entries@.len() + 1,
            r.1.novel == spec_novel(old(self).tracker.best@, coverage@),
            r.0 != Outcome::Normal ==> final(self).corpus.entries@ == old(self).corpus.entries@,
            final(self).config == old(self).config,
    {
        let (oracle_outcome, _report) = run_oracle(&bytes, self.config.whitelist_out_of_range);
        let outcome = outcome_of_status(status, oracle_outcome);
        let step = self.absorb(bytes, outcome, None, coverage, cost);
        (outcome, step)
    }

    /// The loading phase fails when it produced no usable seed at all.
    pub fn finish_loading(&self) -> (r: Result<(), LoadError>)
        ensures
            r is Ok <==> self.corpus.entries@.len() > 0,
            r is Err ==> r == Result::<(), LoadError>::Err(LoadError::NoUsableSeeds),
    {
        if self.corpus.count() > 0 {
            Ok(())
        } else {
            Err(LoadError::NoUsableSeeds)
        }
    }
}

/// Determinism of the whole generation pipeline: two runs whose random
/// stream, scheduler cursor, corpus contents, dictionary and length bound
/// agree derive the same next child, so runs from one seed produce
/// byte-identical input sequences.
pub proof fn lemma_engine_deterministic(a: Fuzzer, b: Fuzzer)
    requires
        a.corpus.entries@.len() > 0,
        a.rng.state == b.rng.state,
        a.sched.cursor == b.sched.cursor,
        a.corpus.entries@.map_values(|e: crate::corpus::CorpusEntry| e.bytes@)
            == b.corpus.entries@.map_values(|e: crate::corpus::CorpusEntry| e.bytes@),
        dict_views(a.dict@) == dict_views(b.dict@),
        a.config.max_input_len == b.config.max_input_len,
    ensures
        a.spec_next_child() == b.spec_next_child(),
{
    let abytes = a.corpus.entries@.map_values(|e: crate::corpus::CorpusEntry| e.bytes@);
    let bbytes = b.corpus.entries@.map_values(|e: crate::corpus::CorpusEntry| e.bytes@);
    assert(a.corpus.entries@.len() == abytes.len());
    assert(a.spec_next_id() == b.spec_next_id());
    if 0 <= a.spec_next_id() < a.corpus.entries@.len() {
        assert(abytes[a.spec_next_id()] == a.corpus.entries@[a.spec_next_id()].bytes@);
        assert(bbytes[b.spec_next_id()] == b.corpus.entries@[b.spec_next_id()].bytes@);
    }
}

} // verus!
