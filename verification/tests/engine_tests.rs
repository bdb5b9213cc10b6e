use json_diff_fuzz::corpus::CorpusManager;
use json_diff_fuzz::coverage::{bucket, CoverageTracker};
use json_diff_fuzz::engine::{ExecStatus, Fuzzer, FuzzConfig, LoadError};
use json_diff_fuzz::mutate::mutate;
use json_diff_fuzz::objective::{fnv_hash, ObjectiveStore};
use json_diff_fuzz::oracle::Outcome;
use json_diff_fuzz::rng::Rng64;
use json_diff_fuzz::sched::QueueScheduler;

fn config() -> FuzzConfig {
    FuzzConfig {
        rng_seed: 42,
        num_edges: 8,
        max_input_len: 64,
        exec_budget: 1000,
        timeout_micros: 1000,
        whitelist_out_of_range: true,
        cache_cap: 4,
    }
}

fn novel_map() -> Vec<u8> {
    vec![1, 0, 0, 0, 0, 0, 0, 0]
}

fn quiet_map() -> Vec<u8> {
    vec![0; 8]
}

#[test]
fn bucket_ranges() {
    assert_eq!(bucket(0), 0);
    assert_eq!(bucket(1), 1);
    assert_eq!(bucket(2), 2);
    assert_eq!(bucket(3), 3);
    assert_eq!(bucket(4), 4);
    assert_eq!(bucket(7), 4);
    assert_eq!(bucket(8), 5);
    assert_eq!(bucket(15), 5);
    assert_eq!(bucket(16), 6);
    assert_eq!(bucket(31), 6);
    assert_eq!(bucket(32), 7);
    assert_eq!(bucket(255), 7);
}

#[test]
fn tracker_novelty_and_monotonicity() {
    let mut t = CoverageTracker::new(4);
    assert!(t.observe(&vec![0, 1, 0, 0]));
    assert_eq!(t.best, vec![0, 1, 0, 0]);
    // the same map again brings nothing new
    assert!(!t.observe(&vec![0, 1, 0, 0]));
    // a higher bucket on a known edge is novel
    assert!(t.observe(&vec![0, 5, 0, 0]));
    assert_eq!(t.best, vec![0, 4, 0, 0]);
    // a lower count never regresses the table
    assert!(!t.observe(&vec![0, 1, 0, 0]));
    assert_eq!(t.best, vec![0, 4, 0, 0]);
}

#[test]
fn scheduler_is_round_robin() {
    let mut s = QueueScheduler::new();
    assert_eq!(s.next(3), 0);
    assert_eq!(s.next(3), 1);
    assert_eq!(s.next(3), 2);
    assert_eq!(s.next(3), 0);
    assert_eq!(s.next(3), 1);
}

#[test]
fn corpus_stores_and_caches() {
    let mut c = CorpusManager::new(2);
    let a = c.insert(b"aaa".to_vec(), vec![1], 5);
    let b = c.insert(b"bbb".to_vec(), vec![2], 6);
    let d = c.insert(b"ddd".to_vec(), vec![3], 7);
    assert_eq!((a, b, d), (0, 1, 2));
    assert_eq!(c.count(), 3);
    // the cache holds at most two ids, the most recently used first
    assert!(c.cache.len() <= 2);
    assert_eq!(c.cache[0], 2);
    assert_eq!(c.get(0), b"aaa".to_vec());
    assert_eq!(c.cache[0], 0);
    assert_eq!(c.get(1), b"bbb".to_vec());
    assert_eq!(c.get(2), b"ddd".to_vec());
}

#[test]
fn corpus_favored_flag() {
    let mut c = CorpusManager::new(2);
    let id = c.insert(b"aaa".to_vec(), vec![1], 5);
    assert!(!c.entries[id].favored);
    c.set_favored(id, true);
    assert!(c.entries[id].favored);
    assert_eq!(c.entries[id].bytes, b"aaa".to_vec());
}

#[test]
fn fnv_known_vectors() {
    assert_eq!(fnv_hash(&Vec::new()), 0xcbf29ce484222325);
    assert_eq!(fnv_hash(&b"a".to_vec()), 0xaf63dc4c8601ec8c);
}

#[test]
fn objective_store_deduplicates() {
    let mut s = ObjectiveStore::new();
    assert!(s.record(b"bad".to_vec(), Outcome::Crash, None));
    assert_eq!(s.count(), 1);
    // replaying the same crash-triggering input records nothing new
    assert!(!s.record(b"bad".to_vec(), Outcome::Crash, None));
    assert_eq!(s.count(), 1);
    // a different diagnostic is a different objective
    assert!(s.record(b"bad".to_vec(), Outcome::Crash, Some(b"msg".to_vec())));
    assert_eq!(s.count(), 2);
    // the same diagnostic deduplicates even for different inputs
    assert!(!s.record(b"other".to_vec(), Outcome::Crash, Some(b"msg".to_vec())));
    assert_eq!(s.count(), 2);
}

#[test]
fn mutation_respects_length_and_determinism() {
    let seed = br#"{"a":1}"#.to_vec();
    let dict: Vec<Vec<u8>> = vec![b"null".to_vec(), b"true".to_vec()];
    let mut r1 = Rng64::new(7);
    let mut r2 = Rng64::new(7);
    let mut differed = false;
    for _ in 0..100 {
        let c1 = mutate(&seed, &mut r1, 16, &dict);
        let c2 = mutate(&seed, &mut r2, 16, &dict);
        assert_eq!(c1, c2, "equal seeds and states must derive equal children");
        assert!(c1.len() <= 16);
        if c1 != seed {
            differed = true;
        }
    }
    assert!(differed, "a hundred stacked mutations must change the input at least once");
}

#[test]
fn run_determinism() {
    let mut a = Fuzzer::new(config());
    let mut b = Fuzzer::new(config());
    let seed = br#"{"a":1}"#.to_vec();
    a.load_seed(seed.clone(), ExecStatus::Completed, &novel_map(), 1);
    b.load_seed(seed, ExecStatus::Completed, &novel_map(), 1);
    assert!(a.finish_loading().is_ok());
    for _ in 0..25 {
        let (ca, oa) = a.fuzz_one(&quiet_map(), 1);
        let (cb, ob) = b.fuzz_one(&quiet_map(), 1);
        assert_eq!(ca, cb, "two runs from one seed must generate identical inputs");
        assert_eq!(oa, ob);
    }
    assert_eq!(a.executions, b.executions);
    assert_eq!(a.corpus_size(), b.corpus_size());
}

#[test]
fn corpus_growth_is_novelty_driven() {
    let mut f = Fuzzer::new(config());
    let (outcome, step) = f.load_seed(b"{}".to_vec(), ExecStatus::Completed, &novel_map(), 1);
    assert_eq!(outcome, Outcome::Normal);
    assert!(step.novel);
    assert_eq!(step.corpus_id, Some(0));
    assert_eq!(f.corpus_size(), 1);
    // the same coverage again earns no corpus slot
    let (_, step2) = f.load_seed(b"{ }".to_vec(), ExecStatus::Completed, &novel_map(), 1);
    assert!(!step2.novel);
    assert_eq!(step2.corpus_id, None);
    assert_eq!(f.corpus_size(), 1);
    // novel coverage grows the corpus, size never shrinks
    let (_, step3) =
        f.load_seed(b"[]".to_vec(), ExecStatus::Completed, &vec![1, 1, 0, 0, 0, 0, 0, 0], 1);
    assert!(step3.novel);
    assert_eq!(f.corpus_size(), 2);
    assert_eq!(f.executions, 3);
}

#[test]
fn timeout_is_recorded_exactly_once() {
    let mut f = Fuzzer::new(config());
    let (outcome, step) = f.load_seed(b"{}".to_vec(), ExecStatus::TimedOut, &quiet_map(), 1);
    assert_eq!(outcome, Outcome::Timeout);
    assert!(step.objective_added);
    assert_eq!(f.objectives_found(), 1);
    assert_eq!(f.corpus_size(), 0, "a timed-out seed earns no corpus slot");
    assert_eq!(f.objectives.entries[0].outcome, Outcome::Timeout);
    // the same input timing out again is deduplicated
    let (outcome2, step2) = f.load_seed(b"{}".to_vec(), ExecStatus::TimedOut, &quiet_map(), 1);
    assert_eq!(outcome2, Outcome::Timeout);
    assert!(!step2.objective_added);
    assert_eq!(f.objectives_found(), 1);
}

#[test]
fn faulted_execution_is_a_crash_objective() {
    let mut f = Fuzzer::new(config());
    let (outcome, step) = f.load_seed(b"{}".to_vec(), ExecStatus::Faulted, &quiet_map(), 1);
    assert_eq!(outcome, Outcome::Crash);
    assert!(step.objective_added);
    assert_eq!(f.objectives_found(), 1);
}

#[test]
fn divergence_found_by_the_loop_is_stored() {
    let mut f = Fuzzer::new(config());
    // absorb stands for one executed candidate handed back by the context
    let step = f.absorb(br#"{"n": 1e400}"#.to_vec(), Outcome::Crash, None, &quiet_map(), 1);
    assert!(step.objective_added);
    assert_eq!(f.objectives_found(), 1);
    let step2 = f.absorb(br#"{"n": 1e400}"#.to_vec(), Outcome::Crash, None, &quiet_map(), 1);
    assert!(!step2.objective_added);
    assert_eq!(f.objectives_found(), 1);
}

#[test]
fn loading_must_produce_a_seed() {
    let mut f = Fuzzer::new(config());
    assert_eq!(f.finish_loading(), Err(LoadError::NoUsableSeeds));
    f.load_seed(b"{}".to_vec(), ExecStatus::Completed, &novel_map(), 1);
    assert!(f.finish_loading().is_ok());
}

#[test]
fn budget_stops_the_run() {
    let mut cfg = config();
    cfg.exec_budget = 2;
    let mut f = Fuzzer::new(cfg);
    f.load_seed(b"{}".to_vec(), ExecStatus::Completed, &novel_map(), 1);
    assert!(!f.should_stop());
    f.fuzz_one(&quiet_map(), 1);
    assert!(f.should_stop());
}

#[test]
fn rng_seed_zero_still_draws() {
    let mut r = Rng64::new(0);
    let a = r.next_u64();
    let b = r.next_u64();
    assert_ne!(a, 0);
    assert_ne!(a, b);
    // same seed, same stream
    let mut r2 = Rng64::new(0);
    assert_eq!(r2.next_u64(), a);
    assert_eq!(r2.next_u64(), b);
}

#[test]
fn mutation_can_grow_an_empty_seed() {
    let seed: Vec<u8> = Vec::new();
    let dict: Vec<Vec<u8>> = Vec::new();
    let mut rng = Rng64::new(3);
    let mut grew = false;
    for _ in 0..20 {
        let child = mutate(&seed, &mut rng, 8, &dict);
        assert!(child.len() <= 8);
        if !child.is_empty() {
            grew = true;
        }
    }
    assert!(grew, "on an empty input every operator inserts, so some child is non-empty");
}
