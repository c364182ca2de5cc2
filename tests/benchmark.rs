use std::sync::Arc;

use regex_contention::{
    aggregate, configure, parse_strategy, parse_threads, run_worker, BenchError, Benchmark,
    Matcher, Strategy, HAYSTACK, ITERS, PATTERN,
};

fn run_all(b: &Benchmark, strategy: Strategy, iters: usize) -> Result<u64, BenchError> {
    let workers: Vec<Arc<Matcher>> = b.workers(strategy);
    let outcomes: Vec<Option<u64>> =
        workers.iter().map(|m| Some(run_worker(m, HAYSTACK, iters))).collect();
    aggregate(&outcomes)
}

#[test]
fn thread_count_plain_and_signed() {
    assert_eq!(parse_threads("4"), Ok(4));
    assert_eq!(parse_threads("+4"), Ok(4));
    assert_eq!(parse_threads("007"), Ok(7));
    assert_eq!(parse_threads("4294967295"), Ok(4294967295));
}

#[test]
fn thread_count_refusals() {
    for text in ["0", "+0", "", "+", "-1", " 4", "4 ", "abc", "4294967296", "99999999999999999999"] {
        assert_eq!(
            parse_threads(text),
            Err(BenchError::InvalidThreadCount(text.to_string())),
            "{text:?}"
        );
    }
}

#[test]
fn strategy_selectors() {
    assert_eq!(parse_strategy("cloned"), Ok(Strategy::Cloned));
    assert_eq!(parse_strategy("shared"), Ok(Strategy::Shared));
    assert_eq!(
        parse_strategy("bogus"),
        Err(BenchError::UnrecognizedStrategy("bogus".to_string()))
    );
    assert_eq!(
        parse_strategy("Cloned"),
        Err(BenchError::UnrecognizedStrategy("Cloned".to_string()))
    );
    assert_eq!(parse_strategy(""), Err(BenchError::UnrecognizedStrategy(String::new())));
}

#[test]
fn configure_checks_threads_then_strategy() {
    assert_eq!(
        configure("0", "cloned").err(),
        Some(BenchError::InvalidThreadCount("0".to_string()))
    );
    assert_eq!(
        configure("x", "bogus").err(),
        Some(BenchError::InvalidThreadCount("x".to_string()))
    );
    assert_eq!(
        configure("4", "bogus").err(),
        Some(BenchError::UnrecognizedStrategy("bogus".to_string()))
    );
    let (b, s) = configure("4", "shared").unwrap();
    assert_eq!(b.threads, 4);
    assert_eq!(s, Strategy::Shared);
    assert!(b.matcher.is_match(HAYSTACK));
}

#[test]
fn malformed_pattern_is_a_compilation_error() {
    assert!(matches!(Benchmark::new("(", 4), Err(BenchError::Compilation(_))));
    assert!(matches!(Matcher::compile("a{", false, 1000), Err(BenchError::Compilation(_))));
}

#[test]
fn matcher_answers_for_the_pattern() {
    let m = Matcher::compile("Q{2}", false, 1 << 20).ok().unwrap();
    assert!(!m.is_match(HAYSTACK));
    assert!(m.is_match("ZQQZ"));
    let copy = m.fresh_copy();
    assert!(!copy.is_match(HAYSTACK));
    assert!(copy.is_match("QQ"));
    let empty = Matcher::compile(PATTERN, false, 1 << 20).ok().unwrap();
    assert!(empty.is_match(""));
    assert!(empty.is_match(HAYSTACK));
}

#[test]
fn worker_counts_every_match() {
    let all = Matcher::compile("", false, 1 << 20).ok().unwrap();
    assert_eq!(run_worker(&all, HAYSTACK, 1000), 1000);
    assert_eq!(run_worker(&all, HAYSTACK, 0), 0);
    let none = Matcher::compile("X", false, 1 << 20).ok().unwrap();
    assert_eq!(run_worker(&none, HAYSTACK, 1000), 0);
    let some = Matcher::compile("QZ", false, 1 << 20).ok().unwrap();
    assert_eq!(run_worker(&some, HAYSTACK, 5), 5);
}

#[test]
fn aggregate_sums_finished_workers() {
    assert_eq!(aggregate(&vec![Some(3), Some(4)]), Ok(7));
    assert_eq!(aggregate(&vec![Some(100_000); 4]), Ok(400_000));
    assert_eq!(aggregate(&vec![Some(u64::MAX)]), Ok(u64::MAX));
}

#[test]
fn aggregate_failures() {
    assert_eq!(aggregate(&vec![Some(3), None]), Err(BenchError::WorkerFailure));
    assert_eq!(aggregate(&vec![None, Some(0)]), Err(BenchError::WorkerFailure));
    assert_eq!(aggregate(&vec![]), Err(BenchError::WorkloadIntegrity));
    assert_eq!(aggregate(&vec![Some(0), Some(0)]), Err(BenchError::WorkloadIntegrity));
}

#[test]
fn workers_per_strategy() {
    let b = Benchmark::new(PATTERN, 3).ok().unwrap();
    let cloned = b.cloned_workers();
    let shared = b.shared_workers();
    assert_eq!(cloned.len(), 3);
    assert_eq!(shared.len(), 3);
    assert!(!Arc::ptr_eq(&cloned[0], &cloned[1]));
    assert!(Arc::ptr_eq(&shared[0], &shared[1]));
    assert!(Arc::ptr_eq(&shared[1], &shared[2]));
    assert_eq!(b.workers(Strategy::Cloned).len(), 3);
    assert_eq!(b.workers(Strategy::Shared).len(), 3);
}

#[test]
fn total_is_threads_times_iters() {
    for threads in 1..=5u32 {
        let b = Benchmark::new(PATTERN, threads).ok().unwrap();
        for strategy in [Strategy::Cloned, Strategy::Shared] {
            assert_eq!(run_all(&b, strategy, 250), Ok(u64::from(threads) * 250));
        }
    }
}

#[test]
fn strategies_agree() {
    for pattern in ["", "QZ", "X"] {
        let b = Benchmark::new(pattern, 3).ok().unwrap();
        assert_eq!(run_all(&b, Strategy::Cloned, 100), run_all(&b, Strategy::Shared, 100));
    }
}

#[test]
fn zero_threads_fail_the_workload() {
    assert_eq!(parse_threads("0"), Err(BenchError::InvalidThreadCount("0".to_string())));
    let b = Benchmark::new(PATTERN, 0).ok().unwrap();
    assert!(b.workers(Strategy::Cloned).is_empty());
    assert_eq!(run_all(&b, Strategy::Cloned, ITERS), Err(BenchError::WorkloadIntegrity));
    assert_eq!(run_all(&b, Strategy::Shared, ITERS), Err(BenchError::WorkloadIntegrity));
}

#[test]
fn never_matching_workload_fails() {
    let b = Benchmark::new("X", 2).ok().unwrap();
    assert_eq!(run_all(&b, Strategy::Cloned, 10), Err(BenchError::WorkloadIntegrity));
}

#[test]
fn four_cloned_workers_count_four_hundred_thousand() {
    let (b, s) = configure("4", "cloned").unwrap();
    assert_eq!(s, Strategy::Cloned);
    assert_eq!(run_all(&b, s, ITERS), Ok(400_000));
}

#[test]
fn four_shared_workers_count_four_hundred_thousand() {
    let (b, s) = configure("4", "shared").unwrap();
    assert_eq!(s, Strategy::Shared);
    assert_eq!(run_all(&b, s, ITERS), Ok(400_000));
}

#[test]
fn empty_pattern_always_compiles() {
    assert!(Matcher::compile("", false, 0).is_ok());
    assert!(Matcher::compile("", true, 1).is_ok());
    assert!(Benchmark::new("", 1).is_ok());
    assert!(configure("1", "cloned").is_ok());
    assert!(configure("+12", "shared").is_ok());
}

#[test]
fn empty_pattern_worker_counts_every_iteration() {
    let m = Matcher::compile("", true, 1 << 20).ok().unwrap();
    assert_eq!(run_worker(&m, "", 37), 37);
    assert_eq!(run_worker(&m, HAYSTACK, ITERS), ITERS as u64);
}
