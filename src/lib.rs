//! A harness that measures how much a shared regex scratch-space pool costs
//! when many threads match against one regex, against giving each thread a
//! regex copy with a pool of its own.
//!
//! The verified library holds the run's decisions: reading the configuration,
//! handing a matcher to each worker, the worker's matching loop and the
//! aggregation of the workers' counts. Spawning, joining and timing the
//! workers is left to the program around it.

mod error;
mod config;
mod matcher;
mod bench;

pub use error::BenchError;
pub use config::{
    all_digits, decimal_value, digit_value, is_digit, parse_strategy, parse_threads, strategy_of,
    thread_count_of, unsigned_digits, Strategy,
};
pub use matcher::{regex_compiles, regex_finds, Matcher};
pub use bench::{
    aggregate_outcome, all_finished, finished_total, is_assignment, outcomes_of, worker_matches,
    aggregate, configure, lemma_strategy_invariant, lemma_total_is_threads_times_iters, lemma_uniform_total,
    lemma_zero_threads_never_succeed, run_worker, Benchmark, DFA_SIZE_LIMIT, HAYSTACK, ITERS, PATTERN,
};
