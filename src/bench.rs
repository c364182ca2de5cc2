use vstd::prelude::*;
use std::sync::Arc;
use crate::config::{parse_strategy, parse_threads, strategy_of, thread_count_of, Strategy};
use crate::error::BenchError;
use crate::matcher::{regex_compiles, regex_finds, Matcher};

verus! {

/// Match operations each worker performs.
pub const ITERS: usize = 100_000;

/// The pattern under test: the empty regex, which matches every haystack.
pub const PATTERN: &'static str = "";

/// The haystack every worker searches: tiny, so that each search is cheap
/// and the cost of getting scratch space dominates.
pub const HAYSTACK: &'static str = "ZQZQZQZQ";

/// Lazy-DFA cache limit the pattern is compiled with: 50 MiB.
pub const DFA_SIZE_LIMIT: usize = 50 * 1048576;

/// A compiled matcher and the number of workers to run against it.
pub struct Benchmark {
    pub matcher: Matcher,
    pub threads: u32,
}

/// Relies on `Arc::clone`: another pointer to the same allocation, so the
/// value seen through it is the same.
#[verifier::external_body]
fn share(m: &Arc<Matcher>) -> (r: Arc<Matcher>)
    ensures
        r == *m,
{
    Arc::clone(m)
}

/// How many of `iters` matches of `haystack` succeed for a matcher compiled
/// from `pattern`: every one or none, as the answer never changes.
pub open spec fn worker_matches(pattern: Seq<char>, unicode: bool, haystack: Seq<char>, iters: nat) -> nat {
    if regex_finds(pattern, unicode, haystack) {
        iters
    } else {
        0
    }
}

/// `workers` gives each of `b`'s threads a matcher that matches as `b`'s own.
pub open spec fn is_assignment(b: Benchmark, workers: Seq<Arc<Matcher>>) -> bool {
    &&& workers.len() == b.threads
    &&& forall|i: int|
        0 <= i < workers.len() ==> (#[trigger] workers[i]).pattern() == b.matcher.pattern()
            && workers[i].unicode() == b.matcher.unicode()
}

/// What each of `workers` reports after `iters` matches of `haystack`.
pub open spec fn outcomes_of(workers: Seq<Arc<Matcher>>, haystack: Seq<char>, iters: nat) -> Seq<Option<u64>> {
    Seq::new(
        workers.len(),
        |i: int| Some(worker_matches(workers[i].pattern(), workers[i].unicode(), haystack, iters) as u64),
    )
}

/// Every worker terminated normally.
pub open spec fn all_finished(outcomes: Seq<Option<u64>>) -> bool {
    forall|i: int| 0 <= i < outcomes.len() ==> (#[trigger] outcomes[i]) is Some
}

/// The sum of the counts of the workers that terminated normally.
pub open spec fn finished_total(outcomes: Seq<Option<u64>>) -> nat
    decreases outcomes.len(),
{
    if outcomes.len() == 0 {
        0
    } else {
        finished_total(outcomes.drop_last()) + match outcomes.last() {
            Some(c) => c as nat,
            None => 0,
        }
    }
}

/// The result of a run whose workers ended with `outcomes`: a failed worker
/// fails the run, a total of zero means the workload never matched, and
/// otherwise the total is the result.
pub open spec fn aggregate_outcome(outcomes: Seq<Option<u64>>) -> Result<u64, BenchError> {
    if !all_finished(outcomes) {
        Err(BenchError::WorkerFailure)
    } else if finished_total(outcomes) == 0 {
        Err(BenchError::WorkloadIntegrity)
    } else {
        Ok(finished_total(outcomes) as u64)
    }
}

impl Benchmark {
    /// Compiles `pattern` once, with Unicode mode off and the lazy-DFA cache
    /// limit of `DFA_SIZE_LIMIT`, for a run of `threads` workers. The empty
    /// pattern always compiles.
    pub fn new(pattern: &str, threads: u32) -> (r: Result<Benchmark, BenchError>)
        ensures
            r is Ok == regex_compiles(pattern@, false, DFA_SIZE_LIMIT),
            pattern@.len() == 0 ==> r is Ok,
            match r {
                Ok(b) => b.matcher.pattern() == pattern@ && !b.matcher.unicode() && b.threads == threads,
                Err(e) => e is Compilation,
            },
    {
        match Matcher::compile(pattern, false, DFA_SIZE_LIMIT) {
            Ok(matcher) => Ok(Benchmark { matcher, threads }),
            Err(e) => Err(e),
        }
    }

    /// Independent copies: one fresh copy of the matcher for each worker,
    /// each with a scratch pool that no other worker touches.
    pub fn cloned_workers(&self) -> (r: Vec<Arc<Matcher>>)
        ensures
            is_assignment(*self, r@),
    {
        let mut r: Vec<Arc<Matcher>> = Vec::new();
        let mut i: u32 = 0;
        while i < self.threads
            invariant
                i <= self.threads,
                r@.len() == i,
                forall|k: int|
                    0 <= k < i ==> (#[trigger] r@[k]).pattern() == self.matcher.pattern()
                        && r@[k].unicode() == self.matcher.unicode(),
            decreases self.threads - i,
        {
            r.push(Arc::new(self.matcher.fresh_copy()));
            i = i + 1;
        }
        r
    }

    /// A shared instance: one copy of the matcher, behind shared ownership,
    /// handed to every worker, so that all of them draw on one scratch pool.
    pub fn shared_workers(&self) -> (r: Vec<Arc<Matcher>>)
        ensures
            is_assignment(*self, r@),
    {
        let shared = Arc::new(self.matcher.fresh_copy());
        let mut r: Vec<Arc<Matcher>> = Vec::new();
        let mut i: u32 = 0;
        while i < self.threads
            invariant
                i <= self.threads,
                shared.pattern() == self.matcher.pattern(),
                shared.unicode() == self.matcher.unicode(),
                r@.len() == i,
                forall|k: int|
                    0 <= k < i ==> (#[trigger] r@[k]).pattern() == self.matcher.pattern()
                        && r@[k].unicode() == self.matcher.unicode(),
            decreases self.threads - i,
        {
            r.push(share(&shared));
            i = i + 1;
        }
        r
    }

    /// The workers' matchers under `strategy`.
    pub fn workers(&self, strategy: Strategy) -> (r: Vec<Arc<Matcher>>)
        ensures
            is_assignment(*self, r@),
    {
        match strategy {
            Strategy::Cloned => self.cloned_workers(),
            Strategy::Shared => self.shared_workers(),
        }
    }
}

/// One worker's loop: matches `haystack` `iters` times and counts the
/// successes. With the empty pattern every match succeeds.
pub fn run_worker(m: &Matcher, haystack: &str, iters: usize) -> (r: u64)
    ensures
        r == worker_matches(m.pattern(), m.unicode(), haystack@, iters as nat),
        m.pattern().len() == 0 ==> r == iters,
{
    let mut matched: u64 = 0;
    let mut i: usize = 0;
    while i < iters
        invariant
            i <= iters,
            matched == worker_matches(m.pattern(), m.unicode(), haystack@, i as nat),
            i > 0 && m.pattern().len() == 0 ==> regex_finds(m.pattern(), m.unicode(), haystack@),
        decreases iters - i,
    {
        if m.is_match(haystack) {
            matched = matched + 1;
        }
        i = i + 1;
    }
    matched
}

proof fn lemma_prefix_total(outcomes: Seq<Option<u64>>, j: int, k: int)
    requires
        0 <= j <= k <= outcomes.len(),
    ensures
        finished_total(outcomes.subrange(0, j)) <= finished_total(outcomes.subrange(0, k)),
    decreases k - j,
{
    if j < k {
        lemma_prefix_total(outcomes, j, k - 1);
        assert(outcomes.subrange(0, k).drop_last() =~= outcomes.subrange(0, k - 1));
    }
}

/// Joins the workers' results: fails with `WorkerFailure` when any worker
/// terminated abnormally (`None`), with `WorkloadIntegrity` when the counts
/// add up to zero, and otherwise gives their sum.
pub fn aggregate(outcomes: &Vec<Option<u64>>) -> (r: Result<u64, BenchError>)
    requires
        finished_total(outcomes@) <= u64::MAX,
    ensures
        r == aggregate_outcome(outcomes@),
{
    let n = outcomes.len();
    let mut total: u64 = 0;
    let mut i: usize = 0;
    while i < n
        invariant
            n == outcomes@.len(),
            i <= n,
            finished_total(outcomes@) <= u64::MAX,
            all_finished(outcomes@.subrange(0, i as int)),
            total == finished_total(outcomes@.subrange(0, i as int)),
        decreases n - i,
    {
        proof {
            lemma_prefix_total(outcomes@, i + 1, n as int);
            assert(outcomes@.subrange(0, n as int) =~= outcomes@);
            assert(outcomes@.subrange(0, i + 1).drop_last() =~= outcomes@.subrange(0, i as int));
        }
        match outcomes[i] {
            None => {
                assert(!(outcomes@[i as int] is Some));
                return Err(BenchError::WorkerFailure);
            },
            Some(c) => {
                total = total + c;
            },
        }
        i = i + 1;
        assert(all_finished(outcomes@.subrange(0, i as int))) by {
            assert forall|k: int| 0 <= k < i implies (#[trigger] outcomes@.subrange(0, i as int)[k]) is Some by {
                if k < i - 1 {
                    assert(outcomes@.subrange(0, i - 1)[k] == outcomes@[k]);
                }
            }
        }
    }
    assert(outcomes@.subrange(0, n as int) =~= outcomes@);
    if total == 0 {
        Err(BenchError::WorkloadIntegrity)
    } else {
        Ok(total)
    }
}

/// Reads the run's configuration and compiles the pattern, in that order:
/// the thread count is checked first, then the strategy selector, both
/// before anything is compiled and before any worker exists. The pattern is
/// `PATTERN`, compiled as `Benchmark::new` does; being empty, it always
/// compiles, so valid texts always give a benchmark. An unrecognized selector
/// always fails the run.
pub fn configure(threads_text: &str, strategy_text: &str) -> (r: Result<(Benchmark, Strategy), BenchError>)
    ensures
        thread_count_of(threads_text@) is Some && strategy_of(strategy_text@) is Some ==> r is Ok,
        strategy_of(strategy_text@) is None ==> r is Err,
        match thread_count_of(threads_text@) {
            None => r matches Err(BenchError::InvalidThreadCount(t)) && t@ == threads_text@,
            Some(n) => match strategy_of(strategy_text@) {
                None => r matches Err(BenchError::UnrecognizedStrategy(t)) && t@ == strategy_text@,
                Some(strategy) => match r {
                    Ok((b, s)) => {
                        &&& s == strategy
                        &&& b.threads == n
                        &&& b.matcher.pattern() == PATTERN@
                        &&& !b.matcher.unicode()
                    },
                    Err(e) => e is Compilation,
                },
            },
        },
{
    let threads = match parse_threads(threads_text) {
        Ok(n) => n,
        Err(e) => return Err(e),
    };
    let strategy = match parse_strategy(strategy_text) {
        Ok(s) => s,
        Err(e) => return Err(e),
    };
    proof {
        reveal_strlit("");
    }
    match Benchmark::new(PATTERN, threads) {
        Ok(b) => Ok((b, strategy)),
        Err(e) => Err(e),
    }
}

/// Workers that all finish with the same count `c` give `len * c` in all;
/// a run of them succeeds with that total when it is positive and fits in
/// `u64`, and fails the workload integrity when it is zero.
pub proof fn lemma_uniform_total(outcomes: Seq<Option<u64>>, c: u64)
    requires
        forall|i: int| 0 <= i < outcomes.len() ==> #[trigger] outcomes[i] == Some(c),
    ensures
        all_finished(outcomes),
        finished_total(outcomes) == outcomes.len() * c,
        1 <= outcomes.len() * c <= u64::MAX ==> aggregate_outcome(outcomes) == Ok::<u64, BenchError>(
            (outcomes.len() * c) as u64,
        ),
        outcomes.len() * c == 0 ==> aggregate_outcome(outcomes) == Err::<u64, BenchError>(
            BenchError::WorkloadIntegrity,
        ),
    decreases outcomes.len(),
{
    if outcomes.len() > 0 {
        let rest = outcomes.drop_last();
        assert forall|i: int| 0 <= i < rest.len() implies #[trigger] rest[i] == Some(c) by {
            assert(rest[i] == outcomes[i]);
        }
        lemma_uniform_total(rest, c);
        assert(outcomes.last() == Some(c));
        assert(finished_total(outcomes) == (outcomes.len() - 1) * c + c);
        assert((outcomes.len() - 1) * c + c == outcomes.len() * c) by (nonlinear_arith);
    }
}

proof fn lemma_outcomes_uniform(b: Benchmark, workers: Seq<Arc<Matcher>>, haystack: Seq<char>, iters: nat)
    requires
        is_assignment(b, workers),
    ensures
        outcomes_of(workers, haystack, iters) =~= Seq::new(
            b.threads as nat,
            |i: int| Some(worker_matches(b.matcher.pattern(), b.matcher.unicode(), haystack, iters) as u64),
        ),
{
    assert forall|i: int| 0 <= i < workers.len() implies workers[i].pattern() == b.matcher.pattern()
        && workers[i].unicode() == b.matcher.unicode() by {
        assert(is_assignment(b, workers));
    }
}

/// A deterministic workload gives a deterministic total: when the pattern
/// matches the haystack, the workers of any assignment, whatever their
/// number, all finish and count `threads * iters` matches in all, and a run
/// with a positive total that fits in `u64` succeeds with exactly that total.
pub proof fn lemma_total_is_threads_times_iters(
    b: Benchmark,
    workers: Seq<Arc<Matcher>>,
    haystack: Seq<char>,
    iters: nat,
)
    requires
        is_assignment(b, workers),
        regex_finds(b.matcher.pattern(), b.matcher.unicode(), haystack),
        iters <= u64::MAX,
    ensures
        all_finished(outcomes_of(workers, haystack, iters)),
        finished_total(outcomes_of(workers, haystack, iters)) == b.threads * iters,
        1 <= b.threads * iters <= u64::MAX ==> aggregate_outcome(outcomes_of(workers, haystack, iters))
            == Ok::<u64, BenchError>((b.threads * iters) as u64),
{
    lemma_outcomes_uniform(b, workers, haystack, iters);
    lemma_uniform_total(outcomes_of(workers, haystack, iters), iters as u64);
}

/// The result does not depend on the strategy: any two assignments of one
/// benchmark's workers, such as the cloned and the shared one, report the
/// same counts and so give the same result.
pub proof fn lemma_strategy_invariant(
    b: Benchmark,
    cloned: Seq<Arc<Matcher>>,
    shared: Seq<Arc<Matcher>>,
    haystack: Seq<char>,
    iters: nat,
)
    requires
        is_assignment(b, cloned),
        is_assignment(b, shared),
    ensures
        outcomes_of(cloned, haystack, iters) == outcomes_of(shared, haystack, iters),
        finished_total(outcomes_of(cloned, haystack, iters)) == finished_total(outcomes_of(shared, haystack, iters)),
        aggregate_outcome(outcomes_of(cloned, haystack, iters)) == aggregate_outcome(outcomes_of(shared, haystack, iters)),
{
    lemma_outcomes_uniform(b, cloned, haystack, iters);
    lemma_outcomes_uniform(b, shared, haystack, iters);
}

/// A run never succeeds with no workers: a configured thread count is at
/// least one, and a benchmark of zero threads ends in a workload-integrity
/// failure rather than in a result.
pub proof fn lemma_zero_threads_never_succeed(
    text: Seq<char>,
    b: Benchmark,
    workers: Seq<Arc<Matcher>>,
    haystack: Seq<char>,
    iters: nat,
)
    requires
        is_assignment(b, workers),
        b.threads == 0,
    ensures
        thread_count_of(text) != Some(0u32),
        aggregate_outcome(outcomes_of(workers, haystack, iters)) == Err::<u64, BenchError>(
            BenchError::WorkloadIntegrity,
        ),
{
    assert(outcomes_of(workers, haystack, iters).len() == 0);
}

} // verus!
