use vstd::prelude::*;

verus! {

/// Every way a run can fail.
#[derive(Debug, PartialEq, Eq)]
pub enum BenchError {
    /// The thread count is not a positive integer that fits in `u32`; holds
    /// the text that was given.
    InvalidThreadCount(String),
    /// The regex engine rejected the pattern; holds its message.
    Compilation(String),
    /// The strategy selector is neither `cloned` nor `shared`; holds the text
    /// that was given.
    UnrecognizedStrategy(String),
    /// All workers finished but none of them found a match.
    WorkloadIntegrity,
    /// A worker terminated abnormally.
    WorkerFailure,
}

} // verus!
