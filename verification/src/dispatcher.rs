//! The dispatcher: which execution path a module takes, and how whatever
//! came back from an invocation becomes one common result.

use crate::descriptor::{ExecutionMode, ModuleDescriptor};
use crate::error::ModuleError;
use crate::table::Table;
use vstd::prelude::*;

verus! {

/// What one invocation of a module yields: its table, or why there is none.
pub type ModuleResult = Result<Table, ModuleError>;

/// Where an invocation is scheduled.
#[derive(Clone, Copy, Debug, PartialEq, Eq, Structural, Hash)]
pub enum Lane {
    /// On the context that runs the batch, one module after the other.
    Invoking,
    /// On the pool of workers that run modules concurrently.
    ConcurrentPool,
    /// On a worker set aside for calls that may block.
    BlockingPool,
}

/// What came back from one invocation, before it is normalised.
#[derive(Debug, PartialEq, Eq)]
pub enum Outcome {
    /// The module returned, with a table or with its own error.
    Returned(ModuleResult),
    /// The module panicked.
    Panicked,
    /// The invocation was given up: cancelled, or detached after the grace
    /// period.
    Abandoned,
}

/// Success, or the kind of failure: what two runs are compared by.
#[derive(Clone, Copy, Debug, PartialEq, Eq, Structural, Hash)]
pub enum ResultKind {
    Success,
    Failure(ModuleError),
}

/// The lane for each execution mode: blocking modules go to their own
/// workers, global-async modules to the concurrent pool, local-async and
/// sync modules stay on the invoking context.
pub open spec fn lane_for(mode: ExecutionMode) -> Lane {
    match mode {
        ExecutionMode::Sync => Lane::Invoking,
        ExecutionMode::LocalAsync => Lane::Invoking,
        ExecutionMode::GlobalAsync => Lane::ConcurrentPool,
        ExecutionMode::Blocking => Lane::BlockingPool,
    }
}

/// The common result for each outcome. A failure is captured, never passed
/// on: a panic and an abandoned invocation become failures of their own kind.
pub open spec fn normalized(outcome: Outcome) -> ModuleResult {
    match outcome {
        Outcome::Returned(result) => result,
        Outcome::Panicked => Err(ModuleError::Panicked),
        Outcome::Abandoned => Err(ModuleError::Cancelled),
    }
}

/// The kind of a result.
pub open spec fn kind_of(result: ModuleResult) -> ResultKind {
    match result {
        Ok(_) => ResultKind::Success,
        Err(e) => ResultKind::Failure(e),
    }
}

/// The kinds of a sequence of results, one by one.
pub open spec fn kinds_of(results: Seq<ModuleResult>) -> Seq<ResultKind> {
    Seq::new(results.len(), |i: int| kind_of(results[i]))
}

/// The lane on which a module with this execution mode runs.
pub fn lane_of(mode: ExecutionMode) -> (lane: Lane)
    ensures
        lane == lane_for(mode),
{
    match mode {
        ExecutionMode::Sync => Lane::Invoking,
        ExecutionMode::LocalAsync => Lane::Invoking,
        ExecutionMode::GlobalAsync => Lane::ConcurrentPool,
        ExecutionMode::Blocking => Lane::BlockingPool,
    }
}

/// Turns what came back from an invocation into the common result.
pub fn normalize(outcome: Outcome) -> (result: ModuleResult)
    ensures
        result == normalized(outcome),
{
    match outcome {
        Outcome::Returned(result) => result,
        Outcome::Panicked => Err(ModuleError::Panicked),
        Outcome::Abandoned => Err(ModuleError::Cancelled),
    }
}

/// Whether a result is a success, and if not, which failure.
pub fn result_kind(result: &ModuleResult) -> (kind: ResultKind)
    ensures
        kind == kind_of(*result),
{
    match result {
        Ok(_) => ResultKind::Success,
        Err(e) => ResultKind::Failure(*e),
    }
}

/// The kinds of the results of a run, in order.
pub fn result_kinds(results: &Vec<ModuleResult>) -> (kinds: Vec<ResultKind>)
    ensures
        kinds@ == kinds_of(results@),
{
    let mut kinds: Vec<ResultKind> = Vec::new();
    let n = results.len();
    let mut i: usize = 0;
    while i < n
        invariant
            i <= n,
            n == results@.len(),
            kinds@.len() == i,
            forall|k: int| 0 <= k < i ==> kinds@[k] == kind_of(results@[k]),
        decreases n - i,
    {
        kinds.push(result_kind(&results[i]));
        i = i + 1;
    }
    assert(kinds@ =~= kinds_of(results@));
    kinds
}

/// Invokes a module on the calling context through `run`, the code that
/// stands behind the descriptor. Whatever `run` hands back, failure
/// included, is the result.
pub fn dispatch<F: Fn(&ModuleDescriptor) -> ModuleResult>(
    descriptor: &ModuleDescriptor,
    run: &F,
) -> (result: ModuleResult)
    requires
        call_requires(*run, (descriptor,)),
    ensures
        call_ensures(*run, (descriptor,), result),
{
    run(descriptor)
}

} // verus!
