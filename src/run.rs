//! The order of a run: reset the output, process every spec in registry
//! order, then write the index; the first failure stops the run.
use vstd::prelude::*;

verus! {

/// Where a run stands.
#[derive(PartialEq, Eq, Structural, Debug, Clone, Copy)]
pub enum Stage {
    /// Reset the output tree and write the fixed files.
    Prepare,
    /// Generate the bindings and copy the artifacts of the spec at this index.
    Generate(usize),
    /// Write the module index.
    WriteIndex,
    /// The run succeeded.
    Done,
    /// The run failed.
    Aborted,
}

/// The stage after `s`, whose work succeeded when `ok` holds, in a run over
/// `n` specs.
pub open spec fn next_stage(s: Stage, ok: bool, n: nat) -> Stage {
    match s {
        Stage::Done => Stage::Done,
        Stage::Aborted => Stage::Aborted,
        _ => if !ok {
            Stage::Aborted
        } else {
            match s {
                Stage::Prepare => if n == 0 {
                    Stage::WriteIndex
                } else {
                    Stage::Generate(0)
                },
                Stage::Generate(i) => if i + 1 < n {
                    Stage::Generate((i + 1) as usize)
                } else {
                    Stage::WriteIndex
                },
                _ => Stage::Done,
            }
        },
    }
}

/// The stage that follows `s` once its work has succeeded (`ok`) or failed.
pub fn advance(s: Stage, ok: bool, n: usize) -> (r: Stage)
    ensures
        r == next_stage(s, ok, n as nat),
{
    match s {
        Stage::Done => Stage::Done,
        Stage::Aborted => Stage::Aborted,
        _ => if !ok {
            Stage::Aborted
        } else {
            match s {
                Stage::Prepare => if n == 0 {
                    Stage::WriteIndex
                } else {
                    Stage::Generate(0)
                },
                Stage::Generate(i) => if i < n && i + 1 < n {
                    Stage::Generate(i + 1)
                } else {
                    Stage::WriteIndex
                },
                _ => Stage::Done,
            }
        },
    }
}

/// The stage reached from `Prepare` after `k` successful steps.
pub open spec fn after_successes(k: nat, n: nat) -> Stage
    decreases k,
{
    if k == 0 {
        Stage::Prepare
    } else {
        next_stage(after_successes((k - 1) as nat, n), true, n)
    }
}

/// A run that keeps succeeding prepares, then handles the specs one at a
/// time in registry order, then writes the index, and then is done.
pub proof fn lemma_run_order(k: nat, n: nat)
    requires
        n < usize::MAX,
    ensures
        k == 0 ==> after_successes(k, n) == Stage::Prepare,
        1 <= k <= n ==> after_successes(k, n) == Stage::Generate((k - 1) as usize),
        k == n + 1 ==> after_successes(k, n) == Stage::WriteIndex,
        k >= n + 2 ==> after_successes(k, n) == Stage::Done,
    decreases k,
{
    if k > 0 {
        lemma_run_order((k - 1) as nat, n);
    }
}

/// A failure stops the run for good: a failed stage leads to `Aborted`, and
/// `Aborted` is never left, so the index is never written after a failure.
pub proof fn lemma_failure_is_final(s: Stage, ok: bool, n: nat)
    ensures
        !(s is Done) ==> next_stage(s, false, n) == Stage::Aborted,
        next_stage(Stage::Aborted, ok, n) == Stage::Aborted,
{
}

} // verus!
