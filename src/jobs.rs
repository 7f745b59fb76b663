//! Jobs from the queue, where their results go, and the claim of a worker index.

use vstd::prelude::*;
use crate::anigma::{AnigmaJudgeJob, AnigmaTask1JudgeJob};
use crate::judger::JudgeJob;
use crate::playground::PlaygroundJob;
use crate::text::{concat_str, i64_to_string, signed_decimal};
use crate::validator::ValidateJob;

verus! {

/// A job taken from the queue.
#[derive(Debug)]
pub enum WorkerJob {
    Judge(JudgeJob),
    Validate(ValidateJob),
    Anigma(AnigmaJudgeJob),
    AnigmaTask1(AnigmaTask1JudgeJob),
    Playground(PlaygroundJob),
}

/// Most workers that share a host; a worker's index is below it.
pub const MAX_WORKERS: u32 = 10;

/// Seconds a claim on a worker index lasts without being renewed.
pub const WORKER_LEASE_TTL_SECS: u64 = 120;

/// Seconds a stored result is kept.
pub const RESULT_EXPIRY_SECS: u64 = 3600;

/// Seconds a playground result is kept.
pub const PLAYGROUND_RESULT_EXPIRY_SECS: u64 = 300;

/// The queue that jobs are taken from.
pub const JUDGE_QUEUE: &'static str = "judge:queue";

pub const JUDGE_RESULT_CHANNEL: &'static str = "judge:results";

pub const VALIDATE_RESULT_CHANNEL: &'static str = "validate:results";

pub const ANIGMA_RESULT_CHANNEL: &'static str = "anigma:results";

pub const JUDGE_PROGRESS_CHANNEL: &'static str = "judge:progress";

/// Kinds of results stored under a key.
#[derive(Debug, Clone, Copy, PartialEq, Eq, Structural)]
pub enum ResultKind {
    Judge,
    Validate,
    Anigma,
}

pub open spec fn result_prefix(kind: ResultKind) -> Seq<char> {
    match kind {
        ResultKind::Judge => "judge:result:"@,
        ResultKind::Validate => "validate:result:"@,
        ResultKind::Anigma => "anigma:result:"@,
    }
}

/// The key of a result: `judge:result:<id>`, `validate:result:<id>` or `anigma:result:<id>`.
pub fn result_key(kind: ResultKind, id: i64) -> (r: String)
    ensures
        r@ == result_prefix(kind) + signed_decimal(id as int),
{
    let prefix = match kind {
        ResultKind::Judge => "judge:result:",
        ResultKind::Validate => "validate:result:",
        ResultKind::Anigma => "anigma:result:",
    };
    let n = i64_to_string(id);
    concat_str(prefix, n.as_str())
}

/// The channel on which results of a kind are published.
pub fn result_channel(kind: ResultKind) -> (r: &'static str)
    ensures
        r@ == match kind {
            ResultKind::Judge => "judge:results"@,
            ResultKind::Validate => "validate:results"@,
            ResultKind::Anigma => "anigma:results"@,
        },
{
    match kind {
        ResultKind::Judge => JUDGE_RESULT_CHANNEL,
        ResultKind::Validate => VALIDATE_RESULT_CHANNEL,
        ResultKind::Anigma => ANIGMA_RESULT_CHANNEL,
    }
}

/// The key that claims worker index `worker_id`: `judge:worker:lease:<id>`.
pub fn lease_key(worker_id: u32) -> (r: String)
    ensures
        r@ == "judge:worker:lease:"@ + signed_decimal(worker_id as int),
{
    let n = i64_to_string(worker_id as i64);
    concat_str("judge:worker:lease:", n.as_str())
}

/// What to do next while claiming a worker index.
#[derive(Debug, Clone, Copy, PartialEq, Eq, Structural)]
pub enum LeaseStep {
    /// Try to claim this index.
    Try(u32),
    /// Every index is taken: wait, then start again from 0.
    Wait,
    /// This index is now ours.
    Claimed(u32),
}

/// The step after trying index `probe`: keep it when the claim succeeded, else try the
/// next index, or wait when none is left.
pub fn next_lease_step(probe: u32, claimed: bool) -> (r: LeaseStep)
    requires
        probe < MAX_WORKERS,
    ensures
        claimed ==> r == LeaseStep::Claimed(probe),
        !claimed && probe + 1 < MAX_WORKERS ==> r == LeaseStep::Try((probe + 1) as u32),
        !claimed && probe + 1 >= MAX_WORKERS ==> r == LeaseStep::Wait,
        r matches LeaseStep::Claimed(w) ==> w < MAX_WORKERS,
        r matches LeaseStep::Try(w) ==> w < MAX_WORKERS,
{
    if claimed {
        LeaseStep::Claimed(probe)
    } else if probe + 1 < MAX_WORKERS {
        LeaseStep::Try(probe + 1)
    } else {
        LeaseStep::Wait
    }
}

/// Seconds between renewals of a claim: half its lifetime.
pub fn lease_refresh_secs() -> (r: u64)
    ensures
        r == WORKER_LEASE_TTL_SECS / 2,
{
    WORKER_LEASE_TTL_SECS / 2
}

/// Share of the testcases done, in whole percent (0 when there are none).
pub fn progress_percentage(current: u64, total: u64) -> (r: u32)
    requires
        current <= total,
    ensures
        total == 0 ==> r == 0,
        total > 0 ==> r == (current as int * 100) / (total as int),
{
    if total == 0 {
        return 0;
    }
    proof {
        assert((current as int * 100) / (total as int) <= 100) by (nonlinear_arith)
            requires current <= total, total > 0;
    }
    ((current as u128 * 100) / total as u128) as u32
}

} // verus!
