//! Typed execution: what to run, with which limits, and what came of it.

use vstd::prelude::*;
use crate::meta::{IsolateMeta, IsolateStatus};

verus! {

/// How a run ended, once normalised.
#[derive(Debug, Clone, Copy, PartialEq, Eq, Structural)]
pub enum ExecutionStatus {
    /// The program exited with the given code.
    Exited(i32),
    TimeLimitExceeded,
    MemoryLimitExceeded,
    /// The program was killed by the given signal.
    Signaled(i32),
    RuntimeError,
    SystemError,
}

/// What a run produced.
#[derive(Debug)]
pub struct ExecutionOutcome {
    pub status: ExecutionStatus,
    /// CPU time in milliseconds.
    pub time_ms: u32,
    /// Peak memory in KiB.
    pub memory_kb: u32,
    /// Standard output, decoded lossily.
    pub stdout: String,
    /// Standard output, as raw bytes.
    pub stdout_bytes: Vec<u8>,
    pub stderr: String,
}

/// The exit code that a status carries, or -1 when it carries none.
pub open spec fn exit_code_of(status: ExecutionStatus) -> i32 {
    match status {
        ExecutionStatus::Exited(code) => code,
        _ => -1i32,
    }
}

impl ExecutionOutcome {
    /// Whether the program exited with code 0.
    pub fn is_success(&self) -> (r: bool)
        ensures
            r == (self.status == ExecutionStatus::Exited(0)),
    {
        self.status == ExecutionStatus::Exited(0)
    }

    pub fn exit_code(&self) -> (r: i32)
        ensures
            r == exit_code_of(self.status),
    {
        match self.status {
            ExecutionStatus::Exited(code) => code,
            _ => -1,
        }
    }
}

/// Time (ms) and memory (MiB) limits of a run.
#[derive(Debug, Clone, Copy, PartialEq, Eq, Structural)]
pub struct ExecutionLimits {
    pub time_ms: u32,
    pub memory_mb: u32,
}

impl Default for ExecutionLimits {
    fn default() -> (r: Self)
        ensures
            r.time_ms == 1000 && r.memory_mb == 512,
    {
        ExecutionLimits { time_ms: 1000, memory_mb: 512 }
    }
}

/// What to run: the host directory whose files are staged into the box, the command,
/// the limits, the standard input, and where to copy the box's files afterwards.
#[derive(Debug, Clone)]
pub struct ExecutionSpec {
    pub work_dir: String,
    pub command: Vec<String>,
    pub limits: ExecutionLimits,
    pub stdin: Option<String>,
    pub copy_out_dir: Option<String>,
}

impl ExecutionSpec {
    pub fn new(work_dir: &str) -> (r: Self)
        ensures
            r.work_dir@ == work_dir@,
            r.command@.len() == 0,
            r.limits.time_ms == 1000 && r.limits.memory_mb == 512,
            r.stdin is None,
            r.copy_out_dir is None,
    {
        ExecutionSpec {
            work_dir: work_dir.to_owned(),
            command: Vec::new(),
            limits: ExecutionLimits::default(),
            stdin: None,
            copy_out_dir: None,
        }
    }

    pub fn with_command(self, command: Vec<String>) -> (r: Self)
        ensures
            r == (ExecutionSpec { command, ..self }),
    {
        ExecutionSpec { command, ..self }
    }

    pub fn with_limits(self, limits: ExecutionLimits) -> (r: Self)
        ensures
            r == (ExecutionSpec { limits, ..self }),
    {
        ExecutionSpec { limits, ..self }
    }

    pub fn with_stdin(self, stdin: String) -> (r: Self)
        ensures
            r == (ExecutionSpec { stdin: Some(stdin), ..self }),
    {
        ExecutionSpec { stdin: Some(stdin), ..self }
    }

    pub fn with_copy_out_dir(self, dir: String) -> (r: Self)
        ensures
            r == (ExecutionSpec { copy_out_dir: Some(dir), ..self }),
    {
        ExecutionSpec { copy_out_dir: Some(dir), ..self }
    }
}

/// The status of a run that the meta record describes, under a memory limit of
/// `limit_kb` KiB: any run that used more memory exceeded it; otherwise the isolator's
/// status carries over, a normal exit keeping its code.
pub open spec fn status_of_meta(meta: IsolateMeta, limit_kb: int) -> ExecutionStatus {
    if meta.memory_kb > limit_kb {
        ExecutionStatus::MemoryLimitExceeded
    } else {
        match meta.status {
            IsolateStatus::Normal => ExecutionStatus::Exited(meta.exit_code),
            IsolateStatus::TimeOut => ExecutionStatus::TimeLimitExceeded,
            IsolateStatus::Signal(sig) => ExecutionStatus::Signaled(sig),
            IsolateStatus::RuntimeError => ExecutionStatus::RuntimeError,
            IsolateStatus::InternalError => ExecutionStatus::SystemError,
        }
    }
}

/// Normalises the isolator's account of a run, with a memory limit in MiB.
pub fn normalize_status(meta: &IsolateMeta, memory_limit_mb: u32) -> (r: ExecutionStatus)
    ensures
        r == status_of_meta(*meta, memory_limit_mb as int * 1024),
{
    let limit_kb: u64 = memory_limit_mb as u64 * 1024;
    if meta.memory_kb as u64 > limit_kb {
        ExecutionStatus::MemoryLimitExceeded
    } else {
        match meta.status {
            IsolateStatus::Normal => ExecutionStatus::Exited(meta.exit_code),
            IsolateStatus::TimeOut => ExecutionStatus::TimeLimitExceeded,
            IsolateStatus::Signal(sig) => ExecutionStatus::Signaled(sig),
            IsolateStatus::RuntimeError => ExecutionStatus::RuntimeError,
            IsolateStatus::InternalError => ExecutionStatus::SystemError,
        }
    }
}

/// The outcome of a run from its meta record and captured output.
pub fn outcome_of_run(
    meta: &IsolateMeta,
    memory_limit_mb: u32,
    stdout: String,
    stdout_bytes: Vec<u8>,
    stderr: String,
) -> (r: ExecutionOutcome)
    ensures
        r.status == status_of_meta(*meta, memory_limit_mb as int * 1024),
        r.time_ms == meta.time_ms,
        r.memory_kb == meta.memory_kb,
        r.stdout == stdout,
        r.stdout_bytes == stdout_bytes,
        r.stderr == stderr,
{
    ExecutionOutcome {
        status: normalize_status(meta, memory_limit_mb),
        time_ms: meta.time_ms,
        memory_kb: meta.memory_kb,
        stdout,
        stdout_bytes,
        stderr,
    }
}

} // verus!
