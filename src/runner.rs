//! Programs to run, their limits and outcomes, independent of how they are run.

use vstd::prelude::*;
use crate::meta::{IsolateMeta, IsolateStatus};

verus! {

/// A program and its arguments, environment and working directory.
#[derive(Debug, Clone)]
pub struct CommandSpec {
    pub program: String,
    pub args: Vec<String>,
    /// Environment entries, `key=value`.
    pub env: Vec<String>,
    pub work_dir: Option<String>,
}

impl CommandSpec {
    pub fn new(program: String) -> (r: Self)
        ensures
            r.program == program,
            r.args@.len() == 0,
            r.env@.len() == 0,
            r.work_dir is None,
    {
        CommandSpec { program, args: Vec::new(), env: Vec::new(), work_dir: None }
    }

    pub fn with_args(self, args: Vec<String>) -> (r: Self)
        ensures
            r.program == self.program,
            r.args == args,
            r.env == self.env,
            r.work_dir == self.work_dir,
    {
        CommandSpec { args, ..self }
    }

    pub fn with_env(self, env: Vec<String>) -> (r: Self)
        ensures
            r.program == self.program,
            r.args == self.args,
            r.env == env,
            r.work_dir == self.work_dir,
    {
        CommandSpec { env, ..self }
    }

    pub fn with_work_dir(self, dir: String) -> (r: Self)
        ensures
            r.program == self.program,
            r.args == self.args,
            r.env == self.env,
            r.work_dir == Some(dir),
    {
        CommandSpec { work_dir: Some(dir), ..self }
    }

    /// The first element is the program (empty when there is none), the rest its arguments.
    pub fn from_vec(cmd: &Vec<String>) -> (r: Self)
        ensures
            cmd@.len() == 0 ==> r.program@.len() == 0 && r.args@.len() == 0,
            cmd@.len() > 0 ==> r.program == cmd@[0] && r.args@ == cmd@.drop_first(),
            r.env@.len() == 0,
            r.work_dir is None,
    {
        if cmd.len() == 0 {
            return CommandSpec::new(String::new());
        }
        let mut args: Vec<String> = Vec::new();
        let mut i: usize = 1;
        while i < cmd.len()
            invariant
                1 <= i <= cmd.len(),
                args@ == cmd@.subrange(1, i as int),
            decreases cmd.len() - i,
        {
            args.push(cmd[i].clone());
            i = i + 1;
        }
        proof {
            assert(cmd@.subrange(1, i as int) == cmd@.drop_first());
        }
        CommandSpec { program: cmd[0].clone(), args, env: Vec::new(), work_dir: None }
    }

    /// The program followed by its arguments.
    pub fn to_vec(&self) -> (r: Vec<String>)
        ensures
            r@ == seq![self.program] + self.args@,
    {
        let mut v: Vec<String> = Vec::new();
        v.push(self.program.clone());
        let mut i: usize = 0;
        while i < self.args.len()
            invariant
                i <= self.args.len(),
                v@ == seq![self.program] + self.args@.take(i as int),
            decreases self.args.len() - i,
        {
            v.push(self.args[i].clone());
            proof {
                assert(self.args@.take(i + 1) == self.args@.take(i as int).push(self.args@[i as int]));
            }
            i = i + 1;
        }
        proof {
            assert(self.args@.take(i as int) == self.args@);
        }
        v
    }
}

/// Time (ms) and memory (MiB) limits of a run.
#[derive(Debug, Clone, Copy, PartialEq, Eq, Structural)]
pub struct RunLimits {
    pub time_ms: u32,
    pub memory_mb: u32,
}

impl RunLimits {
    pub fn new(time_ms: u32, memory_mb: u32) -> (r: Self)
        ensures
            r.time_ms == time_ms && r.memory_mb == memory_mb,
    {
        RunLimits { time_ms, memory_mb }
    }
}

impl Default for RunLimits {
    fn default() -> (r: Self)
        ensures
            r.time_ms == 1000 && r.memory_mb == 256,
    {
        RunLimits { time_ms: 1000, memory_mb: 256 }
    }
}

/// How a run ended.
#[derive(Debug, Clone, Copy, PartialEq, Eq, Structural)]
pub enum RunStatus {
    Exited(i32),
    TimeLimitExceeded,
    MemoryLimitExceeded,
    Signaled(i32),
    RuntimeError,
    SystemError,
}

impl RunStatus {
    /// Whether the program exited with code 0.
    pub fn is_success(&self) -> (r: bool)
        ensures
            r == (*self == RunStatus::Exited(0)),
    {
        *self == RunStatus::Exited(0)
    }
}

/// What a run produced.
#[derive(Debug)]
pub struct RunOutcome {
    pub exit_code: i32,
    pub time_ms: u32,
    pub memory_kb: u32,
    pub stdout: String,
    pub stderr: String,
    pub status: RunStatus,
}

impl RunOutcome {
    pub fn is_success(&self) -> (r: bool)
        ensures
            r == (self.status == RunStatus::Exited(0)),
    {
        self.status.is_success()
    }
}

/// The status of a sandboxed run under a memory limit of `memory_mb` MiB: more memory
/// than the limit exceeds it; otherwise the isolator's status carries over.
pub open spec fn run_status_spec(meta: IsolateMeta, memory_mb: u32) -> RunStatus {
    if meta.memory_kb > memory_mb as int * 1024 {
        RunStatus::MemoryLimitExceeded
    } else {
        match meta.status {
            IsolateStatus::Normal => RunStatus::Exited(meta.exit_code),
            IsolateStatus::TimeOut => RunStatus::TimeLimitExceeded,
            IsolateStatus::Signal(sig) => RunStatus::Signaled(sig),
            IsolateStatus::RuntimeError => RunStatus::RuntimeError,
            IsolateStatus::InternalError => RunStatus::SystemError,
        }
    }
}

pub fn run_status_of(meta: &IsolateMeta, memory_mb: u32) -> (r: RunStatus)
    ensures
        r == run_status_spec(*meta, memory_mb),
{
    if meta.memory_kb as u64 > memory_mb as u64 * 1024 {
        RunStatus::MemoryLimitExceeded
    } else {
        match meta.status {
            IsolateStatus::Normal => RunStatus::Exited(meta.exit_code),
            IsolateStatus::TimeOut => RunStatus::TimeLimitExceeded,
            IsolateStatus::Signal(sig) => RunStatus::Signaled(sig),
            IsolateStatus::RuntimeError => RunStatus::RuntimeError,
            IsolateStatus::InternalError => RunStatus::SystemError,
        }
    }
}

/// The status of a program run directly: exit code 0 is success, any other code is kept.
pub fn trusted_run_status(exit_code: i32) -> (r: RunStatus)
    ensures
        r == RunStatus::Exited(exit_code),
{
    RunStatus::Exited(exit_code)
}

/// Runs untrusted programs in a box, from the files of a host directory.
#[derive(Debug, Clone)]
pub struct SandboxedRunner {
    pub box_id: u32,
    pub work_dir: String,
}

impl SandboxedRunner {
    pub fn new(box_id: u32, work_dir: String) -> (r: Self)
        ensures
            r.box_id == box_id && r.work_dir == work_dir,
    {
        SandboxedRunner { box_id, work_dir }
    }
}

/// Runs trusted programs directly, with a default time limit.
#[derive(Debug, Clone, Copy)]
pub struct TrustedRunner {
    pub default_timeout_secs: u64,
}

impl TrustedRunner {
    pub fn new(default_timeout_secs: u64) -> (r: Self)
        ensures
            r.default_timeout_secs == default_timeout_secs,
    {
        TrustedRunner { default_timeout_secs }
    }
}

impl Default for TrustedRunner {
    fn default() -> (r: Self)
        ensures
            r.default_timeout_secs == 30,
    {
        TrustedRunner::new(30)
    }
}

} // verus!
