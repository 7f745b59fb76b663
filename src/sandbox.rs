//! Sandbox configuration, box identities and the description of an isolator run.

use vstd::prelude::*;
use crate::meta::IsolateMeta;
use crate::text::{
    chars_of, concat_str, decimal, decimal_chars, i64_to_string, signed_decimal, string_from_chars,
    trim, trim_range,
};

verus! {

/// Default CPU-time cap of a compilation, in milliseconds.
pub const COMPILE_TIME_LIMIT_MS: u32 = 30000;

/// Default memory cap of a compilation, in MiB.
pub const COMPILE_MEMORY_LIMIT_MB: u32 = 2048;

/// Box identities that one worker owns.
pub const BOXES_PER_WORKER: u32 = 1000;

/// Compilation limits and the worker's index.
#[derive(Debug, Clone, Copy, PartialEq, Eq, Structural)]
pub struct SandboxConfig {
    pub compile_time_limit_ms: u32,
    pub compile_memory_limit_mb: u32,
    /// Index of the worker, which picks its range of box identities.
    pub worker_id: u32,
}

pub open spec fn default_config() -> SandboxConfig {
    SandboxConfig {
        compile_time_limit_ms: COMPILE_TIME_LIMIT_MS,
        compile_memory_limit_mb: COMPILE_MEMORY_LIMIT_MB,
        worker_id: 0,
    }
}

impl Default for SandboxConfig {
    fn default() -> (r: Self)
        ensures
            r == default_config(),
    {
        SandboxConfig {
            compile_time_limit_ms: COMPILE_TIME_LIMIT_MS,
            compile_memory_limit_mb: COMPILE_MEMORY_LIMIT_MB,
            worker_id: 0,
        }
    }
}

impl SandboxConfig {
    /// The fixed configuration, before a worker index is known.
    pub fn from_env() -> (r: Self)
        ensures
            r == default_config(),
    {
        Self::default()
    }

    /// The default configuration for worker `worker_id`.
    pub fn with_worker_id(worker_id: u32) -> (r: Self)
        ensures
            r == (SandboxConfig { worker_id, ..default_config() }),
    {
        let mut config = Self::default();
        config.worker_id = worker_id;
        config
    }
}

/// Holds the configuration once it is set.
#[derive(Debug, Clone, Copy)]
pub struct ConfigCell {
    pub value: Option<SandboxConfig>,
}

impl ConfigCell {
    pub fn new() -> (r: Self)
        ensures
            r.value is None,
    {
        ConfigCell { value: None }
    }
}

/// Sets the configuration for worker `worker_id`; it can be set once.
pub fn init_config(cell: &mut ConfigCell, worker_id: u32) -> (r: Result<(), String>)
    ensures
        old(cell).value is None ==> r is Ok && final(cell).value == Some(
            SandboxConfig::with_worker_id_spec(worker_id),
        ),
        old(cell).value is Some ==> (r matches Err(e) && e@ == "Sandbox configuration already initialized"@)
            && *final(cell) == *old(cell),
{
    if cell.value.is_some() {
        return Err("Sandbox configuration already initialized".to_owned());
    }
    cell.value = Some(SandboxConfig::with_worker_id(worker_id));
    Ok(())
}

impl SandboxConfig {
    pub open spec fn with_worker_id_spec(worker_id: u32) -> SandboxConfig {
        SandboxConfig { worker_id, ..default_config() }
    }
}

/// The configuration that was set, or the default one.
pub fn get_config(cell: &ConfigCell) -> (r: SandboxConfig)
    ensures
        r == match cell.value {
            Some(c) => c,
            None => default_config(),
        },
{
    match cell.value {
        Some(c) => c,
        None => SandboxConfig::default(),
    }
}

/// Sets the configuration for worker `worker_id` unless one is set already, and returns
/// the configuration in force.
pub fn init_sandbox_config_with_worker_id(cell: &mut ConfigCell, worker_id: u32) -> (r: SandboxConfig)
    ensures
        old(cell).value is None ==> r == SandboxConfig::with_worker_id_spec(worker_id),
        old(cell).value matches Some(c) ==> r == c,
        final(cell).value == Some(r),
{
    match cell.value {
        Some(c) => c,
        None => {
            let c = SandboxConfig::with_worker_id(worker_id);
            cell.value = Some(c);
            c
        },
    }
}

/// The configuration that was set, or the default one.
pub fn get_sandbox_config(cell: &ConfigCell) -> (r: SandboxConfig)
    ensures
        r == match cell.value {
            Some(c) => c,
            None => default_config(),
        },
{
    get_config(cell)
}

/// The box that the worker's `counter`-th run uses:
/// `worker_id * 1000 + counter mod 1000`. The counter then moves on, wrapping around.
pub fn next_box_id(config: &SandboxConfig, counter: &mut u32) -> (r: u32)
    requires
        config.worker_id <= 4294966,
    ensures
        r == config.worker_id * 1000 + *old(counter) % 1000,
        *final(counter) == (if *old(counter) == u32::MAX {
            0
        } else {
            (*old(counter) + 1) as u32
        }),
{
    let c = *counter;
    *counter = if c == u32::MAX {
        0
    } else {
        c + 1
    };
    config.worker_id * BOXES_PER_WORKER + c % BOXES_PER_WORKER
}

/// Box of the `testcase_idx`-th testcase of the `base_counter`-th job, within the range of
/// worker `worker_id mod 10`.
pub fn calculate_box_id(config: &SandboxConfig, base_counter: u32, testcase_idx: u32) -> (r: u32)
    ensures
        r == (config.worker_id % 10) * 1000 + (base_counter as int * 10 + testcase_idx) % 1000,
{
    let worker_offset = (config.worker_id % 10) * BOXES_PER_WORKER;
    let k: u64 = (base_counter as u64 * 10 + testcase_idx as u64) % 1000;
    worker_offset + k as u32
}

/// Every box a worker allocates lies in its own range of a thousand identities.
pub proof fn lemma_box_id_in_worker_range(worker_id: u32, counter: u32)
    requires
        worker_id <= 4294966,
    ensures
        worker_id * 1000 <= worker_id * 1000 + counter % 1000 <= worker_id * 1000 + 999,
{
}

/// Where a run's standard streams go.
#[derive(Debug, Clone)]
pub struct IoSpec {
    /// Host file staged into the box as standard input.
    pub stdin_path: Option<String>,
    /// Name of the file, inside the box, that receives standard output.
    pub stdout_file: String,
    /// Whether standard error joins standard output.
    pub stderr_to_stdout: bool,
}

impl IoSpec {
    pub fn new() -> (r: Self)
        ensures
            r.stdin_path is None,
            r.stdout_file@ == "stdout.txt"@,
            r.stderr_to_stdout,
    {
        IoSpec { stdin_path: None, stdout_file: "stdout.txt".to_owned(), stderr_to_stdout: true }
    }

    pub fn with_stdin(self, path: String) -> (r: Self)
        ensures
            r.stdin_path == Some(path),
            r.stdout_file == self.stdout_file,
            r.stderr_to_stdout == self.stderr_to_stdout,
    {
        IoSpec { stdin_path: Some(path), ..self }
    }

    pub fn with_stderr_to_stdout(self, value: bool) -> (r: Self)
        ensures
            r.stdin_path == self.stdin_path,
            r.stdout_file == self.stdout_file,
            r.stderr_to_stdout == value,
    {
        IoSpec { stderr_to_stdout: value, ..self }
    }
}

/// Resource limits of a sandboxed run.
#[derive(Debug, Clone, Copy, PartialEq, Eq, Structural)]
pub struct Limits {
    /// CPU time in milliseconds.
    pub time_ms: u32,
    /// Memory in MiB.
    pub memory_mb: u32,
    pub processes: u32,
    pub open_files: u32,
    /// Largest file the program may write, in KiB.
    pub fsize_kb: u32,
}

impl Default for Limits {
    fn default() -> (r: Self)
        ensures
            r == (Limits {
                time_ms: 1000,
                memory_mb: 256,
                processes: 64,
                open_files: 256,
                fsize_kb: 262144,
            }),
    {
        Limits { time_ms: 1000, memory_mb: 256, processes: 64, open_files: 256, fsize_kb: 262144 }
    }
}

/// The limits of a sandboxed run of a user program: 64 processes, 256 open files,
/// files up to 256 MiB.
pub fn run_limits(time_ms: u32, memory_mb: u32) -> (r: Limits)
    ensures
        r == (Limits { time_ms, memory_mb, processes: 64, open_files: 256, fsize_kb: 262144 }),
{
    Limits { time_ms, memory_mb, processes: 64, open_files: 256, fsize_kb: 262144 }
}

/// What a sandboxed run produced, before interpretation.
#[derive(Debug)]
pub struct SandboxOutcome {
    pub meta: IsolateMeta,
    pub stdout: String,
    pub stdout_bytes: Vec<u8>,
    pub stderr: String,
}

/// An initialised box of the isolator.
#[derive(Debug)]
pub struct IsolateBox {
    box_id: u32,
    box_path: String,
    use_cgroups: bool,
}

impl IsolateBox {
    pub closed spec fn spec_box_id(&self) -> u32 {
        self.box_id
    }

    pub closed spec fn spec_path(&self) -> Seq<char> {
        self.box_path@
    }

    pub closed spec fn spec_use_cgroups(&self) -> bool {
        self.use_cgroups
    }

    /// The box that `isolate --init` reported at `init_stdout` (its path, with white space
    /// around it).
    pub fn from_init_output(box_id: u32, init_stdout: &str, use_cgroups: bool) -> (r: Self)
        ensures
            r.spec_box_id() == box_id,
            r.spec_path() == trim(init_stdout@),
            r.spec_use_cgroups() == use_cgroups,
    {
        let cs = chars_of(init_stdout);
        let t = trim_range(&cs, 0, cs.len());
        proof {
            assert(cs@.subrange(0, cs.len() as int) == cs@);
        }
        IsolateBox { box_id, box_path: string_from_chars(t.as_slice()), use_cgroups }
    }

    pub fn box_id(&self) -> (r: u32)
        ensures
            r == self.spec_box_id(),
    {
        self.box_id
    }

    pub fn use_cgroups(&self) -> (r: bool)
        ensures
            r == self.spec_use_cgroups(),
    {
        self.use_cgroups
    }

    /// The box's directory.
    pub fn path(&self) -> (r: &str)
        ensures
            r@ == self.spec_path(),
    {
        self.box_path.as_str()
    }

    /// The directory inside the box where programs run: `<path>/box`.
    pub fn work_dir(&self) -> (r: String)
        ensures
            r@ == self.spec_path() + "/box"@,
    {
        let mut v = chars_of(self.box_path.as_str());
        let tail = chars_of("/box");
        let ghost head = v@;
        let mut i: usize = 0;
        while i < tail.len()
            invariant
                i <= tail.len(),
                v@ == head + tail@.take(i as int),
            decreases tail.len() - i,
        {
            v.push(tail[i]);
            proof {
                assert(tail@.take(i + 1) == tail@.take(i as int).push(tail@[i as int]));
            }
            i = i + 1;
        }
        proof {
            assert(tail@.take(i as int) == tail@);
        }
        string_from_chars(v.as_slice())
    }
}

/// The digit `d`.
pub open spec fn digit(d: nat) -> char {
    (('0' as u32) + d) as char
}

/// A duration of `ms` milliseconds written in seconds, as the shortest decimal:
/// `1500` is `1.5`, `1000` is `1`, `1` is `0.001`.
pub open spec fn seconds_text(ms: nat) -> Seq<char> {
    let whole = decimal(ms / 1000);
    let f = ms % 1000;
    if f == 0 {
        whole
    } else if f % 100 == 0 {
        whole + seq!['.', digit(f / 100)]
    } else if f % 10 == 0 {
        whole + seq!['.', digit(f / 100), digit((f / 10) % 10)]
    } else {
        whole + seq!['.', digit(f / 100), digit((f / 10) % 10), digit(f % 10)]
    }
}

fn digit_char(d: u64) -> (c: char)
    requires
        d < 10,
    ensures
        c == digit(d as nat),
{
    let c = if d == 0 {
        '0'
    } else if d == 1 {
        '1'
    } else if d == 2 {
        '2'
    } else if d == 3 {
        '3'
    } else if d == 4 {
        '4'
    } else if d == 5 {
        '5'
    } else if d == 6 {
        '6'
    } else if d == 7 {
        '7'
    } else if d == 8 {
        '8'
    } else {
        '9'
    };
    c
}

/// `ms` milliseconds written in seconds.
pub fn seconds_string(ms: u64) -> (r: String)
    ensures
        r@ == seconds_text(ms as nat),
{
    let mut v = decimal_chars(ms / 1000);
    let f = ms % 1000;
    let ghost whole = v@;
    if f != 0 {
        v.push('.');
        v.push(digit_char(f / 100));
        if f % 100 != 0 {
            v.push(digit_char((f / 10) % 10));
            if f % 10 != 0 {
                v.push(digit_char(f % 10));
            }
        }
        proof {
            if f % 100 == 0 {
                assert(v@ =~= whole + seq!['.', digit((f / 100) as nat)]);
            } else if f % 10 == 0 {
                assert(v@ =~= whole + seq!['.', digit((f / 100) as nat), digit(((f / 10) % 10) as nat)]);
            } else {
                assert(v@ =~= whole + seq![
                    '.',
                    digit((f / 100) as nat),
                    digit(((f / 10) % 10) as nat),
                    digit((f % 10) as nat),
                ]);
            }
        }
    }
    string_from_chars(v.as_slice())
}

/// Where a program lives: as given when it starts with `/` or `./`, else under `/usr/bin/`.
pub open spec fn resolve_program(p: Seq<char>) -> Seq<char> {
    if (p.len() > 0 && p[0] == '/') || (p.len() > 1 && p[0] == '.' && p[1] == '/') {
        p
    } else {
        "/usr/bin/"@ + p
    }
}

pub fn resolve_program_path(p: &str) -> (r: String)
    ensures
        r@ == resolve_program(p@),
{
    let v = chars_of(p);
    if (v.len() > 0 && v[0] == '/') || (v.len() > 1 && v[0] == '.' && v[1] == '/') {
        p.to_owned()
    } else {
        concat_str("/usr/bin/", p)
    }
}

pub open spec fn string_views(v: Seq<String>) -> Seq<Seq<char>> {
    v.map_values(|s: String| s@)
}

/// The command with its program resolved.
pub open spec fn resolved_command(command: Seq<Seq<char>>) -> Seq<Seq<char>> {
    if command.len() == 0 {
        command
    } else {
        seq![resolve_program(command[0])] + command.drop_first()
    }
}

/// The fixed middle of the isolator's arguments: CPU time, wall time of twice the CPU time
/// plus a second, the meta file, the output file, the process, file and size caps, the
/// read-only mounts and scratch space, and the environment.
pub open spec fn fixed_args_spec(limits: Limits, stdout_file: Seq<char>, meta_file: Seq<char>) -> Seq<
    Seq<char>,
> {
    seq![
        "--time="@ + seconds_text(limits.time_ms as nat),
        "--wall-time="@ + seconds_text((limits.time_ms as nat) * 2 + 1000),
        "--meta="@ + meta_file,
        "--stdout="@ + stdout_file,
        "--processes="@ + signed_decimal(limits.processes as int),
        "--open-files="@ + signed_decimal(limits.open_files as int),
        "--fsize="@ + signed_decimal(limits.fsize_kb as int),
        "--dir=/usr"@,
        "--dir=/lib"@,
        "--dir=/lib64"@,
        "--dir=/etc:noexec"@,
        "--dir=/tmp:tmp"@,
        "--env=PATH=/usr/local/bin:/usr/bin:/bin"@,
        "--env=HOME=/box"@,
        "--env=JAVA_HOME=/usr/lib/jvm/java-17-openjdk-amd64"@,
    ]
}

/// The isolator's arguments for a run of `command` in box `box_id`: the box, cgroup memory
/// when cgroups are used, the fixed middle, then optionally the joined error stream and the
/// standard input, and last the command with its program resolved.
pub open spec fn run_args_spec(
    box_id: u32,
    use_cgroups: bool,
    limits: Limits,
    stdout_file: Seq<char>,
    stderr_to_stdout: bool,
    has_stdin: bool,
    meta_file: Seq<char>,
    command: Seq<Seq<char>>,
) -> Seq<Seq<char>> {
    let head = seq!["--box-id"@, signed_decimal(box_id as int)];
    let cg = if use_cgroups {
        seq!["--cg"@, "--cg-mem="@ + signed_decimal(limits.memory_mb as int * 1024)]
    } else {
        Seq::empty()
    };
    let err = if stderr_to_stdout {
        seq!["--stderr-to-stdout"@]
    } else {
        Seq::empty()
    };
    let inp = if has_stdin {
        seq!["--stdin=stdin.txt"@]
    } else {
        Seq::empty()
    };
    head + cg + fixed_args_spec(limits, stdout_file, meta_file) + err + inp + seq!["--run"@, "--"@]
        + resolved_command(command)
}

fn push_arg(v: &mut Vec<String>, s: String)
    ensures
        string_views(final(v)@) == string_views(old(v)@).push(s@),
{
    v.push(s);
    proof {
        assert(string_views(v@) =~= string_views(old(v)@).push(s@));
    }
}

fn push_all_args(v: &mut Vec<String>, w: Vec<String>)
    ensures
        string_views(final(v)@) == string_views(old(v)@) + string_views(w@),
{
    let mut i: usize = 0;
    while i < w.len()
        invariant
            i <= w.len(),
            string_views(v@) == string_views(old(v)@) + string_views(w@).take(i as int),
        decreases w.len() - i,
    {
        push_arg(v, w[i].clone());
        proof {
            assert(string_views(w@).take(i + 1) =~= string_views(w@).take(i as int).push(w@[i as int]@));
        }
        i = i + 1;
    }
    proof {
        assert(string_views(w@).take(i as int) =~= string_views(w@));
    }
}

fn prefixed(prefix: &str, s: &str) -> (r: String)
    ensures
        r@ == prefix@ + s@,
{
    concat_str(prefix, s)
}

fn number_arg(prefix: &str, n: u64) -> (r: String)
    requires
        n <= i64::MAX,
    ensures
        r@ == prefix@ + signed_decimal(n as int),
{
    let t = i64_to_string(n as i64);
    concat_str(prefix, t.as_str())
}

#[verifier::rlimit(40)]
fn fixed_args(limits: &Limits, stdout_file: &str, meta_file: &str) -> (r: Vec<String>)
    ensures
        string_views(r@) == fixed_args_spec(*limits, stdout_file@, meta_file@),
{
    let mut v: Vec<String> = Vec::new();
    let t = seconds_string(limits.time_ms as u64);
    push_arg(&mut v, prefixed("--time=", t.as_str()));
    let w = seconds_string(limits.time_ms as u64 * 2 + 1000);
    push_arg(&mut v, prefixed("--wall-time=", w.as_str()));
    push_arg(&mut v, prefixed("--meta=", meta_file));
    push_arg(&mut v, prefixed("--stdout=", stdout_file));
    push_arg(&mut v, number_arg("--processes=", limits.processes as u64));
    push_arg(&mut v, number_arg("--open-files=", limits.open_files as u64));
    push_arg(&mut v, number_arg("--fsize=", limits.fsize_kb as u64));
    push_arg(&mut v, "--dir=/usr".to_owned());
    push_arg(&mut v, "--dir=/lib".to_owned());
    push_arg(&mut v, "--dir=/lib64".to_owned());
    push_arg(&mut v, "--dir=/etc:noexec".to_owned());
    push_arg(&mut v, "--dir=/tmp:tmp".to_owned());
    push_arg(&mut v, "--env=PATH=/usr/local/bin:/usr/bin:/bin".to_owned());
    push_arg(&mut v, "--env=HOME=/box".to_owned());
    push_arg(&mut v, "--env=JAVA_HOME=/usr/lib/jvm/java-17-openjdk-amd64".to_owned());
    proof {
        assert(string_views(v@) =~= fixed_args_spec(*limits, stdout_file@, meta_file@));
    }
    v
}

fn command_args(command: &Vec<String>) -> (r: Vec<String>)
    ensures
        string_views(r@) == resolved_command(string_views(command@)),
{
    let mut v: Vec<String> = Vec::new();
    if command.len() == 0 {
        proof {
            assert(string_views(v@) =~= resolved_command(string_views(command@)));
        }
        return v;
    }
    push_arg(&mut v, resolve_program_path(command[0].as_str()));
    let mut i: usize = 1;
    proof {
        let rc = resolved_command(string_views(command@));
        assert(string_views(v@) =~= rc.take(1));
    }
    while i < command.len()
        invariant
            1 <= i <= command.len(),
            string_views(v@) == resolved_command(string_views(command@)).take(i as int),
        decreases command.len() - i,
    {
        push_arg(&mut v, command[i].clone());
        proof {
            let rc = resolved_command(string_views(command@));
            assert(rc[i as int] == command@[i as int]@);
            assert(rc.take(i + 1) =~= rc.take(i as int).push(rc[i as int]));
        }
        i = i + 1;
    }
    proof {
        let rc = resolved_command(string_views(command@));
        assert(rc.take(i as int) =~= rc);
    }
    v
}

impl IsolateBox {
    /// The isolator's arguments to run `command` in this box.
    #[verifier::rlimit(40)]
    pub fn run_args(&self, command: &Vec<String>, limits: &Limits, io: &IoSpec, meta_file: &str) -> (r:
        Vec<String>)
        ensures
            string_views(r@) == run_args_spec(
                self.spec_box_id(),
                self.spec_use_cgroups(),
                *limits,
                io.stdout_file@,
                io.stderr_to_stdout,
                io.stdin_path is Some,
                meta_file@,
                string_views(command@),
            ),
    {
        let mut v: Vec<String> = Vec::new();
        push_arg(&mut v, "--box-id".to_owned());
        push_arg(&mut v, i64_to_string(self.box_id as i64));
        let ghost head = string_views(v@);
        if self.use_cgroups {
            push_arg(&mut v, "--cg".to_owned());
            push_arg(&mut v, number_arg("--cg-mem=", limits.memory_mb as u64 * 1024));
        }
        let ghost with_cg = string_views(v@);
        push_all_args(&mut v, fixed_args(limits, io.stdout_file.as_str(), meta_file));
        let ghost with_fixed = string_views(v@);
        if io.stderr_to_stdout {
            push_arg(&mut v, "--stderr-to-stdout".to_owned());
        }
        let ghost with_err = string_views(v@);
        if io.stdin_path.is_some() {
            push_arg(&mut v, "--stdin=stdin.txt".to_owned());
        }
        let ghost with_inp = string_views(v@);
        push_arg(&mut v, "--run".to_owned());
        push_arg(&mut v, "--".to_owned());
        let ghost with_run = string_views(v@);
        push_all_args(&mut v, command_args(command));
        proof {
            let cg = if self.use_cgroups {
                seq!["--cg"@, "--cg-mem="@ + signed_decimal(limits.memory_mb as int * 1024)]
            } else {
                Seq::<Seq<char>>::empty()
            };
            let err = if io.stderr_to_stdout {
                seq!["--stderr-to-stdout"@]
            } else {
                Seq::<Seq<char>>::empty()
            };
            let inp = if io.stdin_path is Some {
                seq!["--stdin=stdin.txt"@]
            } else {
                Seq::<Seq<char>>::empty()
            };
            assert(head =~= seq!["--box-id"@, signed_decimal(self.box_id as int)]);
            assert(with_cg =~= head + cg);
            assert(with_err =~= with_fixed + err);
            assert(with_inp =~= with_err + inp);
            assert(with_run =~= with_inp + seq!["--run"@, "--"@]);
        }
        v
    }
}

} // verus!
