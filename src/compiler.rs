//! Compilation: the result of a sandboxed compile, and compiled comparators and
//! validators cached per problem.

use vstd::prelude::*;
use crate::executer::{ExecutionOutcome, ExecutionStatus};
use crate::text::{concat_str, decimal, i64_to_string, signed_decimal};

verus! {

/// The result of compiling a user's program.
#[derive(Debug)]
pub struct CompileResult {
    pub success: bool,
    pub message: Option<String>,
}

/// The result of compiling a comparator or a validator.
#[derive(Debug)]
pub struct TrustedCompileResult {
    pub exit_code: i32,
    pub stdout: String,
    pub stderr: String,
    pub success: bool,
}

/// A language without a compile command needs no compilation.
pub fn no_compilation() -> (r: CompileResult)
    ensures
        r.success,
        r.message is None,
{
    CompileResult { success: true, message: None }
}

/// What a failed compilation reports when it printed nothing.
pub open spec fn status_message(status: ExecutionStatus) -> Seq<char> {
    match status {
        ExecutionStatus::TimeLimitExceeded => "Compilation timed out"@,
        ExecutionStatus::Signaled(_) => "Compiler crashed"@,
        ExecutionStatus::RuntimeError => "Compiler crashed"@,
        ExecutionStatus::Exited(code) => "Compilation failed with exit code "@ + signed_decimal(
            code as int,
        ),
        _ => "Compilation failed"@,
    }
}

/// The result of a sandboxed compilation: success when the compiler exited with 0;
/// otherwise its error output, else its output, else a description of how it ended.
pub fn compile_result_of(outcome: ExecutionOutcome) -> (r: CompileResult)
    ensures
        r.success == (outcome.status == ExecutionStatus::Exited(0)),
        r.success ==> r.message is None,
        !r.success ==> (r.message matches Some(m) && m@ == if outcome.stderr@.len() > 0 {
            outcome.stderr@
        } else if outcome.stdout@.len() > 0 {
            outcome.stdout@
        } else {
            status_message(outcome.status)
        }),
{
    if outcome.status == ExecutionStatus::Exited(0) {
        return CompileResult { success: true, message: None };
    }
    let message = if !outcome.stderr.as_str().is_empty() {
        outcome.stderr
    } else if !outcome.stdout.as_str().is_empty() {
        outcome.stdout
    } else {
        match outcome.status {
            ExecutionStatus::TimeLimitExceeded => "Compilation timed out".to_owned(),
            ExecutionStatus::Signaled(_) => "Compiler crashed".to_owned(),
            ExecutionStatus::RuntimeError => "Compiler crashed".to_owned(),
            ExecutionStatus::Exited(code) => {
                let n = i64_to_string(code as i64);
                concat_str("Compilation failed with exit code ", n.as_str())
            },
            _ => "Compilation failed".to_owned(),
        }
    };
    CompileResult { success: false, message: Some(message) }
}

/// The result of compiling a comparator or validator.
pub fn trusted_compile_result(outcome: ExecutionOutcome) -> (r: TrustedCompileResult)
    ensures
        r.success == (outcome.status == ExecutionStatus::Exited(0)),
        r.exit_code == crate::executer::exit_code_of(outcome.status),
        r.stdout == outcome.stdout,
        r.stderr == outcome.stderr,
{
    let success = outcome.is_success();
    let exit_code = outcome.exit_code();
    TrustedCompileResult { exit_code, stdout: outcome.stdout, stderr: outcome.stderr, success }
}

/// `g++ -O2 -std=c++17 -o <output> <source>`, then `-I<dir>` for each include directory.
pub fn trusted_compile_command(output_path: &str, source_path: &str, include_dirs: &Vec<String>) -> (r:
    Vec<String>)
    ensures
        r@.len() == 6 + include_dirs@.len(),
        r@[0]@ == "g++"@,
        r@[1]@ == "-O2"@,
        r@[2]@ == "-std=c++17"@,
        r@[3]@ == "-o"@,
        r@[4]@ == output_path@,
        r@[5]@ == source_path@,
        forall|i: int|
            0 <= i < include_dirs@.len() ==> #[trigger] r@[6 + i]@ == "-I"@ + include_dirs@[i]@,
{
    let mut r: Vec<String> = Vec::new();
    r.push("g++".to_owned());
    r.push("-O2".to_owned());
    r.push("-std=c++17".to_owned());
    r.push("-o".to_owned());
    r.push(output_path.to_owned());
    r.push(source_path.to_owned());
    let mut i: usize = 0;
    while i < include_dirs.len()
        invariant
            i <= include_dirs.len(),
            r@.len() == 6 + i,
            r@[0]@ == "g++"@,
            r@[1]@ == "-O2"@,
            r@[2]@ == "-std=c++17"@,
            r@[3]@ == "-o"@,
            r@[4]@ == output_path@,
            r@[5]@ == source_path@,
            forall|j: int| 0 <= j < i ==> #[trigger] r@[6 + j]@ == "-I"@ + include_dirs@[j]@,
        decreases include_dirs.len() - i,
    {
        r.push(concat_str("-I", include_dirs[i].as_str()));
        i = i + 1;
    }
    r
}

/// Which kind of trusted program a cache holds.
#[derive(Debug, Clone, Copy, PartialEq, Eq, Structural)]
pub enum TrustedKind {
    Checker,
    Validator,
}

pub open spec fn kind_name(kind: TrustedKind) -> Seq<char> {
    match kind {
        TrustedKind::Checker => "checker"@,
        TrustedKind::Validator => "validator"@,
    }
}

fn kind_str(kind: TrustedKind) -> (r: &'static str)
    ensures
        r@ == kind_name(kind),
{
    match kind {
        TrustedKind::Checker => "checker",
        TrustedKind::Validator => "validator",
    }
}

/// `/tmp/<kind>_cache/<kind>_<problem_id>`: where the program of a problem is cached.
pub open spec fn cache_dir_spec(kind: TrustedKind, problem_id: i64) -> Seq<char> {
    "/tmp/"@ + kind_name(kind) + "_cache/"@ + kind_name(kind) + "_"@ + signed_decimal(
        problem_id as int,
    )
}

/// The cached source: `<dir>/<kind>.cpp`.
pub open spec fn source_path_spec(kind: TrustedKind, problem_id: i64) -> Seq<char> {
    cache_dir_spec(kind, problem_id) + "/"@ + kind_name(kind) + ".cpp"@
}

/// The cached binary: `<dir>/<kind>`.
pub open spec fn binary_path_spec(kind: TrustedKind, problem_id: i64) -> Seq<char> {
    cache_dir_spec(kind, problem_id) + "/"@ + kind_name(kind)
}

pub fn cache_dir(kind: TrustedKind, problem_id: i64) -> (r: String)
    ensures
        r@ == cache_dir_spec(kind, problem_id),
{
    let k = kind_str(kind);
    let a = concat_str("/tmp/", k);
    let b = concat_str(a.as_str(), "_cache/");
    let c = concat_str(b.as_str(), k);
    let d = concat_str(c.as_str(), "_");
    let n = i64_to_string(problem_id);
    concat_str(d.as_str(), n.as_str())
}

pub fn cached_source_path(kind: TrustedKind, problem_id: i64) -> (r: String)
    ensures
        r@ == source_path_spec(kind, problem_id),
{
    let dir = cache_dir(kind, problem_id);
    let a = concat_str(dir.as_str(), "/");
    let b = concat_str(a.as_str(), kind_str(kind));
    concat_str(b.as_str(), ".cpp")
}

pub fn cached_binary_path(kind: TrustedKind, problem_id: i64) -> (r: String)
    ensures
        r@ == binary_path_spec(kind, problem_id),
{
    let dir = cache_dir(kind, problem_id);
    let a = concat_str(dir.as_str(), "/");
    concat_str(a.as_str(), kind_str(kind))
}

/// Whether the program must be built: its binary is missing, its cached source is missing,
/// or the cached source differs from `source`.
pub open spec fn needs_compile(binary_exists: bool, cached: Option<Seq<char>>, source: Seq<char>) -> bool {
    !binary_exists || cached != Some(source)
}

/// Decides whether to build, from what the cache holds: whether the binary exists, and
/// the cached source (none when that file is missing).
pub fn need_compile(binary_exists: bool, cached_source: Option<&str>, source: &str) -> (r: bool)
    ensures
        r == needs_compile(
            binary_exists,
            match cached_source {
                Some(c) => Some(c@),
                None => None,
            },
            source@,
        ),
{
    if !binary_exists {
        return true;
    }
    match cached_source {
        None => true,
        Some(c) => {
            let a = crate::text::chars_of(c);
            !crate::text::chars_eq_str(&a, source)
        },
    }
}

/// What the cache holds after a successful request for `source`: a build stores the source
/// and the binary; otherwise nothing changes.
pub open spec fn cache_after(binary_exists: bool, cached: Option<Seq<char>>, source: Seq<char>) -> (
    bool,
    Option<Seq<char>>,
) {
    if needs_compile(binary_exists, cached, source) {
        (true, Some(source))
    } else {
        (binary_exists, cached)
    }
}

/// Two requests in a row for the same source build exactly once when the first finds the
/// cache stale (always so when no binary exists), and never when it is current. Both are
/// answered with the same binary path, since `cached_binary_path` depends on the kind and
/// the problem alone.
pub proof fn lemma_cache_builds_once(
    binary_exists: bool,
    cached: Option<Seq<char>>,
    source: Seq<char>,
)
    ensures
        ({
            let (b1, c1) = cache_after(binary_exists, cached, source);
            let builds = (if needs_compile(binary_exists, cached, source) {
                1int
            } else {
                0
            }) + (if needs_compile(b1, c1, source) {
                1int
            } else {
                0
            });
            &&& !needs_compile(b1, c1, source)
            &&& builds == if needs_compile(binary_exists, cached, source) {
                1int
            } else {
                0
            }
            &&& !binary_exists ==> builds == 1
        }),
{
}

/// Builds and caches the comparators of problems.
#[derive(Debug, Clone)]
pub struct CheckerCompiler {
    /// The testlib header that comparators include.
    pub testlib_path: String,
    pub cache_dir: String,
}

impl CheckerCompiler {
    pub fn new(testlib_path: String) -> (r: Self)
        ensures
            r.testlib_path == testlib_path,
            r.cache_dir@ == "/tmp/checker_cache"@,
    {
        CheckerCompiler { testlib_path, cache_dir: "/tmp/checker_cache".to_owned() }
    }
}

/// Builds and caches the validators of problems.
#[derive(Debug, Clone)]
pub struct ValidatorCompiler {
    pub testlib_path: String,
    pub cache_dir: String,
}

impl ValidatorCompiler {
    pub fn new(testlib_path: String) -> (r: Self)
        ensures
            r.testlib_path == testlib_path,
            r.cache_dir@ == "/tmp/validator_cache"@,
    {
        ValidatorCompiler { testlib_path, cache_dir: "/tmp/validator_cache".to_owned() }
    }
}

} // verus!
