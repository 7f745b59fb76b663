//! Archive-based tasks: the testcase verdicts of a built archive, the
//! "make two programs disagree" task, and edit distance between sources.

use vstd::prelude::*;
use vstd::string::StringSliceAdditionalSpecFns;
use vstd::utf8::{decode_utf8, valid_utf8};
use crate::compare::compare_output;
use crate::compare::outputs_match;
use crate::executer::{ExecutionOutcome, ExecutionStatus};
use crate::judger::{JudgeResult, TestcaseResult};
use crate::text::{chars_of, string_from_chars};
use crate::verdict::Verdict;

verus! {

/// Task 1: an input file on which a reference program and a solution must disagree.
#[derive(Debug)]
pub struct AnigmaTask1JudgeJob {
    pub submission_id: i64,
    pub problem_id: i64,
    /// The submitted input file.
    pub input_path: String,
    /// Archive of the reference program (A).
    pub reference_code_path: String,
    /// Archive of the solution program (B).
    pub solution_code_path: String,
    pub time_limit: u32,
    pub memory_limit: u32,
}

/// Task 2: an archive built with `make` and run on testcases.
#[derive(Debug)]
pub struct AnigmaJudgeJob {
    pub submission_id: i64,
    pub problem_id: i64,
    pub zip_path: String,
    /// Reference source for the edit distance: empty, an archive (`.zip`) or a text.
    pub reference_code_path: String,
    pub time_limit: u32,
    pub memory_limit: u32,
    pub max_score: i64,
    pub testcases: Vec<AnigmaTestcase>,
    pub checker_path: Option<String>,
}

#[derive(Debug)]
pub struct AnigmaTestcase {
    pub id: i64,
    pub input_path: String,
    pub expected_output_path: String,
}

/// A judge result with the edit distance to the reference source.
#[derive(Debug)]
pub struct AnigmaJudgeResult {
    pub base: JudgeResult,
    pub edit_distance: Option<u32>,
}

impl AnigmaJudgeResult {
    pub fn system_error(submission_id: i64, message: String) -> (r: Self)
        ensures
            r.base.submission_id == submission_id,
            r.base.verdict@ == Verdict::SystemError.name(),
            r.base.score == 0,
            r.base.execution_time is None,
            r.base.memory_used is None,
            r.base.testcase_results@.len() == 0,
            r.base.error_message == Some(message),
            r.edit_distance is None,
    {
        AnigmaJudgeResult { base: JudgeResult::system_error(submission_id, message), edit_distance: None }
    }
}

/// Score of the first task.
pub const TASK1_SCORE: i64 = 30;

/// What the two programs of the first task did on the submitted input.
#[derive(Debug, Clone, Copy, PartialEq, Eq, Structural)]
pub enum Task1Outcome {
    /// Both ran, with different outputs.
    OutputsDiffer,
    /// Both ran, with the same output.
    OutputsEqual,
    /// The reference program failed and the solution ran.
    ReferenceFailed,
    /// The reference program ran and the solution failed.
    SolutionFailed,
    /// Both failed.
    BothFailed,
}

pub open spec fn task1_outcome_spec(a_ok: bool, b_ok: bool, same_output: bool) -> Task1Outcome {
    if !a_ok && !b_ok {
        Task1Outcome::BothFailed
    } else if !a_ok {
        Task1Outcome::ReferenceFailed
    } else if !b_ok {
        Task1Outcome::SolutionFailed
    } else if same_output {
        Task1Outcome::OutputsEqual
    } else {
        Task1Outcome::OutputsDiffer
    }
}

/// Verdict of the first task: accepted when the programs disagree or only the reference
/// fails; wrong answer when they agree; system error when the solution fails.
pub open spec fn task1_verdict(o: Task1Outcome) -> Verdict {
    match o {
        Task1Outcome::OutputsDiffer => Verdict::Accepted,
        Task1Outcome::ReferenceFailed => Verdict::Accepted,
        Task1Outcome::OutputsEqual => Verdict::WrongAnswer,
        Task1Outcome::SolutionFailed => Verdict::SystemError,
        Task1Outcome::BothFailed => Verdict::SystemError,
    }
}

/// Compares the two runs of the first task; a run succeeds when it exits with code 0.
pub fn task1_outcome(a: &ExecutionOutcome, b: &ExecutionOutcome) -> (r: Task1Outcome)
    ensures
        r == task1_outcome_spec(
            a.status == ExecutionStatus::Exited(0),
            b.status == ExecutionStatus::Exited(0),
            a.stdout@ == b.stdout@,
        ),
{
    let a_ok = a.is_success();
    let b_ok = b.is_success();
    if !a_ok && !b_ok {
        Task1Outcome::BothFailed
    } else if !a_ok {
        Task1Outcome::ReferenceFailed
    } else if !b_ok {
        Task1Outcome::SolutionFailed
    } else if a.stdout == b.stdout {
        Task1Outcome::OutputsEqual
    } else {
        Task1Outcome::OutputsDiffer
    }
}

/// The result of the first task: its verdict, 30 points when accepted, and the larger
/// time and memory of the two runs when accepted.
pub fn task1_result(
    submission_id: i64,
    a: &ExecutionOutcome,
    b: &ExecutionOutcome,
    error_message: Option<String>,
) -> (r: JudgeResult)
    ensures
        ({
            let v = task1_verdict(
                task1_outcome_spec(
                    a.status == ExecutionStatus::Exited(0),
                    b.status == ExecutionStatus::Exited(0),
                    a.stdout@ == b.stdout@,
                ),
            );
            &&& r.submission_id == submission_id
            &&& r.verdict@ == v.name()
            &&& r.score == if v == Verdict::Accepted {
                TASK1_SCORE
            } else {
                0
            }
            &&& r.execution_time == if v == Verdict::Accepted {
                Some(if a.time_ms > b.time_ms {
                    a.time_ms
                } else {
                    b.time_ms
                })
            } else {
                None::<u32>
            }
            &&& r.memory_used == if v == Verdict::Accepted {
                Some(if a.memory_kb > b.memory_kb {
                    a.memory_kb
                } else {
                    b.memory_kb
                })
            } else {
                None::<u32>
            }
            &&& r.testcase_results@.len() == 0
            &&& r.error_message == error_message
        }),
{
    let o = task1_outcome(a, b);
    let verdict = match o {
        Task1Outcome::OutputsDiffer => Verdict::Accepted,
        Task1Outcome::ReferenceFailed => Verdict::Accepted,
        Task1Outcome::OutputsEqual => Verdict::WrongAnswer,
        Task1Outcome::SolutionFailed => Verdict::SystemError,
        Task1Outcome::BothFailed => Verdict::SystemError,
    };
    let accepted = verdict == Verdict::Accepted;
    let max_time = if a.time_ms > b.time_ms {
        a.time_ms
    } else {
        b.time_ms
    };
    let max_memory = if a.memory_kb > b.memory_kb {
        a.memory_kb
    } else {
        b.memory_kb
    };
    JudgeResult {
        submission_id,
        verdict: verdict.to_string(),
        score: if accepted {
            TASK1_SCORE
        } else {
            0
        },
        execution_time: if accepted {
            Some(max_time)
        } else {
            None
        },
        memory_used: if accepted {
            Some(max_memory)
        } else {
            None
        },
        testcase_results: Vec::new(),
        error_message,
    }
}

/// Relies on `String::from_utf8`: it succeeds exactly on valid UTF-8, with the characters
/// that the bytes encode.
#[verifier::external_body]
fn utf8_text(bytes: &[u8]) -> (r: Option<String>)
    ensures
        r is Some <==> valid_utf8(bytes@),
        r matches Some(s) ==> s@ == decode_utf8(bytes@),
{
    String::from_utf8(bytes.to_vec()).ok()
}

/// Whether an archive run's output is right: a valid UTF-8 expectation is compared as
/// text, after normalisation; any other is compared byte for byte with the raw output.
pub open spec fn archive_output_accepted(
    stdout: Seq<char>,
    stdout_bytes: Seq<u8>,
    expected: Seq<u8>,
) -> bool {
    if valid_utf8(expected) {
        outputs_match(stdout, decode_utf8(expected))
    } else {
        stdout_bytes == expected
    }
}

/// Verdict of one testcase of an archive: a normal exit with code 0 is judged on its
/// output; another exit code is a wrong answer, as is any other failure but the limits.
pub open spec fn archive_verdict_spec(
    status: ExecutionStatus,
    stdout: Seq<char>,
    stdout_bytes: Seq<u8>,
    expected: Seq<u8>,
) -> Verdict {
    match status {
        ExecutionStatus::Exited(code) => if code == 0 {
            if archive_output_accepted(stdout, stdout_bytes, expected) {
                Verdict::Accepted
            } else {
                Verdict::WrongAnswer
            }
        } else {
            Verdict::WrongAnswer
        },
        ExecutionStatus::TimeLimitExceeded => Verdict::TimeLimitExceeded,
        ExecutionStatus::MemoryLimitExceeded => Verdict::MemoryLimitExceeded,
        _ => Verdict::WrongAnswer,
    }
}

fn bytes_eq(a: &Vec<u8>, b: &[u8]) -> (r: bool)
    ensures
        r == (a@ == b@),
{
    if a.len() != b.len() {
        return false;
    }
    let mut i: usize = 0;
    while i < a.len()
        invariant
            a.len() == b@.len(),
            i <= a.len(),
            a@.take(i as int) == b@.take(i as int),
        decreases a.len() - i,
    {
        if a[i] != b[i] {
            assert(a@[i as int] != b@[i as int]);
            return false;
        }
        assert(a@.take(i + 1) == a@.take(i as int).push(a@[i as int]));
        assert(b@.take(i + 1) == b@.take(i as int).push(b@[i as int]));
        i = i + 1;
    }
    assert(a@ == a@.take(i as int));
    assert(b@ == b@.take(i as int));
    true
}

/// The verdict of one archive testcase with expected output `expected`.
pub fn archive_testcase_verdict(run: &ExecutionOutcome, expected: &[u8]) -> (r: Verdict)
    ensures
        r == archive_verdict_spec(run.status, run.stdout@, run.stdout_bytes@, expected@),
{
    match run.status {
        ExecutionStatus::Exited(code) => {
            if code != 0 {
                return Verdict::WrongAnswer;
            }
            let ok = match utf8_text(expected) {
                Some(text) => compare_output(run.stdout.as_str(), text.as_str()),
                None => bytes_eq(&run.stdout_bytes, expected),
            };
            if ok {
                Verdict::Accepted
            } else {
                Verdict::WrongAnswer
            }
        },
        ExecutionStatus::TimeLimitExceeded => Verdict::TimeLimitExceeded,
        ExecutionStatus::MemoryLimitExceeded => Verdict::MemoryLimitExceeded,
        _ => Verdict::WrongAnswer,
    }
}

/// What an archive testcase shows of the run's output: the standard output alone, or
/// both streams under headings when something was written to standard error.
pub open spec fn archive_output_text(stdout: Seq<char>, stderr: Seq<char>) -> Seq<char> {
    if stderr.len() == 0 {
        stdout
    } else {
        "=== stdout ===\n"@ + stdout + "\n=== stderr ===\n"@ + stderr
    }
}

fn append_chars(v: &mut Vec<char>, s: &str)
    ensures
        final(v)@ == old(v)@ + s@,
{
    let cs = chars_of(s);
    let mut i: usize = 0;
    while i < cs.len()
        invariant
            i <= cs.len(),
            v@ == old(v)@ + cs@.take(i as int),
        decreases cs.len() - i,
    {
        v.push(cs[i]);
        proof {
            assert(cs@.take(i + 1) == cs@.take(i as int).push(cs@[i as int]));
        }
        i = i + 1;
    }
    proof {
        assert(cs@.take(i as int) == cs@);
    }
}

/// The testcase result of an archive run: its verdict, time and memory when accepted,
/// and the first 4096 characters of what it printed.
#[verifier::rlimit(40)]
pub fn archive_testcase_result(testcase_id: i64, run: &ExecutionOutcome, verdict: Verdict) -> (r:
    TestcaseResult)
    ensures
        r.testcase_id == testcase_id,
        r.verdict@ == verdict.name(),
        r.execution_time == if verdict == Verdict::Accepted {
            Some(run.time_ms)
        } else {
            None::<u32>
        },
        r.memory_used == if verdict == Verdict::Accepted {
            Some(run.memory_kb)
        } else {
            None::<u32>
        },
        r.output matches Some(o) && o@ == ({
            let t = archive_output_text(run.stdout@, run.stderr@);
            t.take(
                if t.len() < 4096 {
                    t.len() as int
                } else {
                    4096
                },
            )
        }),
{
    let mut text: Vec<char> = Vec::new();
    if run.stderr.as_str().is_empty() {
        append_chars(&mut text, run.stdout.as_str());
        proof {
            assert(text@ =~= run.stdout@);
        }
    } else {
        append_chars(&mut text, "=== stdout ===\n");
        append_chars(&mut text, run.stdout.as_str());
        append_chars(&mut text, "\n=== stderr ===\n");
        append_chars(&mut text, run.stderr.as_str());
        proof {
            assert(run.stderr@.len() != 0);
        }
    }
    let n = if text.len() < 4096 {
        text.len()
    } else {
        4096
    };
    let kept = crate::text::sub_chars(&text, 0, n);
    let accepted = verdict == Verdict::Accepted;
    TestcaseResult {
        testcase_id,
        verdict: verdict.to_string(),
        execution_time: if accepted {
            Some(run.time_ms)
        } else {
            None
        },
        memory_used: if accepted {
            Some(run.memory_kb)
        } else {
            None
        },
        output: Some(string_from_chars(kept.as_slice())),
    }
}

/// Whether the file at `path` counts as source: its extension, in any case, is one of
/// c, h, cpp, hpp, cc, cxx, java, py.
pub open spec fn is_source_path(path: Seq<char>) -> bool {
    let name = crate::playground::file_name_spec(path);
    let k = crate::playground::last_dot(name);
    k > 0 && crate::playground::is_source_extension(name.skip(k + 1))
}

/// The canonical source text of a tree of files, listed in sorted path order: the
/// contents of the source files, each followed by a line feed.
pub open spec fn canonical_text(files: Seq<(Seq<char>, Seq<char>)>) -> Seq<char>
    decreases files.len(),
{
    if files.len() == 0 {
        Seq::empty()
    } else {
        let rest = canonical_text(files.drop_last());
        if is_source_path(files.last().0) {
            rest + files.last().1 + seq!['\n']
        } else {
            rest
        }
    }
}

pub open spec fn file_views(files: Seq<(String, String)>) -> Seq<(Seq<char>, Seq<char>)> {
    files.map_values(|f: (String, String)| (f.0@, f.1@))
}

/// The canonical source text of `files` (path, content), in sorted path order.
#[verifier::rlimit(40)]
pub fn canonical_source_text(files: &Vec<(String, String)>) -> (r: String)
    ensures
        r@ == canonical_text(file_views(files@)),
{
    let mut text: Vec<char> = Vec::new();
    let mut i: usize = 0;
    while i < files.len()
        invariant
            i <= files.len(),
            text@ == canonical_text(file_views(files@).take(i as int)),
        decreases files.len() - i,
    {
        let ghost before = text@;
        let path = chars_of(files[i].0.as_str());
        proof {
            assert(file_views(files@).take(i + 1).drop_last() =~= file_views(files@).take(i as int));
            assert(file_views(files@).take(i + 1).last() == (files@[i as int].0@, files@[i as int].1@));
        }
        if crate::playground::has_source_extension(&path) {
            append_chars(&mut text, files[i].1.as_str());
            text.push('\n');
            proof {
                assert(text@ =~= before + files@[i as int].1@ + seq!['\n']);
            }
        }
        i = i + 1;
    }
    proof {
        assert(file_views(files@).take(i as int) =~= file_views(files@));
    }
    string_from_chars(text.as_slice())
}

pub open spec fn min3(a: nat, b: nat, c: nat) -> nat {
    if a <= b && a <= c {
        a
    } else if b <= c {
        b
    } else {
        c
    }
}

/// The Levenshtein distance: the fewest insertions, deletions and substitutions of one
/// byte that turn `a` into `b`.
pub open spec fn levenshtein(a: Seq<u8>, b: Seq<u8>) -> nat
    decreases a.len() + b.len(),
{
    if a.len() == 0 {
        b.len()
    } else if b.len() == 0 {
        a.len()
    } else {
        min3(
            levenshtein(a.drop_last(), b) + 1,
            levenshtein(a, b.drop_last()) + 1,
            levenshtein(a.drop_last(), b.drop_last()) + if a.last() == b.last() {
                0nat
            } else {
                1nat
            },
        )
    }
}

/// Relies on `triple_accel::levenshtein`: the Levenshtein distance of two byte strings.
/// Its bounds are computed in 32 bits, so each length stays below 2^31.
#[verifier::external_body]
fn levenshtein_bytes(a: &[u8], b: &[u8]) -> (r: u32)
    requires
        a@.len() < 0x8000_0000,
        b@.len() < 0x8000_0000,
    ensures
        r == levenshtein(a@, b@),
{
    triple_accel::levenshtein(a, b)
}

/// The edit distance between the submitted and the reference source texts, in bytes.
pub fn edit_distance(submitted: &str, reference: &str) -> (r: u32)
    requires
        submitted.spec_bytes().len() < 0x8000_0000,
        reference.spec_bytes().len() < 0x8000_0000,
    ensures
        r == levenshtein(submitted.spec_bytes(), reference.spec_bytes()),
{
    levenshtein_bytes(submitted.as_bytes(), reference.as_bytes())
}

/// Longest source text, in bytes, whose edit distance is computed.
pub const MAX_SOURCE_BYTES: usize = 0x7fff_ffff;

/// The edit distance, when both texts are short enough to compare; none otherwise.
pub fn bounded_edit_distance(submitted: &str, reference: &str) -> (r: Option<u32>)
    ensures
        (submitted.spec_bytes().len() > MAX_SOURCE_BYTES || reference.spec_bytes().len()
            > MAX_SOURCE_BYTES) ==> r is None,
        (submitted.spec_bytes().len() <= MAX_SOURCE_BYTES && reference.spec_bytes().len()
            <= MAX_SOURCE_BYTES) ==> (r matches Some(d) && d == levenshtein(
            submitted.spec_bytes(),
            reference.spec_bytes(),
        )),
{
    let n = submitted.as_bytes().len();
    let m = reference.as_bytes().len();
    if n > MAX_SOURCE_BYTES || m > MAX_SOURCE_BYTES {
        None
    } else {
        Some(edit_distance(submitted, reference))
    }
}

/// A text is at distance 0 from itself and at its length from the empty text.
pub proof fn lemma_edit_distance_laws(x: Seq<u8>)
    ensures
        levenshtein(x, x) == 0,
        levenshtein(x, Seq::empty()) == x.len(),
    decreases x.len(),
{
    if x.len() > 0 {
        lemma_edit_distance_laws(x.drop_last());
    }
}

/// The score of an archive submission: the maximum when accepted, else 0.
pub fn archive_score(verdict: Verdict, max_score: i64) -> (r: i64)
    ensures
        r == crate::judger::score_of(verdict, max_score),
{
    if verdict == Verdict::Accepted {
        max_score
    } else {
        0
    }
}

/// Whether a file listing holds a Makefile: a name that is `makefile` in any case.
pub fn has_makefile(names: &Vec<String>) -> (r: bool)
    ensures
        r == exists|i: int|
            0 <= i < names@.len() && crate::playground::lower_ascii(#[trigger] names@[i]@)
                == "makefile"@,
{
    let mut i: usize = 0;
    while i < names.len()
        invariant
            i <= names.len(),
            forall|j: int|
                0 <= j < i ==> crate::playground::lower_ascii(#[trigger] names@[j]@) != "makefile"@,
        decreases names.len() - i,
    {
        let n = chars_of(names[i].as_str());
        let lower = crate::playground::lower_ascii_chars(&n, 0);
        proof {
            assert(n@.skip(0) == n@);
        }
        if crate::text::chars_eq_str(&lower, "makefile") {
            return true;
        }
        i = i + 1;
    }
    false
}

} // verus!
