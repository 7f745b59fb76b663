//! Judging a submission: the verdict of each testcase and of the whole run.
//!
//! The testcases run in order. The first one that is not accepted decides the
//! submission's verdict, and the testcases after it are not run but reported as skipped.

use vstd::prelude::*;
use crate::compare::{compare_output, outputs_match};
use crate::executer::ExecutionStatus;
use crate::text::{chars_of, string_from_chars, sub_chars};
use crate::verdict::Verdict;

verus! {

/// How a problem decides whether an output is right.
#[derive(Debug, Clone, Copy, PartialEq, Eq, Structural)]
pub enum ProblemType {
    /// The output must equal the expected output, up to white space at line ends.
    Icpc,
    /// A comparator program decides.
    SpecialJudge,
}

impl Default for ProblemType {
    fn default() -> (r: Self)
        ensures
            r == ProblemType::Icpc,
    {
        ProblemType::Icpc
    }
}

/// A submission to judge.
#[derive(Debug)]
pub struct JudgeJob {
    pub submission_id: i64,
    pub problem_id: i64,
    pub code: String,
    pub language: String,
    /// Base time limit in milliseconds.
    pub time_limit: u32,
    pub ignore_time_limit_bonus: bool,
    /// Base memory limit in MiB.
    pub memory_limit: u32,
    pub ignore_memory_limit_bonus: bool,
    pub testcases: Vec<TestcaseInfo>,
    pub problem_type: ProblemType,
    /// Comparator source, required for a special judge.
    pub checker_path: Option<String>,
}

/// A testcase: its identity and where its input and expected output are stored.
#[derive(Debug)]
pub struct TestcaseInfo {
    pub id: i64,
    pub input_path: String,
    pub output_path: String,
}

/// The result of judging a submission.
#[derive(Debug)]
pub struct JudgeResult {
    pub submission_id: i64,
    pub verdict: String,
    pub score: i64,
    /// Largest CPU time over the testcases, present only when accepted.
    pub execution_time: Option<u32>,
    /// Largest memory use over the testcases, present only when accepted.
    pub memory_used: Option<u32>,
    pub testcase_results: Vec<TestcaseResult>,
    pub error_message: Option<String>,
}

/// The result of one testcase.
#[derive(Debug)]
pub struct TestcaseResult {
    pub testcase_id: i64,
    pub verdict: String,
    pub execution_time: Option<u32>,
    pub memory_used: Option<u32>,
    /// The beginning of what the program printed.
    pub output: Option<String>,
}

impl JudgeResult {
    /// A result that ends the job before any testcase ran.
    pub fn failed(submission_id: i64, verdict: Verdict, message: Option<String>) -> (r: Self)
        requires
            verdict != Verdict::Accepted,
        ensures
            r.submission_id == submission_id,
            r.verdict@ == verdict.name(),
            r.score == 0,
            r.execution_time is None,
            r.memory_used is None,
            r.testcase_results@.len() == 0,
            r.error_message == message,
    {
        JudgeResult {
            submission_id,
            verdict: verdict.to_string(),
            score: 0,
            execution_time: None,
            memory_used: None,
            testcase_results: Vec::new(),
            error_message: message,
        }
    }

    /// A system error carrying `message`.
    pub fn system_error(submission_id: i64, message: String) -> (r: Self)
        ensures
            r.submission_id == submission_id,
            r.verdict@ == Verdict::SystemError.name(),
            r.score == 0,
            r.execution_time is None,
            r.memory_used is None,
            r.testcase_results@.len() == 0,
            r.error_message == Some(message),
    {
        Self::failed(submission_id, Verdict::SystemError, Some(message))
    }
}

/// Verdict of a run: a normal exit with code 0 leaves the decision to the output check,
/// any other exit or a signal is a runtime error, and the limits map to their verdicts.
pub open spec fn run_verdict(status: ExecutionStatus, output_verdict: Verdict) -> Verdict {
    match status {
        ExecutionStatus::Exited(code) => if code == 0 {
            output_verdict
        } else {
            Verdict::RuntimeError
        },
        ExecutionStatus::TimeLimitExceeded => Verdict::TimeLimitExceeded,
        ExecutionStatus::MemoryLimitExceeded => Verdict::MemoryLimitExceeded,
        ExecutionStatus::Signaled(_) => Verdict::RuntimeError,
        ExecutionStatus::RuntimeError => Verdict::RuntimeError,
        ExecutionStatus::SystemError => Verdict::SystemError,
    }
}

/// Verdict of an output checked by comparison.
pub open spec fn icpc_verdict(actual: Seq<char>, expected: Seq<char>) -> Verdict {
    if outputs_match(actual, expected) {
        Verdict::Accepted
    } else {
        Verdict::WrongAnswer
    }
}

pub fn status_verdict(status: &ExecutionStatus, output_verdict: Verdict) -> (r: Verdict)
    ensures
        r == run_verdict(*status, output_verdict),
{
    match status {
        ExecutionStatus::Exited(code) => {
            if *code == 0 {
                output_verdict
            } else {
                Verdict::RuntimeError
            }
        },
        ExecutionStatus::TimeLimitExceeded => Verdict::TimeLimitExceeded,
        ExecutionStatus::MemoryLimitExceeded => Verdict::MemoryLimitExceeded,
        ExecutionStatus::Signaled(_) => Verdict::RuntimeError,
        ExecutionStatus::RuntimeError => Verdict::RuntimeError,
        ExecutionStatus::SystemError => Verdict::SystemError,
    }
}

/// Compares the output with the expected one.
pub fn icpc_output_verdict(actual: &str, expected: &str) -> (r: Verdict)
    ensures
        r == icpc_verdict(actual@, expected@),
{
    if compare_output(actual, expected) {
        Verdict::Accepted
    } else {
        Verdict::WrongAnswer
    }
}

/// Verdict of a comparator run that ended with `exit_code`, or that could not run.
pub fn checker_outcome_verdict(exit_code: Option<i32>) -> (r: Verdict)
    ensures
        r == match exit_code {
            Some(code) => crate::checker::checker_verdict(code),
            None => Verdict::SystemError,
        },
{
    match exit_code {
        Some(code) => crate::checker::exit_code_to_verdict(code),
        None => Verdict::SystemError,
    }
}

/// Longest output preview kept for a testcase, in characters.
pub const OUTPUT_PREVIEW_CHARS: usize = 4096;

/// The first 4096 characters of `stdout`, or nothing when it is empty.
pub fn output_preview(stdout: &str) -> (r: Option<String>)
    ensures
        match r {
            None => stdout@.len() == 0,
            Some(p) => stdout@.len() > 0 && p@ == stdout@.take(
                if stdout@.len() < 4096 {
                    stdout@.len() as int
                } else {
                    4096
                },
            ),
        },
{
    let cs = chars_of(stdout);
    if cs.len() == 0 {
        return None;
    }
    let n = if cs.len() < OUTPUT_PREVIEW_CHARS {
        cs.len()
    } else {
        OUTPUT_PREVIEW_CHARS
    };
    let p = sub_chars(&cs, 0, n);
    Some(string_from_chars(p.as_slice()))
}

/// Verdict of a whole run: the earliest testcase verdict other than `Accepted`, if any.
pub open spec fn overall_verdict(vs: Seq<Verdict>) -> Verdict
    decreases vs.len(),
{
    if vs.len() == 0 {
        Verdict::Accepted
    } else {
        let o = overall_verdict(vs.drop_last());
        if o != Verdict::Accepted {
            o
        } else {
            vs.last()
        }
    }
}

/// The score: all of `max_score` when accepted, else nothing.
pub open spec fn score_of(v: Verdict, max_score: i64) -> i64 {
    if v == Verdict::Accepted {
        max_score
    } else {
        0
    }
}

/// A submission whose testcases were all accepted is accepted.
pub proof fn lemma_all_accepted(vs: Seq<Verdict>)
    requires
        forall|i: int| 0 <= i < vs.len() ==> vs[i] == Verdict::Accepted,
    ensures
        overall_verdict(vs) == Verdict::Accepted,
    decreases vs.len(),
{
    if vs.len() > 0 {
        lemma_all_accepted(vs.drop_last());
    }
}

/// When all but the last verdict are accepted, the last one decides.
pub proof fn lemma_overall_is_last(vs: Seq<Verdict>)
    requires
        vs.len() > 0,
        forall|i: int| 0 <= i < vs.len() - 1 ==> vs[i] == Verdict::Accepted,
    ensures
        overall_verdict(vs) == vs.last(),
{
    lemma_all_accepted(vs.drop_last());
}

/// Under comparison of outputs, if every testcase exits normally with an output that
/// matches the expected one once normalised, the submission is accepted and earns the
/// full score.
pub proof fn lemma_all_matching_outputs_accepted(
    outputs: Seq<Seq<char>>,
    expected: Seq<Seq<char>>,
    max_score: i64,
)
    requires
        outputs.len() == expected.len(),
        forall|i: int| 0 <= i < outputs.len() ==> outputs_match(outputs[i], expected[i]),
    ensures
        ({
            let vs = Seq::new(
                outputs.len(),
                |i: int| run_verdict(ExecutionStatus::Exited(0), icpc_verdict(outputs[i], expected[i])),
            );
            overall_verdict(vs) == Verdict::Accepted && score_of(overall_verdict(vs), max_score)
                == max_score
        }),
{
    let vs = Seq::new(
        outputs.len(),
        |i: int| run_verdict(ExecutionStatus::Exited(0), icpc_verdict(outputs[i], expected[i])),
    );
    assert forall|i: int| 0 <= i < vs.len() implies vs[i] == Verdict::Accepted by {
        assert(outputs_match(outputs[i], expected[i]));
    }
    lemma_all_accepted(vs);
}

/// The state of a judging run: the testcases, the results recorded so far, and the
/// largest time and memory seen.
pub struct JudgeProgress {
    submission_id: i64,
    testcase_ids: Vec<i64>,
    results: Vec<TestcaseResult>,
    verdicts: Vec<Verdict>,
    overall: Verdict,
    max_time: u32,
    max_memory: u32,
    times: Ghost<Seq<u32>>,
    memories: Ghost<Seq<u32>>,
}

/// The largest of `s`, or 0 when it is empty.
pub open spec fn seq_max(s: Seq<u32>) -> u32
    decreases s.len(),
{
    if s.len() == 0 {
        0
    } else {
        let m = seq_max(s.drop_last());
        if s.last() > m {
            s.last()
        } else {
            m
        }
    }
}

impl JudgeProgress {
    pub closed spec fn spec_submission_id(&self) -> i64 {
        self.submission_id
    }

    /// The testcases, in order.
    pub closed spec fn ids(&self) -> Seq<i64> {
        self.testcase_ids@
    }

    /// The results recorded so far.
    pub closed spec fn recorded(&self) -> Seq<TestcaseResult> {
        self.results@
    }

    /// The verdicts recorded so far.
    pub closed spec fn verdicts(&self) -> Seq<Verdict> {
        self.verdicts@
    }

    pub closed spec fn max_time(&self) -> u32 {
        self.max_time
    }

    pub closed spec fn max_memory(&self) -> u32 {
        self.max_memory
    }

    /// The CPU time (ms) of each recorded run.
    pub closed spec fn times(&self) -> Seq<u32> {
        self.times@
    }

    /// The peak memory (KiB) of each recorded run.
    pub closed spec fn memories(&self) -> Seq<u32> {
        self.memories@
    }

    /// Results match their testcases and verdicts, and only the last verdict may be a
    /// failure.
    pub closed spec fn wf(&self) -> bool {
        &&& self.results@.len() == self.verdicts@.len()
        &&& self.verdicts@.len() <= self.testcase_ids@.len()
        &&& forall|i: int|
            0 <= i < self.results@.len() ==> (#[trigger] self.results@[i]).testcase_id
                == self.testcase_ids@[i] && self.results@[i].verdict@ == self.verdicts@[i].name()
        &&& forall|i: int|
            0 <= i < self.verdicts@.len() - 1 ==> #[trigger] self.verdicts@[i] == Verdict::Accepted
        &&& forall|i: int| 0 <= i < self.verdicts@.len() ==> #[trigger] self.verdicts@[i] != Verdict::Skipped
        &&& self.overall == overall_verdict(self.verdicts@)
        &&& self.times@.len() == self.verdicts@.len()
        &&& self.memories@.len() == self.verdicts@.len()
        &&& self.max_time == seq_max(self.times@)
        &&& self.max_memory == seq_max(self.memories@)
        &&& forall|i: int|
            0 <= i < self.results@.len() ==> ((#[trigger] self.results@[i]).execution_time is None
                || self.results@[i].execution_time == Some(self.times@[i])) && (
            self.results@[i].memory_used is None || self.results@[i].memory_used == Some(
                self.memories@[i],
            ))
    }

    /// The largest recorded time is the largest of the recorded runs' times.
    pub proof fn lemma_maxima(&self)
        requires
            self.wf(),
        ensures
            self.max_time() == seq_max(self.times()),
            self.max_memory() == seq_max(self.memories()),
    {
    }

    /// Whether no testcase is left to run: one failed, or all ran.
    pub open spec fn done(&self) -> bool {
        overall_verdict(self.verdicts()) != Verdict::Accepted || self.verdicts().len()
            == self.ids().len()
    }

    /// A run over testcases `testcase_ids` with nothing recorded yet.
    pub fn new(submission_id: i64, testcase_ids: Vec<i64>) -> (r: Self)
        ensures
            r.wf(),
            r.spec_submission_id() == submission_id,
            r.ids() == testcase_ids@,
            r.verdicts().len() == 0,
            r.max_time() == 0,
            r.max_memory() == 0,
            r.times().len() == 0,
            r.memories().len() == 0,
    {
        JudgeProgress {
            submission_id,
            testcase_ids,
            results: Vec::new(),
            verdicts: Vec::new(),
            overall: Verdict::Accepted,
            max_time: 0,
            max_memory: 0,
            times: Ghost(Seq::empty()),
            memories: Ghost(Seq::empty()),
        }
    }

    /// The index of the next testcase to run, if any.
    pub fn next_testcase(&self) -> (r: Option<usize>)
        requires
            self.wf(),
        ensures
            r == if self.done() {
                None
            } else {
                Some(self.verdicts().len() as usize)
            },
    {
        if self.overall != Verdict::Accepted || self.results.len() == self.testcase_ids.len() {
            None
        } else {
            Some(self.results.len())
        }
    }

    /// Records the next testcase's verdict, its resource use, what the result shows of
    /// them, and its output preview.
    #[verifier::rlimit(40)]
    pub fn record(
        &mut self,
        verdict: Verdict,
        time_ms: u32,
        memory_kb: u32,
        execution_time: Option<u32>,
        memory_used: Option<u32>,
        output: Option<String>,
    )
        requires
            old(self).wf(),
            !old(self).done(),
            verdict != Verdict::Skipped,
            execution_time is None || execution_time == Some(time_ms),
            memory_used is None || memory_used == Some(memory_kb),
        ensures
            final(self).times() == old(self).times().push(time_ms),
            final(self).memories() == old(self).memories().push(memory_kb),
            final(self).wf(),
            final(self).spec_submission_id() == old(self).spec_submission_id(),
            final(self).ids() == old(self).ids(),
            final(self).verdicts() == old(self).verdicts().push(verdict),
            overall_verdict(final(self).verdicts()) == verdict,
            final(self).recorded().drop_last() == old(self).recorded(),
            final(self).recorded().last().testcase_id == old(self).ids()[old(self).verdicts().len() as int],
            final(self).recorded().last().verdict@ == verdict.name(),
            final(self).recorded().last().execution_time == execution_time,
            final(self).recorded().last().memory_used == memory_used,
            final(self).recorded().last().output == output,
            final(self).max_time() == if time_ms > old(self).max_time() {
                time_ms
            } else {
                old(self).max_time()
            },
            final(self).max_memory() == if memory_kb > old(self).max_memory() {
                memory_kb
            } else {
                old(self).max_memory()
            },
    {
        let k = self.results.len();
        let id = self.testcase_ids[k];
        let ghost old_results = self.results@;
        let ghost old_verdicts = self.verdicts@;
        let name = verdict.to_string();
        self.results.push(
            TestcaseResult {
                testcase_id: id,
                verdict: name,
                execution_time,
                memory_used,
                output,
            },
        );
        self.verdicts.push(verdict);
        if time_ms > self.max_time {
            self.max_time = time_ms;
        }
        if memory_kb > self.max_memory {
            self.max_memory = memory_kb;
        }
        if verdict != Verdict::Accepted {
            self.overall = verdict;
        }
        let ghost old_times = self.times@;
        let ghost old_memories = self.memories@;
        self.times = Ghost(self.times@.push(time_ms));
        self.memories = Ghost(self.memories@.push(memory_kb));
        proof {
            assert(self.times@.drop_last() =~= old_times);
            assert(self.memories@.drop_last() =~= old_memories);
            assert forall|i: int| 0 <= i < self.verdicts@.len() implies #[trigger] self.verdicts@[i]
                != Verdict::Skipped by {
                if i < k {
                    assert(self.verdicts@[i] == old_verdicts[i]);
                }
            }
            assert forall|i: int| 0 <= i < self.results@.len() implies ((#[trigger] self.results@[i]).execution_time is None
                || self.results@[i].execution_time == Some(self.times@[i])) && (
            self.results@[i].memory_used is None || self.results@[i].memory_used == Some(
                self.memories@[i],
            )) by {
                if i < k {
                    assert(self.results@[i] == old_results[i]);
                    assert(self.times@[i] == old_times[i]);
                    assert(self.memories@[i] == old_memories[i]);
                }
            }
            assert(self.verdicts@.drop_last() == old_verdicts);
            assert(self.results@.drop_last() == old_results);
            assert(self.results@[k as int].verdict@ == verdict.name());
            assert forall|i: int| 0 <= i < self.results@.len() implies (#[trigger] self.results@[i]).testcase_id
                == self.testcase_ids@[i] && self.results@[i].verdict@ == self.verdicts@[i].name() by {
                if i < k {
                    assert(self.results@[i] == old_results[i]);
                    assert(self.verdicts@[i] == old_verdicts[i]);
                }
            }
            assert forall|i: int| 0 <= i < self.verdicts@.len() - 1 implies #[trigger] self.verdicts@[i]
                == Verdict::Accepted by {
                assert(self.verdicts@[i] == old_verdicts[i]);
                if k > 0 {
                    lemma_all_accepted(old_verdicts.take(k - 1));
                    assert(old_verdicts.take(k - 1) == old_verdicts.drop_last());
                    if i == k - 1 {
                        lemma_overall_is_last(old_verdicts);
                    }
                }
            }
        }
    }

    /// The submission's result: the recorded testcases, then the rest as skipped; the
    /// verdict is the first failure or accepted; time, memory and `max_score` are given
    /// only when accepted.
    #[verifier::rlimit(40)]
    pub fn finish(self, max_score: i64) -> (r: JudgeResult)
        requires
            self.wf(),
            self.done(),
        ensures
            r.submission_id == self.spec_submission_id(),
            r.testcase_results@.len() == self.ids().len(),
            forall|i: int|
                0 <= i < self.ids().len() ==> #[trigger] r.testcase_results@[i].testcase_id
                    == self.ids()[i],
            forall|i: int|
                0 <= i < self.verdicts().len() ==> #[trigger] r.testcase_results@[i]
                    == self.recorded()[i],
            forall|i: int|
                self.verdicts().len() <= i < self.ids().len() ==> {
                    &&& (#[trigger] r.testcase_results@[i]).verdict@ == Verdict::Skipped.name()
                    &&& r.testcase_results@[i].execution_time is None
                    &&& r.testcase_results@[i].memory_used is None
                    &&& r.testcase_results@[i].output is None
                },
            forall|i: int, j: int|
                0 <= j < i < self.ids().len() && (#[trigger] r.testcase_results@[j]).verdict@
                    != Verdict::Accepted.name() ==> (#[trigger] r.testcase_results@[i]).verdict@
                    == Verdict::Skipped.name(),
            r.verdict@ == overall_verdict(self.verdicts()).name(),
            r.score == score_of(overall_verdict(self.verdicts()), max_score),
            forall|i: int|
                0 <= i < self.verdicts().len() ==> {
                    &&& (#[trigger] r.testcase_results@[i]).verdict@ == self.verdicts()[i].name()
                    &&& self.verdicts()[i] != Verdict::Skipped
                    &&& (r.testcase_results@[i].execution_time is None
                        || r.testcase_results@[i].execution_time == Some(self.times()[i]))
                    &&& (r.testcase_results@[i].memory_used is None
                        || r.testcase_results@[i].memory_used == Some(self.memories()[i]))
                },
            r.execution_time == if overall_verdict(self.verdicts()) == Verdict::Accepted {
                Some(seq_max(self.times()))
            } else {
                None
            },
            r.memory_used == if overall_verdict(self.verdicts()) == Verdict::Accepted {
                Some(seq_max(self.memories()))
            } else {
                None
            },
            r.error_message is None,
    {
        let JudgeProgress {
            submission_id,
            testcase_ids,
            results,
            verdicts,
            overall,
            max_time,
            max_memory,
            ..
        } = self;
        let mut results = results;
        let k = verdicts.len();
        let mut i = k;
        while i < testcase_ids.len()
            invariant
                k <= i <= testcase_ids.len(),
                results@.len() == i,
                results@.take(k as int) == self.results@,
                testcase_ids == self.testcase_ids,
                k == self.verdicts@.len(),
                self.wf(),
                forall|j: int| 0 <= j < i ==> #[trigger] results@[j].testcase_id == testcase_ids@[j],
                forall|j: int|
                    k <= j < i ==> {
                        &&& (#[trigger] results@[j]).verdict@ == Verdict::Skipped.name()
                        &&& results@[j].execution_time is None
                        &&& results@[j].memory_used is None
                        &&& results@[j].output is None
                    },
            decreases testcase_ids.len() - i,
        {
            let ghost before = results@;
            results.push(
                TestcaseResult {
                    testcase_id: testcase_ids[i],
                    verdict: Verdict::Skipped.to_string(),
                    execution_time: None,
                    memory_used: None,
                    output: None,
                },
            );
            proof {
                assert(results@.take(k as int) == before.take(k as int));
                assert forall|j: int| 0 <= j < i implies #[trigger] results@[j] == before[j] by {}
            }
            i = i + 1;
        }
        let accepted = overall == Verdict::Accepted;
        proof {
            assert forall|j: int| 0 <= j < k implies #[trigger] results@[j] == self.results@[j] by {
                assert(results@.take(k as int)[j] == results@[j]);
            }
            assert forall|a: int, b: int|
                0 <= b < a < testcase_ids@.len() && (#[trigger] results@[b]).verdict@
                    != Verdict::Accepted.name() implies (#[trigger] results@[a]).verdict@
                == Verdict::Skipped.name() by {
                if b < k {
                    assert(results@[b] == self.results@[b]);
                    assert(self.verdicts@[b] != Verdict::Accepted);
                    if a < k {
                        assert(self.verdicts@[b] == Verdict::Accepted);
                    }
                }
            }
        }
        JudgeResult {
            submission_id,
            verdict: overall.to_string(),
            score: if accepted {
                max_score
            } else {
                0
            },
            execution_time: if accepted {
                Some(max_time)
            } else {
                None
            },
            memory_used: if accepted {
                Some(max_memory)
            } else {
                None
            },
            testcase_results: results,
            error_message: None,
        }
    }
}

} // verus!
