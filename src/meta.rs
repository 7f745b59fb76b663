//! The isolator's meta file: `key:value` lines describing a finished run.

use vstd::prelude::*;
use crate::text::{
    all_digits, chars_eq_str, chars_of, digits_only, digits_upto, digits_value, find_char,
    first_index, parse_i32_chars, parse_i32_spec, parse_u32_chars, parse_u32_spec,
    split_lines, split_lines_chars, trim, trim_range, unsigned_body, views, lemma_digits_below,
    lemma_digits_value_nonneg, lemma_first_index, lemma_digits_value_bound, pow10,
};

verus! {

/// Raw status of a run, as the isolator reports it.
#[derive(Debug, Clone, Copy, PartialEq, Eq, Structural)]
pub enum IsolateStatus {
    /// The program exited normally.
    Normal,
    /// The time limit was exceeded.
    TimeOut,
    /// The program was killed by a signal.
    Signal(i32),
    /// The program exited with a non-zero code.
    RuntimeError,
    /// The isolator itself failed.
    InternalError,
}

/// What a meta file says of a run.
#[derive(Debug, Clone, Copy, PartialEq, Eq, Structural)]
pub struct IsolateMeta {
    /// CPU time in milliseconds.
    pub time_ms: u32,
    /// Peak memory in KiB (the larger of `cg-mem` and `max-rss`).
    pub memory_kb: u32,
    /// Exit code of the program.
    pub exit_code: i32,
    pub status: IsolateStatus,
    /// Wall-clock time in milliseconds.
    pub wall_time_ms: u32,
}

pub open spec fn default_meta() -> IsolateMeta {
    IsolateMeta { time_ms: 0, memory_kb: 0, exit_code: 0, status: IsolateStatus::Normal, wall_time_ms: 0 }
}

impl Default for IsolateMeta {
    fn default() -> (r: Self)
        ensures
            r == default_meta(),
    {
        IsolateMeta { time_ms: 0, memory_kb: 0, exit_code: 0, status: IsolateStatus::Normal, wall_time_ms: 0 }
    }
}

/// `10^(3 - n)`: the weight of the last of `n` leading fraction digits, in milliseconds.
pub open spec fn frac_scale(n: int) -> int {
    if n == 0 {
        1000
    } else if n == 1 {
        100
    } else if n == 2 {
        10
    } else {
        1
    }
}

/// Seconds written in decimal notation (`int[.frac]`, at least one digit, optional `+`),
/// as whole milliseconds: the fraction is cut after three digits and the result is
/// capped at `u32::MAX`. A negative amount of seconds counts as zero.
pub open spec fn parse_ms_spec(s: Seq<char>) -> Option<u32> {
    let negative = s.len() > 0 && s[0] == '-';
    let d = if negative {
        s.drop_first()
    } else {
        unsigned_body(s)
    };
    let k = first_index(d, '.');
    let ip = d.take(k);
    let fp = if k < d.len() {
        d.skip(k + 1)
    } else {
        Seq::empty()
    };
    if all_digits(ip) && all_digits(fp) && (ip.len() > 0 || fp.len() > 0) {
        if negative {
            Some(0)
        } else {
            let f = kept_fraction(fp);
            let ms = digits_value(ip) * 1000 + digits_value(f) * frac_scale(f.len() as int);
            if ms > u32::MAX {
                Some(u32::MAX)
            } else {
                Some(ms as u32)
            }
        }
    } else {
        None
    }
}

/// Takes one `key` and its `value` into what has been read so far: the meta record and the
/// text of the `status` key.
pub open spec fn apply_field(
    acc: (IsolateMeta, Seq<char>),
    key: Seq<char>,
    value: Seq<char>,
) -> (IsolateMeta, Seq<char>) {
    let m = acc.0;
    if key == "time"@ {
        match parse_ms_spec(value) {
            Some(t) => (IsolateMeta { time_ms: t, ..m }, acc.1),
            None => acc,
        }
    } else if key == "time-wall"@ {
        match parse_ms_spec(value) {
            Some(t) => (IsolateMeta { wall_time_ms: t, ..m }, acc.1),
            None => acc,
        }
    } else if key == "cg-mem"@ || key == "max-rss"@ {
        match parse_u32_spec(value) {
            Some(k) => if m.memory_kb == 0 || k > m.memory_kb {
                (IsolateMeta { memory_kb: k, ..m }, acc.1)
            } else {
                acc
            },
            None => acc,
        }
    } else if key == "status"@ {
        (m, value)
    } else if key == "exitcode"@ {
        let c = match parse_i32_spec(value) {
            Some(c) => c,
            None => 0,
        };
        (IsolateMeta { exit_code: c, ..m }, acc.1)
    } else if key == "exitsig"@ {
        match parse_i32_spec(value) {
            Some(sig) => (IsolateMeta { status: IsolateStatus::Signal(sig), ..m }, acc.1),
            None => acc,
        }
    } else {
        acc
    }
}

/// Takes one line into what has been read so far; a line without `:` is ignored.
pub open spec fn scan_line(acc: (IsolateMeta, Seq<char>), line: Seq<char>) -> (
    IsolateMeta,
    Seq<char>,
) {
    let k = first_index(line, ':');
    if k < line.len() {
        apply_field(acc, trim(line.take(k)), trim(line.skip(k + 1)))
    } else {
        acc
    }
}

/// Reads the lines in order.
pub open spec fn scan_lines(lines: Seq<Seq<char>>) -> (IsolateMeta, Seq<char>)
    decreases lines.len(),
{
    if lines.len() == 0 {
        (default_meta(), Seq::empty())
    } else {
        scan_line(scan_lines(lines.drop_last()), lines.last())
    }
}

/// Status that the `status` key gives, when no signal was reported.
pub open spec fn status_of(status: Seq<char>, exit_code: i32) -> IsolateStatus {
    if status == "TO"@ {
        IsolateStatus::TimeOut
    } else if status == "SG"@ {
        IsolateStatus::Signal(0)
    } else if status == "RE"@ {
        IsolateStatus::RuntimeError
    } else if status == "XX"@ {
        IsolateStatus::InternalError
    } else if status.len() == 0 && exit_code == 0 {
        IsolateStatus::Normal
    } else {
        IsolateStatus::RuntimeError
    }
}

/// The record that a meta file describes.
pub open spec fn meta_of(content: Seq<char>) -> IsolateMeta {
    let (m, status) = scan_lines(split_lines(content));
    if m.status == IsolateStatus::Normal {
        IsolateMeta { status: status_of(status, m.exit_code), ..m }
    } else {
        m
    }
}

/// The fraction digits that count: the first three.
pub open spec fn kept_fraction(fp: Seq<char>) -> Seq<char> {
    if fp.len() <= 3 {
        fp
    } else {
        fp.take(3)
    }
}

/// Milliseconds that the fraction digits `v[lo..hi]` add.
fn fraction_ms(v: &Vec<char>, lo: usize, hi: usize) -> (r: u64)
    requires
        lo <= hi <= v.len(),
        all_digits(v@.subrange(lo as int, hi as int)),
    ensures
        ({
            let f = kept_fraction(v@.subrange(lo as int, hi as int));
            r == digits_value(f) * frac_scale(f.len() as int) && r <= 999
        }),
{
    let ghost fp = v@.subrange(lo as int, hi as int);
    let end = if hi - lo <= 3 {
        hi
    } else {
        lo + 3
    };
    let ghost f = v@.subrange(lo as int, end as int);
    proof {
        if fp.len() > 3 {
            assert(fp.take(3) == f);
        }
        assert(kept_fraction(fp) == f);
        assert(forall|j: int| 0 <= j < end - lo ==> #[trigger] f[j] == fp[j]);
        assert(all_digits(f));
        lemma_digits_below(f);
        lemma_digits_value_nonneg(f);
    }
    if end == lo {
        proof {
            assert(f == Seq::<char>::empty());
        }
        return 0;
    }
    let n: u64 = match digits_upto(v, lo, end, 999) {
        Some(n) => n,
        None => 0,
    };
    proof {
        lemma_digits_value_bound(f);
        assert(pow10(0) == 1);
        assert(pow10(1) == 10);
        assert(pow10(2) == 100);
    }
    if end - lo == 1 {
        n * 100
    } else if end - lo == 2 {
        n * 10
    } else {
        n
    }
}

/// Whole seconds written by the digits `v[lo..hi]`, when not above 4294967.
fn whole_seconds(v: &Vec<char>, lo: usize, hi: usize) -> (r: Option<u64>)
    requires
        lo <= hi <= v.len(),
        all_digits(v@.subrange(lo as int, hi as int)),
    ensures
        match r {
            Some(w) => w == digits_value(v@.subrange(lo as int, hi as int)) && w <= 4294967,
            None => digits_value(v@.subrange(lo as int, hi as int)) > 4294967,
        },
{
    if lo == hi {
        proof {
            assert(v@.subrange(lo as int, hi as int) == Seq::<char>::empty());
        }
        Some(0)
    } else {
        digits_upto(v, lo, hi, 4294967)
    }
}

/// Reads decimal seconds as milliseconds.
#[verifier::rlimit(40)]
pub fn parse_seconds_ms(v: &Vec<char>) -> (r: Option<u32>)
    ensures
        r == parse_ms_spec(v@),
{
    let negative = v.len() > 0 && v[0] == '-';
    let lo: usize = if v.len() > 0 && (v[0] == '-' || v[0] == '+') {
        1
    } else {
        0
    };
    let ghost d = v@.subrange(lo as int, v.len() as int);
    proof {
        if negative {
            assert(d == v@.drop_first());
        } else {
            assert(d == unsigned_body(v@));
        }
    }
    // position of the decimal point
    let mut k = lo;
    while k < v.len() && v[k] != '.'
        invariant
            lo <= k <= v.len(),
            d == v@.subrange(lo as int, v.len() as int),
            forall|j: int| 0 <= j < k - lo ==> d[j] != '.',
        decreases v.len() - k,
    {
        k = k + 1;
    }
    let flo = if k < v.len() {
        k + 1
    } else {
        v.len()
    };
    let ghost ip = v@.subrange(lo as int, k as int);
    let ghost fp = v@.subrange(flo as int, v.len() as int);
    proof {
        lemma_first_index(d, '.', k - lo);
        assert(d.take(k - lo) == ip);
        if k < v.len() {
            assert(d.skip(k - lo + 1) == fp);
        } else {
            assert(fp == Seq::<char>::empty());
        }
    }
    if !digits_only(v, lo, k) || !digits_only(v, flo, v.len()) || (k == lo && flo == v.len()) {
        return None;
    }
    if negative {
        return Some(0);
    }
    let frac = fraction_ms(v, flo, v.len());
    match whole_seconds(v, lo, k) {
        Some(w) => {
            let ms = w * 1000 + frac;
            if ms > u32::MAX as u64 {
                Some(u32::MAX)
            } else {
                Some(ms as u32)
            }
        },
        None => {
            proof {
                let f = kept_fraction(fp);
                lemma_digits_value_nonneg(f);
                assert(digits_value(f) * frac_scale(f.len() as int) >= 0) by (nonlinear_arith)
                    requires
                        digits_value(f) >= 0,
                        frac_scale(f.len() as int) >= 1,
                ;
            }
            Some(u32::MAX)
        },
    }
}

/// Takes one `key` and its `value` into the record and the status text.
fn apply_field_exec(meta: &mut IsolateMeta, status: &mut Vec<char>, key: &Vec<char>, value: &Vec<char>)
    ensures
        (*final(meta), final(status)@) == apply_field((*old(meta), old(status)@), key@, value@),
{
    if chars_eq_str(key, "time") {
        match parse_seconds_ms(value) {
            Some(t) => meta.time_ms = t,
            None => {},
        }
    } else if chars_eq_str(key, "time-wall") {
        match parse_seconds_ms(value) {
            Some(t) => meta.wall_time_ms = t,
            None => {},
        }
    } else if chars_eq_str(key, "cg-mem") || chars_eq_str(key, "max-rss") {
        match parse_u32_chars(value) {
            Some(k) => {
                if meta.memory_kb == 0 || k > meta.memory_kb {
                    meta.memory_kb = k;
                }
            },
            None => {},
        }
    } else if chars_eq_str(key, "status") {
        *status = crate::text::sub_chars(value, 0, value.len());
        proof {
            assert(value@.subrange(0, value.len() as int) == value@);
        }
    } else if chars_eq_str(key, "exitcode") {
        meta.exit_code = match parse_i32_chars(value) {
            Some(c) => c,
            None => 0,
        };
    } else if chars_eq_str(key, "exitsig") {
        match parse_i32_chars(value) {
            Some(sig) => meta.status = IsolateStatus::Signal(sig),
            None => {},
        }
    }
}

/// Parses the content of a meta file.
#[verifier::rlimit(40)]
pub fn parse_meta(content: &str) -> (r: IsolateMeta)
    ensures
        r == meta_of(content@),
{
    let cs = chars_of(content);
    let lines = split_lines_chars(&cs);
    let mut meta = IsolateMeta::default();
    let mut status: Vec<char> = Vec::new();
    let mut i: usize = 0;
    proof {
        assert(views(lines@).take(0) == Seq::<Seq<char>>::empty());
    }
    while i < lines.len()
        invariant
            i <= lines.len(),
            views(lines@) == split_lines(content@),
            (meta, status@) == scan_lines(views(lines@).take(i as int)),
        decreases lines.len() - i,
    {
        let line = &lines[i];
        let k = find_char(line, ':');
        proof {
            assert(views(lines@).take(i + 1).drop_last() == views(lines@).take(i as int));
            assert(views(lines@).take(i + 1).last() == line@);
        }
        if k < line.len() {
            let key = trim_range(line, 0, k);
            let value = trim_range(line, k + 1, line.len());
            proof {
                assert(line@.take(k as int) == line@.subrange(0, k as int));
                assert(line@.skip(k + 1) == line@.subrange(k + 1, line.len() as int));
            }
            apply_field_exec(&mut meta, &mut status, &key, &value);
        }
        i = i + 1;
    }
    proof {
        assert(views(lines@).take(i as int) == views(lines@));
    }
    if meta.status == IsolateStatus::Normal {
        let st = if chars_eq_str(&status, "TO") {
            IsolateStatus::TimeOut
        } else if chars_eq_str(&status, "SG") {
            IsolateStatus::Signal(0)
        } else if chars_eq_str(&status, "RE") {
            IsolateStatus::RuntimeError
        } else if chars_eq_str(&status, "XX") {
            IsolateStatus::InternalError
        } else if status.len() == 0 && meta.exit_code == 0 {
            IsolateStatus::Normal
        } else {
            IsolateStatus::RuntimeError
        };
        meta.status = st;
    }
    meta
}

/// Whether the run exited normally with code 0.
pub fn is_success(meta: &IsolateMeta) -> (r: bool)
    ensures
        r == (meta.status == IsolateStatus::Normal && meta.exit_code == 0),
{
    meta.status == IsolateStatus::Normal && meta.exit_code == 0
}

/// Whether the time limit was exceeded.
pub fn is_tle(meta: &IsolateMeta) -> (r: bool)
    ensures
        r == (meta.status == IsolateStatus::TimeOut),
{
    meta.status == IsolateStatus::TimeOut
}

/// Whether more memory was used than `memory_limit_kb`.
pub fn is_mle(meta: &IsolateMeta, memory_limit_kb: u32) -> (r: bool)
    ensures
        r == (meta.memory_kb > memory_limit_kb),
{
    meta.memory_kb > memory_limit_kb
}

} // verus!
