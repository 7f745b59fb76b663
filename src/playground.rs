//! Ad-hoc runs of a bundle of files: run mode, inputs and the files a run leaves.

use vstd::prelude::*;
use base64::Engine as _;
use crate::text::{chars_eq_str, chars_of, is_ws, string_from_chars, sub_chars, trim_range, trim};

verus! {

/// A request to run a bundle of files.
#[derive(Debug)]
pub struct PlaygroundJob {
    pub session_id: String,
    /// Key under which the result is delivered.
    pub result_key: String,
    /// The file to run: a Makefile, or a single source file.
    pub target_path: String,
    pub files: Vec<PlaygroundFile>,
    /// Standard input of a single-file run.
    pub stdin_input: Option<String>,
    /// Input file of a Makefile run, in base64.
    pub file_input_base64: Option<String>,
    pub file_input_is_binary: bool,
    /// Whether the Makefile run takes its input from a file of the bundle.
    pub anigma_mode: bool,
    /// Name of that file (`sample.in` when absent).
    pub anigma_file_name: Option<String>,
    /// Time limit in milliseconds.
    pub time_limit: u32,
    /// Memory limit in MiB.
    pub memory_limit: u32,
}

/// A file of the bundle, with its content in base64.
#[derive(Debug)]
pub struct PlaygroundFile {
    pub path: String,
    pub content: String,
    pub is_binary: bool,
}

/// What a playground run produced.
#[derive(Debug)]
pub struct PlaygroundResult {
    pub session_id: String,
    pub success: bool,
    pub stdout: String,
    pub stderr: String,
    pub exit_code: i32,
    pub time_ms: u32,
    pub memory_kb: u32,
    pub compile_output: Option<String>,
    /// Files that the run left in its directory.
    pub created_files: Vec<CreatedFile>,
}

/// A file that a run left, with its content in base64.
#[derive(Debug)]
pub struct CreatedFile {
    pub path: String,
    pub content_base64: String,
    pub is_binary: bool,
}

/// Index of the last `c` in `s`, or -1 when there is none.
pub open spec fn last_index(s: Seq<char>, c: char) -> int
    decreases s.len(),
{
    if s.len() == 0 {
        -1
    } else if s.last() == c {
        s.len() - 1
    } else {
        last_index(s.drop_last(), c)
    }
}

proof fn lemma_last_index(s: Seq<char>, c: char)
    ensures
        -1 <= last_index(s, c) < s.len(),
        last_index(s, c) >= 0 ==> s[last_index(s, c)] == c,
        forall|j: int| last_index(s, c) < j < s.len() ==> s[j] != c,
    decreases s.len(),
{
    if s.len() > 0 && s.last() != c {
        lemma_last_index(s.drop_last(), c);
        assert forall|j: int| last_index(s, c) < j < s.len() implies s[j] != c by {
            if j < s.len() - 1 {
                assert(s.drop_last()[j] == s[j]);
            }
        }
        if last_index(s, c) >= 0 {
            assert(s.drop_last()[last_index(s, c)] == s[last_index(s, c)]);
        }
    }
}

/// Index of the last `c` in `v`, if any.
fn find_last(v: &Vec<char>, c: char) -> (r: Option<usize>)
    ensures
        match r {
            Some(k) => k == last_index(v@, c) && k < v.len(),
            None => last_index(v@, c) == -1,
        },
{
    let mut i = v.len();
    proof {
        assert(v@.take(i as int) == v@);
    }
    while i > 0
        invariant
            i <= v.len(),
            last_index(v@, c) == last_index(v@.take(i as int), c),
        decreases i,
    {
        if v[i - 1] == c {
            proof {
                assert(v@.take(i as int).last() == c);
            }
            return Some(i - 1);
        }
        proof {
            assert(v@.take(i as int).drop_last() == v@.take(i - 1));
        }
        i = i - 1;
    }
    proof {
        assert(v@.take(0) == Seq::<char>::empty());
    }
    None
}

/// The last component of a path.
pub open spec fn file_name_spec(path: Seq<char>) -> Seq<char> {
    path.skip(last_index(path, '/') + 1)
}

pub open spec fn last_dot(name: Seq<char>) -> int {
    last_index(name, '.')
}

pub open spec fn ascii_lower(c: char) -> char {
    if 'A' <= c && c <= 'Z' {
        ((c as u32) + 32) as char
    } else {
        c
    }
}

pub open spec fn lower_ascii(s: Seq<char>) -> Seq<char> {
    s.map_values(|c: char| ascii_lower(c))
}

/// Extensions of the files that make up a program's source.
pub open spec fn is_source_extension(ext: Seq<char>) -> bool {
    let e = lower_ascii(ext);
    e == "c"@ || e == "h"@ || e == "cpp"@ || e == "hpp"@ || e == "cc"@ || e == "cxx"@ || e
        == "java"@ || e == "py"@
}

pub(crate) fn lower_ascii_chars(v: &Vec<char>, lo: usize) -> (r: Vec<char>)
    requires
        lo <= v.len(),
    ensures
        r@ == lower_ascii(v@.skip(lo as int)),
{
    let mut r: Vec<char> = Vec::new();
    let mut i = lo;
    while i < v.len()
        invariant
            lo <= i <= v.len(),
            r@ == lower_ascii(v@.subrange(lo as int, i as int)),
        decreases v.len() - i,
    {
        let c = v[i];
        let l = if 'A' <= c && c <= 'Z' {
            char_add_32(c)
        } else {
            c
        };
        r.push(l);
        proof {
            assert(lower_ascii(v@.subrange(lo as int, i + 1)) =~= lower_ascii(
                v@.subrange(lo as int, i as int),
            ).push(ascii_lower(c)));
        }
        i = i + 1;
    }
    proof {
        assert(v@.subrange(lo as int, i as int) == v@.skip(lo as int));
    }
    r
}

fn char_add_32(c: char) -> (r: char)
    requires
        'A' <= c && c <= 'Z',
    ensures
        r == ((c as u32) + 32) as char,
{
    let u = c as u32 + 32;
    proof {
        assert(0x61 <= u <= 0x7a);
    }
    // a lower-case ASCII letter is a valid character
    char_from_ascii(u)
}

fn char_from_ascii(u: u32) -> (r: char)
    requires
        u < 0x80,
    ensures
        r == u as char,
{
    (u as u8) as char
}

/// Whether the file at `path` has a source extension.
pub fn has_source_extension(path: &Vec<char>) -> (r: bool)
    ensures
        r == crate::anigma::is_source_path(path@),
{
    let slash = find_last(path, '/');
    proof {
        lemma_last_index(path@, '/');
    }
    let start = match slash {
        Some(k) => k + 1,
        None => 0,
    };
    let name = sub_chars(path, start, path.len());
    proof {
        assert(name@ == file_name_spec(path@));
    }
    let dot = match find_last(&name, '.') {
        Some(k) => k,
        None => {
            return false;
        },
    };
    if dot == 0 {
        return false;
    }
    proof {
        lemma_last_index(name@, '.');
    }
    let ext = lower_ascii_chars(&name, dot + 1);
    chars_eq_str(&ext, "c") || chars_eq_str(&ext, "h") || chars_eq_str(&ext, "cpp")
        || chars_eq_str(&ext, "hpp") || chars_eq_str(&ext, "cc") || chars_eq_str(&ext, "cxx")
        || chars_eq_str(&ext, "java") || chars_eq_str(&ext, "py")
}

/// The language that the extension of `path` (what follows its last `.`, or the whole
/// path without one) names, in any case.
pub open spec fn language_of_path(path: Seq<char>) -> Option<Seq<char>> {
    let e = lower_ascii(path.skip(last_index(path, '.') + 1));
    if e == "c"@ {
        Some("c"@)
    } else if e == "cpp"@ || e == "cc"@ || e == "cxx"@ {
        Some("cpp"@)
    } else if e == "py"@ {
        Some("python"@)
    } else if e == "java"@ {
        Some("java"@)
    } else if e == "rs"@ {
        Some("rust"@)
    } else if e == "go"@ {
        Some("go"@)
    } else if e == "js"@ {
        Some("javascript"@)
    } else {
        None
    }
}

/// The language of a source file, from its extension.
pub fn detect_language(path: &str) -> (r: Option<&'static str>)
    ensures
        match r {
            Some(l) => language_of_path(path@) == Some(l@),
            None => language_of_path(path@) is None,
        },
{
    let v = chars_of(path);
    let dot = find_last(&v, '.');
    proof {
        lemma_last_index(v@, '.');
    }
    let from = match dot {
        Some(k) => k + 1,
        None => 0,
    };
    let e = lower_ascii_chars(&v, from);
    if chars_eq_str(&e, "c") {
        Some("c")
    } else if chars_eq_str(&e, "cpp") || chars_eq_str(&e, "cc") || chars_eq_str(&e, "cxx") {
        Some("cpp")
    } else if chars_eq_str(&e, "py") {
        Some("python")
    } else if chars_eq_str(&e, "java") {
        Some("java")
    } else if chars_eq_str(&e, "rs") {
        Some("rust")
    } else if chars_eq_str(&e, "go") {
        Some("go")
    } else if chars_eq_str(&e, "js") {
        Some("javascript")
    } else {
        None
    }
}

/// How a playground target is run.
#[derive(Debug, Clone, PartialEq, Eq)]
pub enum RunType {
    /// `make` in the Makefile's folder.
    Makefile { folder: String },
    /// A single source file of the given language.
    SingleFile { file_path: String, language: String },
    /// Neither: the format is not supported.
    Unknown,
}

/// The run mode of `target`: a file named `Makefile` or `makefile` runs `make` in its
/// folder; a file with a known source extension runs alone; anything else is refused.
pub open spec fn run_type_spec(target: Seq<char>) -> (RunTypeKind, Seq<char>, Seq<char>) {
    let name = file_name_spec(target);
    if name == "Makefile"@ || name == "makefile"@ {
        let k = last_index(target, '/');
        (RunTypeKind::Makefile, if k >= 0 {
            target.take(k)
        } else {
            Seq::empty()
        }, Seq::empty())
    } else {
        match language_of_path(target) {
            Some(l) => (RunTypeKind::SingleFile, target, l),
            None => (RunTypeKind::Unknown, Seq::empty(), Seq::empty()),
        }
    }
}

/// The kind of a run mode.
#[derive(Debug, Clone, Copy, PartialEq, Eq, Structural)]
pub enum RunTypeKind {
    Makefile,
    SingleFile,
    Unknown,
}

/// Chooses the run mode of `target_path`.
pub fn determine_run_type(target_path: &str) -> (r: RunType)
    ensures
        ({
            let (kind, a, b) = run_type_spec(target_path@);
            match r {
                RunType::Makefile { folder } => kind == RunTypeKind::Makefile && folder@ == a,
                RunType::SingleFile { file_path, language } => kind == RunTypeKind::SingleFile
                    && file_path@ == a && language@ == b,
                RunType::Unknown => kind == RunTypeKind::Unknown,
            }
        }),
{
    let v = chars_of(target_path);
    let slash = find_last(&v, '/');
    proof {
        lemma_last_index(v@, '/');
    }
    let start = match slash {
        Some(k) => k + 1,
        None => 0,
    };
    let name = sub_chars(&v, start, v.len());
    proof {
        assert(name@ == file_name_spec(target_path@));
    }
    if chars_eq_str(&name, "Makefile") || chars_eq_str(&name, "makefile") {
        let folder = match slash {
            Some(k) => sub_chars(&v, 0, k),
            None => Vec::new(),
        };
        proof {
            match slash {
                Some(k) => assert(folder@ == target_path@.take(k as int)),
                None => assert(folder@ == Seq::<char>::empty()),
            }
        }
        RunType::Makefile { folder: string_from_chars(folder.as_slice()) }
    } else {
        match detect_language(target_path) {
            Some(lang) => RunType::SingleFile {
                file_path: target_path.to_owned(),
                language: lang.to_owned(),
            },
            None => RunType::Unknown,
        }
    }
}

/// Whether `s` holds two dots in a row.
pub open spec fn has_double_dot(s: Seq<char>) -> bool {
    exists|i: int| 0 <= i < s.len() - 1 && s[i] == '.' && #[trigger] s[i + 1] == '.'
}

/// A safe relative path: not empty, not absolute, without `..`.
pub open spec fn safe_path(path: Seq<char>) -> bool {
    path.len() > 0 && path[0] != '/' && !has_double_dot(path)
}

pub fn is_safe_path(path: &str) -> (r: bool)
    ensures
        r == safe_path(path@),
{
    let v = chars_of(path);
    if v.len() == 0 || v[0] == '/' {
        return false;
    }
    let mut i: usize = 0;
    while i + 1 < v.len()
        invariant
            i + 1 <= v.len(),
            v@ == path@,
            v@.len() > 0 && v@[0] != '/',
            forall|j: int| 0 <= j < i ==> !(v@[j] == '.' && #[trigger] v@[j + 1] == '.'),
        decreases v.len() - i,
    {
        if v[i] == '.' && v[i + 1] == '.' {
            proof {
                let j = i as int;
                assert(0 <= j < v@.len() - 1);
                assert(v@[j] == '.' && v@[j + 1] == '.');
                assert(has_double_dot(v@));
            }
            return false;
        }
        i = i + 1;
    }
    true
}

/// `s` with each backslash made a slash.
pub open spec fn slashes(s: Seq<char>) -> Seq<char> {
    s.map_values(|c: char| if c == '\\' { '/' } else { c })
}

/// `s` without any number of leading `./`.
pub open spec fn strip_dot_slash(s: Seq<char>) -> Seq<char>
    decreases s.len(),
{
    if s.len() >= 2 && s[0] == '.' && s[1] == '/' {
        strip_dot_slash(s.skip(2))
    } else {
        s
    }
}

/// A path with forward slashes and without leading `./`.
#[verifier::rlimit(40)]
pub fn normalize_path(path: &str) -> (r: String)
    ensures
        r@ == strip_dot_slash(slashes(path@)),
{
    let v = chars_of(path);
    let mut w: Vec<char> = Vec::new();
    let mut i: usize = 0;
    while i < v.len()
        invariant
            i <= v.len(),
            w@ == slashes(v@.take(i as int)),
        decreases v.len() - i,
    {
        let c = if v[i] == '\\' {
            '/'
        } else {
            v[i]
        };
        w.push(c);
        proof {
            assert(slashes(v@.take(i + 1)) =~= slashes(v@.take(i as int)).push(c));
        }
        i = i + 1;
    }
    proof {
        assert(v@.take(i as int) == v@);
    }
    let mut k: usize = 0;
    proof {
        assert(w@.skip(0) == w@);
    }
    while k < w.len() && w.len() - k >= 2 && w[k] == '.' && w[k + 1] == '/'
        invariant
            k <= w.len(),
            strip_dot_slash(w@.skip(k as int)) == strip_dot_slash(w@),
        decreases w.len() - k,
    {
        proof {
            assert(w@.skip(k as int).skip(2) == w@.skip(k + 2));
        }
        k = k + 2;
    }
    proof {
        assert(w@.skip(0) == w@);
    }
    let out = sub_chars(&w, k, w.len());
    proof {
        assert(out@ == w@.skip(k as int));
    }
    string_from_chars(out.as_slice())
}

/// `str::replace`: every non-overlapping occurrence of `pat`, from the left, becomes `rep`;
/// an empty pattern puts `rep` around every character.
pub open spec fn replace_all(s: Seq<char>, pat: Seq<char>, rep: Seq<char>) -> Seq<char>
    decreases s.len(),
{
    if pat.len() == 0 {
        if s.len() == 0 {
            rep
        } else {
            rep + seq![s[0]] + replace_all(s.drop_first(), pat, rep)
        }
    } else if s.len() < pat.len() {
        s
    } else if s.take(pat.len() as int) == pat {
        rep + replace_all(s.skip(pat.len() as int), pat, rep)
    } else {
        seq![s[0]] + replace_all(s.drop_first(), pat, rep)
    }
}

fn starts_at(v: &Vec<char>, i: usize, pat: &Vec<char>) -> (r: bool)
    requires
        i + pat.len() <= v.len(),
    ensures
        r == (v@.subrange(i as int, i + pat.len()) == pat@),
{
    let mut j: usize = 0;
    while j < pat.len()
        invariant
            j <= pat.len(),
            i + pat.len() <= v.len(),
            v@.subrange(i as int, i + j) == pat@.take(j as int),
        decreases pat.len() - j,
    {
        if v[i + j] != pat[j] {
            assert(v@.subrange(i as int, i + pat.len())[j as int] != pat@[j as int]);
            return false;
        }
        assert(v@.subrange(i as int, i + j + 1) == v@.subrange(i as int, i + j).push(v@[i + j]));
        assert(pat@.take(j + 1) == pat@.take(j as int).push(pat@[j as int]));
        j = j + 1;
    }
    assert(pat@.take(j as int) == pat@);
    true
}

fn push_all(out: &mut Vec<char>, s: &Vec<char>)
    ensures
        final(out)@ == old(out)@ + s@,
{
    let mut i: usize = 0;
    while i < s.len()
        invariant
            i <= s.len(),
            out@ == old(out)@ + s@.take(i as int),
        decreases s.len() - i,
    {
        out.push(s[i]);
        proof {
            assert(s@.take(i + 1) == s@.take(i as int).push(s@[i as int]));
        }
        i = i + 1;
    }
    proof {
        assert(s@.take(i as int) == s@);
    }
}

/// `s.replace(pat, rep)`.
#[verifier::rlimit(40)]
pub fn replace_str(s: &str, pat: &str, rep: &str) -> (r: String)
    ensures
        r@ == replace_all(s@, pat@, rep@),
{
    let v = chars_of(s);
    let p = chars_of(pat);
    let q = chars_of(rep);
    let mut out: Vec<char> = Vec::new();
    let mut i: usize = 0;
    proof {
        assert(v@.skip(0) == v@);
        assert(out@ + replace_all(v@, p@, q@) =~= replace_all(v@, p@, q@));
    }
    while i < v.len()
        invariant
            i <= v.len(),
            out@ + replace_all(v@.skip(i as int), p@, q@) == replace_all(v@, p@, q@),
        decreases v.len() - i,
    {
        let ghost t = v@.skip(i as int);
        if p.len() == 0 {
            let ghost before = out@;
            push_all(&mut out, &q);
            out.push(v[i]);
            proof {
                assert(t.drop_first() == v@.skip(i + 1));
                assert(t[0] == v@[i as int]);
                assert(out@ + replace_all(v@.skip(i + 1), p@, q@) =~= before + replace_all(t, p@, q@));
            }
            i = i + 1;
        } else if p.len() <= v.len() - i && starts_at(&v, i, &p) {
            let ghost before = out@;
            push_all(&mut out, &q);
            proof {
                assert(t.take(p@.len() as int) == v@.subrange(i as int, i + p.len()));
                assert(t.skip(p@.len() as int) == v@.skip(i + p.len()));
                assert(out@ + replace_all(v@.skip(i + p.len()), p@, q@) =~= before + replace_all(
                    t,
                    p@,
                    q@,
                ));
            }
            i = i + p.len();
        } else if p.len() > v.len() - i {
            let ghost before = out@;
            let rest = sub_chars(&v, i, v.len());
            push_all(&mut out, &rest);
            proof {
                assert(rest@ == t);
                assert(v@.skip(v.len() as int) == Seq::<char>::empty());
                assert(replace_all(Seq::<char>::empty(), p@, q@) == Seq::<char>::empty());
                assert(out@ + replace_all(v@.skip(v.len() as int), p@, q@) =~= before
                    + replace_all(t, p@, q@));
            }
            i = v.len();
        } else {
            let ghost before = out@;
            out.push(v[i]);
            proof {
                assert(t.take(p@.len() as int) == v@.subrange(i as int, i + p.len()));
                assert(t.drop_first() == v@.skip(i + 1));
                assert(t[0] == v@[i as int]);
                assert(out@ + replace_all(v@.skip(i + 1), p@, q@) =~= before + replace_all(t, p@, q@));
            }
            i = i + 1;
        }
    }
    proof {
        assert(v@.skip(0) == v@);
        if p@.len() == 0 {
            assert(v@.skip(i as int) == Seq::<char>::empty());
            assert(out@ + q@ == replace_all(v@, p@, q@));
        }
    }
    if p.len() == 0 {
        let ghost before = out@;
        push_all(&mut out, &q);
    } else {
        proof {
            assert(v@.skip(i as int) == Seq::<char>::empty());
        }
    }
    string_from_chars(out.as_slice())
}

/// Each argument with the descriptor's source file name replaced by the actual one.
pub fn substitute_file_name(args: &Vec<String>, source_file: &str, actual: &str) -> (r: Vec<String>)
    ensures
        r@.len() == args@.len(),
        forall|i: int|
            0 <= i < r@.len() ==> #[trigger] r@[i]@ == replace_all(args@[i]@, source_file@, actual@),
{
    let mut r: Vec<String> = Vec::new();
    let mut i: usize = 0;
    while i < args.len()
        invariant
            i <= args.len(),
            r@.len() == i,
            forall|j: int|
                0 <= j < i ==> #[trigger] r@[j]@ == replace_all(args@[j]@, source_file@, actual@),
        decreases args.len() - i,
    {
        r.push(replace_str(args[i].as_str(), source_file, actual));
        i = i + 1;
    }
    r
}

/// The lines of `s` as `str::lines` gives them: split at line feeds, without a final
/// empty piece, each without one trailing carriage return.
pub open spec fn text_lines(s: Seq<char>) -> Seq<Seq<char>> {
    let p = crate::text::split_lines(s);
    let q = if p.last().len() == 0 {
        p.drop_last()
    } else {
        p
    };
    q.map_values(|l: Seq<char>| if l.len() > 0 && l.last() == '\r' { l.drop_last() } else { l })
}

/// Whether `s` starts with `prefix`.
pub open spec fn starts_with(s: Seq<char>, prefix: Seq<char>) -> bool {
    prefix.len() <= s.len() && s.take(prefix.len() as int) == prefix
}

/// How the Java runtime's notice about tool options begins.
pub const JAVA_NOTICE: &'static str = "Picked up JAVA_TOOL_OPTIONS";

/// Whether a line is the Java runtime's notice about tool options.
pub open spec fn is_java_notice(line: Seq<char>) -> bool {
    starts_with(trim(line), JAVA_NOTICE@)
}

/// The lines joined with line feeds between them.
pub open spec fn join_lines(ls: Seq<Seq<char>>) -> Seq<char>
    decreases ls.len(),
{
    if ls.len() == 0 {
        Seq::empty()
    } else if ls.len() == 1 {
        ls[0]
    } else {
        join_lines(ls.drop_last()) + seq!['\n'] + ls.last()
    }
}

/// The lines that are not Java runtime notices, in order.
pub open spec fn without_notices(ls: Seq<Seq<char>>) -> Seq<Seq<char>>
    decreases ls.len(),
{
    if ls.len() == 0 {
        ls
    } else {
        let r = without_notices(ls.drop_last());
        if is_java_notice(ls.last()) {
            r
        } else {
            r.push(ls.last())
        }
    }
}

/// `stderr` without the Java runtime's notices.
pub open spec fn without_java_notices(stderr: Seq<char>) -> Seq<char> {
    join_lines(without_notices(text_lines(stderr)))
}

/// Drops the Java runtime's notices from an error stream.
#[verifier::rlimit(40)]
pub fn filter_java_notices(stderr: &str) -> (r: String)
    ensures
        r@ == without_java_notices(stderr@),
{
    let cs = chars_of(stderr);
    let pieces = crate::text::split_lines_chars(&cs);
    proof {
        crate::text::lemma_split_lines_nonempty(stderr@);
    }
    let n = if pieces[pieces.len() - 1].len() == 0 {
        pieces.len() - 1
    } else {
        pieces.len()
    };
    let ghost q = if crate::text::split_lines(stderr@).last().len() == 0 {
        crate::text::split_lines(stderr@).drop_last()
    } else {
        crate::text::split_lines(stderr@)
    };
    proof {
        assert(crate::text::views(pieces@).last() == pieces@.last()@);
        assert(q =~= crate::text::views(pieces@).take(n as int));
    }
    let ghost lines = text_lines(stderr@);
    let mut out: Vec<char> = Vec::new();
    let mut any = false;
    let mut i: usize = 0;
    proof {
        assert(lines.take(0) =~= Seq::<Seq<char>>::empty());
    }
    while i < n
        invariant
            n <= pieces.len(),
            i <= n,
            lines.len() == n,
            lines == text_lines(stderr@),
            forall|j: int| 0 <= j < n ==> #[trigger] lines[j] == ({
                let l = pieces@[j]@;
                if l.len() > 0 && l.last() == '\r' { l.drop_last() } else { l }
            }),
            out@ == join_lines(without_notices(lines.take(i as int))),
            any == (without_notices(lines.take(i as int)).len() > 0),
        decreases n - i,
    {
        let piece = &pieces[i];
        let end = if piece.len() > 0 && piece[piece.len() - 1] == '\r' {
            piece.len() - 1
        } else {
            piece.len()
        };
        let line = sub_chars(piece, 0, end);
        proof {
            assert(line@ == lines[i as int]);
            assert(lines.take(i + 1).drop_last() == lines.take(i as int));
            assert(lines.take(i + 1) == lines.take(i as int).push(lines[i as int]));
        }
        let t = trim_range(&line, 0, line.len());
        proof {
            assert(line@.subrange(0, line.len() as int) == line@);
        }
        let notice = chars_of(JAVA_NOTICE);
        let notice_line = t.len() >= notice.len() && crate::text::chars_eq(
            &sub_chars(&t, 0, notice.len()),
            &notice,
        );
        proof {
            if t@.len() >= notice@.len() {
                assert(t@.subrange(0, notice@.len() as int) == t@.take(notice@.len() as int));
            }
        }
        if !notice_line {
            let ghost before = out@;
            if any {
                out.push('\n');
            }
            push_all(&mut out, &line);
            proof {
                let f = without_notices(lines.take(i as int));
                assert(without_notices(lines.take(i + 1)) == f.push(line@));
                if f.len() > 0 {
                    assert(f.push(line@).drop_last() == f);
                    assert(out@ =~= join_lines(f) + seq!['\n'] + line@);
                } else {
                    assert(out@ =~= line@);
                }
            }
            any = true;
        }
        i = i + 1;
    }
    proof {
        assert(lines.take(i as int) == lines);
    }
    string_from_chars(out.as_slice())
}


/// Name for what `base64`'s standard engine encodes `bytes` to.
pub uninterp spec fn base64_encoded(bytes: Seq<u8>) -> Seq<char>;

/// Name for what `base64`'s standard engine decodes `text` to, when it is valid.
pub uninterp spec fn base64_decoded(text: Seq<char>) -> Option<Seq<u8>>;

#[verifier::external_type_specification]
#[verifier::external_body]
pub struct ExDecodeError(base64::DecodeError);

/// Relies on `base64::engine::general_purpose::STANDARD.encode`.
#[verifier::external_body]
fn encode_base64(bytes: &[u8]) -> (r: String)
    ensures
        r@ == base64_encoded(bytes@),
{
    base64::engine::general_purpose::STANDARD.encode(bytes)
}

/// Relies on `base64::engine::general_purpose::STANDARD.decode`: the bytes when `text` is
/// valid base64, an error otherwise.
#[verifier::external_body]
fn decode_base64(text: &str) -> (r: Result<Vec<u8>, base64::DecodeError>)
    ensures
        match r {
            Ok(v) => base64_decoded(text@) == Some(v@),
            Err(_) => base64_decoded(text@) is None,
        },
{
    base64::engine::general_purpose::STANDARD.decode(text)
}

/// Why a playground job could not be prepared.
#[derive(Debug, Clone, PartialEq, Eq)]
pub enum PlaygroundError {
    /// The content of the file at this path is not valid base64.
    InvalidContent { path: String },
    /// The path of a file is absolute or leaves the bundle.
    UnsafePath { path: String },
    /// The input file of a Makefile run is not in the bundle.
    MissingInputFile { name: String },
    /// The input given for a Makefile run is not valid base64.
    InvalidInput,
}

/// The bundle's files with their decoded contents, in order; the first file with an
/// unsafe path or content that is not base64 refuses the bundle.
#[verifier::rlimit(40)]
pub fn decode_files(files: &Vec<PlaygroundFile>) -> (r: Result<Vec<(String, Vec<u8>)>, PlaygroundError>)
    ensures
        match r {
            Ok(v) => v@.len() == files@.len() && forall|i: int|
                0 <= i < v@.len() ==> {
                    &&& (#[trigger] v@[i]).0@ == files@[i].path@
                    &&& safe_path(files@[i].path@)
                    &&& base64_decoded(files@[i].content@) == Some(v@[i].1@)
                },
            Err(e) => exists|i: int|
                0 <= i < files@.len() && (forall|j: int|
                    0 <= j < i ==> safe_path(#[trigger] files@[j].path@) && base64_decoded(
                        files@[j].content@,
                    ) is Some) && match e {
                    PlaygroundError::UnsafePath { path } => path@ == (#[trigger] files@[i]).path@
                        && !safe_path(files@[i].path@),
                    PlaygroundError::InvalidContent { path } => path@ == files@[i].path@ && safe_path(
                        files@[i].path@,
                    ) && base64_decoded(files@[i].content@) is None,
                    _ => false,
                },
        },
{
    let mut out: Vec<(String, Vec<u8>)> = Vec::new();
    let mut i: usize = 0;
    while i < files.len()
        invariant
            i <= files.len(),
            out@.len() == i,
            forall|j: int|
                0 <= j < i ==> {
                    &&& (#[trigger] out@[j]).0@ == files@[j].path@
                    &&& safe_path(files@[j].path@)
                    &&& base64_decoded(files@[j].content@) == Some(out@[j].1@)
                },
        decreases files.len() - i,
    {
        let f = &files[i];
        proof {
            assert forall|j: int| 0 <= j < i implies safe_path(#[trigger] files@[j].path@)
                && base64_decoded(files@[j].content@) is Some by {
                assert((out@[j]).0@ == files@[j].path@);
            }
        }
        if !is_safe_path(f.path.as_str()) {
            proof {
                assert(files@[i as int] == *f);
            }
            return Err(PlaygroundError::UnsafePath { path: f.path.clone() });
        }
        match decode_base64(f.content.as_str()) {
            Ok(bytes) => {
                out.push((f.path.clone(), bytes));
            },
            Err(_) => {
                proof {
                    assert(files@[i as int] == *f);
                }
                return Err(PlaygroundError::InvalidContent { path: f.path.clone() });
            },
        }
        i = i + 1;
    }
    Ok(out)
}

/// Default name of the input file taken from the bundle.
pub const DEFAULT_BUNDLE_INPUT: &'static str = "sample.in";

/// The input file of a Makefile run: its name and, when there is one, its bytes. In
/// bundle-input mode it is the bundle's file of the given name (by default `sample.in`);
/// otherwise `input.txt`, holding the job's decoded input if it has one.
#[verifier::rlimit(40)]
pub fn makefile_input(job: &PlaygroundJob) -> (r: Result<(String, Option<Vec<u8>>), PlaygroundError>)
    ensures
        job.anigma_mode ==> ({
            let wanted = match job.anigma_file_name {
                Some(n) => n@,
                None => "sample.in"@,
            };
            match r {
                Ok((name, bytes)) => name@ == wanted && bytes is Some && exists|i: int|
                    0 <= i < job.files@.len() && (#[trigger] job.files@[i]).path@ == wanted
                        && base64_decoded(job.files@[i].content@) == Some(bytes->0@),
                Err(PlaygroundError::MissingInputFile { name }) => name@ == wanted && forall|i: int|
                    0 <= i < job.files@.len() ==> (#[trigger] job.files@[i]).path@ != wanted,
                Err(PlaygroundError::InvalidContent { path }) => path@ == wanted && exists|i: int|
                    0 <= i < job.files@.len() && (#[trigger] job.files@[i]).path@ == wanted
                        && base64_decoded(job.files@[i].content@) is None,
                Err(_) => false,
            }
        }),
        !job.anigma_mode ==> match r {
            Ok((name, bytes)) => name@ == "input.txt"@ && match job.file_input_base64 {
                Some(t) => bytes is Some && base64_decoded(t@) == Some(bytes->0@),
                None => bytes is None,
            },
            Err(e) => e == PlaygroundError::InvalidInput && (job.file_input_base64 matches Some(t)
                && base64_decoded(t@) is None),
        },
{
    if job.anigma_mode {
        let name: &str = match &job.anigma_file_name {
            Some(n) => n.as_str(),
            None => DEFAULT_BUNDLE_INPUT,
        };
        proof {
            reveal_strlit("sample.in");
        }
        let mut i: usize = 0;
        while i < job.files.len()
            invariant
                i <= job.files.len(),
                job.anigma_mode,
                name@ == match job.anigma_file_name {
                    Some(n) => n@,
                    None => "sample.in"@,
                },
                forall|j: int| 0 <= j < i ==> (#[trigger] job.files@[j]).path@ != name@,
            decreases job.files.len() - i,
        {
            let f = &job.files[i];
            let p = chars_of(f.path.as_str());
            if chars_eq_str(&p, name) {
                return match decode_base64(f.content.as_str()) {
                    Ok(bytes) => Ok((f.path.clone(), Some(bytes))),
                    Err(_) => Err(PlaygroundError::InvalidContent { path: f.path.clone() }),
                };
            }
            i = i + 1;
        }
        Err(PlaygroundError::MissingInputFile { name: name.to_owned() })
    } else {
        match &job.file_input_base64 {
            Some(t) => match decode_base64(t.as_str()) {
                Ok(bytes) => Ok(("input.txt".to_owned(), Some(bytes))),
                Err(_) => Err(PlaygroundError::InvalidInput),
            },
            None => Ok(("input.txt".to_owned(), None)),
        }
    }
}

/// Whether a file left by a Makefile run is reported: its normalised path is safe and is
/// neither the input file nor the box's bookkeeping files.
pub open spec fn reported(path: Seq<char>, input_name: Seq<char>) -> bool {
    let p = strip_dot_slash(slashes(path));
    safe_path(p) && p != input_name && p != "stdout.txt"@ && p != "stderr.txt"@ && p
        != "input.txt"@
}

/// The reported files among `files` (relative path, bytes), in order, as (normalised
/// path, base64 content).
pub open spec fn created_spec(files: Seq<(Seq<char>, Seq<u8>)>, input_name: Seq<char>) -> Seq<
    (Seq<char>, Seq<char>),
>
    decreases files.len(),
{
    if files.len() == 0 {
        Seq::empty()
    } else {
        let rest = created_spec(files.drop_last(), input_name);
        let (path, bytes) = files.last();
        if reported(path, input_name) {
            rest.push((strip_dot_slash(slashes(path)), base64_encoded(bytes)))
        } else {
            rest
        }
    }
}

pub open spec fn listing_views(files: Seq<(String, Vec<u8>)>) -> Seq<(Seq<char>, Seq<u8>)> {
    files.map_values(|f: (String, Vec<u8>)| (f.0@, f.1@))
}

pub open spec fn created_views(r: Seq<CreatedFile>) -> Seq<(Seq<char>, Seq<char>)> {
    r.map_values(|f: CreatedFile| (f.path@, f.content_base64@))
}

/// The files that a Makefile run left, given as (relative path, bytes), in base64;
/// the input and bookkeeping files and unsafe paths are left out.
#[verifier::rlimit(40)]
pub fn collect_created_files(files: &Vec<(String, Vec<u8>)>, input_name: &str) -> (r: Vec<CreatedFile>)
    ensures
        created_views(r@) == created_spec(listing_views(files@), input_name@),
        forall|i: int| 0 <= i < r@.len() ==> !(#[trigger] r@[i]).is_binary,
{
    let mut r: Vec<CreatedFile> = Vec::new();
    let mut i: usize = 0;
    proof {
        assert(listing_views(files@).take(0) =~= Seq::<(Seq<char>, Seq<u8>)>::empty());
        assert(created_views(r@) =~= Seq::<(Seq<char>, Seq<char>)>::empty());
    }
    while i < files.len()
        invariant
            i <= files.len(),
            created_views(r@) == created_spec(listing_views(files@).take(i as int), input_name@),
            forall|k: int| 0 <= k < r@.len() ==> !(#[trigger] r@[k]).is_binary,
        decreases files.len() - i,
    {
        let ghost before = r@;
        proof {
            assert(listing_views(files@).take(i + 1).drop_last() =~= listing_views(files@).take(
                i as int,
            ));
            assert(listing_views(files@).take(i + 1).last() == (files@[i as int].0@, files@[i as int].1@));
        }
        let p = normalize_path(files[i].0.as_str());
        let pv = chars_of(p.as_str());
        let keep = is_safe_path(p.as_str()) && !chars_eq_str(&pv, input_name) && !chars_eq_str(
            &pv,
            "stdout.txt",
        ) && !chars_eq_str(&pv, "stderr.txt") && !chars_eq_str(&pv, "input.txt");
        if keep {
            let content = encode_base64(files[i].1.as_slice());
            r.push(CreatedFile { path: p, content_base64: content, is_binary: false });
            proof {
                assert(created_views(r@) =~= created_views(before).push(
                    (r@.last().path@, r@.last().content_base64@),
                ));
            }
        }
        i = i + 1;
    }
    proof {
        assert(listing_views(files@).take(i as int) =~= listing_views(files@));
    }
    r
}

impl PlaygroundResult {
    /// The answer to a target whose format is not supported.
    pub fn unsupported(session_id: String) -> (r: Self)
        ensures
            r.session_id == session_id,
            !r.success,
            r.stdout@.len() == 0,
            r.stderr@ == "unsupported file format"@,
            r.exit_code == 1,
            r.time_ms == 0 && r.memory_kb == 0,
            r.compile_output is None,
            r.created_files@.len() == 0,
    {
        PlaygroundResult {
            session_id,
            success: false,
            stdout: String::new(),
            stderr: "unsupported file format".to_owned(),
            exit_code: 1,
            time_ms: 0,
            memory_kb: 0,
            compile_output: None,
            created_files: Vec::new(),
        }
    }
}

} // verus!
