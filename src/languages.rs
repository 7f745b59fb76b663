//! Language descriptors: file names, commands and limit adjustments.

use vstd::prelude::*;
use crate::text::{
    chars_of, is_whitespace, is_ws, parse_u32_chars, parse_u32_spec, string_from_chars, views,
};

verus! {

/// How to build and run programs of one language.
#[derive(Debug, Clone)]
pub struct LanguageConfig {
    /// Name of the source file, such as `main.cpp`.
    pub source_file: String,
    /// Compile command; none for an interpreted language.
    pub compile_command: Option<Vec<String>>,
    pub run_command: Vec<String>,
    /// (multiplier, bonus in seconds) applied to the time limit.
    pub time_limit: Option<(u32, u32)>,
    /// (multiplier, bonus in MiB) applied to the memory limit.
    pub memory_limit: Option<(u32, u32)>,
}

/// `base * multiplier + bonus * unit`, or `base` when there is no adjustment.
pub open spec fn adjusted(adjust: Option<(u32, u32)>, base: u32, unit: int) -> int {
    match adjust {
        Some((m, b)) => base * m + b * unit,
        None => base as int,
    }
}

impl LanguageConfig {
    /// The time limit in milliseconds for a base limit of `base_time_ms`:
    /// `base * multiplier + bonus_seconds * 1000`.
    pub fn calculate_time_limit(&self, base_time_ms: u32) -> (r: u32)
        requires
            adjusted(self.time_limit, base_time_ms, 1000) <= u32::MAX,
        ensures
            r == adjusted(self.time_limit, base_time_ms, 1000),
    {
        match self.time_limit {
            Some((multiplier, bonus_seconds)) => {
                proof {
                    assert(base_time_ms * multiplier >= 0 && bonus_seconds * 1000 >= 0) by (nonlinear_arith);
                }
                base_time_ms * multiplier + bonus_seconds * 1000
            },
            None => base_time_ms,
        }
    }

    /// The memory limit in MiB for a base limit of `base_memory_mb`:
    /// `base * multiplier + bonus`.
    pub fn calculate_memory_limit(&self, base_memory_mb: u32) -> (r: u32)
        requires
            adjusted(self.memory_limit, base_memory_mb, 1) <= u32::MAX,
        ensures
            r == adjusted(self.memory_limit, base_memory_mb, 1),
    {
        match self.memory_limit {
            Some((multiplier, bonus_mb)) => {
                proof {
                    assert(base_memory_mb * multiplier >= 0) by (nonlinear_arith);
                }
                base_memory_mb * multiplier + bonus_mb
            },
            None => base_memory_mb,
        }
    }
}

/// The time (ms) and memory (MiB) limits of a testcase run: the job's base limits, each
/// adjusted for the language unless the job waives the bonus; nothing when a limit
/// would not fit in 32 bits.
pub fn effective_limits(
    lang: &LanguageConfig,
    time_limit: u32,
    ignore_time_bonus: bool,
    memory_limit: u32,
    ignore_memory_bonus: bool,
) -> (r: Option<(u32, u32)>)
    ensures
        ({
            let t = if ignore_time_bonus {
                time_limit as int
            } else {
                adjusted(lang.time_limit, time_limit, 1000)
            };
            let m = if ignore_memory_bonus {
                memory_limit as int
            } else {
                adjusted(lang.memory_limit, memory_limit, 1)
            };
            match r {
                Some((rt, rm)) => rt == t && rm == m,
                None => t > u32::MAX || m > u32::MAX,
            }
        }),
{
    let t: u128 = if ignore_time_bonus {
        time_limit as u128
    } else {
        match lang.time_limit {
            Some((mul, bonus)) => {
                proof {
                    assert(time_limit * mul <= u32::MAX * u32::MAX) by (nonlinear_arith)
                        requires time_limit <= u32::MAX, mul <= u32::MAX;
                }
                time_limit as u128 * mul as u128 + bonus as u128 * 1000
            },
            None => time_limit as u128,
        }
    };
    let m: u128 = if ignore_memory_bonus {
        memory_limit as u128
    } else {
        match lang.memory_limit {
            Some((mul, bonus)) => {
                proof {
                    assert(memory_limit * mul <= u32::MAX * u32::MAX) by (nonlinear_arith)
                        requires memory_limit <= u32::MAX, mul <= u32::MAX;
                }
                memory_limit as u128 * mul as u128 + bonus as u128
            },
            None => memory_limit as u128,
        }
    };
    if t > u32::MAX as u128 || m > u32::MAX as u128 {
        None
    } else {
        Some((t as u32, m as u32))
    }
}

/// The words of `s`: its maximal runs of characters that are not white space.
pub open spec fn words(s: Seq<char>) -> Seq<Seq<char>>
    decreases s.len(),
{
    if s.len() == 0 {
        Seq::empty()
    } else {
        let w = words(s.drop_last());
        let c = s.last();
        if is_ws(c) {
            w
        } else if s.len() > 1 && !is_ws(s[s.len() - 2]) {
            w.update(w.len() - 1, w.last().push(c))
        } else {
            w.push(seq![c])
        }
    }
}

/// A word continues when the character before is not white space.
proof fn lemma_words_nonempty(s: Seq<char>)
    requires
        s.len() > 0,
        !is_ws(s.last()),
    ensures
        words(s).len() > 0,
        words(s).last().len() > 0,
        words(s).last().last() == s.last(),
    decreases s.len(),
{
    if s.len() > 1 && !is_ws(s[s.len() - 2]) {
        assert(s.drop_last().last() == s[s.len() - 2]);
        lemma_words_nonempty(s.drop_last());
    }
}

/// Splits a command line into its words (`str::split_whitespace`).
#[verifier::rlimit(40)]
pub fn into_command(command: &str) -> (r: Vec<String>)
    ensures
        r@.map_values(|w: String| w@) == words(command@),
{
    let cs = chars_of(command);
    let mut done: Vec<Vec<char>> = Vec::new();
    let mut cur: Vec<char> = Vec::new();
    let mut i: usize = 0;
    proof {
        assert(cs@.take(0) == Seq::<char>::empty());
        assert(views(done@) =~= words(cs@.take(0)));
    }
    while i < cs.len()
        invariant
            i <= cs.len(),
            cur@.len() == 0 ==> views(done@) == words(cs@.take(i as int)) && (i == 0 || is_ws(
                cs@[i - 1],
            )),
            cur@.len() > 0 ==> views(done@).push(cur@) == words(cs@.take(i as int)) && i > 0
                && !is_ws(cs@[i - 1]),
        decreases cs.len() - i,
    {
        let c = cs[i];
        let ghost p = cs@.take(i as int);
        let ghost q = cs@.take(i + 1);
        proof {
            assert(q.drop_last() == p);
            assert(q.last() == c);
        }
        if is_whitespace(c) {
            if cur.len() > 0 {
                let ghost before = done@;
                done.push(cur);
                cur = Vec::new();
                proof {
                    assert(views(done@) =~= views(before).push(views(done@).last()));
                }
            }
        } else {
            let ghost before = cur@;
            proof {
                if before.len() > 0 {
                    assert(q[q.len() - 2] == cs@[i - 1]);
                    lemma_words_nonempty(p);
                    assert(views(done@).push(before.push(c)) =~= words(p).update(
                        words(p).len() - 1,
                        words(p).last().push(c),
                    ));
                } else if i > 0 {
                    assert(q[q.len() - 2] == cs@[i - 1]);
                }
            }
            cur.push(c);
            proof {
                if before.len() > 0 {
                    assert(views(done@).push(cur@) =~= words(q));
                } else {
                    assert(cur@ =~= seq![c]);
                    assert(words(q) == words(p).push(seq![c]));
                    assert(views(done@).push(cur@) =~= words(q));
                }
            }
        }
        i = i + 1;
    }
    proof {
        assert(cs@.take(i as int) == command@);
    }
    if cur.len() > 0 {
        let ghost before = done@;
        done.push(cur);
        proof {
            assert(views(done@) =~= views(before).push(views(done@).last()));
        }
    }
    let mut r: Vec<String> = Vec::new();
    let mut j: usize = 0;
    while j < done.len()
        invariant
            j <= done.len(),
            views(done@) == words(command@),
            r@.map_values(|w: String| w@) == views(done@).take(j as int),
        decreases done.len() - j,
    {
        let s = string_from_chars(done[j].as_slice());
        let ghost before = r@;
        r.push(s);
        proof {
            assert(r@.map_values(|w: String| w@) =~= before.map_values(|w: String| w@).push(
                done@[j as int]@,
            ));
            assert(views(done@).take(j + 1) =~= views(done@).take(j as int).push(
                done@[j as int]@,
            ));
        }
        j = j + 1;
    }
    proof {
        assert(views(done@).take(j as int) =~= views(done@));
    }
    r
}

/// What a language table declares for one language, before its values are read.
#[derive(Debug, Clone)]
pub struct RawLanguageConfig {
    pub name: String,
    pub source_file: String,
    pub compile_command: Option<String>,
    pub run_command: String,
    /// Empty, or the multiplier and the bonus, as text.
    pub time_limit: Vec<String>,
    pub memory_limit: Vec<String>,
    pub aliases: Vec<String>,
}

/// Why a language table was refused.
#[derive(Debug, Clone, Copy, PartialEq, Eq, Structural)]
pub enum LanguageError {
    /// A limit adjustment does not hold exactly two values.
    LimitArity,
    /// A limit adjustment value is not a 32-bit unsigned number.
    LimitValue,
}

/// The adjustment that a limit declaration gives: none when empty, else its two numbers.
pub open spec fn limit_spec(raw: Seq<Seq<char>>) -> Result<Option<(u32, u32)>, LanguageError> {
    if raw.len() == 0 {
        Ok(None)
    } else if raw.len() != 2 {
        Err(LanguageError::LimitArity)
    } else {
        match (parse_u32_spec(raw[0]), parse_u32_spec(raw[1])) {
            (Some(m), Some(b)) => Ok(Some((m, b))),
            _ => Err(LanguageError::LimitValue),
        }
    }
}

/// Reads a limit declaration.
pub fn parse_limit(raw: &Vec<String>) -> (r: Result<Option<(u32, u32)>, LanguageError>)
    ensures
        r == limit_spec(raw@.map_values(|s: String| s@)),
{
    let ghost v = raw@.map_values(|s: String| s@);
    if raw.len() == 0 {
        return Ok(None);
    }
    if raw.len() != 2 {
        return Err(LanguageError::LimitArity);
    }
    let a = chars_of(raw[0].as_str());
    let b = chars_of(raw[1].as_str());
    proof {
        assert(v[0] == raw@[0]@);
        assert(v[1] == raw@[1]@);
    }
    match (parse_u32_chars(&a), parse_u32_chars(&b)) {
        (Some(m), Some(bonus)) => Ok(Some((m, bonus))),
        _ => Err(LanguageError::LimitValue),
    }
}

/// Name for the result of `str::to_lowercase`, which depends on the characters alone.
pub uninterp spec fn lower_of(s: Seq<char>) -> Seq<char>;

/// Relies on `str::to_lowercase`: the lower-case form of `s`.
#[verifier::external_body]
fn lowercase(s: &str) -> (r: String)
    ensures
        r@ == lower_of(s@),
{
    s.to_lowercase()
}

/// The languages, each under its lower-case name and aliases; a later entry under the same
/// name takes precedence.
#[derive(Debug, Clone)]
pub struct LanguageRegistry {
    pub entries: Vec<(String, LanguageConfig)>,
}

/// Index of the last entry named `key`, if any.
pub open spec fn last_named(entries: Seq<(String, LanguageConfig)>, key: Seq<char>) -> Option<int>
    decreases entries.len(),
{
    if entries.len() == 0 {
        None
    } else if entries.last().0@ == key {
        Some(entries.len() - 1)
    } else {
        last_named(entries.drop_last(), key)
    }
}

impl LanguageRegistry {
    pub fn new() -> (r: Self)
        ensures
            r.entries@.len() == 0,
    {
        LanguageRegistry { entries: Vec::new() }
    }

    /// The language registered under exactly `key`.
    pub fn lookup(&self, key: &str) -> (r: Option<&LanguageConfig>)
        ensures
            r == match last_named(self.entries@, key@) {
                Some(i) => Some(&self.entries@[i].1),
                None => None,
            },
    {
        let mut i = self.entries.len();
        proof {
            assert(self.entries@.take(i as int) == self.entries@);
        }
        while i > 0
            invariant
                i <= self.entries.len(),
                last_named(self.entries@, key@) == last_named(self.entries@.take(i as int), key@),
            decreases i,
        {
            let k = chars_of(self.entries[i - 1].0.as_str());
            if crate::text::chars_eq_str(&k, key) {
                proof {
                    assert(self.entries@.take(i as int).last() == self.entries@[i - 1]);
                }
                return Some(&self.entries[i - 1].1);
            }
            proof {
                assert(self.entries@.take(i as int).drop_last() == self.entries@.take(i - 1));
            }
            i = i - 1;
        }
        proof {
            assert(self.entries@.take(0) == Seq::<(String, LanguageConfig)>::empty());
        }
        None
    }
}

/// The language registered under `language`, in any case.
pub fn get_language_config<'a>(registry: &'a LanguageRegistry, language: &str) -> (r: Option<
    &'a LanguageConfig,
>)
    ensures
        r == match last_named(registry.entries@, lower_of(language@)) {
            Some(i) => Some(&registry.entries@[i].1),
            None => None,
        },
{
    let key = lowercase(language);
    registry.lookup(key.as_str())
}

/// The names under which languages are registered.
pub fn get_supported_languages(registry: &LanguageRegistry) -> (r: Vec<String>)
    ensures
        r@.len() == registry.entries@.len(),
        forall|i: int| 0 <= i < r@.len() ==> #[trigger] r@[i]@ == registry.entries@[i].0@,
{
    let mut r: Vec<String> = Vec::new();
    let mut i: usize = 0;
    while i < registry.entries.len()
        invariant
            i <= registry.entries.len(),
            r@.len() == i,
            forall|j: int| 0 <= j < i ==> #[trigger] r@[j]@ == registry.entries@[j].0@,
        decreases registry.entries.len() - i,
    {
        r.push(registry.entries[i].0.clone());
        i = i + 1;
    }
    r
}

/// Whether `c` is the descriptor that `raw` declares: its file name, its commands split
/// into words, and its limit adjustments read.
pub open spec fn describes(raw: RawLanguageConfig, c: LanguageConfig) -> bool {
    &&& c.source_file@ == raw.source_file@
    &&& c.run_command@.map_values(|w: String| w@) == words(raw.run_command@)
    &&& match raw.compile_command {
        Some(cc) => c.compile_command is Some && c.compile_command->0@.map_values(|w: String| w@)
            == words(cc@),
        None => c.compile_command is None,
    }
    &&& limit_spec(raw.time_limit@.map_values(|s: String| s@)) == Ok::<
        Option<(u32, u32)>,
        LanguageError,
    >(c.time_limit)
    &&& limit_spec(raw.memory_limit@.map_values(|s: String| s@)) == Ok::<
        Option<(u32, u32)>,
        LanguageError,
    >(c.memory_limit)
}

/// The entries that one declaration adds: its descriptor under the lower-case form of its
/// name, then under that of each alias.
pub open spec fn entries_of(raw: RawLanguageConfig, es: Seq<(String, LanguageConfig)>) -> bool {
    &&& es.len() == 1 + raw.aliases@.len()
    &&& es[0].0@ == lower_of(raw.name@)
    &&& forall|j: int|
        0 <= j < raw.aliases@.len() ==> #[trigger] es[j + 1].0@ == lower_of(raw.aliases@[j]@)
    &&& forall|j: int| 0 <= j < es.len() ==> describes(raw, #[trigger] es[j].1)
}

/// Whether `entries` holds, in order, the entries of each declaration of `raws`.
pub open spec fn registered(raws: Seq<RawLanguageConfig>, entries: Seq<(String, LanguageConfig)>) -> bool
    decreases raws.len(),
{
    if raws.len() == 0 {
        entries.len() == 0
    } else {
        let k = 1 + raws.last().aliases@.len();
        &&& entries.len() >= k
        &&& registered(raws.drop_last(), entries.take(entries.len() - k))
        &&& entries_of(raws.last(), entries.skip(entries.len() - k))
    }
}

/// The descriptor that a declaration gives.
pub fn language_from_raw(raw: &RawLanguageConfig) -> (r: Result<LanguageConfig, LanguageError>)
    ensures
        match r {
            Ok(c) => describes(*raw, c),
            Err(e) => limit_spec(raw.time_limit@.map_values(|s: String| s@)) == Err::<
                Option<(u32, u32)>,
                LanguageError,
            >(e) || (limit_spec(raw.time_limit@.map_values(|s: String| s@)) is Ok && limit_spec(
                raw.memory_limit@.map_values(|s: String| s@),
            ) == Err::<Option<(u32, u32)>, LanguageError>(e)),
        },
{
    let time_limit = match parse_limit(&raw.time_limit) {
        Ok(t) => t,
        Err(e) => return Err(e),
    };
    let memory_limit = match parse_limit(&raw.memory_limit) {
        Ok(m) => m,
        Err(e) => return Err(e),
    };
    let compile_command = match &raw.compile_command {
        Some(cc) => Some(into_command(cc.as_str())),
        None => None,
    };
    Ok(
        LanguageConfig {
            source_file: raw.source_file.clone(),
            compile_command,
            run_command: into_command(raw.run_command.as_str()),
            time_limit,
            memory_limit,
        },
    )
}

/// Registers `config` under the lower-case form of `name`.
fn register(registry: &mut LanguageRegistry, name: &str, config: LanguageConfig)
    ensures
        final(registry).entries@.len() == old(registry).entries@.len() + 1,
        final(registry).entries@.drop_last() == old(registry).entries@,
        final(registry).entries@.last().0@ == lower_of(name@),
        final(registry).entries@.last().1 == config,
{
    let key = lowercase(name);
    registry.entries.push((key, config));
    proof {
        assert(registry.entries@.drop_last() == old(registry).entries@);
    }
}

/// The registry of a language table: each language under its name and its aliases, all
/// in lower case, in the order of the table; the first malformed declaration refuses
/// the table.
#[verifier::rlimit(40)]
pub fn build_registry(raws: &Vec<RawLanguageConfig>) -> (r: Result<LanguageRegistry, LanguageError>)
    ensures
        r is Ok <==> forall|i: int| 0 <= i < raws@.len() ==> #[trigger] language_from_raw_ok(raws@[i]),
        r matches Ok(reg) ==> registered(raws@, reg.entries@),
{
    let mut registry = LanguageRegistry::new();
    let mut i: usize = 0;
    proof {
        assert(raws@.take(0) =~= Seq::<RawLanguageConfig>::empty());
    }
    while i < raws.len()
        invariant
            i <= raws.len(),
            forall|j: int| 0 <= j < i ==> #[trigger] language_from_raw_ok(raws@[j]),
            registered(raws@.take(i as int), registry.entries@),
        decreases raws.len() - i,
    {
        let raw = &raws[i];
        let config = match language_from_raw(raw) {
            Ok(c) => c,
            Err(e) => {
                proof {
                    assert(!language_from_raw_ok(raws@[i as int]));
                }
                return Err(e);
            },
        };
        let ghost base = registry.entries@;
        proof {
            assert(language_from_raw_ok(*raw));
        }
        register(&mut registry, raw.name.as_str(), config);
        let mut a: usize = 0;
        while a < raw.aliases.len()
            invariant
                a <= raw.aliases.len(),
                i < raws@.len(),
                raw == raws@[i as int],
                language_from_raw_ok(*raw),
                registry.entries@.len() == base.len() + 1 + a,
                registry.entries@.take(base.len() as int) == base,
                registry.entries@[base.len() as int].0@ == lower_of(raw.name@),
                forall|j: int|
                    0 <= j < a ==> #[trigger] registry.entries@[base.len() + 1 + j].0@ == lower_of(
                        raw.aliases@[j]@,
                    ),
                forall|j: int|
                    base.len() <= j < registry.entries@.len() ==> describes(
                        *raw,
                        #[trigger] registry.entries@[j].1,
                    ),
            decreases raw.aliases.len() - a,
        {
            let c = match language_from_raw(raw) {
                Ok(c) => c,
                Err(e) => {
                    return Err(e);
                },
            };
            let ghost before = registry.entries@;
            register(&mut registry, raw.aliases[a].as_str(), c);
            proof {
                assert(registry.entries@.take(base.len() as int) == before.take(base.len() as int));
                assert forall|j: int| 0 <= j < a + 1 implies #[trigger] registry.entries@[base.len() + 1
                    + j].0@ == lower_of(raw.aliases@[j]@) by {
                    if j < a {
                        assert(registry.entries@[base.len() + 1 + j] == before[base.len() + 1 + j]);
                    }
                }
                assert forall|j: int| base.len() <= j < registry.entries@.len() implies describes(
                    *raw,
                    #[trigger] registry.entries@[j].1,
                ) by {
                    if j < before.len() {
                        assert(registry.entries@[j] == before[j]);
                    }
                }
            }
            a = a + 1;
        }
        proof {
            let es = registry.entries@.skip(base.len() as int);
            let t = raws@.take(i + 1);
            assert(t.drop_last() =~= raws@.take(i as int));
            assert(t.last() == *raw);
            assert(registry.entries@.take(registry.entries@.len() - (1 + raw.aliases@.len())) == base);
            assert(es.len() == 1 + raw.aliases@.len());
            assert(es[0] == registry.entries@[base.len() as int]);
            assert forall|j: int| 0 <= j < raw.aliases@.len() implies #[trigger] es[j + 1].0@ == lower_of(
                raw.aliases@[j]@,
            ) by {
                assert(es[j + 1] == registry.entries@[base.len() + 1 + j]);
            }
            assert forall|j: int| 0 <= j < es.len() implies describes(*raw, #[trigger] es[j].1) by {
                assert(es[j] == registry.entries@[base.len() + j]);
            }
            assert(entries_of(*raw, es));
            assert(language_from_raw_ok(raws@[i as int]));
        }
        i = i + 1;
    }
    proof {
        assert(raws@.take(i as int) =~= raws@);
    }
    Ok(registry)
}

/// Whether both limit declarations of `raw` are well formed.
pub open spec fn language_from_raw_ok(raw: RawLanguageConfig) -> bool {
    limit_spec(raw.time_limit@.map_values(|s: String| s@)) is Ok && limit_spec(
        raw.memory_limit@.map_values(|s: String| s@),
    ) is Ok
}

} // verus!
