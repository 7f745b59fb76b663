//! Output comparison: line-wise right trim, trailing empty lines ignored.

use vstd::prelude::*;
use crate::text::{
    chars_eq, chars_of, is_ws, lemma_split_lines_nonempty, split_lines, trim_end, trim_end_chars, views,
};

verus! {

/// `ls` without the empty lines at its end.
pub open spec fn drop_trailing_empty(ls: Seq<Seq<char>>) -> Seq<Seq<char>>
    decreases ls.len(),
{
    if ls.len() > 0 && ls.last().len() == 0 {
        drop_trailing_empty(ls.drop_last())
    } else {
        ls
    }
}

/// Each line without its trailing white space.
pub open spec fn trim_all(ls: Seq<Seq<char>>) -> Seq<Seq<char>> {
    ls.map_values(|l: Seq<char>| trim_end(l))
}

/// The lines of `s`, each without trailing white space, without trailing empty lines.
pub open spec fn normalize_output(s: Seq<char>) -> Seq<Seq<char>> {
    drop_trailing_empty(trim_all(split_lines(s)))
}

/// Whether two outputs are equal once normalised.
pub open spec fn outputs_match(actual: Seq<char>, expected: Seq<char>) -> bool {
    normalize_output(actual) == normalize_output(expected)
}

/// The normalised lines of `s`.
#[verifier::rlimit(40)]
pub fn normalized_lines(s: &str) -> (r: Vec<Vec<char>>)
    ensures
        views(r@) == normalize_output(s@),
{
    let cs = chars_of(s);
    let mut lines: Vec<Vec<char>> = Vec::new();
    let mut cur: Vec<char> = Vec::new();
    let mut i: usize = 0;
    proof {
        assert(cs@.take(0) == Seq::<char>::empty());
        assert(views(lines@) == trim_all(split_lines(cs@.take(0)).drop_last()));
    }
    while i < cs.len()
        invariant
            i <= cs.len(),
            views(lines@) == trim_all(split_lines(cs@.take(i as int)).drop_last()),
            cur@ == split_lines(cs@.take(i as int)).last(),
        decreases cs.len() - i,
    {
        let ghost p = cs@.take(i as int);
        let ghost q = cs@.take(i + 1);
        proof {
            assert(q.drop_last() == p);
            lemma_split_lines_nonempty(p);
        }
        if cs[i] == '\n' {
            let t = trim_end_chars(&cur);
            let ghost old_lines = lines@;
            lines.push(t);
            cur = Vec::new();
            proof {
                assert(views(lines@) =~= views(old_lines).push(trim_end(split_lines(p).last())));
                assert(trim_all(split_lines(p)) =~= trim_all(split_lines(p).drop_last()).push(
                    trim_end(split_lines(p).last()),
                ));
                assert(split_lines(q) == split_lines(p).push(Seq::empty()));
                assert(split_lines(q).drop_last() == split_lines(p));
                assert(split_lines(p) == split_lines(p).drop_last().push(split_lines(p).last()));
                assert(views(lines@) =~= trim_all(split_lines(q).drop_last()));
            }
        } else {
            cur.push(cs[i]);
            proof {
                let sp = split_lines(p);
                assert(split_lines(q) == sp.update(sp.len() - 1, sp.last().push(cs@[i as int])));
                assert(split_lines(q).drop_last() == sp.drop_last());
            }
        }
        i = i + 1;
    }
    proof {
        assert(cs@.take(i as int) == s@);
        lemma_split_lines_nonempty(s@);
    }
    let t = trim_end_chars(&cur);
    let ghost old_lines = lines@;
    lines.push(t);
    proof {
        let sl = split_lines(s@);
        assert(views(lines@) =~= views(old_lines).push(trim_end(sl.last())));
        assert(trim_all(sl) =~= trim_all(sl.drop_last()).push(trim_end(sl.last())));
        assert(sl == sl.drop_last().push(sl.last()));
        assert(views(lines@) =~= trim_all(sl));
    }
    while lines.len() > 0 && lines[lines.len() - 1].len() == 0
        invariant
            drop_trailing_empty(views(lines@)) == normalize_output(s@),
        decreases lines.len(),
    {
        proof {
            assert(views(lines@).last() == lines@.last()@);
            assert(views(lines@).drop_last() =~= views(lines@.drop_last()));
        }
        lines.pop();
    }
    lines
}

/// Compares a program's output with the expected output, ignoring white space at line ends
/// and empty lines at the end.
pub fn compare_output(actual: &str, expected: &str) -> (r: bool)
    ensures
        r == outputs_match(actual@, expected@),
{
    let a = normalized_lines(actual);
    let b = normalized_lines(expected);
    if a.len() != b.len() {
        proof {
            assert(views(a@).len() == a.len());
            assert(views(b@).len() == b.len());
        }
        return false;
    }
    let mut i: usize = 0;
    while i < a.len()
        invariant
            a.len() == b.len(),
            i <= a.len(),
            views(a@).take(i as int) == views(b@).take(i as int),
            views(a@) == normalize_output(actual@),
            views(b@) == normalize_output(expected@),
        decreases a.len() - i,
    {
        if !chars_eq(&a[i], &b[i]) {
            proof {
                assert(views(a@)[i as int] != views(b@)[i as int]);
            }
            return false;
        }
        proof {
            assert(views(a@).take(i + 1) == views(a@).take(i as int).push(views(a@)[i as int]));
            assert(views(b@).take(i + 1) == views(b@).take(i as int).push(views(b@)[i as int]));
        }
        i = i + 1;
    }
    proof {
        assert(views(a@) == views(a@).take(i as int));
        assert(views(b@) == views(b@).take(i as int));
    }
    true
}

/// Comparison ignores a final line feed and white space before a line feed:
/// every output matches itself, itself followed by a line feed, and itself
/// followed by two spaces and a line feed matches itself followed by a line feed.
#[verifier::rlimit(40)]
pub proof fn lemma_compare_output_laws(s: Seq<char>)
    ensures
        outputs_match(s, s),
        outputs_match(s, s.push('\n')),
        outputs_match(s + seq![' ', ' ', '\n'], s.push('\n')),
{
    lemma_split_lines_nonempty(s);
    let sl = split_lines(s);
    // a line feed adds an empty last line
    assert(s.push('\n').drop_last() == s);
    assert(split_lines(s.push('\n')) == sl.push(Seq::empty()));
    assert(trim_all(sl.push(Seq::empty())) =~= trim_all(sl).push(trim_end(Seq::empty())));
    assert(trim_all(sl).push(Seq::<char>::empty()).drop_last() =~= trim_all(sl));
    assert(drop_trailing_empty(trim_all(sl).push(Seq::<char>::empty())) == drop_trailing_empty(
        trim_all(sl),
    ));
    // two spaces before it extend the last line with white space only
    let t1 = s.push(' ');
    let t2 = t1.push(' ');
    let t3 = t2.push('\n');
    assert(s + seq![' ', ' ', '\n'] == t3);
    assert(t3.drop_last() == t2);
    assert(t2.drop_last() == t1);
    assert(t1.drop_last() == s);
    lemma_split_lines_nonempty(t1);
    let last = sl.last();
    assert(split_lines(t1) == sl.update(sl.len() - 1, last.push(' ')));
    assert(split_lines(t2) == sl.update(sl.len() - 1, last.push(' ').push(' ')));
    assert(last.push(' ').push(' ').drop_last() == last.push(' '));
    assert(last.push(' ').drop_last() == last);
    assert(is_ws(' '));
    assert(trim_end(last.push(' ')) == trim_end(last));
    assert(trim_end(last.push(' ').push(' ')) == trim_end(last));
    assert(trim_all(split_lines(t2)) =~= trim_all(sl));
    assert(split_lines(t3) == split_lines(t2).push(Seq::empty()));
    assert(trim_all(split_lines(t3)) =~= trim_all(split_lines(t2)).push(
        trim_end(Seq::empty()),
    ));
}

} // verus!
