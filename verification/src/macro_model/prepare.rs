//! Composition of a rendered macro netlist with a testbench source.
use vstd::prelude::*;
use vstd::string::*;

use crate::text::{char_is_whitespace, is_whitespace_char};

verus! {

/// Length of a text once trailing whitespace is removed.
pub open spec fn trim_end_len(s: Seq<char>) -> nat
    decreases s.len(),
{
    if s.len() > 0 && is_whitespace_char(s.last()) {
        trim_end_len(s.drop_last())
    } else {
        s.len()
    }
}

/// Number of leading whitespace characters.
pub open spec fn trim_start_len(s: Seq<char>) -> nat
    decreases s.len(),
{
    if s.len() > 0 && is_whitespace_char(s[0]) {
        1 + trim_start_len(s.drop_first())
    } else {
        0
    }
}

/// The text without trailing whitespace (`str::trim_end`).
pub open spec fn trim_end(s: Seq<char>) -> Seq<char> {
    s.take(trim_end_len(s) as int)
}

/// The text without leading whitespace (`str::trim_start`).
pub open spec fn trim_start(s: Seq<char>) -> Seq<char> {
    s.skip(trim_start_len(s) as int)
}

/// The text without leading and trailing whitespace (`str::trim`).
pub open spec fn trim(s: Seq<char>) -> Seq<char> {
    trim_start(trim_end(s))
}

/// The composed source: the macro source without trailing whitespace, a
/// line break when it is not empty, a `* testbench NAME` comment line, then
/// the trimmed testbench source and a final line break.
pub open spec fn composed(source: Seq<char>, name: Seq<char>, testbench: Seq<char>) -> Seq<char> {
    let head = trim_end(source);
    let sep = if head.len() > 0 {
        seq!['\n']
    } else {
        Seq::<char>::empty()
    };
    head + sep + "* testbench "@ + name + seq!['\n'] + trim(testbench) + seq!['\n']
}

proof fn lemma_trim_end_len_bound(s: Seq<char>)
    ensures
        trim_end_len(s) <= s.len(),
    decreases s.len(),
{
    if s.len() > 0 && is_whitespace_char(s.last()) {
        lemma_trim_end_len_bound(s.drop_last());
    }
}

proof fn lemma_trim_start_len_bound(s: Seq<char>)
    ensures
        trim_start_len(s) <= s.len(),
    decreases s.len(),
{
    if s.len() > 0 && is_whitespace_char(s[0]) {
        lemma_trim_start_len_bound(s.drop_first());
    }
}

/// Returns the number of characters left once trailing whitespace is
/// removed.
fn trimmed_end(s: &str) -> (end: usize)
    ensures
        end == trim_end_len(s@),
{
    let mut end = s.unicode_len();
    assert(s@.take(end as int) =~= s@);
    while end > 0 && char_is_whitespace(s.get_char(end - 1))
        invariant
            end <= s@.len(),
            trim_end_len(s@) == trim_end_len(s@.take(end as int)),
        decreases end,
    {
        proof {
            let t = s@.take(end as int);
            assert(t.drop_last() =~= s@.take(end - 1));
            assert(t.last() == s@[end - 1]);
        }
        end = end - 1;
    }
    end
}

/// Returns the number of leading whitespace characters among the first
/// `end`.
fn trimmed_start(s: &str, end: usize) -> (start: usize)
    requires
        end <= s@.len(),
    ensures
        start == trim_start_len(s@.take(end as int)),
{
    let ghost t = s@.take(end as int);
    let mut start: usize = 0;
    assert(t.skip(0) =~= t);
    while start < end && char_is_whitespace(s.get_char(start))
        invariant
            start <= end,
            end <= s@.len(),
            t == s@.take(end as int),
            trim_start_len(t) == start + trim_start_len(t.skip(start as int)),
        decreases end - start,
    {
        proof {
            let u = t.skip(start as int);
            assert(u[0] == s@[start as int]);
            assert(u.drop_first() =~= t.skip(start + 1));
        }
        start = start + 1;
    }
    proof {
        let u = t.skip(start as int);
        if start < end {
            assert(u[0] == s@[start as int]);
        } else {
            assert(u.len() == 0);
        }
    }
    start
}

/// Appends a testbench to a rendered macro netlist, separated by a comment
/// line that names the testbench.
pub fn compose_sources(source: String, testbench_name: &str, testbench_source: &str) -> (composed_source: String)
    ensures
        composed_source@ == composed(source@, testbench_name@, testbench_source@),
{
    let end = trimmed_end(source.as_str());
    proof {
        lemma_trim_end_len_bound(source@);
    }
    let mut text = String::from_str(source.as_str().substring_char(0, end));
    assert(text@ == trim_end(source@));
    if end > 0 {
        text.append("\n");
    }
    text.append("* testbench ");
    text.append(testbench_name);
    text.append("\n");
    let tb_end = trimmed_end(testbench_source);
    proof {
        lemma_trim_end_len_bound(testbench_source@);
    }
    let tb_start = trimmed_start(testbench_source, tb_end);
    proof {
        lemma_trim_start_len_bound(testbench_source@.take(tb_end as int));
    }
    let body = testbench_source.substring_char(tb_start, tb_end);
    text.append(body);
    text.append("\n");
    proof {
        reveal_strlit("\n");
        reveal_strlit("* testbench ");
        let tb = testbench_source@;
        assert(body@ =~= trim(tb));
        let head = trim_end(source@);
        if end > 0 {
            assert(text@ =~= head + seq!['\n'] + "* testbench "@ + testbench_name@ + seq!['\n'] + trim(tb) + seq!['\n']);
        } else {
            assert(text@ =~= head + Seq::<char>::empty() + "* testbench "@ + testbench_name@ + seq!['\n'] + trim(tb) + seq!['\n']);
        }
    }
    text
}

} // verus!
