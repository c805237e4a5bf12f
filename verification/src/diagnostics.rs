//! What an agent writes to its error output, made fit for a log.
use crate::filter::{
    lemma_filter_has, lemma_filter_none, lemma_filter_same, lemma_filter_step,
};
use crate::text::{
    is_control, is_control_code, is_white_space, trimmed, trimming_takes_white_space_from_both_ends,
};
use vstd::prelude::*;

verus! {

broadcast use vstd::string::group_string_axioms;

/// Whether a character stays in a log.
pub open spec fn is_loggable(c: char) -> bool {
    !is_control_code(c) || c == '\t'
}

/// A line of the error output as it is logged: without the white space around it,
/// and without control codes other than tabs.
pub open spec fn logged(line: Seq<char>) -> Seq<char> {
    trimmed(line).filter(|c: char| is_loggable(c))
}

/// Makes a line of an agent's error output fit for a log: the white space around
/// it and control codes other than tabs are removed. There is nothing to log where
/// nothing is left.
pub fn sanitize_stderr_line(line: &str) -> (entry: Option<String>)
    ensures
        (match entry {
            Some(entry) => entry@ == logged(line@) && entry@.len() > 0,
            None => logged(line@).len() == 0,
        }),
{
    let text = line.trim();
    let ghost keep = |c: char| is_loggable(c);
    let mut sanitized = String::new();
    proof {
        lemma_filter_none(text@, keep);
    }
    for c in it: text.chars()
        invariant
            it.seq() == text@,
            keep == (|c: char| is_loggable(c)),
            sanitized@ == text@.take(it.index() as int).filter(keep),
    {
        proof {
            lemma_filter_step(text@, it.index() as int, keep);
        }
        if !is_control(c) || c == '\t' {
            sanitized.push(c);
        }
    }
    proof {
        assert(text@.take(text@.len() as int) =~= text@);
    }
    if sanitized.as_str().is_empty() {
        None
    } else {
        Some(sanitized)
    }
}

/// Nothing that is logged holds a control code other than a tab.
pub proof fn log_entries_hold_no_control_codes(line: Seq<char>)
    ensures
        forall|i: int|
            0 <= i < logged(line).len() ==> !is_control_code(#[trigger] logged(line)[i])
                || logged(line)[i] == '\t',
{
    lemma_filter_has(trimmed(line), |c: char| is_loggable(c));
}

/// What is logged of a line are, in their order, the characters between the white
/// space around it that are tabs or no control codes.
pub proof fn tabs_and_visible_characters_are_logged(
    lead: Seq<char>,
    core: Seq<char>,
    trail: Seq<char>,
)
    requires
        forall|i: int| 0 <= i < lead.len() ==> is_white_space(#[trigger] lead[i]),
        forall|i: int| 0 <= i < trail.len() ==> is_white_space(#[trigger] trail[i]),
        core.len() > 0 ==> !is_white_space(core.first()) && !is_white_space(core.last()),
    ensures
        logged(lead + core + trail) == core.filter(
            |c: char|
                c == '\t' || !((c as u32) < (' ' as u32) || ('\u{7f}' as u32 <= c as u32 && (
                c as u32) < ('\u{a0}' as u32))),
        ),
{
    trimming_takes_white_space_from_both_ends(lead, core, trail);
    lemma_filter_same(
        core,
        |c: char| is_loggable(c),
        |c: char|
            c == '\t' || !((c as u32) < (' ' as u32) || ('\u{7f}' as u32 <= c as u32 && (c as u32)
                < ('\u{a0}' as u32))),
    );
}

} // verus!
