//! Text helpers.
use vstd::prelude::*;

verus! {

broadcast use vstd::string::group_string_axioms;

/// The characters of an optional text.
pub open spec fn text_view(text: Option<String>) -> Option<Seq<char>> {
    match text {
        Some(text) => Some(text@),
        None => None,
    }
}

/// Whether two texts hold the same characters.
pub fn same_text(a: &str, b: &str) -> (same: bool)
    ensures
        same == (a@ == b@),
{
    a.to_owned() == b.to_owned()
}

/// Whether an optional text is there and holds the characters of `expected`.
pub fn is_text(text: Option<&str>, expected: &str) -> (same: bool)
    ensures
        same == (text is Some && text->0@ == expected@),
{
    match text {
        Some(text) => same_text(text, expected),
        None => false,
    }
}

/// Whether a character is white space, by the Unicode property `White_Space`.
pub open spec fn is_white_space(c: char) -> bool {
    let code = c as u32;
    ||| 0x09 <= code <= 0x0d
    ||| code == 0x20
    ||| code == 0x85
    ||| code == 0xa0
    ||| code == 0x1680
    ||| 0x2000 <= code <= 0x200a
    ||| code == 0x2028
    ||| code == 0x2029
    ||| code == 0x202f
    ||| code == 0x205f
    ||| code == 0x3000
}

/// Whether a character is a control code, by the Unicode category `Cc`.
pub open spec fn is_control_code(c: char) -> bool {
    let code = c as u32;
    code <= 0x1f || 0x7f <= code <= 0x9f
}

/// Whether a character is a control code.
pub fn is_control(c: char) -> (control: bool)
    ensures
        control == is_control_code(c),
{
    let code: u32 = c as u32;
    code <= 0x1f || (0x7f <= code && code <= 0x9f)
}

/// A text without the white space at its start.
pub open spec fn trimmed_start(text: Seq<char>) -> Seq<char>
    decreases text.len(),
{
    if text.len() > 0 && is_white_space(text.first()) {
        trimmed_start(text.drop_first())
    } else {
        text
    }
}

/// A text without the white space at its end.
pub open spec fn trimmed_end(text: Seq<char>) -> Seq<char>
    decreases text.len(),
{
    if text.len() > 0 && is_white_space(text.last()) {
        trimmed_end(text.drop_last())
    } else {
        text
    }
}

/// A text without the white space at its start and at its end.
pub open spec fn trimmed(text: Seq<char>) -> Seq<char> {
    trimmed_end(trimmed_start(text))
}

/// `str::trim` returns the text without the characters of the Unicode property
/// `White_Space` at its start and at its end.
pub assume_specification<'a>[ str::trim ](text: &'a str) -> (result: &'a str)
    ensures
        result@ == trimmed(text@),
;

/// `String::push` adds a character at the end of a text.
pub assume_specification[ String::push ](text: &mut String, c: char)
    ensures
        final(text)@ == old(text)@.push(c),
;

/// White space is what Unicode says it is, one character after the other.
pub proof fn white_space_is_that_of_unicode(c: char)
    ensures
        is_white_space(c) <==> {
            ||| c == '\u{9}' || c == '\u{a}' || c == '\u{b}' || c == '\u{c}' || c == '\u{d}'
            ||| c == ' ' || c == '\u{85}' || c == '\u{a0}' || c == '\u{1680}'
            ||| c == '\u{2000}' || c == '\u{2001}' || c == '\u{2002}' || c == '\u{2003}'
            ||| c == '\u{2004}' || c == '\u{2005}' || c == '\u{2006}' || c == '\u{2007}'
            ||| c == '\u{2008}' || c == '\u{2009}' || c == '\u{200a}' || c == '\u{2028}'
            ||| c == '\u{2029}' || c == '\u{202f}' || c == '\u{205f}' || c == '\u{3000}'
        },
{
}

/// A control code is a character before the space, or one from the delete character
/// to the end of the second block of control codes.
pub proof fn control_codes_are_those_of_unicode(c: char)
    ensures
        is_control_code(c) <==> (c as u32) < (' ' as u32) || ('\u{7f}' as u32 <= c as u32 && (
        c as u32) < ('\u{a0}' as u32)),
{
}

/// An optional text is known by its characters.
pub proof fn optional_texts_are_known_by_their_characters(text: Option<String>)
    ensures
        text is None <==> text_view(text) is None,
        text is Some ==> text_view(text) == Some(text->0@),
{
}

/// Trimming takes all white space from both ends of a text, and nothing else.
pub proof fn trimming_takes_white_space_from_both_ends(
    lead: Seq<char>,
    core: Seq<char>,
    trail: Seq<char>,
)
    requires
        forall|i: int| 0 <= i < lead.len() ==> is_white_space(#[trigger] lead[i]),
        forall|i: int| 0 <= i < trail.len() ==> is_white_space(#[trigger] trail[i]),
        core.len() > 0 ==> !is_white_space(core.first()) && !is_white_space(core.last()),
    ensures
        trimmed(lead + core + trail) == core,
{
    lemma_trimmed_start(lead, core + trail);
    assert(lead + core + trail =~= lead + (core + trail));
    if core.len() > 0 {
        assert((core + trail).first() == core.first());
        assert(trimmed_start(core + trail) == core + trail);
        lemma_trimmed_end(core, trail);
    } else {
        assert(core + trail =~= trail + core);
        lemma_trimmed_start(trail, core);
        assert(trimmed_start(core) == core);
        assert(trimmed_end(core) == core);
    }
}

/// White space at the start of a text is taken away.
proof fn lemma_trimmed_start(lead: Seq<char>, rest: Seq<char>)
    requires
        forall|i: int| 0 <= i < lead.len() ==> is_white_space(#[trigger] lead[i]),
    ensures
        trimmed_start(lead + rest) == trimmed_start(rest),
    decreases lead.len(),
{
    if lead.len() == 0 {
        assert(lead + rest =~= rest);
    } else {
        lemma_trimmed_start(lead.drop_first(), rest);
        assert((lead + rest).first() == lead[0]);
        assert((lead + rest).drop_first() =~= lead.drop_first() + rest);
    }
}

/// White space at the end of a text is taken away, up to another character.
proof fn lemma_trimmed_end(rest: Seq<char>, trail: Seq<char>)
    requires
        forall|i: int| 0 <= i < trail.len() ==> is_white_space(#[trigger] trail[i]),
        rest.len() > 0,
        !is_white_space(rest.last()),
    ensures
        trimmed_end(rest + trail) == rest,
    decreases trail.len(),
{
    if trail.len() == 0 {
        assert(rest + trail =~= rest);
    } else {
        assert((rest + trail).last() == trail[trail.len() - 1]);
        lemma_trimmed_end(rest, trail.drop_last());
        assert((rest + trail).drop_last() =~= rest + trail.drop_last());
    }
}

} // verus!
