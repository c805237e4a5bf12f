//! What an agent advertises of itself when the connection is initialized.
use crate::json::{get_member, has_member, has_text, json_ref_view, member, Json, JsonView};
use vstd::prelude::*;

verus! {

broadcast use vstd::string::group_string_axioms;

/// Whether an optional document is the truth value `true`.
pub open spec fn is_true(doc: Option<JsonView>) -> bool {
    doc == Some(JsonView::Bool(true))
}

/// What an `initialize` result says of the prompt capability `name`.
pub open spec fn prompt_capability(result: Option<JsonView>, name: Seq<char>) -> Option<JsonView> {
    member(member(member(result, "agentCapabilities"@), "promptCapabilities"@), name)
}

/// What an `initialize` result says of the agent's ability to load sessions.
pub open spec fn load_session_capability(result: Option<JsonView>) -> Option<JsonView> {
    member(member(result, "agentCapabilities"@), "loadSession"@)
}

/// The name by which an agent introduces itself, or `unknown`.
pub open spec fn agent_name_of(result: Option<JsonView>) -> Seq<char> {
    match member(member(result, "agentInfo"@), "name"@) {
        Some(JsonView::Text(name)) => name,
        _ => "unknown"@,
    }
}

/// Whether a flag is there and is the truth value `true`.
fn read_flag(flag: Option<&Json>) -> (on: bool)
    ensures
        on == is_true(json_ref_view(flag)),
{
    match flag {
        Some(flag) => match flag.as_bool() {
            Some(on) => on,
            None => false,
        },
        None => false,
    }
}

/// Reads `agentCapabilities.promptCapabilities.image` from an `initialize`
/// result: true only where the flag is there and is the truth value `true`.
pub fn parse_supports_image(result: Option<&Json>) -> (supported: bool)
    ensures
        supported == is_true(prompt_capability(json_ref_view(result), "image"@)),
{
    let capabilities = get_member(result, "agentCapabilities");
    read_flag(get_member(get_member(capabilities, "promptCapabilities"), "image"))
}

/// Reads `agentCapabilities.promptCapabilities.document` from an `initialize`
/// result: true only where the flag is there and is the truth value `true`.
pub fn parse_supports_document(result: Option<&Json>) -> (supported: bool)
    ensures
        supported == is_true(prompt_capability(json_ref_view(result), "document"@)),
{
    let capabilities = get_member(result, "agentCapabilities");
    read_flag(get_member(get_member(capabilities, "promptCapabilities"), "document"))
}

/// Reads `agentCapabilities.loadSession` from an `initialize` result: true only
/// where the flag is there and is the truth value `true`.
pub fn parse_supports_load_session(result: Option<&Json>) -> (supported: bool)
    ensures
        supported == is_true(load_session_capability(json_ref_view(result))),
{
    read_flag(get_member(get_member(result, "agentCapabilities"), "loadSession"))
}

/// Reads `agentInfo.name` from an `initialize` result, or `unknown` where it is
/// not there or is no text.
pub fn parse_agent_name(result: Option<&Json>) -> (name: String)
    ensures
        name@ == agent_name_of(json_ref_view(result)),
{
    let name = match get_member(get_member(result, "agentInfo"), "name") {
        Some(name) => name.as_str(),
        None => None,
    };
    match name {
        Some(name) => name.to_owned(),
        None => "unknown".to_owned(),
    }
}

/// Whether the document `result` advertises the prompt capability `name`: its member
/// `agentCapabilities` has a member `promptCapabilities`, and that has the member
/// `name` with the truth value `true`.
pub open spec fn advertises_prompts(result: JsonView, name: Seq<char>) -> bool {
    exists|agent: JsonView, prompt: JsonView|
        {
            &&& #[trigger] has_member(result, "agentCapabilities"@, agent)
            &&& #[trigger] has_member(agent, "promptCapabilities"@, prompt)
            &&& has_member(prompt, name, JsonView::Bool(true))
        }
}

/// Whether the document `result` advertises that sessions can be loaded: its member
/// `agentCapabilities` has the member `loadSession` with the truth value `true`.
pub open spec fn advertises_loading(result: JsonView) -> bool {
    exists|agent: JsonView|
        {
            &&& #[trigger] has_member(result, "agentCapabilities"@, agent)
            &&& has_member(agent, "loadSession"@, JsonView::Bool(true))
        }
}

/// A capability is taken exactly where the result of `initialize` advertises it, and
/// never without a result.
pub proof fn capabilities_are_taken_where_advertised(result: Option<JsonView>, name: Seq<char>)
    ensures
        is_true(prompt_capability(result, name)) <==> result is Some && advertises_prompts(
            result->0,
            name,
        ),
        is_true(load_session_capability(result)) <==> result is Some && advertises_loading(
            result->0,
        ),
{
    let agent = member(result, "agentCapabilities"@);
    let prompt = member(agent, "promptCapabilities"@);
    if is_true(prompt_capability(result, name)) {
        assert(has_member(result->0, "agentCapabilities"@, agent->0));
        assert(has_member(agent->0, "promptCapabilities"@, prompt->0));
    }
    if is_true(load_session_capability(result)) {
        assert(has_member(result->0, "agentCapabilities"@, agent->0));
    }
}

/// An agent has the name that the text `agentInfo.name` of the result gives, and is
/// unknown where there is no such text.
pub proof fn agents_are_named_by_their_info(
    result: Option<JsonView>,
    info: JsonView,
    name: Seq<char>,
)
    ensures
        result is Some && has_member(result->0, "agentInfo"@, info) && has_text(
            info,
            "name"@,
            name,
        ) ==> agent_name_of(result) == name,
        (forall|i: JsonView, n: Seq<char>|
            !(result is Some && #[trigger] has_member(result->0, "agentInfo"@, i)
                && #[trigger] has_text(i, "name"@, n))) ==> agent_name_of(result) == "unknown"@,
{
    if let Some(JsonView::Text(n)) = member(member(result, "agentInfo"@), "name"@) {
        let i = member(result, "agentInfo"@)->0;
        assert(has_member(result->0, "agentInfo"@, i) && has_text(i, "name"@, n));
    }
}

} // verus!
