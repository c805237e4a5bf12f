//! Answers to the agent's permission requests.
use crate::filter::lemma_filter_first;
use crate::json::{
    elements_view, get_member, has_exactly, has_member, has_text, json_ref_view,
    lemma_elements_view, member, Json, JsonObject, JsonView,
};
use crate::text::is_text;
use vstd::prelude::*;

verus! {

broadcast use vstd::string::group_string_axioms;

/// The kind that a permission option names, where it names one.
pub open spec fn kind_of(option: JsonView) -> Option<Seq<char>> {
    option.get_str("kind"@)
}

/// The identifier by which a permission option is selected, where it has one.
pub open spec fn option_id(option: JsonView) -> Option<Seq<char>> {
    option.get_str("optionId"@)
}

/// Whether an option is of a kind that turns the request down.
pub open spec fn is_reject(option: JsonView) -> bool {
    kind_of(option) == Some("reject_once"@) || kind_of(option) == Some("reject_always"@)
}

/// The first option with the property `p`.
pub open spec fn first_where(
    options: Seq<JsonView>,
    p: spec_fn(JsonView) -> bool,
) -> Option<JsonView>
    decreases options.len(),
{
    if options.len() == 0 {
        None
    } else if p(options[0]) {
        Some(options[0])
    } else {
        first_where(options.drop_first(), p)
    }
}

/// The first option of a kind.
pub open spec fn first_of_kind(options: Seq<JsonView>, kind: Seq<char>) -> Option<JsonView> {
    first_where(options, |option: JsonView| kind_of(option) == Some(kind))
}

/// The first option that does not turn the request down.
pub open spec fn first_not_reject(options: Seq<JsonView>) -> Option<JsonView> {
    first_where(options, |option: JsonView| !is_reject(option))
}

/// The most permissive option: the first that allows always, else the first that
/// allows once, else the first that does not turn the request down.
pub open spec fn preferred_option(options: Seq<JsonView>) -> Option<JsonView> {
    if first_of_kind(options, "allow_always"@) is Some {
        first_of_kind(options, "allow_always"@)
    } else if first_of_kind(options, "allow_once"@) is Some {
        first_of_kind(options, "allow_once"@)
    } else {
        first_not_reject(options)
    }
}

/// The identifier of the most permissive option, where there is such an option
/// and it has an identifier.
pub open spec fn best_option(options: Seq<JsonView>) -> Option<Seq<char>> {
    match preferred_option(options) {
        Some(option) => option_id(option),
        None => None,
    }
}

/// The answer that selects the option `id`.
pub open spec fn selected(id: Seq<char>) -> JsonView {
    JsonView::Object(
        map![
            "outcome"@ => JsonView::Object(
                map![
                    "outcome"@ => JsonView::Text("selected"@),
                    "optionId"@ => JsonView::Text(id),
                ],
            ),
        ],
    )
}

/// The answer that selects nothing.
pub open spec fn cancelled() -> JsonView {
    JsonView::Object(
        map![
            "outcome"@ => JsonView::Object(map!["outcome"@ => JsonView::Text("cancelled"@)]),
        ],
    )
}

/// The options that a permission request offers, where it lists any.
pub open spec fn offered_options(params: Option<JsonView>) -> Option<Seq<JsonView>> {
    match member(params, "options"@) {
        Some(options) => options.as_array(),
        None => None,
    }
}

/// The answer to a permission request: the most permissive option, nothing where
/// none can be selected, and `allow_always` where the request lists no options.
pub open spec fn permission_response(params: Option<JsonView>) -> JsonView {
    match offered_options(params) {
        None => selected("allow_always"@),
        Some(options) => match best_option(options) {
            Some(id) => selected(id),
            None => cancelled(),
        },
    }
}

/// The first option of `kind`.
fn find_kind<'a>(options: &'a [Json], kind: &str) -> (found: Option<&'a Json>)
    ensures
        json_ref_view(found) == first_of_kind(elements_view(options@), kind@),
{
    let ghost all = elements_view(options@);
    let ghost p = |option: JsonView| kind_of(option) == Some(kind@);
    let mut i: usize = 0;
    proof {
        lemma_elements_view(options@);
        assert(all.skip(0) =~= all);
    }
    while i < options.len()
        invariant
            0 <= i <= options.len(),
            all == elements_view(options@),
            all.len() == options@.len(),
            forall|j: int| 0 <= j < options@.len() ==> #[trigger] all[j] == options@[j]@,
            p == (|option: JsonView| kind_of(option) == Some(kind@)),
            first_where(all, p) == first_where(all.skip(i as int), p),
        decreases options.len() - i,
    {
        assert(all.skip(i as int)[0] == options@[i as int]@);
        if is_text(options[i].get_str("kind"), kind) {
            return Some(&options[i]);
        }
        proof {
            assert(all.skip(i as int).drop_first() =~= all.skip(i + 1));
        }
        i = i + 1;
    }
    None
}

/// The first option that does not turn the request down.
fn find_not_reject<'a>(options: &'a [Json]) -> (found: Option<&'a Json>)
    ensures
        json_ref_view(found) == first_not_reject(elements_view(options@)),
{
    let ghost all = elements_view(options@);
    let ghost p = |option: JsonView| !is_reject(option);
    let mut i: usize = 0;
    proof {
        lemma_elements_view(options@);
        assert(all.skip(0) =~= all);
    }
    while i < options.len()
        invariant
            0 <= i <= options.len(),
            all == elements_view(options@),
            all.len() == options@.len(),
            forall|j: int| 0 <= j < options@.len() ==> #[trigger] all[j] == options@[j]@,
            p == (|option: JsonView| !is_reject(option)),
            first_where(all, p) == first_where(all.skip(i as int), p),
        decreases options.len() - i,
    {
        assert(all.skip(i as int)[0] == options@[i as int]@);
        let kind = options[i].get_str("kind");
        if !is_text(kind, "reject_once") && !is_text(kind, "reject_always") {
            return Some(&options[i]);
        }
        proof {
            assert(all.skip(i as int).drop_first() =~= all.skip(i + 1));
        }
        i = i + 1;
    }
    None
}

/// Picks the most permissive selectable permission option and returns its
/// identifier: the first option that allows always, else the first that allows
/// once, else the first that does not turn the request down.
pub fn pick_best_option(options: &[Json]) -> (id: Option<String>)
    ensures
        (match id {
            Some(id) => best_option(elements_view(options@)) == Some(id@),
            None => best_option(elements_view(options@)) is None,
        }),
{
    let mut choice = find_kind(options, "allow_always");
    if choice.is_none() {
        choice = find_kind(options, "allow_once");
    }
    if choice.is_none() {
        choice = find_not_reject(options);
    }
    match choice {
        Some(option) => match option.get_str("optionId") {
            Some(id) => Some(id.to_owned()),
            None => None,
        },
        None => None,
    }
}

/// The answer that selects the option `id`.
fn select(id: &str) -> (answer: Json)
    ensures
        answer@ == selected(id@),
{
    let outcome = JsonObject::new().with("outcome", Json::text("selected")).with(
        "optionId",
        Json::text(id),
    );
    Json::Object(JsonObject::new().with("outcome", Json::Object(outcome)))
}

/// Builds the result of the response to a permission request from the request's
/// parameters. A request that lists no options is answered with `allow_always`.
pub fn build_permission_response(params: Option<&Json>) -> (answer: Json)
    ensures
        answer@ == permission_response(json_ref_view(params)),
{
    let options = match get_member(params, "options") {
        Some(options) => options.as_array(),
        None => None,
    };
    match options {
        None => select("allow_always"),
        Some(options) => match pick_best_option(options.as_slice()) {
            Some(id) => select(id.as_str()),
            None => {
                let outcome = JsonObject::new().with("outcome", Json::text("cancelled"));
                Json::Object(JsonObject::new().with("outcome", Json::Object(outcome)))
            },
        },
    }
}

/// The title of the tool call for which a permission request asks, or `?`.
pub open spec fn tool_title(params: Option<JsonView>) -> Seq<char> {
    match member(member(params, "toolCall"@), "title"@) {
        Some(JsonView::Text(title)) => title,
        _ => "?"@,
    }
}

/// The title of the tool call for which a permission request asks, or `?` where it
/// has none.
pub fn permission_title(params: Option<&Json>) -> (title: String)
    ensures
        title@ == tool_title(json_ref_view(params)),
{
    let title = match get_member(get_member(params, "toolCall"), "title") {
        Some(title) => title.as_str(),
        None => None,
    };
    match title {
        Some(title) => title.to_owned(),
        None => "?".to_owned(),
    }
}

/// The first option with a property is an option that has it, and none before it
/// has it; and there is none only where no option has it.
proof fn lemma_first_where(options: Seq<JsonView>, p: spec_fn(JsonView) -> bool)
    ensures
        (match first_where(options, p) {
            Some(option) => exists|i: int|
                0 <= i < options.len() && #[trigger] options[i] == option && p(option) && (forall|
                    j: int,
                |
                    0 <= j < i ==> !p(#[trigger] options[j])),
            None => forall|i: int| 0 <= i < options.len() ==> !p(#[trigger] options[i]),
        }),
    decreases options.len(),
{
    if options.len() > 0 && !p(options[0]) {
        let rest = options.drop_first();
        lemma_first_where(rest, p);
        match first_where(rest, p) {
            Some(option) => {
                let i = choose|i: int|
                    0 <= i < rest.len() && #[trigger] rest[i] == option && p(option) && (forall|
                        j: int,
                    |
                        0 <= j < i ==> !p(#[trigger] rest[j]));
                assert(options[i + 1] == option);
                assert forall|j: int| 0 <= j < i + 1 implies !p(#[trigger] options[j]) by {
                    if j > 0 {
                        assert(rest[j - 1] == options[j]);
                    }
                }
            },
            None => {
                assert forall|i: int| 0 <= i < options.len() implies !p(#[trigger] options[i]) by {
                    if i > 0 {
                        assert(rest[i - 1] == options[i]);
                    }
                }
            },
        }
    }
}

/// An option that turns the request down is never preferred.
pub proof fn rejects_are_never_preferred(options: Seq<JsonView>)
    ensures
        preferred_option(options) matches Some(option) ==> options.contains(option) && !is_reject(
            option,
        ),
{
    reveal_strlit("allow_always");
    reveal_strlit("allow_once");
    reveal_strlit("reject_once");
    reveal_strlit("reject_always");
    lemma_first_where(options, |option: JsonView| kind_of(option) == Some("allow_always"@));
    lemma_first_where(options, |option: JsonView| kind_of(option) == Some("allow_once"@));
    lemma_first_where(options, |option: JsonView| !is_reject(option));
    assert("allow_always"@.len() == 12 && "allow_once"@.len() == 10);
    assert("reject_once"@.len() == 11 && "reject_always"@.len() == 13);
}

/// Where some option allows always, an option that allows always is preferred; else,
/// where some option allows once, one that allows once.
pub proof fn the_most_permissive_is_preferred(options: Seq<JsonView>, i: int)
    requires
        0 <= i < options.len(),
    ensures
        kind_of(options[i]) == Some("allow_always"@) ==> (preferred_option(options) matches Some(
            option,
        ) && kind_of(option) == Some("allow_always"@)),
        kind_of(options[i]) == Some("allow_once"@) ==> (preferred_option(options) matches Some(
            option,
        ) && (kind_of(option) == Some("allow_always"@) || kind_of(option) == Some("allow_once"@))),
{
    lemma_first_where(options, |option: JsonView| kind_of(option) == Some("allow_always"@));
    lemma_first_where(options, |option: JsonView| kind_of(option) == Some("allow_once"@));
}

/// There is an option to prefer exactly where some option does not turn the request
/// down.
pub proof fn an_option_is_preferred_unless_all_reject(options: Seq<JsonView>)
    ensures
        preferred_option(options) is Some <==> exists|i: int|
            0 <= i < options.len() && !is_reject(#[trigger] options[i]),
{
    rejects_are_never_preferred(options);
    lemma_first_where(options, |option: JsonView| !is_reject(option));
}

/// A request whose options all turn it down, or which lists an empty choice, is
/// answered with nothing selected.
pub proof fn rejects_only_are_cancelled(params: Option<JsonView>)
    requires
        offered_options(params) matches Some(options) && forall|i: int|
            0 <= i < options.len() ==> is_reject(#[trigger] options[i]),
    ensures
        permission_response(params) == cancelled(),
{
    an_option_is_preferred_unless_all_reject(offered_options(params)->0);
}

/// What is selected from a list of options is the identifier of one of them that
/// does not turn the request down.
pub proof fn only_offered_options_are_selected(params: Option<JsonView>, id: Seq<char>)
    requires
        offered_options(params) is Some,
        permission_response(params) == selected(id),
    ensures
        exists|i: int|
            0 <= i < offered_options(params)->0.len() && option_id(
                #[trigger] offered_options(params)->0[i],
            ) == Some(id) && !is_reject(offered_options(params)->0[i]),
{
    let options = offered_options(params)->0;
    rejects_are_never_preferred(options);
    lemma_answers_differ(id);
    match best_option(options) {
        Some(best) => {
            lemma_selected_names_its_option(best);
            lemma_selected_names_its_option(id);
            let option = preferred_option(options)->0;
            let i = choose|i: int| 0 <= i < options.len() && options[i] == option;
            assert(options[i] == option);
        },
        None => {},
    }
}

/// The first option with a property is the same among those that have a property
/// that follows from it.
proof fn lemma_first_where_filtered(
    options: Seq<JsonView>,
    p: spec_fn(JsonView) -> bool,
    q: spec_fn(JsonView) -> bool,
)
    requires
        forall|option: JsonView| #[trigger] p(option) ==> q(option),
    ensures
        first_where(options.filter(q), p) == first_where(options, p),
    decreases options.len(),
{
    if options.len() == 0 {
        reveal(Seq::filter);
    } else {
        let rest = options.drop_first();
        lemma_filter_first(options, q);
        lemma_first_where_filtered(rest, p, q);
        let kept = options.filter(q);
        if q(options[0]) {
            assert(kept[0] == options[0]);
            assert(kept.drop_first() =~= rest.filter(q));
        }
    }
}

/// Options that turn the request down never change the choice: it is the one that is
/// made among the others.
pub proof fn rejects_do_not_change_the_choice(options: Seq<JsonView>)
    ensures
        preferred_option(options.filter(|option: JsonView| !is_reject(option)))
            == preferred_option(options),
        best_option(options.filter(|option: JsonView| !is_reject(option))) == best_option(options),
{
    let keep = |option: JsonView| !is_reject(option);
    let always = |option: JsonView| kind_of(option) == Some("allow_always"@);
    let once = |option: JsonView| kind_of(option) == Some("allow_once"@);
    reveal_strlit("allow_always");
    reveal_strlit("allow_once");
    reveal_strlit("reject_once");
    reveal_strlit("reject_always");
    assert("allow_always"@.len() == 12 && "allow_once"@.len() == 10);
    assert("reject_once"@.len() == 11 && "reject_always"@.len() == 13);
    lemma_first_where_filtered(options, always, keep);
    lemma_first_where_filtered(options, once, keep);
    lemma_first_where_filtered(options, keep, keep);
}

/// Two requests whose options differ only in those that turn the request down get
/// the same answer.
pub proof fn rejects_do_not_change_the_answer(first: Option<JsonView>, second: Option<JsonView>)
    requires
        offered_options(first) is Some,
        offered_options(second) is Some,
        offered_options(first)->0.filter(|option: JsonView| !is_reject(option))
            == offered_options(second)->0.filter(|option: JsonView| !is_reject(option)),
    ensures
        permission_response(first) == permission_response(second),
{
    rejects_do_not_change_the_choice(offered_options(first)->0);
    rejects_do_not_change_the_choice(offered_options(second)->0);
}

/// The outcome that an answer reports.
pub open spec fn outcome_of(answer: JsonView) -> Option<JsonView> {
    answer.get("outcome"@)
}

/// The answer that selects an option names it.
proof fn lemma_selected_names_its_option(id: Seq<char>)
    ensures
        member(outcome_of(selected(id)), "optionId"@) == Some(JsonView::Text(id)),
        member(outcome_of(selected(id)), "outcome"@) == Some(JsonView::Text("selected"@)),
{
    reveal_strlit("outcome");
    reveal_strlit("optionId");
    assert("outcome"@.len() == 7 && "optionId"@.len() == 8);
}

/// The answer that selects nothing selects no option.
proof fn lemma_answers_differ(id: Seq<char>)
    ensures
        selected(id) != cancelled(),
{
    lemma_selected_names_its_option(id);
    reveal_strlit("selected");
    reveal_strlit("cancelled");
    assert("selected"@.len() == 8 && "cancelled"@.len() == 9);
    assert(member(outcome_of(cancelled()), "outcome"@) == Some(JsonView::Text("cancelled"@)));
}

/// Whether an answer says that the option `id` is selected, and nothing else.
pub open spec fn reports_selection(answer: JsonView, id: Seq<char>) -> bool {
    &&& has_exactly(answer, set!["outcome"@])
    &&& exists|outcome: JsonView|
        {
            &&& #[trigger] has_member(answer, "outcome"@, outcome)
            &&& has_exactly(outcome, set!["outcome"@, "optionId"@])
            &&& has_text(outcome, "outcome"@, "selected"@)
            &&& has_text(outcome, "optionId"@, id)
        }
}

/// Whether an answer says that nothing is selected, and nothing else.
pub open spec fn reports_cancellation(answer: JsonView) -> bool {
    &&& has_exactly(answer, set!["outcome"@])
    &&& exists|outcome: JsonView|
        {
            &&& #[trigger] has_member(answer, "outcome"@, outcome)
            &&& has_exactly(outcome, set!["outcome"@])
            &&& has_text(outcome, "outcome"@, "cancelled"@)
        }
}

/// Whether the choice among `options` and the answer to a request that offers them are
/// made by `option`: its identifier is selected, and nothing where it has none.
pub open spec fn decides(
    option: JsonView,
    options: Seq<JsonView>,
    params: JsonView,
) -> bool {
    &&& forall|id: Seq<char>|
        has_text(option, "optionId"@, id) ==> best_option(options) == Some(id)
            && #[trigger] reports_selection(permission_response(Some(params)), id)
    &&& (forall|id: Seq<char>| !#[trigger] has_text(option, "optionId"@, id))
        ==> best_option(options) is None && reports_cancellation(permission_response(Some(params)))
}

/// The forms of the two answers.
proof fn lemma_answers(id: Seq<char>)
    ensures
        reports_selection(selected(id), id),
        reports_cancellation(cancelled()),
{
    reveal_strlit("outcome");
    reveal_strlit("optionId");
    assert("outcome"@.len() == 7 && "optionId"@.len() == 8);
    let outcome = JsonView::Object(
        map!["outcome"@ => JsonView::Text("selected"@), "optionId"@ => JsonView::Text(id)],
    );
    assert(outcome->Object_0.dom() =~= set!["outcome"@, "optionId"@]);
    assert(selected(id)->Object_0.dom() =~= set!["outcome"@]);
    assert(has_member(selected(id), "outcome"@, outcome));
    let nothing = JsonView::Object(map!["outcome"@ => JsonView::Text("cancelled"@)]);
    assert(nothing->Object_0.dom() =~= set!["outcome"@]);
    assert(cancelled()->Object_0.dom() =~= set!["outcome"@]);
    assert(has_member(cancelled(), "outcome"@, nothing));
}

/// The preferred option decides.
proof fn lemma_preferred_decides(params: JsonView, options: Seq<JsonView>)
    requires
        has_member(params, "options"@, JsonView::Array(options)),
        preferred_option(options) is Some,
    ensures
        decides(preferred_option(options)->0, options, params),
{
    let option = preferred_option(options)->0;
    assert forall|id: Seq<char>| has_text(option, "optionId"@, id) implies best_option(options)
        == Some(id) && #[trigger] reports_selection(permission_response(Some(params)), id) by {
        lemma_answers(id);
    }
    lemma_answers(Seq::empty());
    if forall|id: Seq<char>| !#[trigger] has_text(option, "optionId"@, id) {
        if best_option(options) is Some {
            assert(has_text(option, "optionId"@, best_option(options)->0));
        }
    }
}

/// The first option with a property is the one before which none has it.
proof fn lemma_first_where_at(options: Seq<JsonView>, p: spec_fn(JsonView) -> bool, i: int)
    requires
        0 <= i < options.len(),
        p(options[i]),
        forall|j: int| 0 <= j < i ==> !p(#[trigger] options[j]),
    ensures
        first_where(options, p) == Some(options[i]),
{
    lemma_first_where(options, p);
    let k = choose|k: int|
        0 <= k < options.len() && #[trigger] options[k] == first_where(options, p)->0 && p(
            first_where(options, p)->0,
        ) && (forall|j: int| 0 <= j < k ==> !p(#[trigger] options[j]));
    assert(first_where(options, p) is Some);
    if k < i {
        assert(!p(options[k]));
    }
    if i < k {
        assert(!p(options[i]));
    }
}

/// The first option of the kind `allow_always` decides, wherever it stands and
/// whatever else is offered.
pub proof fn the_first_allow_always_decides(params: JsonView, options: Seq<JsonView>, i: int)
    requires
        has_member(params, "options"@, JsonView::Array(options)),
        0 <= i < options.len(),
        has_text(options[i], "kind"@, "allow_always"@),
        forall|j: int|
            0 <= j < i ==> !has_text(#[trigger] options[j], "kind"@, "allow_always"@),
    ensures
        decides(options[i], options, params),
{
    let p = |option: JsonView| kind_of(option) == Some("allow_always"@);
    assert forall|j: int| 0 <= j < i implies !p(#[trigger] options[j]) by {
        assert(!has_text(options[j], "kind"@, "allow_always"@));
    }
    lemma_first_where_at(options, p, i);
    lemma_preferred_decides(params, options);
}

/// Where no option is of the kind `allow_always`, the first of the kind `allow_once`
/// decides.
pub proof fn the_first_allow_once_decides(params: JsonView, options: Seq<JsonView>, i: int)
    requires
        has_member(params, "options"@, JsonView::Array(options)),
        0 <= i < options.len(),
        has_text(options[i], "kind"@, "allow_once"@),
        forall|j: int|
            0 <= j < options.len() ==> !has_text(
                #[trigger] options[j],
                "kind"@,
                "allow_always"@,
            ),
        forall|j: int| 0 <= j < i ==> !has_text(#[trigger] options[j], "kind"@, "allow_once"@),
    ensures
        decides(options[i], options, params),
{
    let always = |option: JsonView| kind_of(option) == Some("allow_always"@);
    let once = |option: JsonView| kind_of(option) == Some("allow_once"@);
    lemma_first_where(options, always);
    assert(first_where(options, always) is None) by {
        if first_where(options, always) is Some {
            let k = choose|k: int|
                0 <= k < options.len() && #[trigger] options[k] == first_where(options, always)->0
                    && always(first_where(options, always)->0) && (forall|j: int|
                    0 <= j < k ==> !always(#[trigger] options[j]));
            assert(has_text(options[k], "kind"@, "allow_always"@));
        }
    }
    assert forall|j: int| 0 <= j < i implies !once(#[trigger] options[j]) by {
        assert(!has_text(options[j], "kind"@, "allow_once"@));
    }
    lemma_first_where_at(options, once, i);
    lemma_preferred_decides(params, options);
}

/// Where no option is of the kind `allow_always` or `allow_once`, the first decides
/// that is neither of the kind `reject_once` nor of the kind `reject_always`.
pub proof fn the_first_that_does_not_reject_decides(
    params: JsonView,
    options: Seq<JsonView>,
    i: int,
)
    requires
        has_member(params, "options"@, JsonView::Array(options)),
        0 <= i < options.len(),
        forall|j: int|
            0 <= j < options.len() ==> !has_text(#[trigger] options[j], "kind"@, "allow_always"@)
                && !has_text(options[j], "kind"@, "allow_once"@),
        !has_text(options[i], "kind"@, "reject_once"@),
        !has_text(options[i], "kind"@, "reject_always"@),
        forall|j: int|
            0 <= j < i ==> has_text(#[trigger] options[j], "kind"@, "reject_once"@) || has_text(
                options[j],
                "kind"@,
                "reject_always"@,
            ),
    ensures
        decides(options[i], options, params),
{
    let always = |option: JsonView| kind_of(option) == Some("allow_always"@);
    let once = |option: JsonView| kind_of(option) == Some("allow_once"@);
    let keep = |option: JsonView| !is_reject(option);
    lemma_first_where(options, always);
    lemma_first_where(options, once);
    if first_where(options, always) is Some {
        let k = choose|k: int|
            0 <= k < options.len() && #[trigger] options[k] == first_where(options, always)->0
                && always(first_where(options, always)->0) && (forall|j: int|
                0 <= j < k ==> !always(#[trigger] options[j]));
        assert(has_text(options[k], "kind"@, "allow_always"@));
    }
    if first_where(options, once) is Some {
        let k = choose|k: int|
            0 <= k < options.len() && #[trigger] options[k] == first_where(options, once)->0
                && once(first_where(options, once)->0) && (forall|j: int|
                0 <= j < k ==> !once(#[trigger] options[j]));
        assert(has_text(options[k], "kind"@, "allow_once"@));
    }
    assert(keep(options[i]));
    assert forall|j: int| 0 <= j < i implies !keep(#[trigger] options[j]) by {
        assert(has_text(options[j], "kind"@, "reject_once"@) || has_text(
            options[j],
            "kind"@,
            "reject_always"@,
        ));
    }
    lemma_first_where_at(options, keep, i);
    lemma_preferred_decides(params, options);
}

/// Where every option is of the kind `reject_once` or `reject_always`, and where there
/// is no option, nothing is selected.
pub proof fn nothing_is_selected_where_all_reject(params: JsonView, options: Seq<JsonView>)
    requires
        has_member(params, "options"@, JsonView::Array(options)),
        forall|j: int|
            0 <= j < options.len() ==> has_text(#[trigger] options[j], "kind"@, "reject_once"@)
                || has_text(options[j], "kind"@, "reject_always"@),
    ensures
        best_option(options) is None,
        reports_cancellation(permission_response(Some(params))),
{
    an_option_is_preferred_unless_all_reject(options);
    if preferred_option(options) is Some {
        let k = choose|k: int| 0 <= k < options.len() && !is_reject(#[trigger] options[k]);
        assert(has_text(options[k], "kind"@, "reject_once"@) || has_text(
            options[k],
            "kind"@,
            "reject_always"@,
        ));
    }
    lemma_answers(Seq::empty());
}

/// A request without parameters, or whose parameters hold no array of options, is
/// answered with `allow_always`.
pub proof fn a_request_without_options_is_allowed(params: Option<JsonView>)
    requires
        params matches Some(doc) ==> forall|options: Seq<JsonView>|
            !#[trigger] has_member(doc, "options"@, JsonView::Array(options)),
    ensures
        reports_selection(permission_response(params), "allow_always"@),
{
    lemma_answers("allow_always"@);
    if offered_options(params) is Some {
        assert(has_member(params->0, "options"@, JsonView::Array(offered_options(params)->0)));
    }
}

/// The title of a permission request is the text `toolCall.title` of its parameters,
/// and a question mark where there is no such text.
pub proof fn titles_are_those_of_tool_calls(params: Option<JsonView>, call: JsonView, title: Seq<char>)
    ensures
        params is Some && has_member(params->0, "toolCall"@, call) && has_text(
            call,
            "title"@,
            title,
        ) ==> tool_title(params) == title,
        (forall|c: JsonView, t: Seq<char>|
            !(params is Some && #[trigger] has_member(params->0, "toolCall"@, c)
                && #[trigger] has_text(c, "title"@, t))) ==> tool_title(params) == "?"@,
{
    if let Some(JsonView::Text(t)) = member(member(params, "toolCall"@), "title"@) {
        let c = member(params, "toolCall"@)->0;
        assert(has_member(params->0, "toolCall"@, c) && has_text(c, "title"@, t));
    }
}

} // verus!
