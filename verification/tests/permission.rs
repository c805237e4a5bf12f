use openab_core::json::{Json, JsonObject, Number};
use openab_core::permission::{build_permission_response, permission_title, pick_best_option};

fn text(s: &str) -> Json {
    Json::text(s)
}

fn option(kind: &str, id: &str) -> Json {
    Json::Object(
        JsonObject::new()
            .with("kind", text(kind))
            .with("optionId", text(id)),
    )
}

fn option_id_first(id: &str, kind: &str) -> Json {
    Json::Object(
        JsonObject::new()
            .with("optionId", text(id))
            .with("kind", text(kind)),
    )
}

fn params(options: Vec<Json>) -> Json {
    Json::Object(JsonObject::new().with("options", Json::Array(options)))
}

fn selected(id: &str) -> Json {
    let outcome = JsonObject::new()
        .with("outcome", text("selected"))
        .with("optionId", text(id));
    Json::Object(JsonObject::new().with("outcome", Json::Object(outcome)))
}

fn cancelled() -> Json {
    let outcome = JsonObject::new().with("outcome", text("cancelled"));
    Json::Object(JsonObject::new().with("outcome", Json::Object(outcome)))
}

#[test]
fn picks_allow_always_over_other_options() {
    let options = vec![
        option("allow_once", "once"),
        option("allow_always", "always"),
        option("reject_once", "reject"),
    ];

    assert_eq!(pick_best_option(&options), Some("always".to_string()));
}

#[test]
fn falls_back_to_first_unknown_non_reject_kind() {
    let options = vec![
        option("reject_once", "reject"),
        option("workspace_write", "workspace-write"),
    ];

    assert_eq!(
        pick_best_option(&options),
        Some("workspace-write".to_string())
    );
}

#[test]
fn selects_bypass_permissions_for_exit_plan_mode() {
    let options = vec![
        option_id_first("bypassPermissions", "allow_always"),
        option_id_first("acceptEdits", "allow_always"),
        option_id_first("default", "allow_once"),
        option_id_first("plan", "reject_once"),
    ];

    assert_eq!(
        pick_best_option(&options),
        Some("bypassPermissions".to_string())
    );
}

#[test]
fn returns_none_when_only_reject_options_exist() {
    let options = vec![
        option("reject_once", "reject-once"),
        option("reject_always", "reject-always"),
    ];

    assert_eq!(pick_best_option(&options), None);
}

#[test]
fn builds_cancelled_outcome_when_no_selectable_option_exists() {
    let response =
        build_permission_response(Some(&params(vec![option("reject_once", "reject-once")])));

    assert_eq!(response, cancelled());
}

#[test]
fn builds_cancelled_when_options_array_is_empty() {
    let response = build_permission_response(Some(&params(vec![])));

    assert_eq!(response, cancelled());
}

#[test]
fn falls_back_to_allow_always_when_options_are_missing() {
    let call = JsonObject::new().with("title", text("legacy"));
    let response = build_permission_response(Some(&Json::Object(
        JsonObject::new().with("toolCall", Json::Object(call)),
    )));

    assert_eq!(response, selected("allow_always"));
}

#[test]
fn falls_back_to_allow_always_when_params_is_none() {
    let response = build_permission_response(None);

    assert_eq!(response, selected("allow_always"));
}

#[test]
fn options_that_are_no_array_count_as_missing() {
    let odd = Json::Object(JsonObject::new().with("options", text("allow_once")));
    assert_eq!(
        build_permission_response(Some(&odd)),
        selected("allow_always")
    );
    assert_eq!(
        build_permission_response(Some(&Json::Null)),
        selected("allow_always")
    );
}

#[test]
fn allow_once_is_picked_over_unknown_kinds() {
    let options = vec![
        option("workspace_write", "write"),
        option("allow_once", "once"),
        option("allow_once", "another"),
    ];
    assert_eq!(pick_best_option(&options), Some("once".to_string()));
    assert_eq!(
        build_permission_response(Some(&params(options))),
        selected("once")
    );
}

#[test]
fn an_option_without_a_kind_can_be_picked() {
    let nameless = Json::Object(JsonObject::new().with("optionId", text("plain")));
    let options = vec![option("reject_always", "no"), nameless];
    assert_eq!(pick_best_option(&options), Some("plain".to_string()));
}

#[test]
fn the_preferred_option_is_not_replaced_where_it_has_no_identifier() {
    let broken = Json::Object(JsonObject::new().with("kind", text("allow_always")));
    let options = vec![broken, option("allow_once", "once")];
    assert_eq!(pick_best_option(&options), None);
    assert_eq!(
        build_permission_response(Some(&params(options))),
        cancelled()
    );

    let numbered = Json::Object(
        JsonObject::new().with("optionId", Json::Number(Number::Unsigned(3))),
    );
    assert_eq!(pick_best_option(&[numbered]), None);
}

#[test]
fn titles_of_tool_calls() {
    let call = JsonObject::new().with("title", text("Run tests"));
    let titled = Json::Object(JsonObject::new().with("toolCall", Json::Object(call)));
    assert_eq!(permission_title(Some(&titled)), "Run tests");
    let call = JsonObject::new().with("title", Json::Bool(true));
    let odd = Json::Object(JsonObject::new().with("toolCall", Json::Object(call)));
    assert_eq!(permission_title(Some(&odd)), "?");
    assert_eq!(permission_title(Some(&params(vec![]))), "?");
    assert_eq!(permission_title(None), "?");
}

#[test]
fn rejecting_options_do_not_change_the_choice() {
    let choices = [
        vec![option("workspace_write", "w"), option("allow_once", "o")],
        vec![option("workspace_write", "w")],
        vec![],
    ];
    for others in choices {
        let mut all = vec![option("reject_always", "never")];
        for other in &others {
            all.push(other.clone());
            all.push(option("reject_once", "not now"));
        }
        assert_eq!(pick_best_option(&all), pick_best_option(&others));
        assert_eq!(
            build_permission_response(Some(&params(all))),
            build_permission_response(Some(&params(others)))
        );
    }
}
