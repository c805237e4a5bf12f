use openab_core::capabilities::{
    parse_agent_name, parse_supports_document, parse_supports_image, parse_supports_load_session,
};
use openab_core::json::{Json, JsonObject};

fn object() -> JsonObject {
    JsonObject::new()
}

fn with_prompt_flag(name: &str, flag: Json) -> Json {
    Json::Object(object().with(
        "agentCapabilities",
        Json::Object(object().with(
            "promptCapabilities",
            Json::Object(object().with(name, flag)),
        )),
    ))
}

fn with_load_session_and_flag(name: &str) -> Json {
    Json::Object(object().with(
        "agentCapabilities",
        Json::Object(
            object()
                .with("loadSession", Json::Bool(true))
                .with(
                    "promptCapabilities",
                    Json::Object(object().with(name, Json::Bool(true))),
                ),
        ),
    ))
}

fn load_session_only() -> Json {
    Json::Object(object().with(
        "agentCapabilities",
        Json::Object(object().with("loadSession", Json::Bool(true))),
    ))
}

#[test]
fn parse_supports_image_reads_nested_capability() {
    assert!(parse_supports_image(Some(&with_load_session_and_flag("image"))));
}

#[test]
fn parse_supports_image_defaults_false_when_key_missing() {
    assert!(!parse_supports_image(Some(&load_session_only())));
    assert!(!parse_supports_image(Some(&Json::Object(object()))));
    assert!(!parse_supports_image(None));
}

#[test]
fn parse_supports_image_false_when_advertised_false() {
    assert!(!parse_supports_image(Some(&with_prompt_flag(
        "image",
        Json::Bool(false)
    ))));
}

#[test]
fn parse_supports_document_reads_nested_capability() {
    assert!(parse_supports_document(Some(&with_load_session_and_flag(
        "document"
    ))));
}

#[test]
fn parse_supports_document_defaults_false_when_key_missing() {
    assert!(!parse_supports_document(Some(&load_session_only())));
    assert!(!parse_supports_document(Some(&Json::Object(object()))));
    assert!(!parse_supports_document(None));
}

#[test]
fn parse_supports_document_false_when_advertised_false() {
    assert!(!parse_supports_document(Some(&with_prompt_flag(
        "document",
        Json::Bool(false)
    ))));
}

#[test]
fn flags_that_are_no_truth_values_are_not_taken() {
    let odd = with_prompt_flag("image", Json::text("true"));
    assert!(!parse_supports_image(Some(&odd)));
    assert!(!parse_supports_document(Some(&odd)));
    let odd = Json::Object(object().with("agentCapabilities", Json::Bool(true)));
    assert!(!parse_supports_image(Some(&odd)));
    assert!(!parse_supports_load_session(Some(&odd)));
}

#[test]
fn the_flags_do_not_stand_in_for_each_other() {
    let image = with_load_session_and_flag("image");
    assert!(!parse_supports_document(Some(&image)));
    let document = with_load_session_and_flag("document");
    assert!(!parse_supports_image(Some(&document)));
}

#[test]
fn load_session_is_read() {
    assert!(parse_supports_load_session(Some(&load_session_only())));
    assert!(!parse_supports_load_session(Some(&with_prompt_flag(
        "image",
        Json::Bool(true)
    ))));
    assert!(!parse_supports_load_session(None));
}

#[test]
fn agents_are_named_or_unknown() {
    let named = Json::Object(object().with(
        "agentInfo",
        Json::Object(object().with("name", Json::text("kiro"))),
    ));
    assert_eq!(parse_agent_name(Some(&named)), "kiro");
    let odd = Json::Object(object().with(
        "agentInfo",
        Json::Object(object().with("name", Json::Null)),
    ));
    assert_eq!(parse_agent_name(Some(&odd)), "unknown");
    assert_eq!(parse_agent_name(None), "unknown");
}
