use openab_core::connection::{
    conclude_request, request_timeout_secs, AcpConnection, ConfigStep, RequestOutcome, Signal,
};
use openab_core::content::ContentBlock;
use openab_core::json::{Json, JsonObject, Number};
use openab_core::protocol::{AcpError, ConfigOption, JsonRpcError, JsonRpcMessage};
use openab_core::router::{Routed, Router};

type Slots = Router<&'static str, &'static str>;

fn object() -> JsonObject {
    JsonObject::new()
}

fn reply(result: Option<Json>) -> JsonRpcMessage {
    JsonRpcMessage {
        id: Some(1),
        method: None,
        result,
        error: None,
        params: None,
    }
}

fn agent_error(message: &str) -> JsonRpcError {
    JsonRpcError {
        code: -32601,
        message: message.to_string(),
        data: None,
    }
}

fn setting(id: &str, value: &str) -> ConfigOption {
    ConfigOption {
        id: id.to_string(),
        current_value: value.to_string(),
        details: Json::text(id),
    }
}

fn settings(options: &[ConfigOption]) -> Vec<(&str, &str)> {
    options
        .iter()
        .map(|option| (option.id.as_str(), option.current_value.as_str()))
        .collect()
}

fn in_session() -> AcpConnection {
    let mut connection = AcpConnection::spawn(Some(77));
    connection.acp_session_id = Some("s1".to_string());
    connection
}

#[test]
fn a_fresh_connection_knows_nothing_of_its_agent() {
    let connection = AcpConnection::spawn(Some(77));
    assert_eq!(connection.acp_session_id, None);
    assert!(!connection.supports_load_session);
    assert!(!connection.supports_image);
    assert!(!connection.supports_document);
    assert!(connection.config_options.is_empty());
    assert!(!connection.session_reset);
}

#[test]
fn identifiers_are_counted_from_one() {
    let mut connection = AcpConnection::spawn(None);
    assert_eq!(connection.next_id(), 1);
    assert_eq!(connection.next_id(), 2);
    assert_eq!(connection.next_id(), 3);
}

#[test]
fn a_request_waits_under_its_identifier() {
    let mut connection = AcpConnection::spawn(None);
    let mut router = Slots::new();
    let request = connection.send_request(&mut router, "ping", None, "slot");
    assert_eq!(request.id, 1);
    assert_eq!(request.method, "ping");
    assert_eq!(request.params, None);
    assert_eq!(connection.next_id(), 2);
    assert_eq!(router.pending_count(), 1);
    assert_eq!(router.forget(1), Some("slot"));
}

#[test]
fn the_connection_is_opened_with_the_name_of_the_client() {
    let mut connection = AcpConnection::spawn(None);
    let mut router = Slots::new();
    let request = connection.initialize(&mut router, "slot");
    assert_eq!(request.id, 1);
    assert_eq!(request.method, "initialize");
    assert_eq!(
        request.params,
        Some(Json::Object(
            object()
                .with("protocolVersion", Json::Number(Number::Unsigned(1)))
                .with("clientCapabilities", Json::Object(object()))
                .with(
                    "clientInfo",
                    Json::Object(
                        object()
                            .with("name", Json::text("openab"))
                            .with("version", Json::text("0.1.0"))
                    )
                )
        ))
    );
    assert!(router.is_pending(1));
}

#[test]
fn capabilities_are_taken_from_the_reply() {
    let mut connection = AcpConnection::spawn(None);
    let capabilities = object().with("loadSession", Json::Bool(true)).with(
        "promptCapabilities",
        Json::Object(object().with("image", Json::Bool(true))),
    );
    let result = Json::Object(object().with("agentCapabilities", Json::Object(capabilities)));
    assert!(connection.initialized(Ok(reply(Some(result)))).is_ok());
    assert!(connection.supports_load_session);
    assert!(connection.supports_image);
    assert!(!connection.supports_document);

    assert!(connection.initialized(Err(AcpError::NoSession)).is_err());
    assert!(connection.supports_image);

    assert!(connection.initialized(Ok(reply(None))).is_ok());
    assert!(!connection.supports_load_session);
    assert!(!connection.supports_image);
}

#[test]
fn a_session_is_created() {
    let mut connection = AcpConnection::spawn(None);
    let mut router = Slots::new();
    let request = connection.session_new(&mut router, "/work", "slot");
    assert_eq!(request.method, "session/new");
    assert_eq!(
        request.params,
        Some(Json::Object(
            object()
                .with("cwd", Json::text("/work"))
                .with("mcpServers", Json::Array(vec![]))
        ))
    );
    assert!(router.is_pending(request.id));
    let result = Json::Object(object().with("sessionId", Json::text("s1")));
    let created = connection.session_created(Ok(reply(Some(result))), vec![setting("mode", "ask")]);
    assert_eq!(created.ok(), Some("s1".to_string()));
    assert_eq!(connection.acp_session_id, Some("s1".to_string()));
    assert_eq!(settings(&connection.config_options), vec![("mode", "ask")]);
}

#[test]
fn a_session_without_an_identifier_is_an_error() {
    let mut connection = in_session();
    let odd = Json::Object(object().with("sessionId", Json::Null));
    for result in [None, Some(Json::Object(object())), Some(odd)] {
        let created = connection.session_created(Ok(reply(result)), vec![setting("a", "b")]);
        assert!(matches!(created, Err(AcpError::NoSessionId)));
        assert_eq!(connection.acp_session_id, Some("s1".to_string()));
        assert!(connection.config_options.is_empty());
    }
    let created = connection.session_created(Err(AcpError::NoSession), vec![setting("a", "b")]);
    assert!(matches!(created, Err(AcpError::NoSession)));
    assert!(connection.config_options.is_empty());
}

#[test]
fn a_session_is_loaded() {
    let mut connection = AcpConnection::spawn(None);
    let mut router = Slots::new();
    let request = connection.session_load(&mut router, "old", "/work", "slot");
    assert_eq!(request.method, "session/load");
    assert_eq!(
        request.params,
        Some(Json::Object(
            object()
                .with("sessionId", Json::text("old"))
                .with("cwd", Json::text("/work"))
                .with("mcpServers", Json::Array(vec![]))
        ))
    );
    assert!(router.is_pending(request.id));
    let loaded = connection.session_loaded("old", Ok(reply(None)), vec![setting("a", "b")]);
    assert!(loaded.is_ok());
    assert_eq!(connection.acp_session_id, Some("old".to_string()));
    assert!(connection.config_options.is_empty());
    let loaded =
        connection.session_loaded("other", Ok(reply(Some(Json::Null))), vec![setting("a", "b")]);
    assert!(loaded.is_ok());
    assert_eq!(connection.acp_session_id, Some("other".to_string()));
    assert_eq!(settings(&connection.config_options), vec![("a", "b")]);
}

#[test]
fn a_session_that_is_not_loaded_changes_nothing() {
    let mut connection = in_session();
    let mut rejected = reply(Some(Json::Null));
    rejected.error = Some(agent_error("no such session"));
    let loaded = connection.session_loaded("old", Ok(rejected), vec![setting("a", "b")]);
    assert!(matches!(loaded, Err(AcpError::LoadRejected)));
    let loaded = connection.session_loaded("old", Err(AcpError::NoSession), vec![]);
    assert!(matches!(loaded, Err(AcpError::NoSession)));
    assert_eq!(connection.acp_session_id, Some("s1".to_string()));
    assert!(connection.config_options.is_empty());
}

#[test]
fn a_setting_is_changed_by_a_request() {
    let mut connection = in_session();
    let mut router = Slots::new();
    connection.config_options = vec![setting("model", "slow")];
    let (change, request) = connection
        .set_config_option(&mut router, "model", "fast", "slot")
        .unwrap();
    assert_eq!(request.id, 1);
    assert_eq!(request.method, "session/set_config_option");
    assert_eq!(
        request.params,
        Some(Json::Object(
            object()
                .with("sessionId", Json::text("s1"))
                .with("configId", Json::text("model"))
                .with("value", Json::text("fast"))
        ))
    );
    assert!(router.is_pending(1));
    assert_eq!(change.session_id, "s1");
    assert_eq!(change.config_id, "model");
    assert_eq!(change.value, "fast");
    let listed = vec![setting("model", "fast"), setting("mode", "ask")];
    match connection.set_config_option_replied(Ok(reply(Some(Json::Null))), listed) {
        ConfigStep::Done(all) => {
            assert_eq!(settings(&all), vec![("model", "fast"), ("mode", "ask")])
        }
        ConfigStep::Prompt => panic!("the change should be done"),
    }
    assert_eq!(
        settings(&connection.config_options),
        vec![("model", "fast"), ("mode", "ask")]
    );
    match connection.set_config_option_replied(Ok(reply(None)), vec![]) {
        ConfigStep::Done(all) => assert_eq!(all.len(), 2),
        ConfigStep::Prompt => panic!("the change should be done"),
    }
}

#[test]
fn a_setting_is_changed_by_a_prompt_where_the_request_fails() {
    let mut connection = in_session();
    let mut router = Slots::new();
    connection.config_options = vec![
        setting("mode", "ask"),
        setting("model", "slow"),
        setting("model", "slower"),
    ];
    let (change, _request) = connection
        .set_config_option(&mut router, "model", "fast", "first")
        .unwrap();
    let failed = Err(AcpError::Agent(agent_error("method not found")));
    assert!(matches!(
        connection.set_config_option_replied(failed, vec![setting("x", "y")]),
        ConfigStep::Prompt
    ));
    let request = connection.set_config_option_prompt(&mut router, &change, "second");
    assert_eq!(request.id, 2);
    assert_eq!(request.method, "session/prompt");
    assert_eq!(
        request.params,
        Some(Json::Object(
            object().with("sessionId", Json::text("s1")).with(
                "prompt",
                Json::Array(vec![Json::Object(
                    object()
                        .with("type", Json::text("text"))
                        .with("text", Json::text("/model fast"))
                )])
            )
        ))
    );
    assert_eq!(router.forget(2), Some("second"));
    let done = connection
        .set_config_option_prompted(&change, Ok(reply(None)))
        .unwrap();
    let expected = vec![("mode", "ask"), ("model", "fast"), ("model", "fast")];
    assert_eq!(settings(&done), expected);
    assert_eq!(settings(&connection.config_options), expected);
    assert_eq!(connection.config_options[1].details, Json::text("model"));
}

#[test]
fn a_change_that_fails_twice_is_an_error() {
    let mut connection = in_session();
    let mut router = Slots::new();
    connection.config_options = vec![setting("model", "slow")];
    let (change, _request) = connection
        .set_config_option(&mut router, "model", "fast", "slot")
        .unwrap();
    let failed = connection.set_config_option_prompted(
        &change,
        Err(AcpError::Timeout {
            method: "session/prompt".to_string(),
        }),
    );
    assert!(matches!(failed, Err(AcpError::Timeout { .. })));
    assert_eq!(settings(&connection.config_options), vec![("model", "slow")]);
}

#[test]
fn a_setting_cannot_be_changed_without_a_session() {
    let mut connection = AcpConnection::spawn(None);
    let mut router = Slots::new();
    assert!(matches!(
        connection.set_config_option(&mut router, "model", "fast", "slot"),
        Err(AcpError::NoSession)
    ));
    assert_eq!(connection.next_id(), 1);
    assert_eq!(router.pending_count(), 0);
}

fn mixed_blocks() -> Vec<ContentBlock> {
    vec![
        ContentBlock::Image {
            media_type: "image/png".to_string(),
            data: "AAA".to_string(),
        },
        ContentBlock::Text {
            text: "look".to_string(),
        },
        ContentBlock::Document {
            media_type: "application/pdf".to_string(),
            data: "BBB".to_string(),
            name: "d.pdf".to_string(),
        },
        ContentBlock::Document {
            media_type: "application/zip".to_string(),
            data: "CCC".to_string(),
            name: "e.zip".to_string(),
        },
    ]
}

#[test]
fn a_prompt_holds_what_the_agent_takes() {
    let mut connection = in_session();
    let mut router = Slots::new();
    let prompt = connection.session_prompt(&mut router, mixed_blocks(), "subscriber", "slot");
    assert_eq!(prompt.stripped_images, 1);
    assert_eq!(prompt.stripped_documents, 2);
    let request = prompt.request.unwrap();
    assert_eq!(request.id, 1);
    assert_eq!(request.method, "session/prompt");
    assert_eq!(
        request.params,
        Some(Json::Object(
            object()
                .with("sessionId", Json::text("s1"))
                .with("prompt", Json::Array(vec![mixed_blocks()[1].to_json()]))
        ))
    );
    assert_eq!(router.subscriber(), Some(&"subscriber"));
    assert!(router.is_pending(1));

    connection.supports_image = true;
    let prompt = connection.session_prompt(&mut router, mixed_blocks(), "next", "slot");
    assert_eq!(prompt.stripped_images, 0);
    assert_eq!(prompt.stripped_documents, 2);
    assert_eq!(prompt.request.unwrap().id, 2);

    connection.supports_document = true;
    let prompt = connection.session_prompt(&mut router, mixed_blocks(), "last", "slot");
    assert_eq!(prompt.stripped_images + prompt.stripped_documents, 0);
    let sent: Vec<Json> = mixed_blocks().iter().map(|b| b.to_json()).collect();
    let params = prompt.request.unwrap().params.unwrap();
    assert_eq!(params.get("prompt"), Some(&Json::Array(sent)));
}

#[test]
fn there_is_no_prompt_without_a_session() {
    let mut connection = AcpConnection::spawn(None);
    let mut router = Slots::new();
    router.subscribe("earlier");
    let prompt = connection.session_prompt(&mut router, mixed_blocks(), "subscriber", "slot");
    assert!(matches!(prompt.request, Err(AcpError::NoSession)));
    assert_eq!(prompt.stripped_images, 1);
    assert_eq!(prompt.stripped_documents, 2);
    assert_eq!(connection.next_id(), 1);
    assert_eq!(router.subscriber(), Some(&"earlier"));
    assert_eq!(router.pending_count(), 0);
}

#[test]
fn the_response_to_a_prompt_comes_last() {
    let mut connection = in_session();
    let mut router = Slots::new();
    let request = connection
        .session_prompt(&mut router, mixed_blocks(), "subscriber", "slot")
        .request
        .unwrap();
    let update = JsonRpcMessage {
        id: None,
        method: Some("session/update".to_string()),
        result: None,
        error: None,
        params: Some(Json::Null),
    };
    assert!(matches!(router.receive(update), Routed::Forwarded(_)));
    let mut response = reply(Some(Json::text("end_turn")));
    response.id = Some(request.id);
    match router.receive(response) {
        Routed::Resolved { slot, copy, .. } => {
            assert_eq!(slot, "slot");
            let copy = copy.unwrap();
            assert_eq!(copy.id, Some(request.id));
            assert_eq!(copy.result, Some(Json::text("end_turn")));
        }
        _ => panic!("the prompt should be resolved"),
    }
    connection.prompt_done(&mut router);
    assert!(router.subscriber().is_none());
}

#[test]
fn an_abandoned_prompt_is_cancelled() {
    let mut connection = in_session();
    let mut router = Slots::new();
    let prompt = connection.session_prompt(&mut router, mixed_blocks(), "first", "slot");
    let id = prompt.request.unwrap().id;
    let notification = connection.abandon_request(&mut router, id);
    assert_eq!(
        notification,
        Some(Json::Object(
            object()
                .with("jsonrpc", Json::text("2.0"))
                .with("method", Json::text("session/cancel"))
                .with(
                    "params",
                    Json::Object(object().with("sessionId", Json::text("s1")))
                )
        ))
    );
    assert!(!router.is_pending(id));
    router.subscribe("second");
    let mut late = reply(None);
    late.id = Some(id);
    match router.receive(late) {
        Routed::Forwarded(message) => assert_eq!(message.id, Some(id)),
        _ => panic!("the late response should be forwarded"),
    }
}

#[test]
fn without_a_session_there_is_nothing_to_cancel() {
    let mut connection = AcpConnection::spawn(None);
    let mut router = Slots::new();
    let request = connection.initialize(&mut router, "slot");
    assert_eq!(connection.abandon_request(&mut router, request.id), None);
    assert_eq!(router.pending_count(), 0);
}

#[test]
fn sessions_may_take_longer_to_create() {
    assert_eq!(request_timeout_secs("session/new"), 120);
    assert_eq!(request_timeout_secs("session/load"), 30);
    assert_eq!(request_timeout_secs("initialize"), 30);
    assert_eq!(request_timeout_secs("session/prompt"), 30);
}

#[test]
fn requests_are_concluded() {
    let replied = conclude_request("initialize", RequestOutcome::Replied(reply(Some(Json::Null))));
    assert_eq!(replied.unwrap().result, Some(Json::Null));

    let mut failed = reply(Some(Json::Null));
    failed.error = Some(agent_error("no"));
    match conclude_request("initialize", RequestOutcome::Replied(failed)) {
        Err(AcpError::Agent(error)) => assert_eq!(error.message, "no"),
        _ => panic!("the error of the agent should be returned"),
    }

    let late = conclude_request("session/new", RequestOutcome::TimedOut);
    assert_eq!(
        late.err().map(|error| error.describe()),
        Some("timeout waiting for session/new response".to_string())
    );
    let dropped = conclude_request("session/new", RequestOutcome::ChannelClosed);
    assert_eq!(
        dropped.err().map(|error| error.describe()),
        Some("channel closed waiting for session/new".to_string())
    );
    let unsent = conclude_request("x", RequestOutcome::NotSent("broken pipe".to_string()));
    assert_eq!(
        unsent.err().map(|error| error.describe()),
        Some("broken pipe".to_string())
    );
}

#[test]
fn the_process_group_of_the_agent_is_ended() {
    let termination = AcpConnection::spawn(Some(77)).kill_process_group().unwrap();
    assert_eq!(termination.target, -77);
    assert!(matches!(termination.first, Signal::Terminate));
    assert_eq!(termination.grace_millis, 1500);
    assert!(matches!(termination.last, Signal::Kill));
    let largest = AcpConnection::spawn(Some(i32::MAX as u32));
    assert_eq!(
        largest.kill_process_group().map(|t| t.target),
        Some(-i32::MAX)
    );
}

#[test]
fn no_other_process_is_ended() {
    for pid in [None, Some(0), Some(i32::MAX as u32 + 1), Some(u32::MAX)] {
        assert!(AcpConnection::spawn(pid).kill_process_group().is_none());
    }
}

#[test]
fn an_agent_that_advertised_nothing_gets_texts_only() {
    let mut connection = AcpConnection::spawn(Some(77));
    let mut router = Slots::new();
    connection.initialize(&mut router, "slot");
    assert!(connection.initialized(Ok(reply(Some(Json::Null)))).is_ok());
    connection.session_new(&mut router, "/work", "slot");
    let result = Json::Object(object().with("sessionId", Json::text("s1")));
    connection
        .session_created(Ok(reply(Some(result))), vec![setting("mode", "ask")])
        .unwrap();
    connection.session_load(&mut router, "s2", "/work", "slot");
    connection
        .session_loaded("s2", Ok(reply(None)), vec![])
        .unwrap();
    let (change, _request) = connection
        .set_config_option(&mut router, "mode", "plan", "slot")
        .unwrap();
    connection
        .set_config_option_prompted(&change, Ok(reply(None)))
        .unwrap();
    let prompt = connection.session_prompt(&mut router, mixed_blocks(), "subscriber", "slot");
    assert_eq!((prompt.stripped_images, prompt.stripped_documents), (1, 2));
    let params = prompt.request.unwrap().params.unwrap();
    assert_eq!(
        params.get("prompt"),
        Some(&Json::Array(vec![mixed_blocks()[1].to_json()]))
    );
}
