use openab_core::json::{Json, JsonObject, Number};
use openab_core::protocol::{
    copy_options, frame, AcpError, ConfigOption, JsonRpcError, JsonRpcMessage, JsonRpcRequest,
    JsonRpcResponse,
};

#[test]
fn requests_are_sent_with_their_identifier() {
    let params = Json::Object(JsonObject::new().with("cwd", Json::text("/")));
    let request = JsonRpcRequest::new(4, "session/new", Some(params.clone()));
    assert_eq!(
        request.to_json(),
        Json::Object(
            JsonObject::new()
                .with("jsonrpc", Json::text("2.0"))
                .with("id", Json::Number(Number::Unsigned(4)))
                .with("method", Json::text("session/new"))
                .with("params", params)
        )
    );
    assert_eq!(
        JsonRpcRequest::new(5, "ping", None).to_json().get("params"),
        None
    );
}

#[test]
fn responses_are_sent_with_the_identifier_of_their_request() {
    assert_eq!(
        JsonRpcResponse::new(9, Json::Bool(true)).to_json(),
        Json::Object(
            JsonObject::new()
                .with("jsonrpc", Json::text("2.0"))
                .with("id", Json::Number(Number::Unsigned(9)))
                .with("result", Json::Bool(true))
        )
    );
}

#[test]
fn messages_are_framed_by_lines() {
    assert_eq!(frame("{}"), "{}\n");
    assert_eq!(frame(""), "\n");
}

#[test]
fn errors_are_described() {
    assert_eq!(AcpError::NoSession.describe(), "no session");
    assert_eq!(
        AcpError::NoSessionId.describe(),
        "no sessionId in session/new response"
    );
    assert_eq!(AcpError::LoadRejected.describe(), "session/load rejected");
    assert_eq!(
        AcpError::Timeout {
            method: "initialize".to_string()
        }
        .describe(),
        "timeout waiting for initialize response"
    );
    assert_eq!(
        AcpError::ChannelClosed {
            method: "session/load".to_string()
        }
        .describe(),
        "channel closed waiting for session/load"
    );
    assert_eq!(
        AcpError::Agent(JsonRpcError {
            code: -32601,
            message: "method not found".to_string(),
            data: None
        })
        .describe(),
        "method not found"
    );
    assert_eq!(
        AcpError::Transport("broken pipe".to_string()).describe(),
        "broken pipe"
    );
}

#[test]
fn a_closed_connection_is_reported_as_an_error() {
    let message = JsonRpcMessage::connection_closed();
    assert_eq!(message.id, None);
    assert_eq!(message.method, None);
    assert_eq!(message.params, None);
    assert_eq!(message.result, None);
    let error = message.error.unwrap();
    assert_eq!((error.code, error.message.as_str()), (-1, "connection closed"));
}

#[test]
fn settings_are_copied_in_order() {
    let options = vec![
        ConfigOption {
            id: "model".to_string(),
            current_value: "fast".to_string(),
            details: Json::Null,
        },
        ConfigOption {
            id: "mode".to_string(),
            current_value: "plan".to_string(),
            details: Json::text("details"),
        },
    ];
    let copies = copy_options(&options);
    assert_eq!(copies.len(), 2);
    assert_eq!(copies[0].id, "model");
    assert_eq!(copies[0].current_value, "fast");
    assert_eq!(copies[1].id, "mode");
    assert_eq!(copies[1].current_value, "plan");
    assert_eq!(copies[1].details, Json::text("details"));
}
