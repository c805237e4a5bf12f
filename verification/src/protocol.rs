//! Messages of JSON-RPC as the Agent Client Protocol uses them.
use crate::json::{
    has_exactly, has_member, has_text, json_view, Json, JsonObject, JsonView, Number,
};
use crate::text::text_view;
use vstd::prelude::*;

verus! {

broadcast use vstd::string::group_string_axioms;

/// A request to the agent.
#[derive(Debug)]
pub struct JsonRpcRequest {
    pub id: u64,
    pub method: String,
    pub params: Option<Json>,
}

/// What a request asks.
pub struct RequestView {
    pub id: u64,
    pub method: Seq<char>,
    pub params: Option<JsonView>,
}

impl RequestView {
    /// The form in which the request is sent.
    pub open spec fn to_json(self) -> JsonView {
        let head = map![
            "jsonrpc"@ => JsonView::Text("2.0"@),
            "id"@ => JsonView::Number(Number::Unsigned(self.id)),
            "method"@ => JsonView::Text(self.method),
        ];
        JsonView::Object(
            match self.params {
                Some(params) => head.insert("params"@, params),
                None => head,
            },
        )
    }
}

impl View for JsonRpcRequest {
    type V = RequestView;

    open spec fn view(&self) -> RequestView {
        RequestView { id: self.id, method: self.method@, params: json_view(self.params) }
    }
}

impl JsonRpcRequest {
    /// A request.
    pub fn new(id: u64, method: &str, params: Option<Json>) -> (request: JsonRpcRequest)
        ensures
            request@ == (RequestView { id, method: method@, params: json_view(params) }),
            request.params == params,
    {
        JsonRpcRequest { id, method: method.to_owned(), params }
    }

    /// The request in the form in which it is sent.
    pub fn to_json(self) -> (doc: Json)
        ensures
            doc@ == self@.to_json(),
    {
        let head = JsonObject::new().with("jsonrpc", Json::text("2.0")).with(
            "id",
            Json::Number(Number::Unsigned(self.id)),
        ).with("method", Json::Text(self.method));
        match self.params {
            Some(params) => Json::Object(head.with("params", params)),
            None => Json::Object(head),
        }
    }
}

/// The response to a request of the agent.
#[derive(Debug)]
pub struct JsonRpcResponse {
    pub id: u64,
    pub result: Json,
}

/// What a response says.
pub struct ResponseView {
    pub id: u64,
    pub result: JsonView,
}

impl ResponseView {
    /// The form in which the response is sent.
    pub open spec fn to_json(self) -> JsonView {
        JsonView::Object(
            map![
                "jsonrpc"@ => JsonView::Text("2.0"@),
                "id"@ => JsonView::Number(Number::Unsigned(self.id)),
                "result"@ => self.result,
            ],
        )
    }
}

impl View for JsonRpcResponse {
    type V = ResponseView;

    open spec fn view(&self) -> ResponseView {
        ResponseView { id: self.id, result: self.result@ }
    }
}

impl JsonRpcResponse {
    /// A response.
    pub fn new(id: u64, result: Json) -> (response: JsonRpcResponse)
        ensures
            response@ == (ResponseView { id, result: result@ }),
            response.result == result,
    {
        JsonRpcResponse { id, result }
    }

    /// The response in the form in which it is sent.
    pub fn to_json(self) -> (doc: Json)
        ensures
            doc@ == self@.to_json(),
    {
        Json::Object(
            JsonObject::new().with("jsonrpc", Json::text("2.0")).with(
                "id",
                Json::Number(Number::Unsigned(self.id)),
            ).with("result", self.result),
        )
    }
}

/// An error that the agent reports.
#[derive(Debug)]
pub struct JsonRpcError {
    pub code: i64,
    pub message: String,
    pub data: Option<Json>,
}

/// What an error says.
pub struct ErrorView {
    pub code: int,
    pub message: Seq<char>,
    pub data: Option<JsonView>,
}

impl View for JsonRpcError {
    type V = ErrorView;

    open spec fn view(&self) -> ErrorView {
        ErrorView { code: self.code as int, message: self.message@, data: json_view(self.data) }
    }
}

impl Clone for JsonRpcError {
    /// An error that says the same.
    fn clone(&self) -> (copy: JsonRpcError)
        ensures
            copy@ == self@,
    {
        JsonRpcError {
            code: self.code,
            message: self.message.clone(),
            data: copy_document(&self.data),
        }
    }
}

/// An optional document that says the same.
fn copy_document(doc: &Option<Json>) -> (copy: Option<Json>)
    ensures
        json_view(copy) == json_view(*doc),
{
    match doc {
        Some(doc) => Some(doc.clone()),
        None => None,
    }
}

/// A message from the agent: a response, a request or a notification.
#[derive(Debug)]
pub struct JsonRpcMessage {
    pub id: Option<u64>,
    pub method: Option<String>,
    pub result: Option<Json>,
    pub error: Option<JsonRpcError>,
    pub params: Option<Json>,
}

/// What a message says.
pub struct MessageView {
    pub id: Option<u64>,
    pub method: Option<Seq<char>>,
    pub result: Option<JsonView>,
    pub error: Option<ErrorView>,
    pub params: Option<JsonView>,
}

/// What an optional error says.
pub open spec fn error_view(error: Option<JsonRpcError>) -> Option<ErrorView> {
    match error {
        Some(error) => Some(error@),
        None => None,
    }
}

/// The message that stands in for the response to a request that the agent can
/// no longer answer.
pub open spec fn connection_closed() -> MessageView {
    MessageView {
        id: None,
        method: None,
        result: None,
        error: Some(ErrorView { code: -1, message: "connection closed"@, data: None }),
        params: None,
    }
}

impl View for JsonRpcMessage {
    type V = MessageView;

    open spec fn view(&self) -> MessageView {
        MessageView {
            id: self.id,
            method: text_view(self.method),
            result: json_view(self.result),
            error: error_view(self.error),
            params: json_view(self.params),
        }
    }
}

impl JsonRpcMessage {
    /// The message that stands in for the response to a request that the agent can
    /// no longer answer.
    pub fn connection_closed() -> (message: JsonRpcMessage)
        ensures
            message@ == connection_closed(),
    {
        let error = JsonRpcError {
            code: -1,
            message: "connection closed".to_owned(),
            data: None,
        };
        JsonRpcMessage { id: None, method: None, result: None, error: Some(error), params: None }
    }

    /// The outcome of a request as its response reports it: the identifier, and
    /// the result and error.
    pub fn outcome(&self) -> (copy: JsonRpcMessage)
        ensures
            copy@ == self@.outcome(),
    {
        JsonRpcMessage {
            id: self.id,
            method: None,
            result: copy_document(&self.result),
            error: match &self.error {
                Some(error) => Some(error.clone()),
                None => None,
            },
            params: None,
        }
    }
}

impl MessageView {
    /// The outcome of a request as its response reports it: the identifier, and
    /// the result and error.
    pub open spec fn outcome(self) -> MessageView {
        MessageView { method: None, params: None, ..self }
    }
}

/// A setting of a session, such as the model or the mode, as the agent lists it.
#[derive(Debug)]
pub struct ConfigOption {
    pub id: String,
    pub current_value: String,
    /// All that the agent says of the setting.
    pub details: Json,
}

/// What is known of a setting.
pub struct ConfigOptionView {
    pub id: Seq<char>,
    pub current_value: Seq<char>,
    pub details: JsonView,
}

impl View for ConfigOption {
    type V = ConfigOptionView;

    open spec fn view(&self) -> ConfigOptionView {
        ConfigOptionView {
            id: self.id@,
            current_value: self.current_value@,
            details: self.details@,
        }
    }
}

impl Clone for ConfigOption {
    /// The same setting.
    fn clone(&self) -> (copy: ConfigOption)
        ensures
            copy@ == self@,
    {
        ConfigOption {
            id: self.id.clone(),
            current_value: self.current_value.clone(),
            details: self.details.clone(),
        }
    }
}

/// What is known of the settings of a list.
pub open spec fn options_view(options: Seq<ConfigOption>) -> Seq<ConfigOptionView> {
    options.map_values(|option: ConfigOption| option@)
}

/// The same settings.
pub fn copy_options(options: &Vec<ConfigOption>) -> (copies: Vec<ConfigOption>)
    ensures
        options_view(copies@) == options_view(options@),
{
    let mut copies: Vec<ConfigOption> = Vec::new();
    let mut i: usize = 0;
    while i < options.len()
        invariant
            0 <= i <= options.len(),
            copies@.len() == i,
            forall|j: int| 0 <= j < i ==> (#[trigger] copies@[j])@ == options@[j]@,
        decreases options.len() - i,
    {
        copies.push(options[i].clone());
        i = i + 1;
    }
    assert(options_view(copies@) =~= options_view(options@));
    copies
}

/// Why a request to the agent did not come to its end.
#[derive(Debug)]
pub enum AcpError {
    /// There is no session yet.
    NoSession,
    /// The agent did not say which session it created.
    NoSessionId,
    /// The agent did not load the session.
    LoadRejected,
    /// The agent did not answer in time.
    Timeout { method: String },
    /// The request was given up before the agent answered.
    ChannelClosed { method: String },
    /// The agent reported an error.
    Agent(JsonRpcError),
    /// The request could not be written.
    Transport(String),
}

/// The text of an error.
pub open spec fn error_text(error: AcpError) -> Seq<char> {
    match error {
        AcpError::NoSession => "no session"@,
        AcpError::NoSessionId => "no sessionId in session/new response"@,
        AcpError::LoadRejected => "session/load rejected"@,
        AcpError::Timeout { method } => "timeout waiting for "@ + method@ + " response"@,
        AcpError::ChannelClosed { method } => "channel closed waiting for "@ + method@,
        AcpError::Agent(error) => error.message@,
        AcpError::Transport(text) => text@,
    }
}

impl AcpError {
    /// The text of the error.
    pub fn describe(&self) -> (text: String)
        ensures
            text@ == error_text(*self),
    {
        match self {
            AcpError::NoSession => "no session".to_owned(),
            AcpError::NoSessionId => "no sessionId in session/new response".to_owned(),
            AcpError::LoadRejected => "session/load rejected".to_owned(),
            AcpError::Timeout { method } => "timeout waiting for ".to_owned().concat(
                method.as_str(),
            ).concat(" response"),
            AcpError::ChannelClosed { method } => "channel closed waiting for ".to_owned().concat(
                method.as_str(),
            ),
            AcpError::Agent(error) => error.message.clone(),
            AcpError::Transport(text) => text.clone(),
        }
    }
}

/// A message as it is written to the agent: its text and the end of the line.
pub fn frame(text: &str) -> (line: String)
    ensures
        line@ == text@ + "\n"@,
{
    text.to_owned().concat("\n")
}

/// Whether two optional documents are both there and say the same, or are both not
/// there.
pub open spec fn same_document(a: Option<Json>, b: Option<JsonView>) -> bool {
    match (a, b) {
        (Some(a), Some(b)) => a@ == b,
        (None, None) => true,
        _ => false,
    }
}

/// A request is sent with the version of the protocol, its identifier and its method,
/// with its parameters where it has any, and with nothing else.
pub proof fn requests_have_the_form_of_the_protocol(request: RequestView)
    ensures
        has_text(request.to_json(), "jsonrpc"@, "2.0"@),
        has_member(request.to_json(), "id"@, JsonView::Number(Number::Unsigned(request.id))),
        has_text(request.to_json(), "method"@, request.method),
        request.params is Some ==> has_member(request.to_json(), "params"@, request.params->0)
            && has_exactly(request.to_json(), set!["jsonrpc"@, "id"@, "method"@, "params"@]),
        request.params is None ==> has_exactly(
            request.to_json(),
            set!["jsonrpc"@, "id"@, "method"@],
        ),
{
    reveal_strlit("jsonrpc");
    reveal_strlit("id");
    reveal_strlit("method");
    reveal_strlit("params");
    assert("jsonrpc"@.len() == 7 && "id"@.len() == 2 && "method"@.len() == 6);
    assert("params"@.len() == 6 && "params"@[0] == 'p' && "method"@[0] == 'm');
    let members = request.to_json()->Object_0;
    if request.params is Some {
        assert(members.dom() =~= set!["jsonrpc"@, "id"@, "method"@, "params"@]);
    } else {
        assert(members.dom() =~= set!["jsonrpc"@, "id"@, "method"@]);
    }
}

/// A response is sent with the version of the protocol, the identifier of its request
/// and its result, and with nothing else.
pub proof fn responses_have_the_form_of_the_protocol(response: ResponseView)
    ensures
        has_text(response.to_json(), "jsonrpc"@, "2.0"@),
        has_member(response.to_json(), "id"@, JsonView::Number(Number::Unsigned(response.id))),
        has_member(response.to_json(), "result"@, response.result),
        has_exactly(response.to_json(), set!["jsonrpc"@, "id"@, "result"@]),
{
    reveal_strlit("jsonrpc");
    reveal_strlit("id");
    reveal_strlit("result");
    assert("jsonrpc"@.len() == 7 && "id"@.len() == 2 && "result"@.len() == 6);
    assert(response.to_json()->Object_0.dom() =~= set!["jsonrpc"@, "id"@, "result"@]);
}

/// What is said of requests, responses and errors is all that they hold.
pub proof fn requests_and_responses_say_all_they_hold(
    request: JsonRpcRequest,
    response: JsonRpcResponse,
    error: JsonRpcError,
)
    ensures
        request@.id == request.id,
        request@.method == request.method@,
        same_document(request.params, request@.params),
        response@.id == response.id,
        response@.result == response.result@,
        error@.code == error.code,
        error@.message == error.message@,
        same_document(error.data, error@.data),
{
}

/// What is said of a message is all that it holds.
pub proof fn messages_say_all_they_hold(message: JsonRpcMessage)
    ensures
        message@.id == message.id,
        message.method is Some <==> message@.method is Some,
        message.method is Some ==> message@.method->0 == message.method->0@,
        same_document(message.result, message@.result),
        message.error is Some <==> message@.error is Some,
        message.error is Some ==> message@.error->0 == message.error->0@,
        same_document(message.params, message@.params),
{
}

/// What is said of settings is all that they hold, one for one.
pub proof fn settings_say_all_they_hold(options: Seq<ConfigOption>)
    ensures
        options_view(options).len() == options.len(),
        forall|i: int|
            0 <= i < options.len() ==> {
                &&& (#[trigger] options_view(options)[i]).id == options[i].id@
                &&& options_view(options)[i].current_value == options[i].current_value@
                &&& options_view(options)[i].details == options[i].details@
                &&& options_view(options)[i] == options[i]@
            },
{
}

/// The outcome of a request is reported under its identifier with its result and its
/// error, and with nothing else.
pub proof fn outcomes_keep_identifier_result_and_error(message: MessageView)
    ensures
        message.outcome().id == message.id,
        message.outcome().result == message.result,
        message.outcome().error == message.error,
        message.outcome().method is None,
        message.outcome().params is None,
{
}

/// That the connection is closed is reported as an error alone.
pub proof fn a_closed_connection_is_an_error()
    ensures
        connection_closed().error matches Some(error) && error.code == -1 && error.message
            == "connection closed"@ && error.data is None,
        connection_closed().id is None,
        connection_closed().method is None,
        connection_closed().result is None,
        connection_closed().params is None,
{
}

/// The texts of errors: that of the agent and that of the transport are passed on, and
/// a request that was not answered is named by its method.
pub proof fn errors_say_what_went_wrong(method: String, error: JsonRpcError, cause: String)
    ensures
        error_text(AcpError::NoSession) == "no session"@,
        error_text(AcpError::NoSessionId) == "no sessionId in session/new response"@,
        error_text(AcpError::LoadRejected) == "session/load rejected"@,
        error_text(AcpError::Timeout { method }) == "timeout waiting for "@ + method@
            + " response"@,
        error_text(AcpError::ChannelClosed { method }) == "channel closed waiting for "@ + method@,
        error_text(AcpError::Agent(error)) == error.message@,
        error_text(AcpError::Transport(cause)) == cause@,
{
}

} // verus!
