//! A connection to an agent: what it knows of the agent and of the session, the
//! requests that it makes, and what it makes of the replies.
use crate::capabilities::{
    advertises_loading, advertises_prompts, capabilities_are_taken_where_advertised, is_true, load_session_capability, parse_supports_document, parse_supports_image,
    parse_supports_load_session, prompt_capability,
};
use crate::content::{
    block_json, blocks_json, blocks_to_json, both_gates_leave_texts, document_gate_is_noop_without_documents,
    document_blocks, documents_gated, gate_document_blocks, gate_image_blocks,
    gates_decide_about_their_own_kind, gates_do_not_add, image_blocks,
    image_gate_is_noop_without_images, images_gated, text_block_json, text_blocks, ContentBlock,
};
use crate::filter::{lemma_filter_filter, lemma_filter_same};
use crate::json::{
    elements_view, has_exactly, has_member, has_text, json_view, lemma_elements_view, member, Json,
    JsonObject, JsonView, Number,
};
use crate::protocol::{
    copy_options, options_view, AcpError, ConfigOption, ConfigOptionView, JsonRpcMessage,
    JsonRpcRequest, MessageView, RequestView,
};
use crate::router::{
    a_request_waits_until_its_response, asks_permission, responds_to,
    the_subscriber_sees_every_message, RoutedView, Router, RouterView,
};
use crate::text::{same_text, text_view};
use vstd::prelude::*;

verus! {

broadcast use vstd::string::group_string_axioms;

/// The process group of an agent, by the identifier of its first process, where that
/// can be one.
#[derive(Debug)]
pub struct ProcessGroup {
    leader: Option<i32>,
}

impl View for ProcessGroup {
    type V = Option<i32>;

    closed spec fn view(&self) -> Option<i32> {
        self.leader
    }
}

impl ProcessGroup {
    /// The process group of an agent that was started as process `pid`.
    fn of(pid: Option<u32>) -> (group: ProcessGroup)
        ensures
            group@ == group_of(pid),
    {
        let leader = match pid {
            Some(pid) => if pid <= i32::MAX as u32 {
                Some(pid as i32)
            } else {
                None
            },
            None => None,
        };
        ProcessGroup { leader }
    }
}

/// The identifiers of requests, each of which is issued before any is issued again.
#[derive(Debug)]
pub struct Identifiers {
    next: u64,
}

impl View for Identifiers {
    type V = u64;

    /// The identifier that is issued next.
    closed spec fn view(&self) -> u64 {
        self.next
    }
}

impl Identifiers {
    /// The identifiers from the first on.
    fn new() -> (identifiers: Identifiers)
        ensures
            identifiers@ == 1,
    {
        Identifiers { next: 1 }
    }

    /// Issues an identifier.
    fn issue(&mut self) -> (id: u64)
        ensures
            id == old(self)@,
            final(self)@ == following(old(self)@),
    {
        let id = self.next;
        self.next = id.wrapping_add(1);
        id
    }
}

/// The state of a connection to an agent.
#[derive(Debug)]
pub struct AcpConnection {
    /// The process group of the agent.
    pub process_group: ProcessGroup,
    /// The identifiers of requests.
    pub identifiers: Identifiers,
    pub acp_session_id: Option<String>,
    pub supports_load_session: bool,
    /// Whether the agent advertised that it takes images. Until it does, image
    /// blocks are kept out of prompts.
    pub supports_image: bool,
    /// Whether the agent advertised that it takes documents. Until it does,
    /// document blocks are kept out of prompts.
    pub supports_document: bool,
    pub config_options: Vec<ConfigOption>,
    pub session_reset: bool,
}

/// What a connection knows.
pub struct ConnectionView {
    pub child_pgid: Option<i32>,
    pub next_id: u64,
    pub session: Option<Seq<char>>,
    pub supports_load_session: bool,
    pub supports_image: bool,
    pub supports_document: bool,
    pub config_options: Seq<ConfigOptionView>,
    pub session_reset: bool,
}

/// The identifier that is issued after `id`.
pub open spec fn following(id: u64) -> u64 {
    if id == u64::MAX {
        0
    } else {
        (id + 1) as u64
    }
}

/// The process group of a process, where its identifier can be one.
pub open spec fn group_of(pid: Option<u32>) -> Option<i32> {
    match pid {
        Some(pid) => if pid <= i32::MAX {
            Some(pid as i32)
        } else {
            None
        },
        None => None,
    }
}

impl ConnectionView {
    /// What is known of an agent that was just started.
    pub open spec fn fresh(pid: Option<u32>) -> ConnectionView {
        ConnectionView {
            child_pgid: group_of(pid),
            next_id: 1,
            session: None,
            supports_load_session: false,
            supports_image: false,
            supports_document: false,
            config_options: Seq::empty(),
            session_reset: false,
        }
    }

    /// The connection after an identifier was issued.
    pub open spec fn issued(self) -> ConnectionView {
        ConnectionView { next_id: following(self.next_id), ..self }
    }

    /// The connection after the agent has advertised itself in the result of an
    /// `initialize` request.
    pub open spec fn advertised(self, result: Option<JsonView>) -> ConnectionView {
        ConnectionView {
            supports_load_session: is_true(load_session_capability(result)),
            supports_image: is_true(prompt_capability(result, "image"@)),
            supports_document: is_true(prompt_capability(result, "document"@)),
            ..self
        }
    }

    /// The connection after a session was created or loaded.
    pub open spec fn in_session(
        self,
        session: Seq<char>,
        options: Seq<ConfigOptionView>,
    ) -> ConnectionView {
        ConnectionView { session: Some(session), config_options: options, ..self }
    }

    /// The connection after the settings have changed.
    pub open spec fn configured(self, options: Seq<ConfigOptionView>) -> ConnectionView {
        ConnectionView { config_options: options, ..self }
    }

    /// The connection after a change.
    pub open spec fn after(self, change: ConnectionChange) -> ConnectionView {
        match change {
            ConnectionChange::Issued => self.issued(),
            ConnectionChange::Advertised(result) => self.advertised(result),
            ConnectionChange::InSession { session, options } => self.in_session(session, options),
            ConnectionChange::Configured(options) => self.configured(options),
        }
    }

    /// The connection after changes, one after the other.
    pub open spec fn after_all(self, changes: Seq<ConnectionChange>) -> ConnectionView
        decreases changes.len(),
    {
        if changes.len() == 0 {
            self
        } else {
            self.after_all(changes.drop_last()).after(changes.last())
        }
    }

    /// The next request for `method`, with parameters.
    pub open spec fn request(self, method: Seq<char>, params: JsonView) -> RequestView {
        RequestView { id: self.next_id, method, params: Some(params) }
    }

    /// The blocks of a prompt that the agent can take.
    pub open spec fn gated(self, blocks: Seq<ContentBlock>) -> Seq<ContentBlock> {
        documents_gated(images_gated(blocks, self.supports_image), self.supports_document)
    }
}

/// What can change what a connection knows: that a request is made, and what the
/// replies to requests say. A request that fails, and a prompt that is done or given
/// up, changes nothing.
pub enum ConnectionChange {
    /// An identifier was issued, by any request.
    Issued,
    /// An `initialize` request was answered with this result.
    Advertised(Option<JsonView>),
    /// A session was created or loaded, and these are its settings.
    InSession { session: Seq<char>, options: Seq<ConfigOptionView> },
    /// The settings became these.
    Configured(Seq<ConfigOptionView>),
}

/// The result in which an agent last advertised itself, where it has.
pub open spec fn last_advertised(changes: Seq<ConnectionChange>) -> Option<JsonView>
    decreases changes.len(),
{
    if changes.len() == 0 {
        None
    } else {
        match changes.last() {
            ConnectionChange::Advertised(result) => result,
            _ => last_advertised(changes.drop_last()),
        }
    }
}

/// How the wait for a response ended.
#[derive(Debug)]
pub enum RequestOutcome {
    /// The agent responded.
    Replied(JsonRpcMessage),
    /// The agent did not respond in time.
    TimedOut,
    /// The request was given up.
    ChannelClosed,
    /// The request could not be written.
    NotSent(String),
}

/// The parameters of an `initialize` request.
pub open spec fn initialize_params() -> JsonView {
    JsonView::Object(
        map![
            "protocolVersion"@ => JsonView::Number(Number::Unsigned(1)),
            "clientCapabilities"@ => JsonView::Object(Map::empty()),
            "clientInfo"@ => JsonView::Object(
                map![
                    "name"@ => JsonView::Text("openab"@),
                    "version"@ => JsonView::Text("0.1.0"@),
                ],
            ),
        ],
    )
}

/// The parameters of a `session/new` request.
pub open spec fn session_new_params(cwd: Seq<char>) -> JsonView {
    JsonView::Object(
        map![
            "cwd"@ => JsonView::Text(cwd),
            "mcpServers"@ => JsonView::Array(Seq::empty()),
        ],
    )
}

/// The parameters of a `session/load` request.
pub open spec fn session_load_params(session: Seq<char>, cwd: Seq<char>) -> JsonView {
    JsonView::Object(
        map![
            "sessionId"@ => JsonView::Text(session),
            "cwd"@ => JsonView::Text(cwd),
            "mcpServers"@ => JsonView::Array(Seq::empty()),
        ],
    )
}

/// The parameters of a `session/set_config_option` request.
pub open spec fn set_config_option_params(
    session: Seq<char>,
    config_id: Seq<char>,
    value: Seq<char>,
) -> JsonView {
    JsonView::Object(
        map![
            "sessionId"@ => JsonView::Text(session),
            "configId"@ => JsonView::Text(config_id),
            "value"@ => JsonView::Text(value),
        ],
    )
}

/// The parameters of a `session/prompt` request.
pub open spec fn prompt_params(session: Seq<char>, prompt: Seq<JsonView>) -> JsonView {
    JsonView::Object(
        map![
            "sessionId"@ => JsonView::Text(session),
            "prompt"@ => JsonView::Array(prompt),
        ],
    )
}

/// The notification that the agent should stop what it does in a session.
pub open spec fn cancel_notification(session: Seq<char>) -> JsonView {
    JsonView::Object(
        map![
            "jsonrpc"@ => JsonView::Text("2.0"@),
            "method"@ => JsonView::Text("session/cancel"@),
            "params"@ => JsonView::Object(map!["sessionId"@ => JsonView::Text(session)]),
        ],
    )
}

/// The command that asks an agent for a setting in a prompt.
pub open spec fn slash_command(config_id: Seq<char>, value: Seq<char>) -> Seq<char> {
    "/"@ + config_id + " "@ + value
}

/// The settings with the value of those named `id` changed.
pub open spec fn with_value(
    options: Seq<ConfigOptionView>,
    id: Seq<char>,
    value: Seq<char>,
) -> Seq<ConfigOptionView> {
    options.map_values(
        |option: ConfigOptionView|
            if option.id == id {
                ConfigOptionView { current_value: value, ..option }
            } else {
                option
            },
    )
}

/// The session that the result of a `session/new` request names.
pub open spec fn created_session(result: Option<JsonView>) -> Option<Seq<char>> {
    match member(result, "sessionId"@) {
        Some(session) => session.as_str(),
        None => None,
    }
}

/// How many seconds the agent has for its response to a request for `method`.
pub open spec fn response_seconds(method: Seq<char>) -> u64 {
    if method == "session/new"@ {
        120
    } else {
        30
    }
}

/// Whether a request for `method` comes to `reply`, given how the wait for its response
/// ended.
pub open spec fn comes_to(
    method: Seq<char>,
    outcome: RequestOutcome,
    reply: Result<JsonRpcMessage, AcpError>,
) -> bool {
    match (outcome, reply) {
        (RequestOutcome::Replied(message), Ok(response)) => message.error is None && response
            == message,
        (RequestOutcome::Replied(message), Err(AcpError::Agent(error))) => message.error == Some(
            error,
        ),
        (RequestOutcome::TimedOut, Err(AcpError::Timeout { method: m })) => m@ == method,
        (RequestOutcome::ChannelClosed, Err(AcpError::ChannelClosed { method: m })) => m@ == method,
        (RequestOutcome::NotSent(cause), Err(AcpError::Transport(text))) => text == cause,
        _ => false,
    }
}

/// Whether a process group is ended in this way.
pub open spec fn ends(group: Option<i32>, termination: Option<Termination>) -> bool {
    match termination {
        Some(t) => {
            &&& group is Some
            &&& group->0 > 0
            &&& t.target == -group->0
            &&& t.first is Terminate
            &&& t.grace_millis == 1500
            &&& t.last is Kill
        },
        None => group is None || group->0 <= 0,
    }
}

/// How many seconds the agent has for its response to a request for `method`.
pub fn request_timeout_secs(method: &str) -> (seconds: u64)
    ensures
        seconds == response_seconds(method@),
        seconds == if method@ == "session/new"@ {
            120u64
        } else {
            30u64
        },
{
    if same_text(method, "session/new") {
        120
    } else {
        30
    }
}

/// What a request for `method` comes to: the response, where the agent responded
/// and reported no error.
pub fn conclude_request(method: &str, outcome: RequestOutcome) -> (reply: Result<
    JsonRpcMessage,
    AcpError,
>)
    ensures
        comes_to(method@, outcome, reply),
        (match outcome {
            RequestOutcome::Replied(message) => match message.error {
                Some(error) => reply == Err::<JsonRpcMessage, AcpError>(AcpError::Agent(error)),
                None => reply == Ok::<JsonRpcMessage, AcpError>(message),
            },
            RequestOutcome::TimedOut => reply matches Err(AcpError::Timeout { method: m }) && m@
                == method@,
            RequestOutcome::ChannelClosed => reply matches Err(
                AcpError::ChannelClosed { method: m },
            ) && m@ == method@,
            RequestOutcome::NotSent(cause) => reply == Err::<JsonRpcMessage, AcpError>(
                AcpError::Transport(cause),
            ),
        }),
{
    match outcome {
        RequestOutcome::Replied(message) => match message.error {
            Some(error) => Err(AcpError::Agent(error)),
            None => Ok(message),
        },
        RequestOutcome::TimedOut => Err(AcpError::Timeout { method: method.to_owned() }),
        RequestOutcome::ChannelClosed => Err(AcpError::ChannelClosed { method: method.to_owned() }),
        RequestOutcome::NotSent(cause) => Err(AcpError::Transport(cause)),
    }
}

impl View for AcpConnection {
    type V = ConnectionView;

    open spec fn view(&self) -> ConnectionView {
        ConnectionView {
            child_pgid: self.process_group@,
            next_id: self.identifiers@,
            session: text_view(self.acp_session_id),
            supports_load_session: self.supports_load_session,
            supports_image: self.supports_image,
            supports_document: self.supports_document,
            config_options: options_view(self.config_options@),
            session_reset: self.session_reset,
        }
    }
}

impl AcpConnection {
    /// The connection to an agent that was just started as process `pid`.
    pub fn spawn(pid: Option<u32>) -> (connection: AcpConnection)
        ensures
            connection@ == ConnectionView::fresh(pid),
    {
        let connection = AcpConnection {
            process_group: ProcessGroup::of(pid),
            identifiers: Identifiers::new(),
            acp_session_id: None,
            supports_load_session: false,
            supports_image: false,
            supports_document: false,
            config_options: Vec::new(),
            session_reset: false,
        };
        assert(connection@.config_options =~= Seq::empty());
        connection
    }

    /// Issues the identifier of a request.
    pub fn next_id(&mut self) -> (id: u64)
        ensures
            id == old(self)@.next_id,
            final(self)@ == old(self)@.issued(),
    {
        self.identifiers.issue()
    }

    /// A request to the agent, under the next identifier. From here on `slot` waits
    /// for the response.
    pub fn send_request<T, S>(
        &mut self,
        router: &mut Router<T, S>,
        method: &str,
        params: Option<Json>,
        slot: T,
    ) -> (request: JsonRpcRequest)
        ensures
            request@ == (RequestView {
                id: old(self)@.next_id,
                method: method@,
                params: json_view(params),
            }),
            request.params == params,
            final(self)@ == old(self)@.issued(),
            final(router)@ == old(router)@.waiting(old(self)@.next_id, slot),
    {
        let id = self.next_id();
        let _displaced = router.register(id, slot);
        JsonRpcRequest::new(id, method, params)
    }

    /// The request that opens the connection. `slot` waits for the response.
    pub fn initialize<T, S>(&mut self, router: &mut Router<T, S>, slot: T) -> (request:
        JsonRpcRequest)
        ensures
            request@ == old(self)@.request("initialize"@, initialize_params()),
            final(self)@ == old(self)@.issued(),
            final(router)@ == old(router)@.waiting(old(self)@.next_id, slot),
    {
        let info = JsonObject::new().with("name", Json::text("openab")).with(
            "version",
            Json::text("0.1.0"),
        );
        let params = JsonObject::new().with(
            "protocolVersion",
            Json::Number(Number::Unsigned(1)),
        ).with("clientCapabilities", Json::Object(JsonObject::new())).with(
            "clientInfo",
            Json::Object(info),
        );
        self.send_request(router, "initialize", Some(Json::Object(params)), slot)
    }

    /// Takes in the reply to the request that opens the connection, and with it
    /// what the agent advertises of itself.
    pub fn initialized(&mut self, reply: Result<JsonRpcMessage, AcpError>) -> (done: Result<
        (),
        AcpError,
    >)
        ensures
            (match reply {
                Ok(message) => {
                    let result = json_view(message.result);
                    &&& done == Ok::<(), AcpError>(())
                    &&& final(self)@ == old(self)@.advertised(result)
                },
                Err(error) => done == Err::<(), AcpError>(error) && final(self)@ == old(self)@,
            }),
    {
        match reply {
            Ok(message) => {
                let result = message.result.as_ref();
                self.supports_load_session = parse_supports_load_session(result);
                self.supports_image = parse_supports_image(result);
                self.supports_document = parse_supports_document(result);
                Ok(())
            },
            Err(error) => Err(error),
        }
    }

    /// The request for a session that works in the directory `cwd`. `slot` waits for
    /// the response.
    pub fn session_new<T, S>(&mut self, router: &mut Router<T, S>, cwd: &str, slot: T) -> (request:
        JsonRpcRequest)
        ensures
            request@ == old(self)@.request("session/new"@, session_new_params(cwd@)),
            final(self)@ == old(self)@.issued(),
            final(router)@ == old(router)@.waiting(old(self)@.next_id, slot),
    {
        let params = JsonObject::new().with("cwd", Json::text(cwd)).with(
            "mcpServers",
            Json::Array(Vec::new()),
        );
        self.send_request(router, "session/new", Some(Json::Object(params)), slot)
    }

    /// Takes in the reply to the request for a session: the session that was
    /// created and its settings `listed`, as the result of the reply lists them.
    pub fn session_created(
        &mut self,
        reply: Result<JsonRpcMessage, AcpError>,
        listed: Vec<ConfigOption>,
    ) -> (done: Result<String, AcpError>)
        ensures
            (match reply {
                Ok(message) => match created_session(json_view(message.result)) {
                    Some(session) => {
                        &&& done matches Ok(id) && id@ == session
                        &&& final(self)@ == old(self)@.in_session(session, options_view(listed@))
                        &&& final(self).config_options == listed
                        &&& final(self).acp_session_id is Some
                        &&& final(self).acp_session_id->0@ == session
                    },
                    None => done == Err::<String, AcpError>(AcpError::NoSessionId) && final(self)@
                        == old(self)@,
                },
                Err(error) => done == Err::<String, AcpError>(error) && final(self)@ == old(self)@,
            }),
    {
        match reply {
            Ok(message) => {
                let session = match &message.result {
                    Some(result) => result.get_str("sessionId"),
                    None => None,
                };
                match session {
                    Some(session) => {
                        self.acp_session_id = Some(session.to_owned());
                        self.config_options = listed;
                        Ok(session.to_owned())
                    },
                    None => Err(AcpError::NoSessionId),
                }
            },
            Err(error) => Err(error),
        }
    }

    /// The request to resume the session `session_id` in the directory `cwd`. `slot`
    /// waits for the response.
    pub fn session_load<T, S>(
        &mut self,
        router: &mut Router<T, S>,
        session_id: &str,
        cwd: &str,
        slot: T,
    ) -> (request: JsonRpcRequest)
        ensures
            request@ == old(self)@.request(
                "session/load"@,
                session_load_params(session_id@, cwd@),
            ),
            final(self)@ == old(self)@.issued(),
            final(router)@ == old(router)@.waiting(old(self)@.next_id, slot),
    {
        let params = JsonObject::new().with("sessionId", Json::text(session_id)).with(
            "cwd",
            Json::text(cwd),
        ).with("mcpServers", Json::Array(Vec::new()));
        self.send_request(router, "session/load", Some(Json::Object(params)), slot)
    }

    /// Takes in the reply to the request to resume the session `session_id`. Any
    /// reply without an error is a success. The settings `listed` are those that
    /// the result of the reply lists; without a result the settings stay as they
    /// are.
    pub fn session_loaded(
        &mut self,
        session_id: &str,
        reply: Result<JsonRpcMessage, AcpError>,
        listed: Vec<ConfigOption>,
    ) -> (done: Result<(), AcpError>)
        ensures
            (match reply {
                Ok(message) => if message.error is Some {
                    done == Err::<(), AcpError>(AcpError::LoadRejected) && final(self)@ == old(
                        self,
                    )@
                } else {
                    &&& done == Ok::<(), AcpError>(())
                    &&& final(self)@ == old(self)@.in_session(
                        session_id@,
                        if message.result is Some {
                            options_view(listed@)
                        } else {
                            old(self)@.config_options
                        },
                    )
                    &&& message.result is Some ==> final(self).config_options == listed
                    &&& message.result is None ==> final(self).config_options == old(
                        self,
                    ).config_options
                    &&& final(self).acp_session_id is Some
                    &&& final(self).acp_session_id->0@ == session_id@
                },
                Err(error) => done == Err::<(), AcpError>(error) && final(self)@ == old(self)@,
            }),
    {
        match reply {
            Ok(message) => {
                if message.error.is_some() {
                    return Err(AcpError::LoadRejected);
                }
                self.acp_session_id = Some(session_id.to_owned());
                if message.result.is_some() {
                    self.config_options = listed;
                }
                Ok(())
            },
            Err(error) => Err(error),
        }
    }

    /// The request to change the setting `config_id` to `value`, and the change as
    /// it is to be made. `slot` waits for the response. There is an error where there
    /// is no session.
    pub fn set_config_option<T, S>(
        &mut self,
        router: &mut Router<T, S>,
        config_id: &str,
        value: &str,
        slot: T,
    ) -> (started: Result<(ConfigChange, JsonRpcRequest), AcpError>)
        ensures
            (match old(self)@.session {
                Some(session) => {
                    &&& started matches Ok(step)
                    &&& step.0@ == (ChangeView { session, config_id: config_id@, value: value@ })
                    &&& step.1@ == old(self)@.request(
                        "session/set_config_option"@,
                        set_config_option_params(session, config_id@, value@),
                    )
                    &&& final(self)@ == old(self)@.issued()
                    &&& final(router)@ == old(router)@.waiting(old(self)@.next_id, slot)
                },
                None => {
                    &&& started == Err::<(ConfigChange, JsonRpcRequest), AcpError>(
                        AcpError::NoSession,
                    )
                    &&& final(self)@ == old(self)@
                    &&& final(router)@ == old(router)@
                },
            }),
    {
        let session_id = match &self.acp_session_id {
            Some(session_id) => session_id.clone(),
            None => {
                return Err(AcpError::NoSession);
            },
        };
        let params = JsonObject::new().with("sessionId", Json::text(session_id.as_str())).with(
            "configId",
            Json::text(config_id),
        ).with("value", Json::text(value));
        let request = self.send_request(
            router,
            "session/set_config_option",
            Some(Json::Object(params)),
            slot,
        );
        let change = ConfigChange {
            session_id,
            config_id: config_id.to_owned(),
            value: value.to_owned(),
        };
        Ok((change, request))
    }

    /// Takes in the reply to the request for a change. Where the request failed,
    /// the change has to be asked for in a prompt. Else the settings are those
    /// `listed` in the result of the reply, where there is one, and all of them are
    /// returned.
    pub fn set_config_option_replied(
        &mut self,
        reply: Result<JsonRpcMessage, AcpError>,
        listed: Vec<ConfigOption>,
    ) -> (step: ConfigStep)
        ensures
            (match reply {
                Ok(message) => {
                    let options = if message.result is Some {
                        options_view(listed@)
                    } else {
                        old(self)@.config_options
                    };
                    &&& step matches ConfigStep::Done(all)
                    &&& options_view(all@) == options
                    &&& final(self)@ == old(self)@.configured(options)
                    &&& message.result is Some ==> final(self).config_options == listed
                    &&& message.result is None ==> final(self).config_options == old(
                        self,
                    ).config_options
                },
                Err(_) => step is Prompt && final(self)@ == old(self)@,
            }),
    {
        match reply {
            Ok(message) => {
                if message.result.is_some() {
                    self.config_options = listed;
                }
                ConfigStep::Done(copy_options(&self.config_options))
            },
            Err(_) => ConfigStep::Prompt,
        }
    }

    /// The prompt that asks for a change, as a command such as `/model name`. `slot`
    /// waits for the response.
    pub fn set_config_option_prompt<T, S>(
        &mut self,
        router: &mut Router<T, S>,
        change: &ConfigChange,
        slot: T,
    ) -> (request: JsonRpcRequest)
        ensures
            request@ == old(self)@.request(
                "session/prompt"@,
                prompt_params(
                    change@.session,
                    seq![text_block_json(slash_command(change@.config_id, change@.value))],
                ),
            ),
            final(self)@ == old(self)@.issued(),
            final(router)@ == old(router)@.waiting(old(self)@.next_id, slot),
    {
        let command = "/".to_owned().concat(change.config_id.as_str()).concat(" ").concat(
            change.value.as_str(),
        );
        let block = ContentBlock::Text { text: command };
        let mut prompt: Vec<Json> = Vec::new();
        prompt.push(block.to_json());
        proof {
            lemma_elements_view(prompt@);
            assert(elements_view(prompt@) =~= seq![prompt@[0]@]);
        }
        let params = JsonObject::new().with(
            "sessionId",
            Json::text(change.session_id.as_str()),
        ).with("prompt", Json::Array(prompt));
        self.send_request(router, "session/prompt", Some(Json::Object(params)), slot)
    }

    /// Takes in the reply to the prompt that asks for a change: the setting has its
    /// new value, and all settings are returned.
    pub fn set_config_option_prompted(
        &mut self,
        change: &ConfigChange,
        reply: Result<JsonRpcMessage, AcpError>,
    ) -> (done: Result<Vec<ConfigOption>, AcpError>)
        ensures
            (match reply {
                Ok(_) => {
                    let options = with_value(
                        old(self)@.config_options,
                        change@.config_id,
                        change@.value,
                    );
                    &&& done matches Ok(all)
                    &&& options_view(all@) == options
                    &&& final(self)@ == old(self)@.configured(options)
                },
                Err(error) => done == Err::<Vec<ConfigOption>, AcpError>(error) && final(self)@
                    == old(self)@,
            }),
    {
        match reply {
            Ok(_) => {
                let ghost before = self.config_options@;
                let mut i: usize = 0;
                while i < self.config_options.len()
                    invariant
                        0 <= i <= self.config_options@.len(),
                        self.config_options@.len() == before.len(),
                        before == old(self).config_options@,
                        *self == (AcpConnection {
                            config_options: self.config_options,
                            ..*old(self)
                        }),
                        forall|j: int|
                            i <= j < before.len() ==> #[trigger] self.config_options@[j]
                                == before[j],
                        forall|j: int|
                            0 <= j < i ==> (#[trigger] self.config_options@[j])@ == (if before[j]@.id
                                == change@.config_id {
                                ConfigOptionView { current_value: change@.value, ..before[j]@ }
                            } else {
                                before[j]@
                            }),
                    decreases self.config_options.len() - i,
                {
                    if same_text(self.config_options[i].id.as_str(), change.config_id.as_str()) {
                        self.config_options[i].current_value = change.value.clone();
                    }
                    i = i + 1;
                }
                assert(self@.config_options =~= with_value(
                    old(self)@.config_options,
                    change@.config_id,
                    change@.value,
                ));
                Ok(copy_options(&self.config_options))
            },
            Err(error) => Err(error),
        }
    }

    /// The request to prompt the agent with content blocks, and how many blocks
    /// were left out because the agent did not advertise that it takes them. From
    /// here on `subscriber` gets the agent's messages, and `slot` waits for the
    /// response. Instead of the request there is an error where there is no session;
    /// the subscriber then stays as it was.
    pub fn session_prompt<T, S>(
        &mut self,
        router: &mut Router<T, S>,
        content_blocks: Vec<ContentBlock>,
        subscriber: S,
        slot: T,
    ) -> (prompt: Prompt)
        ensures
            prompt.stripped_images == content_blocks@.len() - images_gated(
                content_blocks@,
                old(self)@.supports_image,
            ).len(),
            prompt.stripped_documents == images_gated(
                content_blocks@,
                old(self)@.supports_image,
            ).len() - old(self)@.gated(content_blocks@).len(),
            (match old(self)@.session {
                Some(session) => {
                    &&& prompt.request matches Ok(request)
                    &&& request@ == old(self)@.request(
                        "session/prompt"@,
                        prompt_params(session, blocks_json(old(self)@.gated(content_blocks@))),
                    )
                    &&& final(self)@ == old(self)@.issued()
                    &&& final(router)@ == old(router)@.subscribed(subscriber).waiting(
                        old(self)@.next_id,
                        slot,
                    )
                },
                None => {
                    &&& prompt.request == Err::<JsonRpcRequest, AcpError>(AcpError::NoSession)
                    &&& final(self)@ == old(self)@
                    &&& final(router)@ == old(router)@
                },
            }),
    {
        let before: usize = content_blocks.len();
        proof {
            gates_do_not_add(content_blocks@, self.supports_image);
        }
        let content_blocks = gate_image_blocks(content_blocks, self.supports_image);
        let between: usize = content_blocks.len();
        proof {
            gates_do_not_add(content_blocks@, self.supports_document);
        }
        let content_blocks = gate_document_blocks(content_blocks, self.supports_document);
        let after: usize = content_blocks.len();
        let session_id = match &self.acp_session_id {
            Some(session_id) => Some(session_id.clone()),
            None => None,
        };
        let request = match session_id {
            Some(session_id) => {
                router.subscribe(subscriber);
                let params = JsonObject::new().with("sessionId", Json::Text(session_id)).with(
                    "prompt",
                    Json::Array(blocks_to_json(&content_blocks)),
                );
                Ok(self.send_request(router, "session/prompt", Some(Json::Object(params)), slot))
            },
            None => Err(AcpError::NoSession),
        };
        Prompt {
            request,
            stripped_images: before - between,
            stripped_documents: between - after,
        }
    }

    /// Takes in that a prompt has run its course: nobody gets the agent's messages
    /// any longer.
    pub fn prompt_done<T, S>(&mut self, router: &mut Router<T, S>)
        ensures
            final(self)@ == old(self)@,
            final(router)@ == (RouterView { subscriber: None, ..old(router)@ }),
    {
        router.unsubscribe();
    }

    /// Gives up the request `request_id`. Where there is a session, the
    /// notification that the agent should stop is returned; it is no request, and
    /// the agent does not respond to it.
    pub fn abandon_request<T, S>(&self, router: &mut Router<T, S>, request_id: u64) -> (
        notification: Option<Json>)
        ensures
            final(router)@ == old(router)@.abandoned(request_id),
            (match self@.session {
                Some(session) => notification matches Some(doc) && doc@ == cancel_notification(
                    session,
                ),
                None => notification is None,
            }),
    {
        router.forget(request_id);
        match &self.acp_session_id {
            Some(session_id) => {
                let params = JsonObject::new().with("sessionId", Json::text(session_id.as_str()));
                Some(
                    Json::Object(
                        JsonObject::new().with("jsonrpc", Json::text("2.0")).with(
                            "method",
                            Json::text("session/cancel"),
                        ).with("params", Json::Object(params)),
                    ),
                )
            },
            None => None,
        }
    }

    /// How the processes of the agent are ended: nothing is done where no process
    /// group of the agent is known.
    pub fn kill_process_group(&self) -> (termination: Option<Termination>)
        ensures
            ends(self@.child_pgid, termination),
            (match self@.child_pgid {
                Some(group) => if group > 0 {
                    &&& termination matches Some(t)
                    &&& t.target == -group
                    &&& t.first is Terminate
                    &&& t.grace_millis == 1500
                    &&& t.last is Kill
                } else {
                    termination is None
                },
                None => termination is None,
            }),
    {
        match self.process_group.leader {
            Some(group) => if group > 0 {
                Some(
                    Termination {
                        target: -group,
                        first: Signal::Terminate,
                        grace_millis: 1500,
                        last: Signal::Kill,
                    },
                )
            } else {
                None
            },
            None => None,
        }
    }
}

/// What comes of a prompt.
#[derive(Debug)]
pub struct Prompt {
    /// The request that is to be sent to the agent, or why there is none.
    pub request: Result<JsonRpcRequest, AcpError>,
    /// How many image blocks were left out.
    pub stripped_images: usize,
    /// How many document blocks were left out.
    pub stripped_documents: usize,
}

/// A signal to the processes of an agent.
#[derive(Debug, Clone, Copy)]
pub enum Signal {
    /// The processes are asked to end.
    Terminate,
    /// The processes are ended.
    Kill,
}

/// How a process group is ended: it gets one signal, and another when the time of
/// grace is over.
#[derive(Debug)]
pub struct Termination {
    /// The process group, as the target of a signal: the negative of its number.
    pub target: i32,
    /// The signal that is sent at once.
    pub first: Signal,
    /// The time of grace, in milliseconds.
    pub grace_millis: u64,
    /// The signal that is sent after the time of grace.
    pub last: Signal,
}

/// A change of a setting that is under way.
#[derive(Debug)]
pub struct ConfigChange {
    pub session_id: String,
    pub config_id: String,
    pub value: String,
}

/// What a change of a setting is about.
pub struct ChangeView {
    pub session: Seq<char>,
    pub config_id: Seq<char>,
    pub value: Seq<char>,
}

impl View for ConfigChange {
    type V = ChangeView;

    open spec fn view(&self) -> ChangeView {
        ChangeView {
            session: self.session_id@,
            config_id: self.config_id@,
            value: self.value@,
        }
    }
}

/// What comes next in a change of a setting.
#[derive(Debug)]
pub enum ConfigStep {
    /// The change is made; these are all settings.
    Done(Vec<ConfigOption>),
    /// The agent has to be asked for the change in a prompt.
    Prompt,
}

/// The identifier that a connection issues after `count` others.
pub open spec fn issued_after(connection: ConnectionView, count: nat) -> u64
    decreases count,
{
    if count == 0 {
        connection.next_id
    } else {
        issued_after(connection.issued(), (count - 1) as nat)
    }
}

/// Identifiers are issued in ascending order, without a gap, as long as they last.
pub proof fn identifiers_ascend(connection: ConnectionView, count: nat)
    requires
        connection.next_id + count <= u64::MAX,
    ensures
        issued_after(connection, count) == connection.next_id + count,
    decreases count,
{
    if count > 0 {
        identifiers_ascend(connection.issued(), (count - 1) as nat);
    }
}

/// A connection issues an identifier again only after all others.
pub proof fn identifiers_do_not_repeat(connection: ConnectionView, earlier: nat, later: nat)
    requires
        earlier < later,
        later - earlier <= u64::MAX,
    ensures
        issued_after(connection, earlier) != issued_after(connection, later),
{
    lemma_issued_modulo(connection, earlier);
    lemma_issued_modulo(connection, later);
    let m: int = u64::MAX + 1;
    let a: int = connection.next_id + earlier;
    let b: int = connection.next_id + later;
    if a % m == b % m {
        vstd::arithmetic::div_mod::lemma_fundamental_div_mod(a, m);
        vstd::arithmetic::div_mod::lemma_fundamental_div_mod(b, m);
        assert(b - a == m * (b / m) - m * (a / m));
        assert(m * (b / m) - m * (a / m) == m * (b / m - a / m)) by (nonlinear_arith);
        let k: int = b / m - a / m;
        assert(m * k < m && m * k > 0);
        assert(false) by (nonlinear_arith)
            requires
                m > 0,
                m * k < m,
                m * k > 0,
        ;
    }
}

/// Identifiers are counted modulo their number.
proof fn lemma_issued_modulo(connection: ConnectionView, count: nat)
    ensures
        issued_after(connection, count) as int == (connection.next_id + count) % (u64::MAX + 1),
    decreases count,
{
    let m: int = u64::MAX + 1;
    if count > 0 {
        lemma_issued_modulo(connection.issued(), (count - 1) as nat);
        let n: int = connection.next_id + count;
        if connection.next_id == u64::MAX {
            assert(n - m == 0 + (count - 1));
            vstd::arithmetic::div_mod::lemma_mod_add_multiples_vanish(n - m, m);
        }
    } else {
        vstd::arithmetic::div_mod::lemma_small_mod(connection.next_id as nat, m as nat);
    }
}

/// Whether every request that waits was issued by the connection.
pub open spec fn waiting_were_issued<T, S>(
    connection: ConnectionView,
    router: RouterView<T, S>,
) -> bool {
    forall|id: u64| #[trigger]
        router.pending.contains_key(id) ==> 1 <= id && id < connection.next_id
}

/// No request waits when an agent was just started; and what is issued and what
/// waits keep in step when an identifier is issued, when the request with that
/// identifier starts to wait, when a message comes in, when a request is abandoned,
/// when the subscriber changes and when the connection closes, as long as the
/// identifiers last.
pub proof fn waiting_requests_stay_issued<T, S>(
    connection: ConnectionView,
    router: RouterView<T, S>,
    pid: Option<u32>,
    slot: T,
    message: MessageView,
    id: u64,
    subscriber: Option<S>,
)
    requires
        waiting_were_issued(connection, router),
        1 <= connection.next_id < u64::MAX,
    ensures
        waiting_were_issued(
            ConnectionView::fresh(pid),
            RouterView::<T, S>::empty(),
        ),
        waiting_were_issued(connection.issued(), router),
        waiting_were_issued(connection.issued(), router.waiting(connection.next_id, slot)),
        waiting_were_issued(connection, router.after(message)),
        waiting_were_issued(connection, router.abandoned(id)),
        waiting_were_issued(connection, RouterView { subscriber, ..router }),
{
}

/// A request under a newly issued identifier displaces no request that waits.
pub proof fn a_new_request_displaces_none<T, S>(
    connection: ConnectionView,
    router: RouterView<T, S>,
)
    requires
        waiting_were_issued(connection, router),
    ensures
        !router.pending.contains_key(connection.next_id),
{
}

/// Until an agent advertises more, it is prompted with texts alone: all of them, in
/// their order.
pub proof fn a_fresh_agent_gets_texts_only(pid: Option<u32>, blocks: Seq<ContentBlock>)
    ensures
        ConnectionView::fresh(pid).gated(blocks) == text_blocks(blocks),
{
    both_gates_leave_texts(blocks);
}

/// After any changes the agent takes what it last advertised, and nothing that it did
/// not advertise.
pub proof fn only_the_last_advertisement_counts(pid: Option<u32>, changes: Seq<ConnectionChange>)
    ensures
        ({
            let connection = ConnectionView::fresh(pid).after_all(changes);
            let result = last_advertised(changes);
            &&& connection.supports_load_session == is_true(load_session_capability(result))
            &&& connection.supports_image == is_true(prompt_capability(result, "image"@))
            &&& connection.supports_document == is_true(prompt_capability(result, "document"@))
        }),
    decreases changes.len(),
{
    if changes.len() > 0 {
        only_the_last_advertisement_counts(pid, changes.drop_last());
    }
}

/// As long as an agent has advertised neither images nor documents, it is prompted
/// with texts alone, whatever else has happened: all of them, in their order.
pub proof fn an_agent_gets_texts_only_until_it_advertises_more(
    pid: Option<u32>,
    changes: Seq<ConnectionChange>,
    blocks: Seq<ContentBlock>,
)
    requires
        forall|i: int|
            0 <= i < changes.len() ==> (#[trigger] changes[i] matches ConnectionChange::Advertised(
                result,
            ) ==> !is_true(prompt_capability(result, "image"@)) && !is_true(
                prompt_capability(result, "document"@),
            )),
    ensures
        ConnectionView::fresh(pid).after_all(changes).gated(blocks) == text_blocks(blocks),
{
    lemma_last_advertised(changes);
    only_the_last_advertisement_counts(pid, changes);
    both_gates_leave_texts(blocks);
}

/// What was last advertised was advertised in some change, or nothing was.
proof fn lemma_last_advertised(changes: Seq<ConnectionChange>)
    ensures
        last_advertised(changes) is None || exists|i: int|
            0 <= i < changes.len() && #[trigger] changes[i] == ConnectionChange::Advertised(
                last_advertised(changes),
            ),
    decreases changes.len(),
{
    if changes.len() > 0 {
        let last = changes.len() - 1;
        if changes[last] is Advertised {
            assert(changes[last] == ConnectionChange::Advertised(last_advertised(changes)));
        } else {
            let rest = changes.drop_last();
            lemma_last_advertised(rest);
            if last_advertised(rest) is Some {
                let i = choose|i: int|
                    0 <= i < rest.len() && #[trigger] rest[i] == ConnectionChange::Advertised(
                        last_advertised(rest),
                    );
                assert(changes[i] == rest[i]);
            }
        }
    }
}

/// A prompt of texts alone is sent as it is, whatever the agent advertised.
pub proof fn text_prompts_are_sent_as_they_are(
    connection: ConnectionView,
    blocks: Seq<ContentBlock>,
)
    requires
        forall|i: int| 0 <= i < blocks.len() ==> (#[trigger] blocks[i]) is Text,
    ensures
        connection.gated(blocks) == blocks,
{
    image_gate_is_noop_without_images(blocks, connection.supports_image);
    document_gate_is_noop_without_documents(blocks, connection.supports_document);
}

/// The messages that follow a prompt go to the subscriber of that prompt, up to the
/// response to it, which it gets under the identifier of the prompt. The slot of the
/// prompt gets the response too.
pub proof fn the_response_to_a_prompt_reaches_the_subscriber<T, S>(
    connection: ConnectionView,
    router: RouterView<T, S>,
    subscriber: S,
    slot: T,
    earlier: Seq<MessageView>,
    response: MessageView,
)
    requires
        forall|i: int|
            0 <= i < earlier.len() ==> !responds_to(#[trigger] earlier[i], connection.next_id),
        responds_to(response, connection.next_id),
    ensures
        ({
            let prompted = router.subscribed(subscriber).waiting(connection.next_id, slot);
            let at_last = prompted.after_all(earlier);
            &&& at_last.subscriber == Some(subscriber)
            &&& at_last.route(response) == (RoutedView::Resolved {
                slot,
                reply: response,
                copy: Some(response.outcome()),
            })
            &&& response.outcome().id == Some(connection.next_id)
            &&& forall|i: int|
                #![trigger earlier[i]]
                0 <= i < earlier.len() && !asks_permission(earlier[i]) ==> (
                prompted.after_all(earlier.take(i)).subscriber == Some(subscriber) && (
                match prompted.after_all(earlier.take(i)).route(earlier[i]) {
                    RoutedView::Resolved { slot, reply, copy } => copy == Some(
                        earlier[i].outcome(),
                    ),
                    RoutedView::Forwarded(forwarded) => forwarded == earlier[i],
                    _ => false,
                }))
        }),
{
    let prompted = router.subscribed(subscriber).waiting(connection.next_id, slot);
    a_request_waits_until_its_response(prompted, earlier, connection.next_id);
    assert forall|i: int|
        #![trigger earlier[i]]
        0 <= i < earlier.len() && !asks_permission(earlier[i]) implies (prompted.after_all(
        earlier.take(i),
    ).subscriber == Some(subscriber) && (match prompted.after_all(earlier.take(i)).route(
        earlier[i],
    ) {
        RoutedView::Resolved { slot, reply, copy } => copy == Some(earlier[i].outcome()),
        RoutedView::Forwarded(forwarded) => forwarded == earlier[i],
        _ => false,
    })) by {
        a_request_waits_until_its_response(prompted, earlier.take(i), connection.next_id);
        the_subscriber_sees_every_message(prompted.after_all(earlier.take(i)), earlier[i]);
    }
}

/// The response to a prompt that was given up resolves nothing: it goes to whoever
/// subscribes by then, and leaves the requests that wait untouched.
pub proof fn an_abandoned_prompt_is_not_resolved<T, S>(
    connection: ConnectionView,
    router: RouterView<T, S>,
    first: S,
    slot: T,
    next: S,
    response: MessageView,
)
    requires
        responds_to(response, connection.next_id),
    ensures
        ({
            let given_up = router.subscribed(first).waiting(connection.next_id, slot).abandoned(
                connection.next_id,
            ).subscribed(next);
            &&& given_up.route(response) == RoutedView::<T>::Forwarded(response)
            &&& given_up.after(response) == given_up
        }),
{
}

/// A change of one setting leaves the others as they are, keeps their order, and
/// sets the one to its new value.
pub proof fn a_change_concerns_one_setting(
    options: Seq<ConfigOptionView>,
    id: Seq<char>,
    value: Seq<char>,
    i: int,
)
    requires
        0 <= i < options.len(),
    ensures
        with_value(options, id, value).len() == options.len(),
        with_value(options, id, value)[i].id == options[i].id,
        with_value(options, id, value)[i].details == options[i].details,
        options[i].id != id ==> with_value(options, id, value)[i] == options[i],
        options[i].id == id ==> with_value(options, id, value)[i].current_value == value,
{
}

/// What is known of a connection is what it holds.
pub proof fn connections_are_known_by_what_they_hold(connection: AcpConnection)
    ensures
        connection@.child_pgid == connection.process_group@,
        connection@.next_id == connection.identifiers@,
        connection.acp_session_id is Some <==> connection@.session is Some,
        connection.acp_session_id is Some ==> connection@.session->0
            == connection.acp_session_id->0@,
        connection@.supports_load_session == connection.supports_load_session,
        connection@.supports_image == connection.supports_image,
        connection@.supports_document == connection.supports_document,
        connection@.session_reset == connection.session_reset,
        connection@.config_options.len() == connection.config_options@.len(),
        forall|i: int|
            0 <= i < connection.config_options@.len() ==> {
                &&& (#[trigger] connection@.config_options[i]).id
                    == connection.config_options@[i].id@
                &&& connection@.config_options[i].current_value
                    == connection.config_options@[i].current_value@
                &&& connection@.config_options[i].details == connection.config_options@[i].details@
            },
{
}

/// Of an agent that was just started nothing is known but its process group, which is
/// that of its process wherever the identifier of the process can be one; and the first
/// identifier is one.
pub proof fn nothing_is_known_of_a_fresh_agent(pid: Option<u32>)
    ensures
        ({
            let connection = ConnectionView::fresh(pid);
            &&& connection.next_id == 1
            &&& connection.session is None
            &&& !connection.supports_load_session
            &&& !connection.supports_image
            &&& !connection.supports_document
            &&& connection.config_options.len() == 0
            &&& !connection.session_reset
            &&& connection.child_pgid is Some <==> pid is Some && pid->0 <= 0x7fff_ffff
            &&& connection.child_pgid is Some ==> connection.child_pgid->0 == pid->0
        }),
{
}

/// A request takes the next identifier: the one after it is one higher, and zero after
/// the highest. Nothing else of the connection changes.
pub proof fn a_request_takes_the_next_identifier(
    connection: ConnectionView,
    method: Seq<char>,
    params: JsonView,
)
    ensures
        connection.request(method, params).id == connection.next_id,
        connection.request(method, params).method == method,
        connection.request(method, params).params == Some(params),
        connection.next_id < 0xffff_ffff_ffff_ffff ==> connection.issued().next_id
            == connection.next_id + 1,
        connection.next_id == 0xffff_ffff_ffff_ffff ==> connection.issued().next_id == 0,
        connection.issued().child_pgid == connection.child_pgid,
        connection.issued().session == connection.session,
        connection.issued().supports_load_session == connection.supports_load_session,
        connection.issued().supports_image == connection.supports_image,
        connection.issued().supports_document == connection.supports_document,
        connection.issued().config_options == connection.config_options,
        connection.issued().session_reset == connection.session_reset,
{
}

/// After `initialize` each flag holds exactly where the result advertises that very
/// capability, whatever held before. Nothing else of the connection changes.
pub proof fn each_flag_is_that_of_its_capability(
    connection: ConnectionView,
    result: Option<JsonView>,
)
    ensures
        ({
            let after = connection.advertised(result);
            &&& after.supports_load_session <==> result is Some && advertises_loading(result->0)
            &&& after.supports_image <==> result is Some && advertises_prompts(
                result->0,
                "image"@,
            )
            &&& after.supports_document <==> result is Some && advertises_prompts(
                result->0,
                "document"@,
            )
            &&& after.child_pgid == connection.child_pgid
            &&& after.next_id == connection.next_id
            &&& after.session == connection.session
            &&& after.config_options == connection.config_options
            &&& after.session_reset == connection.session_reset
        }),
{
    capabilities_are_taken_where_advertised(result, "image"@);
    capabilities_are_taken_where_advertised(result, "document"@);
}

/// A session that is entered is kept with all of its settings, each at its place, and
/// settings that change are kept in the same way. Nothing else of the connection
/// changes.
pub proof fn sessions_and_settings_are_kept_whole(
    connection: ConnectionView,
    session: Seq<char>,
    options: Seq<ConfigOptionView>,
)
    ensures
        ({
            let entered = connection.in_session(session, options);
            let configured = connection.configured(options);
            &&& entered.session == Some(session)
            &&& configured.session == connection.session
            &&& entered.config_options.len() == options.len()
            &&& configured.config_options.len() == options.len()
            &&& forall|i: int|
                0 <= i < options.len() ==> #[trigger] entered.config_options[i] == options[i]
            &&& forall|i: int|
                0 <= i < options.len() ==> #[trigger] configured.config_options[i] == options[i]
            &&& entered.child_pgid == connection.child_pgid
            &&& entered.next_id == connection.next_id
            &&& entered.supports_load_session == connection.supports_load_session
            &&& entered.supports_image == connection.supports_image
            &&& entered.supports_document == connection.supports_document
            &&& entered.session_reset == connection.session_reset
            &&& configured.child_pgid == connection.child_pgid
            &&& configured.next_id == connection.next_id
            &&& configured.supports_load_session == connection.supports_load_session
            &&& configured.supports_image == connection.supports_image
            &&& configured.supports_document == connection.supports_document
            &&& configured.session_reset == connection.session_reset
        }),
{
}

/// What a connection holds after a session was created is exactly what the reply names
/// and what was listed, setting for setting.
pub proof fn a_created_session_has_the_listed_settings(
    before: ConnectionView,
    session: Seq<char>,
    listed: Seq<ConfigOption>,
    after: AcpConnection,
)
    requires
        after@ == before.in_session(session, options_view(listed)),
    ensures
        after.acp_session_id is Some,
        after.acp_session_id->0@ == session,
        after.config_options@.len() == listed.len(),
        forall|i: int|
            0 <= i < listed.len() ==> {
                &&& (#[trigger] after.config_options@[i]).id@ == listed[i].id@
                &&& after.config_options@[i].current_value@ == listed[i].current_value@
                &&& after.config_options@[i].details@ == listed[i].details@
            },
        after.supports_image == before.supports_image,
        after.supports_document == before.supports_document,
        after.supports_load_session == before.supports_load_session,
{
    assert(after@.config_options.len() == listed.len());
    assert forall|i: int| 0 <= i < listed.len() implies {
        &&& (#[trigger] after.config_options@[i]).id@ == listed[i].id@
        &&& after.config_options@[i].current_value@ == listed[i].current_value@
        &&& after.config_options@[i].details@ == listed[i].details@
    } by {
        assert(after@.config_options[i] == after.config_options@[i]@);
        assert(options_view(listed)[i] == listed[i]@);
    }
}

/// The session that a reply creates is the text `sessionId` of its result, and there
/// is none without such a text.
pub proof fn the_reply_names_the_session(result: Option<JsonView>, session: Seq<char>)
    ensures
        created_session(result) == Some(session) <==> result is Some && has_text(
            result->0,
            "sessionId"@,
            session,
        ),
{
}

/// The blocks that are sent are, in their order, the texts, the images where the agent
/// takes images, and the documents where it takes documents. Each flag decides about its
/// own kind of block alone.
pub proof fn an_agent_gets_exactly_what_it_takes(
    connection: ConnectionView,
    blocks: Seq<ContentBlock>,
)
    ensures
        connection.gated(blocks) == blocks.filter(
            |block: ContentBlock|
                block is Text || (block is Image && connection.supports_image) || (block is Document
                    && connection.supports_document),
        ),
        text_blocks(connection.gated(blocks)) == blocks.filter(
            |block: ContentBlock| block is Text,
        ),
        image_blocks(connection.gated(blocks)) == blocks.filter(
            |block: ContentBlock| block is Image && connection.supports_image,
        ),
        document_blocks(connection.gated(blocks)) == blocks.filter(
            |block: ContentBlock| block is Document && connection.supports_document,
        ),
{
    let images = connection.supports_image;
    let documents = connection.supports_document;
    let p = |block: ContentBlock| images || block is Text || block is Document;
    let q = |block: ContentBlock| documents || block is Text || block is Image;
    let both = |block: ContentBlock|
        block is Text || (block is Image && images) || (block is Document && documents);
    gates_decide_about_their_own_kind(blocks, images);
    gates_decide_about_their_own_kind(images_gated(blocks, images), documents);
    lemma_filter_filter(blocks, p, q, both);
    let wanted = |block: ContentBlock|
        block is Text || (block is Image && connection.supports_image) || (block is Document
            && connection.supports_document);
    lemma_filter_same(blocks, both, wanted);
    lemma_filter_filter(
        blocks,
        both,
        |block: ContentBlock| block is Text,
        |block: ContentBlock| block is Text,
    );
    lemma_filter_filter(
        blocks,
        both,
        |block: ContentBlock| block is Image,
        |block: ContentBlock| block is Image && connection.supports_image,
    );
    lemma_filter_filter(
        blocks,
        both,
        |block: ContentBlock| block is Document,
        |block: ContentBlock| block is Document && connection.supports_document,
    );
}

/// The prompt that is sent names the session and holds the forms of the blocks that the
/// agent takes, one for one and in their order, and nothing else.
pub proof fn a_prompt_holds_what_the_agent_takes(
    connection: ConnectionView,
    session: Seq<char>,
    blocks: Seq<ContentBlock>,
)
    ensures
        ({
            let params = prompt_params(session, blocks_json(connection.gated(blocks)));
            let taken = blocks.filter(
                |block: ContentBlock|
                    block is Text || (block is Image && connection.supports_image) || (
                    block is Document && connection.supports_document),
            );
            &&& has_exactly(params, set!["sessionId"@, "prompt"@])
            &&& has_text(params, "sessionId"@, session)
            &&& has_member(
                params,
                "prompt"@,
                JsonView::Array(taken.map_values(|block: ContentBlock| block_json(block))),
            )
        }),
{
    an_agent_gets_exactly_what_it_takes(connection, blocks);
    let taken = connection.gated(blocks);
    assert(blocks_json(taken) =~= taken.map_values(|block: ContentBlock| block_json(block)));
    prompts_name_the_session(session, blocks_json(taken));
}

/// The parameters of a prompt are the session and the prompt.
pub proof fn prompts_name_the_session(session: Seq<char>, prompt: Seq<JsonView>)
    ensures
        has_text(prompt_params(session, prompt), "sessionId"@, session),
        has_member(prompt_params(session, prompt), "prompt"@, JsonView::Array(prompt)),
        has_exactly(prompt_params(session, prompt), set!["sessionId"@, "prompt"@]),
{
    reveal_strlit("sessionId");
    reveal_strlit("prompt");
    assert("sessionId"@.len() == 9 && "prompt"@.len() == 6);
    assert(prompt_params(session, prompt)->Object_0.dom() =~= set!["sessionId"@, "prompt"@]);
}

/// The parameters of the requests for sessions: the directory, no servers, and the
/// session that is to be loaded.
pub proof fn sessions_are_requested_for_a_directory(session: Seq<char>, cwd: Seq<char>)
    ensures
        has_text(session_new_params(cwd), "cwd"@, cwd),
        has_member(session_new_params(cwd), "mcpServers"@, JsonView::Array(Seq::empty())),
        has_exactly(session_new_params(cwd), set!["cwd"@, "mcpServers"@]),
        has_text(session_load_params(session, cwd), "sessionId"@, session),
        has_text(session_load_params(session, cwd), "cwd"@, cwd),
        has_member(session_load_params(session, cwd), "mcpServers"@, JsonView::Array(Seq::empty())),
        has_exactly(session_load_params(session, cwd), set!["sessionId"@, "cwd"@, "mcpServers"@]),
{
    reveal_strlit("sessionId");
    reveal_strlit("cwd");
    reveal_strlit("mcpServers");
    assert("sessionId"@.len() == 9 && "cwd"@.len() == 3 && "mcpServers"@.len() == 10);
    assert(session_new_params(cwd)->Object_0.dom() =~= set!["cwd"@, "mcpServers"@]);
    assert(session_load_params(session, cwd)->Object_0.dom() =~= set![
        "sessionId"@,
        "cwd"@,
        "mcpServers"@,
    ]);
}

/// The parameters of a change name the session, the setting and the value.
pub proof fn changes_name_the_setting_and_the_value(
    session: Seq<char>,
    config_id: Seq<char>,
    value: Seq<char>,
)
    ensures
        ({
            let params = set_config_option_params(session, config_id, value);
            &&& has_text(params, "sessionId"@, session)
            &&& has_text(params, "configId"@, config_id)
            &&& has_text(params, "value"@, value)
            &&& has_exactly(params, set!["sessionId"@, "configId"@, "value"@])
        }),
        slash_command(config_id, value) == "/"@ + config_id + " "@ + value,
{
    reveal_strlit("sessionId");
    reveal_strlit("configId");
    reveal_strlit("value");
    assert("sessionId"@.len() == 9 && "configId"@.len() == 8 && "value"@.len() == 5);
    assert(set_config_option_params(session, config_id, value)->Object_0.dom() =~= set![
        "sessionId"@,
        "configId"@,
        "value"@,
    ]);
}

/// The client introduces itself by its name and version, with the version of the
/// protocol and without capabilities.
pub proof fn the_client_introduces_itself() -> (said: (JsonView, JsonView))
    ensures
        has_member(initialize_params(), "clientCapabilities"@, said.0),
        has_member(initialize_params(), "clientInfo"@, said.1),
        has_member(
            initialize_params(),
            "protocolVersion"@,
            JsonView::Number(Number::Unsigned(1)),
        ),
        has_exactly(
            initialize_params(),
            set!["protocolVersion"@, "clientCapabilities"@, "clientInfo"@],
        ),
        has_exactly(said.0, Set::empty()),
        has_exactly(said.1, set!["name"@, "version"@]),
        has_text(said.1, "name"@, "openab"@),
        has_text(said.1, "version"@, "0.1.0"@),
{
    reveal_strlit("protocolVersion");
    reveal_strlit("clientCapabilities");
    reveal_strlit("clientInfo");
    reveal_strlit("name");
    reveal_strlit("version");
    assert("protocolVersion"@.len() == 15 && "clientCapabilities"@.len() == 18);
    assert("clientInfo"@.len() == 10 && "name"@.len() == 4 && "version"@.len() == 7);
    assert(initialize_params()->Object_0.dom() =~= set![
        "protocolVersion"@,
        "clientCapabilities"@,
        "clientInfo"@,
    ]);
    let capabilities = initialize_params()->Object_0["clientCapabilities"@];
    let info = initialize_params()->Object_0["clientInfo"@];
    assert(capabilities->Object_0.dom() =~= Set::empty());
    assert(info->Object_0.dom() =~= set!["name"@, "version"@]);
    (capabilities, info)
}

/// The notification that the agent should stop names the session. It has no identifier,
/// so that the agent does not respond to it.
pub proof fn a_cancellation_is_a_notification(session: Seq<char>) -> (params: JsonView)
    ensures
        has_member(cancel_notification(session), "params"@, params),
        has_text(cancel_notification(session), "jsonrpc"@, "2.0"@),
        has_text(cancel_notification(session), "method"@, "session/cancel"@),
        has_exactly(cancel_notification(session), set!["jsonrpc"@, "method"@, "params"@]),
        has_text(params, "sessionId"@, session),
        has_exactly(params, set!["sessionId"@]),
{
    reveal_strlit("jsonrpc");
    reveal_strlit("method");
    reveal_strlit("params");
    assert("jsonrpc"@.len() == 7 && "method"@.len() == 6 && "params"@.len() == 6);
    assert("method"@[0] == 'm' && "params"@[0] == 'p');
    assert(cancel_notification(session)->Object_0.dom() =~= set![
        "jsonrpc"@,
        "method"@,
        "params"@,
    ]);
    let params = cancel_notification(session)->Object_0["params"@];
    assert(params->Object_0.dom() =~= set!["sessionId"@]);
    params
}

/// The agent has two minutes to create a session, and half a minute for any other
/// response.
pub proof fn sessions_may_take_two_minutes(method: Seq<char>)
    ensures
        response_seconds("session/new"@) == 2 * 60,
        method != "session/new"@ ==> response_seconds(method) * 2 == 60,
{
}

/// A request succeeds exactly where the agent responded without an error, and then comes
/// to that very response. Every other end is an error of its own kind, which carries the
/// error of the agent, the method or the cause.
pub proof fn a_request_succeeds_where_the_agent_responds_without_an_error(
    method: Seq<char>,
    outcome: RequestOutcome,
    reply: Result<JsonRpcMessage, AcpError>,
)
    requires
        comes_to(method, outcome, reply),
    ensures
        reply is Ok <==> outcome is Replied && outcome->Replied_0.error is None,
        reply is Ok ==> reply->Ok_0 == outcome->Replied_0,
        outcome matches RequestOutcome::Replied(message) ==> (message.error matches Some(error)
            ==> reply == Err::<JsonRpcMessage, AcpError>(AcpError::Agent(error))),
        outcome is TimedOut ==> (reply matches Err(AcpError::Timeout { method: m }) && m@
            == method),
        outcome is ChannelClosed ==> (reply matches Err(AcpError::ChannelClosed { method: m }) && m@
            == method),
        outcome matches RequestOutcome::NotSent(cause) ==> reply == Err::<
            JsonRpcMessage,
            AcpError,
        >(AcpError::Transport(cause)),
{
}

/// Signals are sent exactly where a process group of the agent is known: to that whole
/// group, first the one that asks it to end, and a second and a half later the one that
/// ends it.
pub proof fn a_known_group_is_asked_to_end_and_then_killed(
    group: Option<i32>,
    termination: Option<Termination>,
)
    requires
        ends(group, termination),
    ensures
        termination is Some <==> group is Some && group->0 >= 1,
        termination is Some ==> {
            &&& termination->0.target < 0
            &&& termination->0.target + group->0 == 0
            &&& termination->0.first == Signal::Terminate
            &&& termination->0.last == Signal::Kill
            &&& termination->0.grace_millis * 2 == 3000
        },
{
}

/// What is known of a change is what it holds.
pub proof fn changes_are_known_by_what_they_hold(change: ConfigChange)
    ensures
        change@.session == change.session_id@,
        change@.config_id == change.config_id@,
        change@.value == change.value@,
{
}

} // verus!
