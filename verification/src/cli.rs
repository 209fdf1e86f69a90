//! The command line client: its arguments, and the requests it builds from them.

use vstd::prelude::*;
use vstd::string::*;
use crate::errors::A2AError;
use crate::push::{AuthenticationInfo, TaskPushNotificationConfig};
use crate::requests::{
    SendMessageConfiguration, SendMessageRequest, GetTaskRequest, ListTasksRequest,
    CancelTaskRequest, SubscribeToTaskRequest, GetTaskPushNotificationConfigRequest,
    ListTaskPushNotificationConfigsRequest, DeleteTaskPushNotificationConfigRequest,
};
use crate::task::{Message, Part, Role, TaskState, spec_first_text};
use crate::text::{
    copy_string, copy_strings, copy_opt_string, opt_view, strings_view, split_once_str,
    trim_str, spec_split_once, spec_trim, chars_of, starts_with, ends_with, starts_with_str,
    ends_with_str, spec_trim_end_char, trim_end_char,
};
use crate::config::{ConfigError, spec_config_error_text};

verus! {

/// Output format of the CLI.
#[derive(Clone, Copy, Debug, PartialEq, Eq, Structural)]
pub enum OutputFormat {
    /// Pretty-printed JSON.
    Pretty,
    /// Compact JSON, one object per line for streaming commands.
    Json,
}

/// A protocol binding the CLI may use.
#[derive(Clone, Copy, Debug, PartialEq, Eq, Structural)]
pub enum Binding {
    Jsonrpc,
    HttpJson,
}

/// The protocol name of a binding, as agent cards write it.
pub open spec fn spec_protocol(b: Binding) -> Seq<char> {
    match b {
        Binding::Jsonrpc => "JSONRPC"@,
        Binding::HttpJson => "HTTP+JSON"@,
    }
}

impl Binding {
    /// The protocol name of the binding.
    pub fn protocol(self) -> (res: &'static str)
        ensures
            res@ == spec_protocol(self),
    {
        match self {
            Binding::Jsonrpc => "JSONRPC",
            Binding::HttpJson => "HTTP+JSON",
        }
    }
}

/// The bindings used when none is enabled, most preferred first.
pub open spec fn default_bindings() -> Seq<Binding> {
    seq![Binding::Jsonrpc, Binding::HttpJson]
}

/// The protocol names the client prefers, in order: those of the enabled bindings, or of
/// the default bindings when none is enabled.
pub fn preferred_protocols(enabled: &Vec<Binding>) -> (res: Vec<String>)
    ensures
        ({
            let eff = if enabled@.len() == 0 { default_bindings() } else { enabled@ };
            &&& res@.len() == eff.len()
            &&& forall|i: int| 0 <= i < eff.len() ==> #[trigger] res@[i]@ == spec_protocol(eff[i])
        }),
{
    let mut eff: Vec<Binding> = Vec::new();
    if enabled.len() == 0 {
        eff.push(Binding::Jsonrpc);
        eff.push(Binding::HttpJson);
        assert(eff@ =~= default_bindings());
    } else {
        let mut i: usize = 0;
        while i < enabled.len()
            invariant
                i <= enabled@.len(),
                eff@ =~= enabled@.subrange(0, i as int),
            decreases enabled.len() - i,
        {
            eff.push(enabled[i]);
            i += 1;
        }
    }
    let mut out: Vec<String> = Vec::new();
    let mut j: usize = 0;
    while j < eff.len()
        invariant
            j <= eff@.len(),
            out@.len() == j,
            forall|k: int| 0 <= k < j ==> #[trigger] out@[k]@ == spec_protocol(eff@[k]),
        decreases eff.len() - j,
    {
        out.push(String::from_str(eff[j].protocol()));
        j += 1;
    }
    out
}

/// A header given as `NAME:VALUE`.
#[derive(Debug)]
pub struct HeaderArg {
    pub name: String,
    pub value: String,
}

/// What parsing a header argument gives: name and value trimmed, or the error text.
pub open spec fn spec_parse_header(input: Seq<char>) -> Result<(Seq<char>, Seq<char>), Seq<char>> {
    match spec_split_once(input, ':') {
        None => Err("header must be in NAME:VALUE format"@),
        Some((n, v)) => if spec_trim(n).len() == 0 {
            Err("header name cannot be empty"@)
        } else {
            Ok((spec_trim(n), spec_trim(v)))
        },
    }
}

pub open spec fn header_result_view(r: Result<HeaderArg, String>) -> Result<(Seq<char>, Seq<char>), Seq<char>> {
    match r {
        Ok(h) => Ok((h.name@, h.value@)),
        Err(e) => Err(e@),
    }
}

/// Parses a `NAME:VALUE` header: split at the first `:`, both sides trimmed, the name not
/// empty.
pub fn parse_header(input: &str) -> (res: Result<HeaderArg, String>)
    ensures
        header_result_view(res) == spec_parse_header(input@),
{
    match split_once_str(input, ':') {
        None => Err(String::from_str("header must be in NAME:VALUE format")),
        Some((n, v)) => {
            let name = trim_str(n.as_str());
            let value = trim_str(v.as_str());
            if name.as_str().is_empty() {
                Err(String::from_str("header name cannot be empty"))
            } else {
                Ok(HeaderArg { name, value })
            }
        },
    }
}

/// Task state filter of `task list`.
#[derive(Clone, Copy, Debug, PartialEq, Eq, Structural)]
pub enum TaskStateArg {
    Unspecified,
    Submitted,
    Working,
    Completed,
    Failed,
    Canceled,
    InputRequired,
    Rejected,
    AuthRequired,
}

/// The task state each filter value stands for.
pub open spec fn spec_state_of_arg(a: TaskStateArg) -> TaskState {
    match a {
        TaskStateArg::Unspecified => TaskState::Unspecified,
        TaskStateArg::Submitted => TaskState::Submitted,
        TaskStateArg::Working => TaskState::Working,
        TaskStateArg::Completed => TaskState::Completed,
        TaskStateArg::Failed => TaskState::Failed,
        TaskStateArg::Canceled => TaskState::Canceled,
        TaskStateArg::InputRequired => TaskState::InputRequired,
        TaskStateArg::Rejected => TaskState::Rejected,
        TaskStateArg::AuthRequired => TaskState::AuthRequired,
    }
}

impl From<TaskStateArg> for TaskState {
    fn from(value: TaskStateArg) -> (res: TaskState) {
        match value {
            TaskStateArg::Unspecified => TaskState::Unspecified,
            TaskStateArg::Submitted => TaskState::Submitted,
            TaskStateArg::Working => TaskState::Working,
            TaskStateArg::Completed => TaskState::Completed,
            TaskStateArg::Failed => TaskState::Failed,
            TaskStateArg::Canceled => TaskState::Canceled,
            TaskStateArg::InputRequired => TaskState::InputRequired,
            TaskStateArg::Rejected => TaskState::Rejected,
            TaskStateArg::AuthRequired => TaskState::AuthRequired,
        }
    }
}

impl vstd::std_specs::convert::FromSpecImpl<TaskStateArg> for TaskState {
    open spec fn obeys_from_spec() -> bool {
        true
    }

    open spec fn from_spec(v: TaskStateArg) -> TaskState {
        spec_state_of_arg(v)
    }
}

/// `discover`: fetch and print an agent's card.
pub struct DiscoverCommand {
    pub agent_ref: String,
    pub extended: bool,
}

/// `send`: send a one-shot message.
pub struct SendCommand {
    pub agent_ref: String,
    pub text: String,
    pub context_id: Option<String>,
    pub task_id: Option<String>,
    pub history_length: Option<i32>,
    pub accepted_output_modes: Vec<String>,
    pub return_immediately: bool,
}

/// `stream`: send a streaming message.
pub struct StreamCommand {
    pub agent_ref: String,
    pub text: String,
    pub context_id: Option<String>,
    pub task_id: Option<String>,
    pub history_length: Option<i32>,
    pub accepted_output_modes: Vec<String>,
}

/// `task get`.
pub struct TaskGetCommand {
    pub agent_ref: String,
    pub id: String,
    pub history_length: Option<i32>,
}

/// `task list`.
pub struct TaskListCommand {
    pub agent_ref: String,
    pub context_id: Option<String>,
    pub status: Option<TaskStateArg>,
    pub page_size: Option<i32>,
    pub page_token: Option<String>,
    pub history_length: Option<i32>,
    pub include_artifacts: bool,
}

/// `task cancel`.
pub struct TaskCancelCommand {
    pub agent_ref: String,
    pub id: String,
}

/// `task subscribe`.
pub struct TaskSubscribeCommand {
    pub agent_ref: String,
    pub id: String,
}

/// Task lifecycle operations.
pub enum TaskCommand {
    Get(TaskGetCommand),
    List(TaskListCommand),
    Cancel(TaskCancelCommand),
    Subscribe(TaskSubscribeCommand),
}

/// `push-config create`.
pub struct CreatePushConfigCommand {
    pub agent_ref: String,
    pub task_id: String,
    pub url: String,
    pub config_id: Option<String>,
    pub token: Option<String>,
    pub auth_scheme: Option<String>,
    pub auth_credentials: Option<String>,
}

/// `push-config get`.
pub struct PushConfigGetCommand {
    pub agent_ref: String,
    pub task_id: String,
    pub id: String,
}

/// `push-config delete`.
pub struct PushConfigDeleteCommand {
    pub agent_ref: String,
    pub task_id: String,
    pub id: String,
}

/// `push-config list`.
pub struct PushConfigListCommand {
    pub agent_ref: String,
    pub task_id: String,
    pub page_size: Option<i32>,
    pub page_token: Option<String>,
}

/// Push notification config operations.
pub enum PushConfigCommand {
    Create(CreatePushConfigCommand),
    Get(PushConfigGetCommand),
    List(PushConfigListCommand),
    Delete(PushConfigDeleteCommand),
}

/// The CLI's subcommands.
pub enum Command {
    Discover(DiscoverCommand),
    Send(SendCommand),
    Stream(StreamCommand),
    Task { command: TaskCommand },
    PushConfig { command: PushConfigCommand },
}

/// The CLI's arguments.
pub struct Cli {
    /// Enabled protocol bindings in preference order.
    pub enabled_bindings: Vec<Binding>,
    /// Bearer token for the agent-card fetch and the calls.
    pub bearer_token: Option<String>,
    /// Extra headers for the agent-card fetch and the calls.
    pub headers: Vec<HeaderArg>,
    /// Output format (pretty when absent).
    pub output: Option<OutputFormat>,
    pub command: Command,
}

impl Cli {
    /// Whether the output is compact JSON (pretty unless `json` was asked for).
    pub fn compact(&self) -> (res: bool)
        ensures
            res == (self.output == Some(OutputFormat::Json)),
    {
        match self.output {
            Some(OutputFormat::Json) => true,
            _ => false,
        }
    }
}

/// Errors of the CLI.
#[derive(Debug)]
pub enum CliError {
    A2A(A2AError),
    /// The HTTP request failed; its message.
    Http(String),
    /// Output could not be serialized; the serializer's message.
    Json(String),
    /// A file could not be read; its message.
    Io(String),
    InvalidAgentCard { reason: String },
    InvalidInput(String),
    Config(ConfigError),
}

/// The text a [`CliError`] displays; an A2A error shows its message.
pub open spec fn spec_cli_error_text(e: CliError) -> Seq<char> {
    match e {
        CliError::A2A(x) => x.message@,
        CliError::Http(m) => "http request failed: "@ + m@,
        CliError::Json(m) => "failed to serialize output: "@ + m@,
        CliError::Io(m) => "failed to read file: "@ + m@,
        CliError::InvalidAgentCard { reason } => "invalid agent card: "@ + reason@,
        CliError::InvalidInput(m) => "invalid input: "@ + m@,
        CliError::Config(c) => spec_config_error_text(c),
    }
}

impl CliError {
    /// The human-readable text of the error.
    pub fn to_message(&self) -> (res: String)
        ensures
            res@ == spec_cli_error_text(*self),
    {
        match self {
            CliError::A2A(x) => copy_string(x.message.as_str()),
            CliError::Http(m) => String::from_str("http request failed: ").concat(m.as_str()),
            CliError::Json(m) => String::from_str("failed to serialize output: ").concat(m.as_str()),
            CliError::Io(m) => String::from_str("failed to read file: ").concat(m.as_str()),
            CliError::InvalidAgentCard { reason } => String::from_str("invalid agent card: ").concat(reason.as_str()),
            CliError::InvalidInput(m) => String::from_str("invalid input: ").concat(m.as_str()),
            CliError::Config(c) => c.to_message(),
        }
    }
}

impl Message {
    /// The text of the first text part, if any.
    pub fn text(&self) -> (res: Option<&str>)
        ensures
            match spec_first_text(self.parts@) {
                Some(t) => res matches Some(s) && s@ == t,
                None => res is None,
            },
    {
        let mut i: usize = 0;
        assert(self.parts@.subrange(0, self.parts@.len() as int) =~= self.parts@);
        while i < self.parts.len()
            invariant
                i <= self.parts@.len(),
                spec_first_text(self.parts@) == spec_first_text(self.parts@.subrange(i as int, self.parts@.len() as int)),
            decreases self.parts.len() - i,
        {
            let ghost rest = self.parts@.subrange(i as int, self.parts@.len() as int);
            match &self.parts[i] {
                Part::Text(t) => {
                    return Some(t.as_str());
                },
                Part::Data(_) => {
                    assert(rest.drop_first() =~= self.parts@.subrange(i + 1, self.parts@.len() as int));
                },
            }
            i += 1;
        }
        None
    }
}

/// The configuration a send asks for: only when a history length, accepted output modes
/// or an immediate return was asked; then the modes when there are any, the history length,
/// and `return_immediately` as `Some(true)` when asked.
pub open spec fn send_configuration_ok(
    c: Option<SendMessageConfiguration>,
    history_length: Option<i32>,
    modes: Seq<String>,
    return_immediately: bool,
) -> bool {
    if history_length is Some || modes.len() > 0 || return_immediately {
        c matches Some(cfg) && cfg.history_length == history_length
            && cfg.task_push_notification_config is None
            && (cfg.return_immediately == if return_immediately { Some(true) } else { None::<bool> })
            && (if modes.len() > 0 {
                cfg.accepted_output_modes matches Some(m) && strings_view(m@) == strings_view(modes)
            } else {
                cfg.accepted_output_modes is None
            })
    } else {
        c is None
    }
}

/// A user message holding this text, in the given context and task.
pub open spec fn user_message_ok(m: Message, text: Seq<char>, context_id: Option<String>, task_id: Option<String>) -> bool {
    &&& m.role == Role::User
    &&& m.parts@.len() == 1
    &&& m.parts@[0] matches Part::Text(t) && t@ == text
    &&& opt_view(m.context_id) == opt_view(context_id)
    &&& opt_view(m.task_id) == opt_view(task_id)
}

fn user_message(text: &String, context_id: &Option<String>, task_id: &Option<String>) -> (res: Message)
    ensures
        user_message_ok(res, text@, *context_id, *task_id),
{
    let mut parts: Vec<Part> = Vec::new();
    parts.push(Part::text(copy_string(text.as_str())));
    let mut m = Message::new(Role::User, parts);
    m.context_id = copy_opt_string(context_id);
    m.task_id = copy_opt_string(task_id);
    m
}

fn send_configuration(history_length: Option<i32>, modes: &Vec<String>, return_immediately: bool) -> (res: Option<SendMessageConfiguration>)
    ensures
        send_configuration_ok(res, history_length, modes@, return_immediately),
{
    if history_length.is_some() || modes.len() > 0 || return_immediately {
        Some(SendMessageConfiguration {
            accepted_output_modes: if modes.len() > 0 { Some(copy_strings(modes)) } else { None },
            task_push_notification_config: None,
            history_length,
            return_immediately: if return_immediately { Some(true) } else { None },
        })
    } else {
        None
    }
}

/// The request `send` makes: a user message with the text, context and task given, and a
/// configuration only when an option asks for one.
pub fn build_send_message_request(command: &SendCommand) -> (res: SendMessageRequest)
    ensures
        user_message_ok(res.message, command.text@, command.context_id, command.task_id),
        send_configuration_ok(res.configuration, command.history_length, command.accepted_output_modes@, command.return_immediately),
        res.metadata is None,
        res.tenant is None,
{
    SendMessageRequest {
        message: user_message(&command.text, &command.context_id, &command.task_id),
        configuration: send_configuration(command.history_length, &command.accepted_output_modes, command.return_immediately),
        metadata: None,
        tenant: None,
    }
}

/// The request `stream` makes: as for `send`, without immediate return.
pub fn build_stream_message_request(command: &StreamCommand) -> (res: SendMessageRequest)
    ensures
        user_message_ok(res.message, command.text@, command.context_id, command.task_id),
        send_configuration_ok(res.configuration, command.history_length, command.accepted_output_modes@, false),
        res.metadata is None,
        res.tenant is None,
{
    SendMessageRequest {
        message: user_message(&command.text, &command.context_id, &command.task_id),
        configuration: send_configuration(command.history_length, &command.accepted_output_modes, false),
        metadata: None,
        tenant: None,
    }
}

/// The error `push-config create` refuses its options with: an authentication scheme and
/// credentials go together, each requires the other.
pub open spec fn spec_push_config_option_error(command: CreatePushConfigCommand) -> Option<Seq<char>> {
    if command.auth_credentials is Some && command.auth_scheme is None {
        Some("--auth-credentials requires --auth-scheme"@)
    } else if command.auth_scheme is Some && command.auth_credentials is None {
        Some("--auth-scheme requires --auth-credentials"@)
    } else {
        None
    }
}

/// The config holds the command's URL, id, token and authentication, and no tenant.
pub open spec fn push_config_from_command(c: TaskPushNotificationConfig, command: CreatePushConfigCommand) -> bool {
    &&& c.url@ == command.url@
    &&& opt_view(c.id) == opt_view(command.config_id)
    &&& opt_view(c.token) == opt_view(command.token)
    &&& c.tenant is None
    &&& match command.auth_scheme {
        None => c.authentication is None,
        Some(s) => c.authentication matches Some(a) && a.scheme@ == s@
            && opt_view(a.credentials) == opt_view(command.auth_credentials),
    }
}

/// The push notification config `push-config create` sends (its task id is left empty).
/// A scheme without credentials, or credentials without a scheme, is refused.
pub fn build_push_notification_config(command: &CreatePushConfigCommand) -> (res: Result<TaskPushNotificationConfig, CliError>)
    ensures
        match spec_push_config_option_error(*command) {
            Some(m) => res matches Err(CliError::InvalidInput(x)) && x@ == m,
            None => res matches Ok(c) && c.task_id@ == Seq::<char>::empty() && push_config_from_command(c, *command),
        },
{
    if command.auth_credentials.is_some() && command.auth_scheme.is_none() {
        return Err(CliError::InvalidInput(String::from_str("--auth-credentials requires --auth-scheme")));
    }
    if command.auth_scheme.is_some() && command.auth_credentials.is_none() {
        return Err(CliError::InvalidInput(String::from_str("--auth-scheme requires --auth-credentials")));
    }
    let authentication = match &command.auth_scheme {
        Some(scheme) => Some(AuthenticationInfo {
            scheme: copy_string(scheme.as_str()),
            credentials: copy_opt_string(&command.auth_credentials),
        }),
        None => None,
    };
    Ok(TaskPushNotificationConfig {
        task_id: String::new(),
        url: copy_string(command.url.as_str()),
        id: copy_opt_string(&command.config_id),
        token: copy_opt_string(&command.token),
        authentication,
        tenant: None,
    })
}

/// The request `task get` makes.
pub fn get_task_request(command: &TaskGetCommand) -> (res: GetTaskRequest)
    ensures
        res.id@ == command.id@,
        res.history_length == command.history_length,
        res.tenant is None,
{
    GetTaskRequest { id: copy_string(command.id.as_str()), history_length: command.history_length, tenant: None }
}

/// The request `task list` makes: the filters given, artifacts asked for only when the flag
/// is set.
pub fn list_tasks_request(command: &TaskListCommand) -> (res: ListTasksRequest)
    ensures
        opt_view(res.context_id) == opt_view(command.context_id),
        res.status == match command.status {
            Some(a) => Some(spec_state_of_arg(a)),
            None => None::<TaskState>,
        },
        res.page_size == command.page_size,
        opt_view(res.page_token) == opt_view(command.page_token),
        res.history_length == command.history_length,
        res.status_timestamp_after is None,
        res.include_artifacts == if command.include_artifacts { Some(true) } else { None::<bool> },
        res.tenant is None,
{
    ListTasksRequest {
        context_id: copy_opt_string(&command.context_id),
        status: match command.status {
            Some(a) => Some(TaskState::from(a)),
            None => None,
        },
        page_size: command.page_size,
        page_token: copy_opt_string(&command.page_token),
        history_length: command.history_length,
        status_timestamp_after: None,
        include_artifacts: if command.include_artifacts { Some(true) } else { None },
        tenant: None,
    }
}

/// The request `task cancel` makes.
pub fn cancel_task_request(command: &TaskCancelCommand) -> (res: CancelTaskRequest)
    ensures
        res.id@ == command.id@,
        res.metadata is None,
        res.tenant is None,
{
    CancelTaskRequest { id: copy_string(command.id.as_str()), metadata: None, tenant: None }
}

/// The request `task subscribe` makes.
pub fn subscribe_request(command: &TaskSubscribeCommand) -> (res: SubscribeToTaskRequest)
    ensures
        res.id@ == command.id@,
        res.tenant is None,
{
    SubscribeToTaskRequest { id: copy_string(command.id.as_str()), tenant: None }
}

/// The config `push-config create` sends: [`build_push_notification_config`] bound to the
/// command's task.
pub fn create_push_config_request(command: &CreatePushConfigCommand) -> (res: Result<TaskPushNotificationConfig, CliError>)
    ensures
        match spec_push_config_option_error(*command) {
            Some(m) => res matches Err(CliError::InvalidInput(x)) && x@ == m,
            None => res matches Ok(c) && c.task_id@ == command.task_id@ && push_config_from_command(c, *command),
        },
{
    match build_push_notification_config(command) {
        Ok(mut c) => {
            c.task_id = copy_string(command.task_id.as_str());
            Ok(c)
        },
        Err(e) => Err(e),
    }
}

/// The request `push-config get` makes.
pub fn get_push_config_request(command: &PushConfigGetCommand) -> (res: GetTaskPushNotificationConfigRequest)
    ensures
        res.task_id@ == command.task_id@,
        res.id@ == command.id@,
        res.tenant is None,
{
    GetTaskPushNotificationConfigRequest {
        task_id: copy_string(command.task_id.as_str()),
        id: copy_string(command.id.as_str()),
        tenant: None,
    }
}

/// The request `push-config list` makes.
pub fn list_push_configs_request(command: &PushConfigListCommand) -> (res: ListTaskPushNotificationConfigsRequest)
    ensures
        res.task_id@ == command.task_id@,
        res.page_size == command.page_size,
        opt_view(res.page_token) == opt_view(command.page_token),
        res.tenant is None,
{
    ListTaskPushNotificationConfigsRequest {
        task_id: copy_string(command.task_id.as_str()),
        page_size: command.page_size,
        page_token: copy_opt_string(&command.page_token),
        tenant: None,
    }
}

/// The request `push-config delete` makes.
pub fn delete_push_config_request(command: &PushConfigDeleteCommand) -> (res: DeleteTaskPushNotificationConfigRequest)
    ensures
        res.task_id@ == command.task_id@,
        res.id@ == command.id@,
        res.tenant is None,
{
    DeleteTaskPushNotificationConfigRequest {
        task_id: copy_string(command.task_id.as_str()),
        id: copy_string(command.id.as_str()),
        tenant: None,
    }
}

/// Where an agent reference points.
pub enum AgentCardSource {
    /// Fetch the card from this URL.
    Url(String),
    /// Read the card from this file.
    File(String),
}

/// The location of the card an agent reference names.
pub open spec fn spec_agent_card_source(r: Seq<char>) -> (bool, Seq<char>) {
    if starts_with(r, "http://"@) || starts_with(r, "https://"@) {
        if ends_with(r, ".json"@) {
            (true, r)
        } else {
            (true, spec_trim_end_char(r, '/') + "/.well-known/agent-card.json"@)
        }
    } else {
        (false, r)
    }
}

/// Where the card of an agent reference is: an `http(s)` reference ending in `.json` is the
/// card's URL; any other `http(s)` reference is a base URL, whose card is at
/// `/.well-known/agent-card.json`; anything else is a file path.
pub fn agent_card_source(agent_ref: &str) -> (res: AgentCardSource)
    ensures
        ({
            let (is_url, loc) = spec_agent_card_source(agent_ref@);
            match res {
                AgentCardSource::Url(u) => is_url && u@ == loc,
                AgentCardSource::File(f) => !is_url && f@ == loc,
            }
        }),
{
    let v = chars_of(agent_ref);
    if starts_with_str(&v, "http://") || starts_with_str(&v, "https://") {
        if ends_with_str(&v, ".json") {
            AgentCardSource::Url(copy_string(agent_ref))
        } else {
            AgentCardSource::Url(trim_end_char(agent_ref, '/').concat("/.well-known/agent-card.json"))
        }
    } else {
        AgentCardSource::File(copy_string(agent_ref))
    }
}

/// `s` with its trailing `c` characters removed is a prefix of `s` that does not end in `c`,
/// and only `c` characters follow it.
proof fn lemma_trim_end_shape(s: Seq<char>, c: char)
    ensures
        spec_trim_end_char(s, c).len() <= s.len(),
        s.subrange(0, spec_trim_end_char(s, c).len() as int) == spec_trim_end_char(s, c),
        forall|i: int| spec_trim_end_char(s, c).len() <= i < s.len() ==> #[trigger] s[i] == c,
        spec_trim_end_char(s, c).len() == 0 || spec_trim_end_char(s, c).last() != c,
    decreases s.len(),
{
    if s.len() > 0 && s.last() == c {
        lemma_trim_end_shape(s.drop_last(), c);
        let t = spec_trim_end_char(s.drop_last(), c);
        assert(s.subrange(0, t.len() as int) =~= s.drop_last().subrange(0, t.len() as int));
        assert forall|i: int| t.len() <= i < s.len() implies #[trigger] s[i] == c by {
            if i < s.len() - 1 {
                assert(s.drop_last()[i] == c);
            }
        }
    } else {
        assert(s.subrange(0, s.len() as int) =~= s);
    }
}

/// Trimming the end of `a + w`, where `a` does not end in `c`, only trims `w`.
proof fn lemma_trim_end_concat(a: Seq<char>, w: Seq<char>, c: char)
    requires
        a.len() > 0,
        a.last() != c,
    ensures
        spec_trim_end_char(a + w, c) == a + spec_trim_end_char(w, c),
    decreases w.len(),
{
    if w.len() > 0 && w.last() == c {
        assert((a + w).drop_last() =~= a + w.drop_last());
        lemma_trim_end_concat(a, w.drop_last(), c);
    } else if w.len() == 0 {
        assert(a + w =~= a);
    }
}

/// For a base URL (an `http://` or `https://` reference that does not end in `.json`) the
/// card is at the reference without its trailing `/` characters, followed by
/// `/.well-known/agent-card.json`: the location ends in that suffix, and what precedes the
/// suffix is a prefix of the reference, not ending in `/`, after which the reference holds
/// only `/` characters.
pub proof fn lemma_base_url_card_location(r: Seq<char>)
    requires
        starts_with(r, "http://"@) || starts_with(r, "https://"@),
        !ends_with(r, ".json"@),
    ensures
        spec_agent_card_source(r).0,
        ({
            let loc = spec_agent_card_source(r).1;
            let base = loc.subrange(0, loc.len() - 28);
            &&& loc.len() >= 28
            &&& loc.subrange(loc.len() - 28, loc.len() as int) == "/.well-known/agent-card.json"@
            &&& base.len() <= r.len()
            &&& r.subrange(0, base.len() as int) == base
            &&& base.len() > 0 && base.last() != '/'
            &&& forall|i: int| base.len() <= i < r.len() ==> #[trigger] r[i] == '/'
        }),
{
    reveal_strlit("/.well-known/agent-card.json");
    reveal_strlit("http://");
    reveal_strlit("https://");
    lemma_trim_end_shape(r, '/');
    let t = spec_trim_end_char(r, '/');
    let suffix = "/.well-known/agent-card.json"@;
    let loc = t + suffix;
    assert(loc.subrange(0, loc.len() - 28) =~= t);
    assert(loc.subrange(loc.len() - 28, loc.len() as int) =~= suffix);
    if starts_with(r, "http://"@) {
        assert(r.subrange(0, 7)[0] == "http://"@[0]);
    } else {
        assert(r.subrange(0, 8)[0] == "https://"@[0]);
    }
    assert(r[0] == 'h');
    if t.len() == 0 {
        assert(r[0] == '/');
    }
}

/// `http://` and `https://` references name cards at the same place: whatever follows the
/// scheme, both are URLs, and their locations differ only in the scheme.
pub proof fn lemma_card_location_ignores_scheme(rest: Seq<char>)
    ensures
        spec_agent_card_source("http://"@ + rest).0,
        spec_agent_card_source("https://"@ + rest).0,
        spec_agent_card_source("http://"@ + rest).1.len() >= 5,
        spec_agent_card_source("https://"@ + rest).1.len() >= 6,
        spec_agent_card_source("http://"@ + rest).1.subrange(0, 5) == "http:"@,
        spec_agent_card_source("https://"@ + rest).1.subrange(0, 6) == "https:"@,
        spec_agent_card_source("http://"@ + rest).1.subrange(5, spec_agent_card_source("http://"@ + rest).1.len() as int)
            == spec_agent_card_source("https://"@ + rest).1.subrange(6, spec_agent_card_source("https://"@ + rest).1.len() as int),
{
    reveal_strlit("http://");
    reveal_strlit("https://");
    reveal_strlit("http:");
    reveal_strlit("https:");
    reveal_strlit(".json");
    reveal_strlit("/.well-known/agent-card.json");
    let a = "http:"@;
    let b = "https:"@;
    let w = seq!['/', '/'] + rest;
    let r1 = "http://"@ + rest;
    let r2 = "https://"@ + rest;
    assert(r1 =~= a + w);
    assert(r2 =~= b + w);
    assert(starts_with(r1, "http://"@)) by {
        assert(r1.subrange(0, 7) =~= "http://"@);
    }
    assert(starts_with(r2, "https://"@)) by {
        assert(r2.subrange(0, 8) =~= "https://"@);
    }
    let j = ".json"@;
    if w.len() >= 5 {
        assert((a + w).subrange((a + w).len() - 5, (a + w).len() as int) =~= w.subrange(w.len() - 5, w.len() as int));
        assert((b + w).subrange((b + w).len() - 5, (b + w).len() as int) =~= w.subrange(w.len() - 5, w.len() as int));
    } else {
        let k = 5 - w.len();
        assert(1 <= k <= 3);
        assert((a + w)[(a + w).len() - 5 + k] == '/');
        assert((b + w)[(b + w).len() - 5 + k] == '/');
        assert(j[k] != '/');
        assert(!ends_with(a + w, j)) by {
            if ends_with(a + w, j) {
                assert((a + w).subrange((a + w).len() - 5, (a + w).len() as int)[k] == j[k]);
            }
        }
        assert(!ends_with(b + w, j)) by {
            if ends_with(b + w, j) {
                assert((b + w).subrange((b + w).len() - 5, (b + w).len() as int)[k] == j[k]);
            }
        }
    }
    assert(ends_with(r1, j) == ends_with(r2, j));
    lemma_trim_end_concat(a, w, '/');
    lemma_trim_end_concat(b, w, '/');
    let l1 = spec_agent_card_source(r1).1;
    let l2 = spec_agent_card_source(r2).1;
    if ends_with(r1, j) {
        assert(l1.subrange(5, l1.len() as int) =~= w);
        assert(l2.subrange(6, l2.len() as int) =~= w);
        assert(l1.subrange(0, 5) =~= a);
        assert(l2.subrange(0, 6) =~= b);
    } else {
        let tw = spec_trim_end_char(w, '/') + "/.well-known/agent-card.json"@;
        assert(l1 =~= a + tw);
        assert(l2 =~= b + tw);
        assert(l1.subrange(5, l1.len() as int) =~= tw);
        assert(l2.subrange(6, l2.len() as int) =~= tw);
        assert(l1.subrange(0, 5) =~= a);
        assert(l2.subrange(0, 6) =~= b);
    }
}

/// The outcome of a client call once the client has been shut down: the call's error if it
/// failed; else the shutdown's error if that failed; else the call's value.
pub fn finish_client_call<V>(result: Result<V, A2AError>, destroyed: Result<(), A2AError>) -> (res: Result<V, CliError>)
    ensures
        match result {
            Err(e) => res matches Err(CliError::A2A(x)) && x == e,
            Ok(v) => match destroyed {
                Err(d) => res matches Err(CliError::A2A(x)) && x == d,
                Ok(()) => res matches Ok(w) && w == v,
            },
        },
{
    match result {
        Ok(value) => match destroyed {
            Ok(()) => Ok(value),
            Err(d) => Err(CliError::A2A(d)),
        },
        Err(error) => Err(CliError::A2A(error)),
    }
}

/// What a streaming command meets next: an event it printed, with the printer's outcome; an
/// error from the stream; or the stream's end.
pub enum StreamItem {
    Printed(Result<(), CliError>),
    Failed(A2AError),
    Ended,
}

/// What a streaming command does next.
pub enum ConsumeStep {
    /// Read the next item.
    Continue,
    /// Shut the client down, then end with this error whatever the shutdown gives.
    Fail(CliError),
    /// Shut the client down, then end with the shutdown's outcome.
    Finish,
}

/// The decision a streaming command takes on each item: go on after an event was printed;
/// stop with the printer's error, or with the stream's error, when there is one; finish at
/// the end of the stream.
pub fn consume_step(item: StreamItem) -> (res: ConsumeStep)
    ensures
        match item {
            StreamItem::Printed(Ok(())) => res is Continue,
            StreamItem::Printed(Err(e)) => res matches ConsumeStep::Fail(x) && x == e,
            StreamItem::Failed(e) => res matches ConsumeStep::Fail(CliError::A2A(x)) && x == e,
            StreamItem::Ended => res is Finish,
        },
{
    match item {
        StreamItem::Printed(Ok(())) => ConsumeStep::Continue,
        StreamItem::Printed(Err(e)) => ConsumeStep::Fail(e),
        StreamItem::Failed(e) => ConsumeStep::Fail(CliError::A2A(e)),
        StreamItem::Ended => ConsumeStep::Finish,
    }
}

/// How a streaming command ends once the client has been shut down after a step that stops:
/// with the step's error if it failed, else with the shutdown's error if there is one, else
/// successfully.
pub fn end_stream(step: ConsumeStep, destroyed: Result<(), A2AError>) -> (res: Result<(), CliError>)
    requires
        !(step is Continue),
    ensures
        match step {
            ConsumeStep::Fail(e) => res matches Err(x) && x == e,
            _ => match destroyed {
                Err(d) => res matches Err(CliError::A2A(x)) && x == d,
                Ok(()) => res is Ok,
            },
        },
{
    match step {
        ConsumeStep::Fail(e) => Err(e),
        _ => match destroyed {
            Err(d) => Err(CliError::A2A(d)),
            Ok(()) => Ok(()),
        },
    }
}

} // verus!
