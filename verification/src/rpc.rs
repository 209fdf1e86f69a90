//! The JSON-RPC methods of the STDIO binding and the decisions taken on each frame.

use vstd::prelude::*;
use vstd::string::*;
use crate::errors::{
    A2AError, StdioError, spec_stdio_error_text, INTERNAL_ERROR, PARSE_ERROR, METHOD_NOT_FOUND,
    INVALID_PARAMS,
};
use crate::text::{
    str_eq, chars_of, starts_with, starts_with_str, spec_split_once, spec_split,
    spec_split_whitespace, strings_view, find_char_in, split_chars, split_whitespace_chars,
    string_from_chars, spec_join_char, lemma_split_join, lemma_split_whitespace_words,
    find_char, is_white_space, lemma_find_char_exact,
};

verus! {

/// An operation of the A2A protocol, as the STDIO binding names it.
#[derive(Clone, Copy, Debug, PartialEq, Eq, Structural)]
pub enum Operation {
    SendMessage,
    SendStreamingMessage,
    GetTask,
    ListTasks,
    CancelTask,
    SubscribeToTask,
    CreatePushConfig,
    GetPushConfig,
    ListPushConfigs,
    DeletePushConfig,
    GetExtendedAgentCard,
}

/// The method name of each operation (slash-separated).
pub open spec fn spec_method_name(op: Operation) -> Seq<char> {
    match op {
        Operation::SendMessage => "message/send"@,
        Operation::SendStreamingMessage => "message/stream"@,
        Operation::GetTask => "tasks/get"@,
        Operation::ListTasks => "tasks/list"@,
        Operation::CancelTask => "tasks/cancel"@,
        Operation::SubscribeToTask => "tasks/subscribe"@,
        Operation::CreatePushConfig => "tasks/pushNotificationConfig/create"@,
        Operation::GetPushConfig => "tasks/pushNotificationConfig/get"@,
        Operation::ListPushConfigs => "tasks/pushNotificationConfig/list"@,
        Operation::DeletePushConfig => "tasks/pushNotificationConfig/delete"@,
        Operation::GetExtendedAgentCard => "agent/extendedCard"@,
    }
}

/// The operation a method name denotes, if any.
pub open spec fn spec_route_method(m: Seq<char>) -> Option<Operation> {
    if m == "message/send"@ {
        Some(Operation::SendMessage)
    } else if m == "message/stream"@ {
        Some(Operation::SendStreamingMessage)
    } else if m == "tasks/get"@ {
        Some(Operation::GetTask)
    } else if m == "tasks/list"@ {
        Some(Operation::ListTasks)
    } else if m == "tasks/cancel"@ {
        Some(Operation::CancelTask)
    } else if m == "tasks/subscribe"@ {
        Some(Operation::SubscribeToTask)
    } else if m == "tasks/pushNotificationConfig/create"@ {
        Some(Operation::CreatePushConfig)
    } else if m == "tasks/pushNotificationConfig/get"@ {
        Some(Operation::GetPushConfig)
    } else if m == "tasks/pushNotificationConfig/list"@ {
        Some(Operation::ListPushConfigs)
    } else if m == "tasks/pushNotificationConfig/delete"@ {
        Some(Operation::DeletePushConfig)
    } else if m == "agent/extendedCard"@ {
        Some(Operation::GetExtendedAgentCard)
    } else {
        None
    }
}

impl Operation {
    /// The method name the client sends for this operation.
    pub fn method_name(&self) -> (res: &'static str)
        ensures
            res@ == spec_method_name(*self),
    {
        match self {
            Operation::SendMessage => "message/send",
            Operation::SendStreamingMessage => "message/stream",
            Operation::GetTask => "tasks/get",
            Operation::ListTasks => "tasks/list",
            Operation::CancelTask => "tasks/cancel",
            Operation::SubscribeToTask => "tasks/subscribe",
            Operation::CreatePushConfig => "tasks/pushNotificationConfig/create",
            Operation::GetPushConfig => "tasks/pushNotificationConfig/get",
            Operation::ListPushConfigs => "tasks/pushNotificationConfig/list",
            Operation::DeletePushConfig => "tasks/pushNotificationConfig/delete",
            Operation::GetExtendedAgentCard => "agent/extendedCard",
        }
    }

    /// Whether the operation answers with a stream of events.
    pub fn is_streaming(&self) -> (res: bool)
        ensures
            res == (*self == Operation::SendStreamingMessage || *self == Operation::SubscribeToTask),
    {
        match self {
            Operation::SendStreamingMessage => true,
            Operation::SubscribeToTask => true,
            _ => false,
        }
    }
}

/// The operation the server dispatches a method name to, if any.
pub fn route_method(m: &str) -> (res: Option<Operation>)
    ensures
        res == spec_route_method(m@),
{
    if str_eq(m, "message/send") {
        Some(Operation::SendMessage)
    } else if str_eq(m, "message/stream") {
        Some(Operation::SendStreamingMessage)
    } else if str_eq(m, "tasks/get") {
        Some(Operation::GetTask)
    } else if str_eq(m, "tasks/list") {
        Some(Operation::ListTasks)
    } else if str_eq(m, "tasks/cancel") {
        Some(Operation::CancelTask)
    } else if str_eq(m, "tasks/subscribe") {
        Some(Operation::SubscribeToTask)
    } else if str_eq(m, "tasks/pushNotificationConfig/create") {
        Some(Operation::CreatePushConfig)
    } else if str_eq(m, "tasks/pushNotificationConfig/get") {
        Some(Operation::GetPushConfig)
    } else if str_eq(m, "tasks/pushNotificationConfig/list") {
        Some(Operation::ListPushConfigs)
    } else if str_eq(m, "tasks/pushNotificationConfig/delete") {
        Some(Operation::DeletePushConfig)
    } else if str_eq(m, "agent/extendedCard") {
        Some(Operation::GetExtendedAgentCard)
    } else {
        None
    }
}

/// The server dispatches every method name the client sends to the operation it was sent
/// for: client and server agree on the method table.
pub proof fn lemma_route_method_name(op: Operation)
    ensures
        spec_route_method(spec_method_name(op)) == Some(op),
{
    reveal_strlit("message/send");
    reveal_strlit("message/stream");
    reveal_strlit("tasks/get");
    reveal_strlit("tasks/list");
    reveal_strlit("tasks/cancel");
    reveal_strlit("tasks/subscribe");
    reveal_strlit("tasks/pushNotificationConfig/create");
    reveal_strlit("tasks/pushNotificationConfig/get");
    reveal_strlit("tasks/pushNotificationConfig/list");
    reveal_strlit("tasks/pushNotificationConfig/delete");
    reveal_strlit("agent/extendedCard");
    assert("message/send"@.len() == 12);
    assert("message/stream"@.len() == 14);
    assert("tasks/get"@.len() == 9);
    assert("tasks/list"@.len() == 10);
    assert("tasks/cancel"@.len() == 12);
    assert("tasks/subscribe"@.len() == 15);
    assert("tasks/pushNotificationConfig/create"@.len() == 35);
    assert("tasks/pushNotificationConfig/get"@.len() == 32);
    assert("tasks/pushNotificationConfig/list"@.len() == 33);
    assert("tasks/pushNotificationConfig/delete"@.len() == 35);
    assert("agent/extendedCard"@.len() == 18);
    assert("message/send"@ != "tasks/cancel"@) by {
        assert("message/send"@[0] != "tasks/cancel"@[0]);
    }
    assert("tasks/pushNotificationConfig/create"@ != "tasks/pushNotificationConfig/delete"@) by {
        assert("tasks/pushNotificationConfig/create"@[29] != "tasks/pushNotificationConfig/delete"@[29]);
    }
}


/// What the server's JSON layer made of one incoming frame.
pub enum IncomingFrame {
    /// The frame is not JSON; the parser's message.
    NotJson(String),
    /// The frame is JSON but not a JSON-RPC request; the decoder's message.
    NotRequest(String),
    /// A JSON-RPC request with this method.
    Request { method: String },
}

/// What the server does with an incoming frame.
pub enum RequestAction {
    /// Answer with an error response: to the request's id when `to_request`, else to a null id.
    ReplyError { to_request: bool, code: i32, message: String },
    /// Decode the parameters and run the operation.
    Dispatch(Operation),
}

/// The server's decision on an incoming frame.
pub fn decide_request(frame: &IncomingFrame) -> (res: RequestAction)
    ensures
        match frame {
            IncomingFrame::NotJson(e) => res matches RequestAction::ReplyError { to_request, code, message }
                && !to_request && code == PARSE_ERROR && message@ == "invalid json: "@ + e@,
            IncomingFrame::NotRequest(e) => res matches RequestAction::ReplyError { to_request, code, message }
                && !to_request && code == PARSE_ERROR && message@ == "invalid request: "@ + e@,
            IncomingFrame::Request { method } => match spec_route_method(method@) {
                Some(op) => res == RequestAction::Dispatch(op),
                None => res matches RequestAction::ReplyError { to_request, code, message }
                    && to_request && code == METHOD_NOT_FOUND && message@ == "unknown method: "@ + method@,
            },
        },
{
    match frame {
        IncomingFrame::NotJson(e) => RequestAction::ReplyError {
            to_request: false,
            code: PARSE_ERROR,
            message: String::from_str("invalid json: ").concat(e.as_str()),
        },
        IncomingFrame::NotRequest(e) => RequestAction::ReplyError {
            to_request: false,
            code: PARSE_ERROR,
            message: String::from_str("invalid request: ").concat(e.as_str()),
        },
        IncomingFrame::Request { method } => match route_method(method.as_str()) {
            Some(op) => RequestAction::Dispatch(op),
            None => RequestAction::ReplyError {
                to_request: true,
                code: METHOD_NOT_FOUND,
                message: String::from_str("unknown method: ").concat(method.as_str()),
            },
        },
    }
}

/// The error the server answers a request whose parameters do not decode with.
pub fn invalid_params(detail: &str) -> (res: A2AError)
    ensures
        res.code == INVALID_PARAMS,
        res.message@ == "invalid params: "@ + detail@,
{
    A2AError::new(INVALID_PARAMS, String::from_str("invalid params: ").concat(detail))
}

/// The notification method that carries one event of a stream: `event/streamResponse` for
/// an event, `event/streamError` for an error.
pub fn stream_event_method(is_error: bool) -> (res: &'static str)
    ensures
        is_error ==> res@ == "event/streamError"@,
        !is_error ==> res@ == "event/streamResponse"@,
{
    if is_error {
        "event/streamError"
    } else {
        "event/streamResponse"
    }
}

/// How a unary call went, step by step, up to the decoded result.
pub enum CallStep<T> {
    SerializeParamsFailed(String),
    SerializeRequestFailed(String),
    WriteFailed(StdioError),
    ReadFailed(StdioError),
    /// The subprocess closed its stdout before answering.
    Closed,
    /// The answer is not a JSON-RPC response.
    Unparsable(String),
    /// The answer is an error response.
    RpcError { code: i32, message: String },
    /// The answer has neither error nor result.
    MissingResult,
    /// The result does not decode as the expected type.
    Undecodable(String),
    Decoded(T),
}

/// What a unary call returns for each way it can go.
pub open spec fn spec_call_result<T>(s: CallStep<T>) -> Result<T, (i32, Seq<char>)> {
    match s {
        CallStep::SerializeParamsFailed(e) => Err((INTERNAL_ERROR, "serialize params: "@ + e@)),
        CallStep::SerializeRequestFailed(e) => Err((INTERNAL_ERROR, "serialize request: "@ + e@)),
        CallStep::WriteFailed(e) => Err((INTERNAL_ERROR, "write frame: "@ + spec_stdio_error_text(e@))),
        CallStep::ReadFailed(e) => Err((INTERNAL_ERROR, "read frame: "@ + spec_stdio_error_text(e@))),
        CallStep::Closed => Err((INTERNAL_ERROR, "subprocess closed stdout unexpectedly"@)),
        CallStep::Unparsable(e) => Err((INTERNAL_ERROR, "parse response: "@ + e@)),
        CallStep::RpcError { code, message } => Err((code, message@)),
        CallStep::MissingResult => Err((INTERNAL_ERROR, "response missing result"@)),
        CallStep::Undecodable(e) => Err((INTERNAL_ERROR, "deserialize result: "@ + e@)),
        CallStep::Decoded(v) => Ok(v),
    }
}

pub open spec fn a2a_result_view<T>(r: Result<T, A2AError>) -> Result<T, (i32, Seq<char>)> {
    match r {
        Ok(v) => Ok(v),
        Err(e) => Err(e@),
    }
}

fn internal_with(prefix: &str, detail: &str) -> (res: A2AError)
    ensures
        res@ == (INTERNAL_ERROR, prefix@ + detail@),
{
    A2AError::new(INTERNAL_ERROR, String::from_str(prefix).concat(detail))
}

/// The result of a unary call.
pub fn call_result<T>(s: CallStep<T>) -> (res: Result<T, A2AError>)
    ensures
        a2a_result_view(res) == spec_call_result(s),
{
    match s {
        CallStep::SerializeParamsFailed(e) => Err(internal_with("serialize params: ", e.as_str())),
        CallStep::SerializeRequestFailed(e) => Err(internal_with("serialize request: ", e.as_str())),
        CallStep::WriteFailed(e) => Err(internal_with("write frame: ", e.to_message().as_str())),
        CallStep::ReadFailed(e) => Err(internal_with("read frame: ", e.to_message().as_str())),
        CallStep::Closed => Err(A2AError::internal("subprocess closed stdout unexpectedly")),
        CallStep::Unparsable(e) => Err(internal_with("parse response: ", e.as_str())),
        CallStep::RpcError { code, message } => Err(A2AError::new(code, message)),
        CallStep::MissingResult => Err(A2AError::internal("response missing result")),
        CallStep::Undecodable(e) => Err(internal_with("deserialize result: ", e.as_str())),
        CallStep::Decoded(v) => Ok(v),
    }
}

/// What the client's JSON layer made of a frame that is a JSON response: a response that
/// does not parse, an error response, or a success response with its result decoded as an
/// event (`None` when the result is absent or null).
pub enum ResponseParse<T> {
    Unparsable(String),
    Error { code: i32, message: String },
    Success(Option<Result<T, String>>),
}

/// What the client's JSON layer made of one frame read while a stream is open.
pub enum StreamFrame<T> {
    ReadFailed(StdioError),
    EndOfStream,
    /// The frame is not JSON.
    NotJson(String),
    /// The frame is JSON: whether it has a non-null `id`, what it is when read as a
    /// response, and its `params` decoded as an event (`None` when it has none).
    Json { has_id: bool, response: ResponseParse<T>, params: Option<Result<T, String>> },
}

/// What the reader does after handing on an item.
#[derive(Clone, Copy, PartialEq, Eq, Structural)]
pub enum AfterFrame {
    /// The stream is over.
    Stop,
    /// Read the next frame.
    Continue,
    /// Read the next frame unless the consumer has gone away.
    ContinueUnlessClosed,
}

/// The reader's decision on one frame: what it hands to the consumer, and what it does next.
pub struct StreamStep<T> {
    pub item: Option<Result<T, A2AError>>,
    pub next: AfterFrame,
}

pub open spec fn item_view<T>(i: Option<Result<T, A2AError>>) -> Option<Result<T, (i32, Seq<char>)>> {
    match i {
        None => None,
        Some(r) => Some(a2a_result_view(r)),
    }
}

/// The reader's decision on each kind of frame: a frame with an `id` is the final
/// response and ends the stream; a frame without one is a notification carrying an event.
pub open spec fn spec_stream_step<T>(f: StreamFrame<T>) -> (Option<Result<T, (i32, Seq<char>)>>, AfterFrame) {
    match f {
        StreamFrame::ReadFailed(e) => (Some(Err((INTERNAL_ERROR, "read frame: "@ + spec_stdio_error_text(e@)))), AfterFrame::Stop),
        StreamFrame::EndOfStream => (None, AfterFrame::Stop),
        StreamFrame::NotJson(e) => (Some(Err((INTERNAL_ERROR, "parse frame: "@ + e@))), AfterFrame::Stop),
        StreamFrame::Json { has_id, response, params } => if has_id {
            match response {
                ResponseParse::Unparsable(e) => (Some(Err((INTERNAL_ERROR, "parse response: "@ + e@))), AfterFrame::Stop),
                ResponseParse::Error { code, message } => (Some(Err((code, message@))), AfterFrame::Stop),
                ResponseParse::Success(None) => (None, AfterFrame::Stop),
                ResponseParse::Success(Some(Ok(v))) => (Some(Ok(v)), AfterFrame::Stop),
                ResponseParse::Success(Some(Err(e))) => (
                    Some(Err((INTERNAL_ERROR, "failed to parse final stream response: "@ + e@))),
                    AfterFrame::Stop,
                ),
            }
        } else {
            match params {
                None => (None, AfterFrame::Continue),
                Some(Ok(v)) => (Some(Ok(v)), AfterFrame::ContinueUnlessClosed),
                Some(Err(e)) => (
                    Some(Err((INTERNAL_ERROR, "parse streaming event: "@ + e@))),
                    AfterFrame::Continue,
                ),
            }
        },
    }
}

/// Decides on one frame of an open stream.
pub fn stream_step<T>(f: StreamFrame<T>) -> (res: StreamStep<T>)
    ensures
        (item_view(res.item), res.next) == spec_stream_step(f),
{
    match f {
        StreamFrame::ReadFailed(e) => StreamStep {
            item: Some(Err(internal_with("read frame: ", e.to_message().as_str()))),
            next: AfterFrame::Stop,
        },
        StreamFrame::EndOfStream => StreamStep { item: None, next: AfterFrame::Stop },
        StreamFrame::NotJson(e) => StreamStep {
            item: Some(Err(internal_with("parse frame: ", e.as_str()))),
            next: AfterFrame::Stop,
        },
        StreamFrame::Json { has_id, response, params } => {
            if has_id {
                match response {
                    ResponseParse::Unparsable(e) => StreamStep {
                        item: Some(Err(internal_with("parse response: ", e.as_str()))),
                        next: AfterFrame::Stop,
                    },
                    ResponseParse::Error { code, message } => StreamStep {
                        item: Some(Err(A2AError::new(code, message))),
                        next: AfterFrame::Stop,
                    },
                    ResponseParse::Success(None) => StreamStep { item: None, next: AfterFrame::Stop },
                    ResponseParse::Success(Some(Ok(v))) => StreamStep { item: Some(Ok(v)), next: AfterFrame::Stop },
                    ResponseParse::Success(Some(Err(e))) => StreamStep {
                        item: Some(Err(internal_with("failed to parse final stream response: ", e.as_str()))),
                        next: AfterFrame::Stop,
                    },
                }
            } else {
                match params {
                    None => StreamStep { item: None, next: AfterFrame::Continue },
                    Some(Ok(v)) => StreamStep { item: Some(Ok(v)), next: AfterFrame::ContinueUnlessClosed },
                    Some(Err(e)) => StreamStep {
                        item: Some(Err(internal_with("parse streaming event: ", e.as_str()))),
                        next: AfterFrame::Continue,
                    },
                }
            }
        },
    }
}

/// A stream ends exactly at a frame that is not a notification: the final response (a frame
/// with an `id`), the end of the input, or a frame that cannot be read or parsed.
pub proof fn lemma_stream_stops_unless_notification<T>(f: StreamFrame<T>)
    ensures
        (spec_stream_step(f).1 == AfterFrame::Stop) <==> !(f matches StreamFrame::Json { has_id, .. } && !has_id),
{
}

/// The error a transport factory reports when the subprocess cannot be started.
pub fn spawn_error(e: &StdioError) -> (res: A2AError)
    ensures
        res@ == (INTERNAL_ERROR, "failed to spawn stdio transport: "@ + spec_stdio_error_text(e@)),
{
    internal_with("failed to spawn stdio transport: ", e.to_message().as_str())
}

/// The program and arguments that a STDIO interface URL names.
///
/// `stdio://<path>?<arg>&<arg>` splits the path at the first `?` and the arguments at each
/// `&`; any other URL is a command line split at white space.
pub open spec fn spec_parse_stdio_url(url: Seq<char>) -> Option<(Seq<char>, Seq<Seq<char>>)> {
    if starts_with(url, "stdio://"@) {
        let rest = url.subrange("stdio://"@.len() as int, url.len() as int);
        let (path, query) = match spec_split_once(rest, '?') {
            Some(pq) => pq,
            None => (rest, Seq::<char>::empty()),
        };
        Some((path, if query.len() == 0 { Seq::empty() } else { spec_split(query, '&') }))
    } else {
        let parts = spec_split_whitespace(url);
        if parts.len() == 0 {
            None
        } else {
            Some((parts[0], parts.drop_first()))
        }
    }
}

/// The `stdio://` URL of a program and its arguments: the arguments, when there are any,
/// follow a `?` and are separated by `&`.
pub open spec fn spec_stdio_url(path: Seq<char>, args: Seq<Seq<char>>) -> Seq<char> {
    if args.len() == 0 {
        "stdio://"@ + path
    } else {
        "stdio://"@ + path + "?"@ + spec_join_char(args, '&')
    }
}

/// A `stdio://` URL gives back its program and arguments, when the program's path holds no
/// `?` and no argument holds `&` (a single empty argument is read as none).
pub proof fn lemma_stdio_url_roundtrip(path: Seq<char>, args: Seq<Seq<char>>)
    requires
        forall|j: int| 0 <= j < path.len() ==> #[trigger] path[j] != '?',
        forall|i: int, j: int| 0 <= i < args.len() && 0 <= j < args[i].len() ==> #[trigger] args[i][j] != '&',
        !(args.len() == 1 && args[0].len() == 0),
    ensures
        spec_parse_stdio_url(spec_stdio_url(path, args)) == Some((path, args)),
{
    reveal_strlit("stdio://");
    reveal_strlit("?");
    let url = spec_stdio_url(path, args);
    let pre = "stdio://"@;
    assert(url.subrange(0, pre.len() as int) =~= pre);
    let rest = url.subrange(pre.len() as int, url.len() as int);
    if args.len() == 0 {
        assert(rest =~= path);
        lemma_find_char_exact(rest, '?', rest.len() as int);
        assert(spec_split_once(rest, '?') is None);
        assert(Seq::<Seq<char>>::empty() =~= args);
    } else {
        let q = spec_join_char(args, '&');
        assert(rest =~= path + seq!['?'] + q);
        assert forall|j: int| 0 <= j < path.len() implies rest[j] != '?' by {
            assert(rest[j] == path[j]);
        }
        lemma_find_char_exact(rest, '?', path.len() as int);
        assert(rest.subrange(0, path.len() as int) =~= path);
        assert(rest.subrange(path.len() as int + 1, rest.len() as int) =~= q);
        if args.len() == 1 {
            assert(q == args[0]);
        } else {
            assert(q.len() >= args[0].len() + 1);
        }
        assert(q.len() > 0);
        lemma_split_join(args, '&');
    }
}

/// A command line of words separated by single spaces gives back its program and
/// arguments, when the words are not empty, hold no white space, and the line does not
/// begin with `stdio://`.
pub proof fn lemma_command_line_roundtrip(words: Seq<Seq<char>>)
    requires
        words.len() >= 1,
        forall|i: int| 0 <= i < words.len() ==> #[trigger] words[i].len() > 0,
        forall|i: int, j: int| 0 <= i < words.len() && 0 <= j < words[i].len() ==> !is_white_space(#[trigger] words[i][j]),
        !starts_with(spec_join_char(words, ' '), "stdio://"@),
    ensures
        spec_parse_stdio_url(spec_join_char(words, ' ')) == Some((words[0], words.drop_first())),
{
    lemma_split_whitespace_words(words);
}

/// Parses a STDIO interface URL into program and arguments; an empty command line is an
/// internal error `empty stdio command`.
pub fn parse_stdio_url(url: &str) -> (res: Result<(String, Vec<String>), A2AError>)
    ensures
        match spec_parse_stdio_url(url@) {
            Some((p, a)) => res matches Ok((prog, args)) && prog@ == p && strings_view(args@) == a,
            None => res matches Err(e) && e@ == (INTERNAL_ERROR, "empty stdio command"@),
        },
{
    let v = chars_of(url);
    if starts_with_str(&v, "stdio://") {
        let ghost pl = "stdio://"@.len();
        let start = chars_of("stdio://").len();
        let ghost rest = v@.subrange(start as int, v@.len() as int);
        let q = find_char_in(&v, '?', start);
        proof {
            crate::text::lemma_find_char_from(v@, '?', start as int);
        }
        if q < v.len() {
            let program = string_from_chars(v.as_slice(), start, q);
            assert(rest.subrange(0, q - start) =~= v@.subrange(start as int, q as int));
            assert(rest.subrange(q - start + 1, rest.len() as int) =~= v@.subrange(q + 1, v@.len() as int));
            if q + 1 == v.len() {
                let args: Vec<String> = Vec::new();
                assert(strings_view(args@) =~= Seq::<Seq<char>>::empty());
                return Ok((program, args));
            }
            let args = split_chars(&v, q + 1, v.len(), '&');
            Ok((program, args))
        } else {
            let program = string_from_chars(v.as_slice(), start, v.len());
            assert(rest =~= v@.subrange(start as int, v@.len() as int));
            let args: Vec<String> = Vec::new();
            assert(strings_view(args@) =~= Seq::<Seq<char>>::empty());
            Ok((program, args))
        }
    } else {
        let parts = split_whitespace_chars(&v, 0);
        assert(v@.subrange(0, v@.len() as int) =~= v@);
        if parts.len() == 0 {
            return Err(A2AError::internal("empty stdio command"));
        }
        let mut args: Vec<String> = Vec::new();
        let mut i: usize = 1;
        while i < parts.len()
            invariant
                1 <= i <= parts@.len(),
                args@.len() == i - 1,
                forall|j: int| 0 <= j < i - 1 ==> #[trigger] args@[j]@ == parts@[j + 1]@,
            decreases parts.len() - i,
        {
            args.push(crate::text::copy_string(parts[i].as_str()));
            i += 1;
        }
        let program = crate::text::copy_string(parts[0].as_str());
        assert(strings_view(args@) =~= strings_view(parts@).drop_first());
        Ok((program, args))
    }
}

} // verus!
