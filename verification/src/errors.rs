//! Error values of the transport and of the protocol.

use vstd::prelude::*;
use vstd::string::*;

verus! {

/// Errors of the STDIO transport. Outside errors (I/O, JSON) are held by their message.
#[derive(Debug)]
pub enum StdioError {
    Io(String),
    Json(String),
    InvalidHeader(String),
    HandshakeFailed(String),
    Closed,
}

/// The mathematical value of a [`StdioError`]: its kind and its message text.
pub enum StdioErrorView {
    Io(Seq<char>),
    Json(Seq<char>),
    InvalidHeader(Seq<char>),
    HandshakeFailed(Seq<char>),
    Closed,
}

impl View for StdioError {
    type V = StdioErrorView;

    open spec fn view(&self) -> StdioErrorView {
        match self {
            StdioError::Io(m) => StdioErrorView::Io(m@),
            StdioError::Json(m) => StdioErrorView::Json(m@),
            StdioError::InvalidHeader(m) => StdioErrorView::InvalidHeader(m@),
            StdioError::HandshakeFailed(m) => StdioErrorView::HandshakeFailed(m@),
            StdioError::Closed => StdioErrorView::Closed,
        }
    }
}

/// The text that a [`StdioError`] displays.
pub open spec fn spec_stdio_error_text(e: StdioErrorView) -> Seq<char> {
    match e {
        StdioErrorView::Io(m) => "IO error: "@ + m,
        StdioErrorView::Json(m) => "JSON serialization error: "@ + m,
        StdioErrorView::InvalidHeader(m) => "invalid frame header: "@ + m,
        StdioErrorView::HandshakeFailed(m) => "handshake failed: "@ + m,
        StdioErrorView::Closed => "transport closed"@,
    }
}

impl StdioError {
    /// The human-readable text of the error.
    pub fn to_message(&self) -> (res: String)
        ensures
            res@ == spec_stdio_error_text(self@),
    {
        match self {
            StdioError::Io(m) => String::from_str("IO error: ").concat(m.as_str()),
            StdioError::Json(m) => String::from_str("JSON serialization error: ").concat(m.as_str()),
            StdioError::InvalidHeader(m) => String::from_str("invalid frame header: ").concat(m.as_str()),
            StdioError::HandshakeFailed(m) => String::from_str("handshake failed: ").concat(m.as_str()),
            StdioError::Closed => String::from_str("transport closed"),
        }
    }
}

/// JSON-RPC and A2A error codes.
pub const PARSE_ERROR: i32 = -32700;
pub const INVALID_REQUEST: i32 = -32600;
pub const METHOD_NOT_FOUND: i32 = -32601;
pub const INVALID_PARAMS: i32 = -32602;
pub const INTERNAL_ERROR: i32 = -32603;
pub const TASK_NOT_FOUND: i32 = -32001;
pub const TASK_NOT_CANCELABLE: i32 = -32002;
pub const PUSH_NOTIFICATION_NOT_SUPPORTED: i32 = -32003;
pub const UNSUPPORTED_OPERATION: i32 = -32004;
pub const CONTENT_TYPE_NOT_SUPPORTED: i32 = -32005;
pub const INVALID_AGENT_RESPONSE: i32 = -32006;

/// A protocol error: a numeric code and a message.
#[derive(Debug)]
pub struct A2AError {
    pub code: i32,
    pub message: String,
}

impl View for A2AError {
    type V = (i32, Seq<char>);

    open spec fn view(&self) -> (i32, Seq<char>) {
        (self.code, self.message@)
    }
}

impl A2AError {
    /// An error with the given code and message.
    pub fn new(code: i32, message: String) -> (res: A2AError)
        ensures
            res.code == code,
            res.message@ == message@,
    {
        A2AError { code, message }
    }

    /// An internal error with the given message.
    pub fn internal(message: &str) -> (res: A2AError)
        ensures
            res.code == INTERNAL_ERROR,
            res.message@ == message@,
    {
        A2AError { code: INTERNAL_ERROR, message: String::from_str(message) }
    }

    /// The task with this id does not exist.
    pub fn task_not_found(id: &str) -> (res: A2AError)
        ensures
            res.code == TASK_NOT_FOUND,
            res.message@ == "task not found: "@ + id@,
    {
        A2AError { code: TASK_NOT_FOUND, message: String::from_str("task not found: ").concat(id) }
    }

    /// The task with this id is in a state that cannot be canceled.
    pub fn task_not_cancelable(id: &str) -> (res: A2AError)
        ensures
            res.code == TASK_NOT_CANCELABLE,
            res.message@ == "task cannot be canceled: "@ + id@,
    {
        A2AError {
            code: TASK_NOT_CANCELABLE,
            message: String::from_str("task cannot be canceled: ").concat(id),
        }
    }

    /// Push notifications are not supported by this server.
    pub fn push_notification_not_supported() -> (res: A2AError)
        ensures
            res.code == PUSH_NOTIFICATION_NOT_SUPPORTED,
            res.message@ == "push notifications not supported"@,
    {
        A2AError {
            code: PUSH_NOTIFICATION_NOT_SUPPORTED,
            message: String::from_str("push notifications not supported"),
        }
    }

    /// The operation is not supported.
    pub fn unsupported_operation(message: &str) -> (res: A2AError)
        ensures
            res.code == UNSUPPORTED_OPERATION,
            res.message@ == message@,
    {
        A2AError { code: UNSUPPORTED_OPERATION, message: String::from_str(message) }
    }
}

/// The HTTP status that the REST binding answers an error code with.
pub open spec fn spec_http_status(code: i32) -> u16 {
    if code == TASK_NOT_FOUND || code == METHOD_NOT_FOUND {
        404
    } else if code == TASK_NOT_CANCELABLE {
        409
    } else if code == CONTENT_TYPE_NOT_SUPPORTED {
        415
    } else if code == INVALID_AGENT_RESPONSE {
        502
    } else if code == PUSH_NOTIFICATION_NOT_SUPPORTED || code == UNSUPPORTED_OPERATION || code
        == PARSE_ERROR || code == INVALID_REQUEST || code == INVALID_PARAMS {
        400
    } else {
        500
    }
}

impl A2AError {
    /// The HTTP status code for this error.
    pub fn http_status_code(&self) -> (res: u16)
        ensures
            res == spec_http_status(self.code),
    {
        let c = self.code;
        if c == TASK_NOT_FOUND || c == METHOD_NOT_FOUND {
            404
        } else if c == TASK_NOT_CANCELABLE {
            409
        } else if c == CONTENT_TYPE_NOT_SUPPORTED {
            415
        } else if c == INVALID_AGENT_RESPONSE {
            502
        } else if c == PUSH_NOTIFICATION_NOT_SUPPORTED || c == UNSUPPORTED_OPERATION || c
            == PARSE_ERROR || c == INVALID_REQUEST || c == INVALID_PARAMS {
            400
        } else {
            500
        }
    }
}

} // verus!
