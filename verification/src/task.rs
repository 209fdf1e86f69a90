//! Tasks, messages and events, and how the request handler folds an executor's events
//! into a task.

use vstd::prelude::*;
use vstd::string::*;
use crate::errors::{A2AError, TASK_NOT_FOUND, TASK_NOT_CANCELABLE};
use crate::ids::{new_id, is_hyphenated_uuid};
use crate::text::{copy_string, str_eq};

verus! {

/// The lifecycle state of a task.
#[derive(Clone, Copy, Debug, PartialEq, Eq, Structural)]
pub enum TaskState {
    Unspecified,
    Submitted,
    Working,
    Completed,
    Failed,
    Canceled,
    InputRequired,
    Rejected,
    AuthRequired,
}

/// Completed, failed, canceled and rejected tasks are over.
pub open spec fn spec_is_terminal(s: TaskState) -> bool {
    s == TaskState::Completed || s == TaskState::Failed || s == TaskState::Canceled || s
        == TaskState::Rejected
}

/// The name of each state on the wire.
pub open spec fn spec_state_name(s: TaskState) -> Seq<char> {
    match s {
        TaskState::Unspecified => "TASK_STATE_UNSPECIFIED"@,
        TaskState::Submitted => "TASK_STATE_SUBMITTED"@,
        TaskState::Working => "TASK_STATE_WORKING"@,
        TaskState::Completed => "TASK_STATE_COMPLETED"@,
        TaskState::Failed => "TASK_STATE_FAILED"@,
        TaskState::Canceled => "TASK_STATE_CANCELED"@,
        TaskState::InputRequired => "TASK_STATE_INPUT_REQUIRED"@,
        TaskState::Rejected => "TASK_STATE_REJECTED"@,
        TaskState::AuthRequired => "TASK_STATE_AUTH_REQUIRED"@,
    }
}

/// The state a wire name denotes, if any.
pub open spec fn spec_state_from_name(n: Seq<char>) -> Option<TaskState> {
    if n == "TASK_STATE_UNSPECIFIED"@ {
        Some(TaskState::Unspecified)
    } else if n == "TASK_STATE_SUBMITTED"@ {
        Some(TaskState::Submitted)
    } else if n == "TASK_STATE_WORKING"@ {
        Some(TaskState::Working)
    } else if n == "TASK_STATE_COMPLETED"@ {
        Some(TaskState::Completed)
    } else if n == "TASK_STATE_FAILED"@ {
        Some(TaskState::Failed)
    } else if n == "TASK_STATE_CANCELED"@ {
        Some(TaskState::Canceled)
    } else if n == "TASK_STATE_INPUT_REQUIRED"@ {
        Some(TaskState::InputRequired)
    } else if n == "TASK_STATE_REJECTED"@ {
        Some(TaskState::Rejected)
    } else if n == "TASK_STATE_AUTH_REQUIRED"@ {
        Some(TaskState::AuthRequired)
    } else {
        None
    }
}

impl TaskState {
    /// Whether the task is over.
    pub fn is_terminal(&self) -> (res: bool)
        ensures
            res == spec_is_terminal(*self),
    {
        match self {
            TaskState::Completed | TaskState::Failed | TaskState::Canceled | TaskState::Rejected => true,
            _ => false,
        }
    }

    /// The name of the state on the wire.
    pub fn wire_name(&self) -> (res: &'static str)
        ensures
            res@ == spec_state_name(*self),
    {
        match self {
            TaskState::Unspecified => "TASK_STATE_UNSPECIFIED",
            TaskState::Submitted => "TASK_STATE_SUBMITTED",
            TaskState::Working => "TASK_STATE_WORKING",
            TaskState::Completed => "TASK_STATE_COMPLETED",
            TaskState::Failed => "TASK_STATE_FAILED",
            TaskState::Canceled => "TASK_STATE_CANCELED",
            TaskState::InputRequired => "TASK_STATE_INPUT_REQUIRED",
            TaskState::Rejected => "TASK_STATE_REJECTED",
            TaskState::AuthRequired => "TASK_STATE_AUTH_REQUIRED",
        }
    }

    /// The state a wire name denotes, if any.
    pub fn from_wire_name(n: &str) -> (res: Option<TaskState>)
        ensures
            res == spec_state_from_name(n@),
    {
        if str_eq(n, "TASK_STATE_UNSPECIFIED") {
            Some(TaskState::Unspecified)
        } else if str_eq(n, "TASK_STATE_SUBMITTED") {
            Some(TaskState::Submitted)
        } else if str_eq(n, "TASK_STATE_WORKING") {
            Some(TaskState::Working)
        } else if str_eq(n, "TASK_STATE_COMPLETED") {
            Some(TaskState::Completed)
        } else if str_eq(n, "TASK_STATE_FAILED") {
            Some(TaskState::Failed)
        } else if str_eq(n, "TASK_STATE_CANCELED") {
            Some(TaskState::Canceled)
        } else if str_eq(n, "TASK_STATE_INPUT_REQUIRED") {
            Some(TaskState::InputRequired)
        } else if str_eq(n, "TASK_STATE_REJECTED") {
            Some(TaskState::Rejected)
        } else if str_eq(n, "TASK_STATE_AUTH_REQUIRED") {
            Some(TaskState::AuthRequired)
        } else {
            None
        }
    }
}

/// A task is over exactly when it completed, failed, was canceled or was rejected; a task
/// not yet started, submitted, working, or waiting for input or for authentication is not.
pub proof fn lemma_terminal_states(s: TaskState)
    ensures
        spec_is_terminal(s) <==> (s is Completed || s is Failed || s is Canceled || s is Rejected),
        (s is Unspecified || s is Submitted || s is Working || s is InputRequired || s is AuthRequired)
            ==> !spec_is_terminal(s),
{
}

/// Reading a state back from its wire name gives the same state.
pub proof fn lemma_state_name_roundtrip(s: TaskState)
    ensures
        spec_state_from_name(spec_state_name(s)) == Some(s),
{
    reveal_strlit("TASK_STATE_UNSPECIFIED");
    reveal_strlit("TASK_STATE_SUBMITTED");
    reveal_strlit("TASK_STATE_WORKING");
    reveal_strlit("TASK_STATE_COMPLETED");
    reveal_strlit("TASK_STATE_FAILED");
    reveal_strlit("TASK_STATE_CANCELED");
    reveal_strlit("TASK_STATE_INPUT_REQUIRED");
    reveal_strlit("TASK_STATE_REJECTED");
    reveal_strlit("TASK_STATE_AUTH_REQUIRED");
    assert("TASK_STATE_UNSPECIFIED"@.len() == 22);
    assert("TASK_STATE_SUBMITTED"@.len() == 20);
    assert("TASK_STATE_WORKING"@.len() == 18);
    assert("TASK_STATE_COMPLETED"@.len() == 20);
    assert("TASK_STATE_FAILED"@.len() == 17);
    assert("TASK_STATE_CANCELED"@.len() == 19);
    assert("TASK_STATE_INPUT_REQUIRED"@.len() == 25);
    assert("TASK_STATE_REJECTED"@.len() == 19);
    assert("TASK_STATE_AUTH_REQUIRED"@.len() == 24);
    assert("TASK_STATE_SUBMITTED"@ != "TASK_STATE_COMPLETED"@) by {
        assert("TASK_STATE_SUBMITTED"@[11] != "TASK_STATE_COMPLETED"@[11]);
    }
    assert("TASK_STATE_CANCELED"@ != "TASK_STATE_REJECTED"@) by {
        assert("TASK_STATE_CANCELED"@[11] != "TASK_STATE_REJECTED"@[11]);
    }
}

/// Who sent a message.
#[derive(Clone, Copy, Debug, PartialEq, Eq, Structural)]
pub enum Role {
    Unspecified,
    User,
    Agent,
}

/// One part of a message or artifact.
#[derive(Clone, Debug)]
pub enum Part {
    /// Plain text.
    Text(String),
    /// Any other content, as JSON text.
    Data(String),
}

impl Part {
    /// A text part.
    pub fn text(t: String) -> (res: Part)
        ensures
            res == Part::Text(t),
    {
        Part::Text(t)
    }
}

/// A message between client and agent.
#[derive(Clone, Debug)]
pub struct Message {
    pub message_id: String,
    pub context_id: Option<String>,
    pub task_id: Option<String>,
    pub role: Role,
    pub parts: Vec<Part>,
}

impl Message {
    /// A new message from this role with these parts, under a fresh id and outside any
    /// context or task.
    pub fn new(role: Role, parts: Vec<Part>) -> (res: Message)
        ensures
            res.role == role,
            res.parts == parts,
            res.context_id is None,
            res.task_id is None,
            is_hyphenated_uuid(res.message_id@, '4'),
    {
        Message { message_id: new_id(), context_id: None, task_id: None, role, parts }
    }
}

/// The text of the first text part, if any.
pub open spec fn spec_first_text(parts: Seq<Part>) -> Option<Seq<char>>
    decreases parts.len(),
{
    if parts.len() == 0 {
        None
    } else {
        match parts[0] {
            Part::Text(t) => Some(t@),
            Part::Data(_) => spec_first_text(parts.drop_first()),
        }
    }
}

/// An output of a task.
#[derive(Clone, Debug)]
pub struct Artifact {
    pub artifact_id: String,
    pub parts: Vec<Part>,
}

/// A task's state with its optional status message and timestamp.
#[derive(Clone, Debug)]
pub struct TaskStatus {
    pub state: TaskState,
    pub message: Option<Message>,
    pub timestamp: Option<String>,
}

/// A unit of work.
#[derive(Clone, Debug)]
pub struct Task {
    pub id: String,
    pub context_id: String,
    pub status: TaskStatus,
    pub artifacts: Option<Vec<Artifact>>,
    pub history: Option<Vec<Message>>,
    /// Metadata, as JSON text.
    pub metadata: Option<String>,
}

/// A change of a task's status.
pub struct TaskStatusUpdateEvent {
    pub task_id: String,
    pub context_id: String,
    pub status: TaskStatus,
}

/// A new artifact of a task.
pub struct TaskArtifactUpdateEvent {
    pub task_id: String,
    pub context_id: String,
    pub artifact: Artifact,
}

/// One event of an executor's stream.
pub enum StreamResponse {
    Task(Task),
    Message(Message),
    StatusUpdate(TaskStatusUpdateEvent),
    ArtifactUpdate(TaskArtifactUpdateEvent),
}

/// The answer to a `message/send` request.
pub enum SendMessageResponse {
    Task(Task),
    Message(Message),
}

/// A task id and context id for a message: the ones it names, or fresh ones.
pub fn resolve_ids(message: &Message) -> (res: (String, String))
    ensures
        message.task_id matches Some(t) ==> res.0@ == t@,
        message.task_id is None ==> is_hyphenated_uuid(res.0@, '4'),
        message.context_id matches Some(c) ==> res.1@ == c@,
        message.context_id is None ==> is_hyphenated_uuid(res.1@, '4'),
{
    let task_id = match &message.task_id {
        Some(t) => copy_string(t.as_str()),
        None => new_id(),
    };
    let context_id = match &message.context_id {
        Some(c) => copy_string(c.as_str()),
        None => new_id(),
    };
    (task_id, context_id)
}

/// The task a handler records for a message that names no known task: submitted at
/// `timestamp`, with the message as its whole history.
pub fn initial_task(task_id: String, context_id: String, message: Message, timestamp: Option<String>) -> (res: Task)
    ensures
        res.id == task_id,
        res.context_id == context_id,
        res.status.state == TaskState::Submitted,
        res.status.message is None,
        res.status.timestamp == timestamp,
        res.artifacts is None,
        res.history matches Some(h) && h@ == seq![message],
        res.metadata is None,
{
    let mut history: Vec<Message> = Vec::new();
    history.push(message);
    Task {
        id: task_id,
        context_id,
        status: TaskStatus { state: TaskState::Submitted, message: None, timestamp },
        artifacts: None,
        history: Some(history),
        metadata: None,
    }
}

/// The task a `message/send` starts from, and whether it must be created in the store: the
/// stored task when there is one, else [`initial_task`].
pub fn start_task(stored: Option<Task>, task_id: String, context_id: String, message: Message, timestamp: Option<String>) -> (res: (Task, bool))
    ensures
        match stored {
            Some(t) => res.0 == t && !res.1,
            None => {
                &&& res.1
                &&& res.0.id == task_id
                &&& res.0.context_id == context_id
                &&& res.0.status.state == TaskState::Submitted
                &&& res.0.status.message is None
                &&& res.0.status.timestamp == timestamp
                &&& res.0.artifacts is None
                &&& res.0.history matches Some(h) && h@ == seq![message]
                &&& res.0.metadata is None
            },
        },
{
    match stored {
        Some(t) => (t, false),
        None => (initial_task(task_id, context_id, message, timestamp), true),
    }
}

/// The task a `tasks/get` answers with: the stored one, or the error `task not found`.
pub fn task_or_not_found(id: &str, stored: Option<Task>) -> (res: Result<Task, A2AError>)
    ensures
        match stored {
            Some(t) => res == Ok::<Task, A2AError>(t),
            None => res matches Err(e) && e@ == (TASK_NOT_FOUND, "task not found: "@ + id@),
        },
{
    match stored {
        Some(t) => Ok(t),
        None => Err(A2AError::task_not_found(id)),
    }
}

/// `new` is `old` after a status update or an artifact update: the status is replaced, or
/// the artifact is appended (to a new list when there was none); nothing else changes.
pub open spec fn spec_applied(old: Task, ev: StreamResponse, new: Task) -> bool {
    match ev {
        StreamResponse::Task(t) => new == t,
        StreamResponse::StatusUpdate(su) => new == Task { status: su.status, ..old },
        StreamResponse::ArtifactUpdate(au) => {
            &&& new.id == old.id
            &&& new.context_id == old.context_id
            &&& new.status == old.status
            &&& new.history == old.history
            &&& new.metadata == old.metadata
            &&& new.artifacts matches Some(a) && a@ == match old.artifacts {
                Some(o) => o@.push(au.artifact),
                None => seq![au.artifact],
            }
        },
        StreamResponse::Message(_) => new == old,
    }
}

fn apply_event(task: Task, ev: StreamResponse) -> (res: Result<Task, Message>)
    ensures
        match ev {
            StreamResponse::Message(m) => res == Err::<Task, Message>(m),
            _ => res matches Ok(t) && spec_applied(task, ev, t),
        },
{
    match ev {
        StreamResponse::Task(t) => Ok(t),
        StreamResponse::StatusUpdate(su) => Ok(Task { status: su.status, ..task }),
        StreamResponse::ArtifactUpdate(au) => {
            let mut task = task;
            let ghost before = task.artifacts;
            match task.artifacts {
                Some(mut a) => {
                    a.push(au.artifact);
                    task.artifacts = Some(a);
                },
                None => {
                    let mut a: Vec<Artifact> = Vec::new();
                    a.push(au.artifact);
                    task.artifacts = Some(a);
                },
            }
            Ok(task)
        },
        StreamResponse::Message(m) => Err(m),
    }
}

/// What a `message/send` handler does after one event of the executor's stream.
pub enum SendStep {
    /// Go on to the next event, with the task as it now stands.
    Next(Task),
    /// The task reached a terminal state: record it and answer with it.
    Finished(Task),
    /// The executor answered with a message: answer with it at once.
    Reply(Message),
    /// The executor failed: answer with the error.
    Failed(A2AError),
}

/// Folds one event of the executor's stream into the task being sent.
pub fn send_step(task: Task, event: Result<StreamResponse, A2AError>) -> (res: SendStep)
    ensures
        (event matches Ok(StreamResponse::StatusUpdate(su)) && (su.status.state is Completed
            || su.status.state is Failed || su.status.state is Canceled || su.status.state is Rejected))
            ==> res is Finished,
        (event matches Ok(StreamResponse::StatusUpdate(su)) && !(su.status.state is Completed
            || su.status.state is Failed || su.status.state is Canceled || su.status.state is Rejected))
            ==> res is Next,
        match event {
            Err(e) => res == SendStep::Failed(e),
            Ok(StreamResponse::Message(m)) => res == SendStep::Reply(m),
            Ok(ev) => match res {
                SendStep::Next(t) => spec_applied(task, ev, t) && !spec_is_terminal(t.status.state),
                SendStep::Finished(t) => spec_applied(task, ev, t) && spec_is_terminal(t.status.state),
                _ => false,
            },
        },
{
    match event {
        Err(e) => SendStep::Failed(e),
        Ok(ev) => match apply_event(task, ev) {
            Err(m) => SendStep::Reply(m),
            Ok(t) => {
                if t.status.state.is_terminal() {
                    SendStep::Finished(t)
                } else {
                    SendStep::Next(t)
                }
            },
        },
    }
}

/// The task that a cancel request starts from: the stored task, unless there is none
/// (task not found) or it is already over (not cancelable).
pub fn check_cancelable(id: &str, stored: Option<Task>) -> (res: Result<Task, A2AError>)
    ensures
        (stored matches Some(t) && (t.status.state is Completed || t.status.state is Failed
            || t.status.state is Canceled || t.status.state is Rejected))
            ==> (res matches Err(e) && e.code == TASK_NOT_CANCELABLE),
        (stored matches Some(t) && !(t.status.state is Completed || t.status.state is Failed
            || t.status.state is Canceled || t.status.state is Rejected))
            ==> res is Ok,
        match stored {
            None => res matches Err(e) && e@ == (TASK_NOT_FOUND, "task not found: "@ + id@),
            Some(t) => if spec_is_terminal(t.status.state) {
                res matches Err(e) && e@ == (TASK_NOT_CANCELABLE, "task cannot be canceled: "@ + id@)
            } else {
                res == Ok::<Task, A2AError>(t)
            },
        },
{
    match stored {
        None => Err(A2AError::task_not_found(id)),
        Some(t) => {
            if t.status.state.is_terminal() {
                Err(A2AError::task_not_cancelable(id))
            } else {
                Ok(t)
            }
        },
    }
}

/// Folds one event of the executor's cancel stream into the task: a task replaces it, a
/// status update replaces its status, anything else leaves it as it is; an error ends the
/// cancel with that error.
pub fn cancel_step(task: Task, event: Result<StreamResponse, A2AError>) -> (res: Result<Task, A2AError>)
    ensures
        match event {
            Err(e) => res == Err::<Task, A2AError>(e),
            Ok(StreamResponse::Task(t)) => res == Ok::<Task, A2AError>(t),
            Ok(StreamResponse::StatusUpdate(su)) => res == Ok::<Task, A2AError>(Task { status: su.status, ..task }),
            Ok(_) => res == Ok::<Task, A2AError>(task),
        },
{
    match event {
        Err(e) => Err(e),
        Ok(StreamResponse::Task(t)) => Ok(t),
        Ok(StreamResponse::StatusUpdate(su)) => Ok(Task { status: su.status, ..task }),
        Ok(_) => Ok(task),
    }
}

} // verus!
