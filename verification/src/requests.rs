//! The requests and answers of the A2A operations.

use vstd::prelude::*;
use crate::push::TaskPushNotificationConfig;
use crate::task::{Message, Part, Role, Task, TaskState};

verus! {

/// Options of a `message/send` request.
pub struct SendMessageConfiguration {
    pub accepted_output_modes: Option<Vec<String>>,
    pub task_push_notification_config: Option<TaskPushNotificationConfig>,
    pub history_length: Option<i32>,
    pub return_immediately: Option<bool>,
}

/// A `message/send` or `message/stream` request.
pub struct SendMessageRequest {
    pub message: Message,
    pub configuration: Option<SendMessageConfiguration>,
    /// Request metadata, as JSON text.
    pub metadata: Option<String>,
    pub tenant: Option<String>,
}

/// A `tasks/get` request.
pub struct GetTaskRequest {
    pub id: String,
    pub history_length: Option<i32>,
    pub tenant: Option<String>,
}

/// A `tasks/list` request.
pub struct ListTasksRequest {
    pub context_id: Option<String>,
    pub status: Option<TaskState>,
    pub page_size: Option<i32>,
    pub page_token: Option<String>,
    pub history_length: Option<i32>,
    /// RFC 3339 time.
    pub status_timestamp_after: Option<String>,
    pub include_artifacts: Option<bool>,
    pub tenant: Option<String>,
}

/// The answer to `tasks/list`.
pub struct ListTasksResponse {
    pub tasks: Vec<Task>,
    pub next_page_token: String,
    pub page_size: i32,
    pub total_size: i32,
}

/// A `tasks/cancel` request.
pub struct CancelTaskRequest {
    pub id: String,
    /// Request metadata, as JSON text.
    pub metadata: Option<String>,
    pub tenant: Option<String>,
}

/// A `tasks/subscribe` request.
pub struct SubscribeToTaskRequest {
    pub id: String,
    pub tenant: Option<String>,
}

/// A `tasks/pushNotificationConfig/get` request.
pub struct GetTaskPushNotificationConfigRequest {
    pub task_id: String,
    pub id: String,
    pub tenant: Option<String>,
}

/// A `tasks/pushNotificationConfig/list` request.
pub struct ListTaskPushNotificationConfigsRequest {
    pub task_id: String,
    pub page_size: Option<i32>,
    pub page_token: Option<String>,
    pub tenant: Option<String>,
}

/// A `tasks/pushNotificationConfig/delete` request.
pub struct DeleteTaskPushNotificationConfigRequest {
    pub task_id: String,
    pub id: String,
    pub tenant: Option<String>,
}

/// An `agent/extendedCard` request.
pub struct GetExtendedAgentCardRequest {
    pub tenant: Option<String>,
}

/// The request that sending a bare text makes: a fresh user message whose only part is the
/// text, with no configuration, metadata or tenant.
pub fn text_message_request(text: String) -> (res: SendMessageRequest)
    ensures
        res.message.role == Role::User,
        res.message.parts@ == seq![Part::Text(text)],
        res.message.context_id is None,
        res.message.task_id is None,
        res.configuration is None,
        res.metadata is None,
        res.tenant is None,
{
    let mut parts: Vec<Part> = Vec::new();
    parts.push(Part::text(text));
    SendMessageRequest {
        message: Message::new(Role::User, parts),
        configuration: None,
        metadata: None,
        tenant: None,
    }
}

} // verus!
