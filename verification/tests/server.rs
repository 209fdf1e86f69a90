use a2a_rs::errors::{
    A2AError, StdioError, INTERNAL_ERROR, INVALID_PARAMS, METHOD_NOT_FOUND, PARSE_ERROR,
    PUSH_NOTIFICATION_NOT_SUPPORTED, TASK_NOT_CANCELABLE, TASK_NOT_FOUND,
};
use a2a_rs::handler::{
    extended_card_unsupported, subscribe_unsupported, AgentCapabilities, DefaultRequestHandler,
};
use a2a_rs::push::{list_push_configs_page, sort_by_id, PushNotificationConfig};
use a2a_rs::rpc::{
    call_result, decide_request, invalid_params, route_method, stream_event_method, stream_step,
    AfterFrame, CallStep, IncomingFrame, Operation, RequestAction, ResponseParse, StreamFrame,
};
use a2a_rs::task::{
    cancel_step, check_cancelable, initial_task, resolve_ids, send_step, Artifact, Message, Part,
    Role, SendStep, StreamResponse, Task, TaskArtifactUpdateEvent, TaskState, TaskStatus,
    TaskStatusUpdateEvent,
};

fn make_handler() -> DefaultRequestHandler<(), (), Vec<PushNotificationConfig>> {
    DefaultRequestHandler::new((), ())
}

fn make_handler_with_push_configs() -> DefaultRequestHandler<(), (), Vec<PushNotificationConfig>> {
    make_handler().with_push_config_store(Vec::new())
}

fn config(id: Option<&str>, url: &str) -> PushNotificationConfig {
    PushNotificationConfig {
        url: url.to_string(),
        id: id.map(|s| s.to_string()),
        token: None,
        authentication: None,
    }
}

fn status(state: TaskState) -> TaskStatus {
    TaskStatus { state, message: None, timestamp: None }
}

fn task(id: &str, state: TaskState) -> Task {
    Task {
        id: id.to_string(),
        context_id: "ctx".to_string(),
        status: status(state),
        artifacts: None,
        history: None,
        metadata: None,
    }
}

fn user_message(text: &str) -> Message {
    Message::new(Role::User, vec![Part::text(text.to_string())])
}

#[test]
fn test_with_capabilities() {
    let handler = make_handler().with_capabilities(AgentCapabilities {
        streaming: Some(true),
        push_notifications: None,
        extensions: None,
        extended_agent_card: None,
    });
    assert_eq!(handler.capabilities.streaming, Some(true));
}

#[test]
fn test_with_push_config_store_enables_push_capability() {
    let handler = make_handler_with_push_configs();
    assert_eq!(handler.capabilities.push_notifications, Some(true));
}

#[test]
fn push_config_store_missing_is_not_supported() {
    let handler = make_handler();
    let err = handler.push_config_store().unwrap_err();
    assert_eq!(err.code, PUSH_NOTIFICATION_NOT_SUPPORTED);
    assert_eq!(err.message, "push notifications not supported");
    let with_store = make_handler_with_push_configs();
    assert!(with_store.push_config_store().is_ok());
}

#[test]
fn every_method_name_routes_back() {
    let ops = [
        Operation::SendMessage,
        Operation::SendStreamingMessage,
        Operation::GetTask,
        Operation::ListTasks,
        Operation::CancelTask,
        Operation::SubscribeToTask,
        Operation::CreatePushConfig,
        Operation::GetPushConfig,
        Operation::ListPushConfigs,
        Operation::DeletePushConfig,
        Operation::GetExtendedAgentCard,
    ];
    for op in ops {
        assert_eq!(route_method(op.method_name()), Some(op));
    }
    assert_eq!(Operation::SendMessage.method_name(), "message/send");
    assert_eq!(Operation::GetExtendedAgentCard.method_name(), "agent/extendedCard");
    assert!(Operation::SubscribeToTask.is_streaming());
    assert!(!Operation::GetTask.is_streaming());
    assert_eq!(route_method("bogus/method"), None);
}

#[test]
fn decide_request_outcomes() {
    match decide_request(&IncomingFrame::Request { method: "tasks/get".to_string() }) {
        RequestAction::Dispatch(op) => assert_eq!(op, Operation::GetTask),
        _ => panic!("expected dispatch"),
    }
    match decide_request(&IncomingFrame::Request { method: "bogus/method".to_string() }) {
        RequestAction::ReplyError { to_request, code, message } => {
            assert!(to_request);
            assert_eq!(code, METHOD_NOT_FOUND);
            assert_eq!(message, "unknown method: bogus/method");
        }
        _ => panic!("expected an error"),
    }
    match decide_request(&IncomingFrame::NotJson("eof".to_string())) {
        RequestAction::ReplyError { to_request, code, message } => {
            assert!(!to_request);
            assert_eq!(code, PARSE_ERROR);
            assert_eq!(message, "invalid json: eof");
        }
        _ => panic!("expected an error"),
    }
    let e = invalid_params("missing field `id`");
    assert_eq!(e.code, INVALID_PARAMS);
    assert_eq!(e.message, "invalid params: missing field `id`");
}

#[test]
fn call_result_outcomes() {
    assert_eq!(call_result(CallStep::Decoded(7u32)).unwrap(), 7);
    let e = call_result::<u32>(CallStep::RpcError { code: TASK_NOT_FOUND, message: "gone".to_string() })
        .unwrap_err();
    assert_eq!(e.code, TASK_NOT_FOUND);
    assert_eq!(e.message, "gone");
    let e = call_result::<u32>(CallStep::Closed).unwrap_err();
    assert_eq!(e.message, "subprocess closed stdout unexpectedly");
    let e = call_result::<u32>(CallStep::MissingResult).unwrap_err();
    assert_eq!(e.message, "response missing result");
    let e = call_result::<u32>(CallStep::Undecodable("expected u32".to_string())).unwrap_err();
    assert_eq!(e.code, INTERNAL_ERROR);
    assert_eq!(e.message, "deserialize result: expected u32");
    let e = call_result::<u32>(CallStep::ReadFailed(StdioError::Closed)).unwrap_err();
    assert_eq!(e.message, "read frame: transport closed");
}

fn notification(params: Option<Result<u32, String>>) -> StreamFrame<u32> {
    StreamFrame::Json {
        has_id: false,
        response: ResponseParse::Unparsable("missing field `id`".to_string()),
        params,
    }
}

fn final_response(response: ResponseParse<u32>) -> StreamFrame<u32> {
    StreamFrame::Json { has_id: true, response, params: None }
}

#[test]
fn stream_step_outcomes() {
    let s = stream_step(notification(Some(Ok(1))));
    assert!(matches!(s.next, AfterFrame::ContinueUnlessClosed));
    assert_eq!(s.item.unwrap().unwrap(), 1);
    let s = stream_step(notification(Some(Err("bad".to_string()))));
    assert!(matches!(s.next, AfterFrame::Continue));
    assert_eq!(s.item.unwrap().unwrap_err().message, "parse streaming event: bad");
    let s = stream_step(notification(None));
    assert!(matches!(s.next, AfterFrame::Continue));
    assert!(s.item.is_none());
    let s = stream_step(final_response(ResponseParse::Success(Some(Ok(2)))));
    assert!(matches!(s.next, AfterFrame::Stop));
    assert_eq!(s.item.unwrap().unwrap(), 2);
    let s = stream_step(final_response(ResponseParse::Success(Some(Err("bad".to_string())))));
    assert!(matches!(s.next, AfterFrame::Stop));
    assert_eq!(
        s.item.unwrap().unwrap_err().message,
        "failed to parse final stream response: bad"
    );
    let s = stream_step(final_response(ResponseParse::Success(None)));
    assert!(matches!(s.next, AfterFrame::Stop));
    assert!(s.item.is_none());
    let s = stream_step(final_response(ResponseParse::Error { code: TASK_NOT_FOUND, message: "gone".to_string() }));
    assert!(matches!(s.next, AfterFrame::Stop));
    assert_eq!(s.item.unwrap().unwrap_err().code, TASK_NOT_FOUND);
    let s = stream_step(final_response(ResponseParse::Unparsable("bad".to_string())));
    assert!(matches!(s.next, AfterFrame::Stop));
    assert_eq!(s.item.unwrap().unwrap_err().message, "parse response: bad");
    let s = stream_step::<u32>(StreamFrame::NotJson("oops".to_string()));
    assert!(matches!(s.next, AfterFrame::Stop));
    assert_eq!(s.item.unwrap().unwrap_err().message, "parse frame: oops");
    let s = stream_step::<u32>(StreamFrame::EndOfStream);
    assert!(matches!(s.next, AfterFrame::Stop));
    assert!(s.item.is_none());
    assert_eq!(stream_event_method(false), "event/streamResponse");
    assert_eq!(stream_event_method(true), "event/streamError");
}

#[test]
fn state_names_and_terminal_states() {
    let all = [
        TaskState::Unspecified,
        TaskState::Submitted,
        TaskState::Working,
        TaskState::Completed,
        TaskState::Failed,
        TaskState::Canceled,
        TaskState::InputRequired,
        TaskState::Rejected,
        TaskState::AuthRequired,
    ];
    for s in all {
        assert_eq!(TaskState::from_wire_name(s.wire_name()), Some(s));
    }
    assert_eq!(TaskState::Working.wire_name(), "TASK_STATE_WORKING");
    assert!(TaskState::Completed.is_terminal());
    assert!(TaskState::Rejected.is_terminal());
    assert!(!TaskState::InputRequired.is_terminal());
    assert_eq!(TaskState::from_wire_name("working"), None);
}

#[test]
fn resolve_ids_keeps_given_ids() {
    let mut m = user_message("hi");
    m.task_id = Some("t-1".to_string());
    m.context_id = Some("c-1".to_string());
    let (t, c) = resolve_ids(&m);
    assert_eq!(t, "t-1");
    assert_eq!(c, "c-1");
    let fresh = user_message("hi");
    let (t2, c2) = resolve_ids(&fresh);
    assert_eq!(t2.len(), 36);
    assert_eq!(c2.len(), 36);
    assert_ne!(t2, c2);
    assert_eq!(fresh.message_id.len(), 36);
}

#[test]
fn initial_task_is_submitted_with_history() {
    let m = user_message("hello");
    let t = initial_task("t".to_string(), "c".to_string(), m, Some("2024-01-01T00:00:00Z".to_string()));
    assert_eq!(t.status.state, TaskState::Submitted);
    assert_eq!(t.status.timestamp.as_deref(), Some("2024-01-01T00:00:00Z"));
    let h = t.history.unwrap();
    assert_eq!(h.len(), 1);
    assert_eq!(h[0].text(), Some("hello"));
}

#[test]
fn send_step_stops_at_terminal_state() {
    let t = task("t", TaskState::Submitted);
    let working = StreamResponse::StatusUpdate(TaskStatusUpdateEvent {
        task_id: "t".to_string(),
        context_id: "ctx".to_string(),
        status: status(TaskState::Working),
    });
    let t = match send_step(t, Ok(working)) {
        SendStep::Next(t) => t,
        _ => panic!("expected to go on"),
    };
    assert_eq!(t.status.state, TaskState::Working);
    let artifact = StreamResponse::ArtifactUpdate(TaskArtifactUpdateEvent {
        task_id: "t".to_string(),
        context_id: "ctx".to_string(),
        artifact: Artifact { artifact_id: "a".to_string(), parts: vec![] },
    });
    let t = match send_step(t, Ok(artifact)) {
        SendStep::Next(t) => t,
        _ => panic!("expected to go on"),
    };
    assert_eq!(t.artifacts.as_ref().unwrap().len(), 1);
    let done = StreamResponse::StatusUpdate(TaskStatusUpdateEvent {
        task_id: "t".to_string(),
        context_id: "ctx".to_string(),
        status: status(TaskState::Completed),
    });
    match send_step(t, Ok(done)) {
        SendStep::Finished(t) => {
            assert_eq!(t.status.state, TaskState::Completed);
            assert_eq!(t.artifacts.unwrap().len(), 1);
        }
        _ => panic!("expected to finish"),
    }
    match send_step(task("t", TaskState::Working), Ok(StreamResponse::Message(user_message("r")))) {
        SendStep::Reply(m) => assert_eq!(m.text(), Some("r")),
        _ => panic!("expected a reply"),
    }
    match send_step(task("t", TaskState::Working), Err(A2AError::internal("boom"))) {
        SendStep::Failed(e) => assert_eq!(e.message, "boom"),
        _ => panic!("expected a failure"),
    }
}

#[test]
fn cancel_checks_and_steps() {
    let e = check_cancelable("nope", None).unwrap_err();
    assert_eq!(e.code, TASK_NOT_FOUND);
    assert_eq!(e.message, "task not found: nope");
    let e = check_cancelable("t", Some(task("t", TaskState::Completed))).unwrap_err();
    assert_eq!(e.code, TASK_NOT_CANCELABLE);
    assert_eq!(e.message, "task cannot be canceled: t");
    let t = check_cancelable("t", Some(task("t", TaskState::Working))).unwrap();
    let canceled = StreamResponse::StatusUpdate(TaskStatusUpdateEvent {
        task_id: "t".to_string(),
        context_id: "ctx".to_string(),
        status: status(TaskState::Canceled),
    });
    let t = cancel_step(t, Ok(canceled)).unwrap();
    assert_eq!(t.status.state, TaskState::Canceled);
    let t = cancel_step(t, Ok(StreamResponse::Message(user_message("x")))).unwrap();
    assert_eq!(t.status.state, TaskState::Canceled);
    assert!(cancel_step(t, Err(A2AError::internal("boom"))).is_err());
}

#[test]
fn push_configs_sort_stably_by_id() {
    let sorted = sort_by_id(vec![
        config(Some("b"), "u1"),
        config(None, "u2"),
        config(Some("a"), "u3"),
        config(Some("b"), "u4"),
        config(None, "u5"),
    ]);
    let urls: Vec<&str> = sorted.iter().map(|c| c.url.as_str()).collect();
    assert_eq!(urls, vec!["u2", "u5", "u3", "u1", "u4"]);
}

#[test]
fn push_config_pages_follow_each_other() {
    let configs = || {
        vec![
            config(Some("c"), "u3"),
            config(Some("a"), "u1"),
            config(Some("b"), "u2"),
        ]
    };
    let first = list_push_configs_page("task-1", &None, configs(), Some(2), &None);
    assert_eq!(first.configs.len(), 2);
    assert_eq!(first.configs[0].id.as_deref(), Some("a"));
    assert_eq!(first.configs[1].id.as_deref(), Some("b"));
    assert_eq!(first.configs[0].task_id, "task-1");
    assert_eq!(first.next_page_token.as_deref(), Some("2"));
    let second = list_push_configs_page("task-1", &None, configs(), Some(2), &first.next_page_token);
    assert_eq!(second.configs.len(), 1);
    assert_eq!(second.configs[0].id.as_deref(), Some("c"));
    assert!(second.next_page_token.is_none());
    let all = list_push_configs_page("task-1", &Some("t".to_string()), configs(), None, &None);
    assert_eq!(all.configs.len(), 3);
    assert_eq!(all.configs[2].tenant.as_deref(), Some("t"));
    assert!(all.next_page_token.is_none());
    let bad_token = list_push_configs_page("task-1", &None, configs(), Some(0), &Some("x".to_string()));
    assert_eq!(bad_token.configs.len(), 3);
    let past_end = list_push_configs_page("task-1", &None, configs(), Some(5), &Some("9".to_string()));
    assert_eq!(past_end.configs.len(), 0);
    assert!(past_end.next_page_token.is_none());
}

#[test]
fn error_constructors_and_statuses() {
    assert_eq!(A2AError::task_not_found("x").http_status_code(), 404);
    assert_eq!(A2AError::task_not_cancelable("x").http_status_code(), 409);
    assert_eq!(A2AError::new(-32005, "type".to_string()).http_status_code(), 415);
    assert_eq!(A2AError::push_notification_not_supported().http_status_code(), 400);
    assert_eq!(A2AError::unsupported_operation("no").http_status_code(), 400);
    assert_eq!(A2AError::new(INVALID_PARAMS, "bad".to_string()).http_status_code(), 400);
    assert_eq!(A2AError::new(PARSE_ERROR, "bad".to_string()).http_status_code(), 400);
    assert_eq!(A2AError::new(METHOD_NOT_FOUND, "m".to_string()).http_status_code(), 404);
    assert_eq!(A2AError::new(-32006, "bad agent".to_string()).http_status_code(), 502);
    assert_eq!(A2AError::internal("boom").http_status_code(), 500);
    let e = A2AError::task_not_found("t-9");
    assert_eq!(e.code, TASK_NOT_FOUND);
    assert_eq!(e.message, "task not found: t-9");
}

#[test]
fn start_task_uses_the_stored_task() {
    let (t, create) = a2a_rs::task::start_task(
        Some(task("t", TaskState::Working)),
        "t".to_string(),
        "ctx".to_string(),
        user_message("hi"),
        Some("now".to_string()),
    );
    assert!(!create);
    assert_eq!(t.status.state, TaskState::Working);
    let (t, create) = a2a_rs::task::start_task(
        None,
        "t2".to_string(),
        "c2".to_string(),
        user_message("hi"),
        Some("now".to_string()),
    );
    assert!(create);
    assert_eq!(t.id, "t2");
    assert_eq!(t.status.state, TaskState::Submitted);
    assert_eq!(t.history.unwrap().len(), 1);
}

#[test]
fn get_task_not_found() {
    let e = a2a_rs::task::task_or_not_found("missing", None).unwrap_err();
    assert_eq!(e.code, TASK_NOT_FOUND);
    assert_eq!(e.message, "task not found: missing");
    let t = a2a_rs::task::task_or_not_found("t", Some(task("t", TaskState::Working))).unwrap();
    assert_eq!(t.id, "t");
}

#[test]
fn default_handler_unsupported_operations() {
    let e = subscribe_unsupported();
    assert_eq!(e.code, -32004);
    assert_eq!(e.message, "subscribe_to_task not yet implemented");
    let e = extended_card_unsupported();
    assert_eq!(e.code, -32004);
    assert_eq!(e.message, "extended agent card not configured");
}

#[test]
fn text_message_request_is_a_user_message() {
    let req = a2a_rs::requests::text_message_request("hello".to_string());
    assert_eq!(req.message.role, Role::User);
    assert_eq!(req.message.text(), Some("hello"));
    assert_eq!(req.message.parts.len(), 1);
    assert!(req.configuration.is_none());
    assert!(req.message.task_id.is_none());
}

fn is_uuid_form(s: &str, version: char) -> bool {
    let c: Vec<char> = s.chars().collect();
    c.len() == 36
        && c.iter().enumerate().all(|(i, ch)| {
            if i == 8 || i == 13 || i == 18 || i == 23 {
                *ch == '-'
            } else {
                ch.is_ascii_digit() || ('a'..='f').contains(ch)
            }
        })
        && c[14] == version
        && "89ab".contains(c[19])
}

#[test]
fn fresh_ids_have_uuid_form() {
    assert!(is_uuid_form(&a2a_rs::ids::new_id(), '4'));
    let sid = a2a_rs::ids::session_id(None).unwrap();
    assert!(is_uuid_form(&sid, '7'));
    assert_eq!(a2a_rs::ids::session_id(Some("s-1".to_string())).as_deref(), Some("s-1"));
    let (t, c) = resolve_ids(&user_message("x"));
    assert!(is_uuid_form(&t, '4') && is_uuid_form(&c, '4'));
}

#[test]
fn now_timestamp_is_utc_rfc3339() {
    let t = a2a_rs::ids::now_timestamp().unwrap();
    assert!(t.ends_with('Z'));
    assert_eq!(&t[4..5], "-");
    assert_eq!(&t[10..11], "T");
}

#[test]
fn timestamp_at_formats_utc_readings() {
    assert_eq!(a2a_rs::ids::timestamp_at(0, 0).as_deref(), Some("1970-01-01T00:00:00Z"));
    assert_eq!(a2a_rs::ids::timestamp_at(1_431_648_000, 0).as_deref(), Some("2015-05-15T00:00:00Z"));
    assert_eq!(a2a_rs::ids::timestamp_at(1_704_067_200, 500_000_000).as_deref(), Some("2024-01-01T00:00:00.500Z"));
    assert_eq!(a2a_rs::ids::timestamp_at(i64::MAX as u64, 0), None);
    assert_eq!(a2a_rs::ids::timestamp_at(u64::MAX, 0), None);
}
