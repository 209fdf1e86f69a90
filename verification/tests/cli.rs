use a2a_rs::cli::{
    agent_card_source, build_push_notification_config, build_send_message_request,
    build_stream_message_request, cancel_task_request, create_push_config_request,
    delete_push_config_request, finish_client_call, get_push_config_request, get_task_request,
    list_push_configs_request, list_tasks_request, parse_header, preferred_protocols,
    subscribe_request, AgentCardSource, Binding, Cli, CliError, Command, CreatePushConfigCommand,
    DiscoverCommand, HeaderArg, OutputFormat, PushConfigDeleteCommand, PushConfigGetCommand,
    PushConfigListCommand, SendCommand, StreamCommand, TaskCancelCommand, TaskGetCommand,
    TaskListCommand, TaskStateArg, TaskSubscribeCommand, consume_step, end_stream, ConsumeStep,
    StreamItem,
};
use a2a_rs::config::{
    apply_config, choose_config, config_candidate, find_config_file, find_config_file_from,
    pick_config, search_dirs, Config, ConfigError,
};
use a2a_rs::errors::{A2AError, TASK_NOT_FOUND};
use a2a_rs::requests::{GetTaskRequest, ListTasksRequest};
use a2a_rs::rest::{
    apply_request_auth, cancel_task_path, get_task_path, get_task_request_from_query, int_string,
    list_tasks_path, list_tasks_request_from_query, push_config_path, push_configs_path,
    rest_error_status, rest_result, subscribe_path, GetTaskQuery, HttpRequest, ListTasksQuery,
    RestStep, RestTransport, RestTransportFactory, ServiceParams,
};
use a2a_rs::task::TaskState;

/// `reqwest`'s request for a plain request: method, URL, then each header in order.
fn to_reqwest(req: HttpRequest) -> reqwest::Request {
    let mut builder = reqwest::Client::new().request(req.method, req.url);
    for h in req.headers {
        let mut value = reqwest::header::HeaderValue::from_str(&h.value).unwrap();
        value.set_sensitive(h.sensitive);
        builder = builder.header(h.name, value);
    }
    builder.build().unwrap()
}

const TRANSPORT_PROTOCOL_JSONRPC: &str = "JSONRPC";
const TRANSPORT_PROTOCOL_HTTP_JSON: &str = "HTTP+JSON";

fn empty_cli() -> Cli {
    Cli {
        enabled_bindings: vec![],
        bearer_token: None,
        headers: vec![],
        output: None,
        command: Command::Discover(DiscoverCommand {
            agent_ref: "http://localhost".to_string(),
            extended: false,
        }),
    }
}

fn config_with(
    enabled_bindings: &[&str],
    bearer_token: Option<&str>,
    headers: &[&str],
    output: Option<&str>,
) -> Config {
    Config {
        enabled_bindings: enabled_bindings.iter().map(|s| s.to_string()).collect(),
        bearer_token: bearer_token.map(|s| s.to_string()),
        headers: headers.iter().map(|s| s.to_string()).collect(),
        output: output.map(|s| s.to_string()),
    }
}

fn list_request() -> ListTasksRequest {
    ListTasksRequest {
        context_id: None,
        status: None,
        page_size: None,
        page_token: None,
        history_length: None,
        status_timestamp_after: None,
        include_artifacts: None,
        tenant: None,
    }
}

#[test]
fn test_find_config_none() {
    let dir = tempfile::tempdir().unwrap();
    let path = dir.path().to_str().unwrap();
    assert_eq!(find_config_file_from(path, Some(path)), None);
}

#[test]
fn config_candidate_joins_the_file_name() {
    assert_eq!(config_candidate("/home/u"), "/home/u/.a2a.yaml");
    assert_eq!(config_candidate("/home/u/"), "/home/u/.a2a.yaml");
    assert_eq!(config_candidate(""), ".a2a.yaml");
}

#[test]
fn test_apply_fills_empty_cli() {
    let mut cli = empty_cli();
    let cfg = config_with(&["http-json"], Some("tok"), &[], Some("json"));
    apply_config(&mut cli, &cfg, &None).unwrap();
    assert_eq!(cli.enabled_bindings, vec![Binding::HttpJson]);
    assert_eq!(cli.bearer_token.as_deref(), Some("tok"));
    assert_eq!(cli.output, Some(OutputFormat::Json));
}

#[test]
fn test_cli_bindings_take_precedence() {
    let mut cli = empty_cli();
    cli.enabled_bindings = vec![Binding::Jsonrpc];
    let cfg = config_with(&["http-json"], None, &[], None);
    apply_config(&mut cli, &cfg, &None).unwrap();
    assert_eq!(cli.enabled_bindings, vec![Binding::Jsonrpc]);
}

#[test]
fn test_headers_are_additive() {
    let mut cli = empty_cli();
    cli.headers = vec![HeaderArg {
        name: "X-Cli".to_string(),
        value: "cli".to_string(),
    }];
    let cfg = config_with(&[], None, &["X-Config: cfg"], None);
    apply_config(&mut cli, &cfg, &None).unwrap();
    assert_eq!(cli.headers.len(), 2);
    assert_eq!(cli.headers[0].name, "X-Config");
    assert_eq!(cli.headers[1].name, "X-Cli");
}

#[test]
fn test_invalid_binding_errors() {
    let mut cli = empty_cli();
    let cfg = config_with(&["bogus"], None, &[], None);
    let err = apply_config(&mut cli, &cfg, &None).unwrap_err();
    assert!(err.to_message().contains("unknown transport"));
}

#[test]
fn test_invalid_output_errors() {
    let mut cli = empty_cli();
    let cfg = config_with(&[], None, &[], Some("bogus"));
    let err = apply_config(&mut cli, &cfg, &None).unwrap_err();
    assert!(err.to_message().contains("unknown output format"));
}

#[test]
fn test_invalid_header_errors() {
    let mut cli = empty_cli();
    let cfg = config_with(&[], None, &["no-colon"], None);
    let err = apply_config(&mut cli, &cfg, &None).unwrap_err();
    assert!(err.to_message().contains("invalid header"));
}

#[test]
fn test_cli_output_takes_precedence() {
    let mut cli = empty_cli();
    cli.output = Some(OutputFormat::Pretty);
    let cfg = config_with(&[], None, &[], Some("json"));
    apply_config(&mut cli, &cfg, &None).unwrap();
    assert_eq!(cli.output, Some(OutputFormat::Pretty));
}

#[test]
fn config_error_texts_name_the_file() {
    let mut cli = empty_cli();
    let cfg = config_with(&["jsonrpc", "grpc"], None, &[], None);
    let err = apply_config(&mut cli, &cfg, &Some("/etc/a2a.yaml".to_string())).unwrap_err();
    assert_eq!(
        err.to_message(),
        "invalid value in /etc/a2a.yaml: unknown transport: \"grpc\""
    );
    assert!(matches!(err, ConfigError::Invalid(_, _)));
    let mut cli = empty_cli();
    let cfg = config_with(&[], None, &["no-colon"], None);
    let err = apply_config(&mut cli, &cfg, &None).unwrap_err();
    assert_eq!(
        err.to_message(),
        "invalid value in <config>: invalid header \"no-colon\": header must be in NAME:VALUE format"
    );
    let io = ConfigError::Io("x.yaml".to_string(), "denied".to_string());
    assert_eq!(io.to_message(), "failed to read x.yaml: denied");
    let parse = ConfigError::Parse("x.yaml".to_string(), "bad".to_string());
    assert_eq!(parse.to_message(), "failed to parse x.yaml: bad");
}

#[test]
fn bearer_token_from_cli_wins() {
    let mut cli = empty_cli();
    cli.bearer_token = Some("cli".to_string());
    let cfg = config_with(&[], Some("cfg"), &[], None);
    apply_config(&mut cli, &cfg, &None).unwrap();
    assert_eq!(cli.bearer_token.as_deref(), Some("cli"));
}

#[test]
fn test_parse_header() {
    let header = parse_header("Authorization: Bearer token").unwrap();
    assert_eq!(header.name, "Authorization");
    assert_eq!(header.value, "Bearer token");
}

#[test]
fn test_parse_header_requires_separator() {
    let err = parse_header("Authorization").unwrap_err();
    assert_eq!(err, "header must be in NAME:VALUE format");
}

#[test]
fn test_parse_header_requires_name() {
    let err = parse_header(": value").unwrap_err();
    assert_eq!(err, "header name cannot be empty");
}

#[test]
fn parse_header_splits_at_first_colon() {
    let header = parse_header(" X-Url : http://a:1 ").unwrap();
    assert_eq!(header.name, "X-Url");
    assert_eq!(header.value, "http://a:1");
}

#[test]
fn test_build_send_message_request_populates_optional_fields() {
    let request = build_send_message_request(&SendCommand {
        agent_ref: "http://localhost:3000".to_string(),
        text: "hello".to_string(),
        context_id: Some("ctx-1".to_string()),
        task_id: Some("task-1".to_string()),
        history_length: Some(4),
        accepted_output_modes: vec!["text/plain".to_string()],
        return_immediately: true,
    });

    assert_eq!(request.message.text(), Some("hello"));
    assert_eq!(request.message.context_id.as_deref(), Some("ctx-1"));
    assert_eq!(request.message.task_id.as_deref(), Some("task-1"));
    assert_eq!(
        request
            .configuration
            .as_ref()
            .and_then(|config| config.history_length),
        Some(4)
    );
    assert_eq!(
        request
            .configuration
            .as_ref()
            .and_then(|config| config.return_immediately),
        Some(true)
    );
}

#[test]
fn test_build_send_message_request_without_optional_fields() {
    let request = build_send_message_request(&SendCommand {
        agent_ref: "http://localhost:3000".to_string(),
        text: "hello".to_string(),
        context_id: None,
        task_id: None,
        history_length: None,
        accepted_output_modes: Vec::new(),
        return_immediately: false,
    });

    assert_eq!(request.message.text(), Some("hello"));
    assert!(request.configuration.is_none());
}

#[test]
fn stream_request_never_returns_immediately() {
    let request = build_stream_message_request(&StreamCommand {
        agent_ref: "http://localhost:3000".to_string(),
        text: "hi".to_string(),
        context_id: None,
        task_id: None,
        history_length: None,
        accepted_output_modes: vec!["text/plain".to_string()],
    });
    let cfg = request.configuration.unwrap();
    assert_eq!(cfg.return_immediately, None);
    assert_eq!(cfg.accepted_output_modes.unwrap(), vec!["text/plain"]);
}

#[test]
fn test_build_push_notification_config() {
    let config = build_push_notification_config(&CreatePushConfigCommand {
        agent_ref: "http://localhost:3000".to_string(),
        task_id: "task-1".to_string(),
        url: "https://example.com/callback".to_string(),
        config_id: Some("cfg-1".to_string()),
        token: Some("tok-1".to_string()),
        auth_scheme: Some("Bearer".to_string()),
        auth_credentials: Some("secret".to_string()),
    })
    .unwrap();

    assert_eq!(config.id.as_deref(), Some("cfg-1"));
    assert_eq!(config.token.as_deref(), Some("tok-1"));
    assert_eq!(
        config
            .authentication
            .as_ref()
            .map(|auth| auth.scheme.as_str()),
        Some("Bearer")
    );
    assert_eq!(
        config
            .authentication
            .as_ref()
            .and_then(|auth| auth.credentials.as_deref()),
        Some("secret")
    );
}

#[test]
fn test_build_push_notification_config_requires_auth_scheme() {
    let err = build_push_notification_config(&CreatePushConfigCommand {
        agent_ref: "http://localhost:3000".to_string(),
        task_id: "task-1".to_string(),
        url: "https://example.com/callback".to_string(),
        config_id: None,
        token: None,
        auth_scheme: None,
        auth_credentials: Some("secret".to_string()),
    })
    .unwrap_err();

    assert!(matches!(err, CliError::InvalidInput(_)));
}

#[test]
fn test_build_push_notification_config_without_authentication() {
    let config = build_push_notification_config(&CreatePushConfigCommand {
        agent_ref: "http://localhost:3000".to_string(),
        task_id: "task-1".to_string(),
        url: "https://example.com/callback".to_string(),
        config_id: None,
        token: None,
        auth_scheme: None,
        auth_credentials: None,
    })
    .unwrap();

    assert_eq!(config.url, "https://example.com/callback");
    assert!(config.authentication.is_none());
}

#[test]
fn create_push_config_request_binds_the_task() {
    let config = create_push_config_request(&CreatePushConfigCommand {
        agent_ref: "http://localhost:3000".to_string(),
        task_id: "task-7".to_string(),
        url: "https://example.com/cb".to_string(),
        config_id: None,
        token: None,
        auth_scheme: None,
        auth_credentials: None,
    })
    .unwrap();
    assert_eq!(config.task_id, "task-7");
}

#[test]
fn test_binding_protocols() {
    assert_eq!(Binding::Jsonrpc.protocol(), TRANSPORT_PROTOCOL_JSONRPC);
    assert_eq!(Binding::HttpJson.protocol(), TRANSPORT_PROTOCOL_HTTP_JSON);
}

#[test]
fn preferred_protocols_default_and_enabled() {
    assert_eq!(preferred_protocols(&vec![]), vec!["JSONRPC", "HTTP+JSON"]);
    assert_eq!(preferred_protocols(&vec![Binding::HttpJson]), vec!["HTTP+JSON"]);
}

#[test]
fn test_apply_request_auth_builds_headers() {
    let headers = vec![parse_header("X-Test: 123").unwrap()];
    let request = to_reqwest(apply_request_auth(
        HttpRequest::new(reqwest::Method::GET, "http://example.com".to_string()),
        &Some("secret".to_string()),
        &headers,
    ));

    assert_eq!(
        request.headers().get(reqwest::header::AUTHORIZATION).unwrap(),
        "Bearer secret"
    );
    assert_eq!(request.headers().get("X-Test").unwrap(), "123");
}

#[test]
fn apply_request_auth_orders_headers() {
    let headers = vec![parse_header("X-A: 1").unwrap(), parse_header("X-B: 2").unwrap()];
    let mut base = HttpRequest::new(reqwest::Method::POST, "http://h/x".to_string());
    base = apply_request_auth(base, &None, &vec![]);
    assert!(base.headers.is_empty());
    let req = apply_request_auth(base, &Some("t".to_string()), &headers);
    let seen: Vec<(String, String, bool)> =
        req.headers.iter().map(|h| (h.name.clone(), h.value.clone(), h.sensitive)).collect();
    assert_eq!(
        seen,
        vec![
            ("Authorization".to_string(), "Bearer t".to_string(), true),
            ("X-A".to_string(), "1".to_string(), false),
            ("X-B".to_string(), "2".to_string(), false),
        ]
    );
    assert_eq!(req.url, "http://h/x");
    assert_eq!(req.method, reqwest::Method::POST);
}

#[test]
fn test_task_state_conversion() {
    let cases = [
        (TaskStateArg::Unspecified, TaskState::Unspecified),
        (TaskStateArg::Submitted, TaskState::Submitted),
        (TaskStateArg::Working, TaskState::Working),
        (TaskStateArg::Completed, TaskState::Completed),
        (TaskStateArg::Failed, TaskState::Failed),
        (TaskStateArg::Canceled, TaskState::Canceled),
        (TaskStateArg::InputRequired, TaskState::InputRequired),
        (TaskStateArg::Rejected, TaskState::Rejected),
        (TaskStateArg::AuthRequired, TaskState::AuthRequired),
    ];

    for (input, expected) in cases {
        assert_eq!(TaskState::from(input), expected);
    }
}

#[test]
fn list_tasks_request_and_path() {
    let req = list_tasks_request(&TaskListCommand {
        agent_ref: "http://localhost".to_string(),
        context_id: Some("c1".to_string()),
        status: Some(TaskStateArg::Working),
        page_size: Some(-3),
        page_token: None,
        history_length: None,
        include_artifacts: true,
    });
    assert_eq!(req.status, Some(TaskState::Working));
    assert_eq!(req.include_artifacts, Some(true));
    assert_eq!(
        list_tasks_path(&req),
        "/tasks?contextId=c1&status=TASK_STATE_WORKING&pageSize=-3&includeArtifacts=true"
    );
    assert_eq!(list_tasks_path(&list_request()), "/tasks");
}

#[test]
fn rest_paths() {
    let req = GetTaskRequest { id: "t1".to_string(), history_length: Some(5), tenant: None };
    assert_eq!(get_task_path(&req), "/tasks/t1?historyLength=5");
    let req = GetTaskRequest { id: "t1".to_string(), history_length: None, tenant: None };
    assert_eq!(get_task_path(&req), "/tasks/t1");
    assert_eq!(cancel_task_path("t1"), "/tasks/t1/cancel");
    assert_eq!(subscribe_path("t1"), "/tasks/t1/subscribe");
    assert_eq!(push_configs_path("t1"), "/tasks/t1/push-configs");
    assert_eq!(push_config_path("t1", "c1"), "/tasks/t1/push-configs/c1");
    assert_eq!(int_string(-2147483648), "-2147483648");
    assert_eq!(int_string(0), "0");
    assert_eq!(rest_error_status(&A2AError::task_not_found("t")), 404);
}

#[test]
fn test_rest_transport_new_strips_trailing_slash() {
    let t = RestTransport::new(reqwest::Client::new(), "http://localhost:8080/".into());
    assert_eq!(t.base_url, "http://localhost:8080");
}

#[test]
fn test_rest_transport_new_no_trailing_slash() {
    let t = RestTransport::new(reqwest::Client::new(), "http://localhost:8080".into());
    assert_eq!(t.base_url, "http://localhost:8080");
}

#[test]
fn test_rest_transport_factory_protocol() {
    let f = RestTransportFactory::new(None);
    assert_eq!(f.protocol(), "HTTP+JSON");
}

#[test]
fn rest_transport_factory_creates_for_url() {
    let f = RestTransportFactory::new(None);
    let t = f.create("http://localhost:8080//");
    assert_eq!(t.base_url, "http://localhost:8080");
    assert_eq!(t.url("/tasks"), "http://localhost:8080/tasks");
}

#[test]
fn test_build_request_adds_params() {
    let t = RestTransport::new(reqwest::Client::new(), "http://localhost:8080".into());
    let mut params = ServiceParams::new();
    params.insert("X-Custom".into(), vec!["val1".into(), "val2".into()]);
    let req = to_reqwest(t.build_request(reqwest::Method::GET, "/test", &params));
    let vals: Vec<_> = req
        .headers()
        .get_all("X-Custom")
        .iter()
        .map(|v| v.to_str().unwrap().to_string())
        .collect();
    assert_eq!(vals, vec!["val1", "val2"]);
    assert_eq!(req.url().as_str(), "http://localhost:8080/test");
}

#[test]
fn service_params_insert_replaces() {
    let mut params = ServiceParams::new();
    params.insert("A".into(), vec!["1".into()]);
    params.insert("B".into(), vec!["2".into()]);
    params.insert("A".into(), vec!["3".into()]);
    assert_eq!(params.entries.len(), 2);
    assert_eq!(params.entries[0].0, "A");
    assert_eq!(params.entries[0].1, vec!["3"]);
}

#[test]
fn agent_card_sources() {
    match agent_card_source("http://localhost:3000/") {
        AgentCardSource::Url(u) => {
            assert_eq!(u, "http://localhost:3000/.well-known/agent-card.json")
        }
        AgentCardSource::File(_) => panic!("expected a URL"),
    }
    match agent_card_source("https://host/card.json") {
        AgentCardSource::Url(u) => assert_eq!(u, "https://host/card.json"),
        AgentCardSource::File(_) => panic!("expected a URL"),
    }
    match agent_card_source("./card.json") {
        AgentCardSource::File(f) => assert_eq!(f, "./card.json"),
        AgentCardSource::Url(_) => panic!("expected a file"),
    }
}

#[test]
fn finish_client_call_prefers_the_call_error() {
    let r = finish_client_call::<u32>(
        Err(A2AError::task_not_found("t")),
        Err(A2AError::internal("destroy failed")),
    );
    match r {
        Err(CliError::A2A(e)) => assert_eq!(e.code, TASK_NOT_FOUND),
        _ => panic!("expected the call's error"),
    }
    let r = finish_client_call(Ok(1u32), Err(A2AError::internal("destroy failed")));
    match r {
        Err(CliError::A2A(e)) => assert_eq!(e.message, "destroy failed"),
        _ => panic!("expected the shutdown's error"),
    }
    assert_eq!(finish_client_call(Ok(1u32), Ok(())).unwrap(), 1);
}

#[test]
fn compact_output_only_for_json() {
    let mut cli = empty_cli();
    assert!(!cli.compact());
    cli.output = Some(OutputFormat::Json);
    assert!(cli.compact());
    cli.output = Some(OutputFormat::Pretty);
    assert!(!cli.compact());
}

#[test]
fn find_config_file_without_any_file() {
    let dir = tempfile::tempdir().unwrap();
    let path = dir.path().to_str().unwrap();
    assert_eq!(find_config_file(path, Some(path)), None);
}

#[test]
fn server_queries_become_requests() {
    let req = get_task_request_from_query("t1".to_string(), GetTaskQuery { history_length: Some(3) });
    assert_eq!(req.id, "t1");
    assert_eq!(req.history_length, Some(3));
    let req = list_tasks_request_from_query(ListTasksQuery {
        context_id: Some("c".to_string()),
        status: Some("TASK_STATE_COMPLETED".to_string()),
        page_size: Some(10),
        page_token: None,
        history_length: None,
    });
    assert_eq!(req.context_id.as_deref(), Some("c"));
    assert_eq!(req.status, Some(TaskState::Completed));
    assert_eq!(req.page_size, Some(10));
    let req = list_tasks_request_from_query(ListTasksQuery {
        context_id: None,
        status: Some("finished".to_string()),
        page_size: None,
        page_token: Some("5".to_string()),
        history_length: Some(1),
    });
    assert_eq!(req.status, None);
    assert_eq!(req.page_token.as_deref(), Some("5"));
    assert!(req.include_artifacts.is_none());
}

#[test]
fn rest_call_outcomes() {
    assert_eq!(rest_result(RestStep::Decoded(5u8)).unwrap(), 5);
    let e = rest_result::<u8>(RestStep::SendFailed("connection refused".to_string())).unwrap_err();
    assert_eq!(e.message, "HTTP request failed: connection refused");
    let e = rest_result::<u8>(RestStep::Refused {
        status: "404 Not Found".to_string(),
        body: "{}".to_string(),
    })
    .unwrap_err();
    assert_eq!(e.message, "HTTP 404 Not Found: {}");
    let e = rest_result::<u8>(RestStep::Undecodable("eof".to_string())).unwrap_err();
    assert_eq!(e.message, "failed to parse response: eof");
}

#[test]
fn service_params_headers_flatten_in_order() {
    let mut params = ServiceParams::new();
    params.insert("A".into(), vec!["1".into(), "2".into()]);
    params.insert("B".into(), vec![]);
    params.insert("C".into(), vec!["3".into()]);
    let headers = params.headers();
    assert_eq!(
        headers,
        vec![
            ("A".to_string(), "1".to_string()),
            ("A".to_string(), "2".to_string()),
            ("C".to_string(), "3".to_string()),
        ]
    );
}

fn config_file_in(dir: &std::path::Path) -> tempfile::NamedTempFile {
    tempfile::Builder::new()
        .prefix(".a2a")
        .suffix(".yaml")
        .rand_bytes(0)
        .tempfile_in(dir)
        .unwrap()
}

#[test]
fn test_find_config_in_start_dir() {
    let dir = tempfile::tempdir().unwrap();
    let cfg = config_file_in(dir.path());
    let start = dir.path().to_str().unwrap();
    assert_eq!(
        find_config_file_from(start, None),
        Some(cfg.path().to_str().unwrap().to_string())
    );
}

#[test]
fn test_find_config_walks_up() {
    let root = tempfile::tempdir().unwrap();
    let child = tempfile::tempdir_in(root.path()).unwrap();
    let cfg = config_file_in(root.path());
    assert_eq!(
        find_config_file_from(child.path().to_str().unwrap(), None),
        Some(cfg.path().to_str().unwrap().to_string())
    );
}

#[test]
fn find_config_does_not_look_above_home() {
    let root = tempfile::tempdir().unwrap();
    let home = tempfile::tempdir_in(root.path()).unwrap();
    let _cfg = config_file_in(root.path());
    let h = home.path().to_str().unwrap();
    assert_eq!(find_config_file_from(h, Some(h)), None);
}

#[test]
fn test_find_config_found_at_home() {
    let home = tempfile::tempdir().unwrap();
    let cfg = config_file_in(home.path());
    let h = home.path().to_str().unwrap();
    assert_eq!(
        find_config_file_from(h, Some(h)),
        Some(cfg.path().to_str().unwrap().to_string())
    );
}

#[test]
fn find_config_file_falls_back_to_home() {
    let home = tempfile::tempdir().unwrap();
    let work = tempfile::tempdir().unwrap();
    let cfg = config_file_in(home.path());
    let h = home.path().to_str().unwrap();
    let w = work.path().to_str().unwrap();
    assert_eq!(
        find_config_file(w, Some(h)),
        Some(cfg.path().to_str().unwrap().to_string())
    );
}

#[test]
fn task_and_push_config_requests() {
    let r = get_task_request(&TaskGetCommand {
        agent_ref: "a".to_string(),
        id: "t1".to_string(),
        history_length: Some(2),
    });
    assert_eq!(r.id, "t1");
    assert_eq!(r.history_length, Some(2));
    let r = cancel_task_request(&TaskCancelCommand { agent_ref: "a".to_string(), id: "t2".to_string() });
    assert_eq!(r.id, "t2");
    assert!(r.metadata.is_none());
    let r = subscribe_request(&TaskSubscribeCommand { agent_ref: "a".to_string(), id: "t3".to_string() });
    assert_eq!(r.id, "t3");
    let r = get_push_config_request(&PushConfigGetCommand {
        agent_ref: "a".to_string(),
        task_id: "t".to_string(),
        id: "c".to_string(),
    });
    assert_eq!((r.task_id.as_str(), r.id.as_str()), ("t", "c"));
    let r = list_push_configs_request(&PushConfigListCommand {
        agent_ref: "a".to_string(),
        task_id: "t".to_string(),
        page_size: Some(7),
        page_token: Some("14".to_string()),
    });
    assert_eq!(r.page_size, Some(7));
    assert_eq!(r.page_token.as_deref(), Some("14"));
    let r = delete_push_config_request(&PushConfigDeleteCommand {
        agent_ref: "a".to_string(),
        task_id: "t".to_string(),
        id: "c".to_string(),
    });
    assert_eq!((r.task_id.as_str(), r.id.as_str()), ("t", "c"));
    assert!(r.tenant.is_none());
}

#[test]
fn test_find_config_stops_at_home() {
    let home = tempfile::tempdir().unwrap();
    let above = home.path().parent().unwrap().to_path_buf();
    // A config above home must not be found.
    let _cfg = config_file_in(&above);
    let h = home.path().to_str().unwrap();
    assert_eq!(find_config_file_from(h, Some(h)), None);
}

#[test]
fn cli_error_texts() {
    assert_eq!(CliError::A2A(A2AError::task_not_found("t")).to_message(), "task not found: t");
    assert_eq!(CliError::Http("timeout".to_string()).to_message(), "http request failed: timeout");
    assert_eq!(CliError::Json("eof".to_string()).to_message(), "failed to serialize output: eof");
    assert_eq!(CliError::Io("denied".to_string()).to_message(), "failed to read file: denied");
    assert_eq!(
        CliError::InvalidAgentCard { reason: "missing field `name`".to_string() }.to_message(),
        "invalid agent card: missing field `name`"
    );
    assert_eq!(
        CliError::InvalidInput("--auth-credentials requires --auth-scheme".to_string()).to_message(),
        "invalid input: --auth-credentials requires --auth-scheme"
    );
    assert_eq!(
        CliError::Config(ConfigError::Parse("a.yaml".to_string(), "bad".to_string())).to_message(),
        "failed to parse a.yaml: bad"
    );
}

#[test]
fn build_push_notification_config_requires_credentials_with_scheme() {
    let err = build_push_notification_config(&CreatePushConfigCommand {
        agent_ref: "http://localhost:3000".to_string(),
        task_id: "task-1".to_string(),
        url: "https://example.com/callback".to_string(),
        config_id: None,
        token: None,
        auth_scheme: Some("Bearer".to_string()),
        auth_credentials: None,
    })
    .unwrap_err();
    match err {
        CliError::InvalidInput(m) => assert_eq!(m, "--auth-scheme requires --auth-credentials"),
        other => panic!("unexpected {other:?}"),
    }
}

#[test]
fn create_push_config_request_keeps_token_and_authentication() {
    let c = create_push_config_request(&CreatePushConfigCommand {
        agent_ref: "a".to_string(),
        task_id: "t".to_string(),
        url: "https://x/cb".to_string(),
        config_id: Some("c".to_string()),
        token: Some("tok".to_string()),
        auth_scheme: Some("Bearer".to_string()),
        auth_credentials: Some("secret".to_string()),
    })
    .unwrap();
    assert_eq!(c.token.as_deref(), Some("tok"));
    assert_eq!(c.authentication.as_ref().unwrap().scheme, "Bearer");
    assert!(c.tenant.is_none());
}

#[test]
fn search_dirs_walk_up_to_home() {
    assert_eq!(search_dirs("/a/b/c", Some("/a/b")), vec!["/a/b/c", "/a/b"]);
    assert_eq!(search_dirs("/a/b", None), vec!["/a/b", "/a", "/"]);
}

#[test]
fn pick_and_choose_config() {
    let dirs = vec!["/a/b".to_string(), "/a".to_string(), "/".to_string()];
    assert_eq!(pick_config(&dirs, &vec![false, true]), Some("/a/.a2a.yaml".to_string()));
    assert_eq!(pick_config(&dirs, &vec![false, false, false]), None);
    assert_eq!(pick_config(&dirs, &vec![]), None);
    assert_eq!(choose_config(None, Some("/home/u"), true), Some("/home/u/.a2a.yaml".to_string()));
    assert_eq!(choose_config(None, Some("/home/u"), false), None);
    assert_eq!(
        choose_config(Some("/w/.a2a.yaml".to_string()), Some("/home/u"), true),
        Some("/w/.a2a.yaml".to_string())
    );
}

/// Runs the streaming loop's decisions over `items`, shutting down with `destroyed`.
fn run_stream(items: Vec<StreamItem>, destroyed: Result<(), A2AError>) -> Result<(), CliError> {
    for item in items {
        match consume_step(item) {
            ConsumeStep::Continue => {}
            step => return end_stream(step, destroyed),
        }
    }
    panic!("the stream never ended")
}

#[test]
fn test_consume_stream_reports_json_error() {
    let err = run_stream(
        vec![StreamItem::Printed(Err(CliError::Json("cannot serialize".to_string())))],
        Ok(()),
    )
    .unwrap_err();
    assert!(matches!(err, CliError::Json(_)));
}

#[test]
fn test_consume_stream_propagates_destroy_error_on_completion() {
    let err = run_stream(vec![StreamItem::Ended], Err(A2AError::internal("destroy failed"))).unwrap_err();
    assert!(matches!(err, CliError::A2A(_)));
}

#[test]
fn consume_stream_prefers_the_stream_error() {
    let r = run_stream(
        vec![StreamItem::Printed(Ok(())), StreamItem::Failed(A2AError::task_not_found("t"))],
        Err(A2AError::internal("destroy failed")),
    );
    match r {
        Err(CliError::A2A(e)) => assert_eq!(e.code, TASK_NOT_FOUND),
        _ => panic!("expected the stream's error"),
    }
    assert!(run_stream(vec![StreamItem::Printed(Ok(())), StreamItem::Ended], Ok(())).is_ok());
}
