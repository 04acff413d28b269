use nexo_runtime::isolate::{
    build_result, check_timeout, classify_output, wrap_user_code, EngineOutcome, ExecutionResult,
    IsolateConfig, NexoIsolate, SandboxOutput, ASYNC_ERROR_TEXT, HARNESS_EPILOGUE,
    HARNESS_PRELUDE, TIMEOUT_ERROR_TEXT,
};
use nexo_runtime::json::{JsonMember, JsonValue};

fn obj(members: Vec<(&str, JsonValue)>) -> JsonValue {
    JsonValue::Obj(
        members
            .into_iter()
            .map(|(k, v)| JsonMember { key: k.to_string(), value: v })
            .collect(),
    )
}

#[test]
fn missing_entry_point_yields_successful_null() {
    let r = build_result(EngineOutcome::Completed(JsonValue::Null), 3, 50, 64, vec![]);
    assert!(r.success);
    assert_eq!(r.output, Some(JsonValue::Null));
    assert!(r.error.is_none());
    assert_eq!(r.memory_used_bytes, 64);
}

#[test]
fn thrown_handler_yields_failure_with_message() {
    let r = build_result(
        EngineOutcome::RunError("ReferenceError: nope is not defined".to_string()),
        4,
        50,
        0,
        vec![],
    );
    assert!(!r.success);
    assert_eq!(r.error.as_deref(), Some("ReferenceError: nope is not defined"));
    assert!(r.output.is_none());
    assert_eq!(r.memory_used_bytes, 0);
}

#[test]
fn compile_error_yields_failure_with_message() {
    let r = build_result(
        EngineOutcome::CompileError("SyntaxError: unexpected token".to_string()),
        2,
        50,
        0,
        vec![],
    );
    assert!(!r.success);
    assert_eq!(r.error.as_deref(), Some("SyntaxError: unexpected token"));
}

#[test]
fn late_completion_is_reported_as_timeout() {
    let r = build_result(
        EngineOutcome::Completed(obj(vec![("ok", JsonValue::Bool(true))])),
        51,
        50,
        64,
        vec![],
    );
    assert!(!r.success);
    assert_eq!(r.error.as_deref(), Some(TIMEOUT_ERROR_TEXT));
    assert_eq!(r.memory_used_bytes, 0);
}

#[test]
fn pre_run_timeout_is_reported_as_timeout() {
    let r = build_result(EngineOutcome::TimedOutBeforeRun, 60, 50, 0, vec![]);
    assert!(!r.success);
    assert_eq!(r.error.as_deref(), Some(TIMEOUT_ERROR_TEXT));
}

#[test]
fn deferred_result_is_a_typed_failure() {
    let marker = obj(vec![("__asyncRejected", JsonValue::Bool(true))]);
    let r = build_result(EngineOutcome::Completed(marker), 5, 50, 64, vec![]);
    assert!(!r.success);
    assert_eq!(r.error.as_deref(), Some(ASYNC_ERROR_TEXT));
}

#[test]
fn successful_run_keeps_output_and_logs() {
    let out = obj(vec![("message", JsonValue::Str("hi".to_string()))]);
    let logs = vec!["line one".to_string(), "line two".to_string()];
    let r = build_result(EngineOutcome::Completed(out), 7, 50, 4096, logs.clone());
    assert!(r.success);
    assert_eq!(
        r.output,
        Some(obj(vec![("message", JsonValue::Str("hi".to_string()))]))
    );
    assert_eq!(r.logs, logs);
    assert_eq!(r.execution_time_ms, 7);
    assert_eq!(r.memory_used_bytes, 4096);
}

#[test]
fn checkpoint_is_strictly_over_limit() {
    assert!(!check_timeout(50, 50));
    assert!(check_timeout(51, 50));
    assert!(!check_timeout(0, 0));
}

#[test]
fn wrapped_code_embeds_user_code_between_harness_halves() {
    let code = "function handler(request) { return 1; }";
    let wrapped = wrap_user_code(code);
    assert_eq!(wrapped, format!("{}{}{}", HARNESS_PRELUDE, code, HARNESS_EPILOGUE));
}

#[test]
fn classify_passes_plain_values_through() {
    let v = obj(vec![("message", JsonValue::Str("hi".to_string()))]);
    match classify_output(v) {
        SandboxOutput::Plain(p) => {
            assert_eq!(p, obj(vec![("message", JsonValue::Str("hi".to_string()))]));
        }
        _ => panic!("expected a plain value"),
    }
}

#[test]
fn classify_takes_response_shape_apart() {
    let v = obj(vec![
        ("__isResponse", JsonValue::Bool(true)),
        ("body", JsonValue::Str("<h1>hello</h1>".to_string())),
        ("status", JsonValue::Int(201)),
        ("statusText", JsonValue::Str("Created".to_string())),
        ("headers", obj(vec![("X-Custom", JsonValue::Str("1".to_string()))])),
    ]);
    match classify_output(v) {
        SandboxOutput::Http { body, status, status_text, headers } => {
            assert_eq!(body, JsonValue::Str("<h1>hello</h1>".to_string()));
            assert_eq!(status, 201);
            assert_eq!(status_text.as_deref(), Some("Created"));
            assert_eq!(
                headers,
                Some(obj(vec![("X-Custom", JsonValue::Str("1".to_string()))]))
            );
        }
        _ => panic!("expected a response shape"),
    }
}

#[test]
fn classify_defaults_missing_response_parts() {
    let v = obj(vec![("__isResponse", JsonValue::Bool(true))]);
    match classify_output(v) {
        SandboxOutput::Http { body, status, status_text, headers } => {
            assert_eq!(body, JsonValue::Null);
            assert_eq!(status, 200);
            assert!(status_text.is_none());
            assert!(headers.is_none());
        }
        _ => panic!("expected a response shape"),
    }
}

#[test]
fn classify_rejects_out_of_range_status() {
    let v = obj(vec![
        ("__isResponse", JsonValue::Bool(true)),
        ("status", JsonValue::Int(99999)),
    ]);
    match classify_output(v) {
        SandboxOutput::Http { status, .. } => assert_eq!(status, 200),
        _ => panic!("expected a response shape"),
    }
}

#[test]
fn isolate_finish_run_uses_its_own_limit() {
    let config = IsolateConfig {
        max_execution_time_ms: 10,
        max_heap_size_bytes: 1024,
        function_id: "f1".to_string(),
    };
    let isolate = NexoIsolate::new(config);
    let late = isolate.finish_run(EngineOutcome::Completed(JsonValue::Null), 11, 0, vec![]);
    assert!(!late.success);
    assert_eq!(late.error.as_deref(), Some(TIMEOUT_ERROR_TEXT));
    let on_time = isolate.finish_run(EngineOutcome::Completed(JsonValue::Null), 9, 0, vec![]);
    assert!(on_time.success);
}

#[test]
fn isolate_keeps_its_configuration() {
    let config = IsolateConfig {
        max_execution_time_ms: 10,
        max_heap_size_bytes: 1024,
        function_id: "f1".to_string(),
    };
    let isolate = NexoIsolate::new(config);
    assert_eq!(isolate.config().max_execution_time_ms, 10);
    assert_eq!(isolate.config().max_heap_size_bytes, 1024);
    assert_eq!(isolate.config().function_id, "f1");
}

#[test]
fn default_isolate_config_matches_default_limits() {
    let config = IsolateConfig::default();
    assert_eq!(config.max_execution_time_ms, 50);
    assert_eq!(config.max_heap_size_bytes, 128 * 1024 * 1024);
    assert_eq!(config.function_id, "");
}

#[test]
fn failure_constructor_reports_no_output() {
    let r = ExecutionResult::failure("worker crashed".to_string(), 0, vec![]);
    assert!(!r.success);
    assert!(r.output.is_none());
    assert_eq!(r.error.as_deref(), Some("worker crashed"));
}

#[test]
fn json_lookup_finds_first_member() {
    let members = vec![
        JsonMember { key: "a".to_string(), value: JsonValue::Int(1) },
        JsonMember { key: "b".to_string(), value: JsonValue::Int(2) },
        JsonMember { key: "a".to_string(), value: JsonValue::Int(3) },
    ];
    assert_eq!(JsonValue::lookup(&members, "a"), Some(&JsonValue::Int(1)));
    assert_eq!(JsonValue::lookup(&members, "b"), Some(&JsonValue::Int(2)));
    assert_eq!(JsonValue::lookup(&members, "c"), None);
}
