use nexo_runtime::api::InvokeParams;
use nexo_runtime::function::{default_methods, CreateFunctionRequest, FunctionStatus,
    UpdateFunctionRequest};
use nexo_runtime::isolate::ExecutionResult;
use nexo_runtime::json::{JsonMember, JsonValue};
use nexo_runtime::runtime::{DispatchError, FunctionRequest, NexoRuntime};
use nexo_runtime::strmap::StrMap;

fn empty_request() -> FunctionRequest {
    FunctionRequest {
        url: "/fn/api/test".to_string(),
        method: "GET".to_string(),
        headers: StrMap::new(),
        body: None,
        path_params: StrMap::new(),
        query_params: StrMap::new(),
        env: StrMap::new(),
    }
}

fn deploy(runtime: &mut NexoRuntime, name: &str, route: &str, methods: Vec<&str>) -> String {
    let req = CreateFunctionRequest {
        name: name.to_string(),
        code: "function handler(request) { return {}; }".to_string(),
        route: route.to_string(),
        methods: methods.into_iter().map(|m| m.to_string()).collect(),
        env: StrMap::new(),
        limits: None,
    };
    runtime.functions.create(req).unwrap().id
}

#[test]
fn function_env_overwrites_caller_env() {
    let mut runtime = NexoRuntime::new(4);
    let mut env = StrMap::new();
    env.insert("X".to_string(), "owner".to_string());
    let req = CreateFunctionRequest {
        name: "envfn".to_string(),
        code: "".to_string(),
        route: "/api/env".to_string(),
        methods: default_methods(),
        env,
        limits: None,
    };
    let function = runtime.functions.create(req).unwrap();

    let mut request = empty_request();
    request.env.insert("X".to_string(), "caller".to_string());
    request.env.insert("SECRET".to_string(), "sneaky".to_string());

    let (_config, merged) = runtime.prepare_invocation(&function, request);
    assert_eq!(merged.env.get("X").unwrap().as_str(), "owner");
    assert!(merged.env.get("SECRET").is_none());
}

#[test]
fn prepare_invocation_derives_sandbox_limits() {
    let mut runtime = NexoRuntime::new(4);
    let id = deploy(&mut runtime, "fn", "/api/a", vec!["GET"]);
    let function = runtime.functions.get(&id).unwrap();
    let (config, _merged) = runtime.prepare_invocation(&function, empty_request());
    assert_eq!(config.max_execution_time_ms, 50);
    assert_eq!(config.max_heap_size_bytes, 128 * 1024 * 1024);
    assert_eq!(config.function_id, id);
    let recorded = runtime.functions.get(&id).unwrap();
    assert_eq!(recorded.invocations, 1);
}

#[test]
fn dispatch_unknown_route_is_not_found() {
    let runtime = NexoRuntime::new(4);
    assert_eq!(
        runtime.dispatch_route("/api/none", "GET").unwrap_err(),
        DispatchError::NotFound
    );
}

#[test]
fn dispatch_checks_method_case_insensitively() {
    let mut runtime = NexoRuntime::new(4);
    deploy(&mut runtime, "fn", "/api/a", vec!["GET", "POST"]);
    assert!(runtime.dispatch_route("/api/a", "get").is_ok());
    assert!(runtime.dispatch_route("/api/a", "Post").is_ok());
    assert_eq!(
        runtime.dispatch_route("/api/a", "DELETE").unwrap_err(),
        DispatchError::MethodNotAllowed
    );
}

#[test]
fn dispatch_rejections_consume_no_execution() {
    let mut runtime = NexoRuntime::new(4);
    let id = deploy(&mut runtime, "fn", "/api/a", vec!["GET"]);
    let inactivate = UpdateFunctionRequest {
        name: None,
        code: None,
        route: None,
        methods: None,
        env: None,
        limits: None,
        status: Some(FunctionStatus::Inactive),
    };
    runtime.functions.update(&id, inactivate).unwrap();

    let before = runtime.get_pool_stats();
    assert_eq!(
        runtime.dispatch_route("/api/a", "POST").unwrap_err(),
        DispatchError::MethodNotAllowed
    );
    assert_eq!(
        runtime.dispatch_route("/api/a", "GET").unwrap_err(),
        DispatchError::Inactive
    );
    let after = runtime.get_pool_stats();
    assert_eq!(before.total_executions, after.total_executions);
    assert_eq!(after.total_executions, 0);
    assert_eq!(after.current_concurrent, 0);
}

#[test]
fn dispatch_resolves_pattern_routes() {
    let mut runtime = NexoRuntime::new(4);
    let id = deploy(&mut runtime, "fn", "/api/users/:id", vec!["GET"]);
    let resolved = runtime.dispatch_route("/api/users/42", "GET").unwrap();
    assert_eq!(resolved.id, id);
}

#[test]
fn successful_result_maps_to_http_200() {
    let runtime = NexoRuntime::new(4);
    let result = ExecutionResult {
        success: true,
        output: Some(JsonValue::Bool(true)),
        error: None,
        execution_time_ms: 12,
        memory_used_bytes: 2048,
        logs: vec!["log line".to_string()],
    };
    let response = runtime.result_to_response("fid", result);
    assert_eq!(response.status, 200);
    assert_eq!(response.body, Some(JsonValue::Bool(true)));
    assert_eq!(response.headers.get("Content-Type").unwrap().as_str(), "application/json");
    assert_eq!(response.execution_time_ms, 12);
    assert_eq!(response.memory_used_bytes, 2048);
    assert_eq!(response.function_id, "fid");
    assert_eq!(response.logs, vec!["log line".to_string()]);
}

#[test]
fn failed_result_maps_to_http_500_with_error_body() {
    let runtime = NexoRuntime::new(4);
    let result = ExecutionResult {
        success: false,
        output: None,
        error: Some("it broke".to_string()),
        execution_time_ms: 3,
        memory_used_bytes: 0,
        logs: vec![],
    };
    let response = runtime.result_to_response("fid", result);
    assert_eq!(response.status, 500);
    let expected = JsonValue::Obj(vec![JsonMember {
        key: "error".to_string(),
        value: JsonValue::Str("it broke".to_string()),
    }]);
    assert_eq!(response.body, Some(expected));
}

#[test]
fn failed_result_without_message_reports_unknown_error() {
    let runtime = NexoRuntime::new(4);
    let result = ExecutionResult {
        success: false,
        output: None,
        error: None,
        execution_time_ms: 0,
        memory_used_bytes: 0,
        logs: vec![],
    };
    let response = runtime.result_to_response("fid", result);
    let expected = JsonValue::Obj(vec![JsonMember {
        key: "error".to_string(),
        value: JsonValue::Str("Unknown error".to_string()),
    }]);
    assert_eq!(response.body, Some(expected));
}

#[test]
fn runtime_pool_accounting_round_trip() {
    let mut runtime = NexoRuntime::new(2);
    assert!(runtime.try_begin_execution());
    let result = ExecutionResult {
        success: true,
        output: Some(JsonValue::Null),
        error: None,
        execution_time_ms: 8,
        memory_used_bytes: 16,
        logs: vec![],
    };
    runtime.finish_execution("fid", &result);
    let stats = runtime.get_pool_stats();
    assert_eq!(stats.total_executions, 1);
    assert_eq!(stats.successful_executions, 1);
    assert_eq!(stats.current_concurrent, 0);
    let fstats = runtime.get_function_stats("fid").unwrap();
    assert_eq!(fstats.invocations, 1);
    assert_eq!(fstats.last_execution_ms, 8);
}

#[test]
fn dispatch_error_messages_are_stable() {
    assert_eq!(DispatchError::NotFound.message(), "No function found for route");
    assert_eq!(DispatchError::MethodNotAllowed.message(), "Method not allowed for this function");
    assert_eq!(DispatchError::Inactive.message(), "Function is not active");
}

#[test]
fn invoke_params_default_to_no_query() {
    let params = InvokeParams::default();
    assert_eq!(params.query.entries().len(), 0);
}
