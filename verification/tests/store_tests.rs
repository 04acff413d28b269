use nexo_runtime::function::{CreateFunctionRequest, FunctionStatus, UpdateFunctionRequest};
use nexo_runtime::store::FunctionStore;
use nexo_runtime::strmap::StrMap;

fn deploy_request(name: &str, route: &str) -> CreateFunctionRequest {
    CreateFunctionRequest {
        name: name.to_string(),
        code: "function handler() {}".to_string(),
        route: route.to_string(),
        methods: vec!["GET".to_string()],
        env: StrMap::new(),
        limits: None,
    }
}

#[test]
fn test_create_function() {
    let mut store = FunctionStore::new();

    let req = CreateFunctionRequest {
        name: "test-fn".to_string(),
        code: "function handler() {}".to_string(),
        route: "/api/test".to_string(),
        methods: vec!["GET".to_string()],
        env: StrMap::new(),
        limits: None,
    };

    let function = store.create(req).unwrap();
    assert_eq!(function.name, "test-fn");
    assert_eq!(function.route, "/api/test");
}

#[test]
fn test_duplicate_route() {
    let mut store = FunctionStore::new();

    let req1 = CreateFunctionRequest {
        name: "fn1".to_string(),
        code: "".to_string(),
        route: "/api/test".to_string(),
        methods: vec![],
        env: StrMap::new(),
        limits: None,
    };

    let req2 = CreateFunctionRequest {
        name: "fn2".to_string(),
        code: "".to_string(),
        route: "/api/test".to_string(),
        methods: vec![],
        env: StrMap::new(),
        limits: None,
    };

    store.create(req1).unwrap();
    assert!(store.create(req2).is_err());
}

#[test]
fn test_route_matching() {
    assert!(FunctionStore::route_matches("/api/users/:id", "/api/users/123"));
    assert!(FunctionStore::route_matches("/api/*", "/api/anything/here"));
    assert!(!FunctionStore::route_matches("/api/users", "/api/posts"));
}

#[test]
fn route_matching_more_cases() {
    assert!(FunctionStore::route_matches("/api/users", "/api/users"));
    assert!(!FunctionStore::route_matches("/api/users/:id", "/api/users"));
    assert!(!FunctionStore::route_matches("/api/users/:id", "/api/users/1/posts"));
    assert!(FunctionStore::route_matches("/api/*", "/api/"));
    assert!(!FunctionStore::route_matches("/api/*", "/other/thing"));
    assert!(FunctionStore::route_matches("", ""));
    assert!(FunctionStore::route_matches("/:a/:b", "/x/y"));
}

#[test]
fn create_rejects_empty_name() {
    let mut store = FunctionStore::new();
    let err = store.create(deploy_request("", "/api/a")).unwrap_err();
    assert_eq!(err, "Function name cannot be empty");
}

#[test]
fn create_rejects_route_without_slash() {
    let mut store = FunctionStore::new();
    let err = store.create(deploy_request("fn", "api/a")).unwrap_err();
    assert_eq!(err, "Route must start with '/'");
}

#[test]
fn create_applies_default_limits_and_status() {
    let mut store = FunctionStore::new();
    let f = store.create(deploy_request("fn", "/api/a")).unwrap();
    assert_eq!(f.limits.max_execution_time_ms, 50);
    assert_eq!(f.limits.max_memory_mb, 128);
    assert_eq!(f.limits.max_request_body_kb, 1024);
    assert_eq!(f.status, FunctionStatus::Active);
    assert_eq!(f.invocations, 0);
    assert!(f.last_invoked_at.is_none());
    assert_eq!(f.id.len(), 36);
}

#[test]
fn get_returns_deployed_function() {
    let mut store = FunctionStore::new();
    let f = store.create(deploy_request("fn", "/api/a")).unwrap();
    let got = store.get(&f.id).unwrap();
    assert_eq!(got.name, "fn");
    assert!(store.get("no-such-id").is_none());
}

#[test]
fn get_by_route_prefers_exact_match() {
    let mut store = FunctionStore::new();
    store.create(deploy_request("wild", "/api/*")).unwrap();
    let exact = store.create(deploy_request("exact", "/api/users")).unwrap();
    let got = store.get_by_route("/api/users").unwrap();
    assert_eq!(got.id, exact.id);
    let via_pattern = store.get_by_route("/api/other").unwrap();
    assert_eq!(via_pattern.name, "wild");
    assert!(store.get_by_route("/nope").is_none());
}

#[test]
fn update_changes_named_fields_only() {
    let mut store = FunctionStore::new();
    let f = store.create(deploy_request("fn", "/api/a")).unwrap();
    let req = UpdateFunctionRequest {
        name: Some("renamed".to_string()),
        code: None,
        route: None,
        methods: None,
        env: None,
        limits: None,
        status: Some(FunctionStatus::Inactive),
    };
    let updated = store.update(&f.id, req).unwrap();
    assert_eq!(updated.name, "renamed");
    assert_eq!(updated.code, f.code);
    assert_eq!(updated.route, "/api/a");
    assert_eq!(updated.status, FunctionStatus::Inactive);
    assert_eq!(updated.created_at, f.created_at);
}

#[test]
fn update_rejects_taken_route() {
    let mut store = FunctionStore::new();
    store.create(deploy_request("a", "/api/a")).unwrap();
    let b = store.create(deploy_request("b", "/api/b")).unwrap();
    let req = UpdateFunctionRequest {
        name: None,
        code: None,
        route: Some("/api/a".to_string()),
        methods: None,
        env: None,
        limits: None,
        status: None,
    };
    let err = store.update(&b.id, req).unwrap_err();
    assert_eq!(err, "Route is already in use");
}

#[test]
fn update_unknown_id_is_not_found() {
    let mut store = FunctionStore::new();
    let req = UpdateFunctionRequest {
        name: None,
        code: None,
        route: None,
        methods: None,
        env: None,
        limits: None,
        status: None,
    };
    assert_eq!(store.update("missing", req).unwrap_err(), "Function not found");
}

#[test]
fn delete_removes_function_and_frees_route() {
    let mut store = FunctionStore::new();
    let f = store.create(deploy_request("fn", "/api/a")).unwrap();
    store.delete(&f.id).unwrap();
    assert!(store.get(&f.id).is_none());
    assert!(store.create(deploy_request("again", "/api/a")).is_ok());
    assert!(store.delete(&f.id).is_err());
}

#[test]
fn record_invocation_counts_and_stamps() {
    let mut store = FunctionStore::new();
    let f = store.create(deploy_request("fn", "/api/a")).unwrap();
    store.record_invocation(&f.id);
    store.record_invocation(&f.id);
    let got = store.get(&f.id).unwrap();
    assert_eq!(got.invocations, 2);
    assert!(got.last_invoked_at.is_some());
}

#[test]
fn list_returns_all_in_order() {
    let mut store = FunctionStore::new();
    store.create(deploy_request("a", "/a")).unwrap();
    store.create(deploy_request("b", "/b")).unwrap();
    let all = store.list();
    assert_eq!(all.len(), 2);
    assert_eq!(all[0].name, "a");
    assert_eq!(all[1].name, "b");
}

#[test]
fn install_rejects_taken_route() {
    let mut store = FunctionStore::new();
    let f = store.create(deploy_request("a", "/a")).unwrap();
    assert!(store.install(f.clone()).is_err());
    let mut other = f;
    other.route = "/b".to_string();
    assert!(store.install(other).is_ok());
    assert_eq!(store.list().len(), 2);
}

#[test]
fn strmap_insert_get_and_overwrite() {
    let mut m = StrMap::new();
    assert!(!m.contains_key("k"));
    m.insert("k".to_string(), "v1".to_string());
    assert_eq!(m.get("k").unwrap().as_str(), "v1");
    m.insert("k".to_string(), "v2".to_string());
    assert_eq!(m.get("k").unwrap().as_str(), "v2");
    m.insert("other".to_string(), "x".to_string());
    assert_eq!(m.entries().len(), 2);
    assert!(m.get("missing").is_none());
}
