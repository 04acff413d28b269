use nexo_runtime::isolate::{ExecutionResult, IsolateConfig};
use nexo_runtime::json::JsonValue;
use nexo_runtime::pool::{resolve_config, IsolatePool};

fn finished(success: bool, time_ms: u64, memory: usize) -> ExecutionResult {
    ExecutionResult {
        success,
        output: if success { Some(JsonValue::Null) } else { None },
        error: if success { None } else { Some("failed".to_string()) },
        execution_time_ms: time_ms,
        memory_used_bytes: memory,
        logs: vec![],
    }
}

#[test]
fn concurrency_never_exceeds_bound() {
    let mut pool = IsolatePool::new(2);
    assert!(pool.try_begin_execution());
    assert_eq!(pool.current_concurrent(), 1);
    assert!(pool.try_begin_execution());
    assert_eq!(pool.current_concurrent(), 2);
    assert!(!pool.try_begin_execution());
    assert_eq!(pool.current_concurrent(), 2);
    assert_eq!(pool.available_permits(), 0);
    pool.finish_execution("f", &finished(true, 1, 0));
    assert_eq!(pool.current_concurrent(), 1);
    assert_eq!(pool.available_permits(), 1);
}

#[test]
fn totals_count_completed_executions() {
    let mut pool = IsolatePool::new(4);
    for outcome in [true, false, true] {
        assert!(pool.try_begin_execution());
        pool.finish_execution("f", &finished(outcome, 10, 100));
    }
    let stats = pool.get_stats();
    assert_eq!(stats.total_executions, 3);
    assert_eq!(stats.successful_executions, 2);
    assert_eq!(stats.failed_executions, 1);
    assert_eq!(stats.successful_executions + stats.failed_executions, stats.total_executions);
    assert_eq!(stats.total_memory_used_bytes, 300);
    assert_eq!(stats.current_concurrent, 0);
}

#[test]
fn average_is_total_time_over_total_executions() {
    let mut pool = IsolatePool::new(4);
    for time in [10u64, 20, 25] {
        assert!(pool.try_begin_execution());
        pool.finish_execution("f", &finished(true, time, 0));
    }
    let stats = pool.get_stats();
    assert_eq!(stats.total_execution_time_ms, 55);
    assert_eq!(stats.avg_execution_time_ms, 55 / 3);
    assert_eq!(stats.avg_execution_time_ms, stats.total_execution_time_ms / stats.total_executions);
}

#[test]
fn function_stats_are_counted_per_function() {
    let mut pool = IsolatePool::new(4);
    assert!(pool.try_begin_execution());
    pool.finish_execution("alpha", &finished(true, 10, 0));
    assert!(pool.try_begin_execution());
    pool.finish_execution("beta", &finished(false, 30, 0));
    assert!(pool.try_begin_execution());
    pool.finish_execution("alpha", &finished(false, 20, 0));

    let alpha = pool.get_function_stats("alpha").unwrap();
    assert_eq!(alpha.invocations, 2);
    assert_eq!(alpha.successful, 1);
    assert_eq!(alpha.failed, 1);
    assert_eq!(alpha.total_time_ms, 30);
    assert_eq!(alpha.avg_time_ms, 15);
    assert_eq!(alpha.last_execution_ms, 20);

    let beta = pool.get_function_stats("beta").unwrap();
    assert_eq!(beta.invocations, 1);
    assert_eq!(beta.failed, 1);

    assert!(pool.get_function_stats("gamma").is_none());
}

#[test]
fn all_function_stats_lists_every_entry() {
    let mut pool = IsolatePool::new(4);
    assert!(pool.try_begin_execution());
    pool.finish_execution("a", &finished(true, 1, 0));
    assert!(pool.try_begin_execution());
    pool.finish_execution("b", &finished(true, 2, 0));
    let all = pool.get_all_function_stats();
    assert_eq!(all.len(), 2);
}

#[test]
fn fresh_pool_has_zeroed_stats() {
    let pool = IsolatePool::new(7);
    let stats = pool.get_stats();
    assert_eq!(stats.max_concurrent, 7);
    assert_eq!(stats.total_executions, 0);
    assert_eq!(stats.avg_execution_time_ms, 0);
    assert_eq!(stats.current_concurrent, 0);
    assert_eq!(pool.available_permits(), 7);
}

#[test]
fn default_pool_admits_one_hundred() {
    let pool = IsolatePool::default();
    assert_eq!(pool.get_stats().max_concurrent, 100);
}

#[test]
fn config_resolution_prefers_the_caller() {
    let given = IsolateConfig {
        max_execution_time_ms: 5,
        max_heap_size_bytes: 1,
        function_id: "x".to_string(),
    };
    let r = resolve_config("f", Some(given));
    assert_eq!(r.max_execution_time_ms, 5);
    assert_eq!(r.function_id, "x");
    let d = resolve_config("f", None);
    assert_eq!(d.max_execution_time_ms, 50);
    assert_eq!(d.max_heap_size_bytes, 128 * 1024 * 1024);
    assert_eq!(d.function_id, "f");
}
