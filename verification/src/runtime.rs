//! The invocation coordinator: binds a deployed function's limits,
//! environment and route rules to one request, drives the pool's
//! accounting around the sandbox run, and shapes the outcome into a
//! protocol response.
//!
//! The embedding program supplies the waiting and the engine call;
//! every decision stands here: dispatch checks before any sandbox
//! resource is touched, environment precedence, limit resolution, and
//! the outcome-to-response mapping.

use vstd::prelude::*;
use crate::function::{Function, FunctionStatus, FunctionView};
use crate::isolate::{ExecutionResult, IsolateConfig};
use crate::json::{JsonMember, JsonValue};
use crate::pool::{fstats_after, fstats_or_zero, stats_after_completion, stats_consistent,
    FunctionStats, IsolatePool, PoolStats, PoolView};
use crate::store::{index_of_match, index_of_route, invocation_recorded, FunctionStore};
use crate::strmap::StrMap;
use crate::strutil::{seq_eq_ignore_ascii_case, str_eq_ignore_ascii_case};

verus! {

/// Error text served when a failed run reports no message.
pub const UNKNOWN_ERROR_TEXT: &'static str = "Unknown error";

/// A request bound for a function invocation.
#[derive(Debug)]
pub struct FunctionRequest {
    pub url: String,
    pub method: String,
    pub headers: StrMap,
    pub body: Option<String>,
    pub path_params: StrMap,
    pub query_params: StrMap,
    pub env: StrMap,
}

/// Abstract value of a [`FunctionRequest`].
pub struct FunctionRequestView {
    pub url: Seq<char>,
    pub method: Seq<char>,
    pub headers: Map<Seq<char>, Seq<char>>,
    pub body: Option<Seq<char>>,
    pub path_params: Map<Seq<char>, Seq<char>>,
    pub query_params: Map<Seq<char>, Seq<char>>,
    pub env: Map<Seq<char>, Seq<char>>,
}

impl View for FunctionRequest {
    type V = FunctionRequestView;

    open spec fn view(&self) -> FunctionRequestView {
        FunctionRequestView {
            url: self.url@,
            method: self.method@,
            headers: self.headers@,
            body: match self.body {
                Some(b) => Some(b@),
                None => None,
            },
            path_params: self.path_params@,
            query_params: self.query_params@,
            env: self.env@,
        }
    }
}

impl Clone for FunctionRequest {
    /// A clone has the same abstract value.
    fn clone(&self) -> (res: Self)
        ensures
            res@ == self@,
    {
        FunctionRequest {
            url: self.url.clone(),
            method: self.method.clone(),
            headers: self.headers.clone(),
            body: match &self.body {
                Some(b) => Some(b.clone()),
                None => None,
            },
            path_params: self.path_params.clone(),
            query_params: self.query_params.clone(),
            env: self.env.clone(),
        }
    }
}

/// The protocol-shaped outcome of one invocation.
#[derive(Debug)]
pub struct FunctionResponse {
    pub status: u16,
    pub headers: StrMap,
    pub body: Option<JsonValue>,
    pub execution_time_ms: u64,
    pub memory_used_bytes: usize,
    pub function_id: String,
    pub logs: Vec<String>,
}

/// A pre-flight rejection: no sandbox resource was touched.
#[derive(Clone, Copy, Debug, PartialEq, Eq, Structural)]
pub enum DispatchError {
    /// No function answers the route.
    NotFound,
    /// The function answers the route, but not this method.
    MethodNotAllowed,
    /// The function is not in the `Active` status.
    Inactive,
}

impl DispatchError {
    /// A human-readable account of the rejection.
    pub fn message(&self) -> (r: String)
        ensures
            *self is NotFound ==> r@ == "No function found for route"@,
            *self is MethodNotAllowed ==> r@ == "Method not allowed for this function"@,
            *self is Inactive ==> r@ == "Function is not active"@,
    {
        match self {
            DispatchError::NotFound => "No function found for route".to_owned(),
            DispatchError::MethodNotAllowed => "Method not allowed for this function".to_owned(),
            DispatchError::Inactive => "Function is not active".to_owned(),
        }
    }
}

/// The allow-list carries `method`, compared without regard to ASCII
/// case.
pub open spec fn method_allowed(methods: Seq<Seq<char>>, method: Seq<char>) -> bool {
    exists|i: int| 0 <= i < methods.len() && seq_eq_ignore_ascii_case(methods[i], method)
}

/// Whether the allow-list `methods` carries `method`.
pub fn method_in_list(methods: &Vec<String>, method: &str) -> (r: bool)
    ensures
        r == method_allowed(methods.deep_view(), method@),
{
    let mut i: usize = 0;
    while i < methods.len()
        invariant
            i <= methods@.len(),
            forall|j: int| 0 <= j < i ==> !seq_eq_ignore_ascii_case(
                methods.deep_view()[j],
                method@,
            ),
        decreases methods@.len() - i,
    {
        if str_eq_ignore_ascii_case(methods[i].as_str(), method) {
            proof {
                assert(methods.deep_view()[i as int] == methods@[i as int]@);
                assert(seq_eq_ignore_ascii_case(methods.deep_view()[i as int], method@));
            }
            return true;
        }
        i += 1;
    }
    false
}

/// The function that answers `route` in `s`: an exact route wins, then
/// the first matching pattern.
pub open spec fn resolved_route(s: Seq<FunctionView>, route: Seq<char>) -> Option<FunctionView> {
    if index_of_route(s, route) >= 0 {
        Some(s[index_of_route(s, route)])
    } else if index_of_match(s, route) >= 0 {
        Some(s[index_of_match(s, route)])
    } else {
        None
    }
}

/// The runtime: the function store and the concurrency pool.
pub struct NexoRuntime {
    pub functions: FunctionStore,
    pool: IsolatePool,
}

/// Abstract value of a [`NexoRuntime`].
pub struct RuntimeView {
    pub functions: Seq<FunctionView>,
    pub pool: PoolView,
}

impl View for NexoRuntime {
    type V = RuntimeView;

    closed spec fn view(&self) -> RuntimeView {
        RuntimeView { functions: self.functions@, pool: self.pool@ }
    }
}

impl NexoRuntime {
    /// A runtime with an empty store and a pool admitting at most
    /// `max_concurrent_isolates` simultaneous runs.
    pub fn new(max_concurrent_isolates: usize) -> (r: Self)
        ensures
            r@.functions == Seq::<FunctionView>::empty(),
            r@.pool.stats.max_concurrent == max_concurrent_isolates,
            r@.pool.stats.total_executions == 0,
            r@.pool.stats.current_concurrent == 0,
            r@.pool.functions == Map::<Seq<char>, FunctionStats>::empty(),
            stats_consistent(r@.pool.stats),
    {
        NexoRuntime { functions: FunctionStore::new(), pool: IsolatePool::new(
            max_concurrent_isolates,
        ) }
    }

    /// Read access to the pool.
    pub fn pool(&self) -> (r: &IsolatePool)
        ensures
            r@ == self@.pool,
    {
        &self.pool
    }

    /// Binds `function` to `request`: books the invocation against the
    /// store, derives the sandbox limits from the function's, and
    /// overwrites the request environment with the function's own —
    /// caller-supplied entries never reach the sandbox.
    pub fn prepare_invocation(&mut self, function: &Function, request: FunctionRequest) -> (r: (
        IsolateConfig,
        FunctionRequest,
    ))
        ensures
            invocation_recorded(old(self)@.functions, final(self)@.functions, function@.id),
            final(self)@.pool == old(self)@.pool,
            r.0.max_execution_time_ms == function@.limits.max_execution_time_ms,
            r.0.max_heap_size_bytes == (if function@.limits.max_memory_mb * 1048576
                <= usize::MAX {
                function@.limits.max_memory_mb * 1048576
            } else {
                usize::MAX as int
            }),
            r.0.function_id@ == function@.id,
            r.1@.url == request@.url,
            r.1@.method == request@.method,
            r.1@.headers == request@.headers,
            r.1@.body == request@.body,
            r.1@.path_params == request@.path_params,
            r.1@.query_params == request@.query_params,
            r.1@.env == function@.env,
    {
        self.functions.record_invocation(function.id.as_str());
        let bytes: u64 = (function.limits.max_memory_mb as u64) * 1048576;
        let max_heap_size_bytes: usize = if bytes <= (usize::MAX as u64) {
            bytes as usize
        } else {
            usize::MAX
        };
        let config = IsolateConfig {
            max_execution_time_ms: function.limits.max_execution_time_ms,
            max_heap_size_bytes,
            function_id: function.id.clone(),
        };
        let mut merged = request;
        merged.env = function.env.clone();
        (config, merged)
    }

    /// Admits one run when a permit is free; see
    /// [`IsolatePool::try_begin_execution`].
    pub fn try_begin_execution(&mut self) -> (admitted: bool)
        ensures
            final(self)@.functions == old(self)@.functions,
            admitted == (old(self)@.pool.stats.current_concurrent
                < old(self)@.pool.stats.max_concurrent),
            final(self)@.pool.functions == old(self)@.pool.functions,
            final(self)@.pool.stats == if admitted {
                PoolStats {
                    current_concurrent: (old(self)@.pool.stats.current_concurrent + 1) as usize,
                    ..old(self)@.pool.stats
                }
            } else {
                old(self)@.pool.stats
            },
    {
        self.pool.try_begin_execution()
    }

    /// Books one completed run; see
    /// [`IsolatePool::finish_execution`].
    pub fn finish_execution(&mut self, function_id: &str, result: &ExecutionResult)
        requires
            old(self)@.pool.stats.current_concurrent > 0,
            old(self)@.pool.stats.total_executions < u64::MAX,
            old(self)@.pool.stats.total_execution_time_ms + result.execution_time_ms <= u64::MAX,
            old(self)@.pool.stats.total_memory_used_bytes + result.memory_used_bytes <= u64::MAX,
            fstats_or_zero(old(self)@.pool.functions, function_id@).invocations < u64::MAX,
            fstats_or_zero(old(self)@.pool.functions, function_id@).total_time_ms
                + result.execution_time_ms <= u64::MAX,
        ensures
            final(self)@.functions == old(self)@.functions,
            final(self)@.pool.stats == stats_after_completion(
                old(self)@.pool.stats,
                result.success,
                result.execution_time_ms,
                result.memory_used_bytes as u64,
            ),
            final(self)@.pool.functions == old(self)@.pool.functions.insert(
                function_id@,
                fstats_after(
                    fstats_or_zero(old(self)@.pool.functions, function_id@),
                    result.success,
                    result.execution_time_ms,
                ),
            ),
    {
        self.pool.finish_execution(function_id, result)
    }

    /// Resolves a function by route and authorizes the call before any
    /// sandbox resource is consumed: the route must resolve, the
    /// method must be in the allow-list (compared without regard to
    /// ASCII case), and the function must be `Active`.
    pub fn dispatch_route(&self, route: &str, method: &str) -> (r: Result<
        Function,
        DispatchError,
    >)
        ensures
            ({
                let resolved = resolved_route(self@.functions, route@);
                match r {
                    Ok(f) => resolved == Some(f@) && method_allowed(f@.methods, method@)
                        && f@.status == FunctionStatus::Active,
                    Err(DispatchError::NotFound) => resolved is None,
                    Err(DispatchError::MethodNotAllowed) => (resolved matches Some(f)
                        && !method_allowed(f.methods, method@)),
                    Err(DispatchError::Inactive) => (resolved matches Some(f) && method_allowed(
                        f.methods,
                        method@,
                    ) && f.status != FunctionStatus::Active),
                }
            }),
    {
        let function = match self.functions.get_by_route(route) {
            Some(f) => f,
            None => {
                return Err(DispatchError::NotFound);
            },
        };
        if !method_in_list(&function.methods, method) {
            return Err(DispatchError::MethodNotAllowed);
        }
        if !matches!(function.status, FunctionStatus::Active) {
            return Err(DispatchError::Inactive);
        }
        Ok(function)
    }

    /// Shapes one execution result into the protocol response: success
    /// is status 200 with the output as body; failure is status 500
    /// with an `error` object; both carry a JSON content type, the
    /// run's timing and memory, and its logs.
    pub fn result_to_response(&self, function_id: &str, result: ExecutionResult) -> (r:
        FunctionResponse)
        ensures
            result.success ==> r.status == 200 && r.body == result.output,
            !result.success ==> r.status == 500 && (r.body matches Some(b) && b matches
                JsonValue::Obj(ms) && {
                &&& ms@.len() == 1
                &&& ms@[0].key@ == "error"@
                &&& (ms@[0].value matches JsonValue::Str(msg) && msg@ == (match result.error {
                    Some(e) => e@,
                    None => UNKNOWN_ERROR_TEXT@,
                }))
            }),
            r.headers@ == Map::<Seq<char>, Seq<char>>::empty().insert(
                "Content-Type"@,
                "application/json"@,
            ),
            r.execution_time_ms == result.execution_time_ms,
            r.memory_used_bytes == result.memory_used_bytes,
            r.function_id@ == function_id@,
            r.logs == result.logs,
    {
        let mut headers = StrMap::new();
        headers.insert("Content-Type".to_owned(), "application/json".to_owned());
        if result.success {
            FunctionResponse {
                status: 200,
                headers,
                body: result.output,
                execution_time_ms: result.execution_time_ms,
                memory_used_bytes: result.memory_used_bytes,
                function_id: function_id.to_owned(),
                logs: result.logs,
            }
        } else {
            let msg = match result.error {
                Some(e) => e,
                None => UNKNOWN_ERROR_TEXT.to_owned(),
            };
            let mut members: Vec<JsonMember> = Vec::new();
            members.push(JsonMember { key: "error".to_owned(), value: JsonValue::Str(msg) });
            FunctionResponse {
                status: 500,
                headers,
                body: Some(JsonValue::Obj(members)),
                execution_time_ms: result.execution_time_ms,
                memory_used_bytes: result.memory_used_bytes,
                function_id: function_id.to_owned(),
                logs: result.logs,
            }
        }
    }

    /// A snapshot of the pool statistics; always consistent.
    pub fn get_pool_stats(&self) -> (r: PoolStats)
        ensures
            r == self@.pool.stats,
            stats_consistent(r),
    {
        self.pool.get_stats()
    }

    /// The statistics of one function, if it has completed a run.
    pub fn get_function_stats(&self, function_id: &str) -> (r: Option<FunctionStats>)
        ensures
            r == if self@.pool.functions.contains_key(function_id@) {
                Some(self@.pool.functions[function_id@])
            } else {
                None::<FunctionStats>
            },
    {
        self.pool.get_function_stats(function_id)
    }
}

impl Default for NexoRuntime {
    /// A runtime admitting at most 100 simultaneous runs.
    fn default() -> (r: Self)
        ensures
            r@.functions == Seq::<FunctionView>::empty(),
            r@.pool.stats.max_concurrent == 100,
            r@.pool.stats.total_executions == 0,
    {
        NexoRuntime::new(100)
    }
}

} // verus!
