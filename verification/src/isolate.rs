//! The execution sandbox harness.
//!
//! A sandbox run embeds user code in a generated script that builds the
//! `request`/`env`/`ctx` bindings, calls `handler(request, ctx)` (or
//! `main(request)`), and serializes the outcome. The engine call itself
//! is performed by the embedding program; this module holds every
//! decision around it: assembling the script, the checkpoint timeout
//! rule, turning the raw engine outcome into an `ExecutionResult`, and
//! classifying the output shape (plain value versus response helper).

use vstd::prelude::*;
use crate::json::{obj_has_key, obj_lookup, JsonMember, JsonValue};
use crate::strutil::str_eq;

verus! {

/// First half of the generated harness script; user code is inserted
/// between this and [`HARNESS_EPILOGUE`].
pub const HARNESS_PRELUDE: &'static str = r#"
(function() {
    var request = {
        url: __REQUEST__.url || '',
        method: __REQUEST__.method || 'GET',
        headers: __REQUEST__.headers || {},
        body: __REQUEST__.body || null,
        json: function() {
            return this.body ? JSON.parse(this.body) : null;
        }
    };
    var envData = __REQUEST__.env || {};
    var env = {
        get: function(key) {
            return envData[key];
        }
    };
    var ctx = { env: env };
"#;

/// Second half of the generated harness script: entry-point discovery,
/// rejection of deferred results, and response-helper serialization.
pub const HARNESS_EPILOGUE: &'static str = r#"
    var __finish = function(result) {
        if (result && typeof result.then === 'function') {
            return JSON.stringify({ __asyncRejected: true });
        }
        if (result && result._isResponse) {
            return JSON.stringify({
                __isResponse: true,
                body: result.body,
                status: result.status,
                statusText: result.statusText,
                headers: result.headers
            });
        }
        return JSON.stringify(result);
    };
    if (typeof handler === 'function') {
        return __finish(handler(request, ctx));
    } else if (typeof main === 'function') {
        return __finish(main(request));
    }
    return JSON.stringify(null);
})()
"#;

/// Key with which the harness marks a deferred (thenable) result.
pub const ASYNC_MARKER_KEY: &'static str = "__asyncRejected";

/// Key with which the harness marks a response-helper result.
pub const RESPONSE_MARKER_KEY: &'static str = "__isResponse";

/// Error reported when user code hands back a deferred result.
pub const ASYNC_ERROR_TEXT: &'static str =
    "Async functions are not fully supported. Please use synchronous handler.";

/// Error reported when a checkpoint finds the time limit exceeded.
pub const TIMEOUT_ERROR_TEXT: &'static str =
    "Execution timeout: exceeded the configured time limit";

/// Per-invocation sandbox limits and owner.
#[derive(Debug)]
pub struct IsolateConfig {
    pub max_execution_time_ms: u64,
    pub max_heap_size_bytes: usize,
    pub function_id: String,
}

impl Clone for IsolateConfig {
    /// A clone is equal to the original configuration.
    fn clone(&self) -> (res: Self)
        ensures
            res == *self,
    {
        IsolateConfig {
            max_execution_time_ms: self.max_execution_time_ms,
            max_heap_size_bytes: self.max_heap_size_bytes,
            function_id: self.function_id.clone(),
        }
    }
}

impl Default for IsolateConfig {
    /// Default limits: 50 ms and a 128 MiB heap, owned by no function.
    fn default() -> (r: Self)
        ensures
            r.max_execution_time_ms == 50,
            r.max_heap_size_bytes == 134217728,
            r.function_id@ == Seq::<char>::empty(),
    {
        IsolateConfig {
            max_execution_time_ms: 50,
            max_heap_size_bytes: 128 * 1024 * 1024,
            function_id: String::new(),
        }
    }
}

/// The outcome of one sandbox run. Exactly one of `output` and `error`
/// is set (see [`ExecutionResult::consistent`]).
#[derive(Debug)]
pub struct ExecutionResult {
    pub success: bool,
    pub output: Option<JsonValue>,
    pub error: Option<String>,
    pub execution_time_ms: u64,
    pub memory_used_bytes: usize,
    pub logs: Vec<String>,
}

impl ExecutionResult {
    /// A result is never partially filled: on success the output is set
    /// and there is no error; on failure the error is set and there is
    /// no output.
    pub open spec fn consistent(self) -> bool {
        &&& self.success <==> self.output is Some
        &&& self.success <==> self.error is None
    }

    /// A failure report: no output, no memory accounted.
    pub fn failure(error: String, execution_time_ms: u64, logs: Vec<String>) -> (r:
        ExecutionResult)
        ensures
            r.consistent(),
            !r.success,
            r.error == Some(error),
            r.output is None,
            r.execution_time_ms == execution_time_ms,
            r.memory_used_bytes == 0,
            r.logs == logs,
    {
        ExecutionResult {
            success: false,
            output: None,
            error: Some(error),
            execution_time_ms,
            memory_used_bytes: 0,
            logs,
        }
    }
}

/// What the engine reported for one compiled-and-run harness script.
/// The embedding program maps the raw engine API onto this; every
/// decision about it is made by [`build_result`].
#[derive(Debug)]
pub enum EngineOutcome {
    /// The script did not compile.
    CompileError(String),
    /// The pre-run checkpoint found the time limit already exceeded
    /// (see [`check_timeout`]); the script was not run.
    TimedOutBeforeRun,
    /// The script threw or the engine failed while running it.
    RunError(String),
    /// The script completed; its serialized return value, decoded.
    Completed(JsonValue),
}

/// The checkpoint rule: a run is over the limit once its elapsed time
/// exceeds `limit_ms`.
pub open spec fn timed_out(elapsed_ms: u64, limit_ms: u64) -> bool {
    elapsed_ms > limit_ms
}

/// Checkpoint test made immediately before running the compiled script
/// and again immediately after it returns.
pub fn check_timeout(elapsed_ms: u64, limit_ms: u64) -> (r: bool)
    ensures
        r == timed_out(elapsed_ms, limit_ms),
{
    elapsed_ms > limit_ms
}

/// The harness marked this value as a rejected deferred result.
pub open spec fn is_async_marker(v: JsonValue) -> bool {
    match v {
        JsonValue::Obj(members) => obj_has_key(members@, ASYNC_MARKER_KEY@),
        _ => false,
    }
}

/// The harness marked this value as a response-helper result.
pub open spec fn is_response_shape(v: JsonValue) -> bool {
    match v {
        JsonValue::Obj(members) => obj_lookup(members@, RESPONSE_MARKER_KEY@) == Some(
            JsonValue::Bool(true),
        ),
        _ => false,
    }
}

/// Whether the harness marked `v` as a rejected deferred result.
fn detect_async_marker(v: &JsonValue) -> (r: bool)
    ensures
        r == is_async_marker(*v),
{
    match v {
        JsonValue::Obj(members) => JsonValue::lookup(members, ASYNC_MARKER_KEY).is_some(),
        _ => false,
    }
}

/// Generates the script for one run: the harness prelude, the user code,
/// and the harness epilogue, in that order.
pub fn wrap_user_code(user_code: &str) -> (r: String)
    ensures
        r@ == HARNESS_PRELUDE@ + user_code@ + HARNESS_EPILOGUE@,
{
    let mut out = HARNESS_PRELUDE.to_owned();
    out.append(user_code);
    out.append(HARNESS_EPILOGUE);
    out
}

/// What the reported result of a run must say, given the raw engine
/// outcome and the post-run checkpoint: a completed run observed past
/// the limit is a timeout failure; a completed run carrying the
/// deferred-result marker is a typed failure; compile and run errors
/// keep their message; only a successful run accounts memory.
pub open spec fn result_describes(
    outcome: EngineOutcome,
    elapsed_ms: u64,
    limit_ms: u64,
    memory_used_bytes: usize,
    logs: Vec<String>,
    r: ExecutionResult,
) -> bool {
    &&& r.consistent()
    &&& r.execution_time_ms == elapsed_ms
    &&& r.logs == logs
    &&& match outcome {
        EngineOutcome::CompileError(m) => !r.success && r.error == Some(m)
            && r.memory_used_bytes == 0,
        EngineOutcome::TimedOutBeforeRun => !r.success && (r.error matches Some(e)
            && e@ == TIMEOUT_ERROR_TEXT@) && r.memory_used_bytes == 0,
        EngineOutcome::RunError(m) => !r.success && r.error == Some(m)
            && r.memory_used_bytes == 0,
        EngineOutcome::Completed(v) => {
            if timed_out(elapsed_ms, limit_ms) {
                !r.success && (r.error matches Some(e) && e@ == TIMEOUT_ERROR_TEXT@)
                    && r.memory_used_bytes == 0
            } else if is_async_marker(v) {
                !r.success && (r.error matches Some(e) && e@ == ASYNC_ERROR_TEXT@)
                    && r.memory_used_bytes == 0
            } else {
                r.success && r.output == Some(v) && r.error is None
                    && r.memory_used_bytes == memory_used_bytes
            }
        },
    }
}

/// Turns a raw engine outcome into the reported `ExecutionResult`; see
/// [`result_describes`].
pub fn build_result(
    outcome: EngineOutcome,
    elapsed_ms: u64,
    limit_ms: u64,
    memory_used_bytes: usize,
    logs: Vec<String>,
) -> (r: ExecutionResult)
    ensures
        result_describes(outcome, elapsed_ms, limit_ms, memory_used_bytes, logs, r),
{
    match outcome {
        EngineOutcome::CompileError(m) => ExecutionResult::failure(m, elapsed_ms, logs),
        EngineOutcome::TimedOutBeforeRun => ExecutionResult::failure(
            TIMEOUT_ERROR_TEXT.to_owned(),
            elapsed_ms,
            logs,
        ),
        EngineOutcome::RunError(m) => ExecutionResult::failure(m, elapsed_ms, logs),
        EngineOutcome::Completed(v) => {
            if check_timeout(elapsed_ms, limit_ms) {
                ExecutionResult::failure(TIMEOUT_ERROR_TEXT.to_owned(), elapsed_ms, logs)
            } else if detect_async_marker(&v) {
                ExecutionResult::failure(ASYNC_ERROR_TEXT.to_owned(), elapsed_ms, logs)
            } else {
                ExecutionResult {
                    success: true,
                    output: Some(v),
                    error: None,
                    execution_time_ms: elapsed_ms,
                    memory_used_bytes,
                    logs,
                }
            }
        },
    }
}

/// The status served when a response-helper object carries none, or an
/// unusable one.
pub open spec fn response_status_of(v: Option<JsonValue>) -> u16 {
    match v {
        Some(JsonValue::Int(n)) => if 100 <= n <= 599 {
            n as u16
        } else {
            200
        },
        _ => 200,
    }
}

/// A sandbox output, classified at the boundary: either a plain value,
/// or the response-helper shape with its parts taken apart for the
/// HTTP-facing layer.
#[derive(Debug)]
pub enum SandboxOutput {
    /// A plain serializable return value.
    Plain(JsonValue),
    /// A response-helper result: body, status, status text and headers
    /// as user code set them (absent parts are `Null`, 200, or
    /// `None`).
    Http { body: JsonValue, status: u16, status_text: Option<String>, headers: Option<JsonValue> },
}

proof fn lemma_obj_lookup_remove_other(s: Seq<JsonMember>, i: int, k2: Seq<char>)
    requires
        0 <= i < s.len(),
        s[i].key@ != k2,
    ensures
        obj_lookup(s.remove(i), k2) == obj_lookup(s, k2),
    decreases s.len(),
{
    if i == 0 {
        assert(s.remove(0) =~= s.skip(1));
    } else {
        assert(s.remove(i)[0] == s[0]);
        if s[0].key@ != k2 {
            assert(s.skip(1)[i - 1] == s[i]);
            lemma_obj_lookup_remove_other(s.skip(1), i - 1, k2);
            assert(s.remove(i).skip(1) =~= s.skip(1).remove(i - 1));
        }
    }
}

/// Removes the first member with key `k` and hands back its value;
/// lookups of every other key are unchanged.
fn take_member(members: &mut Vec<JsonMember>, k: &str) -> (r: Option<JsonValue>)
    ensures
        r == obj_lookup(old(members)@, k@),
        forall|k2: Seq<char>| k2 != k@ ==> obj_lookup(final(members)@, k2) == obj_lookup(
            old(members)@,
            k2,
        ),
{
    let ghost s0 = members@;
    let mut i: usize = 0;
    while i < members.len()
        invariant
            i <= members@.len(),
            members@ == s0,
            old(members)@ == s0,
            forall|j: int| 0 <= j < i ==> members@[j].key@ != k@,
        decreases members@.len() - i,
    {
        if str_eq(members[i].key.as_str(), k) {
            proof {
                crate::json::lemma_obj_lookup_step(s0, k@, i as int);
                assert(s0.skip(i as int)[0] == s0[i as int]);
            }
            let m = members.remove(i);
            proof {
                assert forall|k2: Seq<char>| k2 != k@ implies obj_lookup(members@, k2)
                    == obj_lookup(s0, k2) by {
                    lemma_obj_lookup_remove_other(s0, i as int, k2);
                }
            }
            return Some(m.value);
        }
        i += 1;
    }
    proof {
        crate::json::lemma_obj_lookup_step(s0, k@, s0.len() as int);
    }
    None
}

/// Classifies one sandbox output for the HTTP-facing layer: a value
/// carrying the response marker is taken apart into body, status,
/// status text and headers; anything else passes through unchanged.
pub fn classify_output(v: JsonValue) -> (r: SandboxOutput)
    ensures
        !is_response_shape(v) ==> r == SandboxOutput::Plain(v),
        is_response_shape(v) ==> (v matches JsonValue::Obj(ms) && (r matches SandboxOutput::Http {
            body,
            status,
            status_text,
            headers,
        } && {
            &&& body == (match obj_lookup(ms@, "body"@) {
                Some(b) => b,
                None => JsonValue::Null,
            })
            &&& status == response_status_of(obj_lookup(ms@, "status"@))
            &&& (match obj_lookup(ms@, "statusText"@) {
                Some(JsonValue::Str(st)) => status_text matches Some(t) && t@ == st@,
                _ => status_text is None,
            })
            &&& headers == obj_lookup(ms@, "headers"@)
        })),
{
    let is_resp = match &v {
        JsonValue::Obj(ms) => match JsonValue::lookup(ms, RESPONSE_MARKER_KEY) {
            Some(val) => match val {
                JsonValue::Bool(b) => *b,
                _ => false,
            },
            None => false,
        },
        _ => false,
    };
    if !is_resp {
        return SandboxOutput::Plain(v);
    }
    match v {
        JsonValue::Obj(mut ms) => {
            proof {
                reveal_strlit("body");
                reveal_strlit("status");
                reveal_strlit("statusText");
                reveal_strlit("headers");
                assert("body"@.len() == 4);
                assert("status"@.len() == 6);
                assert("statusText"@.len() == 10);
                assert("headers"@.len() == 7);
                assert("status"@ != "body"@);
                assert("statusText"@ != "body"@);
                assert("statusText"@ != "status"@);
                assert("headers"@ != "body"@);
                assert("headers"@ != "status"@);
                assert("headers"@ != "statusText"@);
            }
            let ghost s0 = ms@;
            let body = match take_member(&mut ms, "body") {
                Some(b) => b,
                None => JsonValue::Null,
            };
            let ghost s1 = ms@;
            let status_value = take_member(&mut ms, "status");
            let ghost s2 = ms@;
            proof {
                assert(obj_lookup(s1, "status"@) == obj_lookup(s0, "status"@));
            }
            let status: u16 = match status_value {
                Some(JsonValue::Int(n)) => if 100 <= n && n <= 599 {
                    n as u16
                } else {
                    200
                },
                _ => 200,
            };
            let status_text = match take_member(&mut ms, "statusText") {
                Some(JsonValue::Str(st)) => Some(st),
                _ => None,
            };
            proof {
                assert(obj_lookup(s2, "statusText"@) == obj_lookup(s1, "statusText"@));
                assert(obj_lookup(s1, "statusText"@) == obj_lookup(s0, "statusText"@));
            }
            let ghost s3 = ms@;
            let headers = take_member(&mut ms, "headers");
            proof {
                assert(obj_lookup(s3, "headers"@) == obj_lookup(s2, "headers"@));
                assert(obj_lookup(s2, "headers"@) == obj_lookup(s1, "headers"@));
                assert(obj_lookup(s1, "headers"@) == obj_lookup(s0, "headers"@));
            }
            SandboxOutput::Http { body, status, status_text, headers }
        },
        _ => unreached(),
    }
}

/// An execution sandbox: fresh per invocation, configured once.
pub struct NexoIsolate {
    config: IsolateConfig,
}

impl NexoIsolate {
    /// The configuration this sandbox was created with.
    pub closed spec fn spec_config(&self) -> IsolateConfig {
        self.config
    }

    /// A sandbox bound to one invocation's limits.
    pub fn new(config: IsolateConfig) -> (r: Self)
        ensures
            r.spec_config() == config,
    {
        NexoIsolate { config }
    }

    /// Read access to the configured limits.
    pub fn config(&self) -> (r: &IsolateConfig)
        ensures
            *r == self.spec_config(),
    {
        &self.config
    }

    /// The reported result of this sandbox's run, under its own time
    /// limit; see [`result_describes`].
    pub fn finish_run(
        &self,
        outcome: EngineOutcome,
        elapsed_ms: u64,
        memory_used_bytes: usize,
        logs: Vec<String>,
    ) -> (r: ExecutionResult)
        ensures
            result_describes(
                outcome,
                elapsed_ms,
                self.spec_config().max_execution_time_ms,
                memory_used_bytes,
                logs,
                r,
            ),
    {
        build_result(
            outcome,
            elapsed_ms,
            self.config.max_execution_time_ms,
            memory_used_bytes,
            logs,
        )
    }
}

} // verus!
