//! Deployed functions: code, route, allowed methods, environment,
//! resource limits and lifecycle status.

use vstd::prelude::*;
use crate::strmap::StrMap;

verus! {

/// Resource ceilings a function runs under.
#[derive(Clone, Copy, Debug, PartialEq, Eq, Structural)]
pub struct FunctionLimits {
    pub max_execution_time_ms: u64,
    pub max_memory_mb: u32,
    pub max_request_body_kb: u32,
}

impl Default for FunctionLimits {
    /// Default ceilings: 50 ms, 128 MB heap, 1024 KB request body.
    fn default() -> (r: Self)
        ensures
            r.max_execution_time_ms == 50,
            r.max_memory_mb == 128,
            r.max_request_body_kb == 1024,
    {
        FunctionLimits { max_execution_time_ms: 50, max_memory_mb: 128, max_request_body_kb: 1024 }
    }
}

/// Lifecycle status; only `Active` functions are dispatched to.
#[derive(Clone, Copy, Debug, PartialEq, Eq, Structural)]
pub enum FunctionStatus {
    Active,
    Inactive,
    Deploying,
    Error,
}

/// A deployed function.
#[derive(Debug)]
pub struct Function {
    pub id: String,
    pub name: String,
    pub code: String,
    pub route: String,
    pub methods: Vec<String>,
    pub env: StrMap,
    pub limits: FunctionLimits,
    /// Unix milliseconds.
    pub created_at: i64,
    /// Unix milliseconds.
    pub updated_at: i64,
    pub status: FunctionStatus,
    pub invocations: u64,
    /// Unix milliseconds of the last invocation, if any.
    pub last_invoked_at: Option<i64>,
}

/// Abstract value of a [`Function`].
pub struct FunctionView {
    pub id: Seq<char>,
    pub name: Seq<char>,
    pub code: Seq<char>,
    pub route: Seq<char>,
    pub methods: Seq<Seq<char>>,
    pub env: Map<Seq<char>, Seq<char>>,
    pub limits: FunctionLimits,
    pub created_at: i64,
    pub updated_at: i64,
    pub status: FunctionStatus,
    pub invocations: u64,
    pub last_invoked_at: Option<i64>,
}

impl View for Function {
    type V = FunctionView;

    open spec fn view(&self) -> FunctionView {
        FunctionView {
            id: self.id@,
            name: self.name@,
            code: self.code@,
            route: self.route@,
            methods: self.methods.deep_view(),
            env: self.env@,
            limits: self.limits,
            created_at: self.created_at,
            updated_at: self.updated_at,
            status: self.status,
            invocations: self.invocations,
            last_invoked_at: self.last_invoked_at,
        }
    }
}

impl DeepView for Function {
    type V = FunctionView;

    open spec fn deep_view(&self) -> FunctionView {
        self.view()
    }
}

impl Clone for Function {
    /// A clone has the same abstract value.
    fn clone(&self) -> (res: Self)
        ensures
            res@ == self@,
    {
        let methods = self.methods.clone();
        proof {
            assert(methods.deep_view() =~= self.methods.deep_view());
        }
        Function {
            id: self.id.clone(),
            name: self.name.clone(),
            code: self.code.clone(),
            route: self.route.clone(),
            methods,
            env: self.env.clone(),
            limits: self.limits,
            created_at: self.created_at,
            updated_at: self.updated_at,
            status: self.status,
            invocations: self.invocations,
            last_invoked_at: self.last_invoked_at,
        }
    }
}

/// A request to deploy a function.
#[derive(Debug)]
pub struct CreateFunctionRequest {
    pub name: String,
    pub code: String,
    pub route: String,
    pub methods: Vec<String>,
    pub env: StrMap,
    pub limits: Option<FunctionLimits>,
}

/// A request to change parts of a deployed function; absent fields are
/// left as they are.
#[derive(Debug)]
pub struct UpdateFunctionRequest {
    pub name: Option<String>,
    pub code: Option<String>,
    pub route: Option<String>,
    pub methods: Option<Vec<String>>,
    pub env: Option<StrMap>,
    pub limits: Option<FunctionLimits>,
    pub status: Option<FunctionStatus>,
}

/// The HTTP methods a function answers when the deploy request names
/// none: GET and POST.
pub fn default_methods() -> (r: Vec<String>)
    ensures
        r.deep_view() =~= seq!["GET"@, "POST"@],
{
    let mut r: Vec<String> = Vec::new();
    r.push("GET".to_owned());
    r.push("POST".to_owned());
    proof {
        assert(r.deep_view() =~= seq!["GET"@, "POST"@]);
    }
    r
}

} // verus!
