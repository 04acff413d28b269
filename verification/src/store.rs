//! The function store: deployed functions, keyed by id and reachable
//! by route. Persistence is the embedding program's concern; the store
//! itself is plain state with exact contracts.

use vstd::prelude::*;
use crate::clock::now_millis;
use crate::function::{CreateFunctionRequest, Function, FunctionLimits, FunctionStatus,
    FunctionView, UpdateFunctionRequest};
use crate::ident::fresh_id;
use crate::route::{route_matches_spec, route_matches};
use crate::strutil::str_eq;

verus! {

/// Error reported when a route is already bound to a function.
pub const ROUTE_IN_USE_ERROR: &'static str = "Route is already in use";

/// Error reported when a deploy request carries an empty name.
pub const EMPTY_NAME_ERROR: &'static str = "Function name cannot be empty";

/// Error reported when a route does not start with `/`.
pub const BAD_ROUTE_ERROR: &'static str = "Route must start with '/'";

/// Error reported when no function has the given id.
pub const NOT_FOUND_ERROR: &'static str = "Function not found";

/// Index of the first function with id `id`, or `-1`.
pub open spec fn index_of_id(s: Seq<FunctionView>, id: Seq<char>) -> int
    decreases s.len(),
{
    if s.len() == 0 {
        -1
    } else if s[0].id == id {
        0
    } else {
        let r = index_of_id(s.skip(1), id);
        if r < 0 {
            -1
        } else {
            r + 1
        }
    }
}

/// Index of the first function whose route equals `route`, or `-1`.
pub open spec fn index_of_route(s: Seq<FunctionView>, route: Seq<char>) -> int
    decreases s.len(),
{
    if s.len() == 0 {
        -1
    } else if s[0].route == route {
        0
    } else {
        let r = index_of_route(s.skip(1), route);
        if r < 0 {
            -1
        } else {
            r + 1
        }
    }
}

/// Index of the first function whose route pattern matches `path`, or
/// `-1`.
pub open spec fn index_of_match(s: Seq<FunctionView>, path: Seq<char>) -> int
    decreases s.len(),
{
    if s.len() == 0 {
        -1
    } else if route_matches_spec(s[0].route, path) {
        0
    } else {
        let r = index_of_match(s.skip(1), path);
        if r < 0 {
            -1
        } else {
            r + 1
        }
    }
}

/// Some function already answers `route`.
pub open spec fn route_taken(s: Seq<FunctionView>, route: Seq<char>) -> bool {
    index_of_route(s, route) >= 0
}

/// An update asks to move the function at `idx` to a route another
/// function already answers.
pub open spec fn update_route_conflict(
    s: Seq<FunctionView>,
    idx: int,
    req: UpdateFunctionRequest,
) -> bool {
    match req.route {
        Some(nr) => nr@ != s[idx].route && route_taken(s, nr@),
        None => false,
    }
}

proof fn lemma_index_of_id(s: Seq<FunctionView>, id: Seq<char>)
    ensures
        ({
            let r = index_of_id(s, id);
            &&& r >= 0 ==> r < s.len() && s[r].id == id && (forall|j: int|
                0 <= j < r ==> s[j].id != id)
            &&& r < 0 ==> (forall|j: int| 0 <= j < s.len() ==> s[j].id != id)
        }),
    decreases s.len(),
{
    if s.len() > 0 {
        lemma_index_of_id(s.skip(1), id);
        assert(forall|j: int| 1 <= j < s.len() ==> #[trigger] s[j] == s.skip(1)[j - 1]);
    }
}

proof fn lemma_index_of_route(s: Seq<FunctionView>, route: Seq<char>)
    ensures
        ({
            let r = index_of_route(s, route);
            &&& r >= 0 ==> r < s.len() && s[r].route == route && (forall|j: int|
                0 <= j < r ==> s[j].route != route)
            &&& r < 0 ==> (forall|j: int| 0 <= j < s.len() ==> s[j].route != route)
        }),
    decreases s.len(),
{
    if s.len() > 0 {
        lemma_index_of_route(s.skip(1), route);
        assert(forall|j: int| 1 <= j < s.len() ==> #[trigger] s[j] == s.skip(1)[j - 1]);
    }
}

proof fn lemma_index_of_match(s: Seq<FunctionView>, path: Seq<char>)
    ensures
        ({
            let r = index_of_match(s, path);
            &&& r >= 0 ==> r < s.len() && route_matches_spec(s[r].route, path) && (forall|j: int|
                0 <= j < r ==> !route_matches_spec(s[j].route, path))
            &&& r < 0 ==> (forall|j: int|
                0 <= j < s.len() ==> !route_matches_spec(s[j].route, path))
        }),
    decreases s.len(),
{
    if s.len() > 0 {
        lemma_index_of_match(s.skip(1), path);
        assert(forall|j: int| 1 <= j < s.len() ==> #[trigger] s[j] == s.skip(1)[j - 1]);
    }
}

/// `post` is `pre` with one invocation booked against the function
/// with id `id`: its counter rose (up to the u64 ceiling) and its
/// last-invocation timestamp was refreshed; everything else, and every
/// other function, is unchanged. An unknown id changes nothing.
pub open spec fn invocation_recorded(
    pre: Seq<FunctionView>,
    post: Seq<FunctionView>,
    id: Seq<char>,
) -> bool {
    let idx = index_of_id(pre, id);
    &&& idx < 0 ==> post == pre
    &&& idx >= 0 ==> {
        &&& post.len() == pre.len()
        &&& forall|j: int| 0 <= j < pre.len() && j != idx ==> post[j] == pre[j]
        &&& post[idx].invocations == (if pre[idx].invocations < u64::MAX {
            pre[idx].invocations + 1
        } else {
            pre[idx].invocations as int
        })
        &&& post[idx].last_invoked_at is Some
        &&& post[idx].id == pre[idx].id
        &&& post[idx].name == pre[idx].name
        &&& post[idx].code == pre[idx].code
        &&& post[idx].route == pre[idx].route
        &&& post[idx].methods == pre[idx].methods
        &&& post[idx].env == pre[idx].env
        &&& post[idx].limits == pre[idx].limits
        &&& post[idx].status == pre[idx].status
        &&& post[idx].created_at == pre[idx].created_at
        &&& post[idx].updated_at == pre[idx].updated_at
    }
}

/// The function at `idx` of `pre` was changed as `req` asks: named
/// fields take the requested value, absent fields keep theirs, and the
/// identity, creation time and invocation history stay.
pub open spec fn update_applied(
    pre: Seq<FunctionView>,
    post: Seq<FunctionView>,
    idx: int,
    req: UpdateFunctionRequest,
    f: FunctionView,
) -> bool {
    &&& post == pre.update(idx, f)
    &&& f.id == pre[idx].id
    &&& f.name == (match req.name {
        Some(n) => n@,
        None => pre[idx].name,
    })
    &&& f.code == (match req.code {
        Some(c) => c@,
        None => pre[idx].code,
    })
    &&& f.route == (match req.route {
        Some(nr) => nr@,
        None => pre[idx].route,
    })
    &&& f.methods == (match req.methods {
        Some(m) => m.deep_view(),
        None => pre[idx].methods,
    })
    &&& f.env == (match req.env {
        Some(e) => e@,
        None => pre[idx].env,
    })
    &&& f.limits == (match req.limits {
        Some(l) => l,
        None => pre[idx].limits,
    })
    &&& f.status == (match req.status {
        Some(st) => st,
        None => pre[idx].status,
    })
    &&& f.created_at == pre[idx].created_at
    &&& f.invocations == pre[idx].invocations
    &&& f.last_invoked_at == pre[idx].last_invoked_at
}

/// Deployed functions, in deployment order; routes are unique.
#[derive(Debug)]
pub struct FunctionStore {
    functions: Vec<Function>,
}

impl View for FunctionStore {
    type V = Seq<FunctionView>;

    closed spec fn view(&self) -> Seq<FunctionView> {
        self.functions.deep_view()
    }
}

impl FunctionStore {
    #[verifier::type_invariant]
    spec fn wf(self) -> bool {
        forall|i: int, j: int| 0 <= i < j < self.functions.deep_view().len()
            ==> self.functions.deep_view()[i].route != self.functions.deep_view()[j].route
    }

    /// An empty store.
    pub fn new() -> (r: Self)
        ensures
            r@ == Seq::<FunctionView>::empty(),
    {
        let r = FunctionStore { functions: Vec::new() };
        proof {
            assert(r.functions.deep_view() =~= Seq::<FunctionView>::empty());
        }
        r
    }

    /// Whether `pattern` matches `path`; see [`route_matches_spec`].
    pub fn route_matches(pattern: &str, path: &str) -> (r: bool)
        ensures
            r == route_matches_spec(pattern@, path@),
    {
        route_matches(pattern, path)
    }

    /// Index of the first function with id `id`, if any.
    fn find_by_id(&self, id: &str) -> (r: Option<usize>)
        ensures
            match r {
                Some(i) => i == index_of_id(self@, id@) && i < self@.len(),
                None => index_of_id(self@, id@) < 0,
            },
    {
        let mut i: usize = 0;
        while i < self.functions.len()
            invariant
                i <= self@.len(),
                self@.len() == self.functions@.len(),
                self@ == self.functions.deep_view(),
                forall|j: int| 0 <= j < i ==> self@[j].id != id@,
            decreases self@.len() - i,
        {
            if str_eq(self.functions[i].id.as_str(), id) {
                proof {
                    assert(self@[i as int] == self.functions@[i as int]@);
                    assert(self@[i as int].id == id@);
                    lemma_index_of_id(self@, id@);
                }
                return Some(i);
            }
            i += 1;
        }
        proof {
            lemma_index_of_id(self@, id@);
        }
        None
    }

    /// Whether some function already answers `route`.
    fn route_exists(&self, route: &str) -> (r: bool)
        ensures
            r == route_taken(self@, route@),
    {
        let mut i: usize = 0;
        while i < self.functions.len()
            invariant
                i <= self@.len(),
                self@.len() == self.functions@.len(),
                self@ == self.functions.deep_view(),
                forall|j: int| 0 <= j < i ==> self@[j].route != route@,
            decreases self@.len() - i,
        {
            if str_eq(self.functions[i].route.as_str(), route) {
                proof {
                    assert(self@[i as int] == self.functions@[i as int]@);
                    assert(self@[i as int].route == route@);
                    lemma_index_of_route(self@, route@);
                }
                return true;
            }
            i += 1;
        }
        proof {
            lemma_index_of_route(self@, route@);
        }
        false
    }

    /// Deploys a function: the route must be free, the name non-empty,
    /// and the route must start with `/`. On success the function is
    /// appended, `Active`, with fresh timestamps and no invocations.
    pub fn create(&mut self, req: CreateFunctionRequest) -> (r: Result<Function, String>)
        ensures
            route_taken(old(self)@, req.route@) ==> final(self)@ == old(self)@ && (
            r matches Err(e) && e@ == ROUTE_IN_USE_ERROR@),
            !route_taken(old(self)@, req.route@) && req.name@.len() == 0 ==> final(self)@ == old(
                self,
            )@ && (r matches Err(e) && e@ == EMPTY_NAME_ERROR@),
            !route_taken(old(self)@, req.route@) && req.name@.len() > 0 && !(req.route@.len() > 0
                && req.route@[0] == '/') ==> final(self)@ == old(self)@ && (r matches Err(e) && e@
                == BAD_ROUTE_ERROR@),
            !route_taken(old(self)@, req.route@) && req.name@.len() > 0 && req.route@.len() > 0
                && req.route@[0] == '/' ==> (r matches Ok(f) && {
                &&& final(self)@ == old(self)@.push(f@)
                &&& f@.name == req.name@
                &&& f@.code == req.code@
                &&& f@.route == req.route@
                &&& f@.methods == req.methods.deep_view()
                &&& f@.env == req.env@
                &&& f@.limits == (match req.limits {
                    Some(l) => l,
                    None => FunctionLimits {
                        max_execution_time_ms: 50,
                        max_memory_mb: 128,
                        max_request_body_kb: 1024,
                    },
                })
                &&& f@.status == FunctionStatus::Active
                &&& f@.invocations == 0
                &&& f@.last_invoked_at is None
                &&& f@.created_at == f@.updated_at
                &&& f@.id.len() == 36
            }),
    {
        proof {
            use_type_invariant(&*self);
        }
        if self.route_exists(req.route.as_str()) {
            return Err(ROUTE_IN_USE_ERROR.to_owned());
        }
        if req.name.as_str().is_empty() {
            return Err(EMPTY_NAME_ERROR.to_owned());
        }
        let route_ok = req.route.as_str().unicode_len() > 0 && req.route.as_str().get_char(0)
            == '/';
        if !route_ok {
            return Err(BAD_ROUTE_ERROR.to_owned());
        }
        let id = fresh_id();
        let now = now_millis();
        let function = Function {
            id,
            name: req.name,
            code: req.code,
            route: req.route,
            methods: req.methods,
            env: req.env,
            limits: match req.limits {
                Some(l) => l,
                None => FunctionLimits::default(),
            },
            created_at: now,
            updated_at: now,
            status: FunctionStatus::Active,
            invocations: 0,
            last_invoked_at: None,
        };
        let result = function.clone();
        self.push_function(function);
        Ok(result)
    }

    /// Appends a function whose route is not yet taken.
    fn push_function(&mut self, f: Function)
        requires
            !route_taken(old(self)@, f@.route),
        ensures
            final(self)@ == old(self)@.push(f@),
    {
        proof {
            use_type_invariant(&*self);
            lemma_index_of_route(self@, f@.route);
        }
        let ghost s0 = self.functions.deep_view();
        let mut funcs = Vec::new();
        core::mem::swap(&mut funcs, &mut self.functions);
        funcs.push(f);
        proof {
            assert(funcs.deep_view() =~= s0.push(f@));
            assert(forall|i: int, j: int| 0 <= i < j < funcs.deep_view().len()
                ==> funcs.deep_view()[i].route != funcs.deep_view()[j].route) by {
                assert(forall|i: int| 0 <= i < s0.len() ==> funcs.deep_view()[i] == s0[i]);
                assert(funcs.deep_view()[funcs.deep_view().len() - 1] == f@);
            }
        }
        core::mem::swap(&mut funcs, &mut self.functions);
    }

    /// Installs an already-deployed function, as when loading
    /// persisted state: its route must be free.
    pub fn install(&mut self, f: Function) -> (r: Result<(), String>)
        ensures
            route_taken(old(self)@, f@.route) ==> final(self)@ == old(self)@ && (r matches Err(e)
                && e@ == ROUTE_IN_USE_ERROR@),
            !route_taken(old(self)@, f@.route) ==> final(self)@ == old(self)@.push(f@)
                && r is Ok,
    {
        if self.route_exists(f.route.as_str()) {
            return Err(ROUTE_IN_USE_ERROR.to_owned());
        }
        self.push_function(f);
        Ok(())
    }

    /// The function with id `id`, if deployed.
    pub fn get(&self, id: &str) -> (r: Option<Function>)
        ensures
            match r {
                Some(f) => index_of_id(self@, id@) >= 0 && f@ == self@[index_of_id(self@, id@)],
                None => index_of_id(self@, id@) < 0,
            },
    {
        match self.find_by_id(id) {
            Some(i) => Some(self.functions[i].clone()),
            None => None,
        }
    }

    /// The function answering `route`: a function whose route is
    /// exactly `route` wins; otherwise the first function whose route
    /// pattern matches it.
    pub fn get_by_route(&self, route: &str) -> (r: Option<Function>)
        ensures
            ({
                let e = index_of_route(self@, route@);
                let m = index_of_match(self@, route@);
                match r {
                    Some(f) => (e >= 0 && f@ == self@[e]) || (e < 0 && m >= 0 && f@ == self@[m]),
                    None => e < 0 && m < 0,
                }
            }),
    {
        let mut i: usize = 0;
        while i < self.functions.len()
            invariant
                i <= self@.len(),
                self@.len() == self.functions@.len(),
                self@ == self.functions.deep_view(),
                forall|j: int| 0 <= j < i ==> self@[j].route != route@,
            decreases self@.len() - i,
        {
            if str_eq(self.functions[i].route.as_str(), route) {
                proof {
                    assert(self@[i as int] == self.functions@[i as int]@);
                    assert(self@[i as int].route == route@);
                    lemma_index_of_route(self@, route@);
                }
                return Some(self.functions[i].clone());
            }
            i += 1;
        }
        proof {
            lemma_index_of_route(self@, route@);
        }
        let mut i: usize = 0;
        while i < self.functions.len()
            invariant
                i <= self@.len(),
                self@.len() == self.functions@.len(),
                self@ == self.functions.deep_view(),
                index_of_route(self@, route@) < 0,
                forall|j: int| 0 <= j < i ==> !route_matches_spec(self@[j].route, route@),
            decreases self@.len() - i,
        {
            if route_matches(self.functions[i].route.as_str(), route) {
                proof {
                    assert(self@[i as int] == self.functions@[i as int]@);
                    assert(route_matches_spec(self@[i as int].route, route@));
                    lemma_index_of_match(self@, route@);
                }
                return Some(self.functions[i].clone());
            }
            i += 1;
        }
        proof {
            lemma_index_of_match(self@, route@);
        }
        None
    }

    /// All deployed functions, in deployment order.
    pub fn list(&self) -> (r: Vec<Function>)
        ensures
            r.deep_view() == self@,
    {
        let mut out: Vec<Function> = Vec::new();
        let mut i: usize = 0;
        while i < self.functions.len()
            invariant
                i <= self@.len(),
                self@.len() == self.functions@.len(),
                self@ == self.functions.deep_view(),
                out.deep_view() =~= self@.take(i as int),
            decreases self@.len() - i,
        {
            let ghost pre = out.deep_view();
            let f = self.functions[i].clone();
            out.push(f);
            proof {
                assert(out.deep_view() =~= pre.push(self@[i as int]));
                assert(out.deep_view() =~= self@.take(i as int + 1));
            }
            i += 1;
        }
        proof {
            assert(self@.take(self@.len() as int) =~= self@);
        }
        out
    }

    /// Changes the named fields of the function with id `id`. A route
    /// change to a route another function answers is refused; absent
    /// fields keep their value; the update timestamp is refreshed.
    pub fn update(&mut self, id: &str, req: UpdateFunctionRequest) -> (r: Result<
        Function,
        String,
    >)
        ensures
            ({
                let idx = index_of_id(old(self)@, id@);
                &&& idx < 0 ==> final(self)@ == old(self)@ && (r matches Err(e) && e@
                    == NOT_FOUND_ERROR@)
                &&& idx >= 0 && update_route_conflict(old(self)@, idx, req) ==> final(self)@
                    == old(self)@ && (r matches Err(e) && e@ == ROUTE_IN_USE_ERROR@)
                &&& idx >= 0 && !update_route_conflict(old(self)@, idx, req) ==> (
                r matches Ok(f) && update_applied(old(self)@, final(self)@, idx, req, f@))
            }),
    {
        proof {
            use_type_invariant(&*self);
        }
        let idx = match self.find_by_id(id) {
            Some(i) => i,
            None => {
                return Err(NOT_FOUND_ERROR.to_owned());
            },
        };
        if let Some(nr) = &req.route {
            if !str_eq(nr.as_str(), self.functions[idx].route.as_str()) && self.route_exists(
                nr.as_str(),
            ) {
                return Err(ROUTE_IN_USE_ERROR.to_owned());
            }
        }
        let ghost s0 = self.functions.deep_view();
        let mut funcs = Vec::new();
        core::mem::swap(&mut funcs, &mut self.functions);
        let mut f = funcs.remove(idx);
        if let Some(n) = req.name {
            f.name = n;
        }
        if let Some(c) = req.code {
            f.code = c;
        }
        if let Some(nr) = req.route {
            f.route = nr;
        }
        if let Some(m) = req.methods {
            f.methods = m;
        }
        if let Some(e) = req.env {
            f.env = e;
        }
        if let Some(l) = req.limits {
            f.limits = l;
        }
        if let Some(st) = req.status {
            f.status = st;
        }
        f.updated_at = now_millis();
        let result = f.clone();
        funcs.insert(idx, f);
        proof {
            assert(funcs.deep_view() =~= s0.update(idx as int, result@));
            lemma_index_of_route(s0, result@.route);
            assert(forall|i: int, j: int| 0 <= i < j < funcs.deep_view().len()
                ==> funcs.deep_view()[i].route != funcs.deep_view()[j].route) by {
                assert(forall|i: int| 0 <= i < s0.len() && i != idx
                    ==> funcs.deep_view()[i] == s0[i]);
                assert(funcs.deep_view()[idx as int] == result@);
            }
        }
        core::mem::swap(&mut funcs, &mut self.functions);
        Ok(result)
    }

    /// Removes the function with id `id`.
    pub fn delete(&mut self, id: &str) -> (r: Result<(), String>)
        ensures
            ({
                let idx = index_of_id(old(self)@, id@);
                &&& idx < 0 ==> final(self)@ == old(self)@ && (r matches Err(e) && e@
                    == NOT_FOUND_ERROR@)
                &&& idx >= 0 ==> final(self)@ == old(self)@.remove(idx) && r is Ok
            }),
    {
        proof {
            use_type_invariant(&*self);
        }
        let idx = match self.find_by_id(id) {
            Some(i) => i,
            None => {
                return Err(NOT_FOUND_ERROR.to_owned());
            },
        };
        let ghost s0 = self.functions.deep_view();
        let mut funcs = Vec::new();
        core::mem::swap(&mut funcs, &mut self.functions);
        let _removed = funcs.remove(idx);
        proof {
            assert(funcs.deep_view() =~= s0.remove(idx as int));
            assert(forall|i: int, j: int| 0 <= i < j < funcs.deep_view().len()
                ==> funcs.deep_view()[i].route != funcs.deep_view()[j].route) by {
                assert(forall|i: int| 0 <= i < funcs.deep_view().len()
                    ==> funcs.deep_view()[i] == if i < idx {
                    s0[i]
                } else {
                    s0[i + 1]
                });
            }
        }
        core::mem::swap(&mut funcs, &mut self.functions);
        Ok(())
    }

    /// Books one invocation against the function with id `id`: its
    /// counter rises (up to the u64 ceiling) and its last-invocation
    /// timestamp is refreshed. An unknown id changes nothing.
    pub fn record_invocation(&mut self, id: &str)
        ensures
            invocation_recorded(old(self)@, final(self)@, id@),
    {
        proof {
            use_type_invariant(&*self);
        }
        let idx = match self.find_by_id(id) {
            Some(i) => i,
            None => {
                return;
            },
        };
        let ghost s0 = self.functions.deep_view();
        let mut funcs = Vec::new();
        core::mem::swap(&mut funcs, &mut self.functions);
        let mut f = funcs.remove(idx);
        proof {
            assert(f.deep_view() == s0[idx as int]);
        }
        if f.invocations < u64::MAX {
            f.invocations = f.invocations + 1;
        }
        f.last_invoked_at = Some(now_millis());
        let ghost fv = f@;
        funcs.insert(idx, f);
        proof {
            assert(funcs.deep_view() =~= s0.update(idx as int, fv));
            assert(forall|i: int, j: int| 0 <= i < j < funcs.deep_view().len()
                ==> funcs.deep_view()[i].route != funcs.deep_view()[j].route) by {
                assert(forall|i: int| 0 <= i < s0.len() && i != idx
                    ==> funcs.deep_view()[i] == s0[i]);
                assert(funcs.deep_view()[idx as int] == fv);
                assert(fv.route == s0[idx as int].route);
            }
        }
        core::mem::swap(&mut funcs, &mut self.functions);
    }
}

impl Default for FunctionStore {
    /// An empty store.
    fn default() -> (r: Self)
        ensures
            r@ == Seq::<FunctionView>::empty(),
    {
        FunctionStore::new()
    }
}

} // verus!
