//! Interceptors and their per-client cache. Hooks observe or mutate a
//! call before it is sent and after its response arrives; the cache
//! hands every call of one interceptor type the identical shared
//! instance. The pipeline is specialized over concrete hook and state
//! types at bind time, so no runtime type identity is ever inspected.

use vstd::prelude::*;
use std::collections::HashMap;
use crate::error::{Phase, Scope, SwanError};
use crate::request::{RequestModel, ResponseModel};

verus! {

broadcast use vstd::std_specs::hash::group_hash_axioms;

/// A stateless before-send / after-receive hook pair. Implementations
/// must behave correctly without any application state.
pub trait SwanInterceptor {
    /// Observes or rewrites the outgoing request and body.
    fn before_request(&self, request: RequestModel, request_body: &Vec<u8>) -> Result<
        (RequestModel, Vec<u8>),
        String,
    >;

    /// Observes or rewrites the incoming response.
    fn after_response(&self, response: ResponseModel) -> Result<ResponseModel, String>;
}

/// A hook pair with typed access to client-scoped application state,
/// specialized per concrete state type; state may be absent and hooks
/// must cope with that.
pub trait SwanStatefulInterceptor<State> {
    /// Observes or rewrites the outgoing request and body.
    fn before_request(
        &self,
        request: RequestModel,
        request_body: &Vec<u8>,
        state: Option<&State>,
    ) -> Result<(RequestModel, Vec<u8>), String>;

    /// Observes or rewrites the incoming response.
    fn after_response(&self, response: ResponseModel, state: Option<&State>) -> Result<
        ResponseModel,
        String,
    >;
}

/// Marks a client type with the application-state type its hooks
/// receive; a client without state uses `()` and `HAS_STATE` false.
pub trait ClientStateMarker {
    type State;

    const HAS_STATE: bool;
}

/// The hook that does nothing: requests, bodies and responses pass
/// through unchanged.
pub struct NoOpInterceptor;

impl Default for NoOpInterceptor {
    fn default() -> (r: Self) {
        NoOpInterceptor
    }
}

impl SwanInterceptor for NoOpInterceptor {
    fn before_request(&self, request: RequestModel, request_body: &Vec<u8>) -> Result<
        (RequestModel, Vec<u8>),
        String,
    > {
        Ok((request, request_body.clone()))
    }

    fn after_response(&self, response: ResponseModel) -> Result<ResponseModel, String> {
        Ok(response)
    }
}

impl<State> SwanStatefulInterceptor<State> for NoOpInterceptor {
    fn before_request(
        &self,
        request: RequestModel,
        request_body: &Vec<u8>,
        _state: Option<&State>,
    ) -> Result<(RequestModel, Vec<u8>), String> {
        Ok((request, request_body.clone()))
    }

    fn after_response(&self, response: ResponseModel, _state: Option<&State>) -> Result<
        ResponseModel,
        String,
    > {
        Ok(response)
    }
}

/// The per-client interceptor cache: a mapping from an interceptor
/// type's key to the identity of its one shared instance. Instance
/// identities are drawn from a counter, so two distinct types can never
/// share an instance. Entries are never evicted during a client's
/// lifetime.
pub struct InterceptorCache {
    method_interceptors: HashMap<u64, u64>,
    next_id: u64,
}

impl InterceptorCache {
    /// The cached mapping from type key to instance identity.
    pub closed spec fn view(&self) -> Map<u64, u64> {
        self.method_interceptors@
    }

    /// Every cached identity is below the counter, which counts the
    /// cached entries, and no two type keys share an identity.
    pub closed spec fn wf(&self) -> bool {
        &&& forall|k: u64| self@.contains_key(k) ==> #[trigger] self@[k] < self.next_id
        &&& forall|k1: u64, k2: u64|
            self@.contains_key(k1) && self@.contains_key(k2) && k1 != k2 ==> #[trigger] self@[k1]
                != #[trigger] self@[k2]
        &&& self.next_id as nat == self@.len()
        &&& self@.dom().finite()
    }

    /// Creates an empty cache.
    pub fn new() -> (r: Self)
        ensures
            r@ == Map::<u64, u64>::empty(),
            r.wf(),
    {
        InterceptorCache { method_interceptors: HashMap::new(), next_id: 0 }
    }

    /// Returns the instance identity cached for the type key, creating
    /// a fresh one on the first lookup: repeated calls for one key
    /// return the identical instance, and a fresh instance differs from
    /// every cached one.
    pub fn get_or_create(&mut self, type_key: u64) -> (r: u64)
        requires
            old(self).wf(),
            old(self)@.len() < 0xffff_ffff_ffff_ffff,
        ensures
            final(self).wf(),
            final(self)@.contains_key(type_key),
            r == final(self)@[type_key],
            old(self)@.contains_key(type_key) ==> final(self)@ == old(self)@ && r == old(
                self,
            )@[type_key],
            !old(self)@.contains_key(type_key) ==> final(self)@ == old(self)@.insert(
                type_key,
                r,
            ) && (forall|k: u64|
                old(self)@.contains_key(k) ==> #[trigger] old(self)@[k] != r),
    {
        match self.method_interceptors.get(&type_key) {
            Some(id) => *id,
            None => {
                let id: u64 = self.next_id;
                self.next_id = self.next_id + 1;
                self.method_interceptors.insert(type_key, id);
                proof {
                    assert(self@.dom() =~= old(self)@.dom().insert(type_key));
                    vstd::set_lib::lemma_set_insert_finite_iff(old(self)@.dom(), type_key);
                    assert(self@.len() == old(self)@.len() + 1);
                }
                id
            },
        }
    }

    /// Constructs the instance for a type key eagerly, so the cost is
    /// paid off the hot path; the cached identity is the same one a
    /// later lookup returns.
    pub fn warmup(&mut self, type_key: u64)
        requires
            old(self).wf(),
            old(self)@.len() < 0xffff_ffff_ffff_ffff,
        ensures
            final(self).wf(),
            final(self)@.contains_key(type_key),
            old(self)@.contains_key(type_key) ==> final(self)@ == old(self)@,
            !old(self)@.contains_key(type_key) ==> final(self)@ == old(self)@.insert(
                type_key,
                final(self)@[type_key],
            ),
    {
        let _ = self.get_or_create(type_key);
    }

    /// Empties the cache.
    pub fn clear(&mut self)
        ensures
            final(self)@ == Map::<u64, u64>::empty(),
            final(self).wf(),
    {
        self.method_interceptors.clear();
        self.next_id = 0;
        proof {
            assert(self@.dom() =~= Set::<u64>::empty());
            assert(self@ =~= Map::<u64, u64>::empty());
        }
    }

    /// Returns the number of cached interceptor instances.
    pub fn size(&self) -> (r: usize)
        ensures
            r == self@.len(),
    {
        self.method_interceptors.len()
    }
}

/// Distinct interceptor types are served by distinct instances: in a
/// well-formed cache, two different type keys never map to the same
/// instance identity.
pub proof fn lemma_distinct_types_distinct_instances(
    c: InterceptorCache,
    k1: u64,
    k2: u64,
)
    requires
        c.wf(),
        c@.contains_key(k1),
        c@.contains_key(k2),
        k1 != k2,
    ensures
        c@[k1] != c@[k2],
{
}

/// Runs the before-phase of the pipeline in its fixed order: the
/// client-global hook first, then the call-site hook, each receiving
/// the request and body the previous one produced. A failure stops the
/// phase at once and is tagged with its scope and the before phase;
/// with no hook bound, the request and body pass through untouched.
pub fn run_before_phase<G: SwanInterceptor, M: SwanInterceptor>(
    global: Option<&G>,
    call_site: Option<&M>,
    request: RequestModel,
    body: Vec<u8>,
) -> (r: Result<(RequestModel, Vec<u8>), SwanError>)
    ensures
        r is Err ==> r->Err_0 matches SwanError::Pipeline { phase: Phase::Before, .. },
        r is Err && global is None ==> r->Err_0 matches SwanError::Pipeline {
            scope: Scope::CallSite,
            ..
        },
        r is Err && call_site is None ==> r->Err_0 matches SwanError::Pipeline {
            scope: Scope::Global,
            ..
        },
        global is None && call_site is None ==> r is Ok && r->Ok_0.0 == request && r->Ok_0.1
            == body,
{
    let mut current_request: RequestModel = request;
    let mut current_body: Vec<u8> = body;
    match global {
        Some(g) => {
            match g.before_request(current_request, &current_body) {
                Ok((rq, bd)) => {
                    current_request = rq;
                    current_body = bd;
                },
                Err(cause) => {
                    return Err(
                        SwanError::Pipeline { scope: Scope::Global, phase: Phase::Before, cause },
                    );
                },
            }
        },
        None => {},
    }
    match call_site {
        Some(m) => {
            match m.before_request(current_request, &current_body) {
                Ok((rq, bd)) => {
                    current_request = rq;
                    current_body = bd;
                },
                Err(cause) => {
                    return Err(
                        SwanError::Pipeline {
                            scope: Scope::CallSite,
                            phase: Phase::Before,
                            cause,
                        },
                    );
                },
            }
        },
        None => {},
    }
    Ok((current_request, current_body))
}

/// Runs the after-phase of the pipeline in its fixed order: the
/// call-site hook first, then the client-global hook, so the global
/// interceptor wraps the call-site one. A failure stops the phase at
/// once and is tagged with its scope and the after phase; with no hook
/// bound, the response passes through untouched.
pub fn run_after_phase<G: SwanInterceptor, M: SwanInterceptor>(
    global: Option<&G>,
    call_site: Option<&M>,
    response: ResponseModel,
) -> (r: Result<ResponseModel, SwanError>)
    ensures
        r is Err ==> r->Err_0 matches SwanError::Pipeline { phase: Phase::After, .. },
        r is Err && global is None ==> r->Err_0 matches SwanError::Pipeline {
            scope: Scope::CallSite,
            ..
        },
        r is Err && call_site is None ==> r->Err_0 matches SwanError::Pipeline {
            scope: Scope::Global,
            ..
        },
        global is None && call_site is None ==> r is Ok && r->Ok_0 == response,
{
    let mut current: ResponseModel = response;
    match call_site {
        Some(m) => {
            match m.after_response(current) {
                Ok(resp) => {
                    current = resp;
                },
                Err(cause) => {
                    return Err(
                        SwanError::Pipeline { scope: Scope::CallSite, phase: Phase::After, cause },
                    );
                },
            }
        },
        None => {},
    }
    match global {
        Some(g) => {
            match g.after_response(current) {
                Ok(resp) => {
                    current = resp;
                },
                Err(cause) => {
                    return Err(
                        SwanError::Pipeline { scope: Scope::Global, phase: Phase::After, cause },
                    );
                },
            }
        },
        None => {},
    }
    Ok(current)
}

/// Runs the before-phase with typed application state: the same fixed
/// order as the stateless phase, with the optional state reference
/// handed to every hook. The pipeline is specialized over the concrete
/// state type, so absence of state is just `None`, never a runtime type
/// check.
pub fn run_before_phase_with_state<State, G: SwanStatefulInterceptor<State>, M: SwanStatefulInterceptor<State>>(
    global: Option<&G>,
    call_site: Option<&M>,
    request: RequestModel,
    body: Vec<u8>,
    state: Option<&State>,
) -> (r: Result<(RequestModel, Vec<u8>), SwanError>)
    ensures
        r is Err ==> r->Err_0 matches SwanError::Pipeline { phase: Phase::Before, .. },
        r is Err && global is None ==> r->Err_0 matches SwanError::Pipeline {
            scope: Scope::CallSite,
            ..
        },
        r is Err && call_site is None ==> r->Err_0 matches SwanError::Pipeline {
            scope: Scope::Global,
            ..
        },
        global is None && call_site is None ==> r is Ok && r->Ok_0.0 == request && r->Ok_0.1
            == body,
{
    let mut current_request: RequestModel = request;
    let mut current_body: Vec<u8> = body;
    match global {
        Some(g) => {
            match g.before_request(current_request, &current_body, state) {
                Ok((rq, bd)) => {
                    current_request = rq;
                    current_body = bd;
                },
                Err(cause) => {
                    return Err(
                        SwanError::Pipeline { scope: Scope::Global, phase: Phase::Before, cause },
                    );
                },
            }
        },
        None => {},
    }
    match call_site {
        Some(m) => {
            match m.before_request(current_request, &current_body, state) {
                Ok((rq, bd)) => {
                    current_request = rq;
                    current_body = bd;
                },
                Err(cause) => {
                    return Err(
                        SwanError::Pipeline {
                            scope: Scope::CallSite,
                            phase: Phase::Before,
                            cause,
                        },
                    );
                },
            }
        },
        None => {},
    }
    Ok((current_request, current_body))
}

/// Runs the after-phase with typed application state, call-site hook
/// first, so the global interceptor wraps the call-site one.
pub fn run_after_phase_with_state<State, G: SwanStatefulInterceptor<State>, M: SwanStatefulInterceptor<State>>(
    global: Option<&G>,
    call_site: Option<&M>,
    response: ResponseModel,
    state: Option<&State>,
) -> (r: Result<ResponseModel, SwanError>)
    ensures
        r is Err ==> r->Err_0 matches SwanError::Pipeline { phase: Phase::After, .. },
        r is Err && global is None ==> r->Err_0 matches SwanError::Pipeline {
            scope: Scope::CallSite,
            ..
        },
        r is Err && call_site is None ==> r->Err_0 matches SwanError::Pipeline {
            scope: Scope::Global,
            ..
        },
        global is None && call_site is None ==> r is Ok && r->Ok_0 == response,
{
    let mut current: ResponseModel = response;
    match call_site {
        Some(m) => {
            match m.after_response(current, state) {
                Ok(resp) => {
                    current = resp;
                },
                Err(cause) => {
                    return Err(
                        SwanError::Pipeline { scope: Scope::CallSite, phase: Phase::After, cause },
                    );
                },
            }
        },
        None => {},
    }
    match global {
        Some(g) => {
            match g.after_response(current, state) {
                Ok(resp) => {
                    current = resp;
                },
                Err(cause) => {
                    return Err(
                        SwanError::Pipeline { scope: Scope::Global, phase: Phase::After, cause },
                    );
                },
            }
        },
        None => {},
    }
    Ok(current)
}

} // verus!
