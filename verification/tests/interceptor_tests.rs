use swan::interceptor::{
    run_after_phase, run_after_phase_with_state, run_before_phase, run_before_phase_with_state,
    InterceptorCache, NoOpInterceptor, SwanInterceptor, SwanStatefulInterceptor,
};
use swan::error::{Phase, Scope, SwanError};
use swan::request::{RequestModel, ResponseModel};

#[test]
fn test_cache_reuses_interceptors() {
    let mut cache = InterceptorCache::new();

    let interceptor1 = cache.get_or_create(11);
    let interceptor2 = cache.get_or_create(11);
    let interceptor3 = cache.get_or_create(11);

    assert_eq!(interceptor1, interceptor2);
    assert_eq!(interceptor2, interceptor3);

    assert_eq!(cache.size(), 1);
}

#[test]
fn test_cache_different_types() {
    let mut cache = InterceptorCache::new();

    let interceptor1 = cache.get_or_create(11);
    let interceptor2 = cache.get_or_create(22);

    assert_ne!(interceptor1, interceptor2);
    assert_eq!(cache.size(), 2);
}

#[test]
fn test_warmup() {
    let mut cache = InterceptorCache::new();

    cache.warmup(11);
    cache.warmup(22);

    assert_eq!(cache.size(), 2);

    let _interceptor = cache.get_or_create(11);
    assert_eq!(cache.size(), 2);
}

#[test]
fn test_cache_clear() {
    let mut cache = InterceptorCache::new();
    cache.warmup(11);
    assert_eq!(cache.size(), 1);
    cache.clear();
    assert_eq!(cache.size(), 0);
}

fn request() -> RequestModel {
    RequestModel { url: "https://httpbin.org/get".to_string(), headers: Vec::new() }
}

fn response() -> ResponseModel {
    ResponseModel { status: 200, headers: Vec::new(), body: vec![1, 2, 3] }
}

#[test]
fn test_stateless_no_op_interceptor() {
    let interceptor = NoOpInterceptor;
    let body = vec![1, 2, 3];

    let (_modified_request, modified_body) =
        SwanInterceptor::before_request(&interceptor, request(), &body).unwrap();

    assert_eq!(modified_body, body);
}

#[test]
fn test_stateful_no_op_interceptor() {
    struct TestState {
        #[allow(dead_code)]
        value: i32,
    }

    let interceptor = NoOpInterceptor;
    let body = vec![1, 2, 3];
    let state = TestState { value: 42 };

    let (_modified_request, modified_body) =
        SwanStatefulInterceptor::before_request(&interceptor, request(), &body, Some(&state))
            .unwrap();

    assert_eq!(modified_body, body);
}

/// An interceptor that records its calls into a shared trace.
struct Tracing {
    name: &'static str,
    trace: std::rc::Rc<std::cell::RefCell<Vec<String>>>,
}

impl SwanInterceptor for Tracing {
    fn before_request(
        &self,
        request: RequestModel,
        request_body: &Vec<u8>,
    ) -> Result<(RequestModel, Vec<u8>), String> {
        self.trace.borrow_mut().push(format!("{}.before", self.name));
        Ok((request, request_body.clone()))
    }

    fn after_response(&self, response: ResponseModel) -> Result<ResponseModel, String> {
        self.trace.borrow_mut().push(format!("{}.after", self.name));
        Ok(response)
    }
}

#[test]
fn test_pipeline_phase_order() {
    // global wraps call-site: G.before, M.before ... M.after, G.after
    let trace = std::rc::Rc::new(std::cell::RefCell::new(Vec::new()));
    let g = Tracing { name: "G", trace: trace.clone() };
    let m = Tracing { name: "M", trace: trace.clone() };

    let (req, body) =
        run_before_phase(Some(&g), Some(&m), request(), vec![9]).unwrap();
    assert_eq!(req.url, "https://httpbin.org/get");
    assert_eq!(body, vec![9]);
    trace.borrow_mut().push("network".to_string());
    let _resp = run_after_phase(Some(&g), Some(&m), response()).unwrap();

    assert_eq!(
        *trace.borrow(),
        vec!["G.before", "M.before", "network", "M.after", "G.after"]
    );
}

/// An interceptor whose before-hook always fails.
struct FailingBefore;

impl SwanInterceptor for FailingBefore {
    fn before_request(
        &self,
        _request: RequestModel,
        _request_body: &Vec<u8>,
    ) -> Result<(RequestModel, Vec<u8>), String> {
        Err("broken".to_string())
    }

    fn after_response(&self, response: ResponseModel) -> Result<ResponseModel, String> {
        Ok(response)
    }
}

#[test]
fn test_pipeline_before_failure_tagged() {
    let g = FailingBefore;
    let m = NoOpInterceptor;
    let err = run_before_phase(Some(&g), Some(&m), request(), Vec::new()).unwrap_err();
    assert_eq!(
        err,
        SwanError::Pipeline {
            scope: Scope::Global,
            phase: Phase::Before,
            cause: "broken".to_string()
        }
    );
}

/// A stateful interceptor that counts its calls through shared state.
struct CountingStateful;

struct CounterState {
    calls: std::sync::atomic::AtomicUsize,
}

impl swan::interceptor::SwanStatefulInterceptor<CounterState> for CountingStateful {
    fn before_request(
        &self,
        request: RequestModel,
        request_body: &Vec<u8>,
        state: Option<&CounterState>,
    ) -> Result<(RequestModel, Vec<u8>), String> {
        if let Some(s) = state {
            s.calls.fetch_add(1, std::sync::atomic::Ordering::SeqCst);
        }
        Ok((request, request_body.clone()))
    }

    fn after_response(
        &self,
        response: ResponseModel,
        state: Option<&CounterState>,
    ) -> Result<ResponseModel, String> {
        if let Some(s) = state {
            s.calls.fetch_add(1, std::sync::atomic::Ordering::SeqCst);
        }
        Ok(response)
    }
}

#[test]
fn test_stateful_pipeline_threads_state() {
    let state = CounterState { calls: std::sync::atomic::AtomicUsize::new(0) };
    let m = CountingStateful;

    let (_, _) = run_before_phase_with_state(
        None::<&NoOpInterceptor>,
        Some(&m),
        request(),
        Vec::new(),
        Some(&state),
    )
    .unwrap();
    let _ = run_after_phase_with_state(
        None::<&NoOpInterceptor>,
        Some(&m),
        response(),
        Some(&state),
    )
    .unwrap();

    assert_eq!(state.calls.load(std::sync::atomic::Ordering::SeqCst), 2);

    // every hook must also work with the state absent
    let (_, _) = run_before_phase_with_state(
        None::<&NoOpInterceptor>,
        Some(&m),
        request(),
        Vec::new(),
        None,
    )
    .unwrap();
}

#[test]
fn test_unbound_phases_pass_values_through() {
    // with no hook bound, both phases return their inputs untouched
    let (req, body) = run_before_phase::<NoOpInterceptor, NoOpInterceptor>(
        None,
        None,
        request(),
        vec![4, 5],
    )
    .unwrap();
    assert_eq!(req.url, "https://httpbin.org/get");
    assert_eq!(body, vec![4, 5]);

    let resp = run_after_phase::<NoOpInterceptor, NoOpInterceptor>(None, None, response())
        .unwrap();
    assert_eq!(resp.status, 200);
    assert_eq!(resp.body, vec![1, 2, 3]);
}

#[test]
fn test_single_slot_failure_carries_its_scope() {
    // with only the call-site slot bound, a failure is tagged call-site
    let m = FailingBefore;
    let err = run_before_phase(None::<&NoOpInterceptor>, Some(&m), request(), Vec::new())
        .unwrap_err();
    assert_eq!(
        err,
        SwanError::Pipeline {
            scope: Scope::CallSite,
            phase: Phase::Before,
            cause: "broken".to_string()
        }
    );
}
