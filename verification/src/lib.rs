//! Core execution logic of a declarative HTTP client: retry policies with
//! exponential backoff and jitter, parameter substitution in URL and header
//! templates, interceptor caching and pipeline ordering, proxy selection,
//! and the per-call execution state machine.

pub mod dynamic_params;
pub mod error;
pub mod executor;
pub mod http;
pub mod interceptor;
pub mod proxy;
pub mod request;
pub mod retry;
pub mod retry_parse;
pub mod string_pool;
pub mod text;
