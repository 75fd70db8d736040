//! The error taxonomy of the execution pipeline.

use vstd::prelude::*;

verus! {

/// Which interceptor slot an error came from.
#[derive(Debug, Clone, Copy, PartialEq, Eq, Structural)]
pub enum Scope {
    /// The client-global interceptor.
    Global,
    /// The call-site interceptor of one descriptor.
    CallSite,
}

/// Which side of the exchange a hook was running on.
#[derive(Debug, Clone, Copy, PartialEq, Eq, Structural)]
pub enum Phase {
    /// Before the request is sent.
    Before,
    /// After the response is received.
    After,
}

/// A template that cannot be resolved at configuration time.
#[derive(Debug, Clone, PartialEq, Eq)]
pub enum TemplateError {
    /// A `{` opened a placeholder that never closes.
    MalformedTemplate,
    /// A placeholder names no argument.
    UnresolvedPlaceholder { name: String },
    /// A header template without a `Key: Value` separator.
    MalformedHeader,
}

/// Everything a call can fail with.
#[derive(Debug, Clone, PartialEq, Eq)]
pub enum SwanError {
    /// An unresolved or malformed template: a startup error.
    Template { inner: TemplateError },
    /// A malformed retry literal: a startup error.
    PolicyConfig { message: String },
    /// A hook failed, tagged with where and when.
    Pipeline { scope: Scope, phase: Phase, cause: String },
    /// The transport failed on every allowed attempt.
    Transport { attempts: u32, cause: String },
    /// A retry was due but the outgoing body cannot be replayed.
    NonRetryableBody,
    /// The terminal response carried a non-success status.
    HttpStatus { status: u16, attempts: u32 },
    /// The response bytes do not match the declared result type.
    Decode { message: String },
}

} // verus!
