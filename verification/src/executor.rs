//! The execution coordinator, as a state machine: one call walks from
//! the before-phase through a bounded retry loop to the after-phase and
//! a terminal result. The machine decides; the outside work each state
//! asks for (running a hook, sending the request, sleeping) is
//! performed by the driver, which feeds the outcome back as an event.

use vstd::prelude::*;
use crate::error::{Phase, Scope, SwanError};
use crate::http::HttpMethod;
use crate::retry::{AttemptOutcome, RetryPolicy};

verus! {

/// What one call runs under: its retry policy, its verb, and which
/// interceptor slots are bound.
#[derive(Debug, Clone, PartialEq, Eq, Structural)]
pub struct ExecConfig {
    pub policy: RetryPolicy,
    pub verb: HttpMethod,
    pub has_global: bool,
    pub has_call_site: bool,
}

/// Where a call stands. `Done` and `Failed` are absorbing.
#[derive(Debug, Clone, PartialEq, Eq)]
pub enum ExecState {
    /// The client-global before-hook is about to run.
    GlobalBefore,
    /// The call-site before-hook is about to run.
    CallSiteBefore,
    /// Attempt number `attempt` (zero-based) is about to be sent.
    Attempting { attempt: u32 },
    /// A retry is scheduled: the delay before `next_attempt` is pending.
    Sleeping { next_attempt: u32 },
    /// The call-site after-hook is about to run on the terminal response.
    CallSiteAfter { status: u16, attempts: u32 },
    /// The client-global after-hook is about to run on the terminal
    /// response.
    GlobalAfter { status: u16, attempts: u32 },
    /// The call succeeded with the given status after `attempts` sends.
    Done { status: u16, attempts: u32 },
    /// The call failed.
    Failed { error: SwanError },
}

/// What the driver reports back after performing the pending action.
#[derive(Debug, Clone, PartialEq, Eq)]
pub enum ExecEvent {
    /// The pending hook succeeded.
    HookOk,
    /// The pending hook failed.
    HookFailed { cause: String },
    /// The transport returned a response with this status.
    AttemptedStatus { status: u16 },
    /// The transport failed without a response.
    AttemptedTransportError { cause: String },
    /// The outgoing body could not be replayed for a (re)send.
    BodyNotReplayable,
    /// The scheduled delay has elapsed.
    Slept,
}

/// What the driver must do next.
#[derive(Debug, Clone, Copy, PartialEq, Eq, Structural)]
pub enum ExecAction {
    /// Run the client-global before-hook.
    RunGlobalBefore,
    /// Run the call-site before-hook.
    RunCallSiteBefore,
    /// Send the request: attempt number `attempt`, zero-based.
    SendRequest { attempt: u32 },
    /// Wait out the delay before `next_attempt`, computed by
    /// `RetryPolicy::calculate_delay`.
    Sleep { next_attempt: u32 },
    /// Run the call-site after-hook.
    RunCallSiteAfter,
    /// Run the client-global after-hook.
    RunGlobalAfter,
    /// The call is over; deliver the result.
    Finish,
}

/// Whether a status is a success.
pub open spec fn spec_is_success(status: u16) -> bool {
    200 <= status && status < 300
}

/// The most sends any run may make: `max_attempts`, or one where the
/// policy allows none at all.
pub open spec fn spec_max_total(cfg: ExecConfig) -> nat {
    if cfg.policy.max_attempts == 0 {
        1
    } else {
        cfg.policy.max_attempts as nat
    }
}

/// The states a run can actually be in: attempt counters stay under the
/// policy's bound, and a terminal response's attempt count never
/// exceeds it.
pub open spec fn spec_wf_state(cfg: ExecConfig, st: ExecState) -> bool {
    match st {
        ExecState::Attempting { attempt } => attempt == 0 || (attempt as nat)
            < cfg.policy.max_attempts as nat,
        ExecState::Sleeping { next_attempt } => 1 <= next_attempt && (next_attempt as nat)
            < cfg.policy.max_attempts as nat,
        ExecState::CallSiteAfter { attempts, .. } => 1 <= attempts && attempts as nat
            <= spec_max_total(cfg),
        ExecState::GlobalAfter { attempts, .. } => 1 <= attempts && attempts as nat
            <= spec_max_total(cfg),
        ExecState::Done { attempts, .. } => 1 <= attempts && attempts as nat <= spec_max_total(
            cfg,
        ),
        _ => true,
    }
}

/// Where a call starts: at the global before-hook, at the call-site
/// before-hook, or at its first attempt, depending on which slots are
/// bound.
pub open spec fn spec_init(cfg: ExecConfig) -> ExecState {
    if cfg.has_global {
        ExecState::GlobalBefore
    } else if cfg.has_call_site {
        ExecState::CallSiteBefore
    } else {
        ExecState::Attempting { attempt: 0 }
    }
}

/// The terminal state for a response: success is done, anything else
/// fails with the status and the attempt count.
pub open spec fn spec_terminal(status: u16, attempts: u32) -> ExecState {
    if spec_is_success(status) {
        ExecState::Done { status, attempts }
    } else {
        ExecState::Failed { error: SwanError::HttpStatus { status, attempts } }
    }
}

/// Where the after-phase starts for a terminal response: at the
/// call-site after-hook, at the global after-hook, or directly at the
/// terminal state.
pub open spec fn spec_after_entry(cfg: ExecConfig, status: u16, attempts: u32) -> ExecState {
    if cfg.has_call_site {
        ExecState::CallSiteAfter { status, attempts }
    } else if cfg.has_global {
        ExecState::GlobalAfter { status, attempts }
    } else {
        spec_terminal(status, attempts)
    }
}

/// What the driver must do in a state.
pub open spec fn spec_next_action(st: ExecState) -> ExecAction {
    match st {
        ExecState::GlobalBefore => ExecAction::RunGlobalBefore,
        ExecState::CallSiteBefore => ExecAction::RunCallSiteBefore,
        ExecState::Attempting { attempt } => ExecAction::SendRequest { attempt },
        ExecState::Sleeping { next_attempt } => ExecAction::Sleep { next_attempt },
        ExecState::CallSiteAfter { .. } => ExecAction::RunCallSiteAfter,
        ExecState::GlobalAfter { .. } => ExecAction::RunGlobalAfter,
        ExecState::Done { .. } => ExecAction::Finish,
        ExecState::Failed { .. } => ExecAction::Finish,
    }
}

/// One transition of the coordinator. An event that does not answer the
/// pending action leaves the state unchanged; `Done` and `Failed`
/// absorb every event.
pub open spec fn spec_step(cfg: ExecConfig, st: ExecState, ev: ExecEvent) -> ExecState {
    match st {
        ExecState::GlobalBefore => match ev {
            ExecEvent::HookOk => if cfg.has_call_site {
                ExecState::CallSiteBefore
            } else {
                ExecState::Attempting { attempt: 0 }
            },
            ExecEvent::HookFailed { cause } => ExecState::Failed {
                error: SwanError::Pipeline { scope: Scope::Global, phase: Phase::Before, cause },
            },
            _ => st,
        },
        ExecState::CallSiteBefore => match ev {
            ExecEvent::HookOk => ExecState::Attempting { attempt: 0 },
            ExecEvent::HookFailed { cause } => ExecState::Failed {
                error: SwanError::Pipeline {
                    scope: Scope::CallSite,
                    phase: Phase::Before,
                    cause,
                },
            },
            _ => st,
        },
        ExecState::Attempting { attempt } => match ev {
            ExecEvent::AttemptedStatus { status } => if cfg.policy.spec_should_retry(
                AttemptOutcome::Status { code: status },
                attempt as nat,
                cfg.verb,
            ) {
                ExecState::Sleeping { next_attempt: (attempt + 1) as u32 }
            } else {
                spec_after_entry(cfg, status, (attempt + 1) as u32)
            },
            ExecEvent::AttemptedTransportError { cause } => if cfg.policy.spec_should_retry(
                AttemptOutcome::TransportFailure,
                attempt as nat,
                cfg.verb,
            ) {
                ExecState::Sleeping { next_attempt: (attempt + 1) as u32 }
            } else {
                ExecState::Failed {
                    error: SwanError::Transport { attempts: (attempt + 1) as u32, cause },
                }
            },
            ExecEvent::BodyNotReplayable => ExecState::Failed {
                error: SwanError::NonRetryableBody,
            },
            _ => st,
        },
        ExecState::Sleeping { next_attempt } => match ev {
            ExecEvent::Slept => ExecState::Attempting { attempt: next_attempt },
            _ => st,
        },
        ExecState::CallSiteAfter { status, attempts } => match ev {
            ExecEvent::HookOk => if cfg.has_global {
                ExecState::GlobalAfter { status, attempts }
            } else {
                spec_terminal(status, attempts)
            },
            ExecEvent::HookFailed { cause } => ExecState::Failed {
                error: SwanError::Pipeline { scope: Scope::CallSite, phase: Phase::After, cause },
            },
            _ => st,
        },
        ExecState::GlobalAfter { status, attempts } => match ev {
            ExecEvent::HookOk => spec_terminal(status, attempts),
            ExecEvent::HookFailed { cause } => ExecState::Failed {
                error: SwanError::Pipeline { scope: Scope::Global, phase: Phase::After, cause },
            },
            _ => st,
        },
        ExecState::Done { .. } => st,
        ExecState::Failed { .. } => st,
    }
}

/// Returns whether a status is a success.
pub fn is_success_status(status: u16) -> (r: bool)
    ensures
        r == spec_is_success(status),
{
    200 <= status && status < 300
}

/// Returns the state a call starts in.
pub fn init_state(cfg: &ExecConfig) -> (r: ExecState)
    ensures
        r == spec_init(*cfg),
        spec_wf_state(*cfg, r),
{
    if cfg.has_global {
        ExecState::GlobalBefore
    } else if cfg.has_call_site {
        ExecState::CallSiteBefore
    } else {
        ExecState::Attempting { attempt: 0 }
    }
}

/// Returns what the driver must do in the given state.
pub fn next_action(st: &ExecState) -> (r: ExecAction)
    ensures
        r == spec_next_action(*st),
{
    match st {
        ExecState::GlobalBefore => ExecAction::RunGlobalBefore,
        ExecState::CallSiteBefore => ExecAction::RunCallSiteBefore,
        ExecState::Attempting { attempt } => ExecAction::SendRequest { attempt: *attempt },
        ExecState::Sleeping { next_attempt } => ExecAction::Sleep {
            next_attempt: *next_attempt,
        },
        ExecState::CallSiteAfter { .. } => ExecAction::RunCallSiteAfter,
        ExecState::GlobalAfter { .. } => ExecAction::RunGlobalAfter,
        ExecState::Done { .. } => ExecAction::Finish,
        ExecState::Failed { .. } => ExecAction::Finish,
    }
}

/// Performs one transition of the coordinator.
pub fn step(cfg: &ExecConfig, st: ExecState, ev: ExecEvent) -> (r: ExecState)
    requires
        spec_wf_state(*cfg, st),
    ensures
        r == spec_step(*cfg, st, ev),
        spec_wf_state(*cfg, r),
{
    match st {
        ExecState::GlobalBefore => match ev {
            ExecEvent::HookOk => if cfg.has_call_site {
                ExecState::CallSiteBefore
            } else {
                ExecState::Attempting { attempt: 0 }
            },
            ExecEvent::HookFailed { cause } => ExecState::Failed {
                error: SwanError::Pipeline { scope: Scope::Global, phase: Phase::Before, cause },
            },
            _ => ExecState::GlobalBefore,
        },
        ExecState::CallSiteBefore => match ev {
            ExecEvent::HookOk => ExecState::Attempting { attempt: 0 },
            ExecEvent::HookFailed { cause } => ExecState::Failed {
                error: SwanError::Pipeline {
                    scope: Scope::CallSite,
                    phase: Phase::Before,
                    cause,
                },
            },
            _ => ExecState::CallSiteBefore,
        },
        ExecState::Attempting { attempt } => match ev {
            ExecEvent::AttemptedStatus { status } => {
                let outcome = AttemptOutcome::Status { code: status };
                if cfg.policy.should_retry(&outcome, attempt, &cfg.verb) {
                    ExecState::Sleeping { next_attempt: attempt + 1 }
                } else {
                    after_entry(cfg, status, attempt + 1)
                }
            },
            ExecEvent::AttemptedTransportError { cause } => {
                let outcome = AttemptOutcome::TransportFailure;
                if cfg.policy.should_retry(&outcome, attempt, &cfg.verb) {
                    ExecState::Sleeping { next_attempt: attempt + 1 }
                } else {
                    ExecState::Failed {
                        error: SwanError::Transport { attempts: attempt + 1, cause },
                    }
                }
            },
            ExecEvent::BodyNotReplayable => ExecState::Failed {
                error: SwanError::NonRetryableBody,
            },
            _ => ExecState::Attempting { attempt },
        },
        ExecState::Sleeping { next_attempt } => match ev {
            ExecEvent::Slept => ExecState::Attempting { attempt: next_attempt },
            _ => ExecState::Sleeping { next_attempt },
        },
        ExecState::CallSiteAfter { status, attempts } => match ev {
            ExecEvent::HookOk => if cfg.has_global {
                ExecState::GlobalAfter { status, attempts }
            } else {
                terminal_state(status, attempts)
            },
            ExecEvent::HookFailed { cause } => ExecState::Failed {
                error: SwanError::Pipeline { scope: Scope::CallSite, phase: Phase::After, cause },
            },
            _ => ExecState::CallSiteAfter { status, attempts },
        },
        ExecState::GlobalAfter { status, attempts } => match ev {
            ExecEvent::HookOk => terminal_state(status, attempts),
            ExecEvent::HookFailed { cause } => ExecState::Failed {
                error: SwanError::Pipeline { scope: Scope::Global, phase: Phase::After, cause },
            },
            _ => ExecState::GlobalAfter { status, attempts },
        },
        ExecState::Done { status, attempts } => ExecState::Done { status, attempts },
        ExecState::Failed { error } => ExecState::Failed { error },
    }
}

/// Returns the terminal state for a response.
fn terminal_state(status: u16, attempts: u32) -> (r: ExecState)
    ensures
        r == spec_terminal(status, attempts),
{
    if is_success_status(status) {
        ExecState::Done { status, attempts }
    } else {
        ExecState::Failed { error: SwanError::HttpStatus { status, attempts } }
    }
}

/// Returns where the after-phase starts for a terminal response.
fn after_entry(cfg: &ExecConfig, status: u16, attempts: u32) -> (r: ExecState)
    ensures
        r == spec_after_entry(*cfg, status, attempts),
{
    if cfg.has_call_site {
        ExecState::CallSiteAfter { status, attempts }
    } else if cfg.has_global {
        ExecState::GlobalAfter { status, attempts }
    } else {
        terminal_state(status, attempts)
    }
}

/// The state after feeding a whole event sequence, front to back.
pub open spec fn spec_run_state(cfg: ExecConfig, st: ExecState, events: Seq<ExecEvent>) -> ExecState
    decreases events.len(),
{
    if events.len() == 0 {
        st
    } else {
        spec_run_state(cfg, spec_step(cfg, st, events[0]), events.subrange(1, events.len() as int))
    }
}

/// The actions a run performs, one per event consumed.
pub open spec fn spec_trace(cfg: ExecConfig, st: ExecState, events: Seq<ExecEvent>) -> Seq<
    ExecAction,
>
    decreases events.len(),
{
    if events.len() == 0 {
        Seq::empty()
    } else {
        seq![spec_next_action(st)] + spec_trace(
            cfg,
            spec_step(cfg, st, events[0]),
            events.subrange(1, events.len() as int),
        )
    }
}

/// How many sends a trace holds.
pub open spec fn spec_count_sends(tr: Seq<ExecAction>) -> nat
    decreases tr.len(),
{
    if tr.len() == 0 {
        0
    } else {
        (match tr[0] {
            ExecAction::SendRequest { .. } => 1 as nat,
            _ => 0 as nat,
        }) + spec_count_sends(tr.subrange(1, tr.len() as int))
    }
}

/// Every reachable state keeps the attempt bound: one transition from a
/// well-formed state lands in a well-formed state, so a run never
/// attempts more than the policy allows.
pub proof fn lemma_step_preserves_wf(cfg: ExecConfig, st: ExecState, ev: ExecEvent)
    requires
        spec_wf_state(cfg, st),
    ensures
        spec_wf_state(cfg, spec_step(cfg, st, ev)),
{
}

/// `Done` and `Failed` absorb every event: once terminal, a run stays
/// where it is.
pub proof fn lemma_terminal_absorbing(cfg: ExecConfig, st: ExecState, ev: ExecEvent)
    requires
        st is Done || st is Failed,
    ensures
        spec_step(cfg, st, ev) == st,
{
}

/// A retryable status is never a success.
pub proof fn lemma_retryable_not_success(status: u16)
    requires
        RetryPolicy::spec_should_retry_status(status),
    ensures
        !spec_is_success(status),
{
}

/// With a global and a call-site interceptor bound, a call whose first
/// attempt succeeds performs exactly: the global before-hook, the
/// call-site before-hook, one send, the call-site after-hook, the
/// global after-hook — and ends done after one attempt.
pub proof fn lemma_pipeline_order(cfg: ExecConfig, status: u16)
    requires
        cfg.has_global,
        cfg.has_call_site,
        spec_is_success(status),
    ensures
        ({
            let events = seq![
                ExecEvent::HookOk,
                ExecEvent::HookOk,
                ExecEvent::AttemptedStatus { status },
                ExecEvent::HookOk,
                ExecEvent::HookOk,
            ];
            &&& spec_trace(cfg, spec_init(cfg), events) == seq![
                ExecAction::RunGlobalBefore,
                ExecAction::RunCallSiteBefore,
                ExecAction::SendRequest { attempt: 0 },
                ExecAction::RunCallSiteAfter,
                ExecAction::RunGlobalAfter,
            ]
            &&& spec_run_state(cfg, spec_init(cfg), events) == (ExecState::Done {
                status,
                attempts: 1,
            })
        }),
{
    let events = seq![
        ExecEvent::HookOk,
        ExecEvent::HookOk,
        ExecEvent::AttemptedStatus { status },
        ExecEvent::HookOk,
        ExecEvent::HookOk,
    ];
    let s0 = spec_init(cfg);
    assert(s0 == ExecState::GlobalBefore);
    let e1 = events.subrange(1, 5);
    let e2 = e1.subrange(1, 4);
    let e3 = e2.subrange(1, 3);
    let e4 = e3.subrange(1, 2);
    let e5 = e4.subrange(1, 1);
    assert(e1[0] == events[1] && e1.len() == 4);
    assert(e2[0] == events[2] && e2.len() == 3);
    assert(e3[0] == events[3] && e3.len() == 2);
    assert(e4[0] == events[4] && e4.len() == 1);
    assert(e5.len() == 0);
    assert(e1.subrange(1, 4) =~= e2);
    assert(e2.subrange(1, 3) =~= e3);
    assert(e3.subrange(1, 2) =~= e4);
    assert(e4.subrange(1, 1) =~= e5);
    let s1 = spec_step(cfg, s0, events[0]);
    assert(s1 == ExecState::CallSiteBefore);
    let s2 = spec_step(cfg, s1, events[1]);
    assert(s2 == (ExecState::Attempting { attempt: 0 }));
    let s3 = spec_step(cfg, s2, events[2]);
    assert(!RetryPolicy::spec_should_retry_status(status));
    assert(s3 == (ExecState::CallSiteAfter { status, attempts: 1 }));
    let s4 = spec_step(cfg, s3, events[3]);
    assert(s4 == (ExecState::GlobalAfter { status, attempts: 1 }));
    let s5 = spec_step(cfg, s4, events[4]);
    assert(s5 == (ExecState::Done { status, attempts: 1 }));
    assert(spec_run_state(cfg, s0, events) == spec_run_state(cfg, s1, e1));
    assert(spec_run_state(cfg, s1, e1) == spec_run_state(cfg, s2, e2));
    assert(spec_run_state(cfg, s2, e2) == spec_run_state(cfg, s3, e3));
    assert(spec_run_state(cfg, s3, e3) == spec_run_state(cfg, s4, e4));
    assert(spec_run_state(cfg, s4, e4) == spec_run_state(cfg, s5, e5));
    assert(spec_run_state(cfg, s5, e5) == s5);
    assert(spec_trace(cfg, s0, events) == seq![spec_next_action(s0)] + spec_trace(cfg, s1, e1));
    assert(spec_trace(cfg, s1, e1) == seq![spec_next_action(s1)] + spec_trace(cfg, s2, e2));
    assert(spec_trace(cfg, s2, e2) == seq![spec_next_action(s2)] + spec_trace(cfg, s3, e3));
    assert(spec_trace(cfg, s3, e3) == seq![spec_next_action(s3)] + spec_trace(cfg, s4, e4));
    assert(spec_trace(cfg, s4, e4) == seq![spec_next_action(s4)] + spec_trace(cfg, s5, e5));
    assert(spec_trace(cfg, s5, e5) =~= Seq::<ExecAction>::empty());
    assert(spec_trace(cfg, s0, events) =~= seq![
        ExecAction::RunGlobalBefore,
        ExecAction::RunCallSiteBefore,
        ExecAction::SendRequest { attempt: 0 },
        ExecAction::RunCallSiteAfter,
        ExecAction::RunGlobalAfter,
    ]);
}

/// `round_count` repetitions of a failed attempt followed by the
/// scheduled sleep.
pub open spec fn spec_failure_rounds(status: u16, round_count: nat) -> Seq<ExecEvent>
    decreases round_count,
{
    if round_count == 0 {
        Seq::empty()
    } else {
        seq![ExecEvent::AttemptedStatus { status }, ExecEvent::Slept] + spec_failure_rounds(
            status,
            (round_count - 1) as nat,
        )
    }
}

/// Feeding `round_count` failure rounds from attempt `n` walks the
/// machine to attempt `n + round_count`, sending once per round, as
/// long as the policy still allows each retry.
pub proof fn lemma_failure_rounds(
    cfg: ExecConfig,
    status: u16,
    n: u32,
    round_count: nat,
    tail: Seq<ExecEvent>,
)
    requires
        RetryPolicy::spec_should_retry_status(status),
        cfg.policy.spec_retry_allowed(cfg.verb),
        n as nat + round_count < cfg.policy.max_attempts as nat,
    ensures
        spec_run_state(cfg, ExecState::Attempting { attempt: n }, spec_failure_rounds(
            status,
            round_count,
        ) + tail) == spec_run_state(cfg, ExecState::Attempting {
            attempt: (n as nat + round_count) as u32,
        }, tail),
        spec_count_sends(spec_trace(cfg, ExecState::Attempting { attempt: n }, spec_failure_rounds(
            status,
            round_count,
        ) + tail)) == round_count + spec_count_sends(spec_trace(cfg, ExecState::Attempting {
            attempt: (n as nat + round_count) as u32,
        }, tail)),
    decreases round_count,
{
    let st = ExecState::Attempting { attempt: n };
    if round_count == 0 {
        assert(spec_failure_rounds(status, 0) + tail =~= tail);
    } else {
        let events = spec_failure_rounds(status, round_count) + tail;
        assert(events[0] == (ExecEvent::AttemptedStatus { status }));
        assert(events[1] == ExecEvent::Slept);
        assert(cfg.policy.spec_should_retry(
            AttemptOutcome::Status { code: status },
            n as nat,
            cfg.verb,
        ));
        let s1 = spec_step(cfg, st, events[0]);
        assert(s1 == (ExecState::Sleeping { next_attempt: (n + 1) as u32 }));
        let rest1 = events.subrange(1, events.len() as int);
        assert(rest1[0] == ExecEvent::Slept);
        let s2 = spec_step(cfg, s1, rest1[0]);
        assert(s2 == (ExecState::Attempting { attempt: (n + 1) as u32 }));
        let rest2 = rest1.subrange(1, rest1.len() as int);
        assert(rest2 =~= spec_failure_rounds(status, (round_count - 1) as nat) + tail);
        lemma_failure_rounds(cfg, status, (n + 1) as u32, (round_count - 1) as nat, tail);
        assert(spec_run_state(cfg, st, events) == spec_run_state(cfg, s1, rest1));
        assert(spec_run_state(cfg, s1, rest1) == spec_run_state(cfg, s2, rest2));
        assert(spec_count_sends(spec_trace(cfg, st, events)) == 1 + spec_count_sends(
            spec_trace(cfg, s1, rest1),
        )) by {
            let tr = spec_trace(cfg, st, events);
            assert(tr[0] == spec_next_action(st));
            assert(tr.subrange(1, tr.len() as int) =~= spec_trace(cfg, s1, rest1));
        }
        assert(spec_count_sends(spec_trace(cfg, s1, rest1)) == spec_count_sends(
            spec_trace(cfg, s2, rest2),
        )) by {
            let tr = spec_trace(cfg, s1, rest1);
            assert(tr[0] == spec_next_action(s1));
            assert(!(tr[0] is SendRequest));
            assert(tr.subrange(1, tr.len() as int) =~= spec_trace(cfg, s2, rest2));
        }
    }
}

/// Against a transport that always answers with the same retryable
/// status, a call without interceptors is attempted exactly
/// `max_attempts` times and then fails with that status and that
/// attempt count — never once more.
pub proof fn lemma_retry_exhaustion(cfg: ExecConfig, status: u16)
    requires
        cfg.policy.max_attempts >= 1,
        RetryPolicy::spec_should_retry_status(status),
        cfg.policy.spec_retry_allowed(cfg.verb),
        !cfg.has_global,
        !cfg.has_call_site,
    ensures
        ({
            let events = spec_failure_rounds(status, (cfg.policy.max_attempts - 1) as nat)
                + seq![ExecEvent::AttemptedStatus { status }];
            &&& spec_run_state(cfg, spec_init(cfg), events) == (ExecState::Failed {
                error: SwanError::HttpStatus { status, attempts: cfg.policy.max_attempts },
            })
            &&& spec_count_sends(spec_trace(cfg, spec_init(cfg), events))
                == cfg.policy.max_attempts as nat
        }),
{
    let rounds = (cfg.policy.max_attempts - 1) as nat;
    let tail = seq![ExecEvent::AttemptedStatus { status }];
    let events = spec_failure_rounds(status, rounds) + tail;
    assert(spec_init(cfg) == (ExecState::Attempting { attempt: 0 }));
    lemma_failure_rounds(cfg, status, 0, rounds, tail);
    let last_attempt = rounds as u32;
    let st = ExecState::Attempting { attempt: last_attempt };
    assert(!cfg.policy.spec_should_retry(
        AttemptOutcome::Status { code: status },
        last_attempt as nat,
        cfg.verb,
    ));
    lemma_retryable_not_success(status);
    let s1 = spec_step(cfg, st, tail[0]);
    assert(s1 == (ExecState::Failed {
        error: SwanError::HttpStatus { status, attempts: cfg.policy.max_attempts },
    }));
    let rest = tail.subrange(1, 1);
    assert(rest.len() == 0);
    assert(spec_run_state(cfg, st, tail) == spec_run_state(cfg, s1, rest));
    assert(spec_run_state(cfg, s1, rest) == s1);
    assert(spec_count_sends(spec_trace(cfg, st, tail)) == 1) by {
        let tr = spec_trace(cfg, st, tail);
        assert(tr == seq![spec_next_action(st)] + spec_trace(cfg, s1, rest));
        assert(tr[0] == spec_next_action(st));
        assert(tr.subrange(1, tr.len() as int) =~= spec_trace(cfg, s1, rest));
        assert(spec_trace(cfg, s1, rest) =~= Seq::<ExecAction>::empty());
        assert(spec_count_sends(Seq::<ExecAction>::empty()) == 0);
        assert(spec_count_sends(spec_trace(cfg, s1, rest)) == 0);
    }
}

/// A non-idempotent call under an idempotent-only policy is attempted
/// exactly once: the first retryable failure is already terminal.
pub proof fn lemma_non_idempotent_single_attempt(cfg: ExecConfig, status: u16)
    requires
        cfg.policy.idempotent_only,
        !cfg.verb.spec_is_idempotent(),
        RetryPolicy::spec_should_retry_status(status),
        !cfg.has_global,
        !cfg.has_call_site,
    ensures
        ({
            let events = seq![ExecEvent::AttemptedStatus { status }];
            &&& spec_run_state(cfg, spec_init(cfg), events) == (ExecState::Failed {
                error: SwanError::HttpStatus { status, attempts: 1 },
            })
            &&& spec_count_sends(spec_trace(cfg, spec_init(cfg), events)) == 1
        }),
{
    let events = seq![ExecEvent::AttemptedStatus { status }];
    let s0 = spec_init(cfg);
    assert(s0 == (ExecState::Attempting { attempt: 0 }));
    assert(!cfg.policy.spec_retry_allowed(cfg.verb));
    assert(!cfg.policy.spec_should_retry(
        AttemptOutcome::Status { code: status },
        0,
        cfg.verb,
    ));
    lemma_retryable_not_success(status);
    let s1 = spec_step(cfg, s0, events[0]);
    assert(s1 == (ExecState::Failed { error: SwanError::HttpStatus { status, attempts: 1 } }));
    let rest = events.subrange(1, 1);
    assert(rest.len() == 0);
    assert(spec_run_state(cfg, s0, events) == spec_run_state(cfg, s1, rest));
    assert(spec_run_state(cfg, s1, rest) == s1);
    assert(spec_count_sends(spec_trace(cfg, s0, events)) == 1) by {
        let tr = spec_trace(cfg, s0, events);
        assert(tr == seq![spec_next_action(s0)] + spec_trace(cfg, s1, rest));
        assert(tr[0] == spec_next_action(s0));
        assert(tr.subrange(1, tr.len() as int) =~= spec_trace(cfg, s1, rest));
        assert(spec_trace(cfg, s1, rest) =~= Seq::<ExecAction>::empty());
        assert(spec_count_sends(Seq::<ExecAction>::empty()) == 0);
        assert(spec_count_sends(spec_trace(cfg, s1, rest)) == 0);
    }
}

} // verus!
