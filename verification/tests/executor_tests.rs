use swan::error::{Phase, Scope, SwanError};
use swan::executor::{init_state, next_action, step, ExecAction, ExecConfig, ExecEvent, ExecState};
use swan::http::HttpMethod;
use swan::retry::RetryPolicy;

fn config(max_attempts: u32, verb: HttpMethod, idempotent_only: bool) -> ExecConfig {
    ExecConfig {
        policy: RetryPolicy {
            max_attempts,
            base_delay_ms: 1,
            max_delay_ms: 10,
            exponential_base_milli: 2000,
            jitter_ratio_milli: 0,
            idempotent_only,
        },
        verb,
        has_global: false,
        has_call_site: false,
    }
}

/// Drives the machine with a transport that always answers `status`,
/// hooks that always succeed, and sleeps that always elapse; returns the
/// actions performed and the final state.
fn drive(cfg: &ExecConfig, status: u16, max_steps: usize) -> (Vec<ExecAction>, ExecState) {
    let mut st = init_state(cfg);
    let mut actions = Vec::new();
    for _ in 0..max_steps {
        let action = next_action(&st);
        if action == ExecAction::Finish {
            break;
        }
        actions.push(action);
        let event = match action {
            ExecAction::RunGlobalBefore | ExecAction::RunCallSiteBefore => ExecEvent::HookOk,
            ExecAction::SendRequest { .. } => ExecEvent::AttemptedStatus { status },
            ExecAction::Sleep { .. } => ExecEvent::Slept,
            ExecAction::RunCallSiteAfter | ExecAction::RunGlobalAfter => ExecEvent::HookOk,
            ExecAction::Finish => unreachable!(),
        };
        st = step(cfg, st, event);
    }
    (actions, st)
}

fn count_sends(actions: &[ExecAction]) -> usize {
    actions.iter().filter(|a| matches!(a, ExecAction::SendRequest { .. })).count()
}

#[test]
fn test_always_503_exhausts_after_three_attempts() {
    let cfg = config(3, HttpMethod::Get, true);
    let (actions, final_state) = drive(&cfg, 503, 100);

    assert_eq!(count_sends(&actions), 3);
    assert_eq!(
        final_state,
        ExecState::Failed { error: SwanError::HttpStatus { status: 503, attempts: 3 } }
    );
}

#[test]
fn test_create_verb_attempted_exactly_once_by_default() {
    let cfg = config(3, HttpMethod::Post, true);
    let (actions, final_state) = drive(&cfg, 503, 100);

    assert_eq!(count_sends(&actions), 1);
    assert_eq!(
        final_state,
        ExecState::Failed { error: SwanError::HttpStatus { status: 503, attempts: 1 } }
    );
}

#[test]
fn test_create_verb_retries_when_idempotent_only_off() {
    let cfg = config(3, HttpMethod::Post, false);
    let (actions, final_state) = drive(&cfg, 503, 100);

    assert_eq!(count_sends(&actions), 3);
    assert_eq!(
        final_state,
        ExecState::Failed { error: SwanError::HttpStatus { status: 503, attempts: 3 } }
    );
}

#[test]
fn test_success_is_done_after_one_attempt() {
    let cfg = config(3, HttpMethod::Get, true);
    let (actions, final_state) = drive(&cfg, 200, 100);

    assert_eq!(actions, vec![ExecAction::SendRequest { attempt: 0 }]);
    assert_eq!(final_state, ExecState::Done { status: 200, attempts: 1 });
}

#[test]
fn test_non_retryable_status_is_terminal_at_once() {
    let cfg = config(3, HttpMethod::Get, true);
    let (actions, final_state) = drive(&cfg, 404, 100);

    assert_eq!(count_sends(&actions), 1);
    assert_eq!(
        final_state,
        ExecState::Failed { error: SwanError::HttpStatus { status: 404, attempts: 1 } }
    );
}

#[test]
fn test_trace_with_both_interceptors() {
    let cfg = ExecConfig { has_global: true, has_call_site: true, ..config(3, HttpMethod::Get, true) };
    let (actions, final_state) = drive(&cfg, 200, 100);

    assert_eq!(
        actions,
        vec![
            ExecAction::RunGlobalBefore,
            ExecAction::RunCallSiteBefore,
            ExecAction::SendRequest { attempt: 0 },
            ExecAction::RunCallSiteAfter,
            ExecAction::RunGlobalAfter,
        ]
    );
    assert_eq!(final_state, ExecState::Done { status: 200, attempts: 1 });
}

#[test]
fn test_after_phase_runs_on_terminal_failure_status() {
    // the after-phase sees the terminal response even when it is a
    // non-success status, and the call still fails with that status
    let cfg = ExecConfig { has_global: true, has_call_site: true, ..config(1, HttpMethod::Get, true) };
    let (actions, final_state) = drive(&cfg, 500, 100);

    assert_eq!(
        actions,
        vec![
            ExecAction::RunGlobalBefore,
            ExecAction::RunCallSiteBefore,
            ExecAction::SendRequest { attempt: 0 },
            ExecAction::RunCallSiteAfter,
            ExecAction::RunGlobalAfter,
        ]
    );
    assert_eq!(
        final_state,
        ExecState::Failed { error: SwanError::HttpStatus { status: 500, attempts: 1 } }
    );
}

#[test]
fn test_body_not_replayable_is_immediate() {
    let cfg = config(3, HttpMethod::Get, true);
    let st = init_state(&cfg);
    let st = step(&cfg, st, ExecEvent::BodyNotReplayable);
    assert_eq!(st, ExecState::Failed { error: SwanError::NonRetryableBody });
}

#[test]
fn test_transport_errors_retried_then_surfaced_with_attempts() {
    let cfg = config(2, HttpMethod::Get, true);
    let mut st = init_state(&cfg);
    // first attempt: transport failure, retry allowed
    st = step(&cfg, st, ExecEvent::AttemptedTransportError { cause: "connect".to_string() });
    assert_eq!(st, ExecState::Sleeping { next_attempt: 1 });
    st = step(&cfg, st, ExecEvent::Slept);
    assert_eq!(st, ExecState::Attempting { attempt: 1 });
    // second attempt: transport failure, attempts exhausted
    st = step(&cfg, st, ExecEvent::AttemptedTransportError { cause: "timeout".to_string() });
    assert_eq!(
        st,
        ExecState::Failed {
            error: SwanError::Transport { attempts: 2, cause: "timeout".to_string() }
        }
    );
}

#[test]
fn test_before_hook_failure_aborts_without_send() {
    let cfg = ExecConfig { has_global: true, has_call_site: true, ..config(3, HttpMethod::Get, true) };
    let st = init_state(&cfg);
    assert_eq!(next_action(&st), ExecAction::RunGlobalBefore);
    let st = step(&cfg, st, ExecEvent::HookFailed { cause: "auth".to_string() });
    assert_eq!(
        st,
        ExecState::Failed {
            error: SwanError::Pipeline {
                scope: Scope::Global,
                phase: Phase::Before,
                cause: "auth".to_string()
            }
        }
    );
    assert_eq!(next_action(&st), ExecAction::Finish);
}

#[test]
fn test_terminal_states_absorb_events() {
    let cfg = config(3, HttpMethod::Get, true);
    let done = ExecState::Done { status: 200, attempts: 1 };
    let after = step(&cfg, done.clone(), ExecEvent::HookOk);
    assert_eq!(after, done);
}
