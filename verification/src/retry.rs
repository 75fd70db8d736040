//! Retry policy engine: exponential backoff with jitter, retry
//! eligibility by status code and verb idempotency.

use vstd::prelude::*;
use crate::http::HttpMethod;

verus! {

/// Delays may not exceed this many milliseconds, so that adding the
/// largest possible jitter to a delay never overflows a `u64`.
pub const MAX_DELAY_CEILING_MS: u64 = 0x7fff_ffff_ffff_ffff;

/// The smaller of two naturals.
pub open spec fn min_n(a: nat, b: nat) -> nat {
    if a <= b {
        a
    } else {
        b
    }
}

/// `b` to the power `e` over the naturals.
pub open spec fn pow_nat(b: nat, e: nat) -> nat
    decreases e,
{
    if e == 0 {
        1
    } else {
        b * pow_nat(b, (e - 1) as nat)
    }
}

/// What one attempt of a call came back with: an HTTP status, or a
/// transport-level failure (connect error, timeout) with no status at all.
#[derive(Debug, Clone, Copy, PartialEq, Eq, Structural)]
pub enum AttemptOutcome {
    Status { code: u16 },
    TransportFailure,
}

/// A retry policy. Ratios are kept in thousandths, so
/// `exponential_base_milli == 2000` is a growth factor of two and
/// `jitter_ratio_milli == 100` adds up to one tenth of the delay.
#[derive(Debug, Clone, Copy, PartialEq, Eq, Structural)]
pub struct RetryPolicy {
    /// Total number of attempts allowed, first try included.
    pub max_attempts: u32,
    /// Delay before the second attempt, in milliseconds.
    pub base_delay_ms: u64,
    /// Upper bound on any un-jittered delay, in milliseconds.
    pub max_delay_ms: u64,
    /// Backoff growth factor, in thousandths; at least 1000.
    pub exponential_base_milli: u64,
    /// Fraction of the delay added as random jitter, in thousandths;
    /// at most 1000.
    pub jitter_ratio_milli: u64,
    /// Whether only idempotent verbs may be retried.
    pub idempotent_only: bool,
}

/// The policy the parser and the constructors fall back to.
pub open spec fn spec_default_policy() -> RetryPolicy {
    RetryPolicy {
        max_attempts: 3,
        base_delay_ms: 100,
        max_delay_ms: 30000,
        exponential_base_milli: 2000,
        jitter_ratio_milli: 100,
        idempotent_only: true,
    }
}

impl Default for RetryPolicy {
    /// Three attempts, 100 ms base delay, 30 s cap, doubling, one tenth
    /// jitter, idempotent-only.
    fn default() -> (r: Self)
        ensures
            r == spec_default_policy(),
    {
        RetryPolicy {
            max_attempts: 3,
            base_delay_ms: 100,
            max_delay_ms: 30000,
            exponential_base_milli: 2000,
            jitter_ratio_milli: 100,
            idempotent_only: true,
        }
    }
}

impl RetryPolicy {
    /// Bounds under which delay computation cannot overflow: the growth
    /// factor is at least one, the jitter ratio at most one, and the
    /// delay cap small enough that delay plus jitter fits in a `u64`.
    pub open spec fn wf(self) -> bool {
        &&& self.exponential_base_milli >= 1000
        &&& self.jitter_ratio_milli <= 1000
        &&& self.max_delay_ms <= MAX_DELAY_CEILING_MS
    }

    /// The delay before attempt number `attempt` (so after `attempt`
    /// failed tries), before jitter: zero for the first attempt, then
    /// the base delay grown by the factor once per further attempt,
    /// capped at `max_delay_ms` throughout.
    pub open spec fn unjittered_delay(self, attempt: nat) -> nat
        decreases attempt,
    {
        if attempt == 0 {
            0
        } else if attempt == 1 {
            min_n(self.base_delay_ms as nat, self.max_delay_ms as nat)
        } else {
            min_n(
                self.unjittered_delay((attempt - 1) as nat) * self.exponential_base_milli as nat
                    / 1000,
                self.max_delay_ms as nat,
            )
        }
    }

    /// An exponential-backoff policy; everything but the attempt count
    /// and the base delay comes from the default.
    pub fn exponential(max_attempts: u32, base_delay_ms: u64) -> (r: Self)
        ensures
            r == (RetryPolicy { max_attempts, base_delay_ms, ..spec_default_policy() }),
            r.wf(),
    {
        RetryPolicy { max_attempts, base_delay_ms, ..Default::default() }
    }

    /// A fixed-delay policy: every delay equals `delay_ms`, with no
    /// growth and no jitter.
    pub fn fixed(max_attempts: u32, delay_ms: u64) -> (r: Self)
        ensures
            r == (RetryPolicy {
                max_attempts,
                base_delay_ms: delay_ms,
                max_delay_ms: delay_ms,
                exponential_base_milli: 1000,
                jitter_ratio_milli: 0,
                idempotent_only: true,
            }),
    {
        RetryPolicy {
            max_attempts,
            base_delay_ms: delay_ms,
            max_delay_ms: delay_ms,
            exponential_base_milli: 1000,
            jitter_ratio_milli: 0,
            idempotent_only: true,
        }
    }

    /// Computes the delay in milliseconds before attempt number
    /// `attempt`. The result is the un-jittered delay plus, when the
    /// policy has jitter, a random amount below `delay * jitter_ratio`.
    #[verifier::rlimit(30)]
    pub fn calculate_delay(&self, attempt: u32) -> (r: u64)
        requires
            self.wf(),
        ensures
            attempt == 0 ==> r == 0,
            self.unjittered_delay(attempt as nat) <= r <= self.unjittered_delay(attempt as nat)
                + self.unjittered_delay(attempt as nat) * self.jitter_ratio_milli / 1000,
            self.jitter_ratio_milli == 0 ==> r == self.unjittered_delay(attempt as nat),
    {
        if attempt == 0 {
            return 0;
        }
        let cap: u64 = self.max_delay_ms;
        let mut d: u64 = if self.base_delay_ms <= cap {
            self.base_delay_ms
        } else {
            cap
        };
        let mut i: u32 = 1;
        while i < attempt
            invariant
                1 <= i <= attempt,
                self.wf(),
                cap == self.max_delay_ms,
                d as nat == self.unjittered_delay(i as nat),
                d <= cap,
            decreases attempt - i,
        {
            proof {
                assert((d as u128 as nat) * (self.exponential_base_milli as u128 as nat)
                    <= (MAX_DELAY_CEILING_MS as nat) * (u64::MAX as nat)) by (nonlinear_arith)
                    requires
                        d as nat <= MAX_DELAY_CEILING_MS as nat,
                        self.exponential_base_milli as nat <= u64::MAX as nat,
                ;
            }
            let prod: u128 = (d as u128) * (self.exponential_base_milli as u128) / 1000;
            d = if prod >= cap as u128 {
                cap
            } else {
                prod as u64
            };
            i = i + 1;
        }
        proof {
            let dn = d as nat;
            let jm = self.jitter_ratio_milli as nat;
            assert(dn * jm <= dn * 1000) by (nonlinear_arith)
                requires
                    jm <= 1000,
            ;
            vstd::arithmetic::div_mod::lemma_div_is_ordered(
                (dn * jm) as int,
                (dn * 1000) as int,
                1000,
            );
            vstd::arithmetic::div_mod::lemma_div_multiples_vanish(dn as int, 1000);
            assert(dn * 1000 == 1000 * dn);
            assert(dn * jm / 1000 <= dn);
        }
        let max_jitter: u64 = ((d as u128) * (self.jitter_ratio_milli as u128) / 1000) as u64;
        proof {
            assert(max_jitter as nat == self.unjittered_delay(attempt as nat)
                * self.jitter_ratio_milli as nat / 1000);
            if self.jitter_ratio_milli == 0 {
                assert((d as nat) * (self.jitter_ratio_milli as nat) == 0) by (nonlinear_arith)
                    requires
                        self.jitter_ratio_milli as nat == 0,
                ;
                assert(max_jitter == 0);
            }
        }
        if max_jitter == 0 {
            assert(d as nat == self.unjittered_delay(attempt as nat));
            d
        } else {
            assert(self.jitter_ratio_milli != 0);
            let extra: u64 = random_below(max_jitter);
            assert(d as nat + extra as nat <= self.unjittered_delay(attempt as nat)
                + self.unjittered_delay(attempt as nat) * self.jitter_ratio_milli / 1000);
            d + extra
        }
    }

    /// Whether an HTTP status calls for a retry: request timeout (408),
    /// rate limiting (429), and every server error (500 to 599) do;
    /// nothing else does.
    pub open spec fn spec_should_retry_status(status: u16) -> bool {
        status == 408 || status == 429 || (500 <= status && status <= 599)
    }

    /// Returns whether a response status is retryable.
    pub fn should_retry_status(&self, status: u16) -> (r: bool)
        ensures
            r == Self::spec_should_retry_status(status),
    {
        if status == 408 || status == 429 {
            true
        } else {
            500 <= status && status <= 599
        }
    }

    /// Whether an attempt outcome is retryable: a retryable status, or
    /// any transport failure.
    pub open spec fn spec_outcome_retryable(outcome: AttemptOutcome) -> bool {
        match outcome {
            AttemptOutcome::Status { code } => Self::spec_should_retry_status(code),
            AttemptOutcome::TransportFailure => true,
        }
    }

    /// Returns whether an attempt outcome is retryable.
    pub fn outcome_retryable(&self, outcome: &AttemptOutcome) -> (r: bool)
        ensures
            r == Self::spec_outcome_retryable(*outcome),
    {
        match outcome {
            AttemptOutcome::Status { code } => self.should_retry_status(*code),
            AttemptOutcome::TransportFailure => true,
        }
    }

    /// Whether this policy lets the given verb be retried at all.
    pub open spec fn spec_retry_allowed(self, verb: HttpMethod) -> bool {
        !self.idempotent_only || verb.spec_is_idempotent()
    }

    /// Returns whether a verb is idempotent: reads, replacements and
    /// deletions are; creations are not.
    pub fn is_idempotent_method(method: &HttpMethod) -> (r: bool)
        ensures
            r == method.spec_is_idempotent(),
    {
        match method {
            HttpMethod::Get | HttpMethod::Put | HttpMethod::Delete => true,
            HttpMethod::Post => false,
        }
    }

    /// Whether a further attempt is due after `attempt` tries (counted
    /// from zero) ended in `outcome`: the outcome must be retryable,
    /// another attempt must be left under `max_attempts`, and the verb
    /// must be allowed by the idempotency gate.
    pub open spec fn spec_should_retry(
        self,
        outcome: AttemptOutcome,
        attempt: nat,
        verb: HttpMethod,
    ) -> bool {
        &&& Self::spec_outcome_retryable(outcome)
        &&& attempt + 1 < self.max_attempts
        &&& self.spec_retry_allowed(verb)
    }

    /// Decides whether the attempt numbered `attempt` (zero-based), which
    /// ended in `outcome`, is followed by another one.
    pub fn should_retry(&self, outcome: &AttemptOutcome, attempt: u32, verb: &HttpMethod) -> (r:
        bool)
        ensures
            r == self.spec_should_retry(*outcome, attempt as nat, *verb),
    {
        let retryable: bool = self.outcome_retryable(outcome);
        let attempts_left: bool = (attempt as u64) + 1 < (self.max_attempts as u64);
        let allowed: bool = !self.idempotent_only || Self::is_idempotent_method(verb);
        retryable && attempts_left && allowed
    }
}

/// For a policy whose growth factor is the whole number `b` (in
/// thousandths: `1000 * b`), the un-jittered delay before attempt
/// `attempt >= 1` is exactly `min(base_delay * b^(attempt-1), max_delay)`.
pub proof fn lemma_unjittered_delay_exact(p: RetryPolicy, b: nat, attempt: nat)
    requires
        p.wf(),
        p.exponential_base_milli as nat == 1000 * b,
        attempt >= 1,
    ensures
        p.unjittered_delay(attempt) == min_n(
            p.base_delay_ms as nat * pow_nat(b, (attempt - 1) as nat),
            p.max_delay_ms as nat,
        ),
    decreases attempt,
{
    let base = p.base_delay_ms as nat;
    let cap = p.max_delay_ms as nat;
    assert(b >= 1);
    if attempt == 1 {
        let pw0 = pow_nat(b, 0);
        assert(pw0 == 1);
        assert(base * pw0 == base) by (nonlinear_arith)
            requires
                pw0 == 1,
        ;
    } else {
        lemma_unjittered_delay_exact(p, b, (attempt - 1) as nat);
        let prev = p.unjittered_delay((attempt - 1) as nat);
        let pw = pow_nat(b, (attempt - 2) as nat);
        let pw1 = pow_nat(b, (attempt - 1) as nat);
        let eb = p.exponential_base_milli as nat;
        assert(prev == min_n(base * pw, cap));
        assert(pw1 == b * pw);
        assert(prev * eb == 1000 * (prev * b)) by (nonlinear_arith)
            requires
                eb == 1000 * b,
        ;
        vstd::arithmetic::div_mod::lemma_div_multiples_vanish((prev * b) as int, 1000);
        assert(prev * eb / 1000 == prev * b);
        assert(p.unjittered_delay(attempt) == min_n(prev * b, cap));
        if base * pw <= cap {
            assert(prev == base * pw);
            assert(prev * b == base * pw1) by (nonlinear_arith)
                requires
                    prev == base * pw,
                    pw1 == b * pw,
            ;
        } else {
            assert(prev == cap);
            assert(cap * b >= cap) by (nonlinear_arith)
                requires
                    b >= 1,
            ;
            assert(base * pw1 >= base * pw) by (nonlinear_arith)
                requires
                    pw1 == b * pw,
                    b >= 1,
            ;
            assert(min_n(prev * b, cap) == cap);
            assert(min_n(base * pw1, cap) == cap);
        }
    }
}

/// Before jitter, the backoff delay never decreases from one attempt to
/// the next.
pub proof fn lemma_unjittered_delay_monotonic(p: RetryPolicy, a1: nat, a2: nat)
    requires
        p.wf(),
        a1 <= a2,
    ensures
        p.unjittered_delay(a1) <= p.unjittered_delay(a2),
    decreases a2 - a1,
{
    if a1 < a2 {
        lemma_unjittered_delay_monotonic(p, a1, (a2 - 1) as nat);
        let prev = p.unjittered_delay((a2 - 1) as nat);
        if a2 >= 2 {
            assert(prev * p.exponential_base_milli as nat >= prev * 1000) by (nonlinear_arith)
                requires
                    p.exponential_base_milli as nat >= 1000,
            ;
            assert(prev * 1000 / 1000 == prev);
            assert(prev * p.exponential_base_milli as nat / 1000 >= prev) by {
                vstd::arithmetic::div_mod::lemma_div_is_ordered(
                    (prev * 1000) as int,
                    (prev * p.exponential_base_milli as nat) as int,
                    1000,
                );
            }
            assert(prev <= p.max_delay_ms as nat);
        }
    }
}

/// The un-jittered delay never exceeds the policy's cap.
pub proof fn lemma_unjittered_delay_capped(p: RetryPolicy, attempt: nat)
    ensures
        p.unjittered_delay(attempt) <= p.max_delay_ms as nat,
{
}

/// Relies on `fastrand::u64`: a value drawn uniformly from the given
/// non-empty range, here `0..bound`.
#[verifier::external_body]
fn random_below(bound: u64) -> (r: u64)
    requires
        bound > 0,
    ensures
        r < bound,
{
    fastrand::u64(0..bound)
}

} // verus!
