//! Parser for retry-policy literals such as
//! `exponential(max_attempts=3, base_delay=100ms)`,
//! `exponential(3, 100ms)` and `fixed(max_attempts=5, delay=200ms)`.
//!
//! Durations carry an `ms` or `s` suffix. A literal either names every
//! parameter (`key=value`) or names none (the short positional form);
//! mixing the two forms is rejected, as are unknown keys and malformed
//! values, all at configuration time.

use vstd::prelude::*;
use crate::retry::{RetryPolicy, spec_default_policy, MAX_DELAY_CEILING_MS};
use crate::text::{
    all_digits, digits_value, digit_value, find_char, find_first, is_prefix_of, parse_u64,
    spec_trim, starts_with, str_eq, trim,
};

verus! {

/// A parsed retry configuration together with the literal it came from.
#[derive(Debug, Clone)]
pub struct RetryConfig {
    pub policy: RetryPolicy,
    pub raw_config: String,
}

/// The milliseconds denoted by a trimmed duration token: digits followed
/// by `ms`, or digits followed by `s` (scaled by 1000). Values above
/// `MAX_DELAY_CEILING_MS` and bare numbers without a unit denote nothing.
pub open spec fn spec_duration_ms(s: Seq<char>) -> Option<nat> {
    if s.len() >= 3 && s[s.len() - 2] == 'm' && s[s.len() - 1] == 's' {
        let num = s.subrange(0, s.len() - 2);
        if all_digits(num) && digits_value(num) <= MAX_DELAY_CEILING_MS {
            Some(digits_value(num))
        } else {
            None
        }
    } else if s.len() >= 2 && s[s.len() - 1] == 's' {
        let num = s.subrange(0, s.len() - 1);
        if all_digits(num) && digits_value(num) * 1000 <= MAX_DELAY_CEILING_MS {
            Some(digits_value(num) * 1000)
        } else {
            None
        }
    } else {
        None
    }
}

/// The thousandths denoted by the first three fractional digits of a
/// decimal number; further digits are beyond the stored precision and
/// are dropped.
pub open spec fn frac_milli(f: Seq<char>) -> nat {
    ((if f.len() >= 1 {
        digit_value(f[0]).unwrap_or(0) * 100
    } else {
        0
    }) + (if f.len() >= 2 {
        digit_value(f[1]).unwrap_or(0) * 10
    } else {
        0
    }) + (if f.len() >= 3 {
        digit_value(f[2]).unwrap_or(0)
    } else {
        0
    })) as nat
}

/// The thousandths denoted by a trimmed decimal token: `digits` or
/// `digits.digits`, with the whole part at most `u32::MAX`.
pub open spec fn spec_decimal_milli(s: Seq<char>) -> Option<nat> {
    match find_char(s, '.') {
        None => if s.len() > 0 && all_digits(s) && digits_value(s) <= u32::MAX {
            Some(digits_value(s) * 1000)
        } else {
            None
        },
        Some(i) => {
            let whole = s.subrange(0, i as int);
            let frac = s.subrange(i as int + 1, s.len() as int);
            if whole.len() > 0 && all_digits(whole) && frac.len() > 0 && all_digits(frac)
                && digits_value(whole) <= u32::MAX {
                Some(digits_value(whole) * 1000 + frac_milli(frac))
            } else {
                None
            }
        },
    }
}

/// The effect of one `key=value` parameter of an `exponential(...)`
/// literal on a policy; none for an unknown key, a malformed value, a
/// growth factor below one, a jitter ratio above one, or a segment
/// without `=`.
pub open spec fn spec_apply_exp_param(p: RetryPolicy, seg: Seq<char>) -> Option<RetryPolicy> {
    let t = spec_trim(seg);
    match find_char(t, '=') {
        None => None,
        Some(i) => {
            let key = spec_trim(t.subrange(0, i as int));
            let value = spec_trim(t.subrange(i as int + 1, t.len() as int));
            if key == "max_attempts"@ {
                if value.len() > 0 && all_digits(value) && digits_value(value) <= u32::MAX {
                    Some(RetryPolicy { max_attempts: digits_value(value) as u32, ..p })
                } else {
                    None
                }
            } else if key == "base_delay"@ {
                match spec_duration_ms(value) {
                    Some(v) => Some(RetryPolicy { base_delay_ms: v as u64, ..p }),
                    None => None,
                }
            } else if key == "max_delay"@ {
                match spec_duration_ms(value) {
                    Some(v) => Some(RetryPolicy { max_delay_ms: v as u64, ..p }),
                    None => None,
                }
            } else if key == "exponential_base"@ {
                match spec_decimal_milli(value) {
                    Some(v) => if v >= 1000 {
                        Some(RetryPolicy { exponential_base_milli: v as u64, ..p })
                    } else {
                        None
                    },
                    None => None,
                }
            } else if key == "jitter_ratio"@ {
                match spec_decimal_milli(value) {
                    Some(v) => if v <= 1000 {
                        Some(RetryPolicy { jitter_ratio_milli: v as u64, ..p })
                    } else {
                        None
                    },
                    None => None,
                }
            } else if key == "idempotent_only"@ {
                if value == "true"@ {
                    Some(RetryPolicy { idempotent_only: true, ..p })
                } else if value == "false"@ {
                    Some(RetryPolicy { idempotent_only: false, ..p })
                } else {
                    None
                }
            } else {
                None
            }
        },
    }
}

/// The named parameters of an `exponential(...)` literal, applied left to
/// right to `p`.
pub open spec fn spec_exp_named(body: Seq<char>, p: RetryPolicy) -> Option<RetryPolicy>
    decreases body.len(),
    via spec_exp_named_decreases
{
    match find_char(body, ',') {
        None => spec_apply_exp_param(p, body),
        Some(i) => match spec_apply_exp_param(p, body.subrange(0, i as int)) {
            None => None,
            Some(updated) => spec_exp_named(body.subrange(i as int + 1, body.len() as int), updated),
        },
    }
}

#[via_fn]
proof fn spec_exp_named_decreases(body: Seq<char>, p: RetryPolicy) {
    crate::text::lemma_find_char_props(body, ',');
}

/// The short positional form `exponential(max_attempts)` or
/// `exponential(max_attempts, base_delay)`, over the default policy.
pub open spec fn spec_exp_positional(body: Seq<char>) -> Option<RetryPolicy> {
    match find_char(body, ',') {
        None => {
            let ma = spec_trim(body);
            if ma.len() > 0 && all_digits(ma) && digits_value(ma) <= u32::MAX {
                Some(
                    RetryPolicy { max_attempts: digits_value(ma) as u32, ..spec_default_policy() },
                )
            } else {
                None
            }
        },
        Some(i) => {
            let rest = body.subrange(i as int + 1, body.len() as int);
            if find_char(rest, ',') is Some {
                None
            } else {
                let ma = spec_trim(body.subrange(0, i as int));
                let bd = spec_duration_ms(spec_trim(rest));
                if ma.len() > 0 && all_digits(ma) && digits_value(ma) <= u32::MAX && bd is Some {
                    Some(
                        RetryPolicy {
                            max_attempts: digits_value(ma) as u32,
                            base_delay_ms: bd->Some_0 as u64,
                            ..spec_default_policy()
                        },
                    )
                } else {
                    None
                }
            }
        },
    }
}

/// The parameter list of an `exponential(...)` literal: named throughout
/// when its first segment carries `=`, positional throughout otherwise.
pub open spec fn spec_parse_exponential(body: Seq<char>) -> Option<RetryPolicy> {
    let first = match find_char(body, ',') {
        None => body,
        Some(i) => body.subrange(0, i as int),
    };
    if find_char(spec_trim(first), '=') is Some {
        spec_exp_named(body, spec_default_policy())
    } else {
        spec_exp_positional(body)
    }
}

/// The policy a `fixed(...)` literal starts from: the default with no
/// backoff growth.
pub open spec fn spec_fixed_start() -> RetryPolicy {
    RetryPolicy { exponential_base_milli: 1000, ..spec_default_policy() }
}

/// The effect of one `key=value` parameter of a `fixed(...)` literal on
/// policy and seen-keys state; only `max_attempts` and `delay` are known.
pub open spec fn spec_apply_fixed_param(st: (RetryPolicy, bool, bool), seg: Seq<char>) -> Option<
    (RetryPolicy, bool, bool),
> {
    let t = spec_trim(seg);
    match find_char(t, '=') {
        None => None,
        Some(i) => {
            let key = spec_trim(t.subrange(0, i as int));
            let value = spec_trim(t.subrange(i as int + 1, t.len() as int));
            if key == "max_attempts"@ {
                if value.len() > 0 && all_digits(value) && digits_value(value) <= u32::MAX {
                    Some(
                        (
                            RetryPolicy { max_attempts: digits_value(value) as u32, ..st.0 },
                            true,
                            st.2,
                        ),
                    )
                } else {
                    None
                }
            } else if key == "delay"@ {
                match spec_duration_ms(value) {
                    Some(v) => Some(
                        (
                            RetryPolicy {
                                base_delay_ms: v as u64,
                                max_delay_ms: v as u64,
                                ..st.0
                            },
                            st.1,
                            true,
                        ),
                    ),
                    None => None,
                }
            } else {
                None
            }
        },
    }
}

/// The named parameters of a `fixed(...)` literal, applied left to right.
pub open spec fn spec_fixed_named(body: Seq<char>, st: (RetryPolicy, bool, bool)) -> Option<
    (RetryPolicy, bool, bool),
>
    decreases body.len(),
    via spec_fixed_named_decreases
{
    match find_char(body, ',') {
        None => spec_apply_fixed_param(st, body),
        Some(i) => match spec_apply_fixed_param(st, body.subrange(0, i as int)) {
            None => None,
            Some(st2) => spec_fixed_named(body.subrange(i as int + 1, body.len() as int), st2),
        },
    }
}

#[via_fn]
proof fn spec_fixed_named_decreases(body: Seq<char>, st: (RetryPolicy, bool, bool)) {
    crate::text::lemma_find_char_props(body, ',');
}

/// The parameter list of a `fixed(...)` literal; both `max_attempts` and
/// `delay` must appear.
pub open spec fn spec_parse_fixed(body: Seq<char>) -> Option<RetryPolicy> {
    match spec_fixed_named(body, (spec_fixed_start(), false, false)) {
        Some(st) => if st.1 && st.2 {
            Some(st.0)
        } else {
            None
        },
        None => None,
    }
}

/// The policy denoted by a whole retry literal, if any: after trimming,
/// `exponential(<params>)` or `fixed(<params>)`.
pub open spec fn spec_parse_policy(s: Seq<char>) -> Option<RetryPolicy> {
    let t = spec_trim(s);
    if t.len() >= 13 && is_prefix_of("exponential("@, t) && t[t.len() - 1] == ')' {
        spec_parse_exponential(t.subrange(12, t.len() - 1))
    } else if t.len() >= 7 && is_prefix_of("fixed("@, t) && t[t.len() - 1] == ')' {
        spec_parse_fixed(t.subrange(6, t.len() - 1))
    } else {
        None
    }
}

impl RetryConfig {
    /// Parses a retry literal; on success the parsed policy is returned
    /// together with the literal itself, and always satisfies the bounds
    /// `RetryPolicy::wf` under which delays are computed.
    pub fn parse(config_str: &str) -> (r: Result<RetryConfig, String>)
        ensures
            r is Ok <==> spec_parse_policy(config_str@) is Some,
            r is Ok ==> r->Ok_0.policy == spec_parse_policy(config_str@)->Some_0,
            r is Ok ==> r->Ok_0.raw_config@ == config_str@,
            r is Ok ==> r->Ok_0.policy.wf(),
    {
        match Self::parse_policy_string(config_str) {
            Ok(policy) => Ok(RetryConfig { policy, raw_config: config_str.to_owned() }),
            Err(e) => Err(e),
        }
    }

    /// Parses a retry literal into a bare policy.
    pub fn parse_policy_string(config: &str) -> (r: Result<RetryPolicy, String>)
        ensures
            r is Ok <==> spec_parse_policy(config@) is Some,
            r is Ok ==> r->Ok_0 == spec_parse_policy(config@)->Some_0,
            r is Ok ==> r->Ok_0.wf(),
    {
        proof {
            reveal_strlit("exponential(");
            reveal_strlit("fixed(");
        }
        let t: &str = trim(config);
        let len: usize = t.unicode_len();
        if len >= 13 && starts_with(t, "exponential(") && t.get_char(len - 1) == ')' {
            let body: &str = t.substring_char(12, len - 1);
            Self::parse_exponential_config(body)
        } else if len >= 7 && starts_with(t, "fixed(") && t.get_char(len - 1) == ')' {
            let body: &str = t.substring_char(6, len - 1);
            Self::parse_fixed_config(body)
        } else {
            Err("unsupported retry config format; expected exponential(...) or fixed(...)".to_owned())
        }
    }

    /// Parses the parameter list of an `exponential(...)` literal.
    fn parse_exponential_config(params: &str) -> (r: Result<RetryPolicy, String>)
        ensures
            r is Ok <==> spec_parse_exponential(params@) is Some,
            r is Ok ==> r->Ok_0 == spec_parse_exponential(params@)->Some_0,
            r is Ok ==> r->Ok_0.wf(),
    {
        let len: usize = params.unicode_len();
        let first: &str = match find_first(params, ',') {
            None => params.substring_char(0, len),
            Some(i) => params.substring_char(0, i),
        };
        proof {
            assert(params@.subrange(0, params@.len() as int) =~= params@);
        }
        let first_trimmed: &str = trim(first);
        if find_first(first_trimmed, '=').is_some() {
            let dflt: RetryPolicy = Default::default();
            Self::parse_exp_named(params, &dflt)
        } else {
            Self::parse_exp_positional(params)
        }
    }

    /// Applies the named parameters of an `exponential(...)` literal,
    /// left to right.
    fn parse_exp_named(body: &str, p: &RetryPolicy) -> (r: Result<RetryPolicy, String>)
        ensures
            r is Ok <==> spec_exp_named(body@, *p) is Some,
            r is Ok ==> r->Ok_0 == spec_exp_named(body@, *p)->Some_0,
            p.wf() && r is Ok ==> r->Ok_0.wf(),
        decreases body@.len(),
    {
        let len: usize = body.unicode_len();
        match find_first(body, ',') {
            None => Self::apply_exp_param(p, body),
            Some(i) => {
                let seg: &str = body.substring_char(0, i);
                match Self::apply_exp_param(p, seg) {
                    Err(e) => Err(e),
                    Ok(updated) => {
                        let rest: &str = body.substring_char(i + 1, len);
                        Self::parse_exp_named(rest, &updated)
                    },
                }
            },
        }
    }

    /// Parses the short positional form of an `exponential(...)` literal:
    /// the attempt count, optionally followed by the base delay.
    fn parse_exp_positional(body: &str) -> (r: Result<RetryPolicy, String>)
        ensures
            r is Ok <==> spec_exp_positional(body@) is Some,
            r is Ok ==> r->Ok_0 == spec_exp_positional(body@)->Some_0,
            r is Ok ==> r->Ok_0.wf(),
    {
        let len: usize = body.unicode_len();
        match find_first(body, ',') {
            None => {
                let ma: Option<u32> = Self::parse_attempts(body);
                proof {
                    assert(body@.subrange(0, body@.len() as int) =~= body@);
                }
                match ma {
                    Some(n) => Ok(RetryPolicy { max_attempts: n, ..Default::default() }),
                    None => Err("invalid max_attempts in retry config".to_owned()),
                }
            },
            Some(i) => {
                let rest: &str = body.substring_char(i + 1, len);
                if find_first(rest, ',').is_some() {
                    return Err(
                        "too many positional parameters in retry config; use key=value form".to_owned(),
                    );
                }
                let head: &str = body.substring_char(0, i);
                let ma: Option<u32> = Self::parse_attempts(head);
                match ma {
                    Some(n) => match Self::parse_duration(rest) {
                        Ok(bd) => Ok(
                            RetryPolicy {
                                max_attempts: n,
                                base_delay_ms: bd,
                                ..Default::default()
                            },
                        ),
                        Err(e) => Err(e),
                    },
                    None => Err("invalid max_attempts in retry config".to_owned()),
                }
            },
        }
    }

    /// Parses a trimmed attempt count: decimal digits fitting a `u32`.
    fn parse_attempts(s: &str) -> (r: Option<u32>)
        ensures
            r is Some <==> (spec_trim(s@).len() > 0 && all_digits(spec_trim(s@)) && digits_value(
                spec_trim(s@),
            ) <= u32::MAX),
            r is Some ==> r->Some_0 as nat == digits_value(spec_trim(s@)),
    {
        let t: &str = trim(s);
        match parse_u64(t) {
            Some(v) => if v <= u32::MAX as u64 {
                Some(v as u32)
            } else {
                None
            },
            None => None,
        }
    }

    /// Applies one `key=value` parameter of an `exponential(...)` literal.
    fn apply_exp_param(p: &RetryPolicy, seg: &str) -> (r: Result<RetryPolicy, String>)
        ensures
            r is Ok <==> spec_apply_exp_param(*p, seg@) is Some,
            r is Ok ==> r->Ok_0 == spec_apply_exp_param(*p, seg@)->Some_0,
            p.wf() && r is Ok ==> r->Ok_0.wf(),
    {
        let t: &str = trim(seg);
        let t_len: usize = t.unicode_len();
        let eq: Option<usize> = find_first(t, '=');
        match eq {
            None => Err("expected key=value parameter in retry config".to_owned()),
            Some(i) => {
                let key: &str = trim(t.substring_char(0, i));
                let value: &str = trim(t.substring_char(i + 1, t_len));
                if str_eq(key, "max_attempts") {
                    match parse_u64(value) {
                        Some(v) => if v <= u32::MAX as u64 {
                            Ok(RetryPolicy { max_attempts: v as u32, ..*p })
                        } else {
                            Err("invalid max_attempts value".to_owned())
                        },
                        None => Err("invalid max_attempts value".to_owned()),
                    }
                } else if str_eq(key, "base_delay") {
                    match Self::parse_duration(value) {
                        Ok(v) => Ok(RetryPolicy { base_delay_ms: v, ..*p }),
                        Err(e) => Err(e),
                    }
                } else if str_eq(key, "max_delay") {
                    match Self::parse_duration(value) {
                        Ok(v) => Ok(RetryPolicy { max_delay_ms: v, ..*p }),
                        Err(e) => Err(e),
                    }
                } else if str_eq(key, "exponential_base") {
                    match Self::parse_decimal_milli(value) {
                        Some(v) => if v >= 1000 {
                            Ok(RetryPolicy { exponential_base_milli: v, ..*p })
                        } else {
                            Err("exponential_base must be at least 1.0".to_owned())
                        },
                        None => Err("invalid exponential_base value".to_owned()),
                    }
                } else if str_eq(key, "jitter_ratio") {
                    match Self::parse_decimal_milli(value) {
                        Some(v) => if v <= 1000 {
                            Ok(RetryPolicy { jitter_ratio_milli: v, ..*p })
                        } else {
                            Err("jitter_ratio must be at most 1.0".to_owned())
                        },
                        None => Err("invalid jitter_ratio value".to_owned()),
                    }
                } else if str_eq(key, "idempotent_only") {
                    if str_eq(value, "true") {
                        Ok(RetryPolicy { idempotent_only: true, ..*p })
                    } else if str_eq(value, "false") {
                        Ok(RetryPolicy { idempotent_only: false, ..*p })
                    } else {
                        Err("invalid idempotent_only value".to_owned())
                    }
                } else {
                    Err("unknown parameter in retry config".to_owned())
                }
            },
        }
    }

    /// Parses the parameter list of a `fixed(...)` literal.
    fn parse_fixed_config(params: &str) -> (r: Result<RetryPolicy, String>)
        ensures
            r is Ok <==> spec_parse_fixed(params@) is Some,
            r is Ok ==> r->Ok_0 == spec_parse_fixed(params@)->Some_0,
            r is Ok ==> r->Ok_0.wf(),
    {
        let start: RetryPolicy = RetryPolicy {
            exponential_base_milli: 1000,
            ..Default::default()
        };
        match Self::parse_fixed_named(params, &start, false, false) {
            Ok((p, seen_ma, seen_delay)) => if seen_ma && seen_delay {
                Ok(p)
            } else {
                Err("fixed retry config requires both max_attempts and delay".to_owned())
            },
            Err(e) => Err(e),
        }
    }

    /// Applies the named parameters of a `fixed(...)` literal, left to
    /// right, tracking which of the two required keys have appeared.
    fn parse_fixed_named(body: &str, p: &RetryPolicy, seen_ma: bool, seen_delay: bool) -> (r:
        Result<(RetryPolicy, bool, bool), String>)
        ensures
            r is Ok <==> spec_fixed_named(body@, (*p, seen_ma, seen_delay)) is Some,
            r is Ok ==> {
                let st = spec_fixed_named(body@, (*p, seen_ma, seen_delay))->Some_0;
                r->Ok_0.0 == st.0 && r->Ok_0.1 == st.1 && r->Ok_0.2 == st.2
            },
            p.wf() && r is Ok ==> r->Ok_0.0.wf(),
        decreases body@.len(),
    {
        let len: usize = body.unicode_len();
        match find_first(body, ',') {
            None => Self::apply_fixed_param(p, seen_ma, seen_delay, body),
            Some(i) => {
                let seg: &str = body.substring_char(0, i);
                match Self::apply_fixed_param(p, seen_ma, seen_delay, seg) {
                    Err(e) => Err(e),
                    Ok((updated, ma_seen, delay_seen)) => {
                        let rest: &str = body.substring_char(i + 1, len);
                        Self::parse_fixed_named(rest, &updated, ma_seen, delay_seen)
                    },
                }
            },
        }
    }

    /// Applies one `key=value` parameter of a `fixed(...)` literal.
    fn apply_fixed_param(p: &RetryPolicy, seen_ma: bool, seen_delay: bool, seg: &str) -> (r:
        Result<(RetryPolicy, bool, bool), String>)
        ensures
            r is Ok <==> spec_apply_fixed_param((*p, seen_ma, seen_delay), seg@) is Some,
            r is Ok ==> {
                let st = spec_apply_fixed_param((*p, seen_ma, seen_delay), seg@)->Some_0;
                r->Ok_0.0 == st.0 && r->Ok_0.1 == st.1 && r->Ok_0.2 == st.2
            },
            p.wf() && r is Ok ==> r->Ok_0.0.wf(),
    {
        let t: &str = trim(seg);
        let t_len: usize = t.unicode_len();
        match find_first(t, '=') {
            None => Err("expected key=value parameter in retry config".to_owned()),
            Some(i) => {
                let key: &str = trim(t.substring_char(0, i));
                let value: &str = trim(t.substring_char(i + 1, t_len));
                if str_eq(key, "max_attempts") {
                    match parse_u64(value) {
                        Some(v) => if v <= u32::MAX as u64 {
                            Ok((RetryPolicy { max_attempts: v as u32, ..*p }, true, seen_delay))
                        } else {
                            Err("invalid max_attempts value".to_owned())
                        },
                        None => Err("invalid max_attempts value".to_owned()),
                    }
                } else if str_eq(key, "delay") {
                    match Self::parse_duration(value) {
                        Ok(v) => Ok(
                            (
                                RetryPolicy { base_delay_ms: v, max_delay_ms: v, ..*p },
                                seen_ma,
                                true,
                            ),
                        ),
                        Err(e) => Err(e),
                    }
                } else {
                    Err("unknown parameter in fixed retry config".to_owned())
                }
            },
        }
    }

    /// Parses a duration literal: digits suffixed `ms` for milliseconds
    /// or `s` for seconds. A bare number has no unit and is rejected.
    pub fn parse_duration(duration_str: &str) -> (r: Result<u64, String>)
        ensures
            r is Ok <==> spec_duration_ms(spec_trim(duration_str@)) is Some,
            r is Ok ==> r->Ok_0 as nat == spec_duration_ms(spec_trim(duration_str@))->Some_0,
            r is Ok ==> r->Ok_0 <= MAX_DELAY_CEILING_MS,
    {
        let t: &str = trim(duration_str);
        let len: usize = t.unicode_len();
        if len >= 3 && t.get_char(len - 2) == 'm' && t.get_char(len - 1) == 's' {
            let num: &str = t.substring_char(0, len - 2);
            match parse_u64(num) {
                Some(v) => if v <= MAX_DELAY_CEILING_MS {
                    Ok(v)
                } else {
                    Err("duration too large".to_owned())
                },
                None => Err("invalid milliseconds value".to_owned()),
            }
        } else if len >= 2 && t.get_char(len - 1) == 's' {
            let num: &str = t.substring_char(0, len - 1);
            match parse_u64(num) {
                Some(v) => if v <= MAX_DELAY_CEILING_MS / 1000 {
                    proof {
                        assert(
                            digits_value(t@.subrange(0, t@.len() - 1)) * 1000
                                <= MAX_DELAY_CEILING_MS
                        ) by (nonlinear_arith)
                            requires
                                digits_value(t@.subrange(0, t@.len() - 1)) <= MAX_DELAY_CEILING_MS
                                    as nat / 1000,
                                MAX_DELAY_CEILING_MS as nat / 1000 * 1000 <= MAX_DELAY_CEILING_MS,
                        ;
                    }
                    Ok(v * 1000)
                } else {
                    proof {
                        assert(
                            digits_value(t@.subrange(0, t@.len() - 1)) * 1000
                                > MAX_DELAY_CEILING_MS
                        ) by (nonlinear_arith)
                            requires
                                digits_value(t@.subrange(0, t@.len() - 1)) > MAX_DELAY_CEILING_MS
                                    as nat / 1000,
                                MAX_DELAY_CEILING_MS < (MAX_DELAY_CEILING_MS as nat / 1000 + 1)
                                    * 1000,
                        ;
                    }
                    Err("duration too large".to_owned())
                },
                None => Err("invalid seconds value".to_owned()),
            }
        } else {
            Err("invalid duration; expected an ms or s suffix".to_owned())
        }
    }

    /// Parses a decimal literal into thousandths: `digits` or
    /// `digits.digits`, keeping three fractional digits of precision.
    fn parse_decimal_milli(s: &str) -> (r: Option<u64>)
        ensures
            r is Some <==> spec_decimal_milli(s@) is Some,
            r is Some ==> r->Some_0 as nat == spec_decimal_milli(s@)->Some_0,
    {
        let len: usize = s.unicode_len();
        match find_first(s, '.') {
            None => {
                proof {
                    assert(s@.subrange(0, s@.len() as int) =~= s@);
                }
                match parse_u64(s.substring_char(0, len)) {
                    Some(v) => if v <= u32::MAX as u64 {
                        Some(v * 1000)
                    } else {
                        None
                    },
                    None => None,
                }
            },
            Some(i) => {
                let whole: &str = s.substring_char(0, i);
                let frac: &str = s.substring_char(i + 1, len);
                match parse_u64(whole) {
                    Some(v) => if v <= u32::MAX as u64 {
                        match Self::frac_digits_milli(frac) {
                            Some(f) => Some(v * 1000 + f as u64),
                            None => None,
                        }
                    } else {
                        None
                    },
                    None => None,
                }
            },
        }
    }

    /// The thousandths denoted by a fractional-digit string; fails unless
    /// the string is one or more digits.
    fn frac_digits_milli(f: &str) -> (r: Option<u32>)
        ensures
            r is Some <==> (f@.len() > 0 && all_digits(f@)),
            r is Some ==> r->Some_0 as nat == frac_milli(f@),
    {
        let len: usize = f.unicode_len();
        if len == 0 {
            return None;
        }
        let mut i: usize = 0;
        while i < len
            invariant
                len == f@.len(),
                i <= len,
                all_digits(f@.subrange(0, i as int)),
            decreases len - i,
        {
            let c: char = f.get_char(i);
            if c < '0' || c > '9' {
                assert(digit_value(f@[i as int]) is None);
                return None;
            }
            proof {
                let pre = f@.subrange(0, i as int + 1);
                assert(forall|j: int| 0 <= j < pre.len() ==> pre[j] == f@[j]);
            }
            i = i + 1;
        }
        proof {
            assert(f@.subrange(0, len as int) =~= f@);
        }
        let d0: u32 = f.get_char(0) as u32 - '0' as u32;
        let mut milli: u32 = d0 * 100;
        if len >= 2 {
            let d1: u32 = f.get_char(1) as u32 - '0' as u32;
            milli = milli + d1 * 10;
        }
        if len >= 3 {
            let d2: u32 = f.get_char(2) as u32 - '0' as u32;
            milli = milli + d2;
        }
        Some(milli)
    }
}

} // verus!
