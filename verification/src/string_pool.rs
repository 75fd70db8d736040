//! String-template utilities: positional placeholder discovery, the
//! sanitizing of header keys into identifiers, and a deterministic
//! string hash for derived constant names.

use vstd::prelude::*;
use crate::dynamic_params::spec_extract_placeholders;
use crate::text::{all_digits, digits_value, is_prefix_of, parse_u64, starts_with};

verus! {

/// The FNV-1a offset basis.
pub const FNV_OFFSET: u64 = 0xcbf29ce484222325;

/// The FNV-1a prime.
pub const FNV_PRIME: u64 = 0x100000001b3;

/// The positional index denoted by a placeholder name of the form
/// `param<digits>`, when the digits fit a `usize`.
pub open spec fn spec_param_index(ph: Seq<char>) -> Option<nat> {
    if is_prefix_of("param"@, ph) {
        let rest = ph.subrange("param"@.len() as int, ph.len() as int);
        if rest.len() > 0 && all_digits(rest) && digits_value(rest) <= usize::MAX {
            Some(digits_value(rest))
        } else {
            None
        }
    } else {
        None
    }
}

/// Whether some placeholder of the template denotes positional index `x`.
pub open spec fn spec_has_param_index(t: Seq<char>, x: nat) -> bool {
    exists|k: int|
        0 <= k < spec_extract_placeholders(t).len() && spec_param_index(
            #[trigger] spec_extract_placeholders(t)[k],
        ) == Some(x)
}

/// A strictly increasing sequence.
pub open spec fn strictly_sorted(s: Seq<usize>) -> bool {
    forall|a: int, b: int| 0 <= a < b < s.len() ==> s[a] < s[b]
}

/// The FNV-1a hash of a character sequence, folded left to right over
/// the characters' code points.
pub open spec fn spec_string_hash(s: Seq<char>) -> u64
    decreases s.len(),
{
    if s.len() == 0 {
        FNV_OFFSET
    } else {
        (((spec_string_hash(s.drop_last()) ^ (s.last() as u64)) as u128 * FNV_PRIME as u128)
            % 0x10000000000000000) as u64
    }
}

/// Names an outside property: which characters count as alphanumeric
/// for identifier sanitizing, a property of the character alone.
pub uninterp spec fn char_is_alphanumeric(c: char) -> bool;

/// Relies on `char::is_alphanumeric`: whether the character is a
/// Unicode letter or digit, depending on the character alone.
#[verifier::external_body]
fn is_alphanumeric_char(c: char) -> (r: bool)
    ensures
        r == char_is_alphanumeric(c),
{
    c.is_alphanumeric()
}

/// The sanitized form of a string: alphanumeric characters and
/// underscores kept, every other character replaced by an underscore.
pub open spec fn spec_sanitize(s: Seq<char>) -> Seq<char> {
    s.map_values(
        |c: char|
            if char_is_alphanumeric(c) || c == '_' {
                c
            } else {
                '_'
            },
    )
}

/// Utilities over URL and header templates: positional placeholder
/// extraction, identifier sanitizing, and a stable string hash.
pub struct StringPoolOptimizer;

impl StringPoolOptimizer {
    /// Returns the positional indices referenced by `param<N>`
    /// placeholders of the template, each once, in increasing order.
    pub fn extract_placeholders(template: &str) -> (r: Vec<usize>)
        ensures
            strictly_sorted(r@),
            forall|x: usize| r@.contains(x) <==> spec_has_param_index(template@, x as nat),
    {
        let phs: Vec<String> = crate::dynamic_params::DynamicParamsProcessor::extract_placeholders(
            template,
        );
        let mut r: Vec<usize> = Vec::new();
        let mut i: usize = 0;
        while i < phs.len()
            invariant
                phs@.len() == spec_extract_placeholders(template@).len(),
                forall|k: int|
                    0 <= k < phs@.len() ==> phs@[k]@ == spec_extract_placeholders(template@)[k],
                i <= phs@.len(),
                strictly_sorted(r@),
                forall|x: usize|
                    r@.contains(x) <==> exists|k: int|
                        0 <= k < i && spec_param_index(
                            #[trigger] spec_extract_placeholders(template@)[k],
                        ) == Some(x as nat),
            decreases phs@.len() - i,
        {
            match Self::param_index(phs[i].as_str()) {
                Some(x) => {
                    Self::insert_sorted(&mut r, x);
                },
                None => {
                    proof {
                        assert(spec_param_index(spec_extract_placeholders(template@)[i as int])
                            is None);
                    }
                },
            }
            proof {
                assert forall|x: usize|
                    r@.contains(x) <==> exists|k: int|
                        0 <= k < i + 1 && spec_param_index(
                            #[trigger] spec_extract_placeholders(template@)[k],
                        ) == Some(x as nat) by {};
            }
            i = i + 1;
        }
        r
    }

    /// Parses a placeholder name of the form `param<digits>`.
    fn param_index(ph: &str) -> (r: Option<usize>)
        ensures
            r is Some <==> spec_param_index(ph@) is Some,
            r is Some ==> r->Some_0 as nat == spec_param_index(ph@)->Some_0,
    {
        proof {
            reveal_strlit("param");
        }
        let len: usize = ph.unicode_len();
        if !starts_with(ph, "param") {
            return None;
        }
        let rest: &str = ph.substring_char(5, len);
        match parse_u64(rest) {
            Some(v) => if v <= usize::MAX as u64 {
                Some(v as usize)
            } else {
                None
            },
            None => None,
        }
    }

    /// Inserts `x` into a strictly sorted vector, keeping it strictly
    /// sorted; a value already present is not duplicated.
    fn insert_sorted(v: &mut Vec<usize>, x: usize)
        requires
            strictly_sorted(old(v)@),
        ensures
            strictly_sorted(final(v)@),
            forall|y: usize| final(v)@.contains(y) <==> (old(v)@.contains(y) || y == x),
    {
        let n: usize = v.len();
        let mut j: usize = 0;
        while j < n && v[j] < x
            invariant
                n == v@.len(),
                v@ == old(v)@,
                j <= n,
                forall|k: int| 0 <= k < j ==> v@[k] < x,
            decreases n - j,
        {
            j = j + 1;
        }
        if j < n && v[j] == x {
            proof {
                assert(old(v)@.contains(x));
                assert forall|y: usize| v@.contains(y) <==> (old(v)@.contains(y) || y == x) by {
                    if y == x {
                        assert(v@[j as int] == x);
                    }
                }
            }
            return;
        }
        proof {
            if j < n {
                assert(v@[j as int] > x);
            }
        }
        v.insert(j, x);
        proof {
            let newv = v@;
            let oldv = old(v)@;
            assert(newv.len() == oldv.len() + 1);
            assert(forall|k: int| 0 <= k < j ==> newv[k] == oldv[k]);
            assert(newv[j as int] == x);
            assert(forall|k: int| j < k < newv.len() ==> newv[k] == oldv[k - 1]);
            assert forall|a: int, b: int| 0 <= a < b < newv.len() implies newv[a] < newv[b] by {
                if a == j {
                    assert(newv[b] == oldv[b - 1]);
                    if b - 1 > j {
                        assert(oldv[j as int] < oldv[b - 1]);
                    }
                } else if b == j {
                    assert(newv[a] == oldv[a]);
                } else if a < j && b > j {
                    assert(newv[a] == oldv[a] && newv[b] == oldv[b - 1]);
                    if b - 1 > j - 1 && a < b - 1 {
                        assert(oldv[a] < oldv[b - 1]);
                    } else {
                        assert(a == b - 1 && a < j);
                        assert(oldv[a] < x);
                    }
                } else if b < j {
                    assert(oldv[a] < oldv[b]);
                } else {
                    assert(a > j);
                    assert(oldv[a - 1] < oldv[b - 1]);
                }
            }
            assert forall|y: usize| newv.contains(y) implies (oldv.contains(y) || y == x) by {
                let k = choose|k: int| 0 <= k < newv.len() && newv[k] == y;
                if k < j {
                    assert(oldv[k] == y);
                } else if k > j {
                    assert(oldv[k - 1] == y);
                }
            }
            assert forall|y: usize| (oldv.contains(y) || y == x) implies newv.contains(y) by {
                if y == x {
                    assert(newv[j as int] == y);
                } else {
                    let k = choose|k: int| 0 <= k < oldv.len() && oldv[k] == y;
                    if k < j {
                        assert(newv[k] == y);
                    } else {
                        assert(newv[k + 1] == y);
                    }
                }
            }
        }
    }

    /// Returns the string with every character that is neither
    /// alphanumeric nor an underscore replaced by an underscore.
    pub fn sanitize_identifier(s: &str) -> (r: String)
        ensures
            r@ == spec_sanitize(s@),
    {
        let len: usize = s.unicode_len();
        let mut out: String = String::new();
        let mut i: usize = 0;
        while i < len
            invariant
                len == s@.len(),
                i <= len,
                out@ == spec_sanitize(s@).subrange(0, i as int),
            decreases len - i,
        {
            let c: char = s.get_char(i);
            if is_alphanumeric_char(c) || c == '_' {
                let one: &str = s.substring_char(i, i + 1);
                proof {
                    assert(one@ =~= seq![s@[i as int]]);
                }
                out.append(one);
            } else {
                proof {
                    reveal_strlit("_");
                }
                out.append("_");
            }
            proof {
                assert(out@ =~= spec_sanitize(s@).subrange(0, i as int + 1));
            }
            i = i + 1;
        }
        proof {
            assert(spec_sanitize(s@).subrange(0, len as int) =~= spec_sanitize(s@));
        }
        out
    }

    /// Returns the FNV-1a hash of the string, a deterministic function
    /// of its characters, used to derive stable constant names.
    pub fn hash_string(s: &str) -> (r: u64)
        ensures
            r == spec_string_hash(s@),
    {
        let len: usize = s.unicode_len();
        let mut h: u64 = FNV_OFFSET;
        let mut i: usize = 0;
        while i < len
            invariant
                len == s@.len(),
                i <= len,
                h == spec_string_hash(s@.subrange(0, i as int)),
            decreases len - i,
        {
            let c: char = s.get_char(i);
            let mixed: u64 = h ^ (c as u64);
            let wide: u128 = (mixed as u128) * (FNV_PRIME as u128);
            h = #[verifier::truncate] ((wide % 0x10000000000000000) as u64);
            proof {
                let pre = s@.subrange(0, i as int + 1);
                assert(pre.drop_last() =~= s@.subrange(0, i as int));
                assert(pre.last() == s@[i as int]);
            }
            i = i + 1;
        }
        proof {
            assert(s@.subrange(0, len as int) =~= s@);
        }
        h
    }
}

} // verus!
