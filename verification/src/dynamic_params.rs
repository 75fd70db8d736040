//! The parameter resolver: placeholders of the form `{name}` or
//! `{paramN}` in URL and header templates are replaced by call
//! arguments in one linear pass, so a substituted value is never
//! re-interpreted. Every argument is reachable both under its declared
//! name and under its zero-based positional key.

use vstd::prelude::*;
use crate::error::TemplateError;
use crate::text::{find_char, find_first, lemma_find_char_props, spec_u64_string, str_eq,
    u64_to_string};

verus! {

/// An ephemeral, per-call mapping of name keys and position keys to
/// argument values; later entries shadow earlier ones.
pub struct ParamBindings {
    pub pairs: Vec<(String, String)>,
}

/// The value bound to `key`, with the latest binding winning.
pub open spec fn spec_lookup(pairs: Seq<(Seq<char>, Seq<char>)>, key: Seq<char>) -> Option<
    Seq<char>,
>
    decreases pairs.len(),
{
    if pairs.len() == 0 {
        None
    } else if pairs.last().0 == key {
        Some(pairs.last().1)
    } else {
        spec_lookup(pairs.drop_last(), key)
    }
}

/// The positional key of the argument at index `i`: `param` followed by
/// the decimal index.
pub open spec fn spec_param_key(i: nat) -> Seq<char> {
    "param"@ + spec_u64_string(i)
}

/// The binding list for the given argument names and values: each
/// argument under its name and under its positional key, in order.
pub open spec fn spec_bindings(names: Seq<Seq<char>>, values: Seq<Seq<char>>) -> Seq<
    (Seq<char>, Seq<char>),
>
    decreases names.len(),
{
    if names.len() == 0 {
        Seq::empty()
    } else {
        spec_bindings(names.drop_last(), values.drop_last()) + seq![
            (names.last(), values.last()),
            (spec_param_key((names.len() - 1) as nat), values.last()),
        ]
    }
}

impl ParamBindings {
    /// The mapping as a sequence of key-value pairs.
    pub open spec fn view(&self) -> Seq<(Seq<char>, Seq<char>)> {
        self.pairs@.map_values(|p: (String, String)| (p.0@, p.1@))
    }

    /// Builds the bindings for ordered call arguments: each value is
    /// registered under its declared name and under `paramN` for its
    /// zero-based position.
    pub fn build(names: &Vec<String>, values: &Vec<String>) -> (r: ParamBindings)
        requires
            names@.len() == values@.len(),
        ensures
            r@ == spec_bindings(
                names@.map_values(|s: String| s@),
                values@.map_values(|s: String| s@),
            ),
    {
        let ghost gnames = names@.map_values(|s: String| s@);
        let ghost gvalues = values@.map_values(|s: String| s@);
        let mut pairs: Vec<(String, String)> = Vec::new();
        let n: usize = names.len();
        let mut i: usize = 0;
        while i < n
            invariant
                n == names@.len(),
                names@.len() == values@.len(),
                gnames == names@.map_values(|s: String| s@),
                gvalues == values@.map_values(|s: String| s@),
                i <= n,
                pairs@.map_values(|p: (String, String)| (p.0@, p.1@)) == spec_bindings(
                    gnames.subrange(0, i as int),
                    gvalues.subrange(0, i as int),
                ),
            decreases n - i,
        {
            let name: String = names[i].clone();
            let value: String = values[i].clone();
            let mut key: String = "param".to_owned();
            key.append(u64_to_string(i as u64).as_str());
            let value2: String = values[i].clone();
            pairs.push((name, value));
            pairs.push((key, value2));
            proof {
                let pre = gnames.subrange(0, i as int);
                let prev = gvalues.subrange(0, i as int);
                let cur = gnames.subrange(0, i as int + 1);
                let curv = gvalues.subrange(0, i as int + 1);
                assert(cur.drop_last() =~= pre);
                assert(curv.drop_last() =~= prev);
                assert(cur.last() == gnames[i as int]);
                assert(curv.last() == gvalues[i as int]);
                assert(pairs@.map_values(|p: (String, String)| (p.0@, p.1@)) =~= spec_bindings(
                    cur,
                    curv,
                ));
            }
            i = i + 1;
        }
        proof {
            assert(gnames.subrange(0, n as int) =~= gnames);
            assert(gvalues.subrange(0, n as int) =~= gvalues);
        }
        ParamBindings { pairs }
    }

    /// Returns the value bound to `key`, the latest binding winning.
    pub fn lookup(&self, key: &str) -> (r: Option<&String>)
        ensures
            r is Some <==> spec_lookup(self@, key@) is Some,
            r is Some ==> r->Some_0@ == spec_lookup(self@, key@)->Some_0,
    {
        let n: usize = self.pairs.len();
        proof {
            assert(self@.subrange(0, n as int) =~= self@);
        }
        let mut i: usize = n;
        while i > 0
            invariant
                n == self.pairs@.len(),
                i <= n,
                spec_lookup(self@, key@) == spec_lookup(self@.subrange(0, i as int), key@),
            decreases i,
        {
            i = i - 1;
            if str_eq(self.pairs[i].0.as_str(), key) {
                proof {
                    let pre = self@.subrange(0, i as int + 1);
                    assert(pre.last() == self@[i as int]);
                }
                return Some(&self.pairs[i].1);
            }
            proof {
                let pre = self@.subrange(0, i as int + 1);
                assert(pre.last() == self@[i as int]);
                assert(pre.drop_last() =~= self@.subrange(0, i as int));
            }
        }
        proof {
            assert(self@.subrange(0, 0) =~= Seq::<(Seq<char>, Seq<char>)>::empty());
        }
        None
    }
}

/// Positional keys of distinct indices are distinct.
pub proof fn lemma_param_key_injective(i: nat, j: nat)
    requires
        spec_param_key(i) == spec_param_key(j),
    ensures
        i == j,
{
    let p = "param"@;
    let a = spec_u64_string(i);
    let b = spec_u64_string(j);
    assert((p + a).subrange(p.len() as int, (p + a).len() as int) =~= a);
    assert((p + b).subrange(p.len() as int, (p + b).len() as int) =~= b);
    crate::text::lemma_u64_string_injective(i, j);
}

/// In a binding list built from distinct argument names, none of which is
/// itself a positional key, a name reference and the positional reference
/// to the same argument both resolve, and to the same value.
pub proof fn lemma_name_and_position_agree(names: Seq<Seq<char>>, values: Seq<Seq<char>>, i: nat)
    requires
        names.len() == values.len(),
        i < names.len(),
        forall|a: int, b: int| 0 <= a < b < names.len() ==> #[trigger] names[a] != #[trigger] names[b],
        forall|a: int, k: nat|
            0 <= a < names.len() && k < names.len() ==> #[trigger] names[a]
                != #[trigger] spec_param_key(k),
    ensures
        spec_lookup(spec_bindings(names, values), names[i as int]) == Some(values[i as int]),
        spec_lookup(spec_bindings(names, values), spec_param_key(i)) == Some(values[i as int]),
    decreases names.len(),
{
    let n = names.len();
    let bs = spec_bindings(names, values);
    let front = spec_bindings(names.drop_last(), values.drop_last());
    assert(bs == front + seq![
        (names.last(), values.last()),
        (spec_param_key((n - 1) as nat), values.last()),
    ]);
    assert(bs.last() == (spec_param_key((n - 1) as nat), values.last()));
    assert(bs.drop_last().last() == (names.last(), values.last()));
    assert(bs.drop_last().drop_last() =~= front);
    let bs1 = bs.drop_last();
    let bs2 = bs1.drop_last();
    if i == n - 1 {
        assert(spec_lookup(bs, spec_param_key(i)) == Some(values.last()));
        assert(names[i as int] != spec_param_key((n - 1) as nat));
        assert(names.last() == names[i as int]);
        assert(spec_lookup(bs, names[i as int]) == spec_lookup(bs1, names[i as int]));
        assert(bs1.last().0 == names[i as int]);
        assert(spec_lookup(bs1, names[i as int]) == Some(values.last()));
        assert(values.last() == values[i as int]);
    } else {
        // the name of an earlier argument misses both trailing entries
        assert(names[i as int] != spec_param_key((n - 1) as nat));
        assert(names[i as int] != names[n - 1]);
        if spec_param_key(i) == spec_param_key((n - 1) as nat) {
            lemma_param_key_injective(i, (n - 1) as nat);
        }
        assert(spec_param_key(i) != names[n - 1]);
        lemma_name_and_position_agree(names.drop_last(), values.drop_last(), i);
        assert(names.drop_last()[i as int] == names[i as int]);
        assert(values.drop_last()[i as int] == values[i as int]);
        assert(spec_lookup(bs, names[i as int]) == spec_lookup(bs1, names[i as int]));
        assert(spec_lookup(bs1, names[i as int]) == spec_lookup(bs2, names[i as int]));
        assert(spec_lookup(bs2, names[i as int]) == spec_lookup(front, names[i as int]));
        assert(spec_lookup(bs, spec_param_key(i)) == spec_lookup(bs1, spec_param_key(i)));
        assert(spec_lookup(bs1, spec_param_key(i)) == spec_lookup(bs2, spec_param_key(i)));
        assert(spec_lookup(bs2, spec_param_key(i)) == spec_lookup(front, spec_param_key(i)));
    }
}

/// The resolution of `template` against `bindings`, in one pass, if it
/// succeeds: a `{` must open a placeholder closed by the next `}`, whose
/// name must be bound; all other characters, a lone `}` included, stand
/// for themselves.
pub open spec fn spec_resolve(
    template: Seq<char>,
    bindings: Seq<(Seq<char>, Seq<char>)>,
) -> Option<Seq<char>>
    decreases template.len(),
    via spec_resolve_decreases
{
    if template.len() == 0 {
        Some(Seq::empty())
    } else if template[0] == '{' {
        let after = template.subrange(1, template.len() as int);
        match find_char(after, '}') {
            None => None,
            Some(j) => {
                let name = after.subrange(0, j as int);
                match spec_lookup(bindings, name) {
                    None => None,
                    Some(v) => match spec_resolve(
                        after.subrange(j as int + 1, after.len() as int),
                        bindings,
                    ) {
                        None => None,
                        Some(r) => Some(v + r),
                    },
                }
            },
        }
    } else {
        match spec_resolve(template.subrange(1, template.len() as int), bindings) {
            None => None,
            Some(r) => Some(seq![template[0]] + r),
        }
    }
}

#[via_fn]
proof fn spec_resolve_decreases(template: Seq<char>, bindings: Seq<(Seq<char>, Seq<char>)>) {
    if template.len() > 0 && template[0] == '{' {
        lemma_find_char_props(template.subrange(1, template.len() as int), '}');
    }
}

/// Whether a template contains both braces at all; one without is used
/// verbatim, bypassing resolution.
pub open spec fn spec_has_placeholders(s: Seq<char>) -> bool {
    find_char(s, '{') is Some && find_char(s, '}') is Some
}

/// The placeholder names of a template, in order: for each `{`, the
/// characters up to the next `}` (or, unclosed, the rest of the
/// template), when there are any.
pub open spec fn spec_extract_placeholders(s: Seq<char>) -> Seq<Seq<char>>
    decreases s.len(),
    via spec_extract_placeholders_decreases
{
    if s.len() == 0 {
        Seq::empty()
    } else if s[0] != '{' {
        spec_extract_placeholders(s.subrange(1, s.len() as int))
    } else {
        let after = s.subrange(1, s.len() as int);
        match find_char(after, '}') {
            None => if after.len() > 0 {
                seq![after]
            } else {
                Seq::empty()
            },
            Some(j) => {
                let name = after.subrange(0, j as int);
                let rest = after.subrange(j as int + 1, after.len() as int);
                if name.len() > 0 {
                    seq![name] + spec_extract_placeholders(rest)
                } else {
                    spec_extract_placeholders(rest)
                }
            },
        }
    }
}

#[via_fn]
proof fn spec_extract_placeholders_decreases(s: Seq<char>) {
    if s.len() > 0 && s[0] == '{' {
        lemma_find_char_props(s.subrange(1, s.len() as int), '}');
    }
}

/// The dynamic parameter processor: placeholder discovery and template
/// resolution against a per-call binding map.
pub struct DynamicParamsProcessor;

impl DynamicParamsProcessor {
    /// Returns whether the text holds both braces; without them it
    /// bypasses substitution.
    pub fn has_placeholders(text: &str) -> (r: bool)
        ensures
            r == spec_has_placeholders(text@),
    {
        let open_brace: Option<usize> = find_first(text, '{');
        let close_brace: Option<usize> = find_first(text, '}');
        open_brace.is_some() && close_brace.is_some()
    }

    /// Returns the placeholder names of the template, in order.
    pub fn extract_placeholders(text: &str) -> (r: Vec<String>)
        ensures
            r@.len() == spec_extract_placeholders(text@).len(),
            forall|i: int|
                0 <= i < r@.len() ==> r@[i]@ == spec_extract_placeholders(text@)[i],
        decreases text@.len(),
    {
        let len: usize = text.unicode_len();
        if len == 0 {
            return Vec::new();
        }
        if text.get_char(0) != '{' {
            let rest: &str = text.substring_char(1, len);
            return Self::extract_placeholders(rest);
        }
        let after: &str = text.substring_char(1, len);
        let after_len: usize = len - 1;
        match find_first(after, '}') {
            None => {
                let mut r: Vec<String> = Vec::new();
                if after_len > 0 {
                    r.push(after.to_owned());
                }
                r
            },
            Some(j) => {
                let name: &str = after.substring_char(0, j);
                let rest: &str = after.substring_char(j + 1, after_len);
                let tail: Vec<String> = Self::extract_placeholders(rest);
                if j > 0 {
                    let mut r: Vec<String> = Vec::new();
                    r.push(name.to_owned());
                    let mut k: usize = 0;
                    while k < tail.len()
                        invariant
                            r@.len() == 1 + k,
                            k <= tail@.len(),
                            r@[0]@ == name@,
                            forall|m: int| 0 <= m < k ==> r@[m + 1]@ == tail@[m]@,
                        decreases tail@.len() - k,
                    {
                        let item: String = tail[k].clone();
                        proof {
                            assert(tail@[k as int]@ == item@);
                        }
                        r.push(item);
                        k = k + 1;
                    }
                    proof {
                        let sp = spec_extract_placeholders(text@);
                        assert(sp == seq![name@] + spec_extract_placeholders(rest@));
                        assert(forall|m: int|
                            0 <= m < tail@.len() ==> sp[m + 1] == spec_extract_placeholders(
                                rest@,
                            )[m]);
                    }
                    r
                } else {
                    tail
                }
            },
        }
    }

    /// Resolves a template against the bindings: each `{name}` is
    /// replaced by the bound value in one pass. An unclosed `{` or an
    /// unbound name is an error.
    pub fn resolve_template(template: &str, bindings: &ParamBindings) -> (r: Result<
        String,
        TemplateError,
    >)
        ensures
            r is Ok <==> spec_resolve(template@, bindings@) is Some,
            r is Ok ==> r->Ok_0@ == spec_resolve(template@, bindings@)->Some_0,
    {
        let len: usize = template.unicode_len();
        let mut out: String = String::new();
        let mut pos: usize = 0;
        proof {
            assert(template@.subrange(0, len as int) =~= template@);
            assert(Seq::<char>::empty() + spec_resolve(template@, bindings@).unwrap_or(
                Seq::empty(),
            ) =~= spec_resolve(template@, bindings@).unwrap_or(Seq::empty()));
        }
        while pos < len
            invariant
                len == template@.len(),
                pos <= len,
                ({
                    let full = spec_resolve(template@, bindings@);
                    let rest = spec_resolve(
                        template@.subrange(pos as int, len as int),
                        bindings@,
                    );
                    match rest {
                        Some(rv) => full == Some(out@ + rv),
                        None => full is None,
                    }
                }),
            decreases len - pos,
        {
            let ghost remaining = template@.subrange(pos as int, len as int);
            let c: char = template.get_char(pos);
            proof {
                assert(remaining[0] == template@[pos as int]);
            }
            if c == '{' {
                let after: &str = template.substring_char(pos + 1, len);
                proof {
                    assert(after@ =~= remaining.subrange(1, remaining.len() as int));
                }
                match find_first(after, '}') {
                    None => {
                        return Err(TemplateError::MalformedTemplate);
                    },
                    Some(j) => {
                        let name: &str = after.substring_char(0, j);
                        proof {
                            assert(name@ =~= remaining.subrange(1, remaining.len() as int)
                                .subrange(0, j as int));
                        }
                        match bindings.lookup(name) {
                            None => {
                                return Err(
                                    TemplateError::UnresolvedPlaceholder {
                                        name: name.to_owned(),
                                    },
                                );
                            },
                            Some(v) => {
                                out.append(v.as_str());
                                proof {
                                    let a = remaining.subrange(1, remaining.len() as int);
                                    assert(a.subrange(j as int + 1, a.len() as int)
                                        =~= template@.subrange(
                                        pos + j + 2,
                                        len as int,
                                    ));
                                }
                                pos = pos + j + 2;
                                proof {
                                    let rest2 = spec_resolve(
                                        template@.subrange(pos as int, len as int),
                                        bindings@,
                                    );
                                    if rest2 is Some {
                                        assert(out@ + rest2->Some_0 =~= (
                                        out@.subrange(
                                            0,
                                            out@.len() - spec_lookup(bindings@, name@)
                                                ->Some_0.len(),
                                        ) + (spec_lookup(bindings@, name@)->Some_0
                                            + rest2->Some_0)));
                                    }
                                }
                            },
                        }
                    },
                }
            } else {
                let one: &str = template.substring_char(pos, pos + 1);
                out.append(one);
                proof {
                    assert(one@ =~= seq![template@[pos as int]]);
                    let rest2 = spec_resolve(
                        template@.subrange(pos + 1, len as int),
                        bindings@,
                    );
                    assert(template@.subrange(pos + 1, len as int) =~= remaining.subrange(
                        1,
                        remaining.len() as int,
                    ));
                    if rest2 is Some {
                        assert(out@ + rest2->Some_0 =~= (out@.subrange(0, out@.len() - 1)
                            + (seq![template@[pos as int]] + rest2->Some_0)));
                    }
                }
                pos = pos + 1;
            }
        }
        proof {
            assert(template@.subrange(len as int, len as int) =~= Seq::<char>::empty());
            assert(out@ + Seq::<char>::empty() =~= out@);
        }
        Ok(out)
    }

    /// Splits a `Key: Value` header template and resolves its value
    /// half; the key half is taken verbatim.
    pub fn resolve_header_template(header: &str, bindings: &ParamBindings) -> (r: Result<
        (String, String),
        TemplateError,
    >)
        ensures
            r is Ok <==> (spec_header_split(header@) is Some && spec_resolve(
                spec_header_split(header@)->Some_0.1,
                bindings@,
            ) is Some),
            r is Ok ==> r->Ok_0.0@ == spec_header_split(header@)->Some_0.0,
            r is Ok ==> r->Ok_0.1@ == spec_resolve(
                spec_header_split(header@)->Some_0.1,
                bindings@,
            )->Some_0,
    {
        let len: usize = header.unicode_len();
        match Self::find_header_separator(header) {
            None => Err(TemplateError::MalformedHeader),
            Some(i) => {
                let key: &str = header.substring_char(0, i);
                let value_template: &str = header.substring_char(i + 2, len);
                match Self::resolve_template(value_template, bindings) {
                    Ok(v) => Ok((key.to_owned(), v)),
                    Err(e) => Err(e),
                }
            },
        }
    }

    /// Splits a `Key: Value` header literal at its first `: `.
    pub fn split_header(header: &str) -> (r: Option<(String, String)>)
        ensures
            r is Some <==> spec_header_split(header@) is Some,
            r is Some ==> r->Some_0.0@ == spec_header_split(header@)->Some_0.0 && r->Some_0.1@
                == spec_header_split(header@)->Some_0.1,
    {
        let len: usize = header.unicode_len();
        match Self::find_header_separator(header) {
            None => None,
            Some(i) => {
                let key: &str = header.substring_char(0, i);
                let value: &str = header.substring_char(i + 2, len);
                Some((key.to_owned(), value.to_owned()))
            },
        }
    }

    /// Returns the position of the first `: ` separator, if any.
    fn find_header_separator(s: &str) -> (r: Option<usize>)
        ensures
            r is Some <==> spec_find_sep(s@) is Some,
            r is Some ==> r->Some_0 as nat == spec_find_sep(s@)->Some_0 && r->Some_0 + 2
                <= s@.len(),
    {
        let len: usize = s.unicode_len();
        if len < 2 {
            proof {
                lemma_find_sep_props(s@);
            }
            return None;
        }
        let mut i: usize = 0;
        while i < len - 1
            invariant
                len == s@.len(),
                len >= 2,
                i <= len - 1,
                forall|j: int| 0 <= j < i ==> !(#[trigger] s@[j] == ':' && s@[j + 1] == ' '),
            decreases len - i,
        {
            if s.get_char(i) == ':' && s.get_char(i + 1) == ' ' {
                proof {
                    lemma_find_sep_at(s@, i as nat);
                }
                return Some(i);
            }
            i = i + 1;
        }
        proof {
            lemma_find_sep_none(s@);
        }
        None
    }
}

/// The earliest position of the `: ` separator in a header template.
pub open spec fn spec_find_sep(s: Seq<char>) -> Option<nat>
    decreases s.len(),
{
    if s.len() < 2 {
        None
    } else if s[0] == ':' && s[1] == ' ' {
        Some(0)
    } else {
        match spec_find_sep(s.subrange(1, s.len() as int)) {
            None => None,
            Some(i) => Some((i + 1) as nat),
        }
    }
}

proof fn lemma_find_sep_props(s: Seq<char>)
    ensures
        match spec_find_sep(s) {
            Some(i) => i + 2 <= s.len() && s[i as int] == ':' && s[i as int + 1] == ' '
                && forall|j: int| 0 <= j < i ==> !(#[trigger] s[j] == ':' && s[j + 1] == ' '),
            None => forall|j: int| 0 <= j < s.len() - 1 ==> !(#[trigger] s[j] == ':' && s[j + 1] == ' '),
        },
    decreases s.len(),
{
    if s.len() >= 2 && !(s[0] == ':' && s[1] == ' ') {
        let tail = s.subrange(1, s.len() as int);
        lemma_find_sep_props(tail);
        match spec_find_sep(tail) {
            Some(k) => {
                assert(tail[k as int] == s[k as int + 1]);
                assert(tail[k as int + 1] == s[k as int + 2]);
                assert(spec_find_sep(s) == Some((k + 1) as nat));
                assert forall|j: int| 0 <= j < k + 1 implies !(#[trigger] s[j] == ':' && s[j + 1]
                    == ' ') by {
                    if j > 0 {
                        assert(tail[j - 1] == s[j]);
                        assert(tail[j] == s[j + 1]);
                        assert(!(tail[j - 1] == ':' && tail[j] == ' '));
                    }
                }
            },
            None => {
                assert forall|j: int| 0 <= j < s.len() - 1 implies !(#[trigger] s[j] == ':'
                    && s[j + 1] == ' ') by {
                    if j > 0 {
                        assert(tail[j - 1] == s[j]);
                        assert(tail[j] == s[j + 1]);
                        assert(!(tail[j - 1] == ':' && tail[j] == ' '));
                    }
                }
            },
        }
    }
}

proof fn lemma_find_sep_at(s: Seq<char>, i: nat)
    requires
        i + 2 <= s.len(),
        s[i as int] == ':',
        s[i as int + 1] == ' ',
        forall|j: int| 0 <= j < i ==> !(#[trigger] s[j] == ':' && s[j + 1] == ' '),
    ensures
        spec_find_sep(s) == Some(i),
{
    lemma_find_sep_props(s);
    match spec_find_sep(s) {
        Some(k) => {
            if k < i {
                assert(!(s[k as int] == ':' && s[k as int + 1] == ' '));
            } else if k > i {
                assert(!(s[i as int] == ':' && s[i as int + 1] == ' '));
            }
        },
        None => {
            assert(!(s[i as int] == ':' && s[i as int + 1] == ' '));
        },
    }
}

proof fn lemma_find_sep_none(s: Seq<char>)
    requires
        forall|j: int| 0 <= j < s.len() - 1 ==> !(#[trigger] s[j] == ':' && s[j + 1] == ' '),
    ensures
        spec_find_sep(s) is None,
{
    lemma_find_sep_props(s);
    match spec_find_sep(s) {
        Some(k) => {
            assert(!(s[k as int] == ':' && s[k as int + 1] == ' '));
        },
        None => {},
    }
}

/// The `Key: Value` split of a header template at its first `: `.
pub open spec fn spec_header_split(s: Seq<char>) -> Option<(Seq<char>, Seq<char>)> {
    match spec_find_sep(s) {
        None => None,
        Some(i) => Some((s.subrange(0, i as int), s.subrange(i as int + 2, s.len() as int))),
    }
}

} // verus!
