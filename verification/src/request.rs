//! Call descriptors and per-call request assembly: URL and header
//! templates are resolved against the call's arguments, the content
//! type is attached, and the body transport is chosen by verb and
//! content type.

use vstd::prelude::*;
use crate::dynamic_params::{
    spec_bindings, spec_has_placeholders, spec_header_split, spec_resolve, DynamicParamsProcessor,
    ParamBindings,
};
use crate::error::TemplateError;
use crate::http::{ContentType, HttpMethod};
use crate::proxy::ProxyConfig;
use crate::retry::RetryPolicy;

verus! {

/// The outgoing request as hooks see it: its URL and headers; the body
/// travels beside it so a hook can leave it untouched without copying.
#[derive(Debug, Clone, PartialEq, Eq)]
pub struct RequestModel {
    pub url: String,
    pub headers: Vec<(String, String)>,
}

/// The incoming response as hooks and the decoder see it.
#[derive(Debug, Clone, PartialEq, Eq)]
pub struct ResponseModel {
    pub status: u16,
    pub headers: Vec<(String, String)>,
    pub body: Vec<u8>,
}

/// Names an outside result: what `String::from_utf8_lossy` makes of a
/// byte sequence, a function of the bytes alone.
pub uninterp spec fn utf8_lossy_of(bytes: Seq<u8>) -> Seq<char>;

/// Relies on `String::from_utf8_lossy`: the result depends on the bytes
/// alone, and valid UTF-8 is decoded exactly, without replacement
/// characters.
#[verifier::external_body]
fn utf8_lossy(bytes: &Vec<u8>) -> (r: String)
    ensures
        r@ == utf8_lossy_of(bytes@),
        vstd::utf8::valid_utf8(bytes@) ==> r@ == vstd::utf8::decode_utf8(bytes@),
{
    String::from_utf8_lossy(bytes.as_slice()).into_owned()
}

impl ResponseModel {
    /// Returns the response body read as text, with invalid UTF-8
    /// replaced; valid UTF-8 is decoded exactly.
    pub fn body_text(&self) -> (r: String)
        ensures
            r@ == utf8_lossy_of(self.body@),
            vstd::utf8::valid_utf8(self.body@) ==> r@ == vstd::utf8::decode_utf8(self.body@),
    {
        utf8_lossy(&self.body)
    }
}

/// How the call arguments' body value travels: as JSON, as an encoded
/// form, as multipart parts, or as query parameters.
#[derive(Debug, Clone, Copy, PartialEq, Eq, Structural)]
pub enum BodyKind {
    Json,
    Form,
    Multipart,
    Query,
}

/// One declared operation: everything the coordinator needs to execute
/// a call, built once at registration.
#[derive(Debug, Clone)]
pub struct CallDescriptor {
    /// The path template, appended to the client's base URL.
    pub url_template: String,
    /// The HTTP verb.
    pub method: HttpMethod,
    /// The declared body encoding, if any.
    pub content_type: Option<ContentType>,
    /// Header literals of the form `Key: Value`, attached verbatim.
    pub static_headers: Vec<String>,
    /// Header templates whose value half may hold placeholders.
    pub dynamic_header_templates: Vec<String>,
    /// The call-site retry policy, if any.
    pub retry: Option<RetryPolicy>,
    /// The call-site transport override, if any.
    pub proxy: Option<ProxyConfig>,
    /// The cache key of the call-site interceptor type, if one is bound.
    pub method_interceptor_key: Option<u64>,
}

/// The `Content-Type` header value for a declared body encoding; a call
/// that declares none sends JSON.
pub open spec fn spec_content_type_value(ct: Option<ContentType>) -> Seq<char> {
    match ct {
        Some(ContentType::Json) => "application/json"@,
        Some(ContentType::FormUrlEncoded) => "application/x-www-form-urlencoded"@,
        Some(ContentType::FormMultipart) => "multipart/form-data"@,
        None => "application/json"@,
    }
}

/// How the body travels: reads and deletions put arguments in the
/// query string; creations and replacements use the declared encoding,
/// or the query string when none is declared.
pub open spec fn spec_body_kind(ct: Option<ContentType>, method: HttpMethod) -> BodyKind {
    match method {
        HttpMethod::Post | HttpMethod::Put => match ct {
            Some(ContentType::Json) => BodyKind::Json,
            Some(ContentType::FormUrlEncoded) => BodyKind::Form,
            Some(ContentType::FormMultipart) => BodyKind::Multipart,
            None => BodyKind::Query,
        },
        HttpMethod::Get | HttpMethod::Delete => BodyKind::Query,
    }
}

/// A template resolved against the bindings, or taken verbatim when it
/// holds no placeholders at all.
pub open spec fn spec_resolve_or_verbatim(
    t: Seq<char>,
    b: Seq<(Seq<char>, Seq<char>)>,
) -> Option<Seq<char>> {
    if spec_has_placeholders(t) {
        spec_resolve(t, b)
    } else {
        Some(t)
    }
}

/// Static header literals split into key-value pairs, in order; any
/// literal without the separator spoils the whole list.
pub open spec fn spec_static_headers(hs: Seq<Seq<char>>) -> Option<Seq<(Seq<char>, Seq<char>)>>
    decreases hs.len(),
{
    if hs.len() == 0 {
        Some(Seq::empty())
    } else {
        match spec_static_headers(hs.drop_last()) {
            None => None,
            Some(acc) => match spec_header_split(hs.last()) {
                None => None,
                Some(kv) => Some(acc.push(kv)),
            },
        }
    }
}

/// Dynamic header templates split and their value halves resolved (or
/// taken verbatim without placeholders), in order.
pub open spec fn spec_dynamic_headers(
    hs: Seq<Seq<char>>,
    b: Seq<(Seq<char>, Seq<char>)>,
) -> Option<Seq<(Seq<char>, Seq<char>)>>
    decreases hs.len(),
{
    if hs.len() == 0 {
        Some(Seq::empty())
    } else {
        match spec_dynamic_headers(hs.drop_last(), b) {
            None => None,
            Some(acc) => match spec_header_split(hs.last()) {
                None => None,
                Some(kv) => match spec_resolve_or_verbatim(kv.1, b) {
                    None => None,
                    Some(v) => Some(acc.push((kv.0, v))),
                },
            },
        }
    }
}


/// A parsed static header list has every prefix parsed and every
/// element split.
proof fn lemma_static_headers_prefix(hs: Seq<Seq<char>>, k: int)
    requires
        0 <= k <= hs.len(),
        spec_static_headers(hs) is Some,
    ensures
        spec_static_headers(hs.subrange(0, k)) is Some,
        forall|i: int| 0 <= i < hs.len() ==> spec_header_split(#[trigger] hs[i]) is Some,
    decreases hs.len(),
{
    if hs.len() > 0 {
        assert(spec_static_headers(hs.drop_last()) is Some);
        if k < hs.len() {
            lemma_static_headers_prefix(hs.drop_last(), k);
            assert(hs.drop_last().subrange(0, k) =~= hs.subrange(0, k));
        } else {
            assert(hs.subrange(0, k) =~= hs);
        }
        lemma_static_headers_prefix(hs.drop_last(), 0);
        assert(forall|i: int| 0 <= i < hs.len() - 1 ==> hs.drop_last()[i] == hs[i]);
        assert(spec_header_split(hs.last()) is Some);
    } else {
        assert(hs.subrange(0, k) =~= hs);
    }
}

/// A parsed dynamic header list has every prefix parsed, every element
/// split, and every value half resolved.
proof fn lemma_dynamic_headers_prefix(hs: Seq<Seq<char>>, b: Seq<(Seq<char>, Seq<char>)>, k: int)
    requires
        0 <= k <= hs.len(),
        spec_dynamic_headers(hs, b) is Some,
    ensures
        spec_dynamic_headers(hs.subrange(0, k), b) is Some,
        forall|i: int| 0 <= i < hs.len() ==> spec_header_split(#[trigger] hs[i]) is Some,
        forall|i: int|
            0 <= i < hs.len() ==> spec_resolve_or_verbatim(
                spec_header_split(#[trigger] hs[i])->Some_0.1,
                b,
            ) is Some,
    decreases hs.len(),
{
    if hs.len() > 0 {
        assert(spec_dynamic_headers(hs.drop_last(), b) is Some);
        if k < hs.len() {
            lemma_dynamic_headers_prefix(hs.drop_last(), b, k);
            assert(hs.drop_last().subrange(0, k) =~= hs.subrange(0, k));
        } else {
            assert(hs.subrange(0, k) =~= hs);
        }
        lemma_dynamic_headers_prefix(hs.drop_last(), b, 0);
        assert(forall|i: int| 0 <= i < hs.len() - 1 ==> hs.drop_last()[i] == hs[i]);
        assert(spec_header_split(hs.last()) is Some);
        assert(spec_resolve_or_verbatim(spec_header_split(hs.last())->Some_0.1, b) is Some);
    } else {
        assert(hs.subrange(0, k) =~= hs);
    }
}

/// The request builder: assembles one call's URL, headers and body
/// transport from its descriptor and arguments.
pub struct RequestBuilder;

impl RequestBuilder {
    /// Returns the `Content-Type` header value for the declared body
    /// encoding.
    pub fn content_type_value(ct: &Option<ContentType>) -> (r: &'static str)
        ensures
            r@ == spec_content_type_value(*ct),
    {
        match ct {
            Some(ContentType::Json) => "application/json",
            Some(ContentType::FormUrlEncoded) => "application/x-www-form-urlencoded",
            Some(ContentType::FormMultipart) => "multipart/form-data",
            None => "application/json",
        }
    }

    /// Returns how the body travels for the given verb and declared
    /// encoding.
    pub fn body_kind(ct: &Option<ContentType>, method: &HttpMethod) -> (r: BodyKind)
        ensures
            r == spec_body_kind(*ct, *method),
    {
        match method {
            HttpMethod::Post | HttpMethod::Put => match ct {
                Some(ContentType::Json) => BodyKind::Json,
                Some(ContentType::FormUrlEncoded) => BodyKind::Form,
                Some(ContentType::FormMultipart) => BodyKind::Multipart,
                None => BodyKind::Query,
            },
            HttpMethod::Get | HttpMethod::Delete => BodyKind::Query,
        }
    }

    /// Resolves a template against the bindings, or returns it verbatim
    /// when it holds no placeholders.
    pub fn resolve_or_verbatim(template: &str, bindings: &ParamBindings) -> (r: Result<
        String,
        TemplateError,
    >)
        ensures
            r is Ok <==> spec_resolve_or_verbatim(template@, bindings@) is Some,
            r is Ok ==> r->Ok_0@ == spec_resolve_or_verbatim(template@, bindings@)->Some_0,
    {
        if DynamicParamsProcessor::has_placeholders(template) {
            DynamicParamsProcessor::resolve_template(template, bindings)
        } else {
            Ok(template.to_owned())
        }
    }

    /// Assembles the request for one call: the base URL with the
    /// resolved path appended, the `Content-Type` header followed by the
    /// static and then the resolved dynamic headers, and the body
    /// transport for the verb. Arguments bind by name and by position.
    #[verifier::rlimit(80)]
    pub fn build_request(
        descriptor: &CallDescriptor,
        base_url: &str,
        arg_names: &Vec<String>,
        arg_values: &Vec<String>,
    ) -> (r: Result<(RequestModel, BodyKind), TemplateError>)
        requires
            arg_names@.len() == arg_values@.len(),
        ensures
            ({
                let b = spec_bindings(
                    arg_names@.map_values(|s: String| s@),
                    arg_values@.map_values(|s: String| s@),
                );
                let url_r = spec_resolve_or_verbatim(descriptor.url_template@, b);
                let st = spec_static_headers(
                    descriptor.static_headers@.map_values(|s: String| s@),
                );
                let dy = spec_dynamic_headers(
                    descriptor.dynamic_header_templates@.map_values(|s: String| s@),
                    b,
                );
                &&& (r is Ok <==> url_r is Some && st is Some && dy is Some)
                &&& r is Ok ==> r->Ok_0.0.url@ == base_url@ + url_r->Some_0
                &&& r is Ok ==> r->Ok_0.0.headers@.map_values(
                    |p: (String, String)| (p.0@, p.1@),
                ) == seq![("Content-Type"@, spec_content_type_value(descriptor.content_type))]
                    + st->Some_0 + dy->Some_0
                &&& r is Ok ==> r->Ok_0.1 == spec_body_kind(
                    descriptor.content_type,
                    descriptor.method,
                )
            }),
    {
        let bindings: ParamBindings = ParamBindings::build(arg_names, arg_values);
        let path: String = match Self::resolve_or_verbatim(
            descriptor.url_template.as_str(),
            &bindings,
        ) {
            Ok(p) => p,
            Err(e) => {
                return Err(e);
            },
        };
        let mut url: String = base_url.to_owned();
        url.append(path.as_str());

        let mut headers: Vec<(String, String)> = Vec::new();
        let ct_value: &str = Self::content_type_value(&descriptor.content_type);
        headers.push(("Content-Type".to_owned(), ct_value.to_owned()));

        let ghost ct_seq = seq![
            ("Content-Type"@, spec_content_type_value(descriptor.content_type)),
        ];
        let ghost st_all = descriptor.static_headers@.map_values(|s: String| s@);
        proof {
            assert(st_all.subrange(0, 0) =~= Seq::<Seq<char>>::empty());
        }
        let mut i: usize = 0;
        while i < descriptor.static_headers.len()
            invariant
                st_all == descriptor.static_headers@.map_values(|s: String| s@),
                i <= st_all.len(),
                descriptor.static_headers@.len() == st_all.len(),
                spec_static_headers(st_all.subrange(0, i as int)) is Some,
                headers@.len() == 1 + spec_static_headers(st_all.subrange(0, i as int))
                    ->Some_0.len(),
                headers@[0].0@ == "Content-Type"@,
                headers@[0].1@ == spec_content_type_value(descriptor.content_type),
                forall|idx: int|
                    0 <= idx < spec_static_headers(st_all.subrange(0, i as int))->Some_0.len()
                        ==> (#[trigger] headers@[idx + 1].0@ == spec_static_headers(
                        st_all.subrange(0, i as int),
                    )->Some_0[idx].0 && headers@[idx + 1].1@ == spec_static_headers(
                        st_all.subrange(0, i as int),
                    )->Some_0[idx].1),
            decreases st_all.len() - i,
        {
            let header: &String = &descriptor.static_headers[i];
            proof {
                assert(st_all[i as int] == descriptor.static_headers@[i as int]@);
            }
            match DynamicParamsProcessor::split_header(header.as_str()) {
                None => {
                    proof {
                        if spec_static_headers(st_all) is Some {
                            lemma_static_headers_prefix(st_all, st_all.len() as int);
                        }
                    }
                    return Err(TemplateError::MalformedHeader);
                },
                Some((k, v)) => {
                    headers.push((k, v));
                },
            }
            proof {
                let cur = st_all.subrange(0, i as int + 1);
                assert(cur.drop_last() =~= st_all.subrange(0, i as int));
                assert(cur.last() == st_all[i as int]);
                assert(st_all[i as int] == descriptor.static_headers@[i as int]@);
                assert(spec_static_headers(cur) is Some);
                assert(spec_static_headers(cur)->Some_0 == spec_static_headers(
                    st_all.subrange(0, i as int),
                )->Some_0.push(spec_header_split(cur.last())->Some_0));
            }
            i = i + 1;
        }
        proof {
            assert(st_all.subrange(0, st_all.len() as int) =~= st_all);
        }

        let ghost dy_all = descriptor.dynamic_header_templates@.map_values(|s: String| s@);
        let ghost st_done = spec_static_headers(st_all)->Some_0;
        proof {
            assert(dy_all.subrange(0, 0) =~= Seq::<Seq<char>>::empty());
        }
        let mut j: usize = 0;
        while j < descriptor.dynamic_header_templates.len()
            invariant
                arg_names@.len() == arg_values@.len(),
                bindings@ == spec_bindings(
                    arg_names@.map_values(|s: String| s@),
                    arg_values@.map_values(|s: String| s@),
                ),
                dy_all == descriptor.dynamic_header_templates@.map_values(|s: String| s@),
                j <= dy_all.len(),
                descriptor.dynamic_header_templates@.len() == dy_all.len(),
                spec_static_headers(st_all) == Some(st_done),
                spec_dynamic_headers(dy_all.subrange(0, j as int), bindings@) is Some,
                headers@.len() == 1 + st_done.len() + spec_dynamic_headers(
                    dy_all.subrange(0, j as int),
                    bindings@,
                )->Some_0.len(),
                headers@[0].0@ == "Content-Type"@,
                headers@[0].1@ == spec_content_type_value(descriptor.content_type),
                forall|idx: int|
                    0 <= idx < st_done.len() ==> (#[trigger] headers@[idx + 1].0@
                        == st_done[idx].0 && headers@[idx + 1].1@ == st_done[idx].1),
                forall|idx: int|
                    0 <= idx < spec_dynamic_headers(
                        dy_all.subrange(0, j as int),
                        bindings@,
                    )->Some_0.len() ==> (#[trigger] headers@[idx + 1 + st_done.len()].0@
                        == spec_dynamic_headers(
                        dy_all.subrange(0, j as int),
                        bindings@,
                    )->Some_0[idx].0 && headers@[idx + 1 + st_done.len()].1@
                        == spec_dynamic_headers(
                        dy_all.subrange(0, j as int),
                        bindings@,
                    )->Some_0[idx].1),
            decreases dy_all.len() - j,
        {
            let header: &String = &descriptor.dynamic_header_templates[j];
            proof {
                assert(dy_all[j as int] == descriptor.dynamic_header_templates@[j as int]@);
            }
            match DynamicParamsProcessor::split_header(header.as_str()) {
                None => {
                    proof {
                        if spec_dynamic_headers(dy_all, bindings@) is Some {
                            lemma_dynamic_headers_prefix(dy_all, bindings@, dy_all.len() as int);
                        }
                    }
                    return Err(TemplateError::MalformedHeader);
                },
                Some((k, v)) => {
                    match Self::resolve_or_verbatim(v.as_str(), &bindings) {
                        Ok(resolved) => {
                            headers.push((k, resolved));
                        },
                        Err(e) => {
                            proof {
                                if spec_dynamic_headers(dy_all, bindings@) is Some {
                                    lemma_dynamic_headers_prefix(
                                        dy_all,
                                        bindings@,
                                        dy_all.len() as int,
                                    );
                                }
                            }
                            return Err(e);
                        },
                    }
                },
            }
            proof {
                let cur = dy_all.subrange(0, j as int + 1);
                assert(cur.drop_last() =~= dy_all.subrange(0, j as int));
                assert(cur.last() == dy_all[j as int]);
                assert(dy_all[j as int] == descriptor.dynamic_header_templates@[j as int]@);
                assert(spec_dynamic_headers(cur, bindings@) is Some);
                assert(spec_dynamic_headers(cur, bindings@)->Some_0 == spec_dynamic_headers(
                    dy_all.subrange(0, j as int),
                    bindings@,
                )->Some_0.push(
                    (
                        spec_header_split(cur.last())->Some_0.0,
                        spec_resolve_or_verbatim(
                            spec_header_split(cur.last())->Some_0.1,
                            bindings@,
                        )->Some_0,
                    ),
                ));
            }
            j = j + 1;
        }
        proof {
            assert(dy_all.subrange(0, dy_all.len() as int) =~= dy_all);
            let dy_done = spec_dynamic_headers(dy_all, bindings@)->Some_0;
            let m = headers@.map_values(|p: (String, String)| (p.0@, p.1@));
            let rhs = ct_seq + st_done + dy_done;
            assert(m.len() == rhs.len());
            assert forall|idx: int| 0 <= idx < m.len() implies m[idx] == rhs[idx] by {
                assert(m[idx] == (headers@[idx].0@, headers@[idx].1@));
                if idx == 0 {
                    assert(rhs[0] == ct_seq[0]);
                } else if idx < 1 + st_done.len() {
                    assert(rhs[idx] == st_done[idx - 1]);
                    assert(headers@[(idx - 1) + 1].0@ == st_done[idx - 1].0);
                } else {
                    assert(rhs[idx] == dy_done[idx - 1 - st_done.len()]);
                    assert(headers@[(idx - 1 - st_done.len()) + 1 + st_done.len()].0@
                        == dy_done[idx - 1 - st_done.len()].0);
                }
            }
            assert(m =~= rhs);
        }

        let kind: BodyKind = Self::body_kind(&descriptor.content_type, &descriptor.method);
        Ok((RequestModel { url, headers }, kind))
    }
}

} // verus!
