//! HTTP verbs and request content types.

use vstd::prelude::*;

verus! {

/// The HTTP verb of a declared operation.
#[derive(Debug, Clone, Copy, PartialEq, Eq, Structural)]
pub enum HttpMethod {
    Get,
    Post,
    Put,
    Delete,
}

impl HttpMethod {
    /// The verb's wire name, upper case.
    pub open spec fn spec_name(self) -> Seq<char> {
        match self {
            HttpMethod::Get => "GET"@,
            HttpMethod::Post => "POST"@,
            HttpMethod::Put => "PUT"@,
            HttpMethod::Delete => "DELETE"@,
        }
    }

    /// The name of the client builder method for this verb, lower case.
    pub open spec fn spec_client_method(self) -> Seq<char> {
        match self {
            HttpMethod::Get => "get"@,
            HttpMethod::Post => "post"@,
            HttpMethod::Put => "put"@,
            HttpMethod::Delete => "delete"@,
        }
    }

    /// Whether the verb is idempotent: reads, replacements and deletions
    /// are; creations are not.
    pub open spec fn spec_is_idempotent(self) -> bool {
        self != HttpMethod::Post
    }

    /// Returns the verb's wire name.
    pub fn as_str(&self) -> (r: &'static str)
        ensures
            r@ == self.spec_name(),
    {
        match self {
            HttpMethod::Get => "GET",
            HttpMethod::Post => "POST",
            HttpMethod::Put => "PUT",
            HttpMethod::Delete => "DELETE",
        }
    }

    /// Returns the name of the client builder method used to open a
    /// request with this verb.
    pub fn client_method(&self) -> (r: String)
        ensures
            r@ == self.spec_client_method(),
    {
        let s: &str = match self {
            HttpMethod::Get => "get",
            HttpMethod::Post => "post",
            HttpMethod::Put => "put",
            HttpMethod::Delete => "delete",
        };
        s.to_owned()
    }
}

/// How a request body is encoded.
#[derive(Debug, Clone, Copy, PartialEq, Eq, Structural)]
pub enum ContentType {
    Json,
    FormUrlEncoded,
    FormMultipart,
}

impl ContentType {
    /// Parses a content-type keyword as it appears in a call descriptor.
    /// Exactly `json`, `form_urlencoded` and `form_multipart` are accepted.
    pub fn parse(ident: &str) -> (r: Result<ContentType, String>)
        ensures
            r is Ok <==> (ident@ == "json"@ || ident@ == "form_urlencoded"@ || ident@
                == "form_multipart"@),
            r is Ok ==> r->Ok_0 == (if ident@ == "json"@ {
                ContentType::Json
            } else if ident@ == "form_urlencoded"@ {
                ContentType::FormUrlEncoded
            } else {
                ContentType::FormMultipart
            }),
    {
        if crate::text::str_eq(ident, "json") {
            Ok(ContentType::Json)
        } else if crate::text::str_eq(ident, "form_urlencoded") {
            Ok(ContentType::FormUrlEncoded)
        } else if crate::text::str_eq(ident, "form_multipart") {
            Ok(ContentType::FormMultipart)
        } else {
            Err(
                "content_type must be one of 'json', 'form_urlencoded', or 'form_multipart'".to_owned(),
            )
        }
    }
}

} // verus!
