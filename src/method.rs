use vstd::prelude::*;
use axum::http::Method;

verus! {

#[verifier::external_type_specification]
#[verifier::external_body]
pub struct ExHttpMethod(axum::http::Method);

/// The text of an HTTP method as the `http` crate writes it.
pub uninterp spec fn http_method_text(m: Method) -> Seq<char>;

/// Relies on `http::Method::as_str`: the standard methods as their upper-case names, an
/// extension method as its own text.
#[verifier::external_body]
fn http_method_str(m: &Method) -> (r: String)
    ensures
        r@ == http_method_text(*m),
{
    m.as_str().to_string()
}

/// The method with upper-case name `n`; any other text stands for `GET`.
pub open spec fn method_named(n: Seq<char>) -> OpenApiMethod {
    if n == "POST"@ {
        OpenApiMethod::Post
    } else if n == "PUT"@ {
        OpenApiMethod::Put
    } else if n == "PATCH"@ {
        OpenApiMethod::Patch
    } else if n == "DELETE"@ {
        OpenApiMethod::Delete
    } else if n == "HEAD"@ {
        OpenApiMethod::Head
    } else if n == "CONNECT"@ {
        OpenApiMethod::Connect
    } else if n == "OPTIONS"@ {
        OpenApiMethod::Options
    } else if n == "TRACE"@ {
        OpenApiMethod::Trace
    } else {
        OpenApiMethod::Get
    }
}

/// The HTTP methods that an operation can be documented under.
#[derive(Debug, Clone, Copy, PartialEq, Eq, Hash, Structural)]
pub enum OpenApiMethod {
    Get,
    Post,
    Put,
    Patch,
    Delete,
    Options,
    Head,
    Trace,
    Connect,
}

impl OpenApiMethod {
    /// The upper-case name of the method, as written in a request line.
    pub open spec fn spec_name(self) -> Seq<char> {
        match self {
            OpenApiMethod::Get => "GET"@,
            OpenApiMethod::Post => "POST"@,
            OpenApiMethod::Put => "PUT"@,
            OpenApiMethod::Patch => "PATCH"@,
            OpenApiMethod::Delete => "DELETE"@,
            OpenApiMethod::Options => "OPTIONS"@,
            OpenApiMethod::Head => "HEAD"@,
            OpenApiMethod::Trace => "TRACE"@,
            OpenApiMethod::Connect => "CONNECT"@,
        }
    }

    pub fn name(&self) -> (r: &'static str)
        ensures
            r@ == self.spec_name(),
    {
        match self {
            OpenApiMethod::Get => "GET",
            OpenApiMethod::Post => "POST",
            OpenApiMethod::Put => "PUT",
            OpenApiMethod::Patch => "PATCH",
            OpenApiMethod::Delete => "DELETE",
            OpenApiMethod::Options => "OPTIONS",
            OpenApiMethod::Head => "HEAD",
            OpenApiMethod::Trace => "TRACE",
            OpenApiMethod::Connect => "CONNECT",
        }
    }

    /// The method named `n`, in upper case; any other text gives `Get`.
    pub fn from_name(n: &str) -> (r: OpenApiMethod)
        ensures
            r == method_named(n@),
    {
        let t = n.to_string();
        if t == "POST".to_string() {
            OpenApiMethod::Post
        } else if t == "PUT".to_string() {
            OpenApiMethod::Put
        } else if t == "PATCH".to_string() {
            OpenApiMethod::Patch
        } else if t == "DELETE".to_string() {
            OpenApiMethod::Delete
        } else if t == "HEAD".to_string() {
            OpenApiMethod::Head
        } else if t == "CONNECT".to_string() {
            OpenApiMethod::Connect
        } else if t == "OPTIONS".to_string() {
            OpenApiMethod::Options
        } else if t == "TRACE".to_string() {
            OpenApiMethod::Trace
        } else {
            OpenApiMethod::Get
        }
    }

    /// The method that an `http` method stands for; an extension method gives `Get`.
    pub fn from_http(m: &Method) -> (r: OpenApiMethod)
        ensures
            r == method_named(http_method_text(*m)),
    {
        let t = http_method_str(m);
        OpenApiMethod::from_name(t.as_str())
    }
}

/// Naming a method and reading the name back gives the method.
pub proof fn law_name_round_trip(m: OpenApiMethod)
    ensures
        method_named(m.spec_name()) == m,
{
    reveal_strlit("GET");
    reveal_strlit("POST");
    reveal_strlit("PUT");
    reveal_strlit("PATCH");
    reveal_strlit("DELETE");
    reveal_strlit("OPTIONS");
    reveal_strlit("HEAD");
    reveal_strlit("TRACE");
    reveal_strlit("CONNECT");
    assert("GET"@.len() == 3 && "PUT"@.len() == 3 && "GET"@[0] == 'G');
    assert("POST"@.len() == 4 && "HEAD"@.len() == 4 && "POST"@[0] == 'P');
    assert("PATCH"@.len() == 5 && "TRACE"@.len() == 5 && "PATCH"@[0] == 'P');
    assert("DELETE"@.len() == 6);
    assert("OPTIONS"@.len() == 7 && "CONNECT"@.len() == 7 && "OPTIONS"@[0] == 'O');
}

} // verus!
