//! The operation description that the library builds: parameters, request bodies, media types,
//! responses and the operation record itself.
use vstd::prelude::*;
use crate::keyed::{key_index, keys_unique};
use okapi::openapi3::{Encoding, Example, Header, Link, RefOr, SecurityRequirement, SecurityScheme};
use schemars::schema::SchemaObject;

verus! {

/// A schema slot: a schema derived for a type, or the composite "any of these two" that merging
/// builds when two sources describe the same slot.
pub enum SchemaNode {
    Derived(SchemaObject),
    AnyOf(Box<SchemaNode>, Box<SchemaNode>),
}

/// One operation parameter, in the query or in a header.
pub struct ParameterSpec {
    pub name: String,
    pub location: String,
    pub description: Option<String>,
    pub required: bool,
    pub schema: SchemaObject,
}

/// A media type entry of a response or of a request body.
pub struct MediaType {
    pub schema: Option<SchemaNode>,
    pub example: Option<serde_json::Value>,
    pub examples: Option<Vec<(String, Example)>>,
    pub encoding: Vec<(String, Encoding)>,
    pub extensions: Vec<(String, serde_json::Value)>,
}

pub struct MediaTypeView {
    pub schema: Option<SchemaNode>,
    pub example: Option<serde_json::Value>,
    pub examples: Option<Seq<(String, Example)>>,
    pub encoding: Seq<(String, Encoding)>,
    pub extensions: Seq<(String, serde_json::Value)>,
}

impl View for MediaType {
    type V = MediaTypeView;

    open spec fn view(&self) -> MediaTypeView {
        MediaTypeView {
            schema: self.schema,
            example: self.example,
            examples: match self.examples {
                Some(e) => Some(e@),
                None => None,
            },
            encoding: self.encoding@,
            extensions: self.extensions@,
        }
    }
}

/// The entries of a map whose values have views, each value replaced by its view.
pub open spec fn view_entries<V: View>(s: Seq<(String, V)>) -> Seq<(String, V::V)> {
    s.map_values(|e: (String, V)| (e.0, e.1@))
}

/// One response of an operation.
pub struct Response {
    pub description: String,
    pub content: Vec<(String, MediaType)>,
    pub headers: Vec<(String, RefOr<Header>)>,
    pub links: Vec<(String, RefOr<Link>)>,
    pub extensions: Vec<(String, serde_json::Value)>,
}

pub struct ResponseView {
    pub description: Seq<char>,
    pub content: Seq<(String, MediaTypeView)>,
    pub headers: Seq<(String, RefOr<Header>)>,
    pub links: Seq<(String, RefOr<Link>)>,
    pub extensions: Seq<(String, serde_json::Value)>,
}

impl View for Response {
    type V = ResponseView;

    open spec fn view(&self) -> ResponseView {
        ResponseView {
            description: self.description@,
            content: view_entries(self.content@),
            headers: self.headers@,
            links: self.links@,
            extensions: self.extensions@,
        }
    }
}

/// A response with an empty description and nothing else.
pub open spec fn blank_response() -> ResponseView {
    ResponseView {
        description: Seq::empty(),
        content: Seq::empty(),
        headers: Seq::empty(),
        links: Seq::empty(),
        extensions: Seq::empty(),
    }
}

impl Response {
    /// A response with an empty description and nothing else.
    pub fn empty() -> (r: Response)
        ensures
            r@ == blank_response(),
    {
        let r = Response {
            description: String::new(),
            content: Vec::new(),
            headers: Vec::new(),
            links: Vec::new(),
            extensions: Vec::new(),
        };
        proof {
            assert(r@.content =~= Seq::empty());
        }
        r
    }
}

/// A response given in place, or by reference to a shared definition.
pub enum ResponseEntry {
    Reference(String),
    Object(Response),
}

pub enum ResponseEntryView {
    Reference(Seq<char>),
    Object(ResponseView),
}

impl View for ResponseEntry {
    type V = ResponseEntryView;

    open spec fn view(&self) -> ResponseEntryView {
        match self {
            ResponseEntry::Reference(r) => ResponseEntryView::Reference(r@),
            ResponseEntry::Object(o) => ResponseEntryView::Object(o@),
        }
    }
}

/// The responses of an operation, keyed by status code text.
pub struct ResponseSet {
    pub default: Option<ResponseEntry>,
    pub responses: Vec<(String, ResponseEntry)>,
    pub extensions: Vec<(String, serde_json::Value)>,
}

pub struct ResponseSetView {
    pub default: Option<ResponseEntryView>,
    pub responses: Seq<(String, ResponseEntryView)>,
    pub extensions: Seq<(String, serde_json::Value)>,
}

impl View for ResponseSet {
    type V = ResponseSetView;

    open spec fn view(&self) -> ResponseSetView {
        ResponseSetView {
            default: match self.default {
                Some(d) => Some(d@),
                None => None,
            },
            responses: view_entries(self.responses@),
            extensions: self.extensions@,
        }
    }
}

impl ResponseSet {
    /// No status key occurs twice.
    pub open spec fn wf(&self) -> bool {
        keys_unique(self.responses@)
    }

    /// A set with no responses.
    pub fn new() -> (r: ResponseSet)
        ensures
            r.wf(),
            r@.default is None,
            r@.responses.len() == 0,
            r@.extensions.len() == 0,
    {
        ResponseSet { default: None, responses: Vec::new(), extensions: Vec::new() }
    }
}

/// The request body of an operation.
pub struct RequestBody {
    pub description: Option<String>,
    pub content: Vec<(String, MediaType)>,
    pub required: bool,
}

/// What a request extractor contributes to an operation's description.
pub enum RequestHeaderInput {
    /// Nothing.
    Nothing,
    /// One parameter.
    Parameter(ParameterSpec),
    /// A security scheme: its name, its global definition, and what the operation requires.
    Security(String, SecurityScheme, SecurityRequirement),
}

/// The description of one operation.
pub struct Operation {
    pub parameters: Vec<ParameterSpec>,
    pub request_body: Option<RequestBody>,
    pub responses: ResponseSet,
    pub security: Option<Vec<SecurityRequirement>>,
    pub tags: Vec<String>,
    pub summary: Option<String>,
    pub description: Option<String>,
    pub operation_id: Option<String>,
}

/// Why a description could not be produced.
#[derive(Debug, PartialEq, Eq)]
pub enum OpenApiError {
    /// A response given by reference cannot be altered.
    RefResponse,
    /// No schema was given for the named type.
    MissingSchema(String),
    /// The named type has no response description.
    NoResponder(String),
    /// The named type has no request body description.
    NoRequestBody(String),
}


/// Replacing values by their views keeps the keys, and so the position of each key.
pub proof fn lemma_view_entries_keys<V: View>(s: Seq<(String, V)>, k: Seq<char>)
    ensures
        view_entries(s).len() == s.len(),
        key_index(view_entries(s), k) == key_index(s, k),
        keys_unique(view_entries(s)) == keys_unique(s),
        forall|i: int| 0 <= i < s.len() ==> #[trigger] view_entries(s)[i] == (s[i].0, s[i].1@),
    decreases s.len(),
{
    let t = view_entries(s);
    if s.len() > 0 {
        lemma_view_entries_keys(s.drop_last(), k);
        assert(t.drop_last() =~= view_entries(s.drop_last()));
    }
    if keys_unique(s) {
        assert forall|a: int, b: int|
            0 <= a < t.len() && 0 <= b < t.len() && a != b implies #[trigger] t[a].0@
            != #[trigger] t[b].0@ by {
            assert(s[a].0@ != s[b].0@);
        }
    }
    if keys_unique(t) {
        assert forall|a: int, b: int|
            0 <= a < s.len() && 0 <= b < s.len() && a != b implies #[trigger] s[a].0@
            != #[trigger] s[b].0@ by {
            assert(t[a].0@ != t[b].0@);
        }
    }
}

/// Viewing commutes with replacing one entry and with appending one.
pub proof fn lemma_view_entries_edit<V: View>(s: Seq<(String, V)>, j: int, e: (String, V))
    ensures
        0 <= j < s.len() ==> view_entries(s.update(j, e)) == view_entries(s).update(j, (e.0, e.1@)),
        view_entries(s.push(e)) == view_entries(s).push((e.0, e.1@)),
{
    assert(view_entries(s.push(e)) =~= view_entries(s).push((e.0, e.1@)));
    if 0 <= j < s.len() {
        assert(view_entries(s.update(j, e)) =~= view_entries(s).update(j, (e.0, e.1@)));
    }
}


/// Request extractors, which say what headers or other inputs they need.
pub trait OpenApiFromRequest {
    /// What the extractor contributes, for a parameter named `name`.
    fn from_request_input(&self, name: String, required: bool) -> Result<RequestHeaderInput, OpenApiError>;

    /// Responses the extractor can give on its own, such as an authorization failure; none
    /// unless the extractor says otherwise.
    fn get_responses(&self) -> ResponseSet {
        ResponseSet::new()
    }
}

} // verus!
