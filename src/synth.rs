//! Fragments of an operation synthesized from types: query and header parameters, request
//! bodies and response sets.
use vstd::prelude::*;
use crate::bindings::{
    clone_schema, description_of, is_object_of, nullable_flag, nullable_of, properties_of,
    schema_description, schema_instance, schema_properties, status_text_of, InstanceKind,
    InstanceShape,
};
use crate::classify::{depth, TypeDescriptor};
use crate::keyed::{has_key, insert_all, key_index, lemma_key_index_bounds};
use crate::merge::{
    all_objects, law_merge_keeps_statuses, lemma_merge_objects, merge_all, merged_default, add_schema_response, ensure_status_code_exists, produce_any_responses, schema_media, status_ensured};
use crate::model::{
    lemma_view_entries_keys, MediaType, MediaTypeView, OpenApiError, ParameterSpec, RequestBody, ResponseEntryView, ResponseSet,
    ResponseSetView, SchemaNode,
};
use schemars::schema::SchemaObject;

verus! {

/// Whether a parameter stays required: it was, and the schema does not say it is nullable.
pub open spec fn stays_required(schema: SchemaObject, required: bool) -> bool {
    required && nullable_of(schema) != Some(true)
}

pub open spec fn description_matches(d: Option<String>, schema: SchemaObject) -> bool {
    match d {
        Some(t) => description_of(schema) == Some(t@),
        None => description_of(schema) is None,
    }
}

/// A query parameter named `name` for `schema`. It is required where `required` is set and the
/// schema's `nullable` extension is not true; its description is the schema's.
pub fn parameter_from_schema(schema: SchemaObject, name: String, required: bool) -> (r: ParameterSpec)
    ensures
        r.name == name,
        r.location@ == "query"@,
        r.required == stays_required(schema, required),
        description_matches(r.description, schema),
        r.schema == schema,
{
    let mut required = required;
    if required {
        match nullable_flag(&schema) {
            Some(nullable) => {
                required = !nullable;
            },
            None => {},
        }
    }
    let description = schema_description(&schema);
    ParameterSpec { name, location: "query".to_string(), description, required, schema }
}

/// `r` are the query parameters of a query type with schema `schema` and declared fields
/// `fields`: one per property of an object schema, required unless the property is nullable;
/// for any other schema one per field, bound to the whole schema and required.
pub open spec fn query_parameters(schema: SchemaObject, fields: Seq<String>, r: Seq<ParameterSpec>) -> bool {
    if is_object_of(schema) {
        &&& r.len() == properties_of(schema).len()
        &&& forall|i: int|
            0 <= i < r.len() ==> {
                &&& (#[trigger] r[i]).name@ == properties_of(schema)[i].0
                &&& r[i].location@ == "query"@
                &&& (properties_of(schema)[i].1 matches Some(x) ==> r[i].schema == x)
                &&& r[i].required == stays_required(r[i].schema, true)
                &&& description_matches(r[i].description, r[i].schema)
            }
    } else {
        &&& r.len() == fields.len()
        &&& forall|i: int|
            0 <= i < r.len() ==> {
                &&& (#[trigger] r[i]).name == fields[i]
                &&& r[i].location@ == "query"@
                &&& r[i].schema == schema
                &&& r[i].required
                &&& description_matches(r[i].description, schema)
            }
    }
}

/// The query parameters of a query type with schema `schema` and declared fields `fields`.
/// An object schema gives one parameter per property. Any other schema, or one with no
/// instance type, gives one required parameter per declared field, each bound to the whole
/// schema.
pub fn query(schema: SchemaObject, fields: &Vec<String>) -> (r: Vec<ParameterSpec>)
    ensures
        query_parameters(schema, fields@, r@),
{
    let mut list: Vec<ParameterSpec> = Vec::new();
    let shape = schema_instance(&schema);
    if shape matches InstanceShape::Single(InstanceKind::Object) {
        let props = schema_properties(&schema);
        let mut rest = props;
        let ghost all_props = rest@;
        let n: usize = rest.len();
        let mut i: usize = 0;
        while rest.len() > 0
            invariant
                n == all_props.len(),
                all_props.len() == properties_of(schema).len(),
                forall|t: int| 0 <= t < all_props.len() ==> #[trigger] all_props[t].0@ == properties_of(schema)[t].0 && all_props[t].1 == properties_of(schema)[t].1,
                i + rest@.len() == n,
                rest@ == all_props.skip(i as int),
                list@.len() == i,
                forall|t: int|
                    0 <= t < i ==> {
                        &&& (#[trigger] list@[t]).name@ == properties_of(schema)[t].0
                        &&& list@[t].location@ == "query"@
                        &&& (properties_of(schema)[t].1 matches Some(x) ==> list@[t].schema == x)
                        &&& list@[t].required == stays_required(list@[t].schema, true)
                        &&& description_matches(list@[t].description, list@[t].schema)
                    },
            decreases rest@.len(),
        {
            let ghost r0 = rest@;
            let (key, prop) = rest.remove(0);
            proof {
                assert(r0[0] == all_props[i as int]);
                assert(rest@ =~= all_props.skip(i as int + 1));
                assert(all_props[i as int].0@ == properties_of(schema)[i as int].0);
                assert(prop == properties_of(schema)[i as int].1);
            }
            let prop_schema = match prop {
                Some(x) => x,
                None => SchemaObject::default(),
            };
            list.push(parameter_from_schema(prop_schema, key, true));
            i = i + 1;
        }
    } else {
        let mut i: usize = 0;
        while i < fields.len()
            invariant
                i <= fields@.len(),
                list@.len() == i,
                forall|t: int|
                    0 <= t < i ==> {
                        &&& (#[trigger] list@[t]).name == fields@[t]
                        &&& list@[t].location@ == "query"@
                        &&& list@[t].schema == schema
                        &&& list@[t].required
                        &&& description_matches(list@[t].description, schema)
                    },
            decreases fields@.len() - i,
        {
            let p = parameter_from_schema(clone_schema(&schema), fields[i].clone(), true);
            list.push(ParameterSpec { required: true, ..p });
            i = i + 1;
        }
    }
    list
}

/// An object-shaped query type gives one parameter per declared property, and a property
/// given by a schema object is required exactly where its `nullable` extension is absent or
/// false.
pub proof fn law_object_query_parameters(schema: SchemaObject, fields: Seq<String>, r: Seq<ParameterSpec>)
    requires
        is_object_of(schema),
        query_parameters(schema, fields, r),
    ensures
        r.len() == properties_of(schema).len(),
        forall|i: int|
            0 <= i < r.len() && properties_of(schema)[i].1 is Some ==> ((#[trigger] r[i]).required <==> (
            nullable_of(properties_of(schema)[i].1->0) is None || nullable_of(properties_of(schema)[i].1->0)
                == Some(false))),
{
    assert forall|i: int| 0 <= i < r.len() && properties_of(schema)[i].1 is Some implies ((
    #[trigger] r[i]).required <==> (nullable_of(properties_of(schema)[i].1->0) is None || nullable_of(
        properties_of(schema)[i].1->0,
    ) == Some(false))) by {
        let flag = nullable_of(properties_of(schema)[i].1->0);
        if let Some(b) = flag {
            assert(b || flag == Some(false));
        }
    }
}

/// A query type whose schema is not an object, or has no instance type, and which declares
/// one field gives one required parameter bound to the whole schema, whatever its
/// `nullable` extension says.
pub proof fn law_fallback_query_parameter(schema: SchemaObject, fields: Seq<String>, r: Seq<ParameterSpec>)
    requires
        !is_object_of(schema),
        fields.len() == 1,
        query_parameters(schema, fields, r),
    ensures
        r.len() == 1,
        r[0].name == fields[0],
        r[0].schema == schema,
        r[0].required,
{
}

/// The query parameters of a query type; a type with no derived schema gives none.
pub fn parse_query(ty: &TypeDescriptor) -> (r: Vec<ParameterSpec>)
    ensures
        ty.schema is None ==> r@.len() == 0,
        ty.schema matches Some(s) ==> query_parameters(s, ty.fields@, r@),
{
    match &ty.schema {
        Some(s) => query(clone_schema(s), &ty.fields),
        None => Vec::new(),
    }
}

/// The required header parameter `name`, whose schema is `schema`.
pub fn header_parameter(name: String, schema: SchemaObject) -> (r: ParameterSpec)
    ensures
        r.name == name,
        r.location@ == "header"@,
        r.required,
        r.description is None,
        r.schema == schema,
{
    ParameterSpec { name, location: "header".to_string(), description: None, required: true, schema }
}

/// A request body of content type `content_type` holding `schema`.
pub fn schema_request_body(schema: SchemaObject, content_type: String, required: bool) -> (r: RequestBody)
    ensures
        r.description is None,
        r.required == required,
        r.content@.len() == 1,
        r.content@[0].0 == content_type,
        r.content@[0].1@ == schema_media(schema),
{
    let media = MediaType {
        schema: Some(SchemaNode::Derived(schema)),
        example: None,
        examples: None,
        encoding: Vec::new(),
        extensions: Vec::new(),
    };
    proof {
        assert(media@ =~= schema_media(schema));
    }
    let mut content: Vec<(String, MediaType)> = Vec::new();
    content.push((content_type, media));
    RequestBody { description: None, content, required }
}

/// Names of the types whose request body is raw text or bytes.
pub open spec fn is_raw_body_name(n: Seq<char>) -> bool {
    n == "String"@ || n == "str"@ || n == "Cow"@ || n == "Vec"@ || n == "Bytes"@ || n == "[u8]"@
}

proof fn lemma_body_names_distinct()
    ensures
        !is_raw_body_name("Json"@),
        !is_raw_body_name("Option"@),
        !is_raw_body_name("Result"@),
        "Json"@ != "Option"@,
        "Json"@ != "Result"@,
        "Option"@ != "Result"@,
{
    reveal_strlit("Json");
    reveal_strlit("Option");
    reveal_strlit("Result");
    reveal_strlit("String");
    reveal_strlit("str");
    reveal_strlit("Cow");
    reveal_strlit("Vec");
    reveal_strlit("Bytes");
    reveal_strlit("[u8]");
    assert("[u8]"@.len() == 4 && "[u8]"@[0] == '[');
    assert("Json"@.len() == 4 && "Json"@[0] == 'J');
    assert("Option"@.len() == 6 && "Option"@[0] == 'O');
    assert("Result"@.len() == 6 && "Result"@[0] == 'R');
    assert("String"@.len() == 6 && "String"@[0] == 'S');
    assert("str"@.len() == 3);
    assert("Cow"@.len() == 3);
    assert("Vec"@.len() == 3);
    assert("Bytes"@.len() == 5);
}

/// The error that describing the request body of `ty` meets, if any.
pub open spec fn body_error(ty: TypeDescriptor) -> Option<OpenApiError>
    decreases ty,
{
    let n = ty.name@;
    if n == "Json"@ && ty.args@.len() > 0 {
        if ty.args@[0].schema is None {
            Some(OpenApiError::MissingSchema(ty.args@[0].name))
        } else {
            None
        }
    } else if is_raw_body_name(n) {
        if ty.schema is None {
            Some(OpenApiError::MissingSchema(ty.name))
        } else {
            None
        }
    } else if (n == "Option"@ || n == "Result"@) && ty.args@.len() > 0 {
        body_error(ty.args@[0])
    } else {
        Some(OpenApiError::NoRequestBody(ty.name))
    }
}

/// `c` and `b` have the same content and description.
pub open spec fn same_content(c: RequestBody, b: RequestBody) -> bool {
    c.content@ == b.content@ && c.description == b.description
}

/// `b` is the request body that a value of type `ty` is read from. A JSON wrapper gives
/// `application/json` with the schema of its argument; raw text and bytes give
/// `application/octet-stream` with their own schema; a result wrapper gives the body of its
/// success type; an optional wrapper gives the body of its argument, not required.
pub open spec fn body_for(ty: TypeDescriptor, b: RequestBody) -> bool
    decreases ty,
{
    let n = ty.name@;
    if n == "Json"@ && ty.args@.len() > 0 {
        match ty.args@[0].schema {
            Some(x) => b.required && b.description is None && b.content@.len() == 1 && b.content@[0].0@
                == "application/json"@ && b.content@[0].1@ == schema_media(x),
            None => false,
        }
    } else if is_raw_body_name(n) {
        match ty.schema {
            Some(x) => b.required && b.description is None && b.content@.len() == 1 && b.content@[0].0@
                == "application/octet-stream"@ && b.content@[0].1@ == schema_media(x),
            None => false,
        }
    } else if n == "Option"@ && ty.args@.len() > 0 {
        !b.required && exists|c: RequestBody| body_for(ty.args@[0], c) && #[trigger] same_content(c, b)
    } else if n == "Result"@ && ty.args@.len() > 0 {
        body_for(ty.args@[0], b)
    } else {
        false
    }
}

/// The request body that a value of type `ty` is read from, as `body_for` describes it; fails
/// with `body_error(ty)` where there is one.
pub fn request_body(ty: &TypeDescriptor) -> (r: Result<RequestBody, OpenApiError>)
    ensures
        match r {
            Ok(b) => body_error(*ty) is None && body_for(*ty, b),
            Err(e) => body_error(*ty) == Some(e),
        },
    decreases depth(*ty),
{
    let has_arg = ty.args.len() > 0;
    proof {
        lemma_body_names_distinct();
    }
    if has_arg && ty.name == "Json".to_string() {
        match &ty.args[0].schema {
            Some(s) => Ok(schema_request_body(clone_schema(s), "application/json".to_string(), true)),
            None => Err(OpenApiError::MissingSchema(ty.args[0].name.clone())),
        }
    } else if ty.name == "String".to_string() || ty.name == "str".to_string() || ty.name == "Cow".to_string()
        || ty.name == "Vec".to_string() || ty.name == "Bytes".to_string() || ty.name == "[u8]".to_string() {
        match &ty.schema {
            Some(s) => Ok(
                schema_request_body(clone_schema(s), "application/octet-stream".to_string(), true),
            ),
            None => Err(OpenApiError::MissingSchema(ty.name.clone())),
        }
    } else if has_arg && ty.name == "Option".to_string() {
        match request_body(&ty.args[0]) {
            Ok(b) => {
                let ghost c = b;
                let out = RequestBody { required: false, ..b };
                proof {
                    assert(body_for(ty.args@[0], c) && same_content(c, out));
                }
                Ok(out)
            },
            Err(e) => Err(e),
        }
    } else if has_arg && ty.name == "Result".to_string() {
        request_body(&ty.args[0])
    } else {
        Err(OpenApiError::NoRequestBody(ty.name.clone()))
    }
}

/// `s` holds only a response for `status`, with an empty description and one media type
/// entry `m` under content type `ct`.
pub open spec fn single_response(s: ResponseSetView, status: u16, ct: Seq<char>, m: MediaTypeView) -> bool {
    &&& s.default is None
    &&& s.extensions.len() == 0
    &&& s.responses.len() == 1
    &&& s.responses[0].0@ == status_text_of(status)
    &&& s.responses[0].1 matches ResponseEntryView::Object(o) && {
        &&& o.description.len() == 0
        &&& o.headers.len() == 0
        &&& o.links.len() == 0
        &&& o.extensions.len() == 0
        &&& o.content.len() == 1
        &&& o.content[0].0@ == ct
        &&& o.content[0].1 == m
    }
}

/// The response set with no responses.
pub open spec fn no_responses() -> ResponseSetView {
    ResponseSetView { default: None, responses: Seq::empty(), extensions: Seq::empty() }
}

/// A response set with a success response holding `schema` under `content_type`.
fn schema_responses(schema: SchemaObject, content_type: String) -> (r: ResponseSet)
    ensures
        r.wf(),
        single_response(r@, 200, content_type@, schema_media(schema)),
{
    let mut set = ResponseSet::new();
    proof {
        assert(set@.responses =~= Seq::<(String, ResponseEntryView)>::empty());
        lemma_key_index_bounds(set@.responses, status_text_of(200));
    }
    let added = add_schema_response(&mut set, 200, content_type, schema);
    proof {
        assert(added is Ok);
        assert(set@.responses.drop_last().len() == 0);
    }
    set
}

/// The responses of a JSON payload with schema `schema`.
pub fn json_responses(schema: SchemaObject) -> (r: ResponseSet)
    ensures
        r.wf(),
        single_response(r@, 200, "application/json"@, schema_media(schema)),
{
    schema_responses(schema, "application/json".to_string())
}

/// The responses of a text payload with schema `schema`.
pub fn text_responses(schema: SchemaObject) -> (r: ResponseSet)
    ensures
        r.wf(),
        single_response(r@, 200, "text/plain"@, schema_media(schema)),
{
    schema_responses(schema, "text/plain".to_string())
}

/// The responses of a byte payload with schema `schema`.
pub fn binary_responses(schema: SchemaObject) -> (r: ResponseSet)
    ensures
        r.wf(),
        single_response(r@, 200, "application/octet-stream"@, schema_media(schema)),
{
    schema_responses(schema, "application/octet-stream".to_string())
}

/// The responses of a handler that returns nothing: a blank success response.
pub fn unit_responses() -> (r: ResponseSet)
    ensures
        r.wf(),
        status_ensured(no_responses(), status_text_of(200), r@),
{
    let mut set = ResponseSet::new();
    proof {
        assert(set@.responses =~= Seq::<(String, ResponseEntryView)>::empty());
        assert(set@.extensions =~= Seq::<(String, serde_json::Value)>::empty());
    }
    ensure_status_code_exists(&mut set, 200);
    set
}

/// The responses of an optional payload: those of the payload, and a not-found response.
pub fn optional_responses(inner: ResponseSet) -> (r: ResponseSet)
    requires
        inner.wf(),
    ensures
        r.wf(),
        status_ensured(inner@, status_text_of(404), r@),
        has_key(r@.responses, status_text_of(404)),
{
    let mut set = inner;
    ensure_status_code_exists(&mut set, 404);
    proof {
        lemma_view_entries_keys(set.responses@, status_text_of(404));
    }
    set
}

/// The responses of a borrowed-or-owned payload: those of the payload, and a success response.
pub fn cow_responses(inner: ResponseSet) -> (r: ResponseSet)
    requires
        inner.wf(),
    ensures
        r.wf(),
        status_ensured(inner@, status_text_of(200), r@),
        has_key(r@.responses, status_text_of(200)),
{
    let mut set = inner;
    ensure_status_code_exists(&mut set, 200);
    proof {
        lemma_view_entries_keys(set.responses@, status_text_of(200));
    }
    set
}

/// Names of the types whose responses are plain text.
pub open spec fn is_text_name(n: Seq<char>) -> bool {
    n == "String"@ || n == "str"@
}

/// Names of the types whose responses are raw bytes.
pub open spec fn is_binary_name(n: Seq<char>) -> bool {
    n == "Vec"@ || n == "File"@ || n == "Bytes"@ || n == "[u8]"@
}

proof fn lemma_response_names_distinct()
    ensures
        !is_text_name("Json"@) && !is_binary_name("Json"@),
        !is_text_name("Option"@) && !is_binary_name("Option"@),
        !is_text_name("Result"@) && !is_binary_name("Result"@),
        !is_text_name("Cow"@) && !is_binary_name("Cow"@),
        !is_text_name("()"@) && !is_binary_name("()"@),
        !is_binary_name("String"@) && !is_binary_name("str"@),
        "Json"@ != "Option"@ && "Json"@ != "Result"@ && "Json"@ != "Cow"@ && "Json"@ != "()"@,
        "Option"@ != "Result"@ && "Option"@ != "Cow"@ && "Option"@ != "()"@,
        "Result"@ != "Cow"@ && "Result"@ != "()"@ && "Cow"@ != "()"@,
{
    reveal_strlit("Json");
    reveal_strlit("Option");
    reveal_strlit("Result");
    reveal_strlit("String");
    reveal_strlit("str");
    reveal_strlit("Cow");
    reveal_strlit("Vec");
    reveal_strlit("File");
    reveal_strlit("Bytes");
    reveal_strlit("()");
    reveal_strlit("[u8]");
    assert("[u8]"@.len() == 4 && "[u8]"@[0] == '[');
    assert("Json"@.len() == 4 && "Json"@[0] == 'J');
    assert("File"@.len() == 4 && "File"@[0] == 'F');
    assert("Option"@.len() == 6 && "Option"@[0] == 'O');
    assert("Result"@.len() == 6 && "Result"@[0] == 'R');
    assert("String"@.len() == 6 && "String"@[0] == 'S');
    assert("str"@.len() == 3 && "str"@[0] == 's');
    assert("Cow"@.len() == 3 && "Cow"@[0] == 'C');
    assert("Vec"@.len() == 3 && "Vec"@[0] == 'V');
    assert("Bytes"@.len() == 5);
    assert("()"@.len() == 2);
}

/// The error that describing the responses of `ty` meets, if any: a payload type without a
/// schema, or a type with no response description. A result wrapper meets the error of its
/// success type first.
pub open spec fn responses_error(ty: TypeDescriptor) -> Option<OpenApiError>
    decreases ty,
{
    let n = ty.name@;
    if n == "Json"@ && ty.args@.len() > 0 {
        if ty.args@[0].schema is None {
            Some(OpenApiError::MissingSchema(ty.args@[0].name))
        } else {
            None
        }
    } else if is_text_name(n) || is_binary_name(n) {
        if ty.schema is None {
            Some(OpenApiError::MissingSchema(ty.name))
        } else {
            None
        }
    } else if n == "()"@ {
        None
    } else if (n == "Option"@ || n == "Cow"@) && ty.args@.len() > 0 {
        responses_error(ty.args@[0])
    } else if n == "Result"@ && ty.args@.len() > 1 {
        match responses_error(ty.args@[0]) {
            Some(e) => Some(e),
            None => responses_error(ty.args@[1]),
        }
    } else {
        Some(OpenApiError::NoResponder(ty.name))
    }
}

/// `s` is the response set of a handler returning `ty`. A JSON wrapper describes its argument
/// as `application/json`; text and bytes describe themselves; `()` gives a blank success
/// response; an optional wrapper ensures a not-found response in the set of its argument; a
/// borrowed-or-owned wrapper ensures a success response; a result wrapper is the merge of the
/// sets of its success and error types. Every response is given in place.
pub open spec fn responds(ty: TypeDescriptor, s: ResponseSetView) -> bool
    decreases ty,
{
    let n = ty.name@;
    &&& all_objects(s.responses)
    &&& if n == "Json"@ && ty.args@.len() > 0 {
        match ty.args@[0].schema {
            Some(x) => single_response(s, 200, "application/json"@, schema_media(x)),
            None => false,
        }
    } else if is_text_name(n) {
        match ty.schema {
            Some(x) => single_response(s, 200, "text/plain"@, schema_media(x)),
            None => false,
        }
    } else if is_binary_name(n) {
        match ty.schema {
            Some(x) => single_response(s, 200, "application/octet-stream"@, schema_media(x)),
            None => false,
        }
    } else if n == "()"@ {
        status_ensured(no_responses(), status_text_of(200), s)
    } else if n == "Option"@ && ty.args@.len() > 0 {
        exists|t: ResponseSetView| responds(ty.args@[0], t) && #[trigger] status_ensured(t, status_text_of(404), s)
    } else if n == "Cow"@ && ty.args@.len() > 0 {
        exists|t: ResponseSetView| responds(ty.args@[0], t) && #[trigger] status_ensured(t, status_text_of(200), s)
    } else if n == "Result"@ && ty.args@.len() > 1 {
        exists|a: ResponseSetView, b: ResponseSetView|
            responds(ty.args@[0], a) && responds(ty.args@[1], b) && #[trigger] merge_all(a.responses, b.responses)
                == Some(s.responses) && #[trigger] merged_default(a.default, b.default) == s.default && s.default == merged_default(a.default, b.default) && s.extensions
                == insert_all(a.extensions, b.extensions)
    } else {
        false
    }
}

proof fn lemma_ensured_objects(t: ResponseSetView, k: Seq<char>, s: ResponseSetView)
    requires
        all_objects(t.responses),
        status_ensured(t, k, s),
    ensures
        all_objects(s.responses),
{
    if s != t {
        assert forall|i: int| 0 <= i < s.responses.len() implies (#[trigger] s.responses[i].1) is Object by {
            if i < t.responses.len() {
                assert(s.responses.drop_last()[i] == s.responses[i]);
            }
        }
    }
}

/// The responses that a handler returning `ty` can give, as `responds` describes them; fails
/// with `responses_error(ty)` where there is one.
pub fn responses(ty: &TypeDescriptor) -> (r: Result<ResponseSet, OpenApiError>)
    ensures
        match r {
            Ok(s) => s.wf() && responses_error(*ty) is None && responds(*ty, s@),
            Err(e) => responses_error(*ty) == Some(e),
        },
    decreases ty,
{
    proof {
        lemma_response_names_distinct();
        reveal_with_fuel(responds, 2);
    }
    let n: usize = ty.args.len();
    if n > 0 && ty.name == "Json".to_string() {
        match &ty.args[0].schema {
            Some(x) => {
                let out = json_responses(clone_schema(x));
                proof {
                    assert(all_objects(out@.responses)) by {
                        assert forall|i: int| 0 <= i < out@.responses.len() implies (#[trigger] out@.responses[i].1) is Object by {
                            assert(i == 0);
                        }
                    }
                    assert(responds(*ty, out@));
                }
                Ok(out)
            },
            None => Err(OpenApiError::MissingSchema(ty.args[0].name.clone())),
        }
    } else if ty.name == "String".to_string() || ty.name == "str".to_string() {
        match &ty.schema {
            Some(x) => {
                let out = text_responses(clone_schema(x));
                proof {
                    assert(all_objects(out@.responses)) by {
                        assert forall|i: int| 0 <= i < out@.responses.len() implies (#[trigger] out@.responses[i].1) is Object by {
                            assert(i == 0);
                        }
                    }
                    assert(responds(*ty, out@));
                }
                Ok(out)
            },
            None => Err(OpenApiError::MissingSchema(ty.name.clone())),
        }
    } else if ty.name == "Vec".to_string() || ty.name == "File".to_string() || ty.name == "Bytes".to_string()
        || ty.name == "[u8]".to_string() {
        match &ty.schema {
            Some(x) => {
                let out = binary_responses(clone_schema(x));
                proof {
                    assert(all_objects(out@.responses)) by {
                        assert forall|i: int| 0 <= i < out@.responses.len() implies (#[trigger] out@.responses[i].1) is Object by {
                            assert(i == 0);
                        }
                    }
                    assert(responds(*ty, out@));
                }
                Ok(out)
            },
            None => Err(OpenApiError::MissingSchema(ty.name.clone())),
        }
    } else if ty.name == "()".to_string() {
        let out = unit_responses();
        proof {
            lemma_ensured_objects(no_responses(), status_text_of(200), out@);
            assert(responds(*ty, out@));
        }
        Ok(out)
    } else if n > 0 && ty.name == "Option".to_string() {
        match responses(&ty.args[0]) {
            Ok(inner) => {
                let ghost t = inner@;
                let out = optional_responses(inner);
                proof {
                    lemma_ensured_objects(t, status_text_of(404), out@);
                    assert(responds(ty.args@[0], t) && status_ensured(t, status_text_of(404), out@));
                    assert(all_objects(out@.responses));
                    assert(responds(*ty, out@));
                }
                Ok(out)
            },
            Err(e) => Err(e),
        }
    } else if n > 0 && ty.name == "Cow".to_string() {
        match responses(&ty.args[0]) {
            Ok(inner) => {
                let ghost t = inner@;
                let out = cow_responses(inner);
                proof {
                    lemma_ensured_objects(t, status_text_of(200), out@);
                    assert(responds(ty.args@[0], t) && status_ensured(t, status_text_of(200), out@));
                    assert(all_objects(out@.responses));
                    assert(responds(*ty, out@));
                }
                Ok(out)
            },
            Err(e) => Err(e),
        }
    } else if n > 1 && ty.name == "Result".to_string() {
        let ok = match responses(&ty.args[0]) {
            Ok(s) => s,
            Err(e) => {
                return Err(e);
            },
        };
        let err = match responses(&ty.args[1]) {
            Ok(s) => s,
            Err(e) => {
                return Err(e);
            },
        };
        proof {
            lemma_merge_objects(ok@.responses, err@.responses);
        }
        let ghost (a, b) = (ok@, err@);
        let merged = produce_any_responses(ok, err);
        proof {
            assert(responds(ty.args@[0], a) && responds(ty.args@[1], b));
        }
        merged
    } else {
        Err(OpenApiError::NoResponder(ty.name.clone()))
    }
}


/// Types that describe the responses a handler returning them can give.
pub trait OpenApiResponderInner {
    fn responses(&self) -> Result<ResponseSet, OpenApiError>;
}

impl OpenApiResponderInner for TypeDescriptor {
    fn responses(&self) -> Result<ResponseSet, OpenApiError> {
        responses(self)
    }
}

/// Types that describe the request body they are read from.
pub trait OpenApiFromData {
    fn request_body(&self) -> Result<RequestBody, OpenApiError>;
}

impl OpenApiFromData for TypeDescriptor {
    fn request_body(&self) -> Result<RequestBody, OpenApiError> {
        request_body(self)
    }
}

/// The responses of a result type hold every status that its success type's responses hold
/// and every status that its error type's responses hold.
pub proof fn law_result_responses_keep_statuses(ty: TypeDescriptor, s: ResponseSetView)
    requires
        ty.name@ == "Result"@,
        ty.args@.len() > 1,
        responds(ty, s),
    ensures
        exists|a: ResponseSetView, b: ResponseSetView|
            responds(ty.args@[0], a) && responds(ty.args@[1], b) && #[trigger] merge_all(a.responses, b.responses)
                == Some(s.responses) && forall|q: Seq<char>|
                has_key(a.responses, q) || has_key(b.responses, q) ==> #[trigger] has_key(s.responses, q),
{
    lemma_response_names_distinct();
    let (a, b) = choose|a: ResponseSetView, b: ResponseSetView|
        responds(ty.args@[0], a) && responds(ty.args@[1], b) && #[trigger] merge_all(a.responses, b.responses)
            == Some(s.responses) && #[trigger] merged_default(a.default, b.default) == s.default && s.extensions
            == insert_all(a.extensions, b.extensions);
    assert forall|q: Seq<char>| has_key(a.responses, q) || has_key(b.responses, q) implies #[trigger] has_key(
        s.responses,
        q,
    ) by {
        law_merge_keeps_statuses(a.responses, b.responses, q);
    }
}

/// The responses of an optional type hold a not-found response, whatever the responses of its
/// argument hold.
pub proof fn law_optional_responses_have_not_found(ty: TypeDescriptor, s: ResponseSetView)
    requires
        ty.name@ == "Option"@,
        ty.args@.len() > 0,
        responds(ty, s),
    ensures
        has_key(s.responses, status_text_of(404)),
{
    lemma_response_names_distinct();
    let t = choose|t: ResponseSetView| responds(ty.args@[0], t) && #[trigger] status_ensured(t, status_text_of(404), s);
    let k = status_text_of(404);
    lemma_key_index_bounds(t.responses, k);
    lemma_key_index_bounds(s.responses, k);
    if key_index(t.responses, k) < 0 {
        assert(s.responses[s.responses.len() - 1].0@ == k);
    }
}

} // verus!
