//! Assembling one operation from a handler's declared shape, and the registry that gathers
//! operations and security schemes.
use vstd::prelude::*;
use crate::bindings::clone_schema;
use crate::classify::{
    chain, classify, classify_parameter, classify_params, source_of, ClassificationTable,
    ParameterSource, TypeDescriptor,
};
use crate::keyed::{has_key, insert_entry, insert_key, keys_unique, lemma_insert_entry_unique, lookup};
use crate::method::OpenApiMethod;
use crate::model::{Operation, OpenApiError, ParameterSpec, RequestBody, RequestHeaderInput, ResponseSet};
use crate::bindings::status_text_of;
use crate::merge::{schema_media, status_ensured};
use crate::synth::{
    header_parameter, no_responses, parse_query, query_parameters, responds, responses,
    responses_error, schema_request_body, unit_responses,
};
use okapi::openapi3::{SecurityRequirement, SecurityScheme};
use schemars::schema::SchemaObject;

verus! {

/// An operation and where it is served.
pub struct OperationInfo {
    /// The path of the endpoint.
    pub path: String,
    /// The HTTP method of the endpoint.
    pub method: OpenApiMethod,
    /// What the documentation shows of the endpoint.
    pub operation: Operation,
}

/// The static metadata of a handler.
pub struct HandlerAttributes {
    pub method: OpenApiMethod,
    pub summary: String,
    pub description: String,
    pub tags: Vec<String>,
}

/// The declared shape of a handler: its name, its parameter types in order, its return type.
pub struct HandlerShape {
    pub name: String,
    pub params: Vec<TypeDescriptor>,
    pub ret: TypeDescriptor,
}

/// What the extractor types of a handler report of themselves.
pub struct ExtractorInputs {
    /// What the authentication extractor's hook gave.
    pub security: RequestHeaderInput,
    /// The header name of the header extractor's header type.
    pub header_name: Option<String>,
    /// The schema of a string, for header parameters.
    pub string_schema: Option<SchemaObject>,
}

/// The security scheme registry and the operations gathered so far.
pub struct OpenApiGenerator {
    pub security_schemes: Vec<(String, SecurityScheme)>,
    pub operations: Vec<OperationInfo>,
}

impl OpenApiGenerator {
    /// No scheme name occurs twice.
    pub open spec fn wf(&self) -> bool {
        keys_unique(self.security_schemes@)
    }

    pub fn new() -> (r: OpenApiGenerator)
        ensures
            r.wf(),
            r.security_schemes@.len() == 0,
            r.operations@.len() == 0,
    {
        OpenApiGenerator { security_schemes: Vec::new(), operations: Vec::new() }
    }

    /// Registers `scheme` under `name`; a later registration under the same name replaces the
    /// earlier one in place.
    pub fn add_security_scheme(&mut self, name: String, scheme: SecurityScheme)
        requires
            old(self).wf(),
        ensures
            final(self).wf(),
            final(self).security_schemes@ == insert_entry(old(self).security_schemes@, name, scheme),
            lookup(final(self).security_schemes@, name@) == Some(scheme),
            final(self).operations@ == old(self).operations@,
    {
        proof {
            lemma_insert_entry_unique(self.security_schemes@, name, scheme);
        }
        insert_key(&mut self.security_schemes, name, scheme);
    }

    /// Hands over one finished operation.
    pub fn add_operation(&mut self, info: OperationInfo)
        ensures
            final(self).operations@ == old(self).operations@.push(info),
            final(self).security_schemes@ == old(self).security_schemes@,
    {
        self.operations.push(info);
    }
}

/// The first type named `name` along the first generic arguments of `t`, outermost first.
pub open spec fn type_in(t: TypeDescriptor, name: Seq<char>) -> Option<TypeDescriptor>
    decreases t,
{
    if t.name@ == name {
        Some(t)
    } else if t.args.len() > 0 {
        type_in(t.args@[0], name)
    } else {
        None
    }
}

/// The type named `name` along the first generic arguments of one of `ps`, searching the last
/// parameter first.
pub open spec fn find_in(ps: Seq<TypeDescriptor>, name: Seq<char>) -> Option<TypeDescriptor>
    decreases ps.len(),
{
    if ps.len() == 0 {
        None
    } else {
        match type_in(ps.last(), name) {
            Some(t) => Some(t),
            None => find_in(ps.drop_last(), name),
        }
    }
}

fn find_in_chain<'a>(t: &'a TypeDescriptor, name: &String) -> (r: Option<&'a TypeDescriptor>)
    ensures
        match r {
            Some(x) => type_in(*t, name@) == Some(*x),
            None => type_in(*t, name@) is None,
        },
    decreases t,
{
    if t.name == *name {
        Some(t)
    } else if t.args.len() > 0 {
        find_in_chain(&t.args[0], name)
    } else {
        None
    }
}

/// The type named `name` along the first generic arguments of one of `params`, the last such
/// parameter first.
pub fn find_type<'a>(params: &'a Vec<TypeDescriptor>, name: &String) -> (r: Option<&'a TypeDescriptor>)
    ensures
        match r {
            Some(t) => find_in(params@, name@) == Some(*t),
            None => find_in(params@, name@) is None,
        },
{
    let mut i: usize = params.len();
    proof {
        assert(params@.take(i as int) =~= params@);
    }
    while i > 0
        invariant
            i <= params@.len(),
            find_in(params@, name@) == find_in(params@.take(i as int), name@),
        decreases i,
    {
        i = i - 1;
        proof {
            assert(params@.take(i as int + 1).drop_last() =~= params@.take(i as int));
            assert(params@.take(i as int + 1).last() == params@[i as int]);
        }
        match find_in_chain(&params[i], name) {
            Some(t) => {
                return Some(t);
            },
            None => {},
        }
    }
    None
}

/// Whether the last parameter of `ps` that supplies the request body is an optional wrapper.
pub open spec fn body_optional(table: ClassificationTable, ps: Seq<TypeDescriptor>) -> bool
    decreases ps.len(),
{
    if ps.len() == 0 {
        false
    } else if source_of(table, chain(ps.last())) is Body {
        ps.last().name@ == "Option"@
    } else {
        body_optional(table, ps.drop_last())
    }
}

/// Whether the last parameter that supplies the request body is an optional wrapper.
pub fn body_is_optional(table: &ClassificationTable, params: &Vec<TypeDescriptor>) -> (r: bool)
    ensures
        r == body_optional(*table, params@),
{
    let mut opt = false;
    let mut i: usize = 0;
    while i < params.len()
        invariant
            i <= params@.len(),
            opt == body_optional(*table, params@.take(i as int)),
        decreases params@.len() - i,
    {
        proof {
            assert(params@.take(i as int + 1).drop_last() =~= params@.take(i as int));
        }
        match classify_parameter(table, &params[i]) {
            ParameterSource::Body(_) => {
                opt = params[i].name == "Option".to_string();
            },
            _ => {},
        }
        i = i + 1;
    }
    proof {
        assert(params@.take(i as int) =~= params@);
    }
    opt
}

/// The security requirement and the scheme to register that a handler's authentication
/// extractor gives, where it gives a security scheme.
pub open spec fn security_of(sig_has_security: bool, input: RequestHeaderInput) -> Option<(String, SecurityScheme, SecurityRequirement)> {
    match input {
        RequestHeaderInput::Security(n, s, q) => if sig_has_security {
            Some((n, s, q))
        } else {
            None
        },
        _ => None,
    }
}

/// The type whose schema the request body holds: the type named by the body role, found
/// along the parameters.
pub open spec fn body_type(table: ClassificationTable, shape: HandlerShape) -> Option<TypeDescriptor> {
    match classify_params(table, shape.params@).body {
        Some(b) => find_in(shape.params@, b),
        None => None,
    }
}

/// The body role names a type that has no schema, or that is not found.
pub open spec fn body_missing(table: ClassificationTable, shape: HandlerShape) -> bool {
    classify_params(table, shape.params@).body is Some && match body_type(table, shape) {
        Some(t) => t.schema is None,
        None => true,
    }
}

/// Describing the handler fails: its body type has no schema, or describing the responses of
/// its return type meets an error other than the return type having no responses.
pub open spec fn handler_fails(table: ClassificationTable, shape: HandlerShape) -> bool {
    body_missing(table, shape) || (responses_error(shape.ret) matches Some(e) && !(e is NoResponder))
}

/// `q` are the query parameters of the type named by the query role: those of its schema, or
/// none where there is no such type or it has no schema.
pub open spec fn query_fragment(table: ClassificationTable, shape: HandlerShape, q: Seq<ParameterSpec>) -> bool {
    let t = match classify_params(table, shape.params@).query {
        Some(n) => find_in(shape.params@, n),
        None => None,
    };
    match t {
        Some(t) => match t.schema {
            Some(s) => query_parameters(s, t.fields@, q),
            None => q.len() == 0,
        },
        None => q.len() == 0,
    }
}

/// A header parameter is added: a header extractor is present and both its header name and
/// the string schema are given.
pub open spec fn has_header(table: ClassificationTable, shape: HandlerShape, inputs: ExtractorInputs) -> bool {
    classify_params(table, shape.params@).header is Some && inputs.header_name is Some
        && inputs.string_schema is Some
}

/// `info` is the operation that a handler with shape `shape` describes. The parameters are the
/// query parameters of the query type, followed by the header parameter where there is one;
/// the request body holds the body type's schema as JSON, required unless the body parameter
/// is an optional wrapper; the responses are those of the return type, or a blank success
/// response where the return type has none; the security requirement is what the
/// authentication extractor's hook gave.
pub open spec fn describes(
    table: ClassificationTable,
    attrs: HandlerAttributes,
    shape: HandlerShape,
    path: String,
    inputs: ExtractorInputs,
    info: OperationInfo,
) -> bool {
    let op = info.operation;
    let ps = op.parameters@;
    &&& info.path == path
    &&& info.method == attrs.method
    &&& op.tags == attrs.tags
    &&& op.summary == Some(attrs.summary)
    &&& op.description == Some(attrs.description)
    &&& (op.operation_id matches Some(id) && id@ == shape.name@)
    &&& op.responses.wf()
    &&& if has_header(table, shape, inputs) {
        &&& ps.len() > 0
        &&& query_fragment(table, shape, ps.drop_last())
        &&& ps.last().name == inputs.header_name->0
        &&& ps.last().location@ == "header"@
        &&& ps.last().required
        &&& ps.last().description is None
        &&& ps.last().schema == inputs.string_schema->0
    } else {
        query_fragment(table, shape, ps)
    }
    &&& match body_type(table, shape) {
        Some(t) => (op.request_body matches Some(b) && {
            &&& b.required == !body_optional(table, shape.params@)
            &&& b.description is None
            &&& b.content@.len() == 1
            &&& b.content@[0].0@ == "application/json"@
            &&& t.schema matches Some(x) && b.content@[0].1@ == schema_media(x)
        }),
        None => op.request_body is None,
    }
    &&& match responses_error(shape.ret) {
        None => responds(shape.ret, op.responses@),
        Some(_) => status_ensured(no_responses(), status_text_of(200), op.responses@),
    }
    &&& match security_of(classify_params(table, shape.params@).security is Some, inputs.security) {
        Some((n, s, q)) => op.security matches Some(v) && v@ == seq![q],
        None => op.security is None,
    }
}

/// The operation that a handler describes, and the security scheme that it needs registered,
/// as `describes` states. Fails exactly where `handler_fails` holds: with the missing body
/// type, or with the error met describing the responses.
pub fn parse_handler(
    table: &ClassificationTable,
    attrs: HandlerAttributes,
    shape: &HandlerShape,
    path: String,
    inputs: ExtractorInputs,
) -> (r: Result<(OperationInfo, Option<(String, SecurityScheme)>), OpenApiError>)
    ensures
        r is Err <==> handler_fails(*table, *shape),
        r matches Err(e) ==> if body_missing(*table, *shape) {
            e matches OpenApiError::MissingSchema(n) && Some(n@) == classify_params(*table, shape.params@).body
        } else {
            Some(e) == responses_error(shape.ret)
        },
        r matches Ok((info, scheme)) ==> {
            &&& describes(*table, attrs, *shape, path, inputs, info)
            &&& match security_of(classify_params(*table, shape.params@).security is Some, inputs.security) {
                Some((n, s, q)) => scheme == Some((n, s)),
                None => scheme is None,
            }
        },
{
    let sig = classify(table, &shape.params, &shape.ret);
    let mut parameters: Vec<ParameterSpec> = match &sig.query {
        Some(q) => match find_type(&shape.params, q) {
            Some(t) => parse_query(t),
            None => Vec::new(),
        },
        None => Vec::new(),
    };
    if sig.header.is_some() {
        match (inputs.header_name, inputs.string_schema) {
            (Some(h), Some(s)) => parameters.push(header_parameter(h, s)),
            _ => {},
        }
    }
    let request_body: Option<RequestBody> = match &sig.body {
        Some(b) => match find_type(&shape.params, b) {
            Some(t) => match &t.schema {
                Some(s) => Some(
                    schema_request_body(
                        clone_schema(s),
                        "application/json".to_string(),
                        !body_is_optional(table, &shape.params),
                    ),
                ),
                None => {
                    return Err(OpenApiError::MissingSchema(b.clone()));
                },
            },
            None => {
                return Err(OpenApiError::MissingSchema(b.clone()));
            },
        },
        None => None,
    };
    let (security, scheme) = match inputs.security {
        RequestHeaderInput::Security(n, s, q) => if sig.security.is_some() {
            let mut v: Vec<SecurityRequirement> = Vec::new();
            v.push(q);
            (Some(v), Some((n, s)))
        } else {
            (None, None)
        },
        _ => (None, None),
    };
    let responses: ResponseSet = match responses(&shape.ret) {
        Ok(s) => s,
        Err(OpenApiError::NoResponder(_)) => unit_responses(),
        Err(e) => {
            return Err(e);
        },
    };
    let operation = Operation {
        parameters,
        request_body,
        responses,
        security,
        tags: attrs.tags,
        summary: Some(attrs.summary),
        description: Some(attrs.description),
        operation_id: Some(shape.name.clone()),
    };
    Ok((OperationInfo { path, method: attrs.method, operation }, scheme))
}

/// Describes a handler and hands the result to `gen`: its security scheme, where it has one,
/// is registered, then the operation is added. Fails exactly where `parse_handler` does, and
/// then leaves `gen` as it was.
pub fn handler(
    gen: &mut OpenApiGenerator,
    table: &ClassificationTable,
    attrs: HandlerAttributes,
    shape: &HandlerShape,
    path: String,
    inputs: ExtractorInputs,
) -> (r: Result<(), OpenApiError>)
    requires
        old(gen).wf(),
    ensures
        final(gen).wf(),
        r is Err <==> handler_fails(*table, *shape),
        r is Err ==> *final(gen) == *old(gen),
        r is Ok ==> {
            &&& final(gen).operations@.len() == old(gen).operations@.len() + 1
            &&& final(gen).operations@.drop_last() == old(gen).operations@
            &&& describes(*table, attrs, *shape, path, inputs, final(gen).operations@.last())
        },
        r is Ok ==> match security_of(classify_params(*table, shape.params@).security is Some, inputs.security) {
            Some((n, s, q)) => final(gen).security_schemes@ == insert_entry(old(gen).security_schemes@, n, s)
                && lookup(final(gen).security_schemes@, n@) == Some(s),
            None => final(gen).security_schemes@ == old(gen).security_schemes@,
        },
{
    match parse_handler(table, attrs, shape, path, inputs) {
        Ok((info, scheme)) => {
            match scheme {
                Some((n, s)) => gen.add_security_scheme(n, s),
                None => {},
            }
            gen.add_operation(info);
            Ok(())
        },
        Err(e) => Err(e),
    }
}

/// Of several parameters that are authentication extractors, the last one names the security
/// type of the signature.
pub proof fn law_security_last_wins(table: ClassificationTable, ps: Seq<TypeDescriptor>, i: int)
    requires
        0 <= i < ps.len(),
        source_of(table, chain(ps[i])) is Security,
        forall|j: int| i < j < ps.len() ==> !(source_of(table, chain(#[trigger] ps[j])) is Security),
    ensures
        classify_params(table, ps).security == Some(chain(ps[i]).last()),
    decreases ps.len(),
{
    if i < ps.len() - 1 {
        law_security_last_wins(table, ps.drop_last(), i);
        assert(ps.drop_last()[i] == ps[i]);
        assert(!(source_of(table, chain(ps[ps.len() - 1])) is Security));
    }
}

/// A registry with one entry per scheme name keeps one entry per name after any
/// registration, and the name then holds the scheme last registered under it.
pub proof fn law_registry_one_entry_per_name(
    schemes: Seq<(String, SecurityScheme)>,
    name: String,
    scheme: SecurityScheme,
)
    requires
        keys_unique(schemes),
    ensures
        keys_unique(insert_entry(schemes, name, scheme)),
        has_key(insert_entry(schemes, name, scheme), name@),
        lookup(insert_entry(schemes, name, scheme), name@) == Some(scheme),
{
    lemma_insert_entry_unique(schemes, name, scheme);
}

} // verus!
