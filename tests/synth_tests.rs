use openapi_rs::{
    classify, classify_parameter, filter_type, header_parameter, json_responses, parameter_from_schema,
    parse_query, query, request_body, responses, text_responses, unit_responses,
    ClassificationTable, OpenApiError, OpenApiMethod, ParameterSource, ResponseEntry, ResponseSet,
    SchemaNode, TypeDescriptor,
};
use schemars::schema::{InstanceType, Metadata, ObjectValidation, Schema, SchemaObject};

fn titled(t: &str) -> SchemaObject {
    SchemaObject {
        metadata: Some(Box::new(Metadata { title: Some(t.to_string()), ..Default::default() })),
        ..Default::default()
    }
}

fn number() -> SchemaObject {
    SchemaObject { instance_type: Some(InstanceType::Number.into()), ..Default::default() }
}

fn nullable(mut s: SchemaObject) -> SchemaObject {
    s.extensions.insert("nullable".to_string(), serde_json::Value::Bool(true));
    s
}

fn object(props: Vec<(&str, SchemaObject)>) -> SchemaObject {
    let mut v = ObjectValidation::default();
    for (k, p) in props {
        v.properties.insert(k.to_string(), Schema::Object(p));
    }
    SchemaObject {
        instance_type: Some(InstanceType::Object.into()),
        object: Some(Box::new(v)),
        ..Default::default()
    }
}

fn ty(name: &str, args: Vec<TypeDescriptor>) -> TypeDescriptor {
    TypeDescriptor { name: name.to_string(), args, schema: None, fields: vec![] }
}

fn with_schema(name: &str, s: SchemaObject) -> TypeDescriptor {
    TypeDescriptor { name: name.to_string(), args: vec![], schema: Some(s), fields: vec![] }
}

fn names(v: &[(String, ResponseEntry)]) -> Vec<String> {
    v.iter().map(|(k, _)| k.clone()).collect()
}

fn object_at<'a>(s: &'a ResponseSet, key: &str) -> &'a openapi_rs::Response {
    match &s.responses.iter().find(|(k, _)| k.as_str() == key).expect("status present").1 {
        ResponseEntry::Object(o) => o,
        ResponseEntry::Reference(_) => panic!("reference"),
    }
}

#[test]
fn parameter_from_schema_respects_nullable() {
    let p = parameter_from_schema(nullable(number()), "page".to_string(), true);
    assert!(!p.required);
    assert_eq!(p.location, "query");
    let p = parameter_from_schema(number(), "page".to_string(), true);
    assert!(p.required);
    let p = parameter_from_schema(number(), "page".to_string(), false);
    assert!(!p.required);
}

#[test]
fn parameter_from_schema_takes_description() {
    let mut s = number();
    s.metadata = Some(Box::new(Metadata { description: Some("the page".to_string()), ..Default::default() }));
    let p = parameter_from_schema(s, "page".to_string(), true);
    assert_eq!(p.description, Some("the page".to_string()));
}

#[test]
fn query_object_one_parameter_per_property() {
    let s = object(vec![("page", number()), ("size", nullable(number())), ("sort", number())]);
    let ps = query(s, &vec![]);
    assert_eq!(ps.len(), 3);
    let by_name: Vec<(String, bool)> = ps.iter().map(|p| (p.name.clone(), p.required)).collect();
    assert!(by_name.contains(&("page".to_string(), true)));
    assert!(by_name.contains(&("size".to_string(), false)));
    assert!(by_name.contains(&("sort".to_string(), true)));
    assert!(ps.iter().all(|p| p.location == "query"));
}

#[test]
fn query_fallback_for_reference_schema() {
    let mut s = nullable(SchemaObject::default());
    s.reference = Some("#/definitions/Page".to_string());
    let ps = query(s.clone(), &vec!["page".to_string()]);
    assert_eq!(ps.len(), 1);
    assert_eq!(ps[0].name, "page");
    assert!(ps[0].required);
    assert_eq!(ps[0].schema, s);
}

#[test]
fn query_fallback_for_non_object_schema() {
    let ps = query(number(), &vec!["a".to_string(), "b".to_string()]);
    assert_eq!(ps.iter().map(|p| p.name.clone()).collect::<Vec<_>>(), vec!["a", "b"]);
    assert!(ps.iter().all(|p| p.required && p.schema == number()));
}

#[test]
fn parse_query_without_schema_is_empty() {
    let t = TypeDescriptor { name: "Page".to_string(), args: vec![], schema: None, fields: vec!["page".to_string()] };
    assert!(parse_query(&t).is_empty());
}

#[test]
fn header_parameter_is_required_header() {
    let p = header_parameter("user-agent".to_string(), titled("string"));
    assert_eq!(p.location, "header");
    assert!(p.required);
    assert_eq!(p.name, "user-agent");
}

#[test]
fn filter_type_follows_first_arguments() {
    let t = ty("Result", vec![ty("Json", vec![ty("User", vec![])]), ty("Json", vec![ty("Err", vec![])])]);
    assert_eq!(filter_type(&t), vec!["Result", "Json", "User"]);
}

#[test]
fn classify_query_header_body_security() {
    let table = ClassificationTable::standard();
    let p = classify_parameter(&table, &ty("Query", vec![ty("Page", vec![])]));
    assert!(matches!(p, ParameterSource::Query(n) if n == "Page"));
    let p = classify_parameter(&table, &ty("TypedHeader", vec![ty("UserAgent", vec![])]));
    assert!(matches!(p, ParameterSource::Header(n) if n == "UserAgent"));
    let p = classify_parameter(&table, &ty("Json", vec![ty("User", vec![])]));
    assert!(matches!(p, ParameterSource::Body(n) if n == "User"));
    let p = classify_parameter(&table, &ty("BearerAuth", vec![]));
    assert!(matches!(p, ParameterSource::Security(n) if n == "BearerAuth"));
    let p = classify_parameter(&table, &ty("State", vec![ty("Db", vec![])]));
    assert!(matches!(p, ParameterSource::Ignored));
}

#[test]
fn classify_body_under_result_takes_third_name() {
    let table = ClassificationTable::standard();
    let t = ty("Result", vec![ty("Json", vec![ty("User", vec![])]), ty("Rejection", vec![])]);
    let p = classify_parameter(&table, &t);
    assert!(matches!(p, ParameterSource::Body(n) if n == "User"));
    let t = ty("Result", vec![ty("User", vec![])]);
    assert!(matches!(classify_parameter(&table, &t), ParameterSource::Ignored));
}

#[test]
fn classify_last_parameter_wins() {
    let table = ClassificationTable::standard();
    let params = vec![
        ty("Query", vec![ty("First", vec![])]),
        ty("Query", vec![ty("Second", vec![])]),
    ];
    let sig = classify(&table, &params, &ty("Json", vec![ty("User", vec![])]));
    assert_eq!(sig.query, Some("Second".to_string()));
    assert_eq!(sig.response, Some("User".to_string()));
    assert_eq!(sig.body, None);
}

#[test]
fn classify_no_parameters_is_empty() {
    let table = ClassificationTable::standard();
    let sig = classify(&table, &vec![], &ty("()", vec![]));
    assert!(sig.query.is_none() && sig.body.is_none() && sig.header.is_none() && sig.security.is_none());
    assert!(sig.response.is_none());
}

#[test]
fn json_responses_single_success() {
    let r = json_responses(titled("User"));
    assert_eq!(names(&r.responses), vec!["200"]);
    let o = object_at(&r, "200");
    assert_eq!(o.content[0].0, "application/json");
    assert!(matches!(&o.content[0].1.schema, Some(SchemaNode::Derived(s)) if *s == titled("User")));
}

#[test]
fn text_and_unit_responses() {
    let r = text_responses(titled("string"));
    assert_eq!(object_at(&r, "200").content[0].0, "text/plain");
    let r = unit_responses();
    assert_eq!(names(&r.responses), vec!["200"]);
    assert!(object_at(&r, "200").content.is_empty());
}

#[test]
fn responses_of_result_merge_both_branches() {
    let t = ty(
        "Result",
        vec![
            ty("Json", vec![with_schema("User", titled("User"))]),
            ty("Json", vec![with_schema("ErrorBody", titled("ErrorBody"))]),
        ],
    );
    let r = responses(&t).unwrap();
    assert_eq!(names(&r.responses), vec!["200"]);
    let o = object_at(&r, "200");
    assert_eq!(o.content.len(), 1);
    assert_eq!(o.content[0].0, "application/json");
    match &o.content[0].1.schema {
        Some(SchemaNode::AnyOf(a, b)) => {
            assert!(matches!(&**a, SchemaNode::Derived(s) if *s == titled("User")));
            assert!(matches!(&**b, SchemaNode::Derived(s) if *s == titled("ErrorBody")));
        }
        _ => panic!("expected a composite"),
    }
}

#[test]
fn responses_of_result_with_text_error_union_of_content_types() {
    let t = ty(
        "Result",
        vec![ty("Json", vec![with_schema("User", titled("User"))]), with_schema("String", titled("string"))],
    );
    let r = responses(&t).unwrap();
    let o = object_at(&r, "200");
    let cts: Vec<String> = o.content.iter().map(|(k, _)| k.clone()).collect();
    assert_eq!(cts, vec!["application/json", "text/plain"]);
}

#[test]
fn responses_of_option_add_not_found() {
    let t = ty("Option", vec![ty("Json", vec![with_schema("User", titled("User"))])]);
    let r = responses(&t).unwrap();
    assert_eq!(names(&r.responses), vec!["200", "404"]);
    assert_eq!(object_at(&r, "404").description, "");
}

#[test]
fn responses_errors() {
    let t = ty("Json", vec![ty("User", vec![])]);
    assert_eq!(responses(&t).err(), Some(OpenApiError::MissingSchema("User".to_string())));
    assert_eq!(
        responses(&ty("Html", vec![])).err(),
        Some(OpenApiError::NoResponder("Html".to_string()))
    );
}

#[test]
fn request_body_json_and_optional() {
    let t = ty("Json", vec![with_schema("User", titled("User"))]);
    let b = request_body(&t).unwrap();
    assert!(b.required);
    assert_eq!(b.content[0].0, "application/json");
    let b = request_body(&ty("Option", vec![t])).unwrap();
    assert!(!b.required);
    let b = request_body(&with_schema("String", titled("string"))).unwrap();
    assert_eq!(b.content[0].0, "application/octet-stream");
    assert_eq!(
        request_body(&ty("Form", vec![])).err(),
        Some(OpenApiError::NoRequestBody("Form".to_string()))
    );
}

#[test]
fn method_names() {
    assert_eq!(OpenApiMethod::from_name("POST"), OpenApiMethod::Post);
    assert_eq!(OpenApiMethod::from_name("TRACE"), OpenApiMethod::Trace);
    assert_eq!(OpenApiMethod::from_name("BREW"), OpenApiMethod::Get);
    assert_eq!(OpenApiMethod::Connect.name(), "CONNECT");
    assert_eq!(OpenApiMethod::from_http(&axum::http::Method::DELETE), OpenApiMethod::Delete);
    assert_eq!(OpenApiMethod::from_http(&axum::http::Method::PATCH), OpenApiMethod::Patch);
}

#[test]
fn extract_generic_ident_skips_outer_name() {
    let t = ty("Query", vec![ty("Page", vec![])]);
    assert_eq!(openapi_rs::extract_generic_ident(&t), vec!["Page"]);
    assert!(openapi_rs::extract_generic_ident(&ty("Page", vec![])).is_empty());
}

#[test]
fn byte_slices_are_binary() {
    let t = with_schema("[u8]", titled("bytes"));
    let r = responses(&t).unwrap();
    assert_eq!(object_at(&r, "200").content[0].0, "application/octet-stream");
    let b = request_body(&t).unwrap();
    assert_eq!(b.content[0].0, "application/octet-stream");
}

#[test]
fn request_body_result_uses_success_type() {
    let t = ty("Result", vec![ty("Json", vec![with_schema("User", titled("User"))]), ty("Rejection", vec![])]);
    let b = request_body(&t).unwrap();
    assert!(b.required);
    assert_eq!(b.content[0].0, "application/json");
}

#[test]
fn query_property_given_as_boolean_schema() {
    let mut v = ObjectValidation::default();
    v.properties.insert("flag".to_string(), Schema::Bool(true));
    let s = SchemaObject {
        instance_type: Some(InstanceType::Object.into()),
        object: Some(Box::new(v)),
        ..Default::default()
    };
    let ps = query(s, &vec![]);
    assert_eq!(ps.len(), 1);
    assert_eq!(ps[0].name, "flag");
    assert!(ps[0].required);
    assert_eq!(ps[0].schema, SchemaObject::default());
}
