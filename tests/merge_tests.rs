use openapi_rs::{
    accept_either_media_type, accept_either_schema, add_content_response, add_media_type,
    add_schema_response, ensure_not_ref, ensure_status_code_exists, extend, produce_any_responses,
    produce_either_response, MediaType, OpenApiError, Response, ResponseEntry, ResponseSet,
    SchemaNode,
};
use schemars::schema::{Metadata, SchemaObject};

fn titled(t: &str) -> SchemaObject {
    SchemaObject {
        metadata: Some(Box::new(Metadata { title: Some(t.to_string()), ..Default::default() })),
        ..Default::default()
    }
}

fn derived(t: &str) -> SchemaNode {
    SchemaNode::Derived(titled(t))
}

fn is_derived(n: &SchemaNode, t: &str) -> bool {
    match n {
        SchemaNode::Derived(s) => *s == titled(t),
        _ => false,
    }
}

fn media(t: &str) -> MediaType {
    MediaType {
        schema: Some(derived(t)),
        example: None,
        examples: None,
        encoding: vec![],
        extensions: vec![],
    }
}

fn response(desc: &str, content: Vec<(&str, MediaType)>) -> Response {
    Response {
        description: desc.to_string(),
        content: content.into_iter().map(|(k, m)| (k.to_string(), m)).collect(),
        headers: vec![],
        links: vec![],
        extensions: vec![],
    }
}

fn set(entries: Vec<(&str, Response)>) -> ResponseSet {
    ResponseSet {
        default: None,
        responses: entries
            .into_iter()
            .map(|(k, r)| (k.to_string(), ResponseEntry::Object(r)))
            .collect(),
        extensions: vec![],
    }
}

fn object<'a>(s: &'a ResponseSet, key: &str) -> &'a Response {
    let e = &s.responses.iter().find(|(k, _)| k.as_str() == key).expect("status present").1;
    match e {
        ResponseEntry::Object(o) => o,
        ResponseEntry::Reference(_) => panic!("reference"),
    }
}

fn keys<V>(v: &[(String, V)]) -> Vec<String> {
    v.iter().map(|(k, _)| k.clone()).collect()
}

#[test]
fn either_schema_none_none() {
    assert!(accept_either_schema(None, None).is_none());
}

#[test]
fn either_schema_single_kept_unwrapped() {
    let r = accept_either_schema(Some(derived("a")), None).unwrap();
    assert!(is_derived(&r, "a"));
    let r = accept_either_schema(None, Some(derived("b"))).unwrap();
    assert!(is_derived(&r, "b"));
}

#[test]
fn either_schema_both_make_composite_in_order() {
    match accept_either_schema(Some(derived("a")), Some(derived("b"))).unwrap() {
        SchemaNode::AnyOf(x, y) => {
            assert!(is_derived(&x, "a"));
            assert!(is_derived(&y, "b"));
        }
        SchemaNode::Derived(_) => panic!("expected a composite"),
    }
}

#[test]
fn extend_overwrites_in_place_and_appends() {
    let a = vec![("x".to_string(), 1), ("y".to_string(), 2)];
    let b = vec![("y".to_string(), 20), ("z".to_string(), 30)];
    let r = extend(a, b);
    assert_eq!(
        r,
        vec![("x".to_string(), 1), ("y".to_string(), 20), ("z".to_string(), 30)]
    );
}

#[test]
fn extend_with_empty() {
    let a: Vec<(String, i32)> = vec![];
    let r = extend(a, vec![("k".to_string(), 5)]);
    assert_eq!(r, vec![("k".to_string(), 5)]);
    let r = extend(r, vec![]);
    assert_eq!(r, vec![("k".to_string(), 5)]);
}

#[test]
fn media_type_merge_priorities() {
    let mut m1 = media("a");
    m1.example = Some(serde_json::Value::from(1));
    m1.extensions = vec![("x-k".to_string(), serde_json::Value::from("one"))];
    let mut m2 = media("b");
    m2.example = Some(serde_json::Value::from(2));
    m2.extensions = vec![("x-k".to_string(), serde_json::Value::from("two"))];
    let r = accept_either_media_type(m1, m2);
    assert_eq!(r.example, Some(serde_json::Value::from(1)));
    assert_eq!(r.extensions, vec![("x-k".to_string(), serde_json::Value::from("two"))]);
    assert!(matches!(r.schema, Some(SchemaNode::AnyOf(_, _))));
}

#[test]
fn media_type_example_falls_back() {
    let m1 = media("a");
    let mut m2 = media("b");
    m2.example = Some(serde_json::Value::from(7));
    let r = accept_either_media_type(m1, m2);
    assert_eq!(r.example, Some(serde_json::Value::from(7)));
}

#[test]
fn add_media_type_combines_existing_entry() {
    let mut content = vec![("application/json".to_string(), media("a"))];
    add_media_type(&mut content, "application/json".to_string(), media("b"));
    assert_eq!(content.len(), 1);
    assert!(matches!(content[0].1.schema, Some(SchemaNode::AnyOf(_, _))));
    add_media_type(&mut content, "text/plain".to_string(), media("c"));
    assert_eq!(keys(&content), vec!["application/json", "text/plain"]);
    assert!(is_derived(content[1].1.schema.as_ref().unwrap(), "c"));
}

#[test]
fn either_response_descriptions() {
    let r = produce_either_response(response("ok", vec![]), response("bad", vec![]));
    assert_eq!(r.description, "ok\nbad");
    let r = produce_either_response(response("", vec![]), response("bad", vec![]));
    assert_eq!(r.description, "bad");
    let r = produce_either_response(response("ok", vec![]), response("", vec![]));
    assert_eq!(r.description, "ok");
}

#[test]
fn either_response_content_union() {
    let r = produce_either_response(
        response("", vec![("application/json", media("a"))]),
        response("", vec![("text/plain", media("b")), ("application/json", media("c"))]),
    );
    assert_eq!(keys(&r.content), vec!["application/json", "text/plain"]);
    match &r.content[0].1.schema {
        Some(SchemaNode::AnyOf(x, y)) => {
            assert!(is_derived(x, "a"));
            assert!(is_derived(y, "c"));
        }
        _ => panic!("expected a composite"),
    }
}

#[test]
fn merge_adds_error_only_statuses() {
    let ok = set(vec![("200", response("fine", vec![("application/json", media("user"))]))]);
    let err = set(vec![("400", response("bad", vec![("application/json", media("error"))]))]);
    let r = produce_any_responses(ok, err).unwrap();
    assert_eq!(keys(&r.responses), vec!["200", "400"]);
    assert_eq!(object(&r, "400").description, "bad");
}

#[test]
fn merge_is_not_commutative_on_content() {
    let a = || set(vec![("200", response("A", vec![]))]);
    let b = || set(vec![("200", response("B", vec![]))]);
    let ab = produce_any_responses(a(), b()).unwrap();
    let ba = produce_any_responses(b(), a()).unwrap();
    assert_ne!(object(&ab, "200").description, object(&ba, "200").description);
    assert_eq!(object(&ab, "200").description, "A\nB");
}

#[test]
fn merge_default_presence_is_symmetric() {
    let with_default = || {
        let mut s = set(vec![]);
        s.default = Some(ResponseEntry::Object(response("d", vec![])));
        s
    };
    let ab = produce_any_responses(with_default(), set(vec![])).unwrap();
    let ba = produce_any_responses(set(vec![]), with_default()).unwrap();
    assert_eq!(ab.default.is_some(), ba.default.is_some());
    assert!(ab.default.is_some());
    let none = produce_any_responses(set(vec![]), set(vec![])).unwrap();
    assert!(none.default.is_none());
}

#[test]
fn merge_default_prefers_success() {
    let mut a = set(vec![]);
    a.default = Some(ResponseEntry::Object(response("first", vec![])));
    let mut b = set(vec![]);
    b.default = Some(ResponseEntry::Object(response("second", vec![])));
    let r = produce_any_responses(a, b).unwrap();
    match r.default {
        Some(ResponseEntry::Object(o)) => assert_eq!(o.description, "first"),
        _ => panic!("expected the success default"),
    }
}

#[test]
fn merge_fails_on_reference_response() {
    let ok = set(vec![]);
    let mut err = set(vec![]);
    err.responses.push(("500".to_string(), ResponseEntry::Reference("#/r".to_string())));
    assert_eq!(produce_any_responses(ok, err).err(), Some(OpenApiError::RefResponse));
}

#[test]
fn ensure_not_ref_cases() {
    assert!(ensure_not_ref(ResponseEntry::Object(response("x", vec![]))).is_ok());
    assert_eq!(
        ensure_not_ref(ResponseEntry::Reference("#/x".to_string())).err(),
        Some(OpenApiError::RefResponse)
    );
}

#[test]
fn ensure_status_adds_blank_once() {
    let mut s = set(vec![]);
    let j = ensure_status_code_exists(&mut s, 404);
    assert_eq!(j, 0);
    assert_eq!(keys(&s.responses), vec!["404"]);
    assert_eq!(object(&s, "404").description, "");
    assert!(object(&s, "404").content.is_empty());
    let j2 = ensure_status_code_exists(&mut s, 404);
    assert_eq!(j2, 0);
    assert_eq!(s.responses.len(), 1);
}

#[test]
fn ensure_status_keeps_existing() {
    let mut s = set(vec![("200", response("kept", vec![]))]);
    ensure_status_code_exists(&mut s, 200);
    assert_eq!(s.responses.len(), 1);
    assert_eq!(object(&s, "200").description, "kept");
}

#[test]
fn add_schema_response_creates_status() {
    let mut s = set(vec![]);
    add_schema_response(&mut s, 201, "application/json".to_string(), titled("a")).unwrap();
    let o = object(&s, "201");
    assert_eq!(keys(&o.content), vec!["application/json"]);
    assert!(is_derived(o.content[0].1.schema.as_ref().unwrap(), "a"));
}

#[test]
fn add_content_response_fails_on_reference() {
    let mut s = set(vec![]);
    s.responses.push(("200".to_string(), ResponseEntry::Reference("#/r".to_string())));
    let r = add_content_response(&mut s, 200, "text/plain".to_string(), media("a"));
    assert_eq!(r, Err(OpenApiError::RefResponse));
    assert_eq!(s.responses.len(), 1);
}
