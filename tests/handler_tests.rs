use openapi_rs::{
    find_type, handler, parse_handler, ClassificationTable, ExtractorInputs, HandlerAttributes,
    HandlerShape, OpenApiError, OpenApiGenerator, OpenApiMethod, RequestHeaderInput, ResponseEntry,
    TypeDescriptor,
};
use okapi::openapi3::{SecurityRequirement, SecurityScheme, SecuritySchemeData};
use schemars::schema::{InstanceType, Metadata, ObjectValidation, Schema, SchemaObject};

fn number() -> SchemaObject {
    SchemaObject { instance_type: Some(InstanceType::Number.into()), ..Default::default() }
}

fn titled(t: &str) -> SchemaObject {
    SchemaObject {
        metadata: Some(Box::new(Metadata { title: Some(t.to_string()), ..Default::default() })),
        ..Default::default()
    }
}

fn ty(name: &str, args: Vec<TypeDescriptor>) -> TypeDescriptor {
    TypeDescriptor { name: name.to_string(), args, schema: None, fields: vec![] }
}

fn page_type() -> TypeDescriptor {
    let mut v = ObjectValidation::default();
    v.properties.insert("page".to_string(), Schema::Object(number()));
    v.properties.insert("size".to_string(), Schema::Object(number()));
    TypeDescriptor {
        name: "Pagination".to_string(),
        args: vec![],
        schema: Some(SchemaObject {
            instance_type: Some(InstanceType::Object.into()),
            object: Some(Box::new(v)),
            ..Default::default()
        }),
        fields: vec!["page".to_string(), "size".to_string()],
    }
}

fn user_json() -> TypeDescriptor {
    ty(
        "Json",
        vec![TypeDescriptor { name: "User".to_string(), args: vec![], schema: Some(titled("User")), fields: vec![] }],
    )
}

fn attrs() -> HandlerAttributes {
    HandlerAttributes {
        method: OpenApiMethod::Get,
        summary: "list".to_string(),
        description: "lists users".to_string(),
        tags: vec!["users".to_string()],
    }
}

fn no_inputs() -> ExtractorInputs {
    ExtractorInputs { security: RequestHeaderInput::Nothing, header_name: None, string_schema: None }
}

fn bearer() -> SecurityScheme {
    SecurityScheme {
        description: None,
        data: SecuritySchemeData::Http { scheme: "bearer".to_string(), bearer_format: None },
        extensions: Default::default(),
    }
}

fn requirement(name: &str) -> SecurityRequirement {
    let mut r = SecurityRequirement::new();
    r.insert(name.to_string(), vec![]);
    r
}

#[test]
fn query_handler_gives_two_required_parameters() {
    let table = ClassificationTable::standard();
    let shape = HandlerShape {
        name: "list_users".to_string(),
        params: vec![ty("Query", vec![page_type()])],
        ret: user_json(),
    };
    let (info, scheme) = parse_handler(&table, attrs(), &shape, "/users".to_string(), no_inputs()).unwrap();
    let ps = &info.operation.parameters;
    assert_eq!(ps.len(), 2);
    let mut names: Vec<String> = ps.iter().map(|p| p.name.clone()).collect();
    names.sort();
    assert_eq!(names, vec!["page", "size"]);
    assert!(ps.iter().all(|p| p.required && p.location == "query"));
    assert!(scheme.is_none());
    assert_eq!(info.operation.operation_id, Some("list_users".to_string()));
    assert_eq!(info.path, "/users");
    assert!(info.operation.request_body.is_none());
}

#[test]
fn header_parameter_is_appended_to_query() {
    let table = ClassificationTable::standard();
    let shape = HandlerShape {
        name: "h".to_string(),
        params: vec![ty("Query", vec![page_type()]), ty("TypedHeader", vec![ty("UserAgent", vec![])])],
        ret: user_json(),
    };
    let inputs = ExtractorInputs {
        security: RequestHeaderInput::Nothing,
        header_name: Some("user-agent".to_string()),
        string_schema: Some(titled("string")),
    };
    let (info, _) = parse_handler(&table, attrs(), &shape, "/h".to_string(), inputs).unwrap();
    let ps = &info.operation.parameters;
    assert_eq!(ps.len(), 3);
    assert_eq!(ps[2].name, "user-agent");
    assert_eq!(ps[2].location, "header");
}

#[test]
fn body_parameter_gives_json_request_body() {
    let table = ClassificationTable::standard();
    let shape = HandlerShape { name: "create".to_string(), params: vec![user_json()], ret: ty("()", vec![]) };
    let (info, _) = parse_handler(&table, attrs(), &shape, "/users".to_string(), no_inputs()).unwrap();
    let body = info.operation.request_body.unwrap();
    assert!(body.required);
    assert_eq!(body.content[0].0, "application/json");
    assert_eq!(info.operation.responses.responses.len(), 1);
    assert_eq!(info.operation.responses.responses[0].0, "200");
}

#[test]
fn body_without_schema_fails() {
    let table = ClassificationTable::standard();
    let shape = HandlerShape {
        name: "create".to_string(),
        params: vec![ty("Json", vec![ty("User", vec![])])],
        ret: ty("()", vec![]),
    };
    let r = parse_handler(&table, attrs(), &shape, "/users".to_string(), no_inputs());
    assert_eq!(r.err(), Some(OpenApiError::MissingSchema("User".to_string())));
}

#[test]
fn optional_return_has_not_found() {
    let table = ClassificationTable::standard();
    let shape = HandlerShape { name: "get".to_string(), params: vec![], ret: ty("Option", vec![user_json()]) };
    let (info, _) = parse_handler(&table, attrs(), &shape, "/users/1".to_string(), no_inputs()).unwrap();
    let keys: Vec<String> = info.operation.responses.responses.iter().map(|(k, _)| k.clone()).collect();
    assert!(keys.contains(&"404".to_string()));
    assert!(keys.contains(&"200".to_string()));
}

#[test]
fn unknown_return_type_still_has_success() {
    let table = ClassificationTable::standard();
    let shape = HandlerShape { name: "page".to_string(), params: vec![], ret: ty("Html", vec![]) };
    let (info, _) = parse_handler(&table, attrs(), &shape, "/".to_string(), no_inputs()).unwrap();
    assert_eq!(info.operation.responses.responses[0].0, "200");
    assert!(matches!(info.operation.responses.responses[0].1, ResponseEntry::Object(_)));
}

#[test]
fn two_security_parameters_register_one_scheme() {
    let table = ClassificationTable::standard();
    let shape = HandlerShape {
        name: "me".to_string(),
        params: vec![ty("BasicAuth", vec![]), ty("BearerAuth", vec![])],
        ret: user_json(),
    };
    let mut gen = OpenApiGenerator::new();
    let inputs = ExtractorInputs {
        security: RequestHeaderInput::Security("bearer".to_string(), bearer(), requirement("bearer")),
        header_name: None,
        string_schema: None,
    };
    handler(&mut gen, &table, attrs(), &shape, "/me".to_string(), inputs).unwrap();
    assert_eq!(gen.security_schemes.len(), 1);
    assert_eq!(gen.security_schemes[0].0, "bearer");
    assert_eq!(gen.operations.len(), 1);
    let sec = gen.operations[0].operation.security.as_ref().unwrap();
    assert_eq!(sec, &vec![requirement("bearer")]);
    let inputs = ExtractorInputs {
        security: RequestHeaderInput::Security("bearer".to_string(), bearer(), requirement("bearer")),
        header_name: None,
        string_schema: None,
    };
    handler(&mut gen, &table, attrs(), &shape, "/me2".to_string(), inputs).unwrap();
    assert_eq!(gen.security_schemes.len(), 1);
    assert_eq!(gen.operations.len(), 2);
}

#[test]
fn failed_handler_leaves_registry() {
    let table = ClassificationTable::standard();
    let shape = HandlerShape {
        name: "bad".to_string(),
        params: vec![ty("BearerAuth", vec![])],
        ret: ty("Json", vec![ty("User", vec![])]),
    };
    let mut gen = OpenApiGenerator::new();
    let inputs = ExtractorInputs {
        security: RequestHeaderInput::Security("bearer".to_string(), bearer(), requirement("bearer")),
        header_name: None,
        string_schema: None,
    };
    assert!(handler(&mut gen, &table, attrs(), &shape, "/bad".to_string(), inputs).is_err());
    assert!(gen.security_schemes.is_empty());
    assert!(gen.operations.is_empty());
}

#[test]
fn find_type_looks_along_chain() {
    let params = vec![ty("Query", vec![page_type()])];
    assert_eq!(find_type(&params, &"Pagination".to_string()).unwrap().fields.len(), 2);
    assert!(find_type(&params, &"Other".to_string()).is_none());
}

#[test]
fn optional_body_parameter_is_not_required() {
    let table = ClassificationTable::standard();
    let shape = HandlerShape {
        name: "update".to_string(),
        params: vec![ty("Option", vec![user_json()])],
        ret: ty("()", vec![]),
    };
    let (info, _) = parse_handler(&table, attrs(), &shape, "/users".to_string(), no_inputs()).unwrap();
    let body = info.operation.request_body.unwrap();
    assert!(!body.required);
    assert_eq!(body.content[0].0, "application/json");
}
