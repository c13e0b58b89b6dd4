//! Synthesis of OpenAPI operation descriptions from the declared shape of request handlers:
//! a classifier for handler signatures, synthesis of parameters, request bodies and
//! responses, and the merge algebra that combines two descriptions of the same slot.
pub mod bindings;
pub mod classify;
pub mod handler;
pub mod keyed;
pub mod merge;
pub mod method;
pub mod model;
pub mod synth;

pub use classify::{classify, classify_parameter, extract_generic_ident, filter_type, ClassificationTable, ClassifiedSignature, ParameterSource, TypeDescriptor};
pub use handler::{body_is_optional, find_type, handler, parse_handler, ExtractorInputs, HandlerAttributes, HandlerShape, OpenApiGenerator, OperationInfo};
pub use keyed::{extend, find_key, insert_key};
pub use merge::{
    accept_either_media_type, accept_either_schema, add_content_response, add_media_type,
    add_schema_response, ensure_not_ref, ensure_status_code_exists, produce_any_responses,
    produce_either_response,
};
pub use method::OpenApiMethod;
pub use model::{
    MediaType, OpenApiError, OpenApiFromRequest, Operation, ParameterSpec, RequestBody,
    RequestHeaderInput, Response, ResponseEntry, ResponseSet, SchemaNode,
};
pub use synth::{
    binary_responses, cow_responses, header_parameter, json_responses, optional_responses,
    parameter_from_schema, parse_query, query, request_body, responses, schema_request_body,
    text_responses, unit_responses, OpenApiFromData, OpenApiResponderInner,
};
