//! Outside types that the library carries, and the outside calls that it makes.
use vstd::prelude::*;
use schemars::schema::{InstanceType, Schema, SchemaObject, SingleOrVec};

verus! {

#[verifier::external_type_specification]
#[verifier::external_body]
pub struct ExSchemaObject(schemars::schema::SchemaObject);

#[verifier::external_type_specification]
#[verifier::external_body]
pub struct ExJsonValue(serde_json::Value);

#[verifier::external_type_specification]
#[verifier::external_body]
#[verifier::reject_recursive_types(T)]
pub struct ExRefOr<T>(okapi::openapi3::RefOr<T>);

#[verifier::external_type_specification]
#[verifier::external_body]
pub struct ExHeader(okapi::openapi3::Header);

#[verifier::external_type_specification]
#[verifier::external_body]
pub struct ExLink(okapi::openapi3::Link);

#[verifier::external_type_specification]
#[verifier::external_body]
pub struct ExExample(okapi::openapi3::Example);

#[verifier::external_type_specification]
#[verifier::external_body]
pub struct ExEncoding(okapi::openapi3::Encoding);

#[verifier::external_type_specification]
#[verifier::external_body]
pub struct ExSecurityScheme(okapi::openapi3::SecurityScheme);

/// The `nullable` extension of a schema, where it holds a boolean.
pub uninterp spec fn nullable_of(s: SchemaObject) -> Option<bool>;

/// The description in a schema's metadata.
pub uninterp spec fn description_of(s: SchemaObject) -> Option<Seq<char>>;

/// The kinds of value a JSON schema can admit.
pub enum InstanceKind {
    Null,
    Boolean,
    Object,
    Array,
    Number,
    String,
    Integer,
}

/// The instance type of a schema: none given, a single kind, or a list of kinds.
pub enum InstanceShape {
    Missing,
    Single(InstanceKind),
    Several,
}

/// The instance type that a schema declares.
pub uninterp spec fn instance_shape_of(s: SchemaObject) -> InstanceShape;

/// Whether a schema has the single instance type `object`.
pub open spec fn is_object_of(s: SchemaObject) -> bool {
    instance_shape_of(s) matches InstanceShape::Single(InstanceKind::Object)
}

/// The declared properties of an object schema, in the schema's order; a property given as
/// a boolean schema has no schema object.
pub uninterp spec fn properties_of(s: SchemaObject) -> Seq<(Seq<char>, Option<SchemaObject>)>;

/// The decimal digit for `d`, below ten.
pub open spec fn digit_char(d: nat) -> char {
    if d == 0 { '0' } else if d == 1 { '1' } else if d == 2 { '2' } else if d == 3 { '3' } else if d == 4 { '4' }
    else if d == 5 { '5' } else if d == 6 { '6' } else if d == 7 { '7' } else if d == 8 { '8' } else { '9' }
}

/// The decimal text of `n`, without leading zeros.
pub open spec fn decimal_text(n: nat) -> Seq<char>
    decreases n,
{
    if n < 10 {
        seq![digit_char(n)]
    } else {
        decimal_text(n / 10).push(digit_char(n % 10))
    }
}

/// The decimal text of a status code.
pub open spec fn status_text_of(n: u16) -> Seq<char> {
    decimal_text(n as nat)
}

/// Relies on the derived `Clone` of schemars' `SchemaObject`, which clones field by field.
#[verifier::external_body]
pub(crate) fn clone_schema(s: &SchemaObject) -> (r: SchemaObject)
    ensures
        r == *s,
{
    s.clone()
}

/// Relies on serde_json's `Value::as_bool` on the schema's `nullable` extension entry.
#[verifier::external_body]
pub(crate) fn nullable_flag(s: &SchemaObject) -> (r: Option<bool>)
    ensures
        r == nullable_of(*s),
{
    s.extensions.get("nullable").and_then(|v| v.as_bool())
}

/// Relies on the `metadata.description` field of schemars' `SchemaObject`.
#[verifier::external_body]
pub(crate) fn schema_description(s: &SchemaObject) -> (r: Option<String>)
    ensures
        r matches Some(d) ==> description_of(*s) == Some(d@),
        r is None ==> description_of(*s) is None,
{
    s.metadata.as_ref().and_then(|m| m.description.clone())
}

/// Relies on the `instance_type` field of schemars' `SchemaObject`, each variant of
/// `InstanceType` and `SingleOrVec` mapped to its counterpart.
#[verifier::external_body]
pub(crate) fn schema_instance(s: &SchemaObject) -> (r: InstanceShape)
    ensures
        r == instance_shape_of(*s),
{
    match &s.instance_type {
        None => InstanceShape::Missing,
        Some(SingleOrVec::Vec(_)) => InstanceShape::Several,
        Some(SingleOrVec::Single(t)) => InstanceShape::Single(match **t {
            InstanceType::Null => InstanceKind::Null,
            InstanceType::Boolean => InstanceKind::Boolean,
            InstanceType::Object => InstanceKind::Object,
            InstanceType::Array => InstanceKind::Array,
            InstanceType::Number => InstanceKind::Number,
            InstanceType::String => InstanceKind::String,
            InstanceType::Integer => InstanceKind::Integer,
        }),
    }
}

/// Relies on the `object.properties` field of schemars' `SchemaObject`: each property with
/// its schema object, or none where it is a boolean schema.
#[verifier::external_body]
pub(crate) fn schema_properties(s: &SchemaObject) -> (r: Vec<(String, Option<SchemaObject>)>)
    ensures
        r@.len() == properties_of(*s).len(),
        forall|i: int|
            0 <= i < r@.len() ==> #[trigger] r@[i].0@ == properties_of(*s)[i].0 && r@[i].1
                == properties_of(*s)[i].1,
{
    let props = s.object.as_ref().map(|o| o.properties.clone()).unwrap_or_default();
    props.into_iter().map(|(k, p)| match p {
        Schema::Object(x) => (k, Some(x)),
        Schema::Bool(_) => (k, None),
    }).collect()
}

/// Relies on the derived `Default` of schemars' `SchemaObject`: the schema with no keywords.
pub assume_specification[ <SchemaObject as core::default::Default>::default ]() -> SchemaObject;

/// Relies on `u16`'s `to_string` (its `Display`): the decimal text of the number.
#[verifier::external_body]
pub(crate) fn status_text(n: u16) -> (r: String)
    ensures
        r@ == status_text_of(n),
{
    n.to_string()
}

/// Whether `needle` occurs in `hay` as a run of consecutive characters.
pub open spec fn occurs_in(needle: Seq<char>, hay: Seq<char>) -> bool {
    exists|i: int|
        0 <= i && i + needle.len() <= hay.len() && #[trigger] hay.subrange(i, i + needle.len())
            == needle
}

/// Relies on `str::contains`: whether `needle` occurs in `hay` as a run of characters.
#[verifier::external_body]
pub(crate) fn text_contains(hay: &str, needle: &str) -> (r: bool)
    ensures
        r == occurs_in(needle@, hay@),
{
    hay.contains(needle)
}

} // verus!
