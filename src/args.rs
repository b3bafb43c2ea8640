use vstd::prelude::*;

use crate::yaml::{field_of, Yaml, YamlValue};

verus! {

/// Why a module's arguments were rejected.
#[derive(Debug, PartialEq)]
pub enum ArgError {
    /// The arguments are not a mapping.
    NotAMapping,
    /// A required field is absent.
    Missing(String),
    /// A field has a value of the wrong type.
    Invalid(String),
}

/// Whether `v` can hold a module's fields; null stands for no fields.
pub open spec fn is_record(v: YamlValue) -> bool {
    v is Mapping || v is Null
}

/// An optional string field: absent and null both mean none; `None` marks
/// a value of another type.
pub open spec fn opt_string_field(v: YamlValue, key: Seq<char>) -> Option<Option<Seq<char>>> {
    match field_of(v, key) {
        None => Some(None),
        Some(YamlValue::Null) => Some(None),
        Some(YamlValue::Str(s)) => Some(Some(s)),
        _ => None,
    }
}

/// An optional boolean field: absent and null both mean none; `None` marks
/// a value of another type.
pub open spec fn opt_bool_field(v: YamlValue, key: Seq<char>) -> Option<Option<bool>> {
    match field_of(v, key) {
        None => Some(None),
        Some(YamlValue::Null) => Some(None),
        Some(YamlValue::Bool(b)) => Some(Some(b)),
        _ => None,
    }
}

pub open spec fn opt_string_view(o: Option<String>) -> Option<Seq<char>> {
    match o {
        Some(s) => Some(s@),
        None => None,
    }
}

pub fn check_record(v: &Yaml) -> (r: Result<(), ArgError>)
    ensures
        r is Ok <==> is_record(v@),
        r is Err ==> r matches Err(ArgError::NotAMapping),
{
    match v {
        Yaml::Mapping(_) => Ok(()),
        Yaml::Null => Ok(()),
        _ => Err(ArgError::NotAMapping),
    }
}

pub fn invalid(key: &str) -> (r: ArgError)
    ensures
        r matches ArgError::Invalid(k) && k@ == key@,
{
    ArgError::Invalid(key.to_owned())
}

/// Reads an optional string field.
pub fn opt_string(v: &Yaml, key: &str) -> (r: Result<Option<String>, ArgError>)
    ensures
        r matches Ok(o) ==> opt_string_field(v@, key@) == Some(opt_string_view(o)),
        r is Err ==> opt_string_field(v@, key@) is None,
        r matches Err(e) ==> (e matches ArgError::Invalid(k) && k@ == key@),
{
    match v.get(key) {
        None => Ok(None),
        Some(Yaml::Null) => Ok(None),
        Some(Yaml::String(s)) => Ok(Some(s.clone())),
        Some(_) => Err(invalid(key)),
    }
}

/// Reads a required string field.
pub fn string(v: &Yaml, key: &str) -> (r: Result<String, ArgError>)
    ensures
        r matches Ok(s) ==> field_of(v@, key@) == Some(YamlValue::Str(s@)),
        r is Err ==> !(field_of(v@, key@) matches Some(YamlValue::Str(_))),
        field_of(v@, key@) is None ==> (r matches Err(ArgError::Missing(k)) && k@ == key@),
        field_of(v@, key@) is Some ==> (r matches Err(ArgError::Invalid(k)) ==> k@ == key@),
{
    match v.get(key) {
        Some(Yaml::String(s)) => Ok(s.clone()),
        None => Err(ArgError::Missing(key.to_owned())),
        Some(_) => Err(invalid(key)),
    }
}

/// Reads an optional boolean field.
pub fn opt_bool(v: &Yaml, key: &str) -> (r: Result<Option<bool>, ArgError>)
    ensures
        r matches Ok(o) ==> opt_bool_field(v@, key@) == Some(o),
        r is Err ==> opt_bool_field(v@, key@) is None,
        r matches Err(e) ==> (e matches ArgError::Invalid(k) && k@ == key@),
{
    match v.get(key) {
        None => Ok(None),
        Some(Yaml::Null) => Ok(None),
        Some(Yaml::Bool(b)) => Ok(Some(*b)),
        Some(_) => Err(invalid(key)),
    }
}

} // verus!
