//! Project files: the error type of project IO and the migration of a
//! project's JSON text to the current format version.
//!
//! JSON parsing and printing are serde_json's; this module decides what a
//! project's `format_version` field means and what has to change.

use vstd::prelude::*;

use crate::text::{decimal, u64_to_decimal};

verus! {

#[verifier::external_type_specification]
#[verifier::external_body]
pub struct ExJsonValue(serde_json::Value);

#[verifier::external_type_specification]
#[verifier::external_body]
pub struct ExJsonError(serde_json::Error);

#[verifier::external_type_specification]
#[verifier::external_body]
#[verifier::reject_recursive_types(K)]
#[verifier::reject_recursive_types(V)]
pub struct ExJsonMap<K, V>(serde_json::Map<K, V>);

#[verifier::external_type_specification]
#[verifier::external_body]
pub struct ExIoError(std::io::Error);

/// Errors of reading, writing and migrating project files.
#[derive(Debug)]
pub enum ProjectError {
    Io(std::io::Error),
    Serde(serde_json::Error),
    UnsupportedVersion(String),
}

/// The format version that saving writes.
pub const CURRENT_FORMAT_VERSION: u32 = 1;

/// What a project's top-level `format_version` field holds.
#[derive(Debug, Clone, Copy, PartialEq, Eq, Structural)]
pub enum VersionField {
    /// The field is absent (or the project is not a JSON object).
    Missing,
    /// The field is a JSON number; `Some` when it is an integer that fits
    /// in a `u64`.
    Number(Option<u64>),
    /// The field holds something other than a number.
    NotNumber,
}

/// Whether `serde_json::from_str` accepts `text` as a JSON value (well-formed
/// JSON nested no deeper than its recursion limit).
pub uninterp spec fn json_parses(text: Seq<char>) -> bool;

/// Parses JSON text into a generic value (`serde_json::from_str`). Succeeds
/// exactly on well-formed JSON; nothing is stated of the value it builds.
#[verifier::external_body]
fn json_from_str(text: &str) -> (r: Result<serde_json::Value, serde_json::Error>)
    ensures
        r is Ok <==> json_parses(text@),
{
    serde_json::from_str(text)
}

/// The member `key` of a JSON object (`serde_json::Value::get`); `None`
/// when the value is not an object or has no such member.
#[verifier::external_body]
fn json_get<'a>(v: &'a serde_json::Value, key: &str) -> Option<&'a serde_json::Value> {
    v.get(key)
}

/// Whether the value is a JSON number (`serde_json::Value::is_number`).
#[verifier::external_body]
fn json_is_number(v: &serde_json::Value) -> bool {
    v.is_number()
}

/// The value as a `u64` when it is an integer in range
/// (`serde_json::Value::as_u64`).
#[verifier::external_body]
fn json_as_u64(v: &serde_json::Value) -> Option<u64> {
    v.as_u64()
}

/// The members of a JSON object, taken out of the value; any other value
/// comes back unchanged as the error (matching on `serde_json::Value`).
#[verifier::external_body]
fn json_into_object(v: serde_json::Value) -> Result<
    serde_json::Map<String, serde_json::Value>,
    serde_json::Value,
> {
    match v {
        serde_json::Value::Object(m) => Ok(m),
        other => Err(other),
    }
}

/// The object `m` with member `k` set to `v` (`serde_json::Map::insert`).
#[verifier::external_body]
fn json_map_with(
    m: serde_json::Map<String, serde_json::Value>,
    k: String,
    v: serde_json::Value,
) -> serde_json::Map<String, serde_json::Value> {
    let mut m = m;
    m.insert(k, v);
    m
}

/// The JSON object value holding `m` (`serde_json::Value::Object`).
#[verifier::external_body]
fn json_object(m: serde_json::Map<String, serde_json::Value>) -> serde_json::Value {
    serde_json::Value::Object(m)
}

/// The JSON number `n` (`serde_json::Number::from`).
#[verifier::external_body]
fn json_number(n: u64) -> serde_json::Value {
    serde_json::Value::Number(serde_json::Number::from(n))
}

/// Compact JSON text of a value (`serde_json::to_string`). It fails only
/// where a `Serialize` impl fails or a map has non-string keys, neither of
/// which a `Value` has.
#[verifier::external_body]
fn json_to_string(v: &serde_json::Value) -> (r: Result<String, serde_json::Error>)
    ensures
        r is Ok,
{
    serde_json::to_string(v)
}

/// The version a `format_version` field stands for: absent means 0, a
/// number that is not a `u64` integer reads as 0, anything else has none.
pub open spec fn field_version(field: VersionField) -> Option<nat> {
    match field {
        VersionField::Missing => Some(0),
        VersionField::Number(Some(v)) => Some(v as nat),
        VersionField::Number(None) => Some(0),
        VersionField::NotNumber => None,
    }
}

/// `v` is a value that `serde_json::from_str` gives for `text`.
pub closed spec fn parsed_from(text: &str, v: serde_json::Value) -> bool {
    call_ensures(json_from_str, (text,), Ok::<serde_json::Value, serde_json::Error>(v))
}

/// Reading `format_version` from `v` gives `f`: serde_json's member lookup,
/// number test and `u64` conversion answer so that `f` follows.
pub closed spec fn version_read(v: serde_json::Value, f: VersionField) -> bool {
    exists|g: Option<&serde_json::Value>|
        #[trigger] call_ensures(json_get, (&v, "format_version"), g) && match g {
            None => f == VersionField::Missing,
            Some(m) => exists|b: bool|
                #[trigger] call_ensures(json_is_number, (m,), b) && if b {
                    exists|n: Option<u64>|
                        #[trigger] call_ensures(json_as_u64, (m,), n) && f == VersionField::Number(n)
                } else {
                    f == VersionField::NotNumber
                },
        }
}

/// `w` is `v` with its member `format_version` set to the number 1 when `v`
/// is an object, and `v` itself otherwise, as serde_json builds it.
pub closed spec fn with_version_one(v: serde_json::Value, w: serde_json::Value) -> bool {
    ||| call_ensures(json_into_object, (v,), Err::<serde_json::Map<String, serde_json::Value>, serde_json::Value>(w))
    ||| exists|m: serde_json::Map<String, serde_json::Value>, k: String, one: serde_json::Value, m2: serde_json::Map<String, serde_json::Value>|
        #[trigger] call_ensures(json_into_object, (v,), Ok::<serde_json::Map<String, serde_json::Value>, serde_json::Value>(m))
            && k@ == "format_version"@
            && #[trigger] call_ensures(json_number, (1u64,), one)
            && #[trigger] call_ensures(json_map_with, (m, k, one), m2)
            && #[trigger] call_ensures(json_object, (m2,), w)
}

/// `s` is the text serde_json prints for `v`.
pub closed spec fn printed(v: serde_json::Value, s: String) -> bool {
    call_ensures(json_to_string, (&v,), Ok::<String, serde_json::Error>(s))
}

/// The project value `v` with version field `f` migrates to the text `s`:
/// a version-0 project gets `format_version` 1, a current one is printed
/// as it is.
pub open spec fn migrated_to(v: serde_json::Value, f: VersionField, s: String) -> bool {
    if field_version(f) == Some(0nat) {
        exists|w: serde_json::Value| with_version_one(v, w) && #[trigger] printed(w, s)
    } else {
        printed(v, s)
    }
}

/// The version field `f` names a version this build reads.
pub open spec fn version_supported(f: VersionField) -> bool {
    field_version(f) matches Some(k) && k <= CURRENT_FORMAT_VERSION
}

/// Decides what migration a project needs from its `format_version` field:
/// `Ok(true)` when the field has to be added (version 0), `Ok(false)` when
/// the project is current, and `UnsupportedVersion` for a field that is not
/// a number or a version newer than this build writes.
pub fn check_format_version(field: VersionField) -> (r: Result<bool, ProjectError>)
    ensures
        match field_version(field) {
            None => r matches Err(ProjectError::UnsupportedVersion(m)) && m@
                == "unknown (non-numeric)"@,
            Some(v) => if v > CURRENT_FORMAT_VERSION {
                r matches Err(ProjectError::UnsupportedVersion(m)) && m@ == decimal(v)
            } else {
                r matches Ok(inject) && inject == (v == 0)
            },
        },
{
    let version: u64 = match field {
        VersionField::Missing => 0,
        VersionField::Number(Some(v)) => v,
        VersionField::Number(None) => 0,
        VersionField::NotNumber => {
            return Err(ProjectError::UnsupportedVersion("unknown (non-numeric)".to_owned()));
        },
    };
    if version > CURRENT_FORMAT_VERSION as u64 {
        return Err(ProjectError::UnsupportedVersion(u64_to_decimal(version)));
    }
    Ok(version == 0)
}

/// Reads the top-level `format_version` field of a parsed project.
pub fn read_version_field(value: &serde_json::Value) -> (field: VersionField)
    ensures
        version_read(*value, field),
{
    let g = json_get(value, "format_version");
    match g {
        None => VersionField::Missing,
        Some(v) => {
            let b = json_is_number(v);
            if b {
                let n = json_as_u64(v);
                assert(call_ensures(json_as_u64, (v,), n));
                VersionField::Number(n)
            } else {
                VersionField::NotNumber
            }
        },
    }
}

/// `v` with `format_version` set to 1 when it is an object.
fn set_version_one(v: serde_json::Value) -> (w: serde_json::Value)
    ensures
        with_version_one(v, w),
{
    let ghost v0 = v;
    match json_into_object(v) {
        Ok(m) => {
            let one = json_number(1);
            let k = "format_version".to_owned();
            let ghost (gm, gk, gone) = (m, k, one);
            let m2 = json_map_with(m, k, one);
            let w = json_object(m2);
            assert(call_ensures(json_object, (m2,), w));
            assert(call_ensures(json_map_with, (gm, gk, gone), m2));
            w
        },
        Err(w) => w,
    }
}

/// Migrates a project's JSON text to the current format version: a project
/// without `format_version` gets `"format_version": 1`, a current project
/// passes through, and a newer or non-numeric version is refused.
pub fn migrate_project(json: &str) -> (r: Result<String, ProjectError>)
    ensures
        !json_parses(json@) ==> r matches Err(ProjectError::Serde(_)),
        !(r matches Err(ProjectError::Io(_))),
        r matches Err(ProjectError::UnsupportedVersion(m)) ==> m@ == "unknown (non-numeric)"@
            || exists|v: nat| v > CURRENT_FORMAT_VERSION && m@ == #[trigger] decimal(v),
        json_parses(json@) && (forall|v: serde_json::Value, f: VersionField|
            parsed_from(json, v) && version_read(v, f) ==> version_supported(f)) ==> r is Ok,
        r matches Ok(s) ==> exists|v: serde_json::Value, f: VersionField|
            parsed_from(json, v) && version_read(v, f) && version_supported(f) && migrated_to(v, f, s),
{
    let value = match json_from_str(json) {
        Ok(v) => v,
        Err(e) => {
            return Err(ProjectError::Serde(e));
        },
    };
    assert(parsed_from(json, value));
    let field = read_version_field(&value);
    let inject = match check_format_version(field) {
        Ok(b) => b,
        Err(e) => {
            return Err(e);
        },
    };
    let ghost v0 = value;
    let value = if inject {
        set_version_one(value)
    } else {
        value
    };
    match json_to_string(&value) {
        Ok(s) => {
            assert(printed(value, s));
            assert(migrated_to(v0, field, s));
            Ok(s)
        },
        Err(e) => Err(ProjectError::Serde(e)),
    }
}

} // verus!
