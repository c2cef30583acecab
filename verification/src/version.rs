//! The fabric manager's version resource.

use vstd::prelude::*;

use crate::error::UFMError;
use crate::json::obj_get;
use crate::json::JsonValue;

verus! {

/// The resource that reports the fabric manager's release version.
pub fn version_path() -> (r: String)
    ensures
        r@ == "/ufmRest/app/ufm_version"@,
{
    "/ufmRest/app/ufm_version".to_owned()
}

/// The release version a wire response carries: an object with a
/// string `ufm_release_version` field.
pub open spec fn spec_version_of(v: JsonValue) -> Option<String> {
    match v.spec_get("ufm_release_version"@) {
        Some(JsonValue::Str(s)) => Some(s),
        _ => None,
    }
}

/// Translates a version response into the release version text.
pub fn version_response(body: &JsonValue) -> (r: Result<String, UFMError>)
    ensures
        match spec_version_of(*body) {
            Some(s) => r matches Ok(rv) && rv == s,
            None => r matches Err(e) && e matches UFMError::InvalidConfig(m) && m@
                == "invalid response"@,
        },
{
    let entries = match body {
        JsonValue::Obj(entries) => entries,
        _ => { return Err(UFMError::InvalidConfig("invalid response".to_owned())) },
    };
    match obj_get(entries, "ufm_release_version") {
        Some(JsonValue::Str(s)) => Ok(s.clone()),
        _ => Err(UFMError::InvalidConfig("invalid response".to_owned())),
    }
}

} // verus!
