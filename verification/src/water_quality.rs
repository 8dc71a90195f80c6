//! The beach water-quality summary: the advisory map status and the
//! station's status text, both plain strings handed over by the fetch
//! layer. Either one missing fails the whole summary.

use vstd::prelude::*;

use crate::error::{AppError, ErrorKind};

verus! {

/// Declares `serde_json::Value` so map-service documents can flow
/// through the extraction below; the value itself stays opaque.
#[verifier::external_type_specification]
#[verifier::external_body]
pub struct ExValue(serde_json::Value);

/// Relies on `serde_json::Value::get`: looks a key up in a JSON
/// object, `None` when the value is no object or the key is absent.
/// What comes back is opaque, so nothing is promised of it.
pub assume_specification<I: serde_json::value::Index>[ serde_json::Value::get::<I> ](
    v: &serde_json::Value,
    index: I,
) -> Option<&serde_json::Value>;

/// Relies on `serde_json::Value::as_array`: the array behind a JSON
/// value, `None` when it is no array.
pub assume_specification[ serde_json::Value::as_array ](v: &serde_json::Value) -> Option<
    &Vec<serde_json::Value>,
>;

/// Relies on `serde_json::Value::as_str`: the text behind a JSON
/// value, `None` when it is no string.
pub assume_specification[ serde_json::Value::as_str ](v: &serde_json::Value) -> Option<&str>;

/// The water-quality summary of one beach.
#[derive(Debug)]
pub struct WaterQuality {
    pub water_quality: String,
    pub water_quality_text: String,
}

impl WaterQuality {
    /// Walks one map-service document down to the named attribute of
    /// its first feature. The strings inside the document are opaque to
    /// the verifier, so the contract pins only the error taxonomy:
    /// whichever required shape is absent first is reported as
    /// malformed payload.
    fn extract_attribute(
        doc: &serde_json::Value,
        key: &str,
        missing_msg: &str,
        not_string_msg: &str,
    ) -> (r: Result<String, AppError>)
        ensures
            r matches Err(e) ==> e.kind == ErrorKind::MalformedPayload,
    {
        let features = match doc.get("features") {
            Some(f) => f,
            None => {
                return Err(AppError::malformed("no features found."));
            },
        };
        let arr = match features.as_array() {
            Some(a) => a,
            None => {
                return Err(AppError::malformed("features is not an array."));
            },
        };
        let first = match arr.as_slice().first() {
            Some(f) => f,
            None => {
                return Err(AppError::malformed("empty array of features."));
            },
        };
        let attributes = match first.get("attributes") {
            Some(a) => a,
            None => {
                return Err(AppError::malformed("no attributes found."));
            },
        };
        let value = match attributes.get(key) {
            Some(v) => v,
            None => {
                return Err(AppError::malformed(missing_msg));
            },
        };
        match value.as_str() {
            Some(s) => Ok(s.to_owned()),
            None => Err(AppError::malformed(not_string_msg)),
        }
    }

    /// Extracts the advisory map status and the station status text
    /// from the two fetched map-service documents.
    pub fn get_quality_data(
        status: &serde_json::Value,
        response: &serde_json::Value,
    ) -> (r: Result<(String, String), AppError>)
        ensures
            r matches Err(e) ==> e.kind == ErrorKind::MalformedPayload,
    {
        let map_status = match WaterQuality::extract_attribute(
            status,
            "MAP_STATUS",
            "no map status found.",
            "map status not a string.",
        ) {
            Ok(s) => s,
            Err(e) => {
                return Err(e);
            },
        };
        let status_text = match WaterQuality::extract_attribute(
            response,
            "STATUS",
            "no status found.",
            "status not a string.",
        ) {
            Ok(s) => s,
            Err(e) => {
                return Err(e);
            },
        };
        Ok((map_status, status_text))
    }

    /// Builds the summary of a spot from its two fetched map-service
    /// documents.
    pub fn try_get(status: &serde_json::Value, response: &serde_json::Value) -> (r: Result<
        WaterQuality,
        AppError,
    >)
        ensures
            r matches Err(e) ==> e.kind == ErrorKind::MalformedPayload,
    {
        match WaterQuality::get_quality_data(status, response) {
            Ok(t) => Ok(WaterQuality { water_quality: t.0, water_quality_text: t.1 }),
            Err(e) => Err(e),
        }
    }
}

} // verus!
