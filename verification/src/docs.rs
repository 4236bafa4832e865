//! Rendering the description of the API in the formats that the service offers.

use vstd::prelude::*;
use crate::error::ApiError;
use crate::text::{chars_of, eq_ignoring_case, same_ignoring_case};

verus! {

/// A format for the description of the API.
#[allow(clippy::upper_case_acronyms)]
#[derive(Clone, Copy, Debug, PartialEq, Eq, Structural, Hash)]
pub enum DocFormat {
    /// A format that the service does not offer.
    Unsupported,
    /// JSON on one line.
    JSON,
    /// JSON, indented.
    PrettyJSON,
    /// YAML.
    YAML,
}

/// The description of an API, as `utoipa` builds it.
#[verifier::external_type_specification]
#[verifier::external_body]
pub struct ExOpenApi(utoipa::openapi::OpenApi);

/// `OpenApi::to_json` hands the document to `serde_json::to_string`. Nothing is
/// claimed of what comes back.
pub assume_specification[ utoipa::openapi::OpenApi::to_json ](doc: &utoipa::openapi::OpenApi) -> (r: Result<
    String,
    serde_json::Error,
>)
;

/// `OpenApi::to_pretty_json` hands the document to `serde_json::to_string_pretty`.
/// Nothing is claimed of what comes back.
pub assume_specification[ utoipa::openapi::OpenApi::to_pretty_json ](doc: &utoipa::openapi::OpenApi) -> (r:
    Result<String, serde_json::Error>)
;

/// `OpenApi::to_yaml` hands the document to `serde_yaml::to_string`. Nothing is
/// claimed of what comes back.
pub assume_specification[ utoipa::openapi::OpenApi::to_yaml ](doc: &utoipa::openapi::OpenApi) -> (r: Result<
    String,
    serde_yaml::Error,
>)
;

/// The format that a text names, whatever the case of its letters; a text that
/// names none stands for the unsupported format.
pub open spec fn format_named(text: Seq<char>) -> DocFormat {
    if same_ignoring_case(text, "json"@) {
        DocFormat::JSON
    } else if same_ignoring_case(text, "prettyjson"@) {
        DocFormat::PrettyJSON
    } else if same_ignoring_case(text, "yaml"@) {
        DocFormat::YAML
    } else {
        DocFormat::Unsupported
    }
}

impl DocFormat {
    /// Reads the format from a segment of a request path. This never fails: what is
    /// not recognized is the unsupported format.
    pub fn from_param(param: &str) -> (r: DocFormat)
        ensures
            r == format_named(param@),
    {
        let text = chars_of(param);
        if eq_ignoring_case(&text, &chars_of("json")) {
            DocFormat::JSON
        } else if eq_ignoring_case(&text, &chars_of("prettyjson")) {
            DocFormat::PrettyJSON
        } else if eq_ignoring_case(&text, &chars_of("yaml")) {
            DocFormat::YAML
        } else {
            DocFormat::Unsupported
        }
    }
}

/// What a JSON rendering becomes: the text as it is, or the failure of the writer.
pub fn json_outcome(rendered: Result<String, serde_json::Error>) -> (r: Result<String, ApiError>)
    ensures
        match rendered {
            Ok(text) => r == Ok::<String, ApiError>(text),
            Err(_) => r matches Err(ApiError::SerdeError(message)) && "Serde JSON Error: "@.is_prefix_of(message@),
        },
{
    match rendered {
        Ok(text) => Ok(text),
        Err(e) => Err(ApiError::from(e)),
    }
}

/// What a YAML rendering becomes: the text as it is, or the failure of the writer.
pub fn yaml_outcome(rendered: Result<String, serde_yaml::Error>) -> (r: Result<String, ApiError>)
    ensures
        match rendered {
            Ok(text) => r == Ok::<String, ApiError>(text),
            Err(_) => r matches Err(ApiError::SerdeError(message)) && "Serde YAML Error: "@.is_prefix_of(message@),
        },
{
    match rendered {
        Ok(text) => Ok(text),
        Err(e) => Err(ApiError::from(e)),
    }
}

/// Renders the description of the API in `format`. The unsupported format is
/// refused; for the others the text is what the writer of that format makes of
/// the document, and a failure of the writer is handed on.
pub fn generate_docs(format: &DocFormat, openapi: &utoipa::openapi::OpenApi) -> (r: Result<String, ApiError>)
    ensures
        match format {
            DocFormat::Unsupported => r matches Err(ApiError::Unsupported(message)) && message@
                == "Error: Format Unsupported"@,
            _ => r matches Err(e) ==> e is SerdeError,
        },
{
    match format {
        DocFormat::JSON => json_outcome(openapi.to_json()),
        DocFormat::PrettyJSON => json_outcome(openapi.to_pretty_json()),
        DocFormat::YAML => yaml_outcome(openapi.to_yaml()),
        DocFormat::Unsupported => Err(ApiError::Unsupported("Error: Format Unsupported".to_owned())),
    }
}

} // verus!
