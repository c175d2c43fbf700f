//! Loading pipeline definitions: which stored objects are definitions, in
//! which format, and the errors reported when listing, reading or parsing
//! them fails.
use vstd::prelude::*;
use crate::error::{is_config_error, PipelineError};
use crate::text::{chars_of, ends_with, has_suffix, push_str, string_from_chars};

verus! {

/// The format of a stored pipeline definition.
#[derive(Debug, Clone, Copy, PartialEq, Eq, Structural)]
pub enum ConfigFormat {
    Yaml,
    Json,
}

/// The format of the object at `path`: YAML for `.yaml`, JSON for `.json`;
/// other objects are not definitions.
pub open spec fn format_of(path: Seq<char>) -> Option<ConfigFormat> {
    if has_suffix(path, ".yaml"@) {
        Some(ConfigFormat::Yaml)
    } else if has_suffix(path, ".json"@) {
        Some(ConfigFormat::Json)
    } else {
        None
    }
}

/// See `format_of`.
pub fn config_format(path: &str) -> (r: Option<ConfigFormat>)
    ensures
        r == format_of(path@),
{
    if ends_with(path, ".yaml") {
        Some(ConfigFormat::Yaml)
    } else if ends_with(path, ".json") {
        Some(ConfigFormat::Json)
    } else {
        None
    }
}

fn config_error_with(prefix: &str, detail: &str) -> (e: PipelineError)
    ensures
        is_config_error(e, prefix@ + detail@),
{
    let mut m = chars_of(prefix);
    push_str(&mut m, detail);
    PipelineError::ConfigError { message: string_from_chars(&m) }
}

/// The error for YAML definitions that do not parse; `detail` describes the
/// parser's complaint.
pub fn yaml_config_error(detail: &str) -> (e: PipelineError)
    ensures
        is_config_error(e, "Failed to parse YAML config: "@ + detail@),
{
    config_error_with("Failed to parse YAML config: ", detail)
}

/// The error for a JSON definition that does not parse; `detail` describes
/// the parser's complaint.
pub fn json_config_error(detail: &str) -> (e: PipelineError)
    ensures
        is_config_error(e, "Failed to parse JSON config: "@ + detail@),
{
    config_error_with("Failed to parse JSON config: ", detail)
}

/// The error for a prefix whose objects cannot be listed.
pub fn list_error(prefix: &str, detail: &str) -> (e: PipelineError)
    ensures
        is_config_error(e, "Failed to list config objects at '"@ + prefix@ + "': "@ + detail@),
{
    let mut m = chars_of("Failed to list config objects at '");
    push_str(&mut m, prefix);
    push_str(&mut m, "': ");
    push_str(&mut m, detail);
    PipelineError::ConfigError { message: string_from_chars(&m) }
}

/// The error for a definition whose content cannot be read.
pub fn read_error(path: &str, detail: &str) -> (e: PipelineError)
    ensures
        is_config_error(e, "Failed to read config '"@ + path@ + "': "@ + detail@),
{
    let mut m = chars_of("Failed to read config '");
    push_str(&mut m, path);
    push_str(&mut m, "': ");
    push_str(&mut m, detail);
    PipelineError::ConfigError { message: string_from_chars(&m) }
}

} // verus!
