//! Reading connector settings: required and optional properties, defaults,
//! and values parsed from text.
use vstd::prelude::*;
use crate::config::{get_property, lookup, Properties};
use crate::error::{is_config_error, PipelineError};
use crate::text::{
    chars_of, parse_bool, parse_bool_exec, parse_u32, parse_u64, parse_unsigned, parse_usize,
    push_str, split, split_trimmed, string_from_chars, trim,
};

verus! {

/// The message for a missing required property `key`.
pub open spec fn missing_message(key: Seq<char>) -> Seq<char> {
    "Missing required property: "@ + key
}

/// The value under `key`, or the error for a missing required property.
pub fn required(entries: &Properties, key: &str) -> (r: Result<String, PipelineError>)
    ensures
        match lookup(entries@, key@) {
            Some(v) => r matches Ok(s) && s@ == v,
            None => r matches Err(e) && is_config_error(e, missing_message(key@)),
        },
{
    match get_property(entries, key) {
        Some(v) => Ok(v),
        None => {
            let mut m = chars_of("Missing required property: ");
            push_str(&mut m, key);
            Err(PipelineError::ConfigError { message: string_from_chars(&m) })
        },
    }
}

/// The value under `key`, or `default` where there is none.
pub open spec fn text_or(entries: Seq<(String, String)>, key: Seq<char>, default: Seq<char>) -> Seq<
    char,
> {
    match lookup(entries, key) {
        Some(v) => v,
        None => default,
    }
}

/// The value under `key`, or `default` where there is none.
pub fn text_or_default(entries: &Properties, key: &str, default: &str) -> (r: String)
    ensures
        r@ == text_or(entries@, key@, default@),
{
    match get_property(entries, key) {
        Some(v) => v,
        None => string_from_chars(&chars_of(default)),
    }
}

/// The flag under `key` where it parses as a `bool`, else `default`.
pub open spec fn bool_or(entries: Seq<(String, String)>, key: Seq<char>, default: bool) -> bool {
    match lookup(entries, key) {
        Some(v) => match parse_bool(v) {
            Some(b) => b,
            None => default,
        },
        None => default,
    }
}

pub fn bool_or_default(entries: &Properties, key: &str, default: bool) -> (r: bool)
    ensures
        r == bool_or(entries@, key@, default),
{
    match get_property(entries, key) {
        Some(v) => match parse_bool_exec(v.as_str()) {
            Some(b) => b,
            None => default,
        },
        None => default,
    }
}

/// The number under `key` where it parses as an unsigned integer up to `max`,
/// else `default`.
pub open spec fn number_or(
    entries: Seq<(String, String)>,
    key: Seq<char>,
    max: nat,
    default: nat,
) -> nat {
    match lookup(entries, key) {
        Some(v) => match parse_unsigned(v, max) {
            Some(n) => n,
            None => default,
        },
        None => default,
    }
}

pub fn usize_or_default(entries: &Properties, key: &str, default: usize) -> (r: usize)
    ensures
        r == number_or(entries@, key@, usize::MAX as nat, default as nat),
{
    match get_property(entries, key) {
        Some(v) => match parse_usize(v.as_str()) {
            Some(n) => n,
            None => default,
        },
        None => default,
    }
}

pub fn u64_or_default(entries: &Properties, key: &str, default: u64) -> (r: u64)
    ensures
        r == number_or(entries@, key@, u64::MAX as nat, default as nat),
{
    match get_property(entries, key) {
        Some(v) => match parse_u64(v.as_str()) {
            Some(n) => n,
            None => default,
        },
        None => default,
    }
}

pub fn u32_or_default(entries: &Properties, key: &str, default: u32) -> (r: u32)
    ensures
        r == number_or(entries@, key@, u32::MAX as nat, default as nat),
{
    match get_property(entries, key) {
        Some(v) => match parse_u32(v.as_str()) {
            Some(n) => n,
            None => default,
        },
        None => default,
    }
}

/// Whether `r` holds the optional value under `key` of `entries`.
pub open spec fn optional_matches(r: Option<String>, entries: Seq<(String, String)>, key: Seq<char>) -> bool {
    match lookup(entries, key) {
        Some(v) => r matches Some(s) && s@ == v,
        None => r is None,
    }
}

/// Whether `r` holds the trimmed pieces of `s` split at commas.
pub open spec fn comma_list_matches(r: Seq<String>, s: Seq<char>) -> bool {
    r.len() == split(s, ',').len() && forall|i: int|
        0 <= i < r.len() ==> (#[trigger] r[i])@ == trim(split(s, ',')[i])
}

/// The trimmed pieces of `s` split at commas.
pub fn comma_list(s: &str) -> (r: Vec<String>)
    ensures
        comma_list_matches(r@, s@),
{
    split_trimmed(s, ',')
}

} // verus!
