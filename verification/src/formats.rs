//! Validation of user-supplied format names against closed sets,
//! case-insensitively.

use vstd::prelude::*;

use crate::errors::AppError;
use crate::errors::ErrorKind;
use crate::strutil::ci_eq;
use crate::strutil::str_eq_ci;

verus! {

/// The canonical audio format for a request, if the request names one of
/// the four accepted formats in any letter case.
pub open spec fn normalized_format(f: Seq<char>) -> Option<Seq<char>> {
    if ci_eq(f, "flac"@) {
        Some("flac"@)
    } else if ci_eq(f, "mp3"@) {
        Some("mp3"@)
    } else if ci_eq(f, "m4a"@) {
        Some("m4a"@)
    } else if ci_eq(f, "wav"@) {
        Some("wav"@)
    } else {
        None
    }
}

/// The canonical export format for a request: xlsx or csv.
pub open spec fn normalized_export_format(f: Seq<char>) -> Option<Seq<char>> {
    if ci_eq(f, "xlsx"@) {
        Some("xlsx"@)
    } else if ci_eq(f, "csv"@) {
        Some("csv"@)
    } else {
        None
    }
}

/// Validates a requested audio format against the closed set
/// flac/mp3/m4a/wav; anything else is a user error.
pub fn normalize_format(format: &str) -> (r: Result<&'static str, AppError>)
    ensures
        match r {
            Ok(f) => normalized_format(format@) == Some(f@),
            Err(e) => normalized_format(format@) is None && e.kind == ErrorKind::BadRequest
                && e.message@ == "unsupported format"@,
        },
{
    if str_eq_ci(format, "flac") {
        Ok("flac")
    } else if str_eq_ci(format, "mp3") {
        Ok("mp3")
    } else if str_eq_ci(format, "m4a") {
        Ok("m4a")
    } else if str_eq_ci(format, "wav") {
        Ok("wav")
    } else {
        Err(AppError::bad_request("unsupported format".to_owned()))
    }
}

/// Validates a requested export format against the closed set xlsx/csv.
pub fn normalize_export_format(format: &str) -> (r: Result<&'static str, AppError>)
    ensures
        match r {
            Ok(f) => normalized_export_format(format@) == Some(f@),
            Err(e) => normalized_export_format(format@) is None && e.kind == ErrorKind::BadRequest
                && e.message@ == "unsupported export format"@,
        },
{
    if str_eq_ci(format, "xlsx") {
        Ok("xlsx")
    } else if str_eq_ci(format, "csv") {
        Ok("csv")
    } else {
        Err(AppError::bad_request("unsupported export format".to_owned()))
    }
}

} // verus!
