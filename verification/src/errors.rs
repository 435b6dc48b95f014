//! The error taxonomy, and the rendering of a provider failure into
//! report lines.
//!
//! Fatal errors end the run; validation errors are reported at the point of
//! input; per-item failures (one create or one delete) are reported without
//! aborting sibling operations.

use vstd::prelude::*;

use crate::content::ContentError;
use crate::text::dec_digits;

verus! {

/// One (code, message) entry of a structured provider failure.
#[derive(Debug)]
pub struct ApiErrorEntry {
    pub code: u16,
    pub message: String,
}

/// A structured provider failure: an HTTP status and its error entries.
#[derive(Debug)]
pub struct ApiError {
    pub status: u16,
    pub errors: Vec<ApiErrorEntry>,
}

/// Everything that can end a run or fail one operation.
#[derive(Debug)]
pub enum Error {
    /// The provider returned no accounts at all.
    NoAccounts,
    /// No active zone was found for the credential.
    NoZones,
    /// The record listing request failed; no partial catalog is returned.
    CatalogFetchFailed(ApiError),
    /// The create request failed; nothing local is retained.
    CreateFailed(ApiError),
    /// The update request failed.
    UpdateFailed(ApiError),
    /// Record content did not validate.
    Validation(ContentError),
    /// A selected index does not point into the snapshot it was made from:
    /// a programming-error-class inconsistency, not operator error.
    SelectionOutOfRange,
}

/// The status line of a failure report, as the detailed response printer
/// shows it: `HTTP <status>:`, with a trailing colon.
pub open spec fn status_line(status: u16) -> Seq<char> {
    "HTTP "@ + dec_digits(status as int) + ":"@
}

/// The status line of a failure report, as the JSON response printer shows
/// it: `HTTP <status>`, without the trailing colon.
pub open spec fn status_line_plain(status: u16) -> Seq<char> {
    "HTTP "@ + dec_digits(status as int)
}

/// The report line for one (code, message) failure entry.
pub open spec fn entry_line(code: u16, message: Seq<char>) -> Seq<char> {
    "Error "@ + dec_digits(code as int) + ": "@ + message
}

/// The `HTTP <status>:` line of a failure report.
pub fn status_report_line(status: u16) -> (r: String)
    ensures
        r@ == status_line(status),
{
    String::from_str("HTTP ").concat(crate::text::u64_to_string(status as u64).as_str()).concat(
        ":",
    )
}

/// The `HTTP <status>` line of a failure report, without the colon.
pub fn status_report_line_plain(status: u16) -> (r: String)
    ensures
        r@ == status_line_plain(status),
{
    String::from_str("HTTP ").concat(crate::text::u64_to_string(status as u64).as_str())
}

/// The `Error <code>: <message>` line for one failure entry.
pub fn entry_report_line(code: u16, message: &str) -> (r: String)
    ensures
        r@ == entry_line(code, message@),
{
    String::from_str("Error ").concat(crate::text::u64_to_string(code as u64).as_str()).concat(
        ": ",
    ).concat(message)
}

} // verus!
