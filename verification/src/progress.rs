//! Install progress as the desktop window sees it: which download updates
//! are worth an event, and the diagnostic-log lines of an operation.

use vstd::prelude::*;
use crate::text::{chars_of, concat_chars, string_from_chars};

verus! {

/// Bytes that must arrive between two download events: 256 KiB.
pub const DOWNLOAD_EVENT_BYTES: u64 = 262144;

/// Milliseconds that must pass between two download events.
pub const DOWNLOAD_EVENT_MILLIS: u64 = 250;

/// The last download event: the bytes it reported and the milliseconds since.
#[derive(Debug, Clone, Copy, PartialEq, Eq)]
pub struct LastDownloadEvent {
    pub bytes: u64,
    pub elapsed_millis: u64,
}

/// `ProgressReporter::download`: report the first update, a completed
/// download, and otherwise only after both 256 KiB more and 250 ms.
pub open spec fn emits_download(last: Option<LastDownloadEvent>, downloaded: u64, total: u64) -> bool {
    let changed = match last {
        None => true,
        Some(l) => (if downloaded >= l.bytes { downloaded - l.bytes } else { 0 }) >= DOWNLOAD_EVENT_BYTES,
    };
    let waited = match last {
        None => true,
        Some(l) => l.elapsed_millis >= DOWNLOAD_EVENT_MILLIS,
    };
    (changed && waited) || downloaded >= total
}

pub fn should_emit_download(last: Option<LastDownloadEvent>, downloaded: u64, total: u64) -> (r: bool)
    ensures
        r == emits_download(last, downloaded, total),
{
    let changed = match last {
        None => true,
        Some(l) => downloaded.saturating_sub(l.bytes) >= DOWNLOAD_EVENT_BYTES,
    };
    let waited = match last {
        None => true,
        Some(l) => l.elapsed_millis >= DOWNLOAD_EVENT_MILLIS,
    };
    (changed && waited) || downloaded >= total
}

/// `operation=<id> phase=<phase> <message>`: a status line of the log.
pub fn status_log_entry(operation_id: &str, phase: &str, message: &str) -> (r: String)
    ensures
        r@ == "operation="@ + operation_id@ + " phase="@ + phase@ + " "@ + message@,
{
    let a = concat_chars(&chars_of("operation="), &chars_of(operation_id));
    let b = concat_chars(&concat_chars(&a, &chars_of(" phase=")), &chars_of(phase));
    let c = concat_chars(&concat_chars(&b, &chars_of(" ")), &chars_of(message));
    string_from_chars(&c)
}

/// `operation=<id> phase=<phase> error=<error>`: the log line of a failure,
/// whose error text is redacted first.
pub fn failure_log_entry(operation_id: &str, phase: &str, redacted_error: &str) -> (r: String)
    ensures
        r@ == "operation="@ + operation_id@ + " phase="@ + phase@ + " error="@ + redacted_error@,
{
    let a = concat_chars(&chars_of("operation="), &chars_of(operation_id));
    let b = concat_chars(&concat_chars(&a, &chars_of(" phase=")), &chars_of(phase));
    let c = concat_chars(&concat_chars(&b, &chars_of(" error=")), &chars_of(redacted_error));
    string_from_chars(&c)
}

} // verus!
