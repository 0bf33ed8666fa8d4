//! Which failures of a request mean that the sidecar itself is gone.

use crate::text;
use vstd::prelude::*;

verus! {

/// A failure with this message is worth a restart of the sidecar: it speaks of a connection that
/// was refused, reset, broken or too slow, or of a response that is none.
pub open spec fn is_retryable(message: Seq<char>) -> bool {
    ||| text::contains(message, "Connection refused"@)
    ||| text::contains(message, "connection refused"@)
    ||| text::contains(message, "Connection reset"@)
    ||| text::contains(message, "connection reset"@)
    ||| text::contains(message, "Broken pipe"@)
    ||| text::contains(message, "broken pipe"@)
    ||| text::contains(message, "timed out"@)
    ||| text::contains(message, "empty HTTP response from sidecar"@)
    ||| text::contains(message, "malformed HTTP response"@)
}

/// Tells whether a failure with this message is worth a restart of the sidecar.
pub fn is_retryable_sidecar_error(message: &str) -> (r: bool)
    ensures
        r == is_retryable(message@),
{
    text::has_text(message, "Connection refused") || text::has_text(message, "connection refused")
        || text::has_text(message, "Connection reset") || text::has_text(
        message,
        "connection reset",
    ) || text::has_text(message, "Broken pipe") || text::has_text(message, "broken pipe")
        || text::has_text(message, "timed out") || text::has_text(
        message,
        "empty HTTP response from sidecar",
    ) || text::has_text(message, "malformed HTTP response")
}

} // verus!
