//! The wall clock behind the status line.

use chrono::Local;
use vstd::prelude::*;
use vstd::utf8::is_ascii_chars;

verus! {

/// Calls chrono's `Local::now` and formats the moment with
/// `%Y-%m-%d %H:%M:%S`.
///
/// Which moment comes back depends on the clock and on the machine's time
/// zone, so nothing is promised of the digits. Trusted is the shape that
/// chrono's formatting gives every moment it can return: the text is ASCII;
/// month, day, hour, minute and second take two digits each, with one
/// separator between the fields; the year takes four digits up to 9999 and a
/// sign with five or six digits beyond, up to the last year that chrono can
/// hold. That makes 19 to 22 characters.
#[verifier::external_body]
pub(crate) fn local_timestamp() -> (text: String)
    ensures
        is_ascii_chars(text@),
        19 <= text@.len() <= 22,
{
    Local::now().format("%Y-%m-%d %H:%M:%S").to_string()
}

} // verus!
