//! Log lines carry the UTC time of day.

use vstd::prelude::*;
use crate::text::{push_char, push_zero_padded, zero_padded};

verus! {

/// The clock as (whole seconds, milliseconds within the second) since 1970, or (0, 0)
/// when it reads earlier; from `SystemTime::now()`. Of the reading only the
/// documented range of the milliseconds is stated.
#[verifier::external_body]
fn clock_reading() -> (r: (u64, u32))
    ensures
        r.1 < 1000,
{
    let now = std::time::SystemTime::now().duration_since(std::time::SystemTime::UNIX_EPOCH).unwrap_or_default();
    (now.as_secs(), now.subsec_millis())
}

/// "HH:MM:SS.mmm" of the time of day (UTC) at `secs` seconds and `millis` milliseconds.
pub open spec fn clock_text(secs: nat, millis: nat) -> Seq<char> {
    let day = secs % 86400;
    zero_padded(day / 3600, 2) + seq![':'] + zero_padded((day % 3600) / 60, 2) + seq![':'] + zero_padded(day % 60, 2)
        + seq!['.'] + zero_padded(millis, 3)
}

/// Renders a time of day.
pub fn format_clock(secs: u64, millis: u32) -> (r: String)
    ensures
        r@ == clock_text(secs as nat, millis as nat),
{
    let day = secs % 86400;
    let mut r = String::new();
    push_zero_padded(&mut r, day / 3600, 2);
    push_char(&mut r, ':');
    push_zero_padded(&mut r, (day % 3600) / 60, 2);
    push_char(&mut r, ':');
    push_zero_padded(&mut r, day % 60, 2);
    push_char(&mut r, '.');
    push_zero_padded(&mut r, millis as u64, 3);
    r
}

/// The current time of day, UTC, as "HH:MM:SS.mmm".
pub fn timestamp() -> (r: String)
    ensures
        exists|secs: nat, millis: nat| millis < 1000 && r@ == clock_text(secs, millis),
{
    let (secs, millis) = clock_reading();
    format_clock(secs, millis)
}

} // verus!
