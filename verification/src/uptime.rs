//! How long the bot has been running, in words.

use crate::decimal::{push_signed_decimal, signed_decimal};
use vstd::prelude::*;
use vstd::string::StringExecFns;

verus! {

/// The remainder of `a` divided by a positive `b`, with the sign of `a`: what
/// is left of a total once the whole units of the next size are taken out.
pub open spec fn remainder(a: int, b: int) -> int {
    if a >= 0 {
        a % b
    } else {
        -((-a) % b)
    }
}

/// An uptime of so many days, hours, minutes and seconds, starting at the
/// largest unit that is positive: `1d 2h 3m 4s`, `2h 0m 5s`, `3m 4s`, `4s`.
pub open spec fn uptime_text(days: int, hours: int, minutes: int, seconds: int) -> Seq<char> {
    if days > 0 {
        signed_decimal(days) + "d "@ + signed_decimal(hours) + "h "@ + signed_decimal(minutes)
            + "m "@ + signed_decimal(seconds) + "s"@
    } else if hours > 0 {
        signed_decimal(hours) + "h "@ + signed_decimal(minutes) + "m "@ + signed_decimal(seconds)
            + "s"@
    } else if minutes > 0 {
        signed_decimal(minutes) + "m "@ + signed_decimal(seconds) + "s"@
    } else {
        signed_decimal(seconds) + "s"@
    }
}

/// Whether `text` is an uptime as [`format_uptime`] writes one.
pub open spec fn is_uptime_text(text: Seq<char>) -> bool {
    exists|days: int, hours: int, minutes: int, seconds: int|
        -24 < hours < 24 && -60 < minutes < 60 && -60 < seconds < 60 && text == #[trigger] uptime_text(
            days,
            hours,
            minutes,
            seconds,
        )
}

/// Writes out a span of time of which the whole days, the whole hours, the
/// whole minutes and the whole seconds are given, each as a total. Hours are
/// shown within the day, minutes within the hour and seconds within the
/// minute.
pub fn format_uptime(days: i64, hours: i64, minutes: i64, seconds: i64) -> (text: String)
    ensures
        text@ == uptime_text(
            days as int,
            remainder(hours as int, 24),
            remainder(minutes as int, 60),
            remainder(seconds as int, 60),
        ),
        is_uptime_text(text@),
{
    let hours = hours % 24;
    let minutes = minutes % 60;
    let seconds = seconds % 60;
    let mut text = String::new();
    if days > 0 {
        push_signed_decimal(&mut text, days);
        text.append("d ");
    }
    if days > 0 || hours > 0 {
        push_signed_decimal(&mut text, hours);
        text.append("h ");
    }
    if days > 0 || hours > 0 || minutes > 0 {
        push_signed_decimal(&mut text, minutes);
        text.append("m ");
    }
    push_signed_decimal(&mut text, seconds);
    text.append("s");
    assert(text@ =~= uptime_text(days as int, hours as int, minutes as int, seconds as int));
    text
}

} // verus!
