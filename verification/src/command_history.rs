//! The history of commands: how a command ended, and how long ago it began.

use vstd::prelude::*;

use crate::text;
use crate::text::decimal_text;

verus! {

/// How a command ended.
#[derive(Clone, Copy, Debug, PartialEq, Eq, Structural)]
pub enum CommandStatus {
    /// It has not ended yet.
    Running,
    /// It ended well.
    Success,
    /// It ended with this code.
    Failure(i32),
}

impl CommandStatus {
    /// What an exit code says: none yet, zero, or any other.
    pub fn from_exit_code(exit_code: Option<i32>) -> (r: CommandStatus)
        ensures
            r == match exit_code {
                None => CommandStatus::Running,
                Some(code) => if code == 0 {
                    CommandStatus::Success
                } else {
                    CommandStatus::Failure(code)
                },
            },
    {
        match exit_code {
            None => CommandStatus::Running,
            Some(code) => if code == 0 {
                CommandStatus::Success
            } else {
                CommandStatus::Failure(code)
            },
        }
    }
}

/// A span of seconds in its largest whole unit.
pub open spec fn ago(seconds: nat) -> Seq<char> {
    if seconds < 5 {
        "just now"@
    } else if seconds < 60 {
        text::decimal(seconds) + "s ago"@
    } else if seconds < 60 * 60 {
        text::decimal(seconds / 60) + "m ago"@
    } else if seconds < 24 * 60 * 60 {
        text::decimal(seconds / (60 * 60)) + "h ago"@
    } else {
        text::decimal(seconds / (24 * 60 * 60)) + "d ago"@
    }
}

/// The seconds from `started` to `now`; none where `started` lies ahead.
pub open spec fn elapsed_seconds(started: u64, now: u64) -> nat {
    if now > started {
        ((now - started) / 1000) as nat
    } else {
        0
    }
}

fn counted(n: u64, unit: &str) -> (r: String)
    ensures
        r@ == text::decimal(n as nat) + unit@,
{
    let mut r: String = decimal_text(n);
    r.append(unit);
    r
}

/// How long ago a command began, both times in milliseconds of the Unix clock.
pub fn format_relative_time(started_at_unix_ms: u64, now_unix_ms: u64) -> (r: String)
    ensures
        r@ == ago(elapsed_seconds(started_at_unix_ms, now_unix_ms)),
{
    let elapsed_ms: u64 = if now_unix_ms > started_at_unix_ms {
        now_unix_ms - started_at_unix_ms
    } else {
        0
    };
    let seconds: u64 = elapsed_ms / 1000;
    if seconds < 5 {
        return "just now".to_owned();
    }
    if seconds < 60 {
        return counted(seconds, "s ago");
    }
    let minutes: u64 = seconds / 60;
    if minutes < 60 {
        return counted(minutes, "m ago");
    }
    let hours: u64 = minutes / 60;
    if hours < 24 {
        return counted(hours, "h ago");
    }
    proof {
        vstd::arithmetic::div_mod::lemma_div_denominator(seconds as int, 60, 60);
        vstd::arithmetic::div_mod::lemma_div_denominator(seconds as int, 3600, 24);
    }
    counted(hours / 24, "d ago")
}

/// A start that lies ahead, as after a clock was set back, counts as just now.
pub proof fn a_start_ahead_is_just_now(started: u64, now: u64)
    requires
        now <= started,
    ensures
        ago(elapsed_seconds(started, now)) == "just now"@,
{
}

/// The time since a command began is told in words: nothing to count for less than five seconds, then
/// seconds, minutes, hours and days, each as soon as there is a whole one, and always as many whole ones
/// as have passed.
pub proof fn time_is_told_in_whole_units(started: u64, now: u64)
    requires
        started <= now,
    ensures
        ({
            let ms = now - started;
            let told = ago(elapsed_seconds(started, now));
            &&& ms < 5_000 ==> told == "just now"@
            &&& 5_000 <= ms < 60_000 ==> told == text::decimal((ms / 1_000) as nat) + "s ago"@
            &&& 60_000 <= ms < 3_600_000 ==> told == text::decimal((ms / 60_000) as nat) + "m ago"@
            &&& 3_600_000 <= ms < 86_400_000 ==> told == text::decimal((ms / 3_600_000) as nat)
                + "h ago"@
            &&& 86_400_000 <= ms ==> told == text::decimal((ms / 86_400_000) as nat) + "d ago"@
        }),
{
    let ms = now - started;
    vstd::arithmetic::div_mod::lemma_div_denominator(ms, 1000, 60);
    vstd::arithmetic::div_mod::lemma_div_denominator(ms, 1000, 3600);
    vstd::arithmetic::div_mod::lemma_div_denominator(ms, 1000, 86400);
}

} // verus!
