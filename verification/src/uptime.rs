//! Uptime as a compact calendar string: weeks, days, hours and minutes, of
//! which a policy picks the ones to show.

use vstd::prelude::*;
use vstd::arithmetic::div_mod::{lemma_fundamental_div_mod, lemma_fundamental_div_mod_converse};
use crate::text::{decimal, is_digit, lemma_decimal_is_digits, lemma_contains_in_parts, push_decimal};

verus! {

/// Seconds in a minute.
pub const SECONDS_PER_MINUTE: u64 = 60;

/// Seconds in an hour.
pub const SECONDS_PER_HOUR: u64 = 3600;

/// Seconds in a day.
pub const SECONDS_PER_DAY: u64 = 86400;

/// Seconds in a week.
pub const SECONDS_PER_WEEK: u64 = 604800;

/// A duration in whole weeks, days, hours and minutes.
#[derive(Clone, Copy, Debug, PartialEq, Eq, Structural)]
pub struct DurationParts {
    /// Whole weeks.
    pub weeks: u64,
    /// Days beyond the whole weeks.
    pub days: u64,
    /// Hours beyond the whole days.
    pub hours: u64,
    /// Minutes beyond the whole hours.
    pub minutes: u64,
}

/// Which parts of a duration are shown.
#[derive(Clone, Copy, Debug, PartialEq, Eq, Structural)]
pub struct DurationFormatPolicy {
    /// Show whole weeks as a unit of their own, not as seven days each.
    pub week_aware: bool,
    /// Show a finer unit that would otherwise be left out.
    pub precise: bool,
}

impl DurationParts {
    /// Each part stays below one of the next coarser unit.
    pub open spec fn well_formed(&self) -> bool {
        self.days < 7 && self.hours < 24 && self.minutes < 60
    }

    /// The duration in seconds.
    pub open spec fn seconds(&self) -> nat {
        (self.weeks * SECONDS_PER_WEEK + self.days * SECONDS_PER_DAY + self.hours
            * SECONDS_PER_HOUR + self.minutes * SECONDS_PER_MINUTE) as nat
    }

    /// All the days, those of the whole weeks included.
    pub open spec fn total_days(&self) -> nat {
        (self.weeks * 7 + self.days) as nat
    }

    /// Less than one day has passed.
    pub open spec fn under_one_day(&self) -> bool {
        self.weeks == 0 && self.days == 0
    }
}

/// The parts of `total_seconds`: each the whole units left by the next
/// coarser one. Seconds beyond the last whole minute are dropped.
pub open spec fn parts_of(total_seconds: u64) -> DurationParts {
    DurationParts {
        weeks: total_seconds / SECONDS_PER_WEEK,
        days: total_seconds % SECONDS_PER_WEEK / SECONDS_PER_DAY,
        hours: total_seconds % SECONDS_PER_DAY / SECONDS_PER_HOUR,
        minutes: total_seconds % SECONDS_PER_HOUR / SECONDS_PER_MINUTE,
    }
}

/// A count followed by the letter of its unit.
pub open spec fn unit_group(count: nat, unit: char) -> Seq<char> {
    decimal(count).push(unit)
}

/// The number of days that is shown: beyond the whole weeks where weeks are
/// shown apart, all of them otherwise.
pub open spec fn shown_days(parts: DurationParts, policy: DurationFormatPolicy) -> nat {
    if policy.week_aware {
        parts.days as nat
    } else {
        parts.total_days()
    }
}

/// Weeks are shown where the policy asks for them and there is one.
pub open spec fn shows_weeks(parts: DurationParts, policy: DurationFormatPolicy) -> bool {
    policy.week_aware && parts.weeks > 0
}

/// Days are shown where there is one to show.
pub open spec fn shows_days(parts: DurationParts, policy: DurationFormatPolicy) -> bool {
    shown_days(parts, policy) > 0
}

/// Hours are shown under one day; and beyond, where the policy is precise,
/// there is an hour to show, and no week has been shown.
pub open spec fn shows_hours(parts: DurationParts, policy: DurationFormatPolicy) -> bool {
    parts.under_one_day() || (policy.precise && parts.hours > 0 && (!policy.week_aware
        || parts.weeks == 0))
}

/// Minutes are shown under one day where the policy is precise.
pub open spec fn shows_minutes(parts: DurationParts, policy: DurationFormatPolicy) -> bool {
    parts.under_one_day() && policy.precise
}

/// `group` where it is shown, nothing otherwise.
pub open spec fn group_if(shown: bool, group: Seq<char>) -> Seq<char> {
    if shown {
        group
    } else {
        Seq::empty()
    }
}

/// What `render` writes: an arrow up, then the groups that are shown, from
/// weeks to minutes, with nothing between them.
pub open spec fn uptime_text(parts: DurationParts, policy: DurationFormatPolicy) -> Seq<char> {
    seq!['\u{2191}'] + group_if(shows_weeks(parts, policy), unit_group(parts.weeks as nat, 'w'))
        + group_if(shows_days(parts, policy), unit_group(shown_days(parts, policy), 'd'))
        + group_if(shows_hours(parts, policy), unit_group(parts.hours as nat, 'h')) + group_if(
        shows_minutes(parts, policy),
        unit_group(parts.minutes as nat, 'm'),
    )
}

/// The parts of a duration are well formed, and add up to the duration
/// without the seconds beyond its last whole minute.
pub proof fn lemma_parts_add_up(total_seconds: u64)
    ensures
        parts_of(total_seconds).well_formed(),
        parts_of(total_seconds).seconds() == total_seconds - total_seconds % SECONDS_PER_MINUTE,
        parts_of(total_seconds).total_days() == total_seconds / SECONDS_PER_DAY,
        parts_of(total_seconds).under_one_day() <==> total_seconds < SECONDS_PER_DAY,
{
    let s = total_seconds as int;
    let weeks = s / 604800;
    let in_week = s % 604800;
    let days = in_week / 86400;
    let in_day = in_week % 86400;
    let hours = in_day / 3600;
    let in_hour = in_day % 3600;
    let minutes = in_hour / 60;
    let in_minute = in_hour % 60;
    lemma_fundamental_div_mod(s, 604800);
    lemma_fundamental_div_mod(in_week, 86400);
    lemma_fundamental_div_mod(in_day, 3600);
    lemma_fundamental_div_mod(in_hour, 60);
    lemma_fundamental_div_mod_converse(s, 86400, 7 * weeks + days, in_day);
    lemma_fundamental_div_mod_converse(s, 3600, 24 * (7 * weeks + days) + hours, in_hour);
    lemma_fundamental_div_mod_converse(
        s,
        60,
        60 * (24 * (7 * weeks + days) + hours) + minutes,
        in_minute,
    );
}

/// A group holds its own letter, and no other that is not a digit.
proof fn lemma_group_letter(count: nat, unit: char, c: char)
    requires
        !is_digit(c),
    ensures
        unit_group(count, unit).contains(c) <==> c == unit,
{
    let group = unit_group(count, unit);
    lemma_decimal_is_digits(count);
    if c == unit {
        assert(group[group.len() - 1] == c);
    }
    if group.contains(c) {
        let i = choose|i: int| 0 <= i < group.len() && group[i] == c;
        if i < decimal(count).len() {
            assert(is_digit(decimal(count)[i]));
        }
    }
}

/// A group that may be left out holds its letter exactly where it is shown.
proof fn lemma_group_if_letter(shown: bool, count: nat, unit: char, c: char)
    requires
        !is_digit(c),
    ensures
        group_if(shown, unit_group(count, unit)).contains(c) <==> shown && c == unit,
{
    lemma_group_letter(count, unit, c);
}

/// Where a unit's letter stands in the text, that unit's group is shown,
/// and the other way round.
proof fn lemma_letter_in_text(parts: DurationParts, policy: DurationFormatPolicy, c: char)
    requires
        c == 'w' || c == 'd' || c == 'h' || c == 'm',
    ensures
        uptime_text(parts, policy).contains(c) <==> (shows_weeks(parts, policy) && c == 'w') || (
        shows_days(parts, policy) && c == 'd') || (shows_hours(parts, policy) && c == 'h') || (
        shows_minutes(parts, policy) && c == 'm'),
{
    let arrow = seq!['\u{2191}'];
    let weeks = group_if(shows_weeks(parts, policy), unit_group(parts.weeks as nat, 'w'));
    let days = group_if(shows_days(parts, policy), unit_group(shown_days(parts, policy), 'd'));
    let hours = group_if(shows_hours(parts, policy), unit_group(parts.hours as nat, 'h'));
    let minutes = group_if(shows_minutes(parts, policy), unit_group(parts.minutes as nat, 'm'));
    assert(uptime_text(parts, policy) == arrow + weeks + days + hours + minutes);
    lemma_contains_in_parts(arrow, weeks, c);
    lemma_contains_in_parts(arrow + weeks, days, c);
    lemma_contains_in_parts(arrow + weeks + days, hours, c);
    lemma_contains_in_parts(arrow + weeks + days + hours, minutes, c);
    if arrow.contains(c) {
        let i = choose|i: int| 0 <= i < arrow.len() && arrow[i] == c;
        assert(arrow[i] == '\u{2191}');
    }
    lemma_group_if_letter(shows_weeks(parts, policy), parts.weeks as nat, 'w', c);
    lemma_group_if_letter(shows_days(parts, policy), shown_days(parts, policy), 'd', c);
    lemma_group_if_letter(shows_hours(parts, policy), parts.hours as nat, 'h', c);
    lemma_group_if_letter(shows_minutes(parts, policy), parts.minutes as nat, 'm', c);
}

/// The text tells which groups it shows: it begins with the arrow, and the
/// letter of a unit stands in it exactly where that unit is shown. So `w`
/// is never written where weeks are not asked for, and `m` only under one
/// day.
pub proof fn lemma_letters_tell_groups(parts: DurationParts, policy: DurationFormatPolicy)
    ensures
        uptime_text(parts, policy).len() >= 1,
        uptime_text(parts, policy)[0] == '\u{2191}',
        uptime_text(parts, policy).contains('w') <==> shows_weeks(parts, policy),
        uptime_text(parts, policy).contains('d') <==> shows_days(parts, policy),
        uptime_text(parts, policy).contains('h') <==> shows_hours(parts, policy),
        uptime_text(parts, policy).contains('m') <==> shows_minutes(parts, policy),
{
    lemma_letter_in_text(parts, policy, 'w');
    lemma_letter_in_text(parts, policy, 'd');
    lemma_letter_in_text(parts, policy, 'h');
    lemma_letter_in_text(parts, policy, 'm');
}

/// Splits a duration in seconds into weeks, days, hours and minutes.
///
/// The parts add up to the duration without the seconds beyond its last
/// whole minute.
pub fn decompose(total_seconds: u64) -> (parts: DurationParts)
    ensures
        parts == parts_of(total_seconds),
        parts.well_formed(),
        parts.seconds() == total_seconds - total_seconds % SECONDS_PER_MINUTE,
{
    proof {
        lemma_parts_add_up(total_seconds);
    }
    DurationParts {
        weeks: total_seconds / SECONDS_PER_WEEK,
        days: total_seconds % SECONDS_PER_WEEK / SECONDS_PER_DAY,
        hours: total_seconds % SECONDS_PER_DAY / SECONDS_PER_HOUR,
        minutes: total_seconds % SECONDS_PER_HOUR / SECONDS_PER_MINUTE,
    }
}

/// Appends `count` and the letter of its unit.
fn push_unit_group(out: &mut String, count: u128, unit: &str)
    requires
        unit@.len() == 1,
    ensures
        final(out)@ == old(out)@ + unit_group(count as nat, unit@[0]),
{
    push_decimal(out, count);
    out.append(unit);
}

/// Writes the parts that the policy shows, after an arrow up.
///
/// Weeks are written where the policy is week-aware and there is a whole
/// week; the days are then those beyond the whole weeks, and otherwise all
/// of them. Days are written where there is one. Hours are written under
/// one day; beyond that only where the policy is precise, there is an hour,
/// and the policy is not week-aware or there is no whole week. Minutes are
/// written under one day where the policy is precise. Whether less than a
/// day has passed is read from the parts: no week and no day.
pub fn render(parts: &DurationParts, policy: &DurationFormatPolicy) -> (text: String)
    ensures
        text@ == uptime_text(*parts, *policy),
{
    proof {
        reveal_strlit("\u{2191}");
        reveal_strlit("w");
        reveal_strlit("d");
        reveal_strlit("h");
        reveal_strlit("m");
    }
    let mut out = String::new();
    out.append("\u{2191}");
    let under_one_day = parts.weeks == 0 && parts.days == 0;
    if policy.week_aware && parts.weeks > 0 {
        push_unit_group(&mut out, parts.weeks as u128, "w");
    }
    let days: u128 = if policy.week_aware {
        parts.days as u128
    } else {
        parts.weeks as u128 * 7 + parts.days as u128
    };
    if days > 0 {
        push_unit_group(&mut out, days, "d");
    }
    if under_one_day || (policy.precise && parts.hours > 0 && (!policy.week_aware || parts.weeks
        == 0)) {
        push_unit_group(&mut out, parts.hours as u128, "h");
    }
    if under_one_day && policy.precise {
        push_unit_group(&mut out, parts.minutes as u128, "m");
    }
    out
}

/// Writes an uptime of `total_seconds` under `policy`.
pub fn format_uptime(total_seconds: u64, policy: &DurationFormatPolicy) -> (text: String)
    ensures
        text@ == uptime_text(parts_of(total_seconds), *policy),
{
    let parts = decompose(total_seconds);
    render(&parts, policy)
}

} // verus!
