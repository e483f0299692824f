//! From a span to its duration text.

use vstd::prelude::*;
use crate::decimal::{decimal, push_decimal};
use crate::flags::{TimedeltaFlags, Unit};
use crate::span::{
    SpanValue, TimeSpan, DAY_IN_SECONDS, HOUR_IN_SECONDS, MINUTE_IN_SECONDS, MONTH_IN_SECONDS,
    WEEK_IN_SECONDS, YEAR_IN_SECONDS,
};

verus! {

/// The magnitude of a count of seconds.
pub open spec fn magnitude(seconds: int) -> nat {
    if seconds < 0 {
        (-seconds) as nat
    } else {
        seconds as nat
    }
}

/// The field of one unit: how often `len` goes into `rest`, then the unit's
/// letter. A unit that is masked out, or goes into `rest` no single time,
/// has no field.
pub open spec fn unit_field(rest: nat, len: nat, letter: char, on: bool) -> Seq<char> {
    if on && rest / len > 0 {
        decimal(rest / len).push(letter)
    } else {
        Seq::empty()
    }
}

/// What a unit leaves of `rest` for the shorter units.
pub open spec fn unit_rest(rest: nat, len: nat, on: bool) -> nat {
    if on {
        rest % len
    } else {
        rest
    }
}

/// The sign of the text: a hyphen for a span below zero.
pub open spec fn sign_field(seconds: int) -> Seq<char> {
    if seconds < 0 {
        seq!['-']
    } else {
        Seq::empty()
    }
}

/// Whether the mask selects a unit of the time of day.
pub open spec fn has_time(mask: Set<Unit>) -> bool {
    mask.contains(Unit::Hour) || mask.contains(Unit::Minute) || mask.contains(Unit::Second)
}

/// The mark that opens the units of the time of day.
pub open spec fn time_mark(mask: Set<Unit>) -> Seq<char> {
    if has_time(mask) {
        seq!['T']
    } else {
        Seq::empty()
    }
}

/// The field of the seconds: what is left, zero too, and behind a point the
/// nanoseconds as a plain number, where there are any and the mask has them.
pub open spec fn seconds_field(rest: nat, nanos: nat, mask: Set<Unit>) -> Seq<char> {
    if !mask.contains(Unit::Second) {
        Seq::empty()
    } else if nanos != 0 && mask.contains(Unit::Nanos) {
        ((decimal(rest).push('.')) + decimal(nanos)).push('S')
    } else {
        decimal(rest).push('S')
    }
}

/// The seconds left after the units from the year down to `unit`, each
/// taken only where the mask has it.
pub open spec fn rest_after(total: nat, mask: Set<Unit>, unit: Unit) -> nat {
    let after_year = unit_rest(total, YEAR_IN_SECONDS as nat, mask.contains(Unit::Year));
    let after_month = unit_rest(after_year, MONTH_IN_SECONDS as nat, mask.contains(Unit::Month));
    let after_week = unit_rest(after_month, WEEK_IN_SECONDS as nat, mask.contains(Unit::Week));
    let after_day = unit_rest(after_week, DAY_IN_SECONDS as nat, mask.contains(Unit::Day));
    let after_hour = unit_rest(after_day, HOUR_IN_SECONDS as nat, mask.contains(Unit::Hour));
    let after_minute = unit_rest(
        after_hour,
        MINUTE_IN_SECONDS as nat,
        mask.contains(Unit::Minute),
    );
    match unit {
        Unit::Year => after_year,
        Unit::Month => after_month,
        Unit::Week => after_week,
        Unit::Day => after_day,
        Unit::Hour => after_hour,
        _ => after_minute,
    }
}

/// The fields of the time of day: the mark, hours, minutes and seconds.
pub open spec fn time_fields(after_day: nat, nanos: nat, mask: Set<Unit>) -> Seq<char> {
    let after_hour = unit_rest(after_day, HOUR_IN_SECONDS as nat, mask.contains(Unit::Hour));
    let after_minute = unit_rest(
        after_hour,
        MINUTE_IN_SECONDS as nat,
        mask.contains(Unit::Minute),
    );
    time_mark(mask) + (unit_field(
        after_day,
        HOUR_IN_SECONDS as nat,
        'H',
        mask.contains(Unit::Hour),
    ) + (unit_field(after_hour, MINUTE_IN_SECONDS as nat, 'M', mask.contains(Unit::Minute))
        + seconds_field(after_minute, nanos, mask)))
}

/// The fields from the year down: years, months, weeks and days, then the
/// time of day.
pub open spec fn date_fields(total: nat, nanos: nat, mask: Set<Unit>) -> Seq<char> {
    unit_field(total, YEAR_IN_SECONDS as nat, 'Y', mask.contains(Unit::Year)) + (unit_field(
        rest_after(total, mask, Unit::Year),
        MONTH_IN_SECONDS as nat,
        'M',
        mask.contains(Unit::Month),
    ) + (unit_field(
        rest_after(total, mask, Unit::Month),
        WEEK_IN_SECONDS as nat,
        'W',
        mask.contains(Unit::Week),
    ) + (unit_field(
        rest_after(total, mask, Unit::Week),
        DAY_IN_SECONDS as nat,
        'D',
        mask.contains(Unit::Day),
    ) + time_fields(rest_after(total, mask, Unit::Day), nanos, mask))))
}

/// The duration text of a span under a mask: the sign, `P`, and the fields
/// of the units in falling order.
pub open spec fn encode_spec(span: SpanValue, mask: Set<Unit>) -> Seq<char> {
    sign_field(span.seconds) + (seq!['P'] + date_fields(
        magnitude(span.seconds),
        span.nanos as nat,
        mask,
    ))
}

/// Appends the field of one unit and returns what the unit leaves.
fn push_unit(out: &mut String, rest: u64, len: u64, letter: char, on: bool) -> (left: u64)
    requires
        len > 0,
    ensures
        final(out)@ == old(out)@ + unit_field(rest as nat, len as nat, letter, on),
        left == unit_rest(rest as nat, len as nat, on),
{
    if !on {
        assert(out@ =~= old(out)@ + unit_field(rest as nat, len as nat, letter, on));
        return rest;
    }
    let count = rest / len;
    if count > 0 {
        push_decimal(out, count);
        out.push(letter);
    }
    assert(out@ =~= old(out)@ + unit_field(rest as nat, len as nat, letter, on));
    rest % len
}

/// Appends the field of the seconds.
fn push_seconds(out: &mut String, rest: u64, nanos: u32, flags: TimedeltaFlags)
    ensures
        final(out)@ == old(out)@ + seconds_field(rest as nat, nanos as nat, flags@),
{
    if flags.holds(Unit::Second) {
        push_decimal(out, rest);
        if nanos != 0 && flags.holds(Unit::Nanos) {
            out.push('.');
            push_decimal(out, nanos as u64);
        }
        out.push('S');
    }
    assert(out@ =~= old(out)@ + seconds_field(rest as nat, nanos as nat, flags@));
}

/// Joining texts does not depend on where the brackets stand.
pub proof fn lemma_join_assoc(a: Seq<char>, b: Seq<char>, c: Seq<char>)
    ensures
        (a + b) + c == a + (b + c),
{
    assert((a + b) + c =~= a + (b + c));
}

/// Appends the fields of the time of day.
fn push_time_fields(out: &mut String, after_day: u64, nanos: u32, flags: TimedeltaFlags)
    ensures
        final(out)@ == old(out)@ + time_fields(after_day as nat, nanos as nat, flags@),
{
    let ghost start = out@;
    let ghost mask = flags@;
    if flags.holds(Unit::Hour) || flags.holds(Unit::Minute) || flags.holds(Unit::Second) {
        out.push('T');
    }
    assert(out@ =~= start + time_mark(mask));
    let after_hour = push_unit(out, after_day, HOUR_IN_SECONDS as u64, 'H', flags.holds(Unit::Hour));
    let after_minute = push_unit(
        out,
        after_hour,
        MINUTE_IN_SECONDS as u64,
        'M',
        flags.holds(Unit::Minute),
    );
    push_seconds(out, after_minute, nanos, flags);
    proof {
        let hours = unit_field(
            after_day as nat,
            HOUR_IN_SECONDS as nat,
            'H',
            mask.contains(Unit::Hour),
        );
        let minutes = unit_field(
            after_hour as nat,
            MINUTE_IN_SECONDS as nat,
            'M',
            mask.contains(Unit::Minute),
        );
        let seconds = seconds_field(after_minute as nat, nanos as nat, mask);
        assert(out@ == ((start + time_mark(mask)) + hours) + minutes + seconds);
        lemma_join_assoc((start + time_mark(mask)) + hours, minutes, seconds);
        lemma_join_assoc(start + time_mark(mask), hours, minutes + seconds);
        lemma_join_assoc(start, time_mark(mask), hours + (minutes + seconds));
    }
}

/// Appends the fields from the year down.
fn push_date_fields(out: &mut String, total: u64, nanos: u32, flags: TimedeltaFlags)
    ensures
        final(out)@ == old(out)@ + date_fields(total as nat, nanos as nat, flags@),
{
    let ghost start = out@;
    let ghost mask = flags@;
    let after_year = push_unit(out, total, YEAR_IN_SECONDS as u64, 'Y', flags.holds(Unit::Year));
    let after_month = push_unit(
        out,
        after_year,
        MONTH_IN_SECONDS as u64,
        'M',
        flags.holds(Unit::Month),
    );
    let after_week = push_unit(
        out,
        after_month,
        WEEK_IN_SECONDS as u64,
        'W',
        flags.holds(Unit::Week),
    );
    let after_day = push_unit(out, after_week, DAY_IN_SECONDS as u64, 'D', flags.holds(Unit::Day));
    push_time_fields(out, after_day, nanos, flags);
    proof {
        let years = unit_field(
            total as nat,
            YEAR_IN_SECONDS as nat,
            'Y',
            mask.contains(Unit::Year),
        );
        let months = unit_field(
            after_year as nat,
            MONTH_IN_SECONDS as nat,
            'M',
            mask.contains(Unit::Month),
        );
        let weeks = unit_field(
            after_month as nat,
            WEEK_IN_SECONDS as nat,
            'W',
            mask.contains(Unit::Week),
        );
        let days = unit_field(
            after_week as nat,
            DAY_IN_SECONDS as nat,
            'D',
            mask.contains(Unit::Day),
        );
        let time = time_fields(after_day as nat, nanos as nat, mask);
        assert(after_year == rest_after(total as nat, mask, Unit::Year));
        assert(after_month == rest_after(total as nat, mask, Unit::Month));
        assert(after_week == rest_after(total as nat, mask, Unit::Week));
        assert(after_day == rest_after(total as nat, mask, Unit::Day));
        assert(out@ == (((start + years) + months) + weeks) + days + time);
        lemma_join_assoc(((start + years) + months) + weeks, days, time);
        lemma_join_assoc((start + years) + months, weeks, days + time);
        lemma_join_assoc(start + years, months, weeks + (days + time));
        lemma_join_assoc(start, years, months + (weeks + (days + time)));
    }
}

/// Writes a span as duration text: `[-]P[nY][nM][nW][nD][T[nH][nM][n[.f]S]]`.
///
/// Only the units of `flags` appear, and of those only the ones that go into
/// what the longer units left; the seconds appear whenever the mask has
/// them. `T` stands wherever the mask has hours, minutes or seconds.
pub fn timedelta_to_str(timedelta: TimeSpan, flags: TimedeltaFlags) -> (out: String)
    ensures
        out@ == encode_spec(timedelta@, flags@),
{
    let total = timedelta.num_seconds();
    let nanos = timedelta.subsec_nanos();
    let mut out = String::new();
    if total < 0 {
        out.push('-');
    }
    assert(out@ =~= sign_field(timedelta@.seconds));
    out.push('P');
    let all: u64 = if total < 0 {
        (0 - total) as u64
    } else {
        total as u64
    };
    assert(all == magnitude(timedelta@.seconds));
    let ghost lead = out@;
    assert(lead =~= sign_field(timedelta@.seconds) + seq!['P']);
    push_date_fields(&mut out, all, nanos, flags);
    proof {
        lemma_join_assoc(
            sign_field(timedelta@.seconds),
            seq!['P'],
            date_fields(all as nat, nanos as nat, flags@),
        );
    }
    out
}

} // verus!
