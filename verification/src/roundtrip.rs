//! Reading back what was written.

use vstd::prelude::*;
use crate::decimal::{decimal, digit_char, digit_value, is_digit};
use crate::decode::{
    decode_spec, has_lead_in, is_negative, scan_all, scan_start, scan_step, scan_unit,
    unsigned_part, Scan,
};
use crate::encode::{
    date_fields, encode_spec, magnitude, rest_after, seconds_field, time_fields, time_mark,
    unit_field, unit_rest,
};
use crate::flags::Unit;
use crate::span::{
    span_in_range, SpanValue, DAY_IN_SECONDS, HOUR_IN_SECONDS, MINUTE_IN_SECONDS,
    MONTH_IN_SECONDS, WEEK_IN_SECONDS, YEAR_IN_SECONDS,
};

verus! {

/// A scan of a character and a text behind it takes the character's step
/// and goes on with the text.
pub proof fn lemma_scan_first(st: Scan, c: char, tail: Seq<char>)
    ensures
        scan_all(st, seq![c] + tail) == match scan_step(st, c) {
            Some(next) => scan_all(next, tail),
            None => None,
        },
{
    let text = seq![c] + tail;
    assert(text.first() == c);
    assert(text.drop_first() =~= tail);
}

/// A scan that meets a number takes it up as a whole: as the count before
/// the point, or behind it as the fraction.
pub proof fn lemma_scan_number(st: Scan, n: nat, tail: Seq<char>)
    requires
        if st.pointed {
            st.fraction == 0
        } else {
            st.whole == 0
        },
    ensures
        scan_all(st, decimal(n) + tail) == scan_all(
            if st.pointed {
                Scan { fraction: n, ..st }
            } else {
                Scan { whole: n, ..st }
            },
            tail,
        ),
    decreases n,
{
    if n < 10 {
        let c = digit_char(n);
        assert(is_digit(c) && digit_value(c) == n);
        assert(decimal(n) + tail =~= seq![c] + tail);
        lemma_scan_first(st, c, tail);
    } else {
        let c = digit_char(n % 10);
        assert(is_digit(c) && digit_value(c) == n % 10);
        assert(decimal(n) + tail =~= decimal(n / 10) + (seq![c] + tail));
        lemma_scan_number(st, n / 10, seq![c] + tail);
        let mid = if st.pointed {
            Scan { fraction: n / 10, ..st }
        } else {
            Scan { whole: n / 10, ..st }
        };
        lemma_scan_first(mid, c, tail);
        assert((n / 10) * 10 + n % 10 == n);
    }
}

/// Whether `letter` stands for a unit of `len` seconds in a scan that has,
/// or has not, met the mark of the time of day.
pub open spec fn letter_of(letter: char, len: nat, timed: bool) -> bool {
    ||| letter == 'Y' && len == YEAR_IN_SECONDS
    ||| letter == 'M' && !timed && len == MONTH_IN_SECONDS
    ||| letter == 'W' && len == WEEK_IN_SECONDS
    ||| letter == 'D' && len == DAY_IN_SECONDS
    ||| letter == 'H' && len == HOUR_IN_SECONDS
    ||| letter == 'M' && timed && len == MINUTE_IN_SECONDS
}

/// A scan that meets the field of a unit adds what the unit took of the
/// seconds: together with what the unit left, that is all of them.
pub proof fn lemma_scan_unit_field(
    st: Scan,
    rest: nat,
    len: nat,
    letter: char,
    on: bool,
    tail: Seq<char>,
)
    requires
        !st.pointed,
        st.whole == 0,
        letter_of(letter, len, st.timed),
    ensures
        scan_all(st, unit_field(rest, len, letter, on) + tail) == scan_all(
            Scan { seconds: (st.seconds + rest - unit_rest(rest, len, on)) as nat, ..st },
            tail,
        ),
        unit_rest(rest, len, on) <= rest,
{
    let count = rest / len;
    assert(rest == count * len + rest % len && rest % len >= 0 && count >= 0) by {
        vstd::arithmetic::div_mod::lemma_fundamental_div_mod(rest as int, len as int);
        vstd::arithmetic::div_mod::lemma_mod_bound(rest as int, len as int);
        vstd::arithmetic::div_mod::lemma_div_pos_is_pos(rest as int, len as int);
        assert(len * count == count * len) by (nonlinear_arith);
    }
    if on && count > 0 {
        assert(unit_field(rest, len, letter, on) + tail =~= decimal(count) + (seq![letter] + tail));
        lemma_scan_number(st, count, seq![letter] + tail);
        let mid = Scan { whole: count, ..st };
        lemma_scan_first(mid, letter, tail);
        assert(scan_step(mid, letter) == Some(scan_unit(mid, len)));
    } else {
        assert(unit_field(rest, len, letter, on) + tail =~= tail);
        if on {
            assert(count * len == 0) by (nonlinear_arith)
                requires
                    count == 0,
            ;
        }
    }
}

/// A scan that meets the field of the seconds adds the seconds, and the
/// nanoseconds where the field holds them.
pub proof fn lemma_scan_seconds_field(st: Scan, rest: nat, nanos: nat, mask: Set<Unit>)
    requires
        !st.pointed,
        st.whole == 0,
        st.fraction == 0,
        mask.contains(Unit::Second),
        mask.contains(Unit::Nanos) || nanos == 0,
    ensures
        scan_all(st, seconds_field(rest, nanos, mask)) is Some,
        scan_all(st, seconds_field(rest, nanos, mask)).unwrap().seconds == st.seconds + rest,
        scan_all(st, seconds_field(rest, nanos, mask)).unwrap().nanos == st.nanos + nanos,
{
    let none = Seq::<char>::empty();
    let counted = Scan { whole: rest, ..st };
    if nanos != 0 {
        let behind = decimal(nanos) + (seq!['S'] + none);
        assert(seconds_field(rest, nanos, mask) =~= decimal(rest) + (seq!['.'] + behind));
        lemma_scan_number(st, rest, seq!['.'] + behind);
        lemma_scan_first(counted, '.', behind);
        let pointed = Scan { pointed: true, ..counted };
        lemma_scan_number(pointed, nanos, seq!['S'] + none);
        lemma_scan_first(Scan { fraction: nanos, ..pointed }, 'S', none);
    } else {
        assert(seconds_field(rest, nanos, mask) =~= decimal(rest) + (seq!['S'] + none));
        lemma_scan_number(st, rest, seq!['S'] + none);
        lemma_scan_first(counted, 'S', none);
    }
}

/// A scan that meets the fields of the time of day adds all the seconds
/// that they were written from.
pub proof fn lemma_scan_time_fields(st: Scan, after_day: nat, nanos: nat, mask: Set<Unit>)
    requires
        !st.pointed,
        st.whole == 0,
        st.fraction == 0,
        mask.contains(Unit::Second),
        mask.contains(Unit::Nanos) || nanos == 0,
    ensures
        scan_all(st, time_fields(after_day, nanos, mask)) is Some,
        scan_all(st, time_fields(after_day, nanos, mask)).unwrap().seconds == st.seconds
            + after_day,
        scan_all(st, time_fields(after_day, nanos, mask)).unwrap().nanos == st.nanos + nanos,
{
    let hour_on = mask.contains(Unit::Hour);
    let minute_on = mask.contains(Unit::Minute);
    let after_hour = unit_rest(after_day, HOUR_IN_SECONDS as nat, hour_on);
    let after_minute = unit_rest(after_hour, MINUTE_IN_SECONDS as nat, minute_on);
    let seconds = seconds_field(after_minute, nanos, mask);
    let minutes = unit_field(after_hour, MINUTE_IN_SECONDS as nat, 'M', minute_on) + seconds;
    let hours = unit_field(after_day, HOUR_IN_SECONDS as nat, 'H', hour_on) + minutes;
    assert(time_mark(mask) == seq!['T']);
    assert(time_fields(after_day, nanos, mask) == seq!['T'] + hours);
    lemma_scan_first(st, 'T', hours);
    let timed = Scan { whole: 0, timed: true, ..st };
    lemma_scan_unit_field(timed, after_day, HOUR_IN_SECONDS as nat, 'H', hour_on, minutes);
    let houred = Scan { seconds: (timed.seconds + after_day - after_hour) as nat, ..timed };
    lemma_scan_unit_field(houred, after_hour, MINUTE_IN_SECONDS as nat, 'M', minute_on, seconds);
    let minuted = Scan {
        seconds: (houred.seconds + after_hour - after_minute) as nat,
        ..houred
    };
    lemma_scan_seconds_field(minuted, after_minute, nanos, mask);
}

/// A scan that meets all the fields of a duration text adds all the seconds
/// that they were written from.
pub proof fn lemma_scan_date_fields(total: nat, nanos: nat, mask: Set<Unit>)
    requires
        mask.contains(Unit::Second),
        mask.contains(Unit::Nanos) || nanos == 0,
    ensures
        scan_all(scan_start(), date_fields(total, nanos, mask)) is Some,
        scan_all(scan_start(), date_fields(total, nanos, mask)).unwrap().seconds == total,
        scan_all(scan_start(), date_fields(total, nanos, mask)).unwrap().nanos == nanos,
{
    let st = scan_start();
    let year_on = mask.contains(Unit::Year);
    let month_on = mask.contains(Unit::Month);
    let week_on = mask.contains(Unit::Week);
    let day_on = mask.contains(Unit::Day);
    let after_year = rest_after(total, mask, Unit::Year);
    let after_month = rest_after(total, mask, Unit::Month);
    let after_week = rest_after(total, mask, Unit::Week);
    let after_day = rest_after(total, mask, Unit::Day);
    let time = time_fields(after_day, nanos, mask);
    let days = unit_field(after_week, DAY_IN_SECONDS as nat, 'D', day_on) + time;
    let weeks = unit_field(after_month, WEEK_IN_SECONDS as nat, 'W', week_on) + days;
    let months = unit_field(after_year, MONTH_IN_SECONDS as nat, 'M', month_on) + weeks;
    assert(date_fields(total, nanos, mask) == unit_field(
        total,
        YEAR_IN_SECONDS as nat,
        'Y',
        year_on,
    ) + months);
    lemma_scan_unit_field(st, total, YEAR_IN_SECONDS as nat, 'Y', year_on, months);
    let yeared = Scan { seconds: (total - after_year) as nat, ..st };
    lemma_scan_unit_field(yeared, after_year, MONTH_IN_SECONDS as nat, 'M', month_on, weeks);
    let monthed = Scan { seconds: (total - after_month) as nat, ..st };
    lemma_scan_unit_field(monthed, after_month, WEEK_IN_SECONDS as nat, 'W', week_on, days);
    let weeked = Scan { seconds: (total - after_week) as nat, ..st };
    lemma_scan_unit_field(weeked, after_week, DAY_IN_SECONDS as nat, 'D', day_on, time);
    let dayed = Scan { seconds: (total - after_day) as nat, ..st };
    lemma_scan_time_fields(dayed, after_day, nanos, mask);
}

/// Reading back what was written under a mask that keeps the seconds, and
/// the nanoseconds where the span has any, gives the span again: the same
/// whole seconds with their sign, and the same nanoseconds.
pub proof fn lemma_decode_encode(span: SpanValue, mask: Set<Unit>)
    requires
        span_in_range(span.seconds, span.nanos),
        mask.contains(Unit::Second),
        mask.contains(Unit::Nanos) || span.nanos == 0,
    ensures
        decode_spec(encode_spec(span, mask)) == Some(span),
{
    let total = magnitude(span.seconds);
    let fields = date_fields(total, span.nanos as nat, mask);
    let text = encode_spec(span, mask);
    lemma_scan_date_fields(total, span.nanos as nat, mask);
    if span.seconds < 0 {
        assert(text =~= seq!['-'] + (seq!['P'] + fields));
        assert(text[0] == '-');
        assert(unsigned_part(text) =~= seq!['P'] + fields);
    } else {
        assert(text =~= seq!['P'] + fields);
        assert(text[0] == 'P');
        assert(unsigned_part(text) =~= seq!['P'] + fields);
    }
    assert(unsigned_part(text)[0] == 'P');
    assert(unsigned_part(text).skip(1) =~= fields);
}

/// Reading back what was written under the mask of all units gives the span
/// again, whatever the span.
pub proof fn lemma_decode_encode_all_units(span: SpanValue)
    requires
        span_in_range(span.seconds, span.nanos),
    ensures
        decode_spec(encode_spec(span, Set::full())) == Some(span),
{
    lemma_decode_encode(span, Set::full());
}

/// The text of a span below zero opens with a hyphen and `P`, under any
/// mask.
pub proof fn lemma_negative_lead_in(span: SpanValue, mask: Set<Unit>)
    requires
        span_in_range(span.seconds, span.nanos),
        span.seconds < 0,
    ensures
        encode_spec(span, mask).len() >= 2,
        encode_spec(span, mask)[0] == '-',
        encode_spec(span, mask)[1] == 'P',
        has_lead_in(encode_spec(span, mask)),
        is_negative(encode_spec(span, mask)),
{
    let fields = date_fields(magnitude(span.seconds), span.nanos as nat, mask);
    let text = encode_spec(span, mask);
    assert(text =~= seq!['-'] + (seq!['P'] + fields));
    assert(unsigned_part(text) =~= seq!['P'] + fields);
}

/// A text that does not open with `P`, or with a hyphen and `P`, stands for
/// no span.
pub proof fn lemma_decode_needs_lead_in(text: Seq<char>)
    requires
        !(text.len() >= 1 && text[0] == 'P'),
        !(text.len() >= 2 && text[0] == '-' && text[1] == 'P'),
    ensures
        decode_spec(text) is None,
{
}

} // verus!
