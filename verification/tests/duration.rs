use chrono::{NaiveDateTime, Utc};
use timeman::decode::timedelta_from_str;
use timeman::encode::timedelta_to_str;
use timeman::flags::{TimedeltaFlags, Unit};
use timeman::pretty::timedelta_str_to_preety;
use timeman::report::{flags_or_all, timedelta_report};
use timeman::span::{TimeSpan, MAX_SECONDS, MIN_SECONDS};

fn span(seconds: i64, nanos: u32) -> TimeSpan {
    TimeSpan::new(seconds, nanos).unwrap()
}

#[test]
fn timedelta() {
    let time_delta = TimeSpan::new(1, 32).unwrap();
    assert_eq!(
        timedelta_to_str(time_delta, TimedeltaFlags::all()),
        "PT1.32S".to_owned()
    );
    assert_eq!(
        time_delta,
        timedelta_from_str(&timedelta_to_str(time_delta, TimedeltaFlags::all())).unwrap()
    );

    let since = Utc::now().naive_utc() - NaiveDateTime::UNIX_EPOCH;
    let since = TimeSpan::new(since.num_seconds(), since.subsec_nanos().unsigned_abs()).unwrap();
    assert_eq!(
        since,
        timedelta_from_str(&timedelta_to_str(since, TimedeltaFlags::default())).unwrap()
    );
}

#[test]
fn zero_span_with_seconds_and_nanos() {
    assert_eq!(timedelta_to_str(span(0, 0), TimedeltaFlags::new("sn")), "PT0S");
    assert_eq!(timedelta_to_str(span(0, 0), TimedeltaFlags::default()), "PT0S");
}

#[test]
fn zero_span_with_empty_mask() {
    assert_eq!(timedelta_to_str(span(0, 0), TimedeltaFlags::empty()), "P");
}

#[test]
fn zero_span_with_time_units_but_no_seconds() {
    assert_eq!(timedelta_to_str(span(0, 0), TimedeltaFlags::new("hm")), "PT");
    assert_eq!(timedelta_to_str(span(0, 0), TimedeltaFlags::new("YMD")), "P");
}

#[test]
fn one_second_and_32_nanos_decodes() {
    let got = timedelta_from_str("PT1.32S").unwrap();
    assert_eq!(got.num_seconds(), 1);
    assert_eq!(got.subsec_nanos(), 32);
}

#[test]
fn fraction_digits_count_nanoseconds_as_they_stand() {
    let got = timedelta_from_str("PT1.5S").unwrap();
    assert_eq!(got.num_seconds(), 1);
    assert_eq!(got.subsec_nanos(), 5);
    let got = timedelta_from_str("PT1.0000005S").unwrap();
    assert_eq!(got.subsec_nanos(), 5);
}

#[test]
fn fraction_is_written_without_padding() {
    assert_eq!(
        timedelta_to_str(span(7, 1_234_567), TimedeltaFlags::all()),
        "PT7.1234567S"
    );
    assert_eq!(
        timedelta_to_str(span(7, 999_999_999), TimedeltaFlags::all()),
        "PT7.999999999S"
    );
}

#[test]
fn fraction_is_left_out_without_nanos_in_mask() {
    assert_eq!(timedelta_to_str(span(7, 32), TimedeltaFlags::new("s")), "PT7S");
    assert_eq!(timedelta_to_str(span(7, 32), TimedeltaFlags::new("n")), "P");
}

#[test]
fn every_unit_is_written_in_falling_order() {
    let seconds = 31_536_000 + 2 * 2_628_000 + 604_800 + 3 * 86_400 + 4 * 3_600 + 5 * 60 + 6;
    assert_eq!(
        timedelta_to_str(span(seconds, 0), TimedeltaFlags::all()),
        "P1Y2M1W3DT4H5M6S"
    );
    assert_eq!(
        timedelta_to_str(span(seconds, 0), TimedeltaFlags::new("YMDhmsn")),
        "P1Y2M10DT4H5M6S"
    );
}

#[test]
fn units_that_do_not_fit_are_skipped() {
    assert_eq!(
        timedelta_to_str(span(3_600, 0), TimedeltaFlags::all()),
        "PT1H0S"
    );
    assert_eq!(
        timedelta_to_str(span(86_400 + 59, 0), TimedeltaFlags::all()),
        "P1DT59S"
    );
}

#[test]
fn masked_out_units_leave_their_seconds_to_the_next() {
    assert_eq!(timedelta_to_str(span(3_661, 0), TimedeltaFlags::new("s")), "PT3661S");
    assert_eq!(timedelta_to_str(span(3_661, 0), TimedeltaFlags::new("h")), "PT1H");
    assert_eq!(timedelta_to_str(span(3_661, 0), TimedeltaFlags::new("ms")), "PT61M1S");
    assert_eq!(
        timedelta_to_str(span(31_536_000, 0), TimedeltaFlags::new("D")),
        "P365D"
    );
    assert_eq!(
        timedelta_to_str(span(31_536_000, 0), TimedeltaFlags::new("M")),
        "P12M"
    );
}

#[test]
fn negative_span_round_trip() {
    let text = timedelta_to_str(span(-5, 0), TimedeltaFlags::all());
    assert_eq!(text, "-PT5S");
    assert!(text.starts_with("-P"));
    let back = timedelta_from_str(&text).unwrap();
    assert_eq!(back.num_seconds(), -5);
    assert_eq!(back.subsec_nanos(), 0);
}

#[test]
fn negative_span_with_fraction_round_trip() {
    let text = timedelta_to_str(span(-5, 3), TimedeltaFlags::all());
    assert_eq!(text, "-PT5.3S");
    assert_eq!(timedelta_from_str(&text), Some(span(-5, 3)));
}

#[test]
fn round_trip_on_chosen_spans() {
    let cases = [
        (0, 0),
        (1, 0),
        (59, 999_999_999),
        (60, 1),
        (86_399, 0),
        (2_628_000, 7),
        (31_535_999, 0),
        (1_000_000_007, 123_456_789),
        (-1, 0),
        (-31_536_000, 1),
        (MAX_SECONDS, 807_000_000),
        (MIN_SECONDS, 193_000_000),
    ];
    for (seconds, nanos) in cases {
        let s = span(seconds, nanos);
        let all = timedelta_to_str(s, TimedeltaFlags::all());
        assert_eq!(timedelta_from_str(&all), Some(s));
        let short = timedelta_to_str(s, TimedeltaFlags::default());
        assert_eq!(timedelta_from_str(&short), Some(s));
    }
}

#[test]
fn decode_needs_the_lead_in() {
    assert_eq!(timedelta_from_str(""), None);
    assert_eq!(timedelta_from_str("-"), None);
    assert_eq!(timedelta_from_str("T1S"), None);
    assert_eq!(timedelta_from_str("1S"), None);
    assert_eq!(timedelta_from_str(" PT1S"), None);
    assert_eq!(timedelta_from_str("pT1S"), None);
    assert_eq!(timedelta_from_str("+PT1S"), None);
    assert_eq!(timedelta_from_str("--PT1S"), None);
    assert_eq!(timedelta_from_str("-T1S"), None);
}

#[test]
fn decode_of_the_bare_lead_in_is_zero() {
    assert_eq!(timedelta_from_str("P"), Some(span(0, 0)));
    assert_eq!(timedelta_from_str("-P"), Some(span(0, 0)));
    assert_eq!(timedelta_from_str("PT"), Some(span(0, 0)));
}

#[test]
fn decode_rejects_other_characters() {
    assert_eq!(timedelta_from_str("P1X"), None);
    assert_eq!(timedelta_from_str("PT1s"), None);
    assert_eq!(timedelta_from_str("PT1S "), None);
    assert_eq!(timedelta_from_str("P1D-"), None);
    assert_eq!(timedelta_from_str("PP"), None);
    assert_eq!(timedelta_from_str("PT1\u{e9}S"), None);
}

#[test]
fn decode_rejects_a_fraction_of_a_second_or_more() {
    assert_eq!(timedelta_from_str("PT1.1000000000S"), None);
    assert_eq!(timedelta_from_str("PT1.99999999999999999999S"), None);
    assert_eq!(timedelta_from_str("PT0.600000000S0.600000000S"), None);
    assert_eq!(timedelta_from_str("PT1.999999999S"), Some(span(1, 999_999_999)));
}

#[test]
fn decode_rejects_more_seconds_than_a_span_holds() {
    assert_eq!(timedelta_from_str("PT9223372036854776S"), None);
    assert_eq!(timedelta_from_str("PT99999999999999999999999999S"), None);
    assert_eq!(timedelta_from_str("P999999999999Y"), None);
    assert_eq!(
        timedelta_from_str("PT9223372036854775S"),
        Some(span(MAX_SECONDS, 0))
    );
    assert_eq!(
        timedelta_from_str("-PT9223372036854775.807000000S"),
        Some(span(-MAX_SECONDS, 807_000_000))
    );
}

#[test]
fn decode_forgets_a_count_that_the_time_mark_cuts_off() {
    assert_eq!(timedelta_from_str("P5T1S"), Some(span(1, 0)));
    assert_eq!(
        timedelta_from_str("P99999999999999999999999999T1S"),
        Some(span(1, 0))
    );
}

#[test]
fn decode_keeps_the_count_over_the_seconds() {
    assert_eq!(timedelta_from_str("PT1S2S"), Some(span(13, 0)));
    assert_eq!(timedelta_from_str("PT1.5S3S"), Some(span(2, 58)));
    assert_eq!(timedelta_from_str("P1.5D"), Some(span(86_400, 0)));
    assert_eq!(timedelta_from_str("PT.7S"), Some(span(0, 7)));
}

#[test]
fn decode_tells_month_from_minute() {
    assert_eq!(timedelta_from_str("P1M"), Some(span(2_628_000, 0)));
    assert_eq!(timedelta_from_str("PT1M"), Some(span(60, 0)));
    assert_eq!(timedelta_from_str("P1MT1M"), Some(span(2_628_060, 0)));
}

#[test]
fn decode_adds_every_unit() {
    assert_eq!(
        timedelta_from_str("P1Y2M1W3DT4H5M6S"),
        Some(span(
            31_536_000 + 2 * 2_628_000 + 604_800 + 3 * 86_400 + 4 * 3_600 + 5 * 60 + 6,
            0
        ))
    );
    assert_eq!(timedelta_from_str("-P1W"), Some(span(-604_800, 0)));
}

#[test]
fn span_bounds_are_those_of_a_time_delta() {
    assert!(TimeSpan::new(0, 999_999_999).is_some());
    assert!(TimeSpan::new(0, 1_000_000_000).is_none());
    assert!(TimeSpan::new(MAX_SECONDS, 807_000_000).is_some());
    assert!(TimeSpan::new(MAX_SECONDS, 807_000_001).is_none());
    assert!(TimeSpan::new(MAX_SECONDS + 1, 0).is_none());
    assert!(TimeSpan::new(MIN_SECONDS, 193_000_000).is_some());
    assert!(TimeSpan::new(MIN_SECONDS, 192_999_999).is_none());
    assert!(TimeSpan::new(MIN_SECONDS - 1, 999_999_999).is_none());
    assert!(TimeSpan::new(i64::MIN, 0).is_none());
    assert!(TimeSpan::new(i64::MAX, 0).is_none());
    for (seconds, nanos) in [(0, 0), (5, 1_000_000_000), (MAX_SECONDS, 900_000_000), (-7, 7)] {
        assert_eq!(
            TimeSpan::new(seconds, nanos).is_some(),
            chrono::TimeDelta::new(seconds, nanos).is_some()
        );
    }
}

#[test]
fn span_keeps_its_parts() {
    let s = span(-12, 34);
    assert_eq!(s.num_seconds(), -12);
    assert_eq!(s.subsec_nanos(), 34);
    assert_eq!(s, s.clone());
    assert_ne!(s, span(12, 34));
}

#[test]
fn phrase_tells_month_from_minute() {
    assert_eq!(
        timedelta_str_to_preety("P1Y2M3DT4H5M6S"),
        "1 Year, 2 Months, 3 Days, 4 Hours, 5 Minutes, 6 Seconds, "
    );
}

#[test]
fn phrase_takes_the_first_time_mark() {
    assert_eq!(
        timedelta_str_to_preety("PT1Y2M3DT4H5M6S"),
        "1 Year, 2 Minutes, 3 Days, 4 Hours, 5 Minutes, 6 Seconds, "
    );
}

#[test]
fn phrase_plural_starts_above_one() {
    assert_eq!(timedelta_str_to_preety("PT0S"), "0 Second, ");
    assert_eq!(timedelta_str_to_preety("PT1S"), "1 Second, ");
    assert_eq!(timedelta_str_to_preety("PT2S"), "2 Seconds, ");
    assert_eq!(timedelta_str_to_preety("PT10S"), "10 Seconds, ");
    assert_eq!(timedelta_str_to_preety("P1W"), "1 Week, ");
    assert_eq!(timedelta_str_to_preety("P3W"), "3 Weeks, ");
    assert_eq!(timedelta_str_to_preety("PT11H"), "11 Hours, ");
}

#[test]
fn phrase_ends_with_the_nanoseconds() {
    assert_eq!(timedelta_str_to_preety("PT1.32S"), "1 Second, 32 Nanoseconds");
    assert_eq!(timedelta_str_to_preety("PT1.0S"), "1 Second, ");
    assert_eq!(timedelta_str_to_preety("PT4.1S"), "4 Seconds, 1 Nanoseconds");
}

#[test]
fn phrase_passes_by_what_means_nothing() {
    assert_eq!(timedelta_str_to_preety(""), "");
    assert_eq!(timedelta_str_to_preety("P"), "");
    assert_eq!(timedelta_str_to_preety("PT"), "");
    assert_eq!(timedelta_str_to_preety("hello"), "");
    assert_eq!(timedelta_str_to_preety("x3 yD"), "3 Days, ");
    assert_eq!(timedelta_str_to_preety("-PT5S"), "-5 Seconds, ");
    assert_eq!(timedelta_str_to_preety("P1D-"), "1 Day, -");
}

#[test]
fn phrase_keeps_the_count_over_the_time_mark_and_the_seconds() {
    assert_eq!(timedelta_str_to_preety("P5T1S"), "51 Seconds, ");
    assert_eq!(timedelta_str_to_preety("PT2S3H"), "2 Seconds, 23 Hours, ");
    assert_eq!(timedelta_str_to_preety("Y"), "0 Year, ");
}

#[test]
fn phrase_takes_counts_of_any_length() {
    assert_eq!(
        timedelta_str_to_preety("P123456789012345678901234567890Y"),
        "123456789012345678901234567890 Years, "
    );
    assert_eq!(timedelta_str_to_preety("P007D"), "7 Days, ");
    assert_eq!(timedelta_str_to_preety("P000D"), "0 Day, ");
    assert_eq!(timedelta_str_to_preety("P001D"), "1 Day, ");
    assert_eq!(
        timedelta_str_to_preety("PT0.00012345678901234567890S"),
        "0 Second, 12345678901234567890 Nanoseconds"
    );
}

#[test]
fn mask_from_letters() {
    assert_eq!(TimedeltaFlags::new("sn"), TimedeltaFlags::default());
    assert_eq!(
        TimedeltaFlags::new("sn"),
        TimedeltaFlags::single(Unit::Second) | TimedeltaFlags::single(Unit::Nanos)
    );
    assert_eq!(TimedeltaFlags::new("X"), TimedeltaFlags::empty());
    assert_eq!(TimedeltaFlags::new(""), TimedeltaFlags::empty());
    assert_eq!(TimedeltaFlags::new("Y"), TimedeltaFlags::single(Unit::Year));
    assert_eq!(TimedeltaFlags::new("M"), TimedeltaFlags::single(Unit::Month));
    assert_eq!(TimedeltaFlags::new("D"), TimedeltaFlags::single(Unit::Day));
    assert_eq!(TimedeltaFlags::new("h"), TimedeltaFlags::single(Unit::Hour));
    assert_eq!(TimedeltaFlags::new("m"), TimedeltaFlags::single(Unit::Minute));
    assert_eq!(TimedeltaFlags::new("s"), TimedeltaFlags::single(Unit::Second));
    assert_eq!(TimedeltaFlags::new("n"), TimedeltaFlags::single(Unit::Nanos));
    assert_eq!(TimedeltaFlags::new("x s, n!s"), TimedeltaFlags::default());
    assert_eq!(TimedeltaFlags::new("ySNdH"), TimedeltaFlags::empty());
}

#[test]
fn mask_letters_never_give_weeks() {
    let week = TimedeltaFlags::single(Unit::Week);
    assert_eq!(TimedeltaFlags::new("W"), TimedeltaFlags::empty());
    assert_eq!(TimedeltaFlags::new("w"), TimedeltaFlags::empty());
    assert!(!TimedeltaFlags::new("YMDhmsn").contains(week));
    assert!(TimedeltaFlags::all().contains(week));
    assert_eq!(TimedeltaFlags::new("YMDhmsn") | week, TimedeltaFlags::all());
}

#[test]
fn mask_contains_and_union() {
    let sn = TimedeltaFlags::default();
    let s = TimedeltaFlags::single(Unit::Second);
    let h = TimedeltaFlags::single(Unit::Hour);
    assert!(sn.contains(s));
    assert!(sn.contains(sn));
    assert!(sn.contains(TimedeltaFlags::empty()));
    assert!(!s.contains(sn));
    assert!(!sn.contains(h));
    assert!(!sn.contains(s | h));
    assert!((sn | h).contains(s | h));
    assert_eq!(s.union(h), s | h);
    assert_eq!(s | s, s);
    assert_eq!(s | TimedeltaFlags::empty(), s);
    assert!(sn.holds(Unit::Nanos));
    assert!(!sn.holds(Unit::Year));
    assert!(!TimedeltaFlags::empty().contains(s));
    for unit in [
        Unit::Year,
        Unit::Month,
        Unit::Week,
        Unit::Day,
        Unit::Hour,
        Unit::Minute,
        Unit::Second,
        Unit::Nanos,
    ] {
        assert!(TimedeltaFlags::all().holds(unit));
        assert!(!TimedeltaFlags::empty().holds(unit));
        assert!(TimedeltaFlags::single(unit).holds(unit));
    }
}

#[test]
fn mask_order_follows_the_shortest_unit() {
    assert!(TimedeltaFlags::single(Unit::Year) < TimedeltaFlags::single(Unit::Month));
    assert!(TimedeltaFlags::single(Unit::Second) < TimedeltaFlags::single(Unit::Nanos));
    assert!(TimedeltaFlags::empty() < TimedeltaFlags::single(Unit::Year));
    assert!(TimedeltaFlags::new("YMDhms") < TimedeltaFlags::single(Unit::Nanos));
    assert!(TimedeltaFlags::default() < TimedeltaFlags::all());
}

#[test]
fn report_picks_text_or_phrase() {
    let s = span(90_061, 0);
    assert_eq!(flags_or_all(None), TimedeltaFlags::all());
    assert_eq!(flags_or_all(Some("sn")), TimedeltaFlags::default());
    assert_eq!(flags_or_all(Some("")), TimedeltaFlags::empty());
    assert_eq!(timedelta_report(s, flags_or_all(None), false), "P1DT1H1M1S");
    assert_eq!(
        timedelta_report(s, flags_or_all(None), true),
        "1 Day, 1 Hour, 1 Minute, 1 Second, "
    );
    assert_eq!(timedelta_report(s, flags_or_all(Some("sn")), false), "PT90061S");
    assert_eq!(
        timedelta_report(s, flags_or_all(Some("sn")), true),
        "90061 Seconds, "
    );
    assert_eq!(
        timedelta_report(span(-2, 5), flags_or_all(Some("sn")), true),
        "-2 Seconds, 5 Nanoseconds"
    );
}
