//! From duration text back to a span.

use vstd::prelude::*;
use vstd::std_specs::iter::IteratorSpec;
use crate::decimal::{digit_value, is_digit};
use crate::span::{
    span_in_range, SpanValue, TimeSpan, DAY_IN_SECONDS, HOUR_IN_SECONDS, MINUTE_IN_SECONDS,
    MONTH_IN_SECONDS, WEEK_IN_SECONDS, YEAR_IN_SECONDS,
};

verus! {

/// What a scan of duration text has gathered so far.
pub ghost struct Scan {
    /// The seconds of the fields read.
    pub seconds: nat,
    /// The nanoseconds of the fields read.
    pub nanos: nat,
    /// The number before the point, as far as its digits were read.
    pub whole: nat,
    /// The number behind the point, as far as its digits were read.
    pub fraction: nat,
    /// Whether a point was met.
    pub pointed: bool,
    /// Whether the mark of the time of day was met.
    pub timed: bool,
}

/// The scan before the first character.
pub open spec fn scan_start() -> Scan {
    Scan { seconds: 0, nanos: 0, whole: 0, fraction: 0, pointed: false, timed: false }
}

/// The scan after the field of a unit of `len` seconds: the pending number
/// of units is added, and the number starts anew.
pub open spec fn scan_unit(st: Scan, len: nat) -> Scan {
    Scan { seconds: st.seconds + st.whole * len, whole: 0, ..st }
}

/// The scan after one more character, or `None` where the character has no
/// place in duration text. `M` is a month before the mark of the time of
/// day, and a minute behind it.
pub open spec fn scan_step(st: Scan, c: char) -> Option<Scan> {
    if is_digit(c) {
        if st.pointed {
            Some(Scan { fraction: st.fraction * 10 + digit_value(c), ..st })
        } else {
            Some(Scan { whole: st.whole * 10 + digit_value(c), ..st })
        }
    } else if c == 'Y' {
        Some(scan_unit(st, YEAR_IN_SECONDS as nat))
    } else if c == 'M' {
        if st.timed {
            Some(scan_unit(st, MINUTE_IN_SECONDS as nat))
        } else {
            Some(scan_unit(st, MONTH_IN_SECONDS as nat))
        }
    } else if c == 'W' {
        Some(scan_unit(st, WEEK_IN_SECONDS as nat))
    } else if c == 'D' {
        Some(scan_unit(st, DAY_IN_SECONDS as nat))
    } else if c == 'H' {
        Some(scan_unit(st, HOUR_IN_SECONDS as nat))
    } else if c == 'T' {
        Some(Scan { whole: 0, timed: true, ..st })
    } else if c == '.' {
        Some(Scan { pointed: true, ..st })
    } else if c == 'S' {
        Some(Scan { seconds: st.seconds + st.whole, nanos: st.nanos + st.fraction, ..st })
    } else {
        None
    }
}

/// The scan after all of `text`, from left to right.
pub open spec fn scan_all(st: Scan, text: Seq<char>) -> Option<Scan>
    decreases text.len(),
{
    if text.len() == 0 {
        Some(st)
    } else {
        match scan_step(st, text.first()) {
            Some(next) => scan_all(next, text.drop_first()),
            None => None,
        }
    }
}

/// Whether the text opens with a hyphen.
pub open spec fn is_negative(text: Seq<char>) -> bool {
    text.len() > 0 && text[0] == '-'
}

/// The text behind the sign.
pub open spec fn unsigned_part(text: Seq<char>) -> Seq<char> {
    if is_negative(text) {
        text.skip(1)
    } else {
        text
    }
}

/// Whether the text opens as duration text does: with `P`, or with a
/// hyphen and `P`.
pub open spec fn has_lead_in(text: Seq<char>) -> bool {
    unsigned_part(text).len() > 0 && unsigned_part(text)[0] == 'P'
}

/// The span that duration text stands for, or `None` where the text does
/// not open as it must, holds a character that has no place in it, or adds
/// up to a pair outside the range of a span.
pub open spec fn decode_spec(text: Seq<char>) -> Option<SpanValue> {
    if !has_lead_in(text) {
        None
    } else {
        match scan_all(scan_start(), unsigned_part(text).skip(1)) {
            None => None,
            Some(end) => {
                let seconds: int = if is_negative(text) {
                    -(end.seconds as int)
                } else {
                    end.seconds as int
                };
                if span_in_range(seconds, end.nanos as int) {
                    Some(SpanValue { seconds, nanos: end.nanos as int })
                } else {
                    None
                }
            },
        }
    }
}

/// A count cut off at the greatest `i64`.
pub open spec fn capped(n: int) -> int {
    if n > i64::MAX {
        i64::MAX as int
    } else {
        n
    }
}

/// A count cut off at the greatest `u32`.
pub open spec fn capped_small(n: int) -> int {
    if n > u32::MAX {
        u32::MAX as int
    } else {
        n
    }
}

/// `a * m + b`, cut off at the greatest `i64`.
fn capped_mul_add(a: i64, m: i64, b: i64) -> (r: i64)
    requires
        0 <= a,
        1 <= m <= YEAR_IN_SECONDS,
        0 <= b,
    ensures
        r == capped(a * m + b),
{
    assert(0 <= a * m <= 0x7fff_ffff_ffff_ffff * 31_536_000) by (nonlinear_arith)
        requires
            0 <= a <= 0x7fff_ffff_ffff_ffff,
            1 <= m <= 31_536_000,
    ;
    let wide: i128 = (a as i128) * (m as i128) + (b as i128);
    if wide > i64::MAX as i128 {
        i64::MAX
    } else {
        wide as i64
    }
}

/// `a * m + b`, cut off at the greatest `u32`.
fn capped_small_mul_add(a: u32, m: u32, b: u32) -> (r: u32)
    requires
        1 <= m <= 10,
    ensures
        r == capped_small(a * m + b),
{
    assert(0 <= a * m <= 0xffff_ffff * 10) by (nonlinear_arith)
        requires
            0 <= a <= 0xffff_ffff,
            1 <= m <= 10,
    ;
    let wide: u64 = (a as u64) * (m as u64) + (b as u64);
    if wide > u32::MAX as u64 {
        u32::MAX
    } else {
        wide as u32
    }
}

/// Cutting off before a step of the scan, or only after it, comes to the
/// same.
proof fn lemma_capped_step(whole: int, m: int, add: int)
    requires
        whole >= 0,
        m >= 1,
        add >= 0,
    ensures
        capped(capped(whole) * m + capped(add)) == capped(whole * m + add),
        capped_small(capped_small(whole) * m + capped_small(add)) == capped_small(
            whole * m + add,
        ),
{
    assert(whole * m >= whole) by (nonlinear_arith)
        requires
            whole >= 0,
            m >= 1,
    ;
    assert(capped(whole) * m >= capped(whole)) by (nonlinear_arith)
        requires
            m >= 1,
            capped(whole) >= 0,
    ;
    assert(capped_small(whole) * m >= capped_small(whole)) by (nonlinear_arith)
        requires
            m >= 1,
            capped_small(whole) >= 0,
    ;
}

/// The running values of a scan, each cut off at the greatest value of its
/// type.
struct Tally {
    seconds: i64,
    nanos: u32,
    whole: i64,
    fraction: u32,
    pointed: bool,
    timed: bool,
}

impl Tally {
    /// Whether the tally holds the values of `st`, cut off.
    spec fn tracks(&self, st: Scan) -> bool {
        &&& self.seconds == capped(st.seconds as int)
        &&& self.nanos == capped_small(st.nanos as int)
        &&& self.whole == capped(st.whole as int)
        &&& self.fraction == capped_small(st.fraction as int)
        &&& self.pointed == st.pointed
        &&& self.timed == st.timed
    }

    /// The tally after the field of a unit of `len` seconds.
    fn unit(self, len: i64, Ghost(st): Ghost<Scan>) -> (next: Tally)
        requires
            self.tracks(st),
            1 <= len <= YEAR_IN_SECONDS,
        ensures
            next.tracks(scan_unit(st, len as nat)),
    {
        proof {
            lemma_capped_step(st.whole as int, len as int, st.seconds as int);
        }
        Tally { seconds: capped_mul_add(self.whole, len, self.seconds), whole: 0, ..self }
    }

    /// The tally after one more character, where the character has a place
    /// in duration text.
    fn step(self, c: char, Ghost(st): Ghost<Scan>) -> (next: Option<Tally>)
        requires
            self.tracks(st),
        ensures
            next is Some <==> scan_step(st, c) is Some,
            next is Some ==> next.unwrap().tracks(scan_step(st, c).unwrap()),
    {
        if '0' <= c && c <= '9' {
            let digit: u32 = c as u32 - 48;
            if self.pointed {
                proof {
                    lemma_capped_step(st.fraction as int, 10, digit as int);
                }
                Some(Tally { fraction: capped_small_mul_add(self.fraction, 10, digit), ..self })
            } else {
                proof {
                    lemma_capped_step(st.whole as int, 10, digit as int);
                }
                Some(Tally { whole: capped_mul_add(self.whole, 10, digit as i64), ..self })
            }
        } else if c == 'Y' {
            Some(self.unit(YEAR_IN_SECONDS, Ghost(st)))
        } else if c == 'M' {
            if self.timed {
                Some(self.unit(MINUTE_IN_SECONDS, Ghost(st)))
            } else {
                Some(self.unit(MONTH_IN_SECONDS, Ghost(st)))
            }
        } else if c == 'W' {
            Some(self.unit(WEEK_IN_SECONDS, Ghost(st)))
        } else if c == 'D' {
            Some(self.unit(DAY_IN_SECONDS, Ghost(st)))
        } else if c == 'H' {
            Some(self.unit(HOUR_IN_SECONDS, Ghost(st)))
        } else if c == 'T' {
            Some(Tally { whole: 0, timed: true, ..self })
        } else if c == '.' {
            Some(Tally { pointed: true, ..self })
        } else if c == 'S' {
            proof {
                lemma_capped_step(st.whole as int, 1, st.seconds as int);
                lemma_capped_step(st.fraction as int, 1, st.nanos as int);
            }
            Some(
                Tally {
                    seconds: capped_mul_add(self.whole, 1, self.seconds),
                    nanos: capped_small_mul_add(self.fraction, 1, self.nanos),
                    ..self
                },
            )
        } else {
            None
        }
    }
}

/// Reads duration text: `[-]P`, then fields of digits and a unit letter,
/// with `T` before the units of the time of day and a point before the
/// fraction of the seconds. The digits behind the point count nanoseconds
/// as they stand.
///
/// The result is the span that the fields add up to, with the sign of the
/// text on its seconds. There is none where the text does not open with `P`
/// or `-P`, holds any other character, or adds up to more than a span holds.
pub fn timedelta_from_str(str: &str) -> (span: Option<TimeSpan>)
    ensures
        span is Some <==> decode_spec(str@) is Some,
        span is Some ==> span.unwrap()@ == decode_spec(str@).unwrap(),
        !has_lead_in(str@) ==> span is None,
{
    broadcast use vstd::string::group_string_axioms;

    let mut chars = str.chars();
    let mut lead = chars.next();
    let mut negative = false;
    if let Some('-') = lead {
        negative = true;
        lead = chars.next();
    }
    match lead {
        Some('P') => {},
        _ => {
            return None;
        },
    }
    let ghost body = unsigned_part(str@).skip(1);
    assert(body =~= chars.remaining());
    let mut tally = Tally {
        seconds: 0,
        nanos: 0,
        whole: 0,
        fraction: 0,
        pointed: false,
        timed: false,
    };
    let ghost st = scan_start();
    loop
        invariant
            has_lead_in(str@),
            negative == is_negative(str@),
            chars.decrease() is Some,
            tally.tracks(st),
            scan_all(scan_start(), unsigned_part(str@).skip(1)) == scan_all(
                st,
                chars.remaining(),
            ),
        ensures
            scan_all(scan_start(), unsigned_part(str@).skip(1)) == Some(st),
        decreases chars.decrease().unwrap(),
    {
        let ghost rest = chars.remaining();
        match chars.next() {
            Some(c) => {
                match tally.step(c, Ghost(st)) {
                    Some(next) => {
                        tally = next;
                        proof {
                            st = scan_step(st, c).unwrap();
                        }
                    },
                    None => {
                        assert(scan_all(st, rest) is None);
                        return None;
                    },
                }
            },
            None => {
                break;
            },
        }
    }
    let seconds = if negative {
        0 - tally.seconds
    } else {
        tally.seconds
    };
    TimeSpan::new(seconds, tally.nanos)
}

} // verus!
