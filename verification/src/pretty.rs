//! From duration text to an English phrase.

use vstd::prelude::*;
use vstd::std_specs::iter::IteratorSpec;
use crate::decimal::{decimal, digit_char, digit_value, is_digit};

verus! {

/// What a reading of duration text has gathered so far.
pub ghost struct Reading {
    /// The phrase so far.
    pub out: Seq<char>,
    /// The number before the point, as far as its digits were read.
    pub whole: nat,
    /// The number behind the point, as far as its digits were read.
    pub fraction: nat,
    /// Whether a point was met.
    pub pointed: bool,
    /// Whether the mark of the time of day was met.
    pub timed: bool,
}

/// The reading before the first character.
pub open spec fn reading_start() -> Reading {
    Reading { out: Seq::empty(), whole: 0, fraction: 0, pointed: false, timed: false }
}

/// The ending of a unit's name: `s` for a count above one.
pub open spec fn plural(n: nat) -> Seq<char> {
    if n > 1 {
        seq!['s']
    } else {
        Seq::empty()
    }
}

/// The name of the unit of a letter. `M` is a month before the mark of the
/// time of day, and a minute behind it.
pub open spec fn unit_name(letter: char, timed: bool) -> Seq<char> {
    if letter == 'Y' {
        "Year"@
    } else if letter == 'M' {
        if timed {
            "Minute"@
        } else {
            "Month"@
        }
    } else if letter == 'W' {
        "Week"@
    } else if letter == 'D' {
        "Day"@
    } else if letter == 'H' {
        "Hour"@
    } else {
        "Second"@
    }
}

/// One part of the phrase: the count, the unit's name with its ending, a
/// comma and a space.
pub open spec fn fragment(n: nat, name: Seq<char>) -> Seq<char> {
    (((decimal(n).push(' ')) + name) + plural(n)) + ", "@
}

/// The tail of the phrase behind the seconds: the nanoseconds, where there
/// are any.
pub open spec fn nanos_tail(n: nat) -> Seq<char> {
    if n > 0 {
        decimal(n) + " Nanoseconds"@
    } else {
        Seq::empty()
    }
}

/// Whether `c` is the letter of a unit that ends a count.
pub open spec fn is_unit_letter(c: char) -> bool {
    c == 'Y' || c == 'M' || c == 'W' || c == 'D' || c == 'H'
}

/// The reading after one more character. Digits add to the pending count, a
/// hyphen is taken over, a unit letter turns the count into a part of the
/// phrase, and a character without a meaning changes nothing.
pub open spec fn reading_step(st: Reading, c: char) -> Reading {
    if is_digit(c) {
        if st.pointed {
            Reading { fraction: st.fraction * 10 + digit_value(c), ..st }
        } else {
            Reading { whole: st.whole * 10 + digit_value(c), ..st }
        }
    } else if c == '.' {
        Reading { pointed: true, ..st }
    } else if c == '-' {
        Reading { out: st.out.push('-'), ..st }
    } else if c == 'T' {
        Reading { timed: true, ..st }
    } else if is_unit_letter(c) {
        Reading { out: st.out + fragment(st.whole, unit_name(c, st.timed)), whole: 0, ..st }
    } else if c == 'S' {
        Reading {
            out: (st.out + fragment(st.whole, unit_name(c, st.timed))) + nanos_tail(st.fraction),
            ..st
        }
    } else {
        st
    }
}

/// The reading after the first `upto` characters of `text`.
pub open spec fn reading_of(text: Seq<char>, upto: nat) -> Reading
    recommends
        upto <= text.len(),
    decreases upto,
{
    if upto == 0 {
        reading_start()
    } else {
        reading_step(reading_of(text, (upto - 1) as nat), text[upto - 1])
    }
}

/// The phrase of a duration text.
pub open spec fn phrase_spec(text: Seq<char>) -> Seq<char> {
    reading_of(text, text.len()).out
}

/// The digits of a count as they are kept while reading: none for zero.
pub open spec fn kept_digits(n: nat) -> Seq<char> {
    if n == 0 {
        Seq::empty()
    } else {
        decimal(n)
    }
}

/// A count that is read digit by digit, of any length: the digits from the
/// first that is not zero, and whether the count is above zero and above
/// one.
struct Count {
    digits: String,
    some: bool,
    many: bool,
}

impl Count {
    /// Whether the count stands for `n`.
    spec fn counts(&self, n: nat) -> bool {
        &&& self.digits@ == kept_digits(n)
        &&& self.some == (n > 0)
        &&& self.many == (n > 1)
    }

    /// The count of zero.
    fn zero() -> (made: Count)
        ensures
            made.counts(0),
    {
        Count { digits: String::new(), some: false, many: false }
    }

    /// Takes one more digit at the end of the count.
    fn push_digit(&mut self, c: char, Ghost(n): Ghost<nat>)
        requires
            old(self).counts(n),
            is_digit(c),
        ensures
            final(self).counts(n * 10 + digit_value(c)),
    {
        let ghost d = digit_value(c);
        assert(digit_char(d) == c);
        if self.some || c != '0' {
            self.digits.push(c);
            proof {
                let next = n * 10 + d;
                if n > 0 {
                    assert(next / 10 == n && next % 10 == d);
                    assert(decimal(next) == decimal(n).push(c));
                } else {
                    assert(next == d);
                    assert(decimal(next) =~= Seq::<char>::empty().push(c));
                }
            }
        }
        self.many = self.some || (c != '0' && c != '1');
        self.some = self.some || c != '0';
    }

    /// Appends the count to `out` in decimal notation.
    fn write(&self, out: &mut String, Ghost(n): Ghost<nat>)
        requires
            self.counts(n),
        ensures
            final(out)@ == old(out)@ + decimal(n),
    {
        if self.some {
            out.append(self.digits.as_str());
        } else {
            out.push('0');
            assert(out@ =~= old(out)@ + decimal(0));
        }
    }

    /// Appends one part of the phrase for the count.
    fn write_fragment(&self, out: &mut String, name: &str, Ghost(n): Ghost<nat>)
        requires
            self.counts(n),
        ensures
            final(out)@ == old(out)@ + fragment(n, name@),
    {
        self.write(out, Ghost(n));
        out.push(' ');
        out.append(name);
        if self.many {
            out.push('s');
        }
        out.append(", ");
        assert(out@ =~= old(out)@ + fragment(n, name@));
    }
}

/// The name of the unit of a letter, as text.
fn name_of(letter: char, timed: bool) -> (name: &'static str)
    ensures
        name@ == unit_name(letter, timed),
{
    if letter == 'Y' {
        "Year"
    } else if letter == 'M' {
        if timed {
            "Minute"
        } else {
            "Month"
        }
    } else if letter == 'W' {
        "Week"
    } else if letter == 'D' {
        "Day"
    } else if letter == 'H' {
        "Hour"
    } else {
        "Second"
    }
}

/// Renders duration text as a phrase: for each unit letter its count and
/// its name, with `s` where the count is above one, and `, ` behind it.
///
/// The nanoseconds, where the seconds have any behind their point, follow
/// the seconds without a comma. A hyphen is taken over as it stands, and
/// any character that means nothing in duration text is passed by. Counts
/// may have any number of digits.
pub fn timedelta_str_to_preety(str: &str) -> (out: String)
    ensures
        out@ == phrase_spec(str@),
{
    broadcast use vstd::string::group_string_axioms;

    let mut chars = str.chars();
    let mut out = String::new();
    let mut whole = Count::zero();
    let mut fraction = Count::zero();
    let mut pointed = false;
    let mut timed = false;
    let ghost st = reading_start();
    let ghost done = Seq::<char>::empty();
    loop
        invariant
            chars.decrease() is Some,
            done + chars.remaining() == str@,
            st == reading_of(str@, done.len()),
            out@ == st.out,
            whole.counts(st.whole),
            fraction.counts(st.fraction),
            pointed == st.pointed,
            timed == st.timed,
        ensures
            out@ == phrase_spec(str@),
        decreases chars.decrease().unwrap(),
    {
        let ghost rest = chars.remaining();
        let c = match chars.next() {
            Some(c) => c,
            None => {
                assert(done =~= str@);
                break;
            },
        };
        let ghost next = reading_step(st, c);
        proof {
            assert(str@[done.len() as int] == rest[0]);
            assert(done.push(c) + chars.remaining() =~= str@);
            assert(next == reading_of(str@, done.len() + 1));
        }
        if '0' <= c && c <= '9' {
            if pointed {
                fraction.push_digit(c, Ghost(st.fraction));
            } else {
                whole.push_digit(c, Ghost(st.whole));
            }
        } else if c == '.' {
            pointed = true;
        } else if c == '-' {
            out.push('-');
        } else if c == 'T' {
            timed = true;
        } else if c == 'Y' || c == 'M' || c == 'W' || c == 'D' || c == 'H' {
            whole.write_fragment(&mut out, name_of(c, timed), Ghost(st.whole));
            whole = Count::zero();
        } else if c == 'S' {
            whole.write_fragment(&mut out, name_of(c, timed), Ghost(st.whole));
            if fraction.some {
                fraction.write(&mut out, Ghost(st.fraction));
                out.append(" Nanoseconds");
            }
            assert(out@ =~= next.out);
        }
        proof {
            st = next;
            done = done.push(c);
        }
    }
    out
}

} // verus!
