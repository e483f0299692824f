//! The mask of duration units.

use vstd::prelude::*;
use vstd::std_specs::iter::IteratorSpec;

verus! {

/// A unit of a duration, from the longest to the shortest.
#[derive(Clone, Copy, Debug, PartialEq, Eq, Structural)]
pub enum Unit {
    Year,
    Month,
    Week,
    Day,
    Hour,
    Minute,
    Second,
    Nanos,
}

/// The unit that a letter of a mask text selects. Weeks have no letter.
pub open spec fn letter_unit(c: char) -> Option<Unit> {
    if c == 'Y' {
        Some(Unit::Year)
    } else if c == 'M' {
        Some(Unit::Month)
    } else if c == 'D' {
        Some(Unit::Day)
    } else if c == 'h' {
        Some(Unit::Hour)
    } else if c == 'm' {
        Some(Unit::Minute)
    } else if c == 's' {
        Some(Unit::Second)
    } else if c == 'n' {
        Some(Unit::Nanos)
    } else {
        None
    }
}

/// The units that the letters of `s` select.
pub open spec fn letters_mask(s: Seq<char>) -> Set<Unit> {
    Set::new(|u: Unit| exists|i: int| 0 <= i < s.len() && letter_unit(#[trigger] s[i]) == Some(u))
}

/// A set of duration units.
///
/// The fields run from the shortest unit to the longest, so that the derived
/// order is that of the mask read as a binary number with the year as its
/// lowest digit.
#[derive(Clone, Copy, Debug, PartialEq, Eq, Structural, PartialOrd, Ord)]
pub struct TimedeltaFlags {
    nanos: bool,
    second: bool,
    minute: bool,
    hour: bool,
    day: bool,
    week: bool,
    month: bool,
    year: bool,
}

impl View for TimedeltaFlags {
    type V = Set<Unit>;

    closed spec fn view(&self) -> Set<Unit> {
        Set::new(|u: Unit| self.has(u))
    }
}

impl TimedeltaFlags {
    /// Whether the mask holds `unit`.
    spec fn has(&self, unit: Unit) -> bool {
        match unit {
            Unit::Year => self.year,
            Unit::Month => self.month,
            Unit::Week => self.week,
            Unit::Day => self.day,
            Unit::Hour => self.hour,
            Unit::Minute => self.minute,
            Unit::Second => self.second,
            Unit::Nanos => self.nanos,
        }
    }

    /// Two masks with the same units are the same mask.
    pub proof fn lemma_view_injective(a: TimedeltaFlags, b: TimedeltaFlags)
        requires
            a@ == b@,
        ensures
            a == b,
    {
        assert(a@.contains(Unit::Year) == a.has(Unit::Year) && b@.contains(Unit::Year) == b.has(
            Unit::Year,
        ));
        assert(a@.contains(Unit::Month) == a.has(Unit::Month) && b@.contains(Unit::Month) == b.has(
            Unit::Month,
        ));
        assert(a@.contains(Unit::Week) == a.has(Unit::Week) && b@.contains(Unit::Week) == b.has(
            Unit::Week,
        ));
        assert(a@.contains(Unit::Day) == a.has(Unit::Day) && b@.contains(Unit::Day) == b.has(
            Unit::Day,
        ));
        assert(a@.contains(Unit::Hour) == a.has(Unit::Hour) && b@.contains(Unit::Hour) == b.has(
            Unit::Hour,
        ));
        assert(a@.contains(Unit::Minute) == a.has(Unit::Minute) && b@.contains(Unit::Minute)
            == b.has(Unit::Minute));
        assert(a@.contains(Unit::Second) == a.has(Unit::Second) && b@.contains(Unit::Second)
            == b.has(Unit::Second));
        assert(a@.contains(Unit::Nanos) == a.has(Unit::Nanos) && b@.contains(Unit::Nanos) == b.has(
            Unit::Nanos,
        ));
    }

    /// The mask of one unit.
    pub fn single(unit: Unit) -> (out: Self)
        ensures
            out@ == set![unit],
    {
        let out = TimedeltaFlags {
            nanos: unit == Unit::Nanos,
            second: unit == Unit::Second,
            minute: unit == Unit::Minute,
            hour: unit == Unit::Hour,
            day: unit == Unit::Day,
            week: unit == Unit::Week,
            month: unit == Unit::Month,
            year: unit == Unit::Year,
        };
        assert(out@ =~= set![unit]);
        out
    }

    /// The mask without any unit.
    pub fn empty() -> (out: Self)
        ensures
            out@ == Set::<Unit>::empty(),
    {
        let out = TimedeltaFlags {
            nanos: false,
            second: false,
            minute: false,
            hour: false,
            day: false,
            week: false,
            month: false,
            year: false,
        };
        assert(out@ =~= Set::<Unit>::empty());
        out
    }

    /// The mask of all eight units.
    pub fn all() -> (out: Self)
        ensures
            out@ == Set::<Unit>::full(),
    {
        let out = TimedeltaFlags {
            nanos: true,
            second: true,
            minute: true,
            hour: true,
            day: true,
            week: true,
            month: true,
            year: true,
        };
        assert(out@ =~= Set::<Unit>::full());
        out
    }

    /// Whether every unit of `rhs` is in `self`.
    pub fn contains(self, rhs: Self) -> (found: bool)
        ensures
            found == rhs@.subset_of(self@),
    {
        let found = (!rhs.nanos || self.nanos) && (!rhs.second || self.second) && (!rhs.minute
            || self.minute) && (!rhs.hour || self.hour) && (!rhs.day || self.day) && (!rhs.week
            || self.week) && (!rhs.month || self.month) && (!rhs.year || self.year);
        proof {
            if rhs@.subset_of(self@) {
                assert(rhs@.contains(Unit::Year) ==> self@.contains(Unit::Year));
                assert(rhs@.contains(Unit::Month) ==> self@.contains(Unit::Month));
                assert(rhs@.contains(Unit::Week) ==> self@.contains(Unit::Week));
                assert(rhs@.contains(Unit::Day) ==> self@.contains(Unit::Day));
                assert(rhs@.contains(Unit::Hour) ==> self@.contains(Unit::Hour));
                assert(rhs@.contains(Unit::Minute) ==> self@.contains(Unit::Minute));
                assert(rhs@.contains(Unit::Second) ==> self@.contains(Unit::Second));
                assert(rhs@.contains(Unit::Nanos) ==> self@.contains(Unit::Nanos));
            }
        }
        found
    }

    /// Whether the mask holds `unit`.
    pub fn holds(self, unit: Unit) -> (found: bool)
        ensures
            found == self@.contains(unit),
    {
        let one = Self::single(unit);
        assert(one@.contains(unit));
        self.contains(one)
    }

    /// The mask of the units of both masks.
    pub closed spec fn joined(a: Self, b: Self) -> Self {
        TimedeltaFlags {
            nanos: a.nanos || b.nanos,
            second: a.second || b.second,
            minute: a.minute || b.minute,
            hour: a.hour || b.hour,
            day: a.day || b.day,
            week: a.week || b.week,
            month: a.month || b.month,
            year: a.year || b.year,
        }
    }

    /// The joined mask holds a unit exactly when one of the two does.
    pub proof fn lemma_joined_view(a: Self, b: Self)
        ensures
            Self::joined(a, b)@ == a@.union(b@),
    {
        assert(Self::joined(a, b)@ =~= a@.union(b@));
    }

    /// The units of both masks.
    pub fn union(self, rhs: Self) -> (out: Self)
        ensures
            out == Self::joined(self, rhs),
            out@ == self@.union(rhs@),
    {
        let out = TimedeltaFlags {
            nanos: self.nanos || rhs.nanos,
            second: self.second || rhs.second,
            minute: self.minute || rhs.minute,
            hour: self.hour || rhs.hour,
            day: self.day || rhs.day,
            week: self.week || rhs.week,
            month: self.month || rhs.month,
            year: self.year || rhs.year,
        };
        assert(out@ =~= self@.union(rhs@));
        out
    }

    /// The mask that a text of unit letters selects: `Y`, `M`, `D`, `h`,
    /// `m`, `s` and `n`. Any other character selects nothing.
    pub fn new(str: &str) -> (out: Self)
        ensures
            out@ == letters_mask(str@),
    {
        broadcast use vstd::string::group_string_axioms;

        let mut out = Self::empty();
        let mut chars = str.chars();
        let ghost done = Seq::<char>::empty();
        loop
            invariant
                chars.decrease() is Some,
                done + chars.remaining() == str@,
                out@ == letters_mask(done),
            ensures
                out@ == letters_mask(str@),
            decreases chars.decrease().unwrap(),
        {
            let c = match chars.next() {
                Some(c) => c,
                None => {
                    assert(done =~= str@);
                    break;
                },
            };
            if c == 'Y' {
                out = out.union(Self::single(Unit::Year));
            } else if c == 'M' {
                out = out.union(Self::single(Unit::Month));
            } else if c == 'D' {
                out = out.union(Self::single(Unit::Day));
            } else if c == 'h' {
                out = out.union(Self::single(Unit::Hour));
            } else if c == 'm' {
                out = out.union(Self::single(Unit::Minute));
            } else if c == 's' {
                out = out.union(Self::single(Unit::Second));
            } else if c == 'n' {
                out = out.union(Self::single(Unit::Nanos));
            }
            proof {
                let before = done;
                let after = done.push(c);
                assert(after + chars.remaining() =~= str@);
                assert forall|u: Unit| letters_mask(after).contains(u) == (letters_mask(
                    before,
                ).contains(u) || letter_unit(c) == Some(u)) by {
                    if letters_mask(before).contains(u) {
                        let j = choose|j: int|
                            0 <= j < before.len() && letter_unit(#[trigger] before[j]) == Some(u);
                        assert(after[j] == before[j]);
                    }
                    if letter_unit(c) == Some(u) {
                        assert(after[before.len() as int] == c);
                    }
                    if letters_mask(after).contains(u) {
                        let j = choose|j: int|
                            0 <= j < after.len() && letter_unit(#[trigger] after[j]) == Some(u);
                        if j < before.len() {
                            assert(before[j] == after[j]);
                        }
                    }
                }
                assert(out@ =~= letters_mask(after));
                done = after;
            }
        }
        out
    }
}

impl core::ops::BitOr for TimedeltaFlags {
    type Output = TimedeltaFlags;

    /// The units of both masks.
    fn bitor(self, rhs: Self) -> (out: Self) {
        self.union(rhs)
    }
}

impl vstd::std_specs::ops::BitOrSpecImpl for TimedeltaFlags {
    open spec fn obeys_bitor_spec() -> bool {
        true
    }

    open spec fn bitor_req(self, rhs: Self) -> bool {
        true
    }

    open spec fn bitor_spec(self, rhs: Self) -> Self {
        TimedeltaFlags::joined(self, rhs)
    }
}

impl Default for TimedeltaFlags {
    /// Seconds and their fraction.
    fn default() -> (out: Self)
        ensures
            out@ == set![Unit::Second, Unit::Nanos],
    {
        let second = Self::single(Unit::Second);
        let nanos = Self::single(Unit::Nanos);
        let out = second | nanos;
        proof {
            Self::lemma_joined_view(second, nanos);
        }
        assert(out@ =~= set![Unit::Second, Unit::Nanos]);
        out
    }
}

} // verus!
