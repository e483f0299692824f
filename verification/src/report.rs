//! What a command shows of a span.

use vstd::prelude::*;
use crate::encode::{encode_spec, timedelta_to_str};
use crate::flags::{letters_mask, TimedeltaFlags, Unit};
use crate::pretty::{phrase_spec, timedelta_str_to_preety};
use crate::span::{SpanValue, TimeSpan};

verus! {

/// The mask that a command works under: that of the unit letters given, or
/// all units where none were given.
pub open spec fn chosen_mask(letters: Option<Seq<char>>) -> Set<Unit> {
    match letters {
        Some(text) => letters_mask(text),
        None => Set::full(),
    }
}

/// What a command shows of a span: its duration text, or the phrase of that
/// text.
pub open spec fn report_spec(span: SpanValue, mask: Set<Unit>, phrase: bool) -> Seq<char> {
    if phrase {
        phrase_spec(encode_spec(span, mask))
    } else {
        encode_spec(span, mask)
    }
}

/// The mask of the unit letters given, or of all units where none were
/// given.
pub fn flags_or_all(letters: Option<&str>) -> (flags: TimedeltaFlags)
    ensures
        flags@ == chosen_mask(
            match letters {
                Some(text) => Some(text@),
                None => None,
            },
        ),
{
    match letters {
        Some(text) => TimedeltaFlags::new(text),
        None => TimedeltaFlags::all(),
    }
}

/// The line that a command shows for a span: the duration text under
/// `flags`, as it stands or as a phrase.
pub fn timedelta_report(span: TimeSpan, flags: TimedeltaFlags, phrase: bool) -> (line: String)
    ensures
        line@ == report_spec(span@, flags@, phrase),
{
    let text = timedelta_to_str(span, flags);
    if phrase {
        timedelta_str_to_preety(text.as_str())
    } else {
        text
    }
}

} // verus!
