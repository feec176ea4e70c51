//! Units of time in which an elapsed duration can be printed.

use vstd::prelude::*;
use vstd::string::*;

use crate::fold::{fold, folded};
use crate::text::{chars_of, same_chars};

verus! {

/// A unit of time.
#[derive(Clone, Copy, Debug, PartialEq, Eq, Structural)]
pub enum TimeUnit {
    /// Nanoseconds.
    Nano,
    /// Microseconds.
    Micro,
    /// Milliseconds.
    Milli,
    /// Seconds.
    Seconds,
}

/// The unit that a lowercase name stands for: each unit answers to its long
/// name and to its suffix, seconds also to `sec`.
pub open spec fn unit_named(name: Seq<char>) -> Option<TimeUnit> {
    if name == "nano"@ || name == "ns"@ {
        Some(TimeUnit::Nano)
    } else if name == "micro"@ || name == "us"@ {
        Some(TimeUnit::Micro)
    } else if name == "milli"@ || name == "ms"@ {
        Some(TimeUnit::Milli)
    } else if name == "seconds"@ || name == "sec"@ || name == "s"@ {
        Some(TimeUnit::Seconds)
    } else {
        None
    }
}

/// What [`TimeUnit::parse`] answers to `option`: names are matched without
/// regard to case.
pub open spec fn parsed_unit(option: Seq<char>) -> Result<TimeUnit, ()> {
    match unit_named(folded(option)) {
        Some(unit) => Ok(unit),
        None => Err(()),
    }
}

/// The message with which [`TimeUnit::from_str`] rejects `s`.
pub open spec fn invalid_unit_message(s: Seq<char>) -> Seq<char> {
    "invalid time unit variant: "@ + s
}

fn is_word(name: &Vec<char>, word: &str) -> (r: bool)
    ensures
        r == (name@ == word@),
{
    let letters: Vec<char> = chars_of(word);
    same_chars(name, &letters)
}

impl TimeUnit {
    /// The suffix that marks a duration printed in this unit.
    pub open spec fn spec_suffix(self) -> Seq<char> {
        match self {
            TimeUnit::Nano => "ns"@,
            TimeUnit::Micro => "us"@,
            TimeUnit::Milli => "ms"@,
            TimeUnit::Seconds => "s"@,
        }
    }

    /// The suffix that marks a duration printed in this unit: `ns`, `us`,
    /// `ms` or `s`.
    pub fn suffix(&self) -> (out: &'static str)
        ensures
            out@ == self.spec_suffix(),
    {
        match self {
            TimeUnit::Nano => "ns",
            TimeUnit::Micro => "us",
            TimeUnit::Milli => "ms",
            TimeUnit::Seconds => "s",
        }
    }

    /// The unit that the lowercase name `name` stands for.
    pub fn from_lowercase(name: &str) -> (r: Result<TimeUnit, ()>)
        ensures
            r == match unit_named(name@) {
                Some(unit) => Ok::<TimeUnit, ()>(unit),
                None => Err(()),
            },
    {
        let letters: Vec<char> = chars_of(name);
        if is_word(&letters, "nano") || is_word(&letters, "ns") {
            Ok(TimeUnit::Nano)
        } else if is_word(&letters, "micro") || is_word(&letters, "us") {
            Ok(TimeUnit::Micro)
        } else if is_word(&letters, "milli") || is_word(&letters, "ms") {
            Ok(TimeUnit::Milli)
        } else if is_word(&letters, "seconds") || is_word(&letters, "sec") || is_word(
            &letters,
            "s",
        ) {
            Ok(TimeUnit::Seconds)
        } else {
            Err(())
        }
    }

    /// Reads a unit from its name, whatever the case of its letters.
    pub fn parse(option: &str) -> (r: Result<TimeUnit, ()>)
        ensures
            r == parsed_unit(option@),
    {
        let name: String = fold(option);
        TimeUnit::from_lowercase(name.as_str())
    }

    /// Reads a unit as [`TimeUnit::parse`] does, and names the rejected text
    /// in the error.
    pub fn from_str(s: &str) -> (r: Result<TimeUnit, String>)
        ensures
            match r {
                Ok(unit) => parsed_unit(s@) == Ok::<TimeUnit, ()>(unit),
                Err(message) => parsed_unit(s@) is Err && message@ == invalid_unit_message(s@),
            },
    {
        match TimeUnit::parse(s) {
            Ok(unit) => Ok(unit),
            Err(_) => {
                let mut message: String = String::from_str("invalid time unit variant: ");
                message.append(s);
                Err(message)
            },
        }
    }

    /// Every unit, from the finest to the coarsest.
    pub fn value_variants<'a>() -> (out: &'a [TimeUnit])
        ensures
            out@ == seq![TimeUnit::Nano, TimeUnit::Micro, TimeUnit::Milli, TimeUnit::Seconds],
    {
        let out: &'a [TimeUnit; 4] = &[
            TimeUnit::Nano,
            TimeUnit::Micro,
            TimeUnit::Milli,
            TimeUnit::Seconds,
        ];
        assert(out@ =~= seq![
            TimeUnit::Nano,
            TimeUnit::Micro,
            TimeUnit::Milli,
            TimeUnit::Seconds,
        ]);
        out
    }

    /// The value under which a command line offers this unit: its suffix.
    /// No unit is hidden, so the answer is never `None`.
    pub fn to_possible_value(&self) -> (out: Option<&'static str>)
        ensures
            out matches Some(name) && name@ == self.spec_suffix(),
    {
        Some(self.suffix())
    }
}

/// The value that a command line offers for a unit is a name of that unit.
pub proof fn lemma_suffix_names_unit(unit: TimeUnit)
    ensures
        unit_named(unit.spec_suffix()) == Some(unit),
{
    reveal_strlit("nano");
    reveal_strlit("ns");
    reveal_strlit("micro");
    reveal_strlit("us");
    reveal_strlit("milli");
    reveal_strlit("ms");
    reveal_strlit("seconds");
    reveal_strlit("sec");
    reveal_strlit("s");
    assert("nano"@.len() == 4 && "micro"@.len() == 5 && "milli"@.len() == 5);
    assert("ns"@.len() == 2 && "us"@.len() == 2 && "ms"@.len() == 2 && "s"@.len() == 1);
    assert("ns"@[0] == 'n' && "us"@[0] == 'u' && "ms"@[0] == 'm');
}

/// The list of units names each unit once.
pub proof fn lemma_variants_are_complete(unit: TimeUnit)
    ensures
        seq![TimeUnit::Nano, TimeUnit::Micro, TimeUnit::Milli, TimeUnit::Seconds].contains(unit),
        seq![TimeUnit::Nano, TimeUnit::Micro, TimeUnit::Milli, TimeUnit::Seconds].no_duplicates(),
{
    let all = seq![TimeUnit::Nano, TimeUnit::Micro, TimeUnit::Milli, TimeUnit::Seconds];
    assert(all[0] == TimeUnit::Nano);
    assert(all[1] == TimeUnit::Micro);
    assert(all[2] == TimeUnit::Milli);
    assert(all[3] == TimeUnit::Seconds);
}

} // verus!
