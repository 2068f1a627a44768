//! The fixed dashboard time ranges shared by every historical view.

use vstd::prelude::*;
use crate::text::same_text;

verus! {

/// A dashboard time range: one of the fixed buckets the frontend offers.
#[derive(Debug, Clone, Copy, PartialEq, Eq, Structural)]
pub enum TimeRange {
    OneHour,
    SixHours,
    TwentyFourHours,
    SevenDays,
}

/// Canonical text of a range, as used in URLs and error messages.
pub open spec fn range_text(r: TimeRange) -> Seq<char> {
    match r {
        TimeRange::OneHour => seq!['1', 'h'],
        TimeRange::SixHours => seq!['6', 'h'],
        TimeRange::TwentyFourHours => seq!['2', '4', 'h'],
        TimeRange::SevenDays => seq!['7', 'd'],
    }
}

/// Length of a range in seconds.
pub open spec fn range_secs(r: TimeRange) -> int {
    match r {
        TimeRange::OneHour => 3600,
        TimeRange::SixHours => 21600,
        TimeRange::TwentyFourHours => 86400,
        TimeRange::SevenDays => 604800,
    }
}

/// Query step, in seconds, used when graphing a range.
pub open spec fn range_step(r: TimeRange) -> int {
    match r {
        TimeRange::OneHour => 30,
        TimeRange::SixHours => 120,
        TimeRange::TwentyFourHours => 300,
        TimeRange::SevenDays => 1800,
    }
}

/// PromQL range-vector selector of a range: its text in square brackets.
pub open spec fn selector_text(r: TimeRange) -> Seq<char> {
    seq!['['] + range_text(r) + seq![']']
}

/// The range whose canonical text is `s`, if any.
pub open spec fn range_from_text(s: Seq<char>) -> Option<TimeRange> {
    if s == range_text(TimeRange::OneHour) {
        Some(TimeRange::OneHour)
    } else if s == range_text(TimeRange::SixHours) {
        Some(TimeRange::SixHours)
    } else if s == range_text(TimeRange::TwentyFourHours) {
        Some(TimeRange::TwentyFourHours)
    } else if s == range_text(TimeRange::SevenDays) {
        Some(TimeRange::SevenDays)
    } else {
        None
    }
}

/// Every range, shortest first.
pub open spec fn all_ranges() -> Seq<TimeRange> {
    seq![TimeRange::OneHour, TimeRange::SixHours, TimeRange::TwentyFourHours, TimeRange::SevenDays]
}

impl TimeRange {
    /// Canonical string form used in URLs and error messages.
    pub fn as_str(self) -> (s: &'static str)
        ensures
            s@ == range_text(self),
    {
        proof {
            reveal_strlit("1h");
            reveal_strlit("6h");
            reveal_strlit("24h");
            reveal_strlit("7d");
            assert("1h"@ =~= range_text(TimeRange::OneHour));
            assert("6h"@ =~= range_text(TimeRange::SixHours));
            assert("24h"@ =~= range_text(TimeRange::TwentyFourHours));
            assert("7d"@ =~= range_text(TimeRange::SevenDays));
        }
        match self {
            TimeRange::OneHour => "1h",
            TimeRange::SixHours => "6h",
            TimeRange::TwentyFourHours => "24h",
            TimeRange::SevenDays => "7d",
        }
    }

    /// Range length in seconds.
    pub fn secs(self) -> (n: i64)
        ensures
            n == range_secs(self),
    {
        match self {
            TimeRange::OneHour => 3600,
            TimeRange::SixHours => 6 * 3600,
            TimeRange::TwentyFourHours => 24 * 3600,
            TimeRange::SevenDays => 7 * 24 * 3600,
        }
    }

    /// Prometheus range-vector selector, e.g. `[1h]`.
    pub fn selector(self) -> (s: &'static str)
        ensures
            s@ == selector_text(self),
    {
        proof {
            reveal_strlit("[1h]");
            reveal_strlit("[6h]");
            reveal_strlit("[24h]");
            reveal_strlit("[7d]");
        }
        let s = match self {
            TimeRange::OneHour => "[1h]",
            TimeRange::SixHours => "[6h]",
            TimeRange::TwentyFourHours => "[24h]",
            TimeRange::SevenDays => "[7d]",
        };
        assert(s@ =~= selector_text(self));
        s
    }

    /// A sensible query step for graphing this range.
    pub fn step_secs(self) -> (n: u32)
        ensures
            n == range_step(self),
    {
        match self {
            TimeRange::OneHour => 30,
            TimeRange::SixHours => 120,
            TimeRange::TwentyFourHours => 300,
            TimeRange::SevenDays => 1800,
        }
    }

    /// Parses a range string such as `"6h"`; any other text gives `None`.
    pub fn parse(s: &str) -> (r: Option<TimeRange>)
        ensures
            r == range_from_text(s@),
    {
        proof {
            reveal_strlit("1h");
            reveal_strlit("6h");
            reveal_strlit("24h");
            reveal_strlit("7d");
            assert("1h"@ =~= range_text(TimeRange::OneHour));
            assert("6h"@ =~= range_text(TimeRange::SixHours));
            assert("24h"@ =~= range_text(TimeRange::TwentyFourHours));
            assert("7d"@ =~= range_text(TimeRange::SevenDays));
        }
        if same_text(s, "1h") {
            Some(TimeRange::OneHour)
        } else if same_text(s, "6h") {
            Some(TimeRange::SixHours)
        } else if same_text(s, "24h") {
            Some(TimeRange::TwentyFourHours)
        } else if same_text(s, "7d") {
            Some(TimeRange::SevenDays)
        } else {
            None
        }
    }

    /// All supported ranges, in display order.
    pub fn all() -> (a: [TimeRange; 4])
        ensures
            a@ == all_ranges(),
    {
        let a = [
            TimeRange::OneHour,
            TimeRange::SixHours,
            TimeRange::TwentyFourHours,
            TimeRange::SevenDays,
        ];
        assert(a@ =~= all_ranges());
        a
    }
}

/// Parsing the canonical text of a range gives that range back.
pub proof fn lemma_parse_inverts_text(r: TimeRange)
    ensures
        range_from_text(range_text(r)) == Some(r),
{
    assert(range_text(TimeRange::OneHour) != range_text(TimeRange::SixHours));
    assert(range_text(TimeRange::OneHour)[0] != range_text(TimeRange::SevenDays)[0]);
    assert(range_text(TimeRange::SixHours)[0] != range_text(TimeRange::SevenDays)[0]);
    assert(range_text(TimeRange::OneHour).len() != range_text(TimeRange::TwentyFourHours).len());
    assert(range_text(TimeRange::SixHours).len() != range_text(TimeRange::TwentyFourHours).len());
}

/// Different ranges have different canonical texts.
pub proof fn lemma_range_text_injective(a: TimeRange, b: TimeRange)
    ensures
        range_text(a) == range_text(b) ==> a == b,
{
    lemma_parse_inverts_text(a);
    lemma_parse_inverts_text(b);
}

/// A longer range never gets a finer graphing step.
pub proof fn lemma_step_follows_length(a: TimeRange, b: TimeRange)
    ensures
        range_secs(a) <= range_secs(b) ==> range_step(a) <= range_step(b),
        range_secs(a) > 0,
{
}

/// `all` lists every range exactly once, from shortest to longest.
pub proof fn lemma_all_ranges_ordered(r: TimeRange)
    ensures
        all_ranges().contains(r),
        forall|i: int, j: int|
            0 <= i < j < 4 ==> range_secs(#[trigger] all_ranges()[i]) < range_secs(
                #[trigger] all_ranges()[j],
            ),
{
    let s = all_ranges();
    match r {
        TimeRange::OneHour => assert(s[0] == r),
        TimeRange::SixHours => assert(s[1] == r),
        TimeRange::TwentyFourHours => assert(s[2] == r),
        TimeRange::SevenDays => assert(s[3] == r),
    }
}

} // verus!
