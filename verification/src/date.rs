//! Calendar dates as plain year/month/day values, with the proleptic
//! Gregorian validity rules and a verified parser for the `YYYY-MM-DD`
//! wire format used by the data source.

use vstd::prelude::*;

verus! {

/// A calendar date held as plain values.
#[derive(Debug, Clone, Copy, PartialEq, Eq, Structural)]
pub struct Date {
    pub year: u32,
    pub month: u32,
    pub day: u32,
}

/// Leap years of the proleptic Gregorian calendar.
pub open spec fn spec_is_leap_year(year: int) -> bool {
    year % 4 == 0 && (year % 100 != 0 || year % 400 == 0)
}

/// How many days the given month of the given year has.
pub open spec fn spec_days_in_month(year: int, month: int) -> int {
    if month == 2 {
        if spec_is_leap_year(year) {
            29
        } else {
            28
        }
    } else if month == 4 || month == 6 || month == 9 || month == 11 {
        30
    } else {
        31
    }
}

impl Date {
    /// A date is valid when its month exists and its day exists in that
    /// month of that year.  Years are kept to four digits, as the wire
    /// format writes them.
    pub open spec fn valid(self) -> bool {
        self.year <= 9999 && 1 <= self.month <= 12 && 1 <= self.day
            && self.day <= spec_days_in_month(self.year as int, self.month as int)
    }

    /// Builds a date, checking calendar validity.
    pub fn new(year: u32, month: u32, day: u32) -> (r: Option<Date>)
        ensures
            r is Some <==> (Date { year, month, day }).valid(),
            r is Some ==> r->0 == (Date { year, month, day }),
    {
        let candidate = Date { year, month, day };
        if year <= 9999 && 1 <= month && month <= 12 && 1 <= day && day <= days_in_month(
            year,
            month,
        ) {
            Some(candidate)
        } else {
            None
        }
    }
}

/// Executable twin of `spec_is_leap_year`.
pub fn is_leap_year(year: u32) -> (r: bool)
    ensures
        r == spec_is_leap_year(year as int),
{
    year % 4 == 0 && (year % 100 != 0 || year % 400 == 0)
}

/// Executable twin of `spec_days_in_month`.
pub fn days_in_month(year: u32, month: u32) -> (r: u32)
    ensures
        r == spec_days_in_month(year as int, month as int),
{
    if month == 2 {
        if is_leap_year(year) {
            29
        } else {
            28
        }
    } else if month == 4 || month == 6 || month == 9 || month == 11 {
        30
    } else {
        31
    }
}

/// Whether the character is a decimal digit.
pub open spec fn spec_is_digit(c: char) -> bool {
    '0' <= c && c <= '9'
}

/// The numeric value of a decimal digit character.
pub open spec fn spec_digit(c: char) -> int {
    c as int - '0' as int
}

/// The number read from a sequence of digit characters, most significant
/// first.
pub open spec fn spec_digits_value(s: Seq<char>) -> int
    decreases s.len(),
{
    if s.len() == 0 {
        0
    } else {
        spec_digits_value(s.drop_last()) * 10 + spec_digit(s.last())
    }
}

/// Whether every character of the sequence is a decimal digit.
pub open spec fn spec_all_digits(s: Seq<char>) -> bool {
    forall|i: int| 0 <= i < s.len() ==> spec_is_digit(#[trigger] s[i])
}

/// The `YYYY-MM-DD` grammar: ten characters, digits in the year, month and
/// day positions, `-` separators.
pub open spec fn spec_date_shape(s: Seq<char>) -> bool {
    s.len() == 10 && spec_all_digits(s.subrange(0, 4)) && s[4] == '-' && spec_all_digits(
        s.subrange(5, 7),
    ) && s[7] == '-' && spec_all_digits(s.subrange(8, 10))
}

/// The date denoted by a well-shaped `YYYY-MM-DD` sequence, before
/// calendar validation.
pub open spec fn spec_date_fields(s: Seq<char>) -> Date {
    Date {
        year: spec_digits_value(s.subrange(0, 4)) as u32,
        month: spec_digits_value(s.subrange(5, 7)) as u32,
        day: spec_digits_value(s.subrange(8, 10)) as u32,
    }
}

/// What parsing a date string yields: the denoted date when the text has
/// the `YYYY-MM-DD` shape and names a valid calendar date, nothing
/// otherwise.
pub open spec fn spec_parse_date(s: Seq<char>) -> Option<Date> {
    if spec_date_shape(s) && spec_date_fields(s).valid() {
        Some(spec_date_fields(s))
    } else {
        None
    }
}

/// Reads the number in `s[from..to]`, which must be all digits.
fn parse_digits(s: &str, from: usize, to: usize) -> (r: u32)
    requires
        from <= to <= s@.len(),
        to - from <= 4,
        spec_all_digits(s@.subrange(from as int, to as int)),
    ensures
        r == spec_digits_value(s@.subrange(from as int, to as int)),
        r <= 9999,
{
    let mut value: u32 = 0;
    let mut i: usize = from;
    while i < to
        invariant
            from <= i <= to <= s@.len(),
            to - from <= 4,
            spec_all_digits(s@.subrange(from as int, to as int)),
            value == spec_digits_value(s@.subrange(from as int, i as int)),
            value < pow10((i - from) as nat),
        decreases to - i,
    {
        let c = s.get_char(i);
        assert(s@.subrange(from as int, to as int)[i - from] == s@[i as int]);
        assert(spec_is_digit(c));
        let d: u32 = c as u32 - 48;
        assert(s@.subrange(from as int, i + 1).drop_last() =~= s@.subrange(
            from as int,
            i as int,
        ));
        proof {
            assert(pow10(((i + 1) - from) as nat) == pow10((i - from) as nat) * 10);
            lemma_pow10_monotonic((i - from) as nat, 3);
            reveal_with_fuel(pow10, 5);
        }
        value = value * 10 + d;
        i = i + 1;
    }
    proof {
        lemma_pow10_monotonic((to - from) as nat, 4);
        reveal_with_fuel(pow10, 5);
    }
    value
}

/// Ten to the given power; bounds the intermediate values of the digit
/// reader.
pub open spec fn pow10(n: nat) -> int
    decreases n,
{
    if n == 0 {
        1
    } else {
        pow10((n - 1) as nat) * 10
    }
}

proof fn lemma_pow10_monotonic(a: nat, b: nat)
    requires
        a <= b,
    ensures
        pow10(a) <= pow10(b),
    decreases b,
{
    if a < b {
        lemma_pow10_monotonic(a, (b - 1) as nat);
        assert(pow10((b - 1) as nat) * 10 >= pow10((b - 1) as nat)) by {
            assert(pow10((b - 1) as nat) >= 1) by {
                lemma_pow10_positive((b - 1) as nat);
            }
        }
    }
}

proof fn lemma_pow10_positive(n: nat)
    ensures
        pow10(n) >= 1,
    decreases n,
{
    if n > 0 {
        lemma_pow10_positive((n - 1) as nat);
    }
}

/// Parses the `YYYY-MM-DD` wire format into a calendar date; malformed
/// text and impossible calendar dates yield `None`.
pub fn parse_date(s: &str) -> (r: Option<Date>)
    ensures
        r == spec_parse_date(s@),
{
    let n = s.unicode_len();
    if n != 10 {
        assert(!spec_date_shape(s@));
        return None;
    }
    if s.get_char(4) != '-' || s.get_char(7) != '-' {
        assert(!spec_date_shape(s@));
        return None;
    }
    let mut i: usize = 0;
    while i < 10
        invariant
            i <= 10,
            s@.len() == 10,
            forall|j: int| 0 <= j < i && j != 4 && j != 7 ==> spec_is_digit(#[trigger] s@[j]),
        decreases 10 - i,
    {
        if i != 4 && i != 7 {
            let c = s.get_char(i);
            if !('0' <= c && c <= '9') {
                assert(!spec_date_shape(s@)) by {
                    if spec_date_shape(s@) {
                        if i < 4 {
                            assert(s@.subrange(0, 4)[i as int] == s@[i as int]);
                        } else if i < 7 {
                            assert(s@.subrange(5, 7)[i - 5] == s@[i as int]);
                        } else {
                            assert(s@.subrange(8, 10)[i - 8] == s@[i as int]);
                        }
                    }
                }
                return None;
            }
        }
        i = i + 1;
    }
    assert(spec_date_shape(s@)) by {
        assert forall|j: int| 0 <= j < 4 implies spec_is_digit(#[trigger] s@.subrange(0, 4)[j]) by {
            assert(s@.subrange(0, 4)[j] == s@[j]);
        }
        assert forall|j: int| 0 <= j < 2 implies spec_is_digit(#[trigger] s@.subrange(5, 7)[j]) by {
            assert(s@.subrange(5, 7)[j] == s@[j + 5]);
        }
        assert forall|j: int| 0 <= j < 2 implies spec_is_digit(#[trigger] s@.subrange(8, 10)[j])
            by {
            assert(s@.subrange(8, 10)[j] == s@[j + 8]);
        }
    }
    let year = parse_digits(s, 0, 4);
    let month = parse_digits(s, 5, 7);
    let day = parse_digits(s, 8, 10);
    Date::new(year, month, day)
}

} // verus!
