//! The wall clock, for the creation stamp of a new prompt.

use vstd::prelude::*;

verus! {

/// The strftime pattern of a creation stamp: year, month, day, hour and
/// minute of the local time.
pub open spec fn stamp_pattern() -> Seq<char> {
    "%Y-%m-%d %H:%M"@
}

/// An ASCII decimal digit.
pub open spec fn is_digit(c: char) -> bool {
    48 <= (c as int) <= 57
}

/// The value of a decimal digit.
pub open spec fn digit_value(c: char) -> int {
    (c as int) - 48
}

/// Two digits at `at` and `at + 1`, whose number lies in `lo..=hi`.
pub open spec fn two_digits_in(s: Seq<char>, at: int, lo: int, hi: int) -> bool {
    &&& is_digit(s[at])
    &&& is_digit(s[at + 1])
    &&& lo <= 10 * digit_value(s[at]) + digit_value(s[at + 1]) <= hi
}

/// A year as `%Y` writes it: four digits for the years 0 to 9999, else a
/// sign and at least four digits.
pub open spec fn is_year_text(y: Seq<char>) -> bool {
    ||| y.len() == 4 && forall|i: int| 0 <= i < 4 ==> is_digit(#[trigger] y[i])
    ||| y.len() >= 5 && (y[0] == '+' || y[0] == '-') && forall|i: int|
        1 <= i < y.len() ==> is_digit(#[trigger] y[i])
}

/// A text of the form `YYYY-MM-DD HH:MM`, with month 01–12, day 01–31,
/// hour 00–23 and minute 00–59.
pub open spec fn is_stamp(s: Seq<char>) -> bool {
    let n = s.len() as int;
    &&& n >= 16
    &&& is_year_text(s.take(n - 12))
    &&& s[n - 12] == '-'
    &&& two_digits_in(s, n - 11, 1, 12)
    &&& s[n - 9] == '-'
    &&& two_digits_in(s, n - 8, 1, 31)
    &&& s[n - 6] == ' '
    &&& two_digits_in(s, n - 5, 0, 23)
    &&& s[n - 3] == ':'
    &&& two_digits_in(s, n - 2, 0, 59)
}

/// Calls `chrono::Local::now()` and formats it with `pattern`, which must be
/// the stamp pattern. The moment depends on the clock and the machine's time
/// zone, so only the form of the result is claimed: chrono writes `%Y` with
/// four zero-padded digits for the years 0 to 9999 and with a sign and at
/// least four digits otherwise, and `%m`, `%d`, `%H`, `%M` as two
/// zero-padded digits of a valid date and time.
#[verifier::external_body]
pub(crate) fn now_stamp(pattern: &str) -> (r: String)
    requires
        pattern@ == stamp_pattern(),
    ensures
        is_stamp(r@),
{
    chrono::Local::now().format(pattern).to_string()
}

} // verus!
