//! Calendar dates in the ISO `YYYY-MM-DD` notation.

use vstd::prelude::*;
use crate::text;

verus! {

/// Whether a year of the Gregorian calendar has a 29th of February.
pub open spec fn is_leap(year: int) -> bool {
    year % 4 == 0 && (year % 100 != 0 || year % 400 == 0)
}

/// How many days a month has; a number that names no month counts as a short
/// February.
pub open spec fn month_length(year: int, month: int) -> int {
    if month == 4 || month == 6 || month == 9 || month == 11 {
        30
    } else if month == 2 {
        if is_leap(year) {
            29
        } else {
            28
        }
    } else if 1 <= month <= 12 {
        31
    } else {
        28
    }
}

/// Whether a year, month and day name a day of the calendar.
pub open spec fn is_date(year: int, month: int, day: int) -> bool {
    0 <= year && 1 <= month <= 12 && 1 <= day <= month_length(year, month)
}

/// Whether a text has the shape `YYYY-MM-DD`: four digits, two digits and two
/// digits, with hyphens between them.
pub open spec fn iso_shape(s: Seq<char>) -> bool {
    &&& s.len() == 10
    &&& forall|i: int| 0 <= i < 10 && i != 4 && i != 7 ==> text::is_digit(#[trigger] s[i])
    &&& s[4] == '-'
    &&& s[7] == '-'
}

/// The value of a digit character.
pub open spec fn digit_value(c: char) -> int {
    c as int - '0' as int
}

/// The number in the two digits from position `i` on.
pub open spec fn two_digits(s: Seq<char>, i: int) -> int {
    digit_value(s[i]) * 10 + digit_value(s[i + 1])
}

/// The number in the four digits from position `i` on.
pub open spec fn four_digits(s: Seq<char>, i: int) -> int {
    two_digits(s, i) * 100 + two_digits(s, i + 2)
}

/// The year, month and day that an ISO date denotes, when its shape is right
/// and the calendar has that day.
pub open spec fn iso_date(s: Seq<char>) -> Option<(u32, u32, u32)> {
    if iso_shape(s) && is_date(four_digits(s, 0), two_digits(s, 5), two_digits(s, 8)) {
        Some(
            (
                four_digits(s, 0) as u32,
                two_digits(s, 5) as u32,
                two_digits(s, 8) as u32,
            ),
        )
    } else {
        None
    }
}

/// Whether one date comes no later than another.
pub open spec fn date_le(a: (u32, u32, u32), b: (u32, u32, u32)) -> bool {
    a.0 < b.0 || (a.0 == b.0 && (a.1 < b.1 || (a.1 == b.1 && a.2 <= b.2)))
}

/// How many days `month` (1-based) has in the given `year`, with leap years
/// taken into account.
pub fn days_in_month(year: u32, month: u32) -> (r: u32)
    ensures
        r == month_length(year as int, month as int),
{
    let leap: bool = year % 4 == 0 && (year % 100 != 0 || year % 400 == 0);
    if month == 4 || month == 6 || month == 9 || month == 11 {
        30
    } else if month == 2 {
        if leap {
            29
        } else {
            28
        }
    } else if month >= 1 && month <= 12 {
        31
    } else {
        28
    }
}

fn is_digit_char(c: char) -> (r: bool)
    ensures
        r == text::is_digit(c),
{
    c >= '0' && c <= '9'
}

fn value_of(c: char) -> (r: u32)
    requires
        text::is_digit(c),
    ensures
        r == digit_value(c),
        r <= 9,
{
    c as u32 - '0' as u32
}

/// Whether the characters have the shape of an ISO date.
pub(crate) fn has_iso_shape(chars: &[char]) -> (r: bool)
    ensures
        r == iso_shape(chars@),
{
    if chars.len() != 10 {
        return false;
    }
    let mut i: usize = 0;
    while i < 10
        invariant
            i <= 10,
            chars@.len() == 10,
            forall|j: int| 0 <= j < i && j != 4 && j != 7 ==> text::is_digit(#[trigger] chars@[j]),
        decreases 10 - i,
    {
        if i != 4 && i != 7 && !is_digit_char(chars[i]) {
            return false;
        }
        i += 1;
    }
    chars[4] == '-' && chars[7] == '-'
}

/// Parses a zero-padded ISO date (`YYYY-MM-DD`) with a real calendar month and
/// day (leap-year aware) into `(year, month, day)`; `None` for anything else.
pub fn parse_iso_date(s: &str) -> (r: Option<(u32, u32, u32)>)
    ensures
        r == iso_date(s@),
{
    let c: Vec<char> = text::chars_of(s);
    if !has_iso_shape(c.as_slice()) {
        return None;
    }
    let year: u32 = value_of(c[0]) * 1000 + value_of(c[1]) * 100 + value_of(c[2]) * 10 + value_of(
        c[3],
    );
    let month: u32 = value_of(c[5]) * 10 + value_of(c[6]);
    let day: u32 = value_of(c[8]) * 10 + value_of(c[9]);
    assert(year == four_digits(s@, 0) && month == two_digits(s@, 5) && day == two_digits(s@, 8));
    if month == 0 || month > 12 || day == 0 || day > days_in_month(year, month) {
        return None;
    }
    Some((year, month, day))
}

/// Whether `s` is a valid zero-padded ISO date with a real calendar month and
/// day.
pub fn valid_iso_date(s: &str) -> (r: bool)
    ensures
        r == (iso_date(s@) is Some),
{
    parse_iso_date(s).is_some()
}

/// Whether a roll's dates are coherent, over their texts: either may be
/// absent, and when both are set the start is not after the end.
pub open spec fn dates_coherent(start: Option<Seq<char>>, end: Option<Seq<char>>) -> bool {
    match (start, end) {
        (Some(a), Some(b)) => text::text_le(a, b),
        _ => true,
    }
}

/// Whether a roll's committed dates are coherent: either may be absent, but
/// when both are set the start date must not be after the end date.
pub fn roll_dates_valid(start: Option<&str>, end: Option<&str>) -> (r: bool)
    ensures
        r == dates_coherent(text::slice_of(start), text::slice_of(end)),
{
    match (start, end) {
        (Some(a), Some(b)) => text::at_most(a, b),
        _ => true,
    }
}

/// The text order of two texts is decided at the first place where they
/// differ.
pub proof fn first_difference(a: Seq<char>, b: Seq<char>, k: int)
    requires
        0 <= k < a.len(),
        k < b.len(),
        forall|i: int| 0 <= i < k ==> a[i] == b[i],
        (a[k] as int) < (b[k] as int),
    ensures
        text::text_lt(a, b),
    decreases a.len(),
{
    if k > 0 {
        first_difference(a.drop_first(), b.drop_first(), k - 1);
        assert(a[0] == b[0]);
    }
}

/// ISO dates compare as texts exactly as they compare on the calendar.
pub proof fn iso_text_order_is_date_order(a: Seq<char>, b: Seq<char>)
    requires
        iso_date(a) is Some,
        iso_date(b) is Some,
    ensures
        text::text_le(a, b) <==> date_le(iso_date(a).unwrap(), iso_date(b).unwrap()),
{
    assert forall|i: int| 0 <= i < 10 && i != 4 && i != 7 implies text::is_digit(#[trigger] a[i])
        && text::is_digit(b[i]) by {}
    assert(text::is_digit(a[0]) && text::is_digit(a[1]) && text::is_digit(a[2]) && text::is_digit(a[3]) && text::is_digit(a[5])
        && text::is_digit(a[6]) && text::is_digit(a[8]) && text::is_digit(a[9]));
    assert(text::is_digit(b[0]) && text::is_digit(b[1]) && text::is_digit(b[2]) && text::is_digit(b[3]) && text::is_digit(b[5])
        && text::is_digit(b[6]) && text::is_digit(b[8]) && text::is_digit(b[9]));
    if a =~= b {
        text::text_order_reflexive(a);
    } else {
        let k = choose|k: int|
            0 <= k < 10 && a[k] != b[k] && forall|i: int| 0 <= i < k ==> a[i] == b[i];
        assert(exists|k: int|
            0 <= k < 10 && a[k] != b[k] && forall|i: int| 0 <= i < k ==> a[i] == b[i]) by {
            if a[0] != b[0] {
            } else if a[1] != b[1] {
            } else if a[2] != b[2] {
            } else if a[3] != b[3] {
            } else if a[5] != b[5] {
            } else if a[6] != b[6] {
            } else if a[8] != b[8] {
            } else {
                assert(a[9] != b[9]);
            }
        }
        if (a[k] as int) < (b[k] as int) {
            first_difference(a, b, k);
        } else {
            first_difference(b, a, k);
            if text::text_le(a, b) {
                text::text_order_antisymmetric(a, b);
            }
        }
    }
}

/// How many days lie before the first day of `year`, counted from year zero.
pub open spec fn days_before_year(year: nat) -> nat
    decreases year,
{
    if year == 0 {
        0
    } else {
        days_before_year((year - 1) as nat) + (if is_leap(year - 1) {
            366
        } else {
            365nat
        })
    }
}

/// How many days of `year` lie before the first day of `month`.
pub open spec fn days_before_month(year: int, month: int) -> int
    decreases month,
{
    if month <= 1 {
        0
    } else {
        days_before_month(year, month - 1) + month_length(year, month - 1)
    }
}

/// The number of a day, counted from the first day of year zero.
pub open spec fn day_number(year: nat, month: int, day: int) -> int {
    days_before_year(year) + days_before_month(year as int, month) + day
}

/// Twelve months make a year.
pub proof fn months_fill_the_year(year: nat)
    ensures
        days_before_year(year) + days_before_month(year as int, 13) == days_before_year(year + 1),
{
    reveal_with_fuel(days_before_month, 14);
}

proof fn earlier_month_fewer_days(year: int, a: int, b: int)
    requires
        1 <= a < b <= 13,
    ensures
        days_before_month(year, a) + month_length(year, a) <= days_before_month(year, b),
    decreases b - a,
{
    if a + 1 < b {
        earlier_month_fewer_days(year, a, b - 1);
    }
}

proof fn earlier_year_fewer_days(a: nat, b: nat)
    requires
        a < b,
    ensures
        days_before_year(a + 1) <= days_before_year(b),
    decreases b - a,
{
    if a + 1 < b {
        earlier_year_fewer_days(a, (b - 1) as nat);
    }
}

/// Days of different years, months or places in the month have different
/// numbers.
pub proof fn day_number_is_injective(
    year_a: nat,
    month_a: int,
    day_a: int,
    year_b: nat,
    month_b: int,
    day_b: int,
)
    requires
        is_date(year_a as int, month_a, day_a),
        is_date(year_b as int, month_b, day_b),
        day_number(year_a, month_a, day_a) == day_number(year_b, month_b, day_b),
    ensures
        year_a == year_b && month_a == month_b && day_a == day_b,
{
    day_number_within_year(year_a, month_a, day_a);
    day_number_within_year(year_b, month_b, day_b);
    if year_a < year_b {
        earlier_year_fewer_days(year_a, year_b);
    } else if year_b < year_a {
        earlier_year_fewer_days(year_b, year_a);
    } else if month_a < month_b {
        earlier_month_fewer_days(year_a as int, month_a, month_b);
    } else if month_b < month_a {
        earlier_month_fewer_days(year_a as int, month_b, month_a);
    }
}

/// A day of a year is numbered after the days before that year and not after
/// the days before the next.
proof fn day_number_within_year(year: nat, month: int, day: int)
    requires
        is_date(year as int, month, day),
    ensures
        days_before_year(year) < day_number(year, month, day) <= days_before_year(year + 1),
{
    months_fill_the_year(year);
    earlier_month_fewer_days(year as int, month, 13);
    if month > 1 {
        earlier_month_fewer_days(year as int, 1, month);
    }
}

/// Day numbers grow with the calendar: a date that is not after another has a
/// day number that is not greater, and only equal dates share a day number.
pub proof fn day_number_follows_the_calendar(a: (u32, u32, u32), b: (u32, u32, u32))
    requires
        is_date(a.0 as int, a.1 as int, a.2 as int),
        is_date(b.0 as int, b.1 as int, b.2 as int),
    ensures
        date_le(a, b) <==> day_number(a.0 as nat, a.1 as int, a.2 as int) <= day_number(
            b.0 as nat,
            b.1 as int,
            b.2 as int,
        ),
        a == b <==> day_number(a.0 as nat, a.1 as int, a.2 as int) == day_number(
            b.0 as nat,
            b.1 as int,
            b.2 as int,
        ),
{
    if date_le(a, b) {
        day_number_grows(a, b);
    }
    if date_le(b, a) {
        day_number_grows(b, a);
    }
}

proof fn day_number_grows(a: (u32, u32, u32), b: (u32, u32, u32))
    requires
        is_date(a.0 as int, a.1 as int, a.2 as int),
        is_date(b.0 as int, b.1 as int, b.2 as int),
        date_le(a, b),
    ensures
        day_number(a.0 as nat, a.1 as int, a.2 as int) <= day_number(
            b.0 as nat,
            b.1 as int,
            b.2 as int,
        ),
        a != b ==> day_number(a.0 as nat, a.1 as int, a.2 as int) < day_number(
            b.0 as nat,
            b.1 as int,
            b.2 as int,
        ),
{
    if a.0 == b.0 {
        if a.1 < b.1 {
            earlier_month_fewer_days(a.0 as int, a.1 as int, b.1 as int);
        }
    } else {
        earlier_year_fewer_days(a.0 as nat, b.0 as nat);
        months_fill_the_year(a.0 as nat);
        earlier_month_fewer_days(a.0 as int, a.1 as int, 13);
        if b.1 > 1 {
            earlier_month_fewer_days(b.0 as int, 1, b.1 as int);
        }
    }
}

} // verus!
