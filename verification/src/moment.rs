//! Moments as butler writes them, and how long ago they were.
use vstd::prelude::*;
use vstd::string::*;
use crate::text::{characters, decimal, digit_value, is_digit, joined, number_text};

verus! {

pub open spec fn is_leap(year: int) -> bool {
    year % 4 == 0 && (year % 100 != 0 || year % 400 == 0)
}

pub open spec fn days_in_month(year: int, month: int) -> int {
    if month == 2 {
        if is_leap(year) {
            29
        } else {
            28
        }
    } else if month == 4 || month == 6 || month == 9 || month == 11 {
        30
    } else {
        31
    }
}

pub open spec fn days_in_year(year: int) -> int {
    if is_leap(year) {
        366
    } else {
        365
    }
}

/// The days of the years from the first up to a year.
pub open spec fn days_before_year(year: int) -> int
    decreases year,
{
    if year <= 0 {
        0
    } else {
        days_before_year(year - 1) + days_in_year(year - 1)
    }
}

/// The days of a year before a month.
pub open spec fn days_before_month(year: int, month: int) -> int
    decreases month,
{
    if month <= 1 {
        0
    } else {
        days_before_month(year, month - 1) + days_in_month(year, month - 1)
    }
}

/// The day that moments are counted from, in days from the start of the first year: the
/// first of January 1970.
pub const EPOCH_DAY: i64 = 719_528;

/// A date as days since the first of January 1970.
pub open spec fn day_number(year: int, month: int, day: int) -> int {
    days_before_year(year) + days_before_month(year, month) + day - 1 - EPOCH_DAY
}

/// The years' leap days in one go.
proof fn lemma_days_before_year(year: int)
    requires
        0 <= year,
    ensures
        year == 0 ==> days_before_year(year) == 0,
        year > 0 ==> days_before_year(year) == 365 * year + (year - 1) / 4 - (year - 1) / 100 + (
        year - 1) / 400 + 1,
    decreases year,
{
    if year > 0 {
        lemma_days_before_year(year - 1);
        if year == 1 {
            assert(is_leap(0));
            assert(days_before_year(1) == days_before_year(0) + days_in_year(0));
        } else {
            let y = year - 1;
            assert((y % 4 == 0) == (y / 4 == (y - 1) / 4 + 1));
            assert((y % 4 != 0) == (y / 4 == (y - 1) / 4));
            assert((y % 100 == 0) == (y / 100 == (y - 1) / 100 + 1));
            assert((y % 100 != 0) == (y / 100 == (y - 1) / 100));
            assert((y % 400 == 0) == (y / 400 == (y - 1) / 400 + 1));
            assert((y % 400 != 0) == (y / 400 == (y - 1) / 400));
        }
    }
}

/// The first of January 1970 is the day that moments are counted from, and the day behind the
/// last of a year is the first of the next.
pub proof fn days_are_counted_from_1970(year: int)
    requires
        year >= 0,
    ensures
        day_number(1970, 1, 1) == 0,
        day_number(year, 12, 31) + 1 == day_number(year + 1, 1, 1),
{
    lemma_days_before_year(1970);
    reveal_with_fuel(days_before_month, 13);
}

fn leap(year: i64) -> (r: bool)
    requires
        year >= 0,
    ensures
        r == is_leap(year as int),
{
    year % 4 == 0 && (year % 100 != 0 || year % 400 == 0)
}

fn month_days(year: i64, month: i64) -> (r: i64)
    requires
        year >= 0,
    ensures
        r == days_in_month(year as int, month as int),
        28 <= r <= 31,
{
    if month == 2 {
        if leap(year) {
            29
        } else {
            28
        }
    } else if month == 4 || month == 6 || month == 9 || month == 11 {
        30
    } else {
        31
    }
}

fn days(year: i64, month: i64, day: i64) -> (r: i64)
    requires
        0 <= year <= 9999,
        1 <= month <= 12,
        1 <= day <= 31,
    ensures
        r == day_number(year as int, month as int, day as int),
        -800_000 <= r <= 4_000_000,
{
    proof {
        lemma_days_before_year(year as int);
    }
    let mut count: i64 = if year == 0 {
        0
    } else {
        365 * year + (year - 1) / 4 - (year - 1) / 100 + (year - 1) / 400 + 1
    };
    let mut m: i64 = 1;
    while m < month
        invariant
            0 <= year <= 9999,
            1 <= m <= month <= 12,
            count == days_before_year(year as int) + days_before_month(year as int, m as int),
            0 <= days_before_month(year as int, m as int) <= 31 * (m - 1),
            0 <= days_before_year(year as int) <= 3_700_000,
        decreases month - m,
    {
        count = count + month_days(year, m);
        m = m + 1;
    }
    count + day - 1 - EPOCH_DAY
}

/// The number that digits stand for, from `from` on, `count` of them.
pub open spec fn digits_at(text: Seq<char>, from: int, count: int) -> int
    decreases count,
{
    if count <= 0 {
        0
    } else {
        10 * digits_at(text, from, count - 1) + digit_value(text[from + count - 1])
    }
}

pub open spec fn all_digits_at(text: Seq<char>, from: int, count: int) -> bool {
    0 <= from && from + count <= text.len() && forall|i: int|
        from <= i < from + count ==> is_digit(#[trigger] text[i])
}

fn number_at(text: &Vec<char>, from: usize, count: usize) -> (r: Option<i64>)
    requires
        from + count <= text@.len(),
        count <= 4,
    ensures
        match r {
            Some(n) => all_digits_at(text@, from as int, count as int) && n == digits_at(
                text@,
                from as int,
                count as int,
            ) && 0 <= n <= 9999,
            None => !all_digits_at(text@, from as int, count as int),
        },
        count <= 2 && r is Some ==> r->0 <= 99,
{
    let size = text.len();
    let mut n: i64 = 0;
    let mut i: usize = 0;
    while i < count
        invariant
            i <= count <= 4,
            text@.len() == size,
            from + count <= text@.len(),
            all_digits_at(text@, from as int, i as int),
            n == digits_at(text@, from as int, i as int),
            0 <= n,
            i == 0 ==> n == 0,
            i == 1 ==> n <= 9,
            i == 2 ==> n <= 99,
            i == 3 ==> n <= 999,
            i == 4 ==> n <= 9999,
        decreases count - i,
    {
        let c = text[from + i];
        if !('0' <= c && c <= '9') {
            assert(!is_digit(text@[from + i]));
            return None;
        }
        assert(digit_value(c) <= 9);
        n = n * 10 + (c as i64 - '0' as i64);
        i += 1;
    }
    Some(n)
}

/// Where the fraction of a second ends that may start at `from`: a dot and at least one digit;
/// `from` if there is none.
pub open spec fn fraction_end(text: Seq<char>, from: int) -> int {
    if 0 <= from && from + 1 < text.len() && text[from] == '.' && is_digit(text[from + 1]) {
        digits_end(text, from + 1)
    } else {
        from
    }
}

/// Where the digits end that start at `from`.
pub open spec fn digits_end(text: Seq<char>, from: int) -> int
    decreases text.len() - from,
{
    if 0 <= from < text.len() && is_digit(text[from]) {
        digits_end(text, from + 1)
    } else {
        from
    }
}

fn skip_fraction(text: &Vec<char>, from: usize) -> (r: usize)
    requires
        from <= text@.len(),
    ensures
        r == fraction_end(text@, from as int),
        from <= r <= text@.len(),
{
    if text.len() - from < 2 || text[from] != '.' {
        return from;
    }
    if !('0' <= text[from + 1] && text[from + 1] <= '9') {
        return from;
    }
    let mut i: usize = from + 1;
    while i < text.len() && '0' <= text[i] && text[i] <= '9'
        invariant
            from < i <= text@.len(),
            digits_end(text@, i as int) == digits_end(text@, from + 1),
        decreases text@.len() - i,
    {
        i += 1;
    }
    i
}

/// How far a zone is ahead of the one that moments are counted in, in seconds: `Z` is not at
/// all, others write it in hours and minutes.
pub open spec fn zone_at(text: Seq<char>, from: int) -> Option<int> {
    if text.len() == from + 1 && (text[from] == 'Z' || text[from] == 'z') {
        Some(0)
    } else if text.len() == from + 6 && (text[from] == '+' || text[from] == '-') && text[from + 3]
        == ':' && all_digits_at(text, from + 1, 2) && all_digits_at(text, from + 4, 2) && digits_at(
        text,
        from + 1,
        2,
    ) <= 23 && digits_at(text, from + 4, 2) <= 59 {
        let size = digits_at(text, from + 1, 2) * 3600 + digits_at(text, from + 4, 2) * 60;
        Some(
            if text[from] == '-' {
                -size
            } else {
                size
            },
        )
    } else {
        None
    }
}

fn zone(text: &Vec<char>, from: usize) -> (r: Option<i64>)
    requires
        from <= text@.len(),
    ensures
        match r {
            Some(n) => zone_at(text@, from as int) == Some(n as int) && -90_000 <= n <= 90_000,
            None => zone_at(text@, from as int) is None,
        },
{
    let left = text.len() - from;
    if left == 1 && (text[from] == 'Z' || text[from] == 'z') {
        return Some(0);
    }
    if left != 6 || !(text[from] == '+' || text[from] == '-') || text[from + 3] != ':' {
        return None;
    }
    match (number_at(text, from + 1, 2), number_at(text, from + 4, 2)) {
        (Some(hours), Some(minutes)) => {
            if hours > 23 || minutes > 59 {
                return None;
            }
            let size: i64 = hours * 3600 + minutes * 60;
            if text[from] == '-' {
                Some(-size)
            } else {
                Some(size)
            }
        },
        _ => None,
    }
}

/// The shape of a moment up to its seconds: digits and what stands between them.
pub open spec fn is_shaped(text: Seq<char>) -> bool {
    &&& text.len() >= 20
    &&& all_digits_at(text, 0, 4)
    &&& text[4] == '-'
    &&& all_digits_at(text, 5, 2)
    &&& text[7] == '-'
    &&& all_digits_at(text, 8, 2)
    &&& (text[10] == 'T' || text[10] == 't' || text[10] == ' ')
    &&& all_digits_at(text, 11, 2)
    &&& text[13] == ':'
    &&& all_digits_at(text, 14, 2)
    &&& text[16] == ':'
    &&& all_digits_at(text, 17, 2)
}

/// The numbers of a moment are those of a calendar and a clock; a minute may have a second more.
pub open spec fn is_dated(text: Seq<char>) -> bool {
    let month = digits_at(text, 5, 2);
    let day = digits_at(text, 8, 2);
    &&& 1 <= month <= 12
    &&& 1 <= day <= days_in_month(digits_at(text, 0, 4), month)
    &&& digits_at(text, 11, 2) <= 23
    &&& digits_at(text, 14, 2) <= 59
    &&& digits_at(text, 17, 2) <= 60
}

/// A moment as RFC 3339 writes it, in seconds since the start of 1970.
pub open spec fn moment(text: Seq<char>) -> Option<int> {
    if !is_shaped(text) || !is_dated(text) {
        None
    } else {
        match zone_at(text, fraction_end(text, 19)) {
            None => None,
            Some(ahead) => Some(
                day_number(digits_at(text, 0, 4), digits_at(text, 5, 2), digits_at(text, 8, 2))
                    * 86_400 + digits_at(text, 11, 2) * 3600 + digits_at(text, 14, 2) * 60
                    + digits_at(text, 17, 2) - ahead,
            ),
        }
    }
}

/// Reads a moment as RFC 3339 writes it, as seconds since the start of 1970.
pub fn rfc3339_to_unix(text: &str) -> (r: Option<i64>)
    ensures
        match r {
            Some(n) => moment(text@) == Some(n as int),
            None => moment(text@) is None,
        },
{
    let chars = characters(text);
    if chars.len() < 20 {
        return None;
    }
    if chars[4] != '-' || chars[7] != '-' || chars[13] != ':' || chars[16] != ':' {
        return None;
    }
    if chars[10] != 'T' && chars[10] != 't' && chars[10] != ' ' {
        return None;
    }
    let year = match number_at(&chars, 0, 4) {
        Some(n) => n,
        None => {
            return None;
        },
    };
    let month = match number_at(&chars, 5, 2) {
        Some(n) => n,
        None => {
            return None;
        },
    };
    let day = match number_at(&chars, 8, 2) {
        Some(n) => n,
        None => {
            return None;
        },
    };
    let hour = match number_at(&chars, 11, 2) {
        Some(n) => n,
        None => {
            return None;
        },
    };
    let minute = match number_at(&chars, 14, 2) {
        Some(n) => n,
        None => {
            return None;
        },
    };
    let second = match number_at(&chars, 17, 2) {
        Some(n) => n,
        None => {
            return None;
        },
    };
    if month < 1 || month > 12 || day < 1 || day > month_days(year, month) || hour > 23 || minute
        > 59 || second > 60 {
        return None;
    }
    let end = skip_fraction(&chars, 19);
    match zone(&chars, end) {
        Some(ahead) => Some(
            days(year, month, day) * 86_400 + hour * 3600 + minute * 60 + second - ahead,
        ),
        None => None,
    }
}

/// How long ago a moment was, in words.
pub open spec fn ago(seconds: int) -> Seq<char> {
    if seconds < 60 {
        "just now"@
    } else if seconds < 3600 {
        decimal((seconds / 60) as nat) + " min ago"@
    } else if seconds < 86_400 {
        decimal((seconds / 3600) as nat) + "h ago"@
    } else if seconds < 172_800 {
        "yesterday"@
    } else {
        decimal((seconds / 86_400) as nat) + " days ago"@
    }
}

/// How long ago a moment was, in words. What lies ahead is just now too: clocks differ.
pub fn human_time_ago(when: i64, now: i64) -> (r: String)
    ensures
        r@ == ago(now - when),
{
    if now <= when {
        return "just now".to_owned();
    }
    let passed: i128 = now as i128 - when as i128;
    let seconds: u64 = passed as u64;
    if seconds < 60 {
        "just now".to_owned()
    } else if seconds < 3600 {
        joined(number_text(seconds / 60).as_str(), " min ago")
    } else if seconds < 86_400 {
        joined(number_text(seconds / 3600).as_str(), "h ago")
    } else if seconds < 172_800 {
        "yesterday".to_owned()
    } else {
        joined(number_text(seconds / 86_400).as_str(), " days ago")
    }
}

// ---------------------------------------------------------------------------
// What holds of moments as a whole
// ---------------------------------------------------------------------------

/// Each day has the number behind that of the day before it, within a month and from one month
/// to the next.
pub proof fn days_follow_each_other(year: int, month: int, day: int)
    requires
        1 <= month < 12,
    ensures
        day_number(year, month, day + 1) == day_number(year, month, day) + 1,
        day_number(year, month + 1, 1) == day_number(year, month, days_in_month(year, month)) + 1,
        days_in_month(year, 1) == 31,
        days_in_month(year, 2) == (if year % 4 == 0 && (year % 100 != 0 || year % 400 == 0) {
            29int
        } else {
            28
        }),
        month == 4 || month == 6 || month == 9 || month == 11 ==> days_in_month(year, month) == 30,
        month == 3 || month == 5 || month == 7 || month == 8 || month == 10 ==> days_in_month(
            year,
            month,
        ) == 31,
        days_in_month(year, 12) == 31,
{
}

/// A time ahead of Greenwich is that much earlier there, and one behind it that much later.
pub proof fn zones_shift_the_time(t: Seq<char>, a: char, b: char, c: char, d: char)
    requires
        t.len() == 19,
        is_digit(a) && is_digit(b) && is_digit(c) && is_digit(d),
        10 * digit_value(a) + digit_value(b) <= 23,
        10 * digit_value(c) + digit_value(d) <= 59,
    ensures
        ({
            let here = moment(t + seq!['Z']);
            let ahead = moment(t + seq!['+', a, b, ':', c, d]);
            let behind = moment(t + seq!['-', a, b, ':', c, d]);
            let by = (10 * digit_value(a) + digit_value(b)) * 3600 + (10 * digit_value(c)
                + digit_value(d)) * 60;
            &&& here is Some <==> ahead is Some
            &&& here is Some <==> behind is Some
            &&& here is Some ==> ahead->0 == here->0 - by && behind->0 == here->0 + by
        }),
{
    let z = t + seq!['Z'];
    let p = t + seq!['+', a, b, ':', c, d];
    let m = t + seq!['-', a, b, ':', c, d];
    lemma_same_start(z, p);
    lemma_same_start(z, m);
    assert(z[19] == 'Z' && p[19] == '+' && m[19] == '-');
    assert(fraction_end(z, 19) == 19 && fraction_end(p, 19) == 19 && fraction_end(m, 19) == 19);
    lemma_zone(p, a, b, c, d);
    lemma_zone(m, a, b, c, d);
    assert(zone_at(z, 19) == Some(0int));
}

proof fn lemma_zone(text: Seq<char>, a: char, b: char, c: char, d: char)
    requires
        text.len() == 25,
        text[19] == '+' || text[19] == '-',
        text[20] == a && text[21] == b && text[22] == ':' && text[23] == c && text[24] == d,
        is_digit(a) && is_digit(b) && is_digit(c) && is_digit(d),
        10 * digit_value(a) + digit_value(b) <= 23,
        10 * digit_value(c) + digit_value(d) <= 59,
    ensures
        text[19] == '+' ==> zone_at(text, 19) == Some(
            ((10 * digit_value(a) + digit_value(b)) * 3600 + (10 * digit_value(c) + digit_value(d))
                * 60) as int,
        ),
        text[19] == '-' ==> zone_at(text, 19) == Some(
            -((10 * digit_value(a) + digit_value(b)) * 3600 + (10 * digit_value(c) + digit_value(d))
                * 60) as int,
        ),
{
    reveal_with_fuel(digits_at, 4);
    assert(digits_at(text, 20, 2) == 10 * digit_value(a) + digit_value(b));
    assert(digits_at(text, 23, 2) == 10 * digit_value(c) + digit_value(d));
    assert(all_digits_at(text, 20, 2));
    assert(all_digits_at(text, 23, 2));
}

proof fn lemma_digits_alike(one: Seq<char>, other: Seq<char>, from: int, count: int)
    requires
        0 <= from,
        0 <= count,
        from + count <= 19,
        one.len() >= 19,
        other.len() >= 19,
        forall|i: int| 0 <= i < 19 ==> one[i] == other[i],
    ensures
        digits_at(one, from, count) == digits_at(other, from, count),
        all_digits_at(one, from, count) == all_digits_at(other, from, count),
    decreases count,
{
    if count > 0 {
        lemma_digits_alike(one, other, from, count - 1);
    }
    if all_digits_at(one, from, count) {
        assert forall|i: int| from <= i < from + count implies is_digit(#[trigger] other[i]) by {
            assert(is_digit(one[i]));
        }
    }
    if all_digits_at(other, from, count) {
        assert forall|i: int| from <= i < from + count implies is_digit(#[trigger] one[i]) by {
            assert(is_digit(other[i]));
        }
    }
}

proof fn lemma_same_start(one: Seq<char>, other: Seq<char>)
    requires
        one.len() >= 20,
        other.len() >= 20,
        forall|i: int| 0 <= i < 19 ==> one[i] == other[i],
    ensures
        is_shaped(one) == is_shaped(other),
        is_dated(one) == is_dated(other),
        digits_at(one, 0, 4) == digits_at(other, 0, 4),
        digits_at(one, 5, 2) == digits_at(other, 5, 2),
        digits_at(one, 8, 2) == digits_at(other, 8, 2),
        digits_at(one, 11, 2) == digits_at(other, 11, 2),
        digits_at(one, 14, 2) == digits_at(other, 14, 2),
        digits_at(one, 17, 2) == digits_at(other, 17, 2),
{
    lemma_digits_alike(one, other, 0, 4);
    lemma_digits_alike(one, other, 5, 2);
    lemma_digits_alike(one, other, 8, 2);
    lemma_digits_alike(one, other, 11, 2);
    lemma_digits_alike(one, other, 14, 2);
    lemma_digits_alike(one, other, 17, 2);
}

/// A fraction of a second changes nothing.
pub proof fn fractions_are_left_out(t: Seq<char>, fraction: Seq<char>)
    requires
        t.len() == 19,
        fraction.len() > 0,
        forall|i: int| 0 <= i < fraction.len() ==> is_digit(#[trigger] fraction[i]),
    ensures
        moment(t.push('.') + fraction + seq!['Z']) == moment(t.push('Z')),
{
    let long = t.push('.') + fraction + seq!['Z'];
    let short = t.push('Z');
    lemma_same_start(long, short);
    assert(long[19] == '.');
    assert(long[20] == fraction[0]);
    assert forall|i: int| 20 <= i < 20 + fraction.len() implies is_digit(#[trigger] long[i]) by {
        assert(long[i] == fraction[i - 20]);
    }
    assert(long[20 + fraction.len() as int] == 'Z');
    lemma_digits_end(long, 20, 20 + fraction.len() as int);
}

proof fn lemma_digits_end(text: Seq<char>, from: int, to: int)
    requires
        0 <= from <= to < text.len(),
        forall|i: int| from <= i < to ==> is_digit(#[trigger] text[i]),
        !is_digit(text[to]),
    ensures
        digits_end(text, from) == to,
    decreases to - from,
{
    if from < to {
        assert(is_digit(text[from]));
        lemma_digits_end(text, from + 1, to);
    }
}

/// A moment is made of its day and the time of that day.
pub proof fn moments_are_days_and_seconds(text: Seq<char>)
    requires
        text.len() == 20,
        text[19] == 'Z',
        moment(text) is Some,
    ensures
        ({
            let day = day_number(
                digits_at(text, 0, 4),
                digits_at(text, 5, 2),
                digits_at(text, 8, 2),
            );
            let hour = digits_at(text, 11, 2);
            let minute = digits_at(text, 14, 2);
            let second = digits_at(text, 17, 2);
            &&& moment(text) == Some(((day * 24 + hour) * 60 + minute) * 60 + second)
            &&& 1 <= digits_at(text, 5, 2) <= 12 && hour <= 23 && minute <= 59 && second <= 60
        }),
{
}

/// How long ago something was is told in the largest unit that fits: minutes, hours, and days
/// from the day before yesterday on.
pub proof fn ages_are_told_in_the_largest_unit(n: int, rest: int)
    requires
        n >= 1,
    ensures
        0 <= rest < 60 ==> ago(rest) == "just now"@,
        rest < 0 ==> ago(rest) == "just now"@,
        n < 60 && 0 <= rest < 60 ==> ago(60 * n + rest) == decimal(n as nat) + " min ago"@,
        n < 24 && 0 <= rest < 3600 ==> ago(3600 * n + rest) == decimal(n as nat) + "h ago"@,
        0 <= rest < 86_400 ==> ago(86_400 + rest) == "yesterday"@,
        n >= 2 && 0 <= rest < 86_400 ==> ago(86_400 * n + rest) == decimal(n as nat) + " days ago"@,
{
    if 0 <= rest < 60 {
        assert((60 * n + rest) / 60 == n) by (nonlinear_arith)
            requires
                0 <= rest < 60,
        ;
    }
    if 0 <= rest < 3600 {
        assert((3600 * n + rest) / 3600 == n) by (nonlinear_arith)
            requires
                0 <= rest < 3600,
        ;
    }
    if 0 <= rest < 86_400 {
        assert((86_400 * n + rest) / 86_400 == n) by (nonlinear_arith)
            requires
                0 <= rest < 86_400,
        ;
    }
}

} // verus!
