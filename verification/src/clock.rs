//! Moments as the dashboard counts them: seconds from the start of 2020, with every year
//! taken as 365 days and every month as 30, so that log lines and the clock can be
//! compared.

use vstd::prelude::*;

use crate::text::{
    all_digits, decimal, decimal_is_read_back, lemma_first_piece, lemma_one_piece, number,
    parse_number_u32, pieces, split, two_digits, two_digits_are_read_back, views,
};

verus! {

/// A moment of the calendar.
#[derive(Debug, Clone, Copy, PartialEq, Eq, Structural)]
pub struct Moment {
    pub year: u64,
    pub month: u32,
    pub day: u32,
    pub hour: u32,
    pub minute: u32,
    pub second: u32,
}

/// The years from 2020 on.
pub open spec fn years_since_2020(year: int) -> int {
    if year < 2020 {
        0
    } else {
        year - 2020
    }
}

/// The days counted for a date, as a 32-bit number.
pub open spec fn counted_days(year: int, month: int, day: int) -> int {
    (years_since_2020(year) * 365 + (month - 1) * 30 + day) % 0x1_0000_0000
}

/// The seconds counted for a moment.
pub open spec fn stamp(m: Moment) -> int {
    counted_days(m.year as int, m.month as int, m.day as int) * 86400 + m.hour * 3600 + m.minute
        * 60 + m.second
}

/// The seconds counted for a moment.
pub fn stamp_of(m: Moment) -> (r: u64)
    requires
        m.year <= 0xffff_ffff_ffff,
    ensures
        r == stamp(m),
{
    let years: i64 = if m.year < 2020 {
        0
    } else {
        (m.year - 2020) as i64
    };
    let days: i64 = years * 365 + (m.month as i64 - 1) * 30 + m.day as i64;
    let counted: u64 = if days < 0 {
        (days + 0x1_0000_0000) as u64
    } else {
        (days as u64) % 0x1_0000_0000
    };
    counted * 86400 + (m.hour as u64) * 3600 + (m.minute as u64) * 60 + (m.second as u64)
}

/// The numbers among the pieces of a text: those that are not numbers are left out.
pub open spec fn numbers(p: Seq<Seq<char>>) -> Seq<nat>
    decreases p.len(),
{
    if p.len() == 0 {
        Seq::empty()
    } else {
        let before = numbers(p.drop_last());
        match number(p.last(), u32::MAX as nat) {
            Some(n) => before.push(n),
            None => before,
        }
    }
}

/// The moment that a text such as `2026-02-05T21:25:01` writes down: three numbers
/// before the only `T`, three after it.
pub open spec fn moment_of_text(s: Seq<char>) -> Option<Moment> {
    let halves = pieces(s, 'T');
    if halves.len() != 2 {
        None
    } else {
        let date = numbers(pieces(halves[0], '-'));
        let time = numbers(pieces(halves[1], ':'));
        if date.len() == 3 && time.len() == 3 {
            Some(
                Moment {
                    year: date[0] as u64,
                    month: date[1] as u32,
                    day: date[2] as u32,
                    hour: time[0] as u32,
                    minute: time[1] as u32,
                    second: time[2] as u32,
                },
            )
        } else {
            None
        }
    }
}

/// The numbers among the pieces of a text between separators.
pub(crate) fn numbers_of(s: &str, separator: char) -> (r: Vec<u32>)
    ensures
        r@.len() == numbers(pieces(s@, separator)).len(),
        forall|i: int| 0 <= i < r@.len() ==> #[trigger] r@[i] == numbers(pieces(s@, separator))[i],
{
    let parts = split(s, separator);
    let ghost all = pieces(s@, separator);
    let mut r: Vec<u32> = Vec::new();
    let mut i: usize = 0;
    assert(all.take(0) =~= Seq::empty());
    while i < parts.len()
        invariant
            i <= parts@.len(),
            all == views(parts@),
            r@.len() == numbers(all.take(i as int)).len(),
            forall|j: int| 0 <= j < r@.len() ==> #[trigger] r@[j] == numbers(all.take(i as int))[j],
        decreases parts@.len() - i,
    {
        assert(all.take(i + 1).drop_last() =~= all.take(i as int));
        assert(all.take(i + 1).last() == parts@[i as int]@);
        match parse_number_u32(&parts[i]) {
            Some(n) => {
                r.push(n);
            },
            None => {},
        }
        i = i + 1;
    }
    assert(all.take(all.len() as int) =~= all);
    r
}

/// The seconds counted for the moment that a text writes down.
pub fn parse_timestamp(s: &str) -> (r: Option<u64>)
    ensures
        match r {
            Some(n) => moment_of_text(s@) matches Some(m) && n == stamp(m),
            None => moment_of_text(s@) is None,
        },
{
    let halves = split(s, 'T');
    assert(views(halves@).len() == halves@.len());
    if halves.len() != 2 {
        return None;
    }
    let date = numbers_of(&halves[0], '-');
    let time = numbers_of(&halves[1], ':');
    if date.len() != 3 || time.len() != 3 {
        return None;
    }
    let m = Moment {
        year: date[0] as u64,
        month: date[1],
        day: date[2],
        hour: time[0],
        minute: time[1],
        second: time[2],
    };
    Some(stamp_of(m))
}

/// Whether a year has a 29th of February.
pub open spec fn leap(year: int) -> bool {
    (year % 4 == 0 && year % 100 != 0) || year % 400 == 0
}

/// Whether a year has a 29th of February.
pub fn is_leap_year(year: u64) -> (r: bool)
    ensures
        r == leap(year as int),
{
    (year % 4 == 0 && year % 100 != 0) || year % 400 == 0
}

/// The days of a year.
pub open spec fn year_len(year: int) -> int {
    if leap(year) {
        366
    } else {
        365
    }
}

/// The year, and the day in it counted from zero, `days` after the start of `year`.
pub open spec fn year_and_day(days: int, year: int) -> (int, int)
    decreases days,
{
    if days < year_len(year) {
        (year, days)
    } else {
        year_and_day(days - year_len(year), year + 1)
    }
}

/// The days of a month.
pub open spec fn month_len(month: int, leap: bool) -> int {
    if month == 2 {
        if leap {
            29
        } else {
            28
        }
    } else if month == 4 || month == 6 || month == 9 || month == 11 {
        30
    } else {
        31
    }
}

/// The month and the day in it, `days` after the start of `month`; the last day of the
/// year where that is after its end.
pub open spec fn month_and_day(days: int, month: int, leap: bool) -> (int, int)
    decreases 13 - month,
{
    if month > 12 {
        (12, 31)
    } else if days < month_len(month, leap) {
        (month, days + 1)
    } else {
        month_and_day(days - month_len(month, leap), month + 1, leap)
    }
}

/// The month and the day in it of a day of the year counted from zero.
pub fn day_of_year_to_month_day(day_of_year: u32, leap: bool) -> (r: (u32, u32))
    ensures
        (r.0 as int, r.1 as int) == month_and_day(day_of_year as int, 1, leap),
{
    let mut month: u32 = 1;
    let mut remaining: u32 = day_of_year;
    while month <= 12
        invariant
            1 <= month <= 13,
            month_and_day(day_of_year as int, 1, leap) == month_and_day(
                remaining as int,
                month as int,
                leap,
            ),
        decreases 13 - month,
    {
        let len: u32 = if month == 2 {
            if leap {
                29
            } else {
                28
            }
        } else if month == 4 || month == 6 || month == 9 || month == 11 {
            30
        } else {
            31
        };
        if remaining < len {
            return (month, remaining + 1);
        }
        remaining = remaining - len;
        month = month + 1;
    }
    (12, 31)
}

/// The moment, in UTC, that is `secs` after the start of 1970.
pub open spec fn moment_of_unix(secs: int) -> Moment {
    let (year, day_of_year) = year_and_day(secs / 86400, 1970);
    let (month, day) = month_and_day(day_of_year, 1, leap(year));
    Moment {
        year: year as u64,
        month: month as u32,
        day: day as u32,
        hour: ((secs % 86400) / 3600) as u32,
        minute: ((secs % 3600) / 60) as u32,
        second: (secs % 60) as u32,
    }
}

/// The seconds counted for the moment that is `now` seconds after the start of 1970.
pub fn stamp_of_unix(now: u64) -> (r: u64)
    ensures
        r == stamp(moment_of_unix(now as int)),
{
    let mut days: u64 = now / 86400;
    let time_of_day: u64 = now % 86400;
    let mut year: u64 = 1970;
    let ghost total = days as int;
    while days >= 365
        invariant_except_break
            year_and_day(total, 1970) == year_and_day(days as int, year as int),
            year + days <= 1970 + total,
            total <= 0xffff_ffff_0000,
        ensures
            year_and_day(total, 1970) == (year as int, days as int),
            year <= 1970 + total,
            days < 366,
        decreases days,
    {
        let len: u64 = if is_leap_year(year) {
            366
        } else {
            365
        };
        if days < len {
            break;
        }
        days = days - len;
        year = year + 1;
    }
    let (month, day) = day_of_year_to_month_day(days as u32, is_leap_year(year));
    assert((now % 86400) % 3600 == now % 3600);
    assert((now % 86400) % 60 == now % 60);
    let m = Moment {
        year,
        month,
        day,
        hour: (time_of_day / 3600) as u32,
        minute: ((time_of_day % 3600) / 60) as u32,
        second: (time_of_day % 60) as u32,
    };
    stamp_of(m)
}

/// `SystemTime::now`, as seconds after the start of 1970: nothing is said of the time.
#[verifier::external_body]
fn unix_now() -> (r: u64) {
    std::time::SystemTime::now().duration_since(std::time::UNIX_EPOCH).unwrap_or_default().as_secs()
}

/// Now, as seconds after the start of 1970.
pub fn now_secs() -> (r: u64) {
    unix_now()
}

/// Now, counted as `parse_timestamp` counts.
pub fn current_time_secs() -> (r: u64)
    ensures
        exists|now: u64| r == stamp(#[trigger] moment_of_unix(now as int)),
{
    let now = unix_now();
    let r = stamp_of_unix(now);
    assert(r == stamp(moment_of_unix(now as int)));
    r
}


/// A moment as a log line writes it: the date, `T`, the time.
pub open spec fn written(m: Moment) -> Seq<char> {
    (decimal(m.year as nat).push('-') + (two_digits(m.month as nat).push('-') + two_digits(
        m.day as nat,
    ))).push('T') + (two_digits(m.hour as nat).push(':') + (two_digits(m.minute as nat).push(':')
        + two_digits(m.second as nat)))
}

/// A separator that is no digit does not occur among digits.
proof fn lemma_no_separator(s: Seq<char>, d: char)
    requires
        all_digits(s),
        !crate::text::is_digit(d),
    ensures
        !s.contains(d),
{
}

/// Three numbers between separators are read as those three.
proof fn lemma_three_numbers(a: Seq<char>, b: Seq<char>, c: Seq<char>, d: char, x: nat, y: nat, z: nat)
    requires
        all_digits(a),
        all_digits(b),
        all_digits(c),
        !crate::text::is_digit(d),
        number(a, u32::MAX as nat) == Some(x),
        number(b, u32::MAX as nat) == Some(y),
        number(c, u32::MAX as nat) == Some(z),
    ensures
        numbers(pieces(a.push(d) + (b.push(d) + c), d)) == seq![x, y, z],
{
    lemma_no_separator(a, d);
    lemma_no_separator(b, d);
    lemma_no_separator(c, d);
    lemma_one_piece(c, d);
    lemma_first_piece(b, d, c);
    lemma_first_piece(a, d, b.push(d) + c);
    let p = seq![a, b, c];
    assert(pieces(a.push(d) + (b.push(d) + c), d) =~= p);
    assert(p.drop_last() =~= seq![a, b]);
    assert(seq![a, b].drop_last() =~= seq![a]);
    assert(seq![a].drop_last() =~= Seq::<Seq<char>>::empty());
    reveal_with_fuel(numbers, 4);
    assert(numbers(p) =~= seq![x, y, z]);
}

/// A moment that a log line writes down is read back, whatever the moment.
pub proof fn a_written_moment_is_read_back(m: Moment)
    requires
        m.year <= u32::MAX,
    ensures
        moment_of_text(written(m)) == Some(m),
{
    decimal_is_read_back(m.year as nat);
    two_digits_are_read_back(m.month as nat);
    two_digits_are_read_back(m.day as nat);
    two_digits_are_read_back(m.hour as nat);
    two_digits_are_read_back(m.minute as nat);
    two_digits_are_read_back(m.second as nat);
    let date = decimal(m.year as nat).push('-') + (two_digits(m.month as nat).push('-')
        + two_digits(m.day as nat));
    let time = two_digits(m.hour as nat).push(':') + (two_digits(m.minute as nat).push(':')
        + two_digits(m.second as nat));
    lemma_three_numbers(
        decimal(m.year as nat),
        two_digits(m.month as nat),
        two_digits(m.day as nat),
        '-',
        m.year as nat,
        m.month as nat,
        m.day as nat,
    );
    lemma_three_numbers(
        two_digits(m.hour as nat),
        two_digits(m.minute as nat),
        two_digits(m.second as nat),
        ':',
        m.hour as nat,
        m.minute as nat,
        m.second as nat,
    );
    lemma_no_separator(decimal(m.year as nat), 'T');
    lemma_no_separator(two_digits(m.month as nat), 'T');
    lemma_no_separator(two_digits(m.day as nat), 'T');
    lemma_no_separator(two_digits(m.hour as nat), 'T');
    lemma_no_separator(two_digits(m.minute as nat), 'T');
    lemma_no_separator(two_digits(m.second as nat), 'T');
    assert(!date.contains('T')) by {
        if date.contains('T') {
            let i = choose|i: int| 0 <= i < date.len() && date[i] == 'T';
            let a = decimal(m.year as nat);
            let b = two_digits(m.month as nat);
            let c = two_digits(m.day as nat);
            if i < a.len() {
                assert(a[i] == 'T');
            } else if a.len() < i < a.len() + 1 + b.len() {
                assert(b[i - a.len() - 1] == 'T');
            } else if i > a.len() + 1 + b.len() {
                assert(c[i - a.len() - b.len() - 2] == 'T');
            }
        }
    }
    assert(!time.contains('T')) by {
        if time.contains('T') {
            let i = choose|i: int| 0 <= i < time.len() && time[i] == 'T';
            let a = two_digits(m.hour as nat);
            let b = two_digits(m.minute as nat);
            let c = two_digits(m.second as nat);
            if i < a.len() {
                assert(a[i] == 'T');
            } else if a.len() < i < a.len() + 1 + b.len() {
                assert(b[i - a.len() - 1] == 'T');
            } else if i > a.len() + 1 + b.len() {
                assert(c[i - a.len() - b.len() - 2] == 'T');
            }
        }
    }
    lemma_one_piece(time, 'T');
    lemma_first_piece(date, 'T', time);
    assert(pieces(written(m), 'T') =~= seq![date, time]);
}

/// The calendar goes on day by day: the day after a day is the next of its month or the first
/// of the next one.
pub proof fn days_follow_each_other(d: int, month: int, leap: bool)
    requires
        1 <= month <= 12,
        0 <= d,
        month_and_day(d, month, leap) != (12int, 31int),
    ensures
        ({
            let (m, day) = month_and_day(d, month, leap);
            let next = month_and_day(d + 1, month, leap);
            1 <= day <= month_len(m, leap) && next == (if day < month_len(m, leap) {
                (m, day + 1)
            } else {
                (m + 1, 1int)
            })
        }),
    decreases 13 - month,
{
    reveal_with_fuel(month_and_day, 3);
    if d >= month_len(month, leap) {
        if month < 12 {
            days_follow_each_other(d - month_len(month, leap), month + 1, leap);
        }
    }
}

/// The first day of a year is the first of January, the last one the thirty-first of December,
/// and a leap year has one day more.
pub proof fn years_begin_in_january(leap: bool)
    ensures
        month_and_day(0, 1, leap) == (1int, 1int),
        month_and_day(
            if leap {
                365
            } else {
                364
            },
            1,
            leap,
        ) == (12int, 31int),
        month_and_day(59, 1, leap) == (if leap {
            (2int, 29int)
        } else {
            (3int, 1int)
        }),
{
    reveal_with_fuel(month_and_day, 13);
}

/// The years go on one by one: the day after the last of a year is the first of the next.
pub proof fn years_follow_each_other(days: int, year: int)
    requires
        0 <= days,
    ensures
        ({
            let (y, d) = year_and_day(days, year);
            let next = year_and_day(days + 1, year);
            0 <= d < year_len(y) && next == (if d + 1 < year_len(y) {
                (y, d + 1)
            } else {
                (y + 1, 0int)
            })
        }),
        year_and_day(0, year) == (year, 0int),
    decreases days,
{
    reveal_with_fuel(year_and_day, 3);
    if days >= year_len(year) {
        years_follow_each_other(days - year_len(year), year + 1);
    }
}

/// Every fourth year is a leap year, but of the hundreds only every fourth.
pub proof fn leap_years_come_every_four(year: int)
    ensures
        year % 4 != 0 ==> !leap(year),
        year % 400 == 0 ==> leap(year),
        year % 100 == 0 && year % 400 != 0 ==> !leap(year),
        year % 4 == 0 && year % 100 != 0 ==> leap(year),
        year_len(year) == 365 + (if leap(year) {
            1int
        } else {
            0
        }),
{
}

/// The time of the day is that of the seconds since midnight.
pub proof fn the_time_of_day_is_kept(secs: int)
    requires
        0 <= secs,
    ensures
        ({
            let m = moment_of_unix(secs);
            m.hour < 24 && m.minute < 60 && m.second < 60 && m.hour * 3600 + m.minute * 60 + m.second
                == secs % 86400
        }),
{
    let h = (secs % 86400) / 3600;
    let n = (secs % 3600) / 60;
    let s = secs % 60;
    assert(0 <= h < 24 && 0 <= n < 60 && 0 <= s < 60);
    assert(h * 3600 + n * 60 + s == secs % 86400);
}

/// A later time of the same day counts exactly as much more as it is later, a day counts as
/// much as its seconds, and a year as 365 days.
pub proof fn stamps_count_seconds(m: Moment, hour: u32, minute: u32, second: u32)
    requires
        2020 <= m.year <= 9999,
        1 <= m.month <= 12,
        1 <= m.day <= 30,
    ensures
        stamp(Moment { hour, minute, second, ..m }) - stamp(m) == (hour - m.hour) * 3600 + (minute
            - m.minute) * 60 + (second - m.second),
        stamp(Moment { day: (m.day + 1) as u32, ..m }) - stamp(m) == 86400,
        stamp(Moment { month: (m.month + 1) as u32, ..m }) - stamp(m) == 30 * 86400,
        stamp(Moment { year: (m.year + 1) as u64, ..m }) - stamp(m) == 365 * 86400,
{
}

} // verus!
