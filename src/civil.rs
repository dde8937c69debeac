use vstd::prelude::*;
use vstd::arithmetic::div_mod::lemma_mod_multiples_vanish;

verus! {

/// Gregorian leap-year rule, proleptic (year 0 is a leap year).
pub open spec fn is_leap(y: int) -> bool {
    y % 4 == 0 && (y % 100 != 0 || y % 400 == 0)
}

pub open spec fn days_in_month(y: int, m: int) -> int {
    if m == 2 {
        if is_leap(y) { 29 } else { 28 }
    } else if m == 4 || m == 6 || m == 9 || m == 11 {
        30
    } else {
        31
    }
}

/// A wall-clock moment with unbounded integer fields, used in contracts.
pub struct Civil {
    pub year: int,
    pub month: int,
    pub day: int,
    pub hour: int,
    pub minute: int,
    pub second: int,
}

impl Civil {
    pub open spec fn valid(self) -> bool {
        &&& 1 <= self.month <= 12
        &&& 1 <= self.day <= days_in_month(self.year, self.month)
        &&& 0 <= self.hour < 24
        &&& 0 <= self.minute < 60
        &&& 0 <= self.second < 60
    }

    /// The same time of day on the following calendar day.
    pub open spec fn next_day(self) -> Civil {
        if self.day < days_in_month(self.year, self.month) {
            Civil { day: self.day + 1, ..self }
        } else if self.month < 12 {
            Civil { month: self.month + 1, day: 1, ..self }
        } else {
            Civil { year: self.year + 1, month: 1, day: 1, ..self }
        }
    }

    /// The same time of day on the preceding calendar day.
    pub open spec fn prev_day(self) -> Civil {
        if self.day > 1 {
            Civil { day: self.day - 1, ..self }
        } else if self.month > 1 {
            Civil { month: self.month - 1, day: days_in_month(self.year, self.month - 1), ..self }
        } else {
            Civil { year: self.year - 1, month: 12, day: 31, ..self }
        }
    }

    /// This moment moved by `k` whole hours, for `-23 <= k <= 23`.
    pub open spec fn shift_hours(self, k: int) -> Civil {
        let h = self.hour + k;
        if h >= 24 {
            Civil { hour: h - 24, ..self.next_day() }
        } else if h < 0 {
            Civil { hour: h + 24, ..self.prev_day() }
        } else {
            Civil { hour: h, ..self }
        }
    }
}

pub proof fn lemma_next_prev(c: Civil)
    requires
        c.valid(),
    ensures
        c.next_day().valid(),
        c.prev_day().valid(),
        c.next_day().prev_day() == c,
        c.prev_day().next_day() == c,
{
}

/// Moving a valid moment by `-k` hours and then by `k` hours gives it back:
/// a wall-clock value converted to UTC and back to its offset is unchanged.
pub proof fn lemma_shift_round_trip(c: Civil, k: int)
    requires
        c.valid(),
        -23 <= k <= 23,
    ensures
        c.shift_hours(-k).valid(),
        c.shift_hours(-k).shift_hours(k) == c,
{
    lemma_next_prev(c);
}

/// Calendar order of the dates of two moments: `a`'s day comes before `b`'s.
pub open spec fn day_before(a: Civil, b: Civil) -> bool {
    ||| a.year < b.year
    ||| (a.year == b.year && a.month < b.month)
    ||| (a.year == b.year && a.month == b.month && a.day < b.day)
}

pub open spec fn same_day(a: Civil, b: Civil) -> bool {
    a.year == b.year && a.month == b.month && a.day == b.day
}

/// Time order of two moments: `a` comes strictly before `b`.
pub open spec fn before(a: Civil, b: Civil) -> bool {
    ||| day_before(a, b)
    ||| (same_day(a, b) && (a.hour < b.hour || (a.hour == b.hour && (a.minute < b.minute || (
    a.minute == b.minute && a.second < b.second)))))
}

/// Time order of two moments: `a` comes no later than `b`.
pub open spec fn not_after(a: Civil, b: Civil) -> bool {
    before(a, b) || a == b
}

/// No valid day lies strictly between a day and the next one.
proof fn lemma_next_day_tight(a: Civil, b: Civil)
    requires
        a.valid(),
        b.valid(),
        day_before(a, b),
    ensures
        day_before(a.next_day(), b) || same_day(a.next_day(), b),
        day_before(a, b.prev_day()) || same_day(a, b.prev_day()),
{
}

/// Moving two valid moments by the same number of hours keeps their order.
pub proof fn lemma_shift_keeps_order(a: Civil, b: Civil, k: int)
    requires
        a.valid(),
        b.valid(),
        -23 <= k <= 23,
        before(a, b),
    ensures
        before(a.shift_hours(k), b.shift_hours(k)),
{
    if day_before(a, b) {
        lemma_next_day_tight(a, b);
        lemma_next_day_tight(a.next_day(), b.next_day());
        lemma_next_prev(a);
        lemma_next_prev(b);
    }
}

/// Moving two valid moments by the same number of hours keeps `not_after`
/// both ways.
pub proof fn lemma_shift_order_iff(a: Civil, b: Civil, k: int)
    requires
        a.valid(),
        b.valid(),
        -23 <= k <= 23,
    ensures
        not_after(a, b) <==> not_after(a.shift_hours(k), b.shift_hours(k)),
{
    if before(a, b) {
        lemma_shift_keeps_order(a, b, k);
    } else if a != b {
        assert(before(b, a));
        lemma_shift_keeps_order(b, a, k);
    }
}

/// A calendar date as read from text.
#[derive(Clone, Copy, Debug, PartialEq, Eq, Structural)]
pub struct Date {
    pub year: i32,
    pub month: u32,
    pub day: u32,
}

/// A calendar date and time of day, to the second.
#[derive(Clone, Copy, Debug, PartialEq, Eq, Structural)]
pub struct DateTime {
    pub year: i32,
    pub month: u32,
    pub day: u32,
    pub hour: u32,
    pub minute: u32,
    pub second: u32,
}

impl Date {
    pub open spec fn valid(self) -> bool {
        &&& 1 <= self.month <= 12
        &&& 1 <= self.day <= days_in_month(self.year as int, self.month as int)
    }

    /// This date at the given time of day.
    pub open spec fn at_spec(self, hour: int, minute: int, second: int) -> Civil {
        Civil {
            year: self.year as int,
            month: self.month as int,
            day: self.day as int,
            hour,
            minute,
            second,
        }
    }

    pub fn at(&self, hour: u32, minute: u32, second: u32) -> (r: DateTime)
        ensures
            r@ == self.at_spec(hour as int, minute as int, second as int),
    {
        DateTime { year: self.year, month: self.month, day: self.day, hour, minute, second }
    }
}

impl View for DateTime {
    type V = Civil;

    open spec fn view(&self) -> Civil {
        Civil {
            year: self.year as int,
            month: self.month as int,
            day: self.day as int,
            hour: self.hour as int,
            minute: self.minute as int,
            second: self.second as int,
        }
    }
}

impl DateTime {
    /// A valid moment whose year has a representable neighbour on each side.
    pub open spec fn wf(self) -> bool {
        &&& self@.valid()
        &&& i32::MIN < self.year < i32::MAX
    }
}

pub fn is_leap_year(y: i32) -> (r: bool)
    ensures
        r == is_leap(y as int),
{
    let a: u64 = (y as i64 + 4_000_000_000i64) as u64;
    let r4 = a % 4;
    let r100 = a % 100;
    let r400 = a % 400;
    proof {
        lemma_mod_multiples_vanish(1_000_000_000, y as int, 4);
        lemma_mod_multiples_vanish(40_000_000, y as int, 100);
        lemma_mod_multiples_vanish(10_000_000, y as int, 400);
    }
    r4 == 0 && (r100 != 0 || r400 == 0)
}

pub fn month_length(y: i32, m: u32) -> (r: u32)
    ensures
        r as int == days_in_month(y as int, m as int),
{
    if m == 2 {
        if is_leap_year(y) { 29 } else { 28 }
    } else if m == 4 || m == 6 || m == 9 || m == 11 {
        30
    } else {
        31
    }
}

fn next_day(d: &DateTime) -> (r: DateTime)
    requires
        d.wf(),
    ensures
        r@ == d@.next_day(),
{
    if d.day < month_length(d.year, d.month) {
        DateTime { day: d.day + 1, ..*d }
    } else if d.month < 12 {
        DateTime { month: d.month + 1, day: 1, ..*d }
    } else {
        DateTime { year: d.year + 1, month: 1, day: 1, ..*d }
    }
}

fn prev_day(d: &DateTime) -> (r: DateTime)
    requires
        d.wf(),
    ensures
        r@ == d@.prev_day(),
{
    if d.day > 1 {
        DateTime { day: d.day - 1, ..*d }
    } else if d.month > 1 {
        DateTime { month: d.month - 1, day: month_length(d.year, d.month - 1), ..*d }
    } else {
        DateTime { year: d.year - 1, month: 12, day: 31, ..*d }
    }
}

/// Moves a moment by `k` whole hours, carrying into the neighbouring day.
pub fn shift_hours(d: &DateTime, k: i32) -> (r: DateTime)
    requires
        d.wf(),
        -23 <= k <= 23,
    ensures
        r@ == d@.shift_hours(k as int),
        r@.valid(),
{
    proof {
        lemma_next_prev(d@);
    }
    let h: i32 = d.hour as i32 + k;
    if h >= 24 {
        let n = next_day(d);
        DateTime { hour: (h - 24) as u32, ..n }
    } else if h < 0 {
        let p = prev_day(d);
        DateTime { hour: (h + 24) as u32, ..p }
    } else {
        DateTime { hour: h as u32, ..*d }
    }
}

} // verus!
