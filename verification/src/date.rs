//! Civil calendar dates (proleptic Gregorian), with a verified day
//! numbering that the scheduler's clock arithmetic rests on.

use vstd::prelude::*;
use crate::digits::{
    spec_two_digits,
    spec_four_digits,
    push_two_digits,
    push_four_digits,
    is_digit,
    digit_val,
    digit_value,
};
use vstd::arithmetic::div_mod::{lemma_fundamental_div_mod, lemma_fundamental_div_mod_converse};

verus! {

/// A calendar date. The supported range, years 1 through 9999, covers
/// every value the scheduler can meet and keeps all arithmetic small.
#[derive(Debug, Clone, Copy, PartialEq, Eq, Structural)]
pub struct DaylogDate {
    pub year: i32,
    pub month: u8,
    pub day: u8,
}

/// Gregorian leap years: every fourth year, except centuries not
/// divisible by four hundred.
pub open spec fn is_leap_year(y: int) -> bool {
    (y % 4 == 0 && y % 100 != 0) || y % 400 == 0
}

/// The number of days in a month of a given year.
pub open spec fn spec_days_in_month(y: int, m: int) -> int {
    if m == 2 {
        if is_leap_year(y) {
            29
        } else {
            28
        }
    } else if m == 4 || m == 6 || m == 9 || m == 11 {
        30
    } else {
        31
    }
}

impl DaylogDate {
    pub open spec fn wf(self) -> bool {
        &&& 1 <= self.year <= 9999
        &&& 1 <= self.month <= 12
        &&& 1 <= self.day <= spec_days_in_month(self.year as int, self.month as int)
    }

    /// The last supported date; the one valid date with no successor here.
    pub open spec fn is_max(self) -> bool {
        self.year == 9999 && self.month == 12 && self.day == 31
    }

    /// The serial number of this date: days since 1970-01-01, negative
    /// for earlier dates. Consecutive dates have consecutive numbers.
    pub open spec fn spec_day_number(self) -> int {
        let y = if self.month <= 2 {
            self.year - 1
        } else {
            self.year as int
        };
        let mp = if self.month > 2 {
            self.month - 3
        } else {
            self.month + 9
        };
        let doy = (153 * mp + 2) / 5 + self.day - 1;
        shifted_total(y) + doy - 719468
    }

    pub fn new(year: i32, month: u8, day: u8) -> (r: Self)
        requires
            (DaylogDate { year, month, day }).wf(),
        ensures
            r == (DaylogDate { year, month, day }),
    {
        Self { year, month, day }
    }

    /// Build a date from numbers, rejecting anything that is not a real
    /// calendar date in the supported range.
    pub fn from_ymd(year: i32, month: u8, day: u8) -> (r: Option<Self>)
        ensures
            r matches Some(d) ==> d == (DaylogDate { year, month, day }) && d.wf(),
            r is None <==> !(DaylogDate { year, month, day }).wf(),
    {
        if year < 1 || year > 9999 || month < 1 || month > 12 {
            return None;
        }
        let dim = days_in_month(year, month);
        if day < 1 || day > dim {
            return None;
        }
        Some(Self { year, month, day })
    }

    /// The next calendar day, structurally: bump the day, rolling over
    /// month and year ends.
    pub open spec fn spec_succ(self) -> Self {
        if self.day < spec_days_in_month(self.year as int, self.month as int) {
            DaylogDate { year: self.year, month: self.month, day: (self.day + 1) as u8 }
        } else if self.month < 12 {
            DaylogDate { year: self.year, month: (self.month + 1) as u8, day: 1 }
        } else {
            DaylogDate { year: (self.year + 1) as i32, month: 1, day: 1 }
        }
    }

    /// Whether the fields form a real calendar date in the supported
    /// range.
    pub fn is_valid(&self) -> (r: bool)
        ensures
            r == self.wf(),
    {
        if self.year < 1 || self.year > 9999 || self.month < 1 || self.month > 12 {
            return false;
        }
        let dim = days_in_month(self.year, self.month);
        1 <= self.day && self.day <= dim
    }

    /// The next calendar day.
    pub fn succ(self) -> (r: Self)
        requires
            self.wf(),
            !self.is_max(),
        ensures
            r.wf(),
            r == self.spec_succ(),
            r.spec_day_number() == self.spec_day_number() + 1,
    {
        proof {
            lemma_date_succ(self);
        }
        let dim = days_in_month(self.year, self.month);
        if self.day < dim {
            Self { year: self.year, month: self.month, day: self.day + 1 }
        } else if self.month < 12 {
            Self { year: self.year, month: self.month + 1, day: 1 }
        } else {
            Self { year: self.year + 1, month: 1, day: 1 }
        }
    }
}

/// The successor of a valid, non-final date is valid and has the next
/// day number: the numbering counts calendar days one by one.
pub proof fn lemma_date_succ(d: DaylogDate)
    requires
        d.wf(),
        !d.is_max(),
    ensures
        d.spec_succ().wf(),
        d.spec_succ().spec_day_number() == d.spec_day_number() + 1,
{
    let r = d.spec_succ();
    if d.day < spec_days_in_month(d.year as int, d.month as int) {
        lemma_succ_same_month(d, r);
    } else if d.month < 12 {
        lemma_succ_next_month(d, r);
    } else {
        lemma_succ_next_year(d, r);
    }
}

impl DaylogDate {
    /// The canonical `"YYYY-MM-DD"` rendering of this date.
    pub open spec fn spec_format_ymd(self) -> Seq<char> {
        spec_four_digits(self.year as int) + seq!['-'] + spec_two_digits(self.month as int)
            + seq!['-'] + spec_two_digits(self.day as int)
    }

    /// Render as `"YYYY-MM-DD"`, zero padded.
    pub fn format_ymd(&self) -> (r: String)
        requires
            self.wf(),
        ensures
            r@ == self.spec_format_ymd(),
    {
        let mut out = String::new();
        push_four_digits(&mut out, self.year as u16);
        out.append("-");
        push_two_digits(&mut out, self.month);
        out.append("-");
        push_two_digits(&mut out, self.day);
        proof {
            reveal_strlit("-");
            assert(out@ =~= self.spec_format_ymd());
        }
        out
    }
}

impl DaylogDate {
    /// The previous calendar day, structurally.
    pub open spec fn spec_pred(self) -> Self {
        if self.day > 1 {
            DaylogDate { year: self.year, month: self.month, day: (self.day - 1) as u8 }
        } else if self.month > 1 {
            DaylogDate {
                year: self.year,
                month: (self.month - 1) as u8,
                day: spec_days_in_month(self.year as int, self.month - 1) as u8,
            }
        } else {
            DaylogDate { year: (self.year - 1) as i32, month: 12, day: 31 }
        }
    }

    /// The previous calendar day.
    pub fn pred(self) -> (r: Self)
        requires
            self.wf(),
            !(self.year == 1 && self.month == 1 && self.day == 1),
        ensures
            r.wf(),
            r == self.spec_pred(),
            r.spec_day_number() == self.spec_day_number() - 1,
    {
        let r = if self.day > 1 {
            DaylogDate { year: self.year, month: self.month, day: self.day - 1 }
        } else if self.month > 1 {
            DaylogDate {
                year: self.year,
                month: self.month - 1,
                day: days_in_month(self.year, self.month - 1),
            }
        } else {
            DaylogDate { year: self.year - 1, month: 12, day: 31 }
        };
        proof {
            assert(r.spec_succ() == self);
            lemma_date_succ(r);
        }
        r
    }

    /// The date a given small number of days earlier.
    pub open spec fn spec_days_ago(self, k: int) -> Self
        decreases k,
    {
        if k <= 0 {
            self
        } else {
            self.spec_pred().spec_days_ago(k - 1)
        }
    }

    /// Step back a bounded number of days.
    pub fn days_ago(self, k: u32) -> (r: Self)
        requires
            self.wf(),
            self.year >= 2,
            k <= 28,
        ensures
            r.wf(),
            r == self.spec_days_ago(k as int),
            r.spec_day_number() == self.spec_day_number() - k,
    {
        let mut cur = self;
        let mut i: u32 = 0;
        while i < k
            invariant
                0 <= i <= k,
                k <= 28,
                cur.wf(),
                cur == self.spec_days_ago(i as int),
                cur.spec_day_number() == self.spec_day_number() - i,
                self.wf(),
                self.year >= 2,
            decreases k - i,
        {
            proof {
                lemma_day_number_min_bound(self, cur, i as int);
            }
            cur = cur.pred();
            proof {
                assert(self.spec_days_ago(i + 1 as int) == self.spec_days_ago(
                    i as int,
                ).spec_pred()) by {
                    lemma_days_ago_unfold(self, i + 1 as int);
                }
            }
            i = i + 1;
        }
        cur
    }

    /// The date the given number of months earlier in the calendar, with
    /// the same day of the month; nothing when that day does not exist
    /// there, or the result leaves the supported range.
    pub open spec fn spec_months_ago(self, months: int) -> Option<Self> {
        let (y, m) = spec_shift_months(self.year as int, self.month as int, months);
        let d = DaylogDate { year: y as i32, month: m as u8, day: self.day };
        if 1 <= y <= 9999 && d.wf() {
            Some(d)
        } else {
            None
        }
    }

    /// Step back whole months, keeping the day of the month.
    pub fn months_ago(self, months: u32) -> (r: Option<Self>)
        requires
            self.wf(),
            months <= 24,
            self.year > 2,
        ensures
            r == self.spec_months_ago(months as int),
            r matches Some(d) ==> d.wf(),
    {
        let mut y: i32 = self.year;
        let mut m: u8 = self.month;
        let mut i: u32 = 0;
        while i < months
            invariant
                0 <= i <= months,
                months <= 24,
                self.wf(),
                self.year > 2,
                1 <= m <= 12,
                y * 12 + m == self.year * 12 + self.month - i,
                spec_shift_months(self.year as int, self.month as int, months as int)
                    == spec_shift_months(y as int, m as int, (months - i) as int),
            decreases months - i,
        {
            let ghost y0 = y as int;
            let ghost m0 = m as int;
            if m == 1 {
                m = 12;
                y = y - 1;
            } else {
                m = m - 1;
            }
            proof {
                assert(spec_shift_months(y0, m0, (months - i) as int) == spec_shift_months(
                    y as int,
                    m as int,
                    (months - i - 1) as int,
                ));
            }
            i = i + 1;
        }
        let d = DaylogDate { year: y, month: m, day: self.day };
        if d.is_valid() {
            Some(d)
        } else {
            None
        }
    }

    /// The date the given number of years earlier, with the same month
    /// and day; nothing when that day does not exist there (February 29)
    /// or the result leaves the supported range.
    pub open spec fn spec_years_ago(self, years: int) -> Option<Self> {
        let d = DaylogDate { year: (self.year - years) as i32, month: self.month, day: self.day };
        if 1 <= self.year - years <= 9999 && d.wf() {
            Some(d)
        } else {
            None
        }
    }

    /// Step back whole years, keeping month and day.
    pub fn years_ago(self, years: u32) -> (r: Option<Self>)
        requires
            self.wf(),
            years <= 100,
        ensures
            r == self.spec_years_ago(years as int),
            r matches Some(d) ==> d.wf(),
    {
        let y: i32 = self.year - years as i32;
        let d = DaylogDate { year: y, month: self.month, day: self.day };
        if d.is_valid() {
            Some(d)
        } else {
            None
        }
    }

    /// The serial day number, as code.
    pub fn day_number(&self) -> (r: i64)
        requires
            self.wf(),
        ensures
            r == self.spec_day_number(),
    {
        let y: u32 = if self.month <= 2 {
            (self.year - 1) as u32
        } else {
            self.year as u32
        };
        let era: u32 = y / 400;
        let yoe: u32 = y - era * 400;
        let mp: u32 = if self.month > 2 {
            self.month as u32 - 3
        } else {
            self.month as u32 + 9
        };
        let doy: u32 = (153 * mp + 2) / 5 + self.day as u32 - 1;
        let doe: u32 = yoe * 365 + yoe / 4 - yoe / 100 + doy;
        let total: i64 = era as i64 * 146097 + doe as i64;
        proof {
            assert(y == 400 * (y / 400) + y % 400) by {
                lemma_fundamental_div_mod(y as int, 400);
            }
        }
        total - 719468
    }

    /// The day of the week, with Sunday as zero.
    pub open spec fn spec_weekday(self) -> int {
        (self.spec_day_number() + 4) % 7
    }

    /// The day of the week, as code: 0 is Sunday through 6, Saturday.
    pub fn weekday(&self) -> (r: u8)
        requires
            self.wf(),
        ensures
            r == self.spec_weekday(),
            r < 7,
    {
        let dn = self.day_number();
        let shifted: i64 = dn + 719471;
        proof {
            lemma_day_number_range(*self);
            assert((shifted as int) % 7 == (dn + 4) % 7) by {
                vstd::arithmetic::div_mod::lemma_mod_add_multiples_vanish(dn + 4, 7);
                assert(shifted as int == 7 * 102781 + (dn + 4));
                lemma_mod_mul_vanish(dn + 4, 102781, 7);
            }
        }
        (shifted % 7) as u8
    }
}

/// The day numbering stays within comfortable bounds on the supported
/// calendar.
pub proof fn lemma_day_number_range(d: DaylogDate)
    requires
        d.wf(),
    ensures
        -719468 <= d.spec_day_number() <= 2932959,
{
    lemma_shifted_total_bounds(if d.month <= 2 {
        d.year - 1
    } else {
        d.year as int
    });
    let mp: int = if d.month > 2 {
        d.month - 3
    } else {
        d.month + 9
    };
    assert(0 <= 153 * mp + 2 <= 1685);
    assert((153 * mp + 2) / 5 <= 1685int / 5) by {
        vstd::arithmetic::div_mod::lemma_div_is_ordered(153 * mp + 2, 1685, 5);
    }
    assert((153 * mp + 2) / 5 >= 0) by {
        vstd::arithmetic::div_mod::lemma_div_pos_is_pos(153 * mp + 2, 5);
    }
}

/// Bounds on the shifted-year day total for supported years.
proof fn lemma_shifted_total_bounds(y: int)
    requires
        0 <= y <= 9999,
    ensures
        0 <= shifted_total(y) <= 3652060,
{
    lemma_fundamental_div_mod(y, 400);
    let era = y / 400;
    let yoe = y - era * 400;
    assert(0 <= yoe < 400);
    assert(0 <= era <= 24) by (nonlinear_arith)
        requires y == 400 * era + yoe, 0 <= y <= 9999, 0 <= yoe < 400;
    assert(yoe / 4 <= 99 && yoe / 100 <= 3 && yoe / 4 >= 0 && yoe / 100 >= 0);
    assert(era * 146097 <= 24 * 146097) by (nonlinear_arith)
        requires 0 <= era <= 24;
    assert(yoe * 365 <= 399 * 365 && yoe * 365 >= 0) by (nonlinear_arith)
        requires 0 <= yoe < 400;
    assert(yoe / 100 * 100 <= yoe) by {
        lemma_fundamental_div_mod(yoe, 100);
    }
}

/// A multiple of the modulus vanishes: `(m*a + b) % m == b % m`.
proof fn lemma_mod_mul_vanish(b: int, a: int, m: int)
    requires
        m > 0,
    ensures
        (m * a + b) % m == b % m,
{
    vstd::arithmetic::div_mod::lemma_mod_multiples_vanish(a, b, m);
}

/// Stepping back from a date within bounds never reaches the first
/// supported day.
proof fn lemma_day_number_min_bound(start: DaylogDate, cur: DaylogDate, i: int)
    requires
        start.wf(),
        start.year >= 2,
        cur.wf(),
        cur.spec_day_number() == start.spec_day_number() - i,
        0 <= i < 28,
    ensures
        !(cur.year == 1 && cur.month == 1 && cur.day == 1),
{
    if cur.year == 1 && cur.month == 1 && cur.day == 1 {
        assert(cur.spec_day_number() == 306 - 719468);
        let start2 = DaylogDate { year: 2, month: 1, day: 1 };
        lemma_day_number_year2_min(start);
    }
}

/// Any supported date in year two or later has a day number at least
/// that of the second year's first day.
proof fn lemma_day_number_year2_min(d: DaylogDate)
    requires
        d.wf(),
        d.year >= 2,
    ensures
        d.spec_day_number() >= 671 - 719468,
{
    let y = if d.month <= 2 {
        d.year - 1
    } else {
        d.year as int
    };
    assert(y >= 1);
    lemma_shifted_total_monotone(1, y);
    assert(shifted_total(1) == 365);
}

/// The shifted-year totals grow with the year.
proof fn lemma_shifted_total_monotone(a: int, b: int)
    requires
        0 <= a <= b,
    ensures
        shifted_total(a) <= shifted_total(b),
    decreases b - a,
{
    if a < b {
        lemma_shifted_total_step(b - 1);
        lemma_shifted_total_monotone(a, b - 1);
    }
}

/// Unfold one step of the days-ago recursion from the outside.
proof fn lemma_days_ago_unfold(d: DaylogDate, k: int)
    requires
        k >= 1,
    ensures
        d.spec_days_ago(k) == d.spec_days_ago(k - 1).spec_pred(),
    decreases k,
{
    if k == 1 {
        assert(d.spec_days_ago(1) == d.spec_pred().spec_days_ago(0));
        assert(d.spec_pred().spec_days_ago(0) == d.spec_pred());
        assert(d.spec_days_ago(0) == d);
    } else {
        assert(d.spec_days_ago(k) == d.spec_pred().spec_days_ago(k - 1));
        assert(d.spec_days_ago(k - 1) == d.spec_pred().spec_days_ago(k - 2));
        lemma_days_ago_unfold(d.spec_pred(), k - 1);
    }
}

/// What strict `"YYYY-MM-DD"` parsing accepts: exactly ten characters,
/// dashes in the middle, digits elsewhere, forming a real date.
pub open spec fn spec_parse_ymd(s: Seq<char>) -> Option<DaylogDate> {
    if s.len() == 10 && s[4] == '-' && s[7] == '-' && is_digit(s[0]) && is_digit(s[1]) && is_digit(
        s[2],
    ) && is_digit(s[3]) && is_digit(s[5]) && is_digit(s[6]) && is_digit(s[8]) && is_digit(s[9]) {
        let y = digit_val(s[0]) * 1000 + digit_val(s[1]) * 100 + digit_val(s[2]) * 10 + digit_val(
            s[3],
        );
        let m = digit_val(s[5]) * 10 + digit_val(s[6]);
        let d = digit_val(s[8]) * 10 + digit_val(s[9]);
        let date = DaylogDate { year: y as i32, month: m as u8, day: d as u8 };
        if date.wf() {
            Some(date)
        } else {
            None
        }
    } else {
        None
    }
}

/// Read a date from strict `"YYYY-MM-DD"` text.
pub fn parse_ymd(s: &str) -> (r: Option<DaylogDate>)
    ensures
        r == spec_parse_ymd(s@),
        r matches Some(d) ==> d.wf(),
{
    if s.unicode_len() != 10 {
        return None;
    }
    if s.get_char(4) != '-' || s.get_char(7) != '-' {
        return None;
    }
    let d0 = match digit_value(s.get_char(0)) {
        Some(v) => v,
        None => {
            return None;
        }
    };
    let d1 = match digit_value(s.get_char(1)) {
        Some(v) => v,
        None => {
            return None;
        }
    };
    let d2 = match digit_value(s.get_char(2)) {
        Some(v) => v,
        None => {
            return None;
        }
    };
    let d3 = match digit_value(s.get_char(3)) {
        Some(v) => v,
        None => {
            return None;
        }
    };
    let d5 = match digit_value(s.get_char(5)) {
        Some(v) => v,
        None => {
            return None;
        }
    };
    let d6 = match digit_value(s.get_char(6)) {
        Some(v) => v,
        None => {
            return None;
        }
    };
    let d8 = match digit_value(s.get_char(8)) {
        Some(v) => v,
        None => {
            return None;
        }
    };
    let d9 = match digit_value(s.get_char(9)) {
        Some(v) => v,
        None => {
            return None;
        }
    };
    let y: i32 = d0 as i32 * 1000 + d1 as i32 * 100 + d2 as i32 * 10 + d3 as i32;
    let m: u8 = d5 * 10 + d6;
    let d: u8 = d8 * 10 + d9;
    let date = DaylogDate { year: y, month: m, day: d };
    if date.is_valid() {
        Some(date)
    } else {
        None
    }
}

/// The (year, month) pair the given number of whole months earlier.
pub open spec fn spec_shift_months(y: int, m: int, k: int) -> (int, int)
    decreases k,
{
    if k <= 0 {
        (y, m)
    } else if m == 1 {
        spec_shift_months(y - 1, 12, k - 1)
    } else {
        spec_shift_months(y, m - 1, k - 1)
    }
}

/// Days in a month, as executable code.
pub fn days_in_month(year: i32, month: u8) -> (r: u8)
    requires
        1 <= year <= 9999,
        1 <= month <= 12,
    ensures
        r == spec_days_in_month(year as int, month as int),
{
    if month == 2 {
        if (year % 4 == 0 && year % 100 != 0) || year % 400 == 0 {
            29
        } else {
            28
        }
    } else if month == 4 || month == 6 || month == 9 || month == 11 {
        30
    } else {
        31
    }
}

/// Days from the start of shifted (March-based) year 0 to the start of
/// shifted year `y`, counted with Gregorian leap rules.
pub open spec fn shifted_total(y: int) -> int {
    let era = y / 400;
    let yoe = y - era * 400;
    era * 146097 + yoe * 365 + yoe / 4 - yoe / 100
}

/// Dividing `y + 1` rounds up from dividing `y` exactly when `y + 1` is
/// a multiple of the divisor.
proof fn lemma_div_step(y: int, n: int)
    requires
        y >= 0,
        n > 0,
    ensures
        (y + 1) % n == if y % n == n - 1 {
            0int
        } else {
            y % n + 1
        },
        (y + 1) / n == if y % n == n - 1 {
            y / n + 1
        } else {
            y / n
        },
{
    let q = y / n;
    let r = y % n;
    lemma_fundamental_div_mod(y, n);
    if r == n - 1 {
        assert(y + 1 == (q + 1) * n + 0) by (nonlinear_arith)
            requires y == q * n + r, r == n - 1;
        lemma_fundamental_div_mod_converse(y + 1, n, q + 1, 0);
    } else {
        lemma_fundamental_div_mod_converse(y + 1, n, q, r + 1);
    }
}

/// A multiple of 400 is a multiple of 100 and of 4; a multiple of 100 is
/// a multiple of 4.
proof fn lemma_mod_chain(y: int)
    requires
        y >= 0,
    ensures
        y % 400 == 0 ==> y % 100 == 0 && y % 4 == 0,
        y % 100 == 0 ==> y % 4 == 0,
{
    if y % 400 == 0 {
        let q = y / 400;
        lemma_fundamental_div_mod(y, 400);
        assert(y == 100 * (4 * q) + 0) by (nonlinear_arith)
            requires y == 400 * q;
        lemma_fundamental_div_mod_converse(y, 100, 4 * q, 0);
        assert(y == 4 * (100 * q) + 0) by (nonlinear_arith)
            requires y == 400 * q;
        lemma_fundamental_div_mod_converse(y, 4, 100 * q, 0);
    }
    if y % 100 == 0 {
        let q = y / 100;
        lemma_fundamental_div_mod(y, 100);
        assert(y == 4 * (25 * q) + 0) by (nonlinear_arith)
            requires y == 100 * q;
        lemma_fundamental_div_mod_converse(y, 4, 25 * q, 0);
    }
}

/// One shifted year adds 365 days, with the Gregorian corrections for
/// years divisible by 4, 100, and 400.
proof fn lemma_shifted_total_step(y: int)
    requires
        y >= 0,
    ensures
        shifted_total(y + 1) - shifted_total(y) == 365 + (if (y + 1) % 4 == 0 {
            1int
        } else {
            0int
        }) - (if (y + 1) % 100 == 0 {
            1int
        } else {
            0int
        }) + (if (y + 1) % 400 == 0 {
            1int
        } else {
            0int
        }),
{
    let era = y / 400;
    let yoe = y - era * 400;
    lemma_fundamental_div_mod(y, 400);
    assert(yoe == y % 400);
    lemma_div_step(y, 400);
    lemma_div_step(y, 100);
    lemma_div_step(y, 4);
    lemma_div_step(yoe, 4);
    lemma_div_step(yoe, 100);
    // the remainders of y and yoe agree modulo 4 and 100
    assert(y == 4 * (100 * era) + yoe) by (nonlinear_arith)
        requires y == 400 * era + yoe;
    assert(y == 100 * (4 * era) + yoe) by (nonlinear_arith)
        requires y == 400 * era + yoe;
    lemma_mod_y_yoe(y, yoe, era);
    if yoe == 399 {
        // era rolls over
        let era1 = (y + 1) / 400;
        assert(era1 == era + 1);
        assert(shifted_total(y + 1) == (era + 1) * 146097);
        assert(shifted_total(y) == era * 146097 + 399 * 365 + 99 - 3);
        assert((era + 1) * 146097 - era * 146097 == 146097) by (nonlinear_arith);
    } else {
        let era1 = (y + 1) / 400;
        assert(era1 == era);
        let yoe1 = (y + 1) - era * 400;
        assert(yoe1 == yoe + 1);
        assert((yoe + 1) * 365 - yoe * 365 == 365) by (nonlinear_arith);
    }
}

/// The year-of-era shares its remainders modulo 4 and 100 with the year.
proof fn lemma_mod_y_yoe(y: int, yoe: int, era: int)
    requires
        0 <= yoe < 400,
        y == 400 * era + yoe,
        era >= 0,
    ensures
        y % 4 == yoe % 4,
        y % 100 == yoe % 100,
        (y + 1) % 4 == (yoe + 1) % 4,
        (y + 1) % 100 == (yoe + 1) % 100,
{
    lemma_fundamental_div_mod(yoe, 4);
    lemma_fundamental_div_mod(yoe, 100);
    let q4 = yoe / 4;
    let r4 = yoe % 4;
    let q100 = yoe / 100;
    let r100 = yoe % 100;
    assert(y == (100 * era + q4) * 4 + r4) by (nonlinear_arith)
        requires y == 400 * era + yoe, yoe == 4 * q4 + r4;
    lemma_fundamental_div_mod_converse(y, 4, 100 * era + q4, r4);
    assert(y == (4 * era + q100) * 100 + r100) by (nonlinear_arith)
        requires y == 400 * era + yoe, yoe == 100 * q100 + r100;
    lemma_fundamental_div_mod_converse(y, 100, 4 * era + q100, r100);
    lemma_fundamental_div_mod(yoe + 1, 4);
    lemma_fundamental_div_mod(yoe + 1, 100);
    let s4 = (yoe + 1) / 4;
    let t4 = (yoe + 1) % 4;
    let s100 = (yoe + 1) / 100;
    let t100 = (yoe + 1) % 100;
    assert(y + 1 == (100 * era + s4) * 4 + t4) by (nonlinear_arith)
        requires y == 400 * era + yoe, yoe + 1 == 4 * s4 + t4;
    lemma_fundamental_div_mod_converse(y + 1, 4, 100 * era + s4, t4);
    assert(y + 1 == (4 * era + s100) * 100 + t100) by (nonlinear_arith)
        requires y == 400 * era + yoe, yoe + 1 == 100 * s100 + t100;
    lemma_fundamental_div_mod_converse(y + 1, 100, 4 * era + s100, t100);
}

/// Mid-month: the next day's number is one higher.
proof fn lemma_succ_same_month(a: DaylogDate, b: DaylogDate)
    requires
        a.wf(),
        b.year == a.year,
        b.month == a.month,
        b.day == a.day + 1,
    ensures
        b.spec_day_number() == a.spec_day_number() + 1,
{
}

/// Month end (January through November): the first of the next month has
/// the next day number.
proof fn lemma_succ_next_month(a: DaylogDate, b: DaylogDate)
    requires
        a.wf(),
        a.month < 12,
        a.day == spec_days_in_month(a.year as int, a.month as int),
        b.year == a.year,
        b.month == a.month + 1,
        b.day == 1,
    ensures
        b.spec_day_number() == a.spec_day_number() + 1,
{
    if a.month == 2 {
        // the shifted year steps from a.year - 1 to a.year
        let y0 = a.year - 1;
        lemma_shifted_total_step(y0);
        lemma_mod_chain(a.year as int);
        assert(spec_days_in_month(a.year as int, 2) == if is_leap_year(a.year as int) {
            29int
        } else {
            28int
        });
    } else {
        // same shifted year; the day-of-year offsets are fixed numbers
        assert(b.spec_day_number() == a.spec_day_number() + 1);
    }
}

/// December 31: January 1 of the next year has the next day number.
proof fn lemma_succ_next_year(a: DaylogDate, b: DaylogDate)
    requires
        a.wf(),
        a.month == 12,
        a.day == 31,
        b.year == a.year + 1,
        b.month == 1,
        b.day == 1,
    ensures
        b.spec_day_number() == a.spec_day_number() + 1,
{
    // both dates sit in the same shifted year
}

} // verus!
