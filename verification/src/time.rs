//! Minute-resolution wall-clock times and the wake-target ordering.

use vstd::prelude::*;
use vstd::std_specs::cmp::PartialOrdSpec;
use crate::digits::{
    spec_two_digits,
    push_two_digits,
    spec_parse_u8,
    parse_u8,
    all_digits,
    digits_val,
    lemma_digit_char_is_digit,
    digit_val,
};
use crate::text::{spec_first_index_of, find_char, lemma_first_index_at};

verus! {

/// Why a `"HH:MM"` string was rejected.
#[derive(Debug, Clone, Copy, PartialEq, Eq, Structural)]
pub enum FormatError {
    /// The text before the first colon is not an unsigned number.
    BadHour,
    /// The hour is numeric but above 23.
    HourOutOfRange,
    /// There is no colon, so no minute field at all.
    MissingMinute,
    /// The text after the first colon is not an unsigned number.
    BadMinute,
    /// The minute is numeric but above 59.
    MinuteOutOfRange,
}

/// A wall-clock time with second resolution, counted as seconds since
/// the start of the day. The scheduler compares its minute-resolution
/// targets against second-resolution readings of a clock.
#[derive(Debug, Clone, Copy, PartialEq, Eq, Structural)]
pub struct SecondsTime {
    pub secs: u32,
}

impl SecondsTime {
    /// A valid value lies strictly below 24 hours.
    pub open spec fn wf(self) -> bool {
        self.secs < 86400
    }

    pub fn from_hms(hour: u32, minute: u32, second: u32) -> (r: Self)
        requires
            hour < 24,
            minute < 60,
            second < 60,
        ensures
            r.secs == hour * 3600 + minute * 60 + second,
            r.wf(),
    {
        Self { secs: hour * 3600 + minute * 60 + second }
    }
}

/// A wall-clock time with minute resolution, `00:00` through `23:59`.
#[derive(Debug, Clone, Copy, PartialEq, Eq, Structural)]
pub struct DaylogTime {
    pub hour: u8,
    pub minute: u8,
}

impl DaylogTime {
    /// A valid time has an hour below 24 and a minute below 60.
    pub open spec fn wf(self) -> bool {
        self.hour < 24 && self.minute < 60
    }

    /// The number of minutes since the start of the day.
    pub open spec fn spec_minutes(self) -> int {
        self.hour * 60 + self.minute
    }

    pub open spec fn spec_hour(self) -> u8 {
        self.hour
    }

    pub open spec fn spec_minute(self) -> u8 {
        self.minute
    }

    pub fn new(hour: u8, minute: u8) -> (r: Self)
        requires
            hour < 24,
            minute < 60,
        ensures
            r == (DaylogTime { hour, minute }),
    {
        Self { hour, minute }
    }

    pub fn hour(&self) -> (r: u8)
        ensures
            r == self.hour,
    {
        self.hour
    }

    pub fn minute(&self) -> (r: u8)
        ensures
            r == self.minute,
    {
        self.minute
    }

    /// Midnight, the first minute of a day.
    pub fn zero() -> (r: Self)
        ensures
            r == (DaylogTime { hour: 0u8, minute: 0u8 }),
    {
        Self { hour: 0, minute: 0 }
    }

    /// The next minute, structurally.
    pub open spec fn spec_succ(self) -> Self {
        if self.minute < 59 {
            DaylogTime { hour: self.hour, minute: (self.minute + 1) as u8 }
        } else if self.hour < 23 {
            DaylogTime { hour: (self.hour + 1) as u8, minute: 0 }
        } else {
            DaylogTime { hour: 0, minute: 0 }
        }
    }

    /// The next minute, wrapping from `23:59` around to `00:00`.
    pub fn succ(self) -> (r: Self)
        requires
            self.wf(),
        ensures
            r == self.spec_succ(),
            r.wf(),
            r.spec_minutes() == if self.spec_minutes() == 1439 {
                0int
            } else {
                self.spec_minutes() + 1
            },
            (r == DaylogTime { hour: 0u8, minute: 0u8 }) <==> self.spec_minutes() == 1439,
    {
        let mut minute = self.minute;
        let mut hour = self.hour;
        minute += 1;
        if minute == 60 {
            hour += 1;
            minute = 0;
            if hour == 24 {
                hour = 0;
            }
        }
        Self { hour, minute }
    }

    /// This time of day at second resolution, seconds set to zero.
    pub fn as_naivetime(self) -> (r: SecondsTime)
        requires
            self.wf(),
        ensures
            r.secs == self.spec_minutes() * 60,
            r.wf(),
    {
        SecondsTime { secs: self.hour as u32 * 3600 + self.minute as u32 * 60 }
    }

    /// The minute that a second-resolution time falls in; seconds are
    /// discarded.
    pub fn from_naivetime(t: SecondsTime) -> (r: Self)
        requires
            t.wf(),
        ensures
            r.wf(),
            r.spec_minutes() == t.secs / 60,
    {
        Self { hour: (t.secs / 3600) as u8, minute: ((t.secs / 60) % 60) as u8 }
    }

    /// Signed seconds from an earlier (second-resolution) reading to this
    /// time, negative when this time is already past.
    pub fn duration_from(self, earlier_time: SecondsTime) -> (r: i64)
        requires
            self.wf(),
            earlier_time.wf(),
        ensures
            r == self.spec_minutes() * 60 - earlier_time.secs,
    {
        self.as_naivetime().secs as i64 - earlier_time.secs as i64
    }

    /// Seconds from midnight to this time.
    pub fn duration_since_start_of_day(self) -> (r: i64)
        requires
            self.wf(),
        ensures
            r == self.spec_minutes() * 60,
    {
        self.hour as i64 * 3600 + self.minute as i64 * 60
    }

    /// The canonical `"HH:MM"` rendering of this time.
    pub open spec fn spec_format(self) -> Seq<char> {
        spec_two_digits(self.hour as int) + seq![':'] + spec_two_digits(self.minute as int)
    }

    /// Render as `"HH:MM"`, zero padded.
    pub fn format(&self) -> (r: String)
        requires
            self.wf(),
        ensures
            r@ == self.spec_format(),
    {
        let mut out = String::new();
        push_two_digits(&mut out, self.hour);
        out.append(":");
        push_two_digits(&mut out, self.minute);
        proof {
            reveal_strlit(":");
            assert(out@ =~= self.spec_format());
        }
        out
    }

    /// The order on times of day: by hour, then by minute.
    pub open spec fn spec_lt(self, other: Self) -> bool {
        self.spec_minutes() < other.spec_minutes()
    }

    /// What `parse` accepts and returns: the text before the first colon
    /// read as the hour, the text after it as the minute, each an
    /// unsigned number in range; each failure has its own error.
    pub open spec fn spec_parse(s: Seq<char>) -> Result<DaylogTime, FormatError> {
        let i = spec_first_index_of(s, ':');
        match spec_parse_u8(s.subrange(0, i)) {
            Option::None => Err(FormatError::BadHour),
            Option::Some(h) => if h > 23 {
                Err(FormatError::HourOutOfRange)
            } else if i >= s.len() {
                Err(FormatError::MissingMinute)
            } else {
                match spec_parse_u8(s.subrange(i + 1, s.len() as int)) {
                    Option::None => Err(FormatError::BadMinute),
                    Option::Some(m) => if m > 59 {
                        Err(FormatError::MinuteOutOfRange)
                    } else {
                        Ok(DaylogTime { hour: h, minute: m })
                    },
                }
            },
        }
    }

    /// Read a time of day from `"HH:MM"` text. The hour is everything
    /// before the first colon, the minute everything after it.
    pub fn parse(s: &str) -> (r: Result<Self, FormatError>)
        ensures
            r == Self::spec_parse(s@),
            r matches Ok(t) ==> t.wf(),
    {
        let len = s.unicode_len();
        let colon = find_char(s, ':');
        let hstr = match colon {
            Option::Some(i) => s.substring_char(0, i),
            Option::None => s.substring_char(0, len),
        };
        proof {
            if colon is None {
                assert(s@.subrange(0, s@.len() as int) =~= s@);
            }
        }
        let hour = match parse_u8(hstr) {
            Option::Some(h) => h,
            Option::None => {
                return Err(FormatError::BadHour);
            }
        };
        if hour > 23 {
            return Err(FormatError::HourOutOfRange);
        }
        let i = match colon {
            Option::Some(i) => i,
            Option::None => {
                return Err(FormatError::MissingMinute);
            }
        };
        let mstr = s.substring_char(i + 1, len);
        let minute = match parse_u8(mstr) {
            Option::Some(m) => m,
            Option::None => {
                return Err(FormatError::BadMinute);
            }
        };
        if minute > 59 {
            return Err(FormatError::MinuteOutOfRange);
        }
        Ok(Self { hour, minute })
    }
}

/// Parsing a rendered time gives the time back: `parse(format(t))`
/// returns `Ok(t)` for every valid time of day.
pub proof fn lemma_parse_format_roundtrip(t: DaylogTime)
    requires
        t.wf(),
    ensures
        DaylogTime::spec_parse(t.spec_format()) == Ok::<DaylogTime, FormatError>(t),
{
    let s = t.spec_format();
    let h = t.hour as int;
    let m = t.minute as int;
    lemma_digit_char_is_digit(h / 10);
    lemma_digit_char_is_digit(h % 10);
    lemma_digit_char_is_digit(m / 10);
    lemma_digit_char_is_digit(m % 10);
    assert(s.len() == 5);
    assert(s[2] == ':');
    lemma_first_index_at(s, ':', 2);
    let hpart = s.subrange(0, 2);
    assert(hpart =~= spec_two_digits(h));
    lemma_parse_two_digits(h);
    assert(spec_parse_u8(hpart) == Some((h as u8)));
    let mpart = s.subrange(3, 5);
    assert(mpart =~= spec_two_digits(m));
    lemma_parse_two_digits(m);
    assert(spec_parse_u8(mpart) == Some((m as u8)));
}

/// A zero-padded two-digit rendering of a value below 100 reads back as
/// that value.
proof fn lemma_parse_two_digits(v: int)
    requires
        0 <= v < 100,
    ensures
        spec_parse_u8(spec_two_digits(v)) == Some((v as u8)),
{
    let s = spec_two_digits(v);
    lemma_digit_char_is_digit(v / 10);
    lemma_digit_char_is_digit(v % 10);
    assert(s.len() == 2);
    assert(s[0] != '+');
    assert(all_digits(s));
    assert(s.drop_last() =~= seq![s[0]]);
    assert(seq![s[0]].drop_last() =~= Seq::<char>::empty());
    assert(digits_val(Seq::<char>::empty()) == 0);
    assert(seq![s[0]].last() == s[0]);
    assert(digits_val(seq![s[0]]) == digits_val(seq![s[0]].drop_last()) * 10 + digit_val(
        seq![s[0]].last(),
    ));
    assert(digits_val(seq![s[0]]) == v / 10);
    assert(digits_val(s) == (v / 10) * 10 + v % 10);
    assert((v / 10) * 10 + v % 10 == v) by (nonlinear_arith)
        requires 0 <= v < 100;
}

impl PartialOrd for DaylogTime {
    fn partial_cmp(&self, other: &DaylogTime) -> (r: Option<core::cmp::Ordering>)
    {
        if self.hour < other.hour {
            Some(core::cmp::Ordering::Less)
        } else if self.hour > other.hour {
            Some(core::cmp::Ordering::Greater)
        } else if self.minute < other.minute {
            Some(core::cmp::Ordering::Less)
        } else if self.minute > other.minute {
            Some(core::cmp::Ordering::Greater)
        } else {
            Some(core::cmp::Ordering::Equal)
        }
    }
}

impl vstd::std_specs::cmp::PartialOrdSpecImpl for DaylogTime {
    open spec fn obeys_partial_cmp_spec() -> bool {
        true
    }

    open spec fn partial_cmp_spec(&self, other: &DaylogTime) -> Option<core::cmp::Ordering> {
        if self.hour < other.hour {
            Some(core::cmp::Ordering::Less)
        } else if self.hour > other.hour {
            Some(core::cmp::Ordering::Greater)
        } else if self.minute < other.minute {
            Some(core::cmp::Ordering::Less)
        } else if self.minute > other.minute {
            Some(core::cmp::Ordering::Greater)
        } else {
            Some(core::cmp::Ordering::Equal)
        }
    }
}

/// For valid times, the field-by-field comparison that `<` performs
/// agrees with the order by minutes since midnight.
pub proof fn lemma_time_cmp_agrees(a: DaylogTime, b: DaylogTime)
    requires
        a.wf(),
        b.wf(),
    ensures
        PartialOrdSpec::partial_cmp_spec(&a, &b) == Some(core::cmp::Ordering::Less) <==> a.spec_lt(b),
        PartialOrdSpec::partial_cmp_spec(&a, &b) == Some(core::cmp::Ordering::Equal) <==> a == b,
{
}

/// A wake target: the next wall-clock minute to act at, on the current
/// day or on the following one.
#[derive(Debug, Clone, Copy, PartialEq, Eq, Structural)]
pub enum SleepTime {
    Tomorrow(DaylogTime),
    Today(DaylogTime),
}

impl SleepTime {
    pub open spec fn wf(self) -> bool {
        match self {
            SleepTime::Today(t) => t.wf(),
            SleepTime::Tomorrow(t) => t.wf(),
        }
    }

    /// The contained time of day.
    pub open spec fn spec_time(self) -> DaylogTime {
        match self {
            SleepTime::Today(t) => t,
            SleepTime::Tomorrow(t) => t,
        }
    }

    /// Minutes from the start of the current day to this target; a
    /// tomorrow target lies one whole day further out.
    pub open spec fn spec_minutes(self) -> int {
        match self {
            SleepTime::Today(t) => t.spec_minutes(),
            SleepTime::Tomorrow(t) => 1440 + t.spec_minutes(),
        }
    }

    /// The order on wake targets: every today target comes before every
    /// tomorrow target; within a day, by time of day.
    pub open spec fn spec_lt(self, other: Self) -> bool {
        self.spec_minutes() < other.spec_minutes()
    }

    /// Signed seconds from an earlier (second-resolution) reading of the
    /// current day's clock to this target; negative when a today target
    /// is already past.
    pub fn duration_from(self, earlier_time: SecondsTime) -> (r: i64)
        requires
            self.wf(),
            earlier_time.wf(),
        ensures
            r == self.spec_minutes() * 60 - earlier_time.secs,
    {
        match self {
            SleepTime::Tomorrow(time) => {
                86400i64 - earlier_time.secs as i64 + time.duration_since_start_of_day()
            }
            SleepTime::Today(time) => time.duration_from(earlier_time),
        }
    }
}

impl PartialOrd for SleepTime {
    fn partial_cmp(&self, other: &SleepTime) -> (r: Option<core::cmp::Ordering>)
    {
        match (self, other) {
            (SleepTime::Today(a), SleepTime::Today(b)) => a.partial_cmp(b),
            (SleepTime::Tomorrow(a), SleepTime::Tomorrow(b)) => a.partial_cmp(b),
            (SleepTime::Tomorrow(_), SleepTime::Today(_)) => Some(core::cmp::Ordering::Greater),
            (SleepTime::Today(_), SleepTime::Tomorrow(_)) => Some(core::cmp::Ordering::Less),
        }
    }
}

impl vstd::std_specs::cmp::PartialOrdSpecImpl for SleepTime {
    open spec fn obeys_partial_cmp_spec() -> bool {
        true
    }

    open spec fn partial_cmp_spec(&self, other: &SleepTime) -> Option<core::cmp::Ordering> {
        match (self, other) {
            (SleepTime::Today(a), SleepTime::Today(b)) => PartialOrdSpec::partial_cmp_spec(a, b),
            (SleepTime::Tomorrow(a), SleepTime::Tomorrow(b)) => PartialOrdSpec::partial_cmp_spec(a, b),
            (SleepTime::Tomorrow(_), SleepTime::Today(_)) => Some(core::cmp::Ordering::Greater),
            (SleepTime::Today(_), SleepTime::Tomorrow(_)) => Some(core::cmp::Ordering::Less),
        }
    }
}

/// The wake-target order is total: today targets come before tomorrow
/// targets, and within a day targets order exactly as their times do.
/// It is irreflexive, transitive, and any two distinct targets are
/// ordered one way or the other.
pub proof fn lemma_sleep_time_total_order(a: SleepTime, b: SleepTime, c: SleepTime)
    requires
        a.wf(),
        b.wf(),
        c.wf(),
    ensures
        a is Today && b is Tomorrow ==> a.spec_lt(b),
        a is Today && b is Today ==> (a.spec_lt(b) <==> a.spec_time().spec_lt(b.spec_time())),
        a is Tomorrow && b is Tomorrow ==> (a.spec_lt(b) <==> a.spec_time().spec_lt(
            b.spec_time(),
        )),
        !a.spec_lt(a),
        a.spec_lt(b) && b.spec_lt(c) ==> a.spec_lt(c),
        a.spec_lt(b) || b.spec_lt(a) || a.spec_minutes() == b.spec_minutes(),
{
    match (a, b) {
        (SleepTime::Today(x), SleepTime::Tomorrow(y)) => {
            assert(x.spec_minutes() <= 1439);
            assert(b.spec_minutes() >= 1440);
        }
        _ => {}
    }
}

} // verus!
