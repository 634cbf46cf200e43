//! Timezone projection: turning a local wall-clock reading in an IANA
//! zone into a UTC instant, and resolving daylight-saving skips.
//!
//! The zone database itself lives in an outside crate; the library
//! reaches it through two trusted wrappers and does the rest — the
//! skip-retry rule and the today/tomorrow decision — in verified code.

use vstd::prelude::*;
use chrono::{Datelike, Timelike, TimeZone};
use crate::date::DaylogDate;
use crate::time::{DaylogTime, SleepTime};

verus! {

/// What the zone database answers for one local wall-clock reading:
/// the zone name may be unknown, the local time may not exist (a
/// daylight-saving skip), or it maps to a UTC instant, given here by
/// its raw calendar fields.
#[derive(Debug, Clone, Copy, PartialEq, Eq, Structural)]
pub enum TzLookup {
    UnknownZone,
    Missing,
    Utc { year: i32, month: u8, day: u8, hour: u8, minute: u8 },
}

/// The UTC instant that a zone's rules assign to one local wall-clock
/// reading; for a local time that a fall-back transition makes
/// ambiguous, the later of its two UTC instants.
pub uninterp spec fn tz_local_utc(
    tz: Seq<char>,
    year: int,
    month: int,
    day: int,
    hour: int,
    minute: int,
) -> TzLookup;

/// Whether a zone name is in the IANA database.
pub uninterp spec fn tz_known(tz: Seq<char>) -> bool;

/// Relies on chrono_tz's zone parser and chrono's
/// `TimeZone::from_local_datetime`: the answer is a function of the
/// zone's compiled rules and the given fields alone. An ambiguous local
/// time (daylight-saving fold) resolves to the later of its two UTC
/// instants, as `LocalResult::latest` picks it.
#[verifier::external_body]
fn lookup_local(tz_name: &str, date: DaylogDate, time: DaylogTime) -> (r: TzLookup)
    requires
        date.wf(),
        time.wf(),
    ensures
        r == tz_local_utc(
            tz_name@,
            date.year as int,
            date.month as int,
            date.day as int,
            time.hour as int,
            time.minute as int,
        ),
        r !is UnknownZone <==> tz_known(tz_name@),
{
    let tz: chrono_tz::Tz = match tz_name.parse() {
        Ok(t) => t,
        Err(_) => return TzLookup::UnknownZone,
    };
    let local = chrono::NaiveDate::from_ymd_opt(date.year, date.month as u32, date.day as u32)
        .unwrap().and_hms_opt(time.hour as u32, time.minute as u32, 0).unwrap();
    match tz.from_local_datetime(&local).latest() {
        None => TzLookup::Missing,
        Some(dt) => {
            let u = dt.naive_utc();
            TzLookup::Utc { year: u.date().year(), month: u.date().month() as u8, day: u.date().day() as u8, hour: u.time().hour() as u8, minute: u.time().minute() as u8 }
        }
    }
}

/// Relies on chrono_tz's zone parser: whether a name denotes a zone in
/// the IANA database, a property of the name alone.
#[verifier::external_body]
pub fn tz_exists(tz_name: &str) -> (r: bool)
    ensures
        r == tz_known(tz_name@),
{
    tz_name.parse::<chrono_tz::Tz>().is_ok()
}

/// One adjusted lookup, as a value: the UTC reading for `date @ time`
/// in the zone, after the skip rule. A local time that does not exist
/// is retried one hour later (rolling into the next day if need be);
/// an unknown zone, a second miss, or a result outside the supported
/// calendar range gives nothing.
pub open spec fn spec_adjust(tz: Seq<char>, date: DaylogDate, time: DaylogTime) -> Option<
    (DaylogDate, DaylogTime),
> {
    match tz_local_utc(
        tz,
        date.year as int,
        date.month as int,
        date.day as int,
        time.hour as int,
        time.minute as int,
    ) {
        TzLookup::UnknownZone => None,
        TzLookup::Utc { year, month, day, hour, minute } => checked_utc(
            year,
            month,
            day,
            hour,
            minute,
        ),
        TzLookup::Missing => {
            let (d2, t2) = spec_hour_later(date, time);
            match tz_local_utc(
                tz,
                d2.year as int,
                d2.month as int,
                d2.day as int,
                t2.hour as int,
                t2.minute as int,
            ) {
                TzLookup::Utc { year, month, day, hour, minute } => checked_utc(
                    year,
                    month,
                    day,
                    hour,
                    minute,
                ),
                _ => None,
            }
        },
    }
}

/// Raw UTC fields from a lookup, kept only when they form a valid date
/// and time of day.
pub open spec fn checked_utc(year: i32, month: u8, day: u8, hour: u8, minute: u8) -> Option<
    (DaylogDate, DaylogTime),
> {
    let d = DaylogDate { year, month, day };
    let t = DaylogTime { hour, minute };
    if d.wf() && t.wf() {
        Some((d, t))
    } else {
        None
    }
}

/// The local reading one hour later, rolling into the next day after
/// 23:xx; at the very end of the supported calendar the reading is left
/// unmoved, and the retried lookup simply fails there.
pub open spec fn spec_hour_later(date: DaylogDate, time: DaylogTime) -> (DaylogDate, DaylogTime) {
    if time.hour < 23 {
        (date, DaylogTime { hour: (time.hour + 1) as u8, minute: time.minute })
    } else if !date.is_max() {
        (date.spec_succ(), DaylogTime { hour: 0, minute: time.minute })
    } else {
        (date, time)
    }
}

/// The wake target for one local send time: project it onto the current
/// UTC day; if the projected instant's time of day has not yet passed,
/// wake today at that (UTC) time, else project onto the next UTC day
/// and wake tomorrow.
pub open spec fn spec_apply_timezone(
    tz: Seq<char>,
    send_time: DaylogTime,
    now_date: DaylogDate,
    now_time: DaylogTime,
) -> Option<SleepTime> {
    match spec_adjust(tz, now_date, send_time) {
        None => None,
        Some((ud, ut)) => {
            if ut.spec_minutes() >= now_time.spec_minutes() {
                Some(SleepTime::Today(ut))
            } else if now_date.is_max() {
                None
            } else {
                match spec_adjust(tz, now_date.spec_succ(), send_time) {
                    None => None,
                    Some((ud2, ut2)) => Some(SleepTime::Tomorrow(ut2)),
                }
            }
        },
    }
}

impl DaylogTime {
    /// Project this local send time through a timezone: the next wake
    /// target at or after the given UTC reference instant. A skipped
    /// local time is retried one hour later; an ambiguous one takes the
    /// later instant (inside the lookup); nothing is returned for an
    /// unknown zone or a failed retry.
    pub fn apply_timezone(
        self,
        utc_now_date: DaylogDate,
        utc_now_time: DaylogTime,
        tz: &str,
    ) -> (r: Option<SleepTime>)
        requires
            self.wf(),
            utc_now_date.wf(),
            utc_now_time.wf(),
        ensures
            r == spec_apply_timezone(tz@, self, utc_now_date, utc_now_time),
            r matches Some(st) ==> st.wf(),
            r matches Some(SleepTime::Today(t)) ==> t.spec_minutes()
                >= utc_now_time.spec_minutes(),
    {
        let today = match adjust(tz, utc_now_date, self) {
            Some(x) => x,
            None => {
                return None;
            }
        };
        if today.1.hour > utc_now_time.hour || (today.1.hour == utc_now_time.hour
            && today.1.minute >= utc_now_time.minute) {
            Some(SleepTime::Today(today.1))
        } else if utc_now_date.year == 9999 && utc_now_date.month == 12 && utc_now_date.day == 31 {
            None
        } else {
            let tomorrow = utc_now_date.succ();
            match adjust(tz, tomorrow, self) {
                Some(x) => Some(SleepTime::Tomorrow(x.1)),
                None => None,
            }
        }
    }
}

/// Relies on chrono's `Utc::now` and `DateTime::with_timezone`: the
/// current calendar date in the zone, as raw fields; nothing for an
/// unknown zone name. Nothing is promised of the value.
#[verifier::external_body]
fn today_fields(tz_name: &str) -> (r: Option<(i32, u8, u8)>) {
    let tz: chrono_tz::Tz = match tz_name.parse() {
        Ok(t) => t,
        Err(_) => return None,
    };
    let d = chrono::Utc::now().with_timezone(&tz).date_naive();
    Some((d.year(), d.month() as u8, d.day() as u8))
}

/// Today's calendar date in a zone, read from the real clock; nothing
/// for an unknown zone or a date outside the supported calendar.
pub fn todays_date(tz_name: &str) -> (r: Option<DaylogDate>)
    ensures
        r matches Some(d) ==> d.wf(),
{
    match today_fields(tz_name) {
        None => None,
        Some((y, m, d)) => DaylogDate::from_ymd(y, m, d),
    }
}

/// Relies on chrono's `Utc::now`: the current UTC date and time as raw
/// fields. Nothing is promised of the value.
#[verifier::external_body]
fn utc_now_fields() -> (r: (i32, u8, u8, u8, u8)) {
    let now = chrono::Utc::now().naive_utc();
    (
        now.date().year(),
        now.date().month() as u8,
        now.date().day() as u8,
        now.time().hour() as u8,
        now.time().minute() as u8,
    )
}

impl DaylogTime {
    /// The real clock, read once at startup: the current UTC date and
    /// minute; nothing when the clock is outside the supported
    /// calendar.
    pub fn now() -> (r: Option<(DaylogDate, DaylogTime)>)
        ensures
            r matches Some((d, t)) ==> d.wf() && t.wf(),
    {
        let (y, mo, d, h, mi) = utc_now_fields();
        match DaylogDate::from_ymd(y, mo, d) {
            None => None,
            Some(date) => {
                if h < 24 && mi < 60 {
                    Some((date, DaylogTime { hour: h, minute: mi }))
                } else {
                    None
                }
            }
        }
    }
}

/// One adjusted lookup: `spec_adjust`, executed.
fn adjust(tz: &str, date: DaylogDate, time: DaylogTime) -> (r: Option<(DaylogDate, DaylogTime)>)
    requires
        date.wf(),
        time.wf(),
    ensures
        r == spec_adjust(tz@, date, time),
        r matches Some((d, t)) ==> d.wf() && t.wf(),
{
    match lookup_local(tz, date, time) {
        TzLookup::UnknownZone => None,
        TzLookup::Utc { year, month, day, hour, minute } => {
            check_utc(year, month, day, hour, minute)
        }
        TzLookup::Missing => {
            let (d2, t2) = hour_later(date, time);
            match lookup_local(tz, d2, t2) {
                TzLookup::Utc { year, month, day, hour, minute } => {
                    check_utc(year, month, day, hour, minute)
                }
                _ => None,
            }
        }
    }
}

/// `checked_utc`, executed.
fn check_utc(year: i32, month: u8, day: u8, hour: u8, minute: u8) -> (r: Option<
    (DaylogDate, DaylogTime),
>)
    ensures
        r == checked_utc(year, month, day, hour, minute),
        r matches Some((d, t)) ==> d.wf() && t.wf(),
{
    let d = DaylogDate { year, month, day };
    let t = DaylogTime { hour, minute };
    if d.is_valid() && hour < 24 && minute < 60 {
        Some((d, t))
    } else {
        None
    }
}

/// `spec_hour_later`, executed.
fn hour_later(date: DaylogDate, time: DaylogTime) -> (r: (DaylogDate, DaylogTime))
    requires
        date.wf(),
        time.wf(),
    ensures
        r == spec_hour_later(date, time),
        r.0.wf(),
        r.1.wf(),
{
    if time.hour < 23 {
        (date, DaylogTime { hour: time.hour + 1, minute: time.minute })
    } else if !(date.year == 9999 && date.month == 12 && date.day == 31) {
        (date.succ(), DaylogTime { hour: 0, minute: time.minute })
    } else {
        (date, time)
    }
}

} // verus!
