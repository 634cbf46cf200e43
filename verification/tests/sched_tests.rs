use daylog::date::DaylogDate;
use daylog::sched::{ReferenceClock, advance_after, wait_millis};
use daylog::time::{DaylogTime, SecondsTime, SleepTime};

fn clock(y: i32, mo: u8, d: u8, h: u8, mi: u8) -> ReferenceClock {
    ReferenceClock { date: DaylogDate::new(y, mo, d), time: DaylogTime::new(h, mi) }
}

#[test]
fn test_advance_mid_day() {
    let c = clock(2020, 1, 1, 10, 0);
    let r = advance_after(c, SleepTime::Today(DaylogTime::new(10, 30)));
    assert_eq!(r, clock(2020, 1, 1, 10, 31));
}

#[test]
fn test_advance_rolls_midnight() {
    let c = clock(2020, 1, 1, 23, 0);
    let r = advance_after(c, SleepTime::Today(DaylogTime::new(23, 59)));
    assert_eq!(r, clock(2020, 1, 2, 0, 0));
}

#[test]
fn test_advance_tomorrow() {
    let c = clock(2020, 1, 1, 23, 0);
    let r = advance_after(c, SleepTime::Tomorrow(DaylogTime::new(0, 5)));
    assert_eq!(r, clock(2020, 1, 2, 0, 6));
    // a tomorrow target at the last minute of its day rolls two days on
    let r2 = advance_after(c, SleepTime::Tomorrow(DaylogTime::new(23, 59)));
    assert_eq!(r2, clock(2020, 1, 3, 0, 0));
}

#[test]
fn test_reference_clock_deterministic_advance() {
    // with a target due at the reference minute each iteration, N
    // iterations advance the clock by exactly N minutes, however long
    // the work in between takes
    let seed = clock(2020, 2, 28, 23, 57);
    let mut c = seed;
    for _ in 0..5 {
        c = advance_after(c, SleepTime::Today(c.time));
    }
    assert_eq!(c, clock(2020, 2, 29, 0, 2));
}

#[test]
fn test_wait_millis() {
    assert_eq!(
        wait_millis(SleepTime::Today(DaylogTime::new(10, 0)), SecondsTime::from_hms(10, 0, 56)),
        None
    );
    assert_eq!(
        wait_millis(SleepTime::Today(DaylogTime::new(10, 1)), SecondsTime::from_hms(10, 0, 30)),
        Some(30 * 1000)
    );
    assert_eq!(
        wait_millis(SleepTime::Tomorrow(DaylogTime::new(0, 0)), SecondsTime::from_hms(23, 59, 59)),
        Some(1000)
    );
}
