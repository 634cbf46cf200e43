//! Users and the per-tick cohort selection: who is due next, and when.

use vstd::prelude::*;
use crate::date::DaylogDate;
use crate::time::{DaylogTime, FormatError, SleepTime};
use crate::tz::{tz_known, tz_exists, spec_apply_timezone};

verus! {

/// A user row as storage hands it over: plain text fields, not yet
/// validated.
#[derive(Debug, Clone)]
pub struct UserRaw {
    pub id: Option<i64>,
    pub username: String,
    pub email: String,
    pub timezone: String,
    pub email_time_local: String,
}

/// A validated user: the timezone names a zone in the IANA database and
/// the send time is a real time of day.
#[derive(Debug, Clone)]
pub struct User {
    pub username: String,
    pub email: String,
    pub timezone: String,
    pub email_time_local: DaylogTime,
}

/// Why a raw user row was rejected.
#[derive(Debug, Clone, Copy, PartialEq, Eq, Structural)]
pub enum UserError {
    /// The timezone field names no zone in the IANA database.
    UnknownTimezone,
    /// The send-time field is not a valid `"HH:MM"` string.
    BadSendTime(FormatError),
}

impl User {
    pub open spec fn wf(self) -> bool {
        tz_known(self.timezone@) && self.email_time_local.wf()
    }

    /// What validation yields for a raw row: the row's fields, with the
    /// send time parsed; an unknown timezone is reported before a bad
    /// send time.
    pub open spec fn spec_try_from(raw: UserRaw) -> Result<User, UserError> {
        if !tz_known(raw.timezone@) {
            Err(UserError::UnknownTimezone)
        } else {
            match DaylogTime::spec_parse(raw.email_time_local@) {
                Err(e) => Err(UserError::BadSendTime(e)),
                Ok(t) => Ok(
                    User {
                        username: raw.username,
                        email: raw.email,
                        timezone: raw.timezone,
                        email_time_local: t,
                    },
                ),
            }
        }
    }

    /// Validate a raw storage row into a user.
    pub fn try_from(raw: UserRaw) -> (r: Result<User, UserError>)
        ensures
            r == Self::spec_try_from(raw),
            r matches Ok(u) ==> u.wf(),
    {
        if !tz_exists(raw.timezone.as_str()) {
            return Err(UserError::UnknownTimezone);
        }
        match DaylogTime::parse(raw.email_time_local.as_str()) {
            Err(e) => Err(UserError::BadSendTime(e)),
            Ok(t) => Ok(
                User {
                    username: raw.username,
                    email: raw.email,
                    timezone: raw.timezone,
                    email_time_local: t,
                },
            ),
        }
    }
}

/// The wake target one user resolves to at a UTC reference instant, if
/// the user's zone resolves at all.
pub open spec fn spec_resolve(u: User, date: DaylogDate, time: DaylogTime) -> Option<SleepTime> {
    spec_apply_timezone(u.timezone@, u.email_time_local, date, time)
}

/// The users of `s`, in order, whose wake target resolves exactly to
/// `st`.
pub open spec fn spec_cohort(s: Seq<User>, date: DaylogDate, time: DaylogTime, st: SleepTime) -> Seq<
    User,
>
    decreases s.len(),
{
    if s.len() == 0 {
        Seq::empty()
    } else {
        let prefix = spec_cohort(s.drop_last(), date, time, st);
        if spec_resolve(s.last(), date, time) == Some(st) {
            prefix.push(s.last())
        } else {
            prefix
        }
    }
}

/// The full user list, fetched fresh each tick.
pub struct Users {
    pub vec: Vec<User>,
}

impl Users {
    pub open spec fn wf(self) -> bool {
        forall|i: int| 0 <= i < self.vec.len() ==> (#[trigger] self.vec[i]).wf()
    }

    pub fn new(users: Vec<User>) -> (r: Self)
        ensures
            r.vec == users,
    {
        Self { vec: users }
    }

    /// The next cohort: resolve every user's send time against the
    /// reference instant, and return the least wake target together
    /// with every user that shares it, in list order. Nothing is
    /// returned when no user resolves — in particular on an empty
    /// list. A today target is never earlier than the reference time.
    pub fn next_from_time(&self, date: DaylogDate, time: DaylogTime) -> (r: Option<
        (SleepTime, Vec<User>),
    >)
        requires
            self.wf(),
            date.wf(),
            time.wf(),
        ensures
            r is None <==> (forall|i: int|
                0 <= i < self.vec.len() ==> spec_resolve(#[trigger] self.vec[i], date, time)
                    is None),
            r matches Some((st, cohort)) ==> {
                &&& st.wf()
                &&& exists|i: int|
                    0 <= i < self.vec.len() && spec_resolve(#[trigger] self.vec[i], date, time)
                        == Some(st)
                &&& forall|i: int|
                    0 <= i < self.vec.len() ==> match spec_resolve(
                        #[trigger] self.vec[i],
                        date,
                        time,
                    ) {
                        Some(x) => st.spec_minutes() <= x.spec_minutes(),
                        None => true,
                    }
                &&& cohort@ == spec_cohort(self.vec@, date, time, st)
                &&& st is Today ==> st.spec_time().spec_minutes() >= time.spec_minutes()
            },
    {
        let n = self.vec.len();
        let mut best: Option<SleepTime> = None;
        let mut i: usize = 0;
        while i < n
            invariant
                0 <= i <= n,
                n == self.vec.len(),
                self.wf(),
                date.wf(),
                time.wf(),
                best is None <==> (forall|j: int|
                    0 <= j < i ==> spec_resolve(#[trigger] self.vec[j], date, time) is None),
                best matches Some(b) ==> {
                    &&& b.wf()
                    &&& exists|j: int|
                        0 <= j < i && spec_resolve(#[trigger] self.vec[j], date, time) == Some(b)
                    &&& forall|j: int|
                        0 <= j < i ==> match spec_resolve(#[trigger] self.vec[j], date, time) {
                            Some(x) => b.spec_minutes() <= x.spec_minutes(),
                            None => true,
                        }
                    &&& b is Today ==> b.spec_time().spec_minutes() >= time.spec_minutes()
                },
            decreases n - i,
        {
            let u = &self.vec[i];
            let resolved = u.email_time_local.apply_timezone(date, time, u.timezone.as_str());
            if let Some(st) = resolved {
                match best {
                    None => {
                        best = Some(st);
                    }
                    Some(b) => {
                        if sleep_minutes(st) < sleep_minutes(b) {
                            best = Some(st);
                        }
                    }
                }
            }
            i = i + 1;
        }
        let st = match best {
            None => {
                return None;
            }
            Some(b) => b,
        };
        let mut cohort: Vec<User> = Vec::new();
        let mut i: usize = 0;
        while i < n
            invariant
                0 <= i <= n,
                n == self.vec.len(),
                self.wf(),
                date.wf(),
                time.wf(),
                st.wf(),
                cohort@ == spec_cohort(self.vec@.subrange(0, i as int), date, time, st),
            decreases n - i,
        {
            let u = &self.vec[i];
            let resolved = u.email_time_local.apply_timezone(date, time, u.timezone.as_str());
            let ghost prefix = self.vec@.subrange(0, i as int);
            let ghost cur = self.vec@.subrange(0, i + 1 as int);
            proof {
                assert(cur.drop_last() =~= prefix);
                assert(cur.last() == self.vec@[i as int]);
            }
            if let Some(x) = resolved {
                if sleep_minutes(x) == sleep_minutes(st) && sleep_eq(x, st) {
                    cohort.push(u.clone_user());
                }
            }
            i = i + 1;
        }
        proof {
            assert(self.vec@.subrange(0, n as int) =~= self.vec@);
        }
        Some((st, cohort))
    }
}

/// A one-user schedule is that user's own: when a single user's send
/// time resolves to a target, the cohort at that target is exactly that
/// user.
pub proof fn lemma_single_user_cohort(u: User, date: DaylogDate, time: DaylogTime, st: SleepTime)
    requires
        spec_resolve(u, date, time) == Some(st),
    ensures
        spec_cohort(seq![u], date, time, st) == seq![u],
{
    assert(seq![u].drop_last() =~= Seq::<User>::empty());
    assert(spec_cohort(Seq::<User>::empty(), date, time, st) == Seq::<User>::empty());
    assert(seq![u].last() == u);
    assert(spec_cohort(seq![u], date, time, st) =~= seq![u]);
}

/// Minutes from the start of the current day to a wake target, as code.
fn sleep_minutes(st: SleepTime) -> (r: u32)
    requires
        st.wf(),
    ensures
        r == st.spec_minutes(),
{
    match st {
        SleepTime::Today(t) => t.hour as u32 * 60 + t.minute as u32,
        SleepTime::Tomorrow(t) => 1440 + t.hour as u32 * 60 + t.minute as u32,
    }
}

/// Structural equality of wake targets.
fn sleep_eq(a: SleepTime, b: SleepTime) -> (r: bool)
    ensures
        r == (a == b),
{
    match (a, b) {
        (SleepTime::Today(x), SleepTime::Today(y)) => x.hour == y.hour && x.minute == y.minute,
        (SleepTime::Tomorrow(x), SleepTime::Tomorrow(y)) => x.hour == y.hour && x.minute
            == y.minute,
        _ => false,
    }
}

impl User {
    /// A field-by-field copy.
    pub fn clone_user(&self) -> (r: User)
        ensures
            r == *self,
    {
        User {
            username: self.username.clone(),
            email: self.email.clone(),
            timezone: self.timezone.clone(),
            email_time_local: self.email_time_local,
        }
    }
}

} // verus!
