//! Composing a user's daily prompt mail. Reading the key, querying the
//! database and handing the text to the transport are I/O and happen
//! outside the library; everything the mail says is decided here.

use vstd::prelude::*;
use crate::date::DaylogDate;
use crate::digits::{spec_two_digits, spec_four_digits, digit_char, push_two_digits, push_four_digits, digit_str};
use crate::ingest::{spec_lines_from, split_lines};
use crate::user::User;

verus! {

/// Arguments of a single-user send.
#[derive(Debug, Clone)]
pub struct SendArgs {
    /// Username to send for.
    pub username: String,
    /// A different address to send to.
    pub email_override: Option<String>,
    /// Send the mail for this date instead of today.
    pub date_override: Option<String>,
    /// Print the mail instead of sending it.
    pub dry_run: bool,
}

/// How a send was requested: from the command line, or for a user the
/// scheduler already loaded.
pub enum Mode {
    Args(SendArgs),
    User(User),
}

/// A fully resolved send: who, where, for which date.
pub struct SendRequest {
    pub username: String,
    pub email: String,
    pub date: DaylogDate,
    pub dry_run: bool,
}

/// Why a send request could not be resolved.
#[derive(Debug, Clone, Copy, PartialEq, Eq, Structural)]
pub enum SendError {
    /// The named user is not in the database.
    NoSuchUser,
    /// The date override is not a valid `"YYYY-MM-DD"` date.
    BadDateOverride,
}

/// What resolving a send request yields. A scheduler-initiated send
/// uses the user's own name, address and today's date; a command-line
/// send looks the user up, honours the address and date overrides, and
/// rejects an unknown user or a malformed date.
pub open spec fn spec_resolve_send(mode: Mode, fetched: Option<User>, today: DaylogDate) -> Result<
    SendRequest,
    SendError,
> {
    match mode {
        Mode::User(u) => Ok(
            SendRequest { username: u.username, email: u.email, date: today, dry_run: false },
        ),
        Mode::Args(a) => match fetched {
            None => Err(SendError::NoSuchUser),
            Some(u) => {
                let email = match a.email_override {
                    Some(e) => e,
                    None => u.email,
                };
                match a.date_override {
                    Some(ds) => match crate::date::spec_parse_ymd(ds@) {
                        None => Err(SendError::BadDateOverride),
                        Some(d) => Ok(
                            SendRequest {
                                username: a.username,
                                email,
                                date: d,
                                dry_run: a.dry_run,
                            },
                        ),
                    },
                    None => Ok(
                        SendRequest {
                            username: a.username,
                            email,
                            date: today,
                            dry_run: a.dry_run,
                        },
                    ),
                }
            },
        },
    }
}

/// Resolve a send request against the looked-up user (needed only for
/// command-line sends) and the current date in the user's timezone.
pub fn resolve_send_request(mode: Mode, fetched: Option<User>, today: DaylogDate) -> (r: Result<
    SendRequest,
    SendError,
>)
    requires
        today.wf(),
    ensures
        r == spec_resolve_send(mode, fetched, today),
        r matches Ok(req) ==> req.date.wf(),
    {
    match mode {
        Mode::User(u) => Ok(
            SendRequest { username: u.username, email: u.email, date: today, dry_run: false },
        ),
        Mode::Args(a) => {
            let u = match fetched {
                None => {
                    return Err(SendError::NoSuchUser);
                }
                Some(u) => u,
            };
            let email = match a.email_override {
                Some(e) => e,
                None => u.email,
            };
            match a.date_override {
                Some(ds) => {
                    match crate::date::parse_ymd(ds.as_str()) {
                        None => Err(SendError::BadDateOverride),
                        Some(d) => Ok(
                            SendRequest {
                                username: a.username,
                                email,
                                date: d,
                                dry_run: a.dry_run,
                            },
                        ),
                    }
                }
                None => Ok(
                    SendRequest { username: a.username, email, date: today, dry_run: a.dry_run },
                ),
            }
        }
    }
}

/// The English name of a weekday, Sunday first.
pub open spec fn spec_weekday_name(w: int) -> Seq<char> {
    if w == 0 {
        "Sunday"@
    } else if w == 1 {
        "Monday"@
    } else if w == 2 {
        "Tuesday"@
    } else if w == 3 {
        "Wednesday"@
    } else if w == 4 {
        "Thursday"@
    } else if w == 5 {
        "Friday"@
    } else {
        "Saturday"@
    }
}

/// The name of a weekday, as code.
pub fn weekday_name(w: u8) -> (r: &'static str)
    requires
        w < 7,
    ensures
        r@ == spec_weekday_name(w as int),
{
    match w {
        0 => "Sunday",
        1 => "Monday",
        2 => "Tuesday",
        3 => "Wednesday",
        4 => "Thursday",
        5 => "Friday",
        _ => "Saturday",
    }
}

/// The English name of a month.
pub open spec fn spec_month_name(m: int) -> Seq<char> {
    if m == 1 {
        "January"@
    } else if m == 2 {
        "February"@
    } else if m == 3 {
        "March"@
    } else if m == 4 {
        "April"@
    } else if m == 5 {
        "May"@
    } else if m == 6 {
        "June"@
    } else if m == 7 {
        "July"@
    } else if m == 8 {
        "August"@
    } else if m == 9 {
        "September"@
    } else if m == 10 {
        "October"@
    } else if m == 11 {
        "November"@
    } else {
        "December"@
    }
}

/// The name of a month, as code.
pub fn month_name(m: u8) -> (r: &'static str)
    requires
        1 <= m <= 12,
    ensures
        r@ == spec_month_name(m as int),
{
    match m {
        1 => "January",
        2 => "February",
        3 => "March",
        4 => "April",
        5 => "May",
        6 => "June",
        7 => "July",
        8 => "August",
        9 => "September",
        10 => "October",
        11 => "November",
        _ => "December",
    }
}

/// A day of the month, space padded to two characters.
pub open spec fn spec_day_padded(day: int) -> Seq<char> {
    if day < 10 {
        seq![' ', digit_char(day)]
    } else {
        spec_two_digits(day)
    }
}

/// The long date of the prompt line: weekday, month name, space-padded
/// day, year.
pub open spec fn spec_long_date(d: DaylogDate) -> Seq<char> {
    spec_weekday_name(d.spec_weekday()) + ", "@ + spec_month_name(d.month as int) + " "@
        + spec_day_padded(d.day as int) + ", "@ + spec_four_digits(d.year as int)
}

/// One past entry in the mail: a one-line body on the label's own line,
/// a multi-line body indented below it.
pub open spec fn spec_entry_text(label: Seq<char>, body: Seq<char>) -> Seq<char> {
    let lines = spec_lines_from(body, 0);
    if lines.len() > 1 {
        "\t"@ + label + ":\r\n"@ + spec_tabbed_lines(lines)
    } else {
        "\t"@ + label + ":\t"@ + body + "\r\n"@
    }
}

/// Each line double-indented on its own line.
pub open spec fn spec_tabbed_lines(ls: Seq<Seq<char>>) -> Seq<char>
    decreases ls.len(),
{
    if ls.len() == 0 {
        Seq::empty()
    } else {
        spec_tabbed_lines(ls.drop_last()) + "\t\t"@ + ls.last() + "\r\n"@
    }
}

/// The past entries, in order.
pub open spec fn spec_entries_text(es: Seq<(String, String)>) -> Seq<char>
    decreases es.len(),
{
    if es.len() == 0 {
        Seq::empty()
    } else {
        spec_entries_text(es.drop_last()) + spec_entry_text(es.last().0@, es.last().1@)
    }
}

/// The full text of one daily prompt mail, with carriage-return line
/// endings: the headers, a blank line, the prompt for the day, the
/// found past entries (if any) under their lead-in and followed by a
/// blank line, and the signature.
pub open spec fn spec_compose_email(
    email: Seq<char>,
    return_addr: Seq<char>,
    date: DaylogDate,
    msgid: Seq<char>,
    date_header: Seq<char>,
    events: Seq<(String, String)>,
) -> Seq<char> {
    "Date: "@ + date_header + "\r\n"@ + "Subject: Daylog for "@ + date.spec_format_ymd()
        + "\r\n"@ + "From: Daylog <"@ + return_addr + ">\r\n"@ + "To: <"@ + email + ">\r\n"@
        + "Message-ID: <"@ + msgid + ">\r\n"@ + "\r\n"@ + "What'd you do today, "@
        + spec_long_date(date) + "?\r\n"@ + "\r\n"@ + (if events.len() > 0 {
        "Here's what you were doing\r\n"@ + spec_entries_text(events) + "\r\n"@
    } else {
        Seq::<char>::empty()
    }) + "-- \r\n"@ + "sent by daylog\r\n"@
}

/// Compose one daily prompt mail. The caller supplies the already
/// rendered Date header (it reads the real clock) and the past entries
/// it found in storage, as (label, body) pairs.
pub fn compose_email(
    email: &str,
    return_addr: &str,
    date: DaylogDate,
    msgid: &str,
    date_header: &str,
    events: &Vec<(String, String)>,
) -> (r: String)
    requires
        date.wf(),
    ensures
        r@ == spec_compose_email(email@, return_addr@, date, msgid@, date_header@, events@),
{
    let mut out = String::new();
    out.append("Date: ");
    out.append(date_header);
    out.append("\r\n");
    out.append("Subject: Daylog for ");
    let ymd = date.format_ymd();
    out.append(ymd.as_str());
    out.append("\r\n");
    out.append("From: Daylog <");
    out.append(return_addr);
    out.append(">\r\n");
    out.append("To: <");
    out.append(email);
    out.append(">\r\n");
    out.append("Message-ID: <");
    out.append(msgid);
    out.append(">\r\n");
    out.append("\r\n");
    out.append("What'd you do today, ");
    append_long_date(&mut out, date);
    out.append("?\r\n");
    out.append("\r\n");
    let ghost head = out@;
    if events.len() > 0 {
        out.append("Here's what you were doing\r\n");
        let n = events.len();
        let mut i: usize = 0;
        while i < n
            invariant
                0 <= i <= n,
                n == events@.len(),
                out@ == head + "Here's what you were doing\r\n"@ + spec_entries_text(
                    events@.subrange(0, i as int),
                ),
            decreases n - i,
        {
            let ghost prefix = events@.subrange(0, i as int);
            let ghost cur = events@.subrange(0, i + 1 as int);
            proof {
                assert(cur.drop_last() =~= prefix);
                assert(cur.last() == events@[i as int]);
            }
            append_entry(&mut out, &events[i].0, &events[i].1);
            i = i + 1;
        }
        proof {
            assert(events@.subrange(0, n as int) =~= events@);
        }
        out.append("\r\n");
    }
    out.append("-- \r\n");
    out.append("sent by daylog\r\n");
    proof {
        assert(out@ =~= spec_compose_email(
            email@,
            return_addr@,
            date,
            msgid@,
            date_header@,
            events@,
        ));
    }
    out
}

/// Append the long date of the prompt line.
fn append_long_date(out: &mut String, date: DaylogDate)
    requires
        date.wf(),
    ensures
        final(out)@ == old(out)@ + spec_long_date(date),
{
    let w = date.weekday();
    out.append(weekday_name(w));
    out.append(", ");
    out.append(month_name(date.month));
    out.append(" ");
    if date.day < 10 {
        out.append(" ");
        out.append(digit_str(date.day));
        proof {
            reveal_strlit(" ");
        }
    } else {
        push_two_digits(out, date.day);
    }
    out.append(", ");
    push_four_digits(out, date.year as u16);
    proof {
        reveal_strlit(" ");
        assert(out@ =~= old(out)@ + spec_long_date(date));
    }
}

/// Append one past entry.
fn append_entry(out: &mut String, label: &String, body: &String)
    ensures
        final(out)@ == old(out)@ + spec_entry_text(label@, body@),
{
    let lines = split_lines(body.as_str());
    if lines.len() > 1 {
        out.append("\t");
        out.append(label.as_str());
        out.append(":\r\n");
        let ghost mid = out@;
        let n = lines.len();
        let ghost lseq = spec_lines_from(body@, 0);
        let mut i: usize = 0;
        while i < n
            invariant
                0 <= i <= n,
                n == lines@.len(),
                lines@.len() == lseq.len(),
                lseq == spec_lines_from(body@, 0),
                forall|l: int| 0 <= l < n ==> (#[trigger] lines@[l])@ == lseq[l],
                out@ == mid + spec_tabbed_lines(lseq.subrange(0, i as int)),
            decreases n - i,
        {
            let ghost prefix = lseq.subrange(0, i as int);
            let ghost cur = lseq.subrange(0, i + 1 as int);
            proof {
                assert(cur.drop_last() =~= prefix);
                assert(cur.last() == lseq[i as int]);
            }
            out.append("\t\t");
            out.append(lines[i].as_str());
            out.append("\r\n");
            i = i + 1;
        }
        proof {
            assert(lseq.subrange(0, n as int) =~= lseq);
            assert(out@ =~= old(out)@ + spec_entry_text(label@, body@));
        }
    } else {
        out.append("\t");
        out.append(label.as_str());
        out.append(":\t");
        out.append(body.as_str());
        out.append("\r\n");
        proof {
            assert(out@ =~= old(out)@ + spec_entry_text(label@, body@));
        }
    }
}

/// The label of each look-back offset, oldest last.
pub open spec fn spec_past_label(l: int) -> Seq<char> {
    if l == 0 {
        "one week ago"@
    } else if l == 1 {
        "two weeks ago"@
    } else if l == 2 {
        "three weeks ago"@
    } else if l == 3 {
        "one month ago"@
    } else if l == 4 {
        "two months ago"@
    } else if l == 5 {
        "three months ago"@
    } else if l == 6 {
        "four months ago"@
    } else if l == 7 {
        "five months ago"@
    } else if l == 8 {
        "six months ago"@
    } else if l == 9 {
        "one year ago"@
    } else if l == 10 {
        "two years ago"@
    } else if l == 11 {
        "three years ago"@
    } else if l == 12 {
        "four years ago"@
    } else if l == 13 {
        "five years ago"@
    } else if l == 14 {
        "six years ago"@
    } else if l == 15 {
        "seven years ago"@
    } else if l == 16 {
        "eight years ago"@
    } else if l == 17 {
        "nine years ago"@
    } else {
        "ten years ago"@
    }
}

/// The date each look-back offset names, where it exists.
pub open spec fn spec_past_date(date: DaylogDate, l: int) -> Option<DaylogDate> {
    if l == 0 {
        Some(date.spec_days_ago(7))
    } else if l == 1 {
        Some(date.spec_days_ago(14))
    } else if l == 2 {
        Some(date.spec_days_ago(21))
    } else if 3 <= l <= 8 {
        date.spec_months_ago(l - 2)
    } else {
        date.spec_years_ago(l - 8)
    }
}

/// The nineteen look-back dates a prompt mail quotes from, as (label,
/// rendered date) pairs; offsets whose date does not exist (a leap day
/// some years back, say) carry no date.
#[verifier::rlimit(100)]
pub fn past_dates(date: DaylogDate) -> (r: Vec<(String, Option<String>)>)
    requires
        date.wf(),
        date.year > 11,
    ensures
        r@.len() == 19,
        forall|l: int|
            0 <= l < 19 ==> (#[trigger] r@[l]).0@ == spec_past_label(l) && (match r@[l].1 {
                Some(s) => spec_past_date(date, l) matches Some(d) && s@ == d.spec_format_ymd(),
                None => spec_past_date(date, l) is None,
            }),
{
    let mut out: Vec<(String, Option<String>)> = Vec::new();
    out.push(("one week ago".to_owned(), Some(date.days_ago(7).format_ymd())));
    out.push(("two weeks ago".to_owned(), Some(date.days_ago(14).format_ymd())));
    out.push(("three weeks ago".to_owned(), Some(date.days_ago(21).format_ymd())));
    out.push(("one month ago".to_owned(), fmt_opt(date.months_ago(1))));
    out.push(("two months ago".to_owned(), fmt_opt(date.months_ago(2))));
    out.push(("three months ago".to_owned(), fmt_opt(date.months_ago(3))));
    out.push(("four months ago".to_owned(), fmt_opt(date.months_ago(4))));
    out.push(("five months ago".to_owned(), fmt_opt(date.months_ago(5))));
    out.push(("six months ago".to_owned(), fmt_opt(date.months_ago(6))));
    out.push(("one year ago".to_owned(), fmt_opt(date.years_ago(1))));
    out.push(("two years ago".to_owned(), fmt_opt(date.years_ago(2))));
    out.push(("three years ago".to_owned(), fmt_opt(date.years_ago(3))));
    out.push(("four years ago".to_owned(), fmt_opt(date.years_ago(4))));
    out.push(("five years ago".to_owned(), fmt_opt(date.years_ago(5))));
    out.push(("six years ago".to_owned(), fmt_opt(date.years_ago(6))));
    out.push(("seven years ago".to_owned(), fmt_opt(date.years_ago(7))));
    out.push(("eight years ago".to_owned(), fmt_opt(date.years_ago(8))));
    out.push(("nine years ago".to_owned(), fmt_opt(date.years_ago(9))));
    out.push(("ten years ago".to_owned(), fmt_opt(date.years_ago(10))));
    out
}

/// Render an optional date.
fn fmt_opt(d: Option<DaylogDate>) -> (r: Option<String>)
    requires
        d matches Some(x) ==> x.wf(),
    ensures
        match r {
            Some(s) => d matches Some(x) && s@ == x.spec_format_ymd(),
            None => d is None,
        },
{
    match d {
        Some(x) => Some(x.format_ymd()),
        None => None,
    }
}

} // verus!
