//! The reply-ingestion rules: which incoming messages answer one of
//! our prompts, how their bodies are cleaned for storage, and what
//! happens to each message afterwards. Reading the mail source and
//! writing the database are I/O and happen outside the library.

use vstd::prelude::*;
use crate::mail::{Mail, MailProcessAction};
use crate::message_id::{spec_is_our_message_id, is_our_message_id, spec_verify, verify_message_id};
use crate::text::{trim_front_ws, trim_back_ws, trim_ascii};

verus! {

/// The pattern that opens a quoted reply ("On ..., ... wrote:").
pub const QUOTE_INTRO_PATTERN: &'static str =
    "\nOn (Mon|Tue|Wed|Thu|Fri|Sat|Sun), (Jan|Feb|Mar|Apr|May|Jun|Jul|Aug|Sep|Oct|Nov|Dec) [^>]+([^\n]>)?( |\r?\n)wrote:\r?\n\r?\n?>";

/// The pattern of a trailing signature block.
pub const SIGNATURE_PATTERN: &'static str = "(?s)\r?\n-- \r?\n.*$";

/// What replacing every match of a pattern yields: a function of the
/// pattern, the input and the replacement; nothing for an invalid
/// pattern.
pub uninterp spec fn regex_replace_of(pattern: Seq<char>, input: Seq<char>, rep: Seq<char>) -> Option<
    Seq<char>,
>;

/// Relies on `Regex::new` and `Regex::replace_all`: every
/// non-overlapping match of the pattern is replaced; the answer is a
/// function of the three arguments alone, and an invalid pattern gives
/// nothing.
#[verifier::external_body]
fn regex_replace_all(pattern: &str, input: &str, rep: &str) -> (r: Option<String>)
    ensures
        match r {
            Some(s) => regex_replace_of(pattern@, input@, rep@) == Some(s@),
            None => regex_replace_of(pattern@, input@, rep@) is None,
        },
{
    match regex::Regex::new(pattern) {
        Ok(re) => Some(re.replace_all(input, rep).into_owned()),
        Err(_) => None,
    }
}

/// The index right after the line starting at `i`: the first line feed
/// at or past `i`, or the length.
pub open spec fn spec_line_end(s: Seq<char>, i: int) -> int
    decreases s.len() - i,
{
    if i < 0 || i >= s.len() || s[i] == '\n' {
        i
    } else {
        spec_line_end(s, i + 1)
    }
}

/// One line's text: the range with a single trailing carriage return
/// removed.
pub open spec fn spec_line_text(s: Seq<char>, i: int, j: int) -> Seq<char> {
    let raw = s.subrange(i, j);
    if raw.len() > 0 && raw.last() == '\r' {
        raw.drop_last()
    } else {
        raw
    }
}

/// The lines of `s` from `i` on: split at line feeds, each line
/// stripped of one trailing carriage return, no empty line after a
/// trailing line feed.
pub open spec fn spec_lines_from(s: Seq<char>, i: int) -> Seq<Seq<char>>
    decreases s.len() - i,
{
    if i < 0 || i >= s.len() {
        Seq::empty()
    } else {
        let j = spec_line_end(s, i);
        let j2 = if j < i {
            i
        } else if j > s.len() {
            s.len() as int
        } else {
            j
        };
        if j2 >= s.len() {
            seq![spec_line_text(s, i, j2)]
        } else {
            seq![spec_line_text(s, i, j2)] + spec_lines_from(s, j2 + 1)
        }
    }
}

/// A line is kept unless it quotes (starts with `>`).
pub open spec fn spec_keep_line(l: Seq<char>) -> bool {
    !(l.len() > 0 && l[0] == '>')
}

/// The kept lines, each preceded by a line feed.
pub open spec fn spec_fold_lines(ls: Seq<Seq<char>>) -> Seq<char>
    decreases ls.len(),
{
    if ls.len() == 0 {
        Seq::empty()
    } else {
        spec_fold_lines(ls.drop_last()) + (if spec_keep_line(ls.last()) {
            seq!['\n'] + ls.last()
        } else {
            Seq::<char>::empty()
        })
    }
}

/// What body cleaning yields: quoted-reply introductions collapsed to a
/// quote marker, the signature block removed, quoting lines dropped,
/// and surrounding whitespace trimmed; nothing only if the replacement
/// engine rejects one of the fixed patterns.
pub open spec fn spec_process_body(input: Seq<char>) -> Option<Seq<char>> {
    match regex_replace_of(QUOTE_INTRO_PATTERN@, input, "\n>"@) {
        None => None,
        Some(t1) => match regex_replace_of(SIGNATURE_PATTERN@, t1, ""@) {
            None => None,
            Some(t2) => Some(
                trim_back_ws(trim_front_ws(spec_fold_lines(spec_lines_from(t2, 0)))),
            ),
        },
    }
}

/// Clean a reply body for storage: collapse the quoted-reply
/// introduction, cut the signature, drop quote lines, trim whitespace.
pub fn process_body(input: &str) -> (r: Option<String>)
    ensures
        match r {
            Some(s) => spec_process_body(input@) == Some(s@),
            None => spec_process_body(input@) is None,
        },
{
    let t1 = match regex_replace_all(QUOTE_INTRO_PATTERN, input, "\n>") {
        Some(s) => s,
        None => {
            return None;
        }
    };
    let t2 = match regex_replace_all(SIGNATURE_PATTERN, t1.as_str(), "") {
        Some(s) => s,
        None => {
            return None;
        }
    };
    let folded = fold_kept_lines(t2.as_str());
    Some(trim_ascii(folded.as_str()))
}

/// Split into lines, drop quoting lines, join the rest with line feeds.
fn fold_kept_lines(s: &str) -> (r: String)
    ensures
        r@ == spec_fold_lines(spec_lines_from(s@, 0)),
{
    let len = s.unicode_len();
    let mut out = String::new();
    let mut i: usize = 0;
    while i < len
        invariant
            0 <= i <= len,
            len == s@.len(),
            spec_fold_lines(spec_lines_from(s@, 0)) == out@ + spec_fold_lines(
                spec_lines_from(s@, i as int),
            ),
        decreases len - i,
    {
        let mut j = i;
        while j < len && s.get_char(j) != '\n'
            invariant
                i <= j <= len,
                len == s@.len(),
                spec_line_end(s@, i as int) == spec_line_end(s@, j as int),
            decreases len - j,
        {
            j = j + 1;
        }
        proof {
            assert(spec_line_end(s@, j as int) == j);
        }
        // the line is s[i..j], with one trailing carriage return removed
        let line_end = if j > i && s.get_char(j - 1) == '\r' {
            j - 1
        } else {
            j
        };
        let ghost ltext = spec_line_text(s@, i as int, j as int);
        proof {
            if j > i && s@[j - 1] == '\r' {
                assert(s@.subrange(i as int, j as int).last() == s@[j - 1]);
                assert(s@.subrange(i as int, j as int).drop_last() =~= s@.subrange(
                    i as int,
                    line_end as int,
                ));
            }
            assert(ltext == s@.subrange(i as int, line_end as int));
        }
        let keep = !(line_end > i && s.get_char(i) == '>');
        if keep {
            out.append("\n");
            let piece = s.substring_char(i, line_end);
            out.append(piece);
            proof {
                reveal_strlit("\n");
            }
        }
        proof {
            let ls = spec_lines_from(s@, i as int);
            if (j as int) >= s@.len() {
                assert(ls =~= seq![ltext]);
                assert(ls.drop_last() =~= Seq::<Seq<char>>::empty());
                assert(spec_fold_lines(ls) == (if spec_keep_line(ltext) {
                    seq!['\n'] + ltext
                } else {
                    Seq::<char>::empty()
                }));
            } else {
                let rest = spec_lines_from(s@, j + 1 as int);
                assert(ls == seq![ltext] + rest);
                lemma_fold_cons(ltext, rest);
            }
        }
        if j >= len {
            i = len;
        } else {
            i = j + 1;
        }
    }
    out
}

/// Folding distributes over splitting off the first line.
proof fn lemma_fold_cons(head: Seq<char>, rest: Seq<Seq<char>>)
    ensures
        spec_fold_lines(seq![head] + rest) == (if spec_keep_line(head) {
            seq!['\n'] + head
        } else {
            Seq::<char>::empty()
        }) + spec_fold_lines(rest),
    decreases rest.len(),
{
    let headpiece = if spec_keep_line(head) {
        seq!['\n'] + head
    } else {
        Seq::<char>::empty()
    };
    if rest.len() == 0 {
        assert(seq![head] + rest =~= seq![head]);
        assert(seq![head].drop_last() =~= Seq::<Seq<char>>::empty());
        assert(spec_fold_lines(Seq::<Seq<char>>::empty()) == Seq::<char>::empty());
        assert(seq![head].last() == head);
        assert(spec_fold_lines(seq![head]) == Seq::<char>::empty() + headpiece);
        assert(Seq::<char>::empty() + headpiece =~= headpiece);
        assert(headpiece + spec_fold_lines(rest) =~= headpiece);
    } else {
        let whole = seq![head] + rest;
        assert(whole.drop_last() =~= seq![head] + rest.drop_last());
        assert(whole.last() == rest.last());
        lemma_fold_cons(head, rest.drop_last());
        let tailpiece = if spec_keep_line(rest.last()) {
            seq!['\n'] + rest.last()
        } else {
            Seq::<char>::empty()
        };
        assert(spec_fold_lines(whole) == (headpiece + spec_fold_lines(rest.drop_last()))
            + tailpiece);
        assert(spec_fold_lines(rest) == spec_fold_lines(rest.drop_last()) + tailpiece);
        assert((headpiece + spec_fold_lines(rest.drop_last())) + tailpiece =~= headpiece + (
        spec_fold_lines(rest.drop_last()) + tailpiece));
    }
}

/// The referenced ids of our own making, in order.
pub open spec fn spec_our_ids(ids: Seq<String>) -> Seq<String>
    decreases ids.len(),
{
    if ids.len() == 0 {
        Seq::empty()
    } else {
        let prefix = spec_our_ids(ids.drop_last());
        if spec_is_our_message_id(ids.last()@) {
            prefix.push(ids.last())
        } else {
            prefix
        }
    }
}

/// Arguments of an ingestion run.
#[derive(Debug, Clone, Copy, PartialEq, Eq, Structural)]
pub struct IngestArgs {
    /// Show what would be done, but make no changes.
    pub dry_run: bool,
}

/// The lines of a string, as separate values.
pub fn split_lines(s: &str) -> (r: Vec<String>)
    ensures
        r@.len() == spec_lines_from(s@, 0).len(),
        forall|l: int|
            0 <= l < r@.len() ==> (#[trigger] r@[l])@ == spec_lines_from(s@, 0)[l],
{
    let len = s.unicode_len();
    let mut out: Vec<String> = Vec::new();
    let mut i: usize = 0;
    while i < len
        invariant
            0 <= i <= len,
            len == s@.len(),
            spec_lines_from(s@, 0) == out@.map_values(|t: String| t@) + spec_lines_from(
                s@,
                i as int,
            ),
        decreases len - i,
    {
        let mut j = i;
        while j < len && s.get_char(j) != '\n'
            invariant
                i <= j <= len,
                len == s@.len(),
                spec_line_end(s@, i as int) == spec_line_end(s@, j as int),
            decreases len - j,
        {
            j = j + 1;
        }
        proof {
            assert(spec_line_end(s@, j as int) == j);
        }
        let line_end = if j > i && s.get_char(j - 1) == '\r' {
            j - 1
        } else {
            j
        };
        let ghost ltext = spec_line_text(s@, i as int, j as int);
        proof {
            if j > i && s@[j - 1] == '\r' {
                assert(s@.subrange(i as int, j as int).last() == s@[j - 1]);
                assert(s@.subrange(i as int, j as int).drop_last() =~= s@.subrange(
                    i as int,
                    line_end as int,
                ));
            }
            assert(ltext == s@.subrange(i as int, line_end as int));
        }
        let piece = s.substring_char(i, line_end).to_owned();
        out.push(piece);
        proof {
            let ls = spec_lines_from(s@, i as int);
            assert(out@.map_values(|t: String| t@) =~= out@.drop_last().map_values(
                |t: String| t@,
            ).push(ltext));
            if (j as int) >= s@.len() {
                assert(ls =~= seq![ltext]);
                assert(out@.map_values(|t: String| t@) + spec_lines_from(s@, len as int)
                    =~= out@.drop_last().map_values(|t: String| t@) + ls);
            } else {
                let rest = spec_lines_from(s@, j + 1 as int);
                assert(ls == seq![ltext] + rest);
                assert(out@.map_values(|t: String| t@) + rest =~= out@.drop_last().map_values(
                    |t: String| t@,
                ) + ls);
            }
        }
        if j >= len {
            i = len;
        } else {
            i = j + 1;
        }
    }
    proof {
        assert(spec_lines_from(s@, 0) =~= out@.map_values(|t: String| t@));
        assert forall|l: int| 0 <= l < out@.len() implies (#[trigger] out@[l])@ == spec_lines_from(
            s@,
            0,
        )[l] by {
            assert(out@.map_values(|t: String| t@)[l] == out@[l]@);
        }
    }
    out
}

/// The transformed body a raw message yields: the parsed body as is, or
/// cleaned for storage.
pub fn mail_transform_body(mail: &Mail, pre_transform: bool) -> (r: Option<String>)
    ensures
        pre_transform ==> (r matches Some(s) && s@ == mail.body@),
        !pre_transform ==> match r {
            Some(s) => spec_process_body(mail.body@) == Some(s@),
            None => spec_process_body(mail.body@) is None,
        },
{
    if pre_transform {
        Some(mail.body.clone())
    } else {
        process_body(mail.body.as_str())
    }
}

/// What one mail asks the ingester to do.
pub enum IngestPlan {
    /// The mail references none of our prompts; keep it out of the way,
    /// or, on a dry run, leave it unread.
    NotOurs { action: MailProcessAction },
    /// A referenced id of ours failed verification; report it and keep
    /// the mail (leave it unread on a dry run).
    BadReference { msgid: String, action: MailProcessAction },
    /// Every referenced id of ours verified: record one journal entry
    /// per (user, date) pair, then remove the mail (leave it unread on
    /// a dry run).
    Record { entries: Vec<(String, String)>, action: MailProcessAction },
}

/// What verifying each of our referenced ids yields: the (user, date)
/// pairs, or the first id that fails.
pub open spec fn spec_collect_entries(ids: Seq<String>, key: Seq<u8>) -> Result<
    Seq<(Seq<char>, Seq<char>)>,
    String,
>
    decreases ids.len(),
{
    if ids.len() == 0 {
        Ok(Seq::empty())
    } else {
        match spec_collect_entries(ids.drop_last(), key) {
            Err(m) => Err(m),
            Ok(prefix) => match spec_verify(ids.last()@, key) {
                Err(_) => Err(ids.last()),
                Ok((u, d)) => Ok(prefix.push((u, d))),
            },
        }
    }
}

/// Decide what to do with one incoming mail: nothing of ours among its
/// references means keeping it; a reference of ours that does not
/// verify means keeping it and naming the reference; otherwise one
/// journal entry per verified reference, and the mail is removed. On a
/// dry run every action becomes leaving the mail unread.
pub fn plan_mail(mail: &Mail, key_bytes: &[u8; 32], dry_run: bool) -> (r: IngestPlan)
    ensures
        ({
            let ours = spec_our_ids(mail.reply_to@);
            let pass = if dry_run {
                MailProcessAction::LeaveUnread
            } else {
                MailProcessAction::Keep
            };
            if ours.len() == 0 {
                r matches IngestPlan::NotOurs { action } && action == pass
            } else {
                match spec_collect_entries(ours, key_bytes@) {
                    Err(m) => r matches IngestPlan::BadReference { msgid, action } && msgid@ == m@
                        && action == pass,
                    Ok(es) => r matches IngestPlan::Record { entries, action } && {
                        &&& action == if dry_run {
                            MailProcessAction::LeaveUnread
                        } else {
                            MailProcessAction::Remove
                        }
                        &&& entries@.len() == es.len()
                        &&& forall|l: int|
                            0 <= l < es.len() ==> (#[trigger] entries@[l]).0@ == es[l].0
                                && entries@[l].1@ == es[l].1
                    },
                }
            }
        }),
{
    let pass = if dry_run {
        MailProcessAction::LeaveUnread
    } else {
        MailProcessAction::Keep
    };
    let n = mail.reply_to.len();
    let mut ours: Vec<String> = Vec::new();
    let mut i: usize = 0;
    while i < n
        invariant
            0 <= i <= n,
            n == mail.reply_to@.len(),
            ours@ == spec_our_ids(mail.reply_to@.subrange(0, i as int)),
        decreases n - i,
    {
        let ghost prefix = mail.reply_to@.subrange(0, i as int);
        let ghost cur = mail.reply_to@.subrange(0, i + 1 as int);
        proof {
            assert(cur.drop_last() =~= prefix);
            assert(cur.last() == mail.reply_to@[i as int]);
        }
        if is_our_message_id(mail.reply_to[i].as_str()) {
            ours.push(mail.reply_to[i].clone());
        }
        i = i + 1;
    }
    proof {
        assert(mail.reply_to@.subrange(0, n as int) =~= mail.reply_to@);
    }
    if ours.len() == 0 {
        return IngestPlan::NotOurs { action: pass };
    }
    let m = ours.len();
    let mut entries: Vec<(String, String)> = Vec::new();
    let mut k: usize = 0;
    while k < m
        invariant
            0 <= k <= m,
            m == ours@.len(),
            ours@ == spec_our_ids(mail.reply_to@),
            pass == if dry_run {
                MailProcessAction::LeaveUnread
            } else {
                MailProcessAction::Keep
            },
            spec_collect_entries(ours@.subrange(0, k as int), key_bytes@) matches Ok(es) && {
                &&& entries@.len() == es.len()
                &&& forall|l: int|
                    0 <= l < es.len() ==> (#[trigger] entries@[l]).0@ == es[l].0 && entries@[l].1@
                        == es[l].1
            },
        decreases m - k,
    {
        let ghost prefix = ours@.subrange(0, k as int);
        let ghost cur = ours@.subrange(0, k + 1 as int);
        proof {
            assert(cur.drop_last() =~= prefix);
            assert(cur.last() == ours@[k as int]);
        }
        match verify_message_id(ours[k].as_str(), key_bytes) {
            Err(_) => {
                proof {
                    assert(spec_verify(ours@[k as int]@, key_bytes@) is Err);
                    assert(spec_collect_entries(cur, key_bytes@) == Err::<
                        Seq<(Seq<char>, Seq<char>)>,
                        String,
                    >(ours@[k as int]));
                    lemma_collect_err(ours@, k + 1 as int, key_bytes@);
                    assert(spec_collect_entries(ours@, key_bytes@) == Err::<
                        Seq<(Seq<char>, Seq<char>)>,
                        String,
                    >(ours@[k as int]));
                }
                return IngestPlan::BadReference { msgid: ours[k].clone(), action: pass };
            }
            Ok((u, d)) => {
                entries.push((u, d));
            }
        }
        k = k + 1;
    }
    proof {
        assert(ours@.subrange(0, m as int) =~= ours@);
    }
    let action = if dry_run {
        MailProcessAction::LeaveUnread
    } else {
        MailProcessAction::Remove
    };
    IngestPlan::Record { entries, action }
}

/// A failing prefix decides the whole list of ids.
proof fn lemma_collect_err(ids: Seq<String>, k: int, key: Seq<u8>)
    requires
        0 <= k <= ids.len(),
        spec_collect_entries(ids.subrange(0, k), key) is Err,
    ensures
        spec_collect_entries(ids, key) == spec_collect_entries(ids.subrange(0, k), key),
    decreases ids.len() - k,
{
    if k < ids.len() {
        let cur = ids.subrange(0, k + 1);
        assert(cur.drop_last() =~= ids.subrange(0, k));
        lemma_collect_err(ids, k + 1, key);
    } else {
        assert(ids.subrange(0, k) =~= ids);
    }
}

} // verus!
