//! Incoming mail, reduced to what the reply pipeline cares about: the
//! message id, the referenced message ids, and the plain-text body.
//! MIME parsing itself happens outside the library; it hands over a
//! `ParsedMessage` with the headers and decoded part bodies.

use vstd::prelude::*;
use crate::text::{spec_trim_msgid, spec_words, trim_msgid, split_words};

verus! {

/// Counters for one pass over a mail source.
#[derive(Debug)]
pub struct RunStats {
    pub num_processed: u64,
    pub num_removed: u64,
    pub num_kept: u64,
    pub num_left_unread: u64,
}

impl Default for RunStats {
    /// All counters start at zero.
    fn default() -> (r: Self)
        ensures
            r.num_processed == 0 && r.num_removed == 0 && r.num_kept == 0 && r.num_left_unread
                == 0,
    {
        RunStats { num_processed: 0, num_removed: 0, num_kept: 0, num_left_unread: 0 }
    }
}

/// What to do with a message after looking at it.
#[derive(Debug, Clone, Copy, PartialEq, Eq, Structural)]
pub enum MailProcessAction {
    /// Remove the message.
    Remove,
    /// Keep the message around somewhere, but don't process it next time.
    Keep,
    /// Pretend we never saw the message.
    LeaveUnread,
}

impl RunStats {
    /// Count a message whose parse succeeded. The counters saturate,
    /// harmlessly, at their maximum.
    pub fn record_processed(&mut self)
        ensures
            final(self).num_processed == if old(self).num_processed < u64::MAX {
                old(self).num_processed + 1
            } else {
                old(self).num_processed as int
            },
            final(self).num_removed == old(self).num_removed,
            final(self).num_kept == old(self).num_kept,
            final(self).num_left_unread == old(self).num_left_unread,
    {
        if self.num_processed < u64::MAX {
            self.num_processed = self.num_processed + 1;
        }
    }

    /// Count the action taken for a message.
    pub fn record_action(&mut self, action: MailProcessAction)
        ensures
            final(self).num_processed == old(self).num_processed,
            final(self).num_removed == if action is Remove && old(self).num_removed < u64::MAX {
                old(self).num_removed + 1
            } else {
                old(self).num_removed as int
            },
            final(self).num_kept == if action is Keep && old(self).num_kept < u64::MAX {
                old(self).num_kept + 1
            } else {
                old(self).num_kept as int
            },
            final(self).num_left_unread == if action is LeaveUnread && old(self).num_left_unread
                < u64::MAX {
                old(self).num_left_unread + 1
            } else {
                old(self).num_left_unread as int
            },
    {
        match action {
            MailProcessAction::Remove => {
                if self.num_removed < u64::MAX {
                    self.num_removed = self.num_removed + 1;
                }
            }
            MailProcessAction::Keep => {
                if self.num_kept < u64::MAX {
                    self.num_kept = self.num_kept + 1;
                }
            }
            MailProcessAction::LeaveUnread => {
                if self.num_left_unread < u64::MAX {
                    self.num_left_unread = self.num_left_unread + 1;
                }
            }
        }
    }
}

/// Arguments of the body-transformation command.
#[derive(Debug, Clone, Copy, PartialEq, Eq, Structural)]
pub struct MailTransformArgs {
    /// Print the plain-text mail body without applying any
    /// transformations on it.
    pub pre_transform: bool,
}

/// One MIME part of a parsed message, reduced to plain values: whether
/// its disposition is inline, its mime type, and its decoded body
/// (nothing when the body could not be decoded).
#[derive(Debug, Clone)]
pub struct MailPart {
    pub inline_disposition: bool,
    pub mimetype: String,
    pub body: Option<String>,
}

/// A parsed incoming message, reduced to plain values: the two headers
/// the reply pipeline reads, the top-level body, and the subparts.
#[derive(Debug, Clone)]
pub struct ParsedMessage {
    pub msgid_header: Option<String>,
    pub references_header: Option<String>,
    pub body: Option<String>,
    pub subparts: Vec<MailPart>,
}

/// Why a message was rejected.
#[derive(Debug, Clone, Copy, PartialEq, Eq, Structural)]
pub enum MailParseError {
    /// The message has no Message-ID header.
    MissingMessageId,
    /// A body (or an inline plain-text part body) could not be decoded.
    BadBodyText,
    /// A multipart message with no inline plain-text part.
    NoSuitablePart,
}

/// An email message plucked from a mail source. Only the replied-to
/// message ids and the body text matter; sender headers are ignored
/// because they can be spoofed.
#[derive(Debug)]
pub struct Mail {
    pub msgid: String,
    pub reply_to: Vec<String>,
    pub body: String,
}

/// The concatenated inline plain-text bodies of the subparts, each
/// followed by a blank line, and whether any was found; or the error
/// for an inline plain-text part whose body did not decode.
pub open spec fn spec_parts_body(parts: Seq<MailPart>) -> Result<
    (Seq<char>, bool),
    MailParseError,
>
    decreases parts.len(),
{
    if parts.len() == 0 {
        Ok((Seq::empty(), false))
    } else {
        match spec_parts_body(parts.drop_last()) {
            Err(e) => Err(e),
            Ok((acc, found)) => {
                let p = parts.last();
                if p.inline_disposition && p.mimetype@ == "text/plain"@ {
                    match p.body {
                        None => Err(MailParseError::BadBodyText),
                        Some(b) => Ok((acc + b@ + "\n\n"@, true)),
                    }
                } else {
                    Ok((acc, found))
                }
            },
        }
    }
}

/// What the body of a message is: the top-level body for a message
/// without parts; for a multipart message, the inline plain-text parts
/// concatenated, each followed by a blank line.
pub open spec fn spec_mail_body(parsed: ParsedMessage) -> Result<Seq<char>, MailParseError> {
    if parsed.subparts@.len() == 0 {
        match parsed.body {
            None => Err(MailParseError::BadBodyText),
            Some(b) => Ok(b@),
        }
    } else {
        match spec_parts_body(parsed.subparts@) {
            Err(e) => Err(e),
            Ok((acc, found)) => {
                if found {
                    Ok(acc)
                } else {
                    Err(MailParseError::NoSuitablePart)
                }
            },
        }
    }
}

impl Mail {
    /// Reduce a parsed message to the reply pipeline's view of it: the
    /// cleaned message id, the cleaned ids of the References header's
    /// words, and the plain-text body.
    pub fn parse(parsed: ParsedMessage) -> (r: Result<Mail, MailParseError>)
        ensures
            parsed.msgid_header is None ==> r == Err::<Mail, MailParseError>(
                MailParseError::MissingMessageId,
            ),
            parsed.msgid_header matches Some(h) ==> match spec_mail_body(parsed) {
                Err(e) => r == Err::<Mail, MailParseError>(e),
                Ok(b) => r matches Ok(m) && {
                    &&& m.msgid@ == spec_trim_msgid(h@)
                    &&& m.body@ == b
                    &&& m.reply_to@.len() == spec_words(spec_refs(parsed)).len()
                    &&& forall|l: int|
                        0 <= l < m.reply_to@.len() ==> (#[trigger] m.reply_to@[l])@
                            == spec_trim_msgid(spec_words(spec_refs(parsed))[l])
                },
            },
    {
        let msgid = match &parsed.msgid_header {
            Some(h) => trim_msgid(h.as_str()),
            None => {
                return Err(MailParseError::MissingMessageId);
            }
        };
        let words = match &parsed.references_header {
            Some(refs) => split_words(refs.as_str()),
            None => split_words(""),
        };
        proof {
            if parsed.references_header is None {
                reveal_strlit("");
                assert(""@ =~= spec_refs(parsed));
            }
        }
        let mut reply_to: Vec<String> = Vec::new();
        let n = words.len();
        let mut i: usize = 0;
        while i < n
            invariant
                0 <= i <= n,
                n == words@.len(),
                words@.len() == spec_words(spec_refs(parsed)).len(),
                forall|l: int|
                    0 <= l < n ==> (#[trigger] words@[l])@ == spec_words(spec_refs(parsed))[l],
                reply_to@.len() == i,
                forall|l: int|
                    0 <= l < i ==> (#[trigger] reply_to@[l])@ == spec_trim_msgid(
                        spec_words(spec_refs(parsed))[l],
                    ),
            decreases n - i,
        {
            reply_to.push(trim_msgid(words[i].as_str()));
            i = i + 1;
        }
        let body = match mail_body(&parsed) {
            Ok(b) => b,
            Err(e) => {
                return Err(e);
            }
        };
        Ok(Mail { msgid, reply_to, body })
    }
}

/// A failing prefix decides the whole list: once a part's body fails,
/// later parts cannot change the error.
proof fn lemma_parts_body_err(parts: Seq<MailPart>, k: int)
    requires
        0 <= k <= parts.len(),
        spec_parts_body(parts.subrange(0, k)) is Err,
    ensures
        spec_parts_body(parts) == spec_parts_body(parts.subrange(0, k)),
    decreases parts.len() - k,
{
    if k < parts.len() {
        let cur = parts.subrange(0, k + 1);
        assert(cur.drop_last() =~= parts.subrange(0, k));
        lemma_parts_body_err(parts, k + 1);
    } else {
        assert(parts.subrange(0, k) =~= parts);
    }
}

/// The References header's text, empty when the header is absent.
pub open spec fn spec_refs(parsed: ParsedMessage) -> Seq<char> {
    match parsed.references_header {
        Some(refs) => refs@,
        None => Seq::empty(),
    }
}

/// `spec_mail_body`, executed.
fn mail_body(parsed: &ParsedMessage) -> (r: Result<String, MailParseError>)
    ensures
        match (r, spec_mail_body(*parsed)) {
            (Ok(b), Ok(sb)) => b@ == sb,
            (Err(e), Err(se)) => e == se,
            _ => false,
        },
{
    let nparts = parsed.subparts.len();
    if nparts == 0 {
        match &parsed.body {
            None => Err(MailParseError::BadBodyText),
            Some(b) => Ok(b.clone()),
        }
    } else {
        let mut acc = String::new();
        let mut found = false;
        let mut i: usize = 0;
        while i < nparts
            invariant
                0 <= i <= nparts,
                nparts == parsed.subparts@.len(),
                spec_parts_body(parsed.subparts@.subrange(0, i as int)) == Ok::<
                    (Seq<char>, bool),
                    MailParseError,
                >((acc@, found)),
            decreases nparts - i,
        {
            let p = &parsed.subparts[i];
            let ghost prefix = parsed.subparts@.subrange(0, i as int);
            let ghost cur = parsed.subparts@.subrange(0, i + 1 as int);
            proof {
                assert(cur.drop_last() =~= prefix);
                assert(cur.last() == parsed.subparts@[i as int]);
            }
            if p.inline_disposition && crate::text::str_eq(p.mimetype.as_str(), "text/plain") {
                match &p.body {
                    None => {
                        proof {
                            lemma_parts_body_err(parsed.subparts@, i + 1 as int);
                        }
                        return Err(MailParseError::BadBodyText);
                    }
                    Some(b) => {
                        acc.append(b.as_str());
                        acc.append("\n\n");
                        found = true;
                    }
                }
            }
            i = i + 1;
        }
        proof {
            assert(parsed.subparts@.subrange(0, nparts as int) =~= parsed.subparts@);
        }
        if found {
            Ok(acc)
        } else {
            Err(MailParseError::NoSuitablePart)
        }
    }
}

} // verus!
