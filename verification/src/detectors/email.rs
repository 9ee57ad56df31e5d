//! IMAP new-mail detection: which message UIDs are new since the last check,
//! how the mailbox cursor advances, and the text of a new-mail alert.

use vstd::prelude::*;
use crate::dispatcher::DispatchError;
use crate::text::{is_blank, joined, truncate, truncated};

verus! {

broadcast use vstd::seq_lib::group_to_multiset_ensures;

/// Where the detector stands in a mailbox: the UIDVALIDITY it last saw and
/// the highest UID it has already reported or baselined.
#[derive(Clone, Copy, Debug, PartialEq, Eq, Structural)]
pub struct MailboxCursor {
    pub uid_validity: Option<u32>,
    pub last_uid: Option<u32>,
}

impl Default for MailboxCursor {
    fn default() -> (c: Self)
        ensures
            c.uid_validity is None,
            c.last_uid is None,
    {
        MailboxCursor { uid_validity: None, last_uid: None }
    }
}

/// The largest element of `s`, `None` when `s` is empty.
pub open spec fn max_of(s: Seq<u32>) -> Option<u32>
    decreases s.len(),
{
    if s.len() == 0 {
        None
    } else {
        match max_of(s.drop_last()) {
            None => Some(s.last()),
            Some(m) => Some(if s.last() > m { s.last() } else { m }),
        }
    }
}

/// The UIDs of `s` that are newer than `last`, in their order.
pub open spec fn newer_than(s: Seq<u32>, last: Option<u32>) -> Seq<u32>
    decreases s.len(),
{
    if s.len() == 0 {
        Seq::empty()
    } else {
        let rest = newer_than(s.drop_last(), last);
        let keep = match last {
            None => true,
            Some(known) => s.last() > known,
        };
        if keep { rest.push(s.last()) } else { rest }
    }
}

/// Each element is at most every later one.
pub open spec fn nondecreasing(s: Seq<u32>) -> bool {
    forall|i: int, j: int| 0 <= i < j < s.len() ==> s[i] <= s[j]
}

impl MailboxCursor {
    /// A fresh mailbox, or one whose UIDVALIDITY changed, needs a new
    /// baseline before new mail can be recognised.
    pub fn needs_baseline(&self, mailbox_uid_validity: Option<u32>) -> (needed: bool)
        ensures
            needed == (self.uid_validity != mailbox_uid_validity || self.last_uid is None),
    {
        self.uid_validity != mailbox_uid_validity || self.last_uid.is_none()
    }

    /// Takes every UID currently in the mailbox as already seen.
    pub fn rebaseline(&mut self, mailbox_uid_validity: Option<u32>, all_uids: &Vec<u32>)
        ensures
            final(self).uid_validity == mailbox_uid_validity,
            final(self).last_uid == max_of(all_uids@),
    {
        self.uid_validity = mailbox_uid_validity;
        let mut best: Option<u32> = None;
        let n = all_uids.len();
        let mut i: usize = 0;
        while i < n
            invariant
                n == all_uids@.len(),
                i <= n,
                best == max_of(all_uids@.take(i as int)),
            decreases n - i,
        {
            let uid = all_uids[i];
            assert(all_uids@.take(i + 1).drop_last() =~= all_uids@.take(i as int));
            best = match best {
                None => Some(uid),
                Some(m) => Some(if uid > m { uid } else { m }),
            };
            i = i + 1;
        }
        assert(all_uids@.take(n as int) =~= all_uids@);
        self.last_uid = best;
    }

    /// The first UID of the search for new mail.
    pub fn first_new_uid(&self) -> (uid: u32)
        ensures
            uid == match self.last_uid {
                None => 1u32,
                Some(last) => if last == u32::MAX { u32::MAX } else { (last + 1) as u32 },
            },
    {
        let last = match self.last_uid {
            None => 0,
            Some(last) => last,
        };
        last.saturating_add(1)
    }

    /// The UIDs of `found` newer than the cursor, in ascending order.
    pub fn new_uids(&self, found: &Vec<u32>) -> (uids: Vec<u32>)
        ensures
            nondecreasing(uids@),
            uids@.to_multiset() == newer_than(found@, self.last_uid).to_multiset(),
    {
        let mut out: Vec<u32> = Vec::new();
        let n = found.len();
        let mut i: usize = 0;
        while i < n
            invariant
                n == found@.len(),
                i <= n,
                nondecreasing(out@),
                out@.to_multiset() == newer_than(found@.take(i as int), self.last_uid).to_multiset(),
            decreases n - i,
        {
            let uid = found[i];
            assert(found@.take(i + 1).drop_last() =~= found@.take(i as int));
            let keep = match self.last_uid {
                None => true,
                Some(known) => uid > known,
            };
            if keep {
                let m = out.len();
                let mut p: usize = 0;
                while p < m && out[p] <= uid
                    invariant
                        m == out@.len(),
                        p <= m,
                        forall|k: int| 0 <= k < p ==> out@[k] <= uid,
                    decreases m - p,
                {
                    p = p + 1;
                }
                let ghost before = out@;
                out.insert(p, uid);
                assert(out@ == before.insert(p as int, uid));
                assert forall|a: int, b: int| 0 <= a < b < out@.len() implies out@[a] <= out@[b] by {
                    if b < p {
                        assert(out@[a] == before[a] && out@[b] == before[b]);
                    } else if b == p {
                        assert(out@[a] == before[a]);
                    } else if a < p {
                        assert(out@[a] == before[a] && out@[b] == before[b - 1]);
                    } else if a == p {
                        assert(out@[b] == before[b - 1]);
                        assert(before[p as int] > uid);
                        assert(before[p as int] <= before[b - 1]);
                    } else {
                        assert(out@[a] == before[a - 1] && out@[b] == before[b - 1]);
                    }
                }
                assert(newer_than(found@.take(i as int), self.last_uid).push(uid).to_multiset()
                    == newer_than(found@.take(i as int), self.last_uid).to_multiset().insert(uid));
            }
            i = i + 1;
        }
        assert(found@.take(n as int) =~= found@);
        out
    }

    /// Marks `uid` as reported: the cursor moves up to it, never down.
    pub fn record_seen(&mut self, uid: u32)
        ensures
            final(self).uid_validity == old(self).uid_validity,
            final(self).last_uid == Some(match old(self).last_uid {
                None => uid,
                Some(last) => if uid > last { uid } else { last },
            }),
    {
        let last = match self.last_uid {
            None => 0,
            Some(last) => last,
        };
        self.last_uid = Some(if uid > last { uid } else { last });
    }
}

/// The wait, in seconds, before reconnecting after a failed connection:
/// doubled each time, at most five minutes.
pub fn next_backoff(backoff: u64) -> (next: u64)
    requires
        backoff <= u64::MAX / 2,
    ensures
        next == if 2 * backoff < 300 { 2 * backoff } else { 300 },
{
    let doubled = backoff * 2;
    if doubled < 300 { doubled } else { 300 }
}

/// The wait, in seconds, before the first reconnection after a failure.
pub const INITIAL_BACKOFF_SECONDS: u64 = 5;

/// What the email detector does once an IMAP session has ended.
#[derive(Clone, Copy, Debug, PartialEq, Eq, Structural)]
pub enum SessionFollowUp {
    /// The detector was asked to stop: end the detector.
    Stop,
    /// The session ended cleanly: connect again at once.
    Reconnect,
    /// The session failed: wait this many seconds, then connect again.
    ReconnectAfter(u64),
}

/// The follow-up to a session that ended cleanly or not, with or without a
/// stop request, and the back-off to keep: a clean end resets the back-off, a
/// failure waits the current back-off and doubles it, up to five minutes.
pub open spec fn session_follow_up(stopped: bool, ended_cleanly: bool, backoff: u64) -> (SessionFollowUp, u64) {
    if ended_cleanly && stopped {
        (SessionFollowUp::Stop, backoff)
    } else if ended_cleanly {
        (SessionFollowUp::Reconnect, INITIAL_BACKOFF_SECONDS)
    } else {
        let b: u64 = if backoff > u64::MAX / 2 { u64::MAX / 2 } else { backoff };
        (SessionFollowUp::ReconnectAfter(backoff), if 2 * b < 300 { (2 * b) as u64 } else { 300 })
    }
}

/// Decides what follows an IMAP session, and the back-off to keep.
pub fn after_session(stopped: bool, ended_cleanly: bool, backoff: u64) -> (next: (SessionFollowUp, u64))
    ensures
        next == session_follow_up(stopped, ended_cleanly, backoff),
{
    if ended_cleanly && stopped {
        (SessionFollowUp::Stop, backoff)
    } else if ended_cleanly {
        (SessionFollowUp::Reconnect, INITIAL_BACKOFF_SECONDS)
    } else {
        let b = if backoff > u64::MAX / 2 { u64::MAX / 2 } else { backoff };
        (SessionFollowUp::ReconnectAfter(backoff), next_backoff(b))
    }
}

/// Law: from the initial back-off, failures wait 5, 10, 20, ... seconds and
/// never more than five minutes, and a clean session resets the wait.
pub proof fn law_backoff_bounded(stopped: bool, ended_cleanly: bool, backoff: u64)
    requires
        INITIAL_BACKOFF_SECONDS <= backoff <= 300,
    ensures
        INITIAL_BACKOFF_SECONDS <= session_follow_up(stopped, ended_cleanly, backoff).1 <= 300,
        !ended_cleanly ==> session_follow_up(stopped, ended_cleanly, backoff).1 >= backoff,
{
}

/// Whether an IMAP session goes on after handing an email alert to the
/// dispatcher: a full queue only drops the alert, a closed queue ends it.
pub fn session_survives_dispatch(result: &Result<(), DispatchError>) -> (survives: bool)
    ensures
        survives == !(result matches Err(DispatchError::QueueClosed)),
{
    match result {
        Err(DispatchError::QueueClosed) => false,
        _ => true,
    }
}

/// What `String::from_utf8_lossy` makes of `bytes`: the UTF-8 decoding, with
/// each invalid sequence replaced by U+FFFD.
pub uninterp spec fn utf8_lossy(bytes: Seq<u8>) -> Seq<char>;

/// Decodes header bytes as text (`String::from_utf8_lossy`, then
/// `into_owned`); the result is named, the decoding rules being long.
#[verifier::external_body]
fn decode_lossy(bytes: &[u8]) -> (text: String)
    ensures
        text@ == utf8_lossy(bytes@),
{
    String::from_utf8_lossy(bytes).into_owned()
}

/// The envelope fields of a new message that its alert reads, as raw bytes.
pub struct EnvelopeSummary {
    pub subject: Option<Vec<u8>>,
    /// Display name of the first sender, if any.
    pub sender_name: Option<Vec<u8>>,
    /// Mailbox (local part) of the first sender, if any.
    pub sender_mailbox: Option<Vec<u8>>,
}

/// The subject shown in the alert: the decoded subject unless it is missing
/// or blank.
pub open spec fn shown_subject(subject: Option<Seq<u8>>) -> Seq<char> {
    match subject {
        Some(b) => if is_blank(utf8_lossy(b)) { "(no subject)"@ } else { utf8_lossy(b) },
        None => "(no subject)"@,
    }
}

/// The sender shown in the alert: the first sender's name, else its mailbox,
/// else a generic sender.
pub open spec fn shown_sender(name: Option<Seq<u8>>, mailbox: Option<Seq<u8>>) -> Seq<char> {
    match name {
        Some(n) => utf8_lossy(n),
        None => match mailbox {
            Some(m) => utf8_lossy(m),
            None => "A sender"@,
        },
    }
}

/// The alert text of a new message: `sender sent “subject”.`, the subject cut
/// to 120 characters.
pub open spec fn email_alert_text(e: EnvelopeSummary) -> Seq<char> {
    let subject = match e.subject { Some(v) => Some(v@), None => None };
    let name = match e.sender_name { Some(v) => Some(v@), None => None };
    let mailbox = match e.sender_mailbox { Some(v) => Some(v@), None => None };
    shown_sender(name, mailbox) + " sent \u{201c}"@ + truncated(shown_subject(subject), 120) + "\u{201d}."@
}

/// Builds the alert text of a new message from its envelope.
pub fn email_alert_message(envelope: &EnvelopeSummary) -> (text: String)
    ensures
        text@ == email_alert_text(*envelope),
{
    let subject = match &envelope.subject {
        Some(bytes) => {
            let decoded = decode_lossy(bytes.as_slice());
            if crate::text::blank(decoded.as_str()) { crate::text::owned("(no subject)") } else { decoded }
        },
        None => crate::text::owned("(no subject)"),
    };
    let sender = match &envelope.sender_name {
        Some(bytes) => decode_lossy(bytes.as_slice()),
        None => match &envelope.sender_mailbox {
            Some(bytes) => decode_lossy(bytes.as_slice()),
            None => crate::text::owned("A sender"),
        },
    };
    let mut text = joined(sender.as_str(), " sent \u{201c}");
    let cut = truncate(subject.as_str(), 120);
    text.append(cut.as_str());
    text.append("\u{201d}.");
    text
}

proof fn lemma_newer_than_contains(s: Seq<u32>, last: Option<u32>, uid: u32)
    requires
        newer_than(s, last).contains(uid),
    ensures
        last matches Some(known) ==> uid > known,
    decreases s.len(),
{
    if s.len() > 0 {
        let rest = newer_than(s.drop_last(), last);
        if rest.contains(uid) {
            lemma_newer_than_contains(s.drop_last(), last, uid);
        } else {
            let n = newer_than(s, last);
            let k = choose|k: int| 0 <= k < n.len() && n[k] == uid;
            assert(n == rest.push(s.last()));
            assert(k == rest.len());
        }
    }
}

/// Law: a UID recorded as seen is never new again: whatever a later search
/// returns, the UIDs taken as new are all above it.
pub proof fn law_seen_uid_not_new_again(found: Seq<u32>, last: Option<u32>, uid: u32)
    ensures
        ({
            let moved = Some(match last {
                None => uid,
                Some(l) => if uid > l { uid } else { l },
            });
            forall|x: u32| #[trigger] newer_than(found, moved).contains(x) ==> x > uid
        }),
{
    let moved = Some(match last {
        None => uid,
        Some(l) => if uid > l { uid } else { l },
    });
    assert forall|x: u32| #[trigger] newer_than(found, moved).contains(x) implies x > uid by {
        lemma_newer_than_contains(found, moved, x);
    }
}

} // verus!
