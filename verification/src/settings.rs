//! The non-secret detector settings that need no floating point, and the
//! rules that sanitise every setting before it is used or saved.

use vstd::prelude::*;
use crate::text::{
    is_blank, is_white_space, law_trim_idempotent, law_trim_keeps_alphanumeric_ends, law_trim_keeps_bare_text, owned, trim, trimmed,
};

verus! {

/// `value` limited to `lo..=hi` (`Ord::clamp`).
pub open spec fn clamped(value: u64, lo: u64, hi: u64) -> u64 {
    if value < lo { lo } else if value > hi { hi } else { value }
}

/// Limits `value` to `lo..=hi`.
pub fn clamp_u64(value: u64, lo: u64, hi: u64) -> (c: u64)
    requires
        lo <= hi,
    ensures
        c == clamped(value, lo, hi),
{
    if value < lo { lo } else if value > hi { hi } else { value }
}

/// The battery detector polls every 5 s to 1 h.
pub fn sanitize_battery_poll_seconds(value: u64) -> (c: u64)
    ensures
        c == clamped(value, 5, 3_600),
{
    clamp_u64(value, 5, 3_600)
}

/// The temperature detector polls every 2 s to 5 min.
pub fn sanitize_temperature_poll_seconds(value: u64) -> (c: u64)
    ensures
        c == clamped(value, 2, 300),
{
    clamp_u64(value, 2, 300)
}

/// Settings of the downloads detector.
#[derive(Debug)]
pub struct DownloadsSettings {
    pub enabled: bool,
    /// The folder to watch; the operating system's Downloads folder when unset.
    pub directory: Option<String>,
}

impl Default for DownloadsSettings {
    fn default() -> (s: Self)
        ensures
            s.enabled,
            s.directory is None,
    {
        DownloadsSettings { enabled: true, directory: None }
    }
}

impl Clone for DownloadsSettings {
    fn clone(&self) -> (c: Self)
        ensures
            c.enabled == self.enabled,
            c.directory is Some <==> self.directory is Some,
            c.directory is Some ==> c.directory->Some_0@ == self.directory->Some_0@,
    {
        DownloadsSettings {
            enabled: self.enabled,
            directory: match &self.directory {
                Some(d) => Some(d.clone()),
                None => None,
            },
        }
    }
}

/// Settings of the IMAP new-mail detector.
#[derive(Debug)]
pub struct EmailSettings {
    pub enabled: bool,
    pub host: String,
    pub port: u16,
    pub username: String,
    pub mailbox: String,
    pub poll_seconds: u64,
}

impl Default for EmailSettings {
    fn default() -> (s: Self)
        ensures
            !s.enabled,
            s.host@ == Seq::<char>::empty(),
            s.port == 993,
            s.username@ == Seq::<char>::empty(),
            s.mailbox@ == "INBOX"@,
            s.poll_seconds == 60,
            trimmed(s.host@) == s.host@,
            trimmed(s.username@) == s.username@,
            sanitized_mailbox(s.mailbox@) == s.mailbox@,
    {
        let s = EmailSettings {
            enabled: false,
            host: String::new(),
            port: 993,
            username: String::new(),
            mailbox: owned("INBOX"),
            poll_seconds: 60,
        };
        proof {
            reveal_strlit("INBOX");
            law_trim_keeps_bare_text(s.host@);
            law_trim_keeps_alphanumeric_ends(s.mailbox@);
        }
        s
    }
}

impl Clone for EmailSettings {
    fn clone(&self) -> (c: Self)
        ensures
            c.enabled == self.enabled,
            c.host@ == self.host@,
            c.port == self.port,
            c.username@ == self.username@,
            c.mailbox@ == self.mailbox@,
            c.poll_seconds == self.poll_seconds,
    {
        EmailSettings {
            enabled: self.enabled,
            host: self.host.clone(),
            port: self.port,
            username: self.username.clone(),
            mailbox: self.mailbox.clone(),
            poll_seconds: self.poll_seconds,
        }
    }
}

/// The mailbox actually watched: the trimmed name, `INBOX` when that is empty.
pub open spec fn sanitized_mailbox(mailbox: Seq<char>) -> Seq<char> {
    if trimmed(mailbox).len() == 0 { "INBOX"@ } else { trimmed(mailbox) }
}

impl EmailSettings {
    /// Trims the host, user name and mailbox, falls back to `INBOX` for an
    /// empty mailbox, and limits polling to every 15 s to 1 h. The result is
    /// its own sanitised form, so sanitising again changes nothing.
    pub fn sanitized(self) -> (s: Self)
        ensures
            s.enabled == self.enabled,
            s.host@ == trimmed(self.host@),
            s.port == self.port,
            s.username@ == trimmed(self.username@),
            s.mailbox@ == sanitized_mailbox(self.mailbox@),
            s.poll_seconds == clamped(self.poll_seconds, 15, 3_600),
            trimmed(s.host@) == s.host@,
            trimmed(s.username@) == s.username@,
            sanitized_mailbox(s.mailbox@) == s.mailbox@,
            clamped(s.poll_seconds, 15, 3_600) == s.poll_seconds,
    {
        let host = owned(trim(self.host.as_str()));
        let username = owned(trim(self.username.as_str()));
        let trimmed_mailbox = trim(self.mailbox.as_str());
        let mailbox = if trimmed_mailbox.is_empty() { owned("INBOX") } else { owned(trimmed_mailbox) };
        proof {
            reveal_strlit("INBOX");
            law_trim_idempotent(self.host@);
            law_trim_idempotent(self.username@);
            law_trim_idempotent(self.mailbox@);
            law_trim_keeps_alphanumeric_ends("INBOX"@);
        }
        EmailSettings {
            enabled: self.enabled,
            host,
            port: self.port,
            username,
            mailbox,
            poll_seconds: clamp_u64(self.poll_seconds, 15, 3_600),
        }
    }

    /// The email detector runs only when enabled with a non-blank user name.
    pub fn detector_enabled(&self) -> (run: bool)
        ensures
            run == (self.enabled && !is_blank(self.username@)),
    {
        self.enabled && !crate::text::blank(self.username.as_str())
    }
}

/// Settings of the Discord bot message detector.
#[derive(Debug)]
pub struct DiscordSettings {
    pub enabled: bool,
    /// Guild channels whose messages are reported; direct messages always are.
    pub allowed_channel_ids: Vec<u64>,
}

impl Default for DiscordSettings {
    fn default() -> (s: Self)
        ensures
            !s.enabled,
            s.allowed_channel_ids@ == Seq::<u64>::empty(),
    {
        DiscordSettings { enabled: false, allowed_channel_ids: Vec::new() }
    }
}

impl Clone for DiscordSettings {
    fn clone(&self) -> (c: Self)
        ensures
            c.enabled == self.enabled,
            c.allowed_channel_ids@ == self.allowed_channel_ids@,
    {
        DiscordSettings { enabled: self.enabled, allowed_channel_ids: self.allowed_channel_ids.clone() }
    }
}

/// Each element is smaller than every later one: sorted, without repeats.
pub open spec fn strictly_increasing(s: Seq<u64>) -> bool {
    forall|i: int, j: int| 0 <= i < j < s.len() ==> s[i] < s[j]
}

/// `a` and `b` hold the same values, regardless of order and repetition.
pub open spec fn same_elements(a: Seq<u64>, b: Seq<u64>) -> bool {
    forall|x: u64| a.contains(x) <==> b.contains(x)
}

/// The channel ids sorted ascending with duplicates removed
/// (`sort_unstable` followed by `dedup`).
pub fn sorted_unique(ids: &Vec<u64>) -> (out: Vec<u64>)
    ensures
        strictly_increasing(out@),
        same_elements(out@, ids@),
{
    let mut out: Vec<u64> = Vec::new();
    let n = ids.len();
    let mut i: usize = 0;
    while i < n
        invariant
            n == ids@.len(),
            i <= n,
            strictly_increasing(out@),
            same_elements(out@, ids@.take(i as int)),
        decreases n - i,
    {
        let x = ids[i];
        let m = out.len();
        let mut p: usize = 0;
        while p < m && out[p] < x
            invariant
                m == out@.len(),
                p <= m,
                forall|k: int| 0 <= k < p ==> out@[k] < x,
            decreases m - p,
        {
            p = p + 1;
        }
        let ghost before = out@;
        let ghost t0 = ids@.take(i as int);
        let ghost t1 = ids@.take(i + 1);
        assert(t1 =~= t0.push(x));
        if p < m && out[p] == x {
            assert(before[p as int] == x);
            assert forall|y: u64| out@.contains(y) <==> t1.contains(y) by {
                if y == x {
                    assert(t1[i as int] == x);
                } else if t1.contains(y) {
                    let k = choose|k: int| 0 <= k < i + 1 && t1[k] == y;
                    assert(t0[k] == y);
                } else if out@.contains(y) {
                    assert(t0.contains(y));
                    let k = choose|k: int| 0 <= k < i && t0[k] == y;
                    assert(t1[k] == y);
                }
            }
        } else {
            out.insert(p, x);
            assert(out@ =~= before.insert(p as int, x));
            assert forall|a: int, b: int| 0 <= a < b < out@.len() implies out@[a] < out@[b] by {
                if b < p {
                    assert(out@[a] == before[a] && out@[b] == before[b]);
                } else if b == p {
                    assert(out@[a] == before[a]);
                } else if a < p {
                    assert(out@[a] == before[a] && out@[b] == before[b - 1]);
                    assert(before[a] < before[p as int] || p == b - 1);
                } else if a == p {
                    assert(out@[b] == before[b - 1]);
                    assert(before[p as int] >= x);
                    assert(before[p as int] != x);
                    assert(before[p as int] <= before[b - 1]);
                } else {
                    assert(out@[a] == before[a - 1] && out@[b] == before[b - 1]);
                }
            }
            assert forall|y: u64| out@.contains(y) <==> t1.contains(y) by {
                if y == x {
                    assert(out@[p as int] == x);
                    assert(t1[i as int] == x);
                } else {
                    if out@.contains(y) {
                        let k = choose|k: int| 0 <= k < out@.len() && out@[k] == y;
                        if k < p {
                            assert(before[k] == y);
                        } else {
                            assert(before[k - 1] == y);
                        }
                        assert(before.contains(y));
                        assert(t0.contains(y));
                        let j = choose|j: int| 0 <= j < i && t0[j] == y;
                        assert(t1[j] == y);
                    }
                    if t1.contains(y) {
                        let j = choose|j: int| 0 <= j < i + 1 && t1[j] == y;
                        assert(t0[j] == y);
                        assert(before.contains(y));
                        let k = choose|k: int| 0 <= k < before.len() && before[k] == y;
                        if k < p {
                            assert(out@[k] == y);
                        } else {
                            assert(out@[k + 1] == y);
                        }
                    }
                }
            }
        }
        i = i + 1;
    }
    assert(ids@.take(n as int) =~= ids@);
    out
}

impl DiscordSettings {
    /// Sorts the allowed channel ids ascending and removes duplicates.
    pub fn sanitized(self) -> (s: Self)
        ensures
            s.enabled == self.enabled,
            strictly_increasing(s.allowed_channel_ids@),
            same_elements(s.allowed_channel_ids@, self.allowed_channel_ids@),
    {
        DiscordSettings { enabled: self.enabled, allowed_channel_ids: sorted_unique(&self.allowed_channel_ids) }
    }
}

/// Law: a sorted list without repeats is determined by its elements, so the
/// sanitised channel list depends only on which ids were configured, and
/// sanitising an already sanitised list leaves it unchanged.
pub proof fn law_sorted_unique_is_canonical(a: Seq<u64>, b: Seq<u64>)
    requires
        strictly_increasing(a),
        strictly_increasing(b),
        same_elements(a, b),
    ensures
        a == b,
    decreases a.len(),
{
    if a.len() == 0 {
        if b.len() > 0 {
            assert(b.contains(b[0]));
            assert(a.contains(b[0]));
        }
        assert(a =~= b);
    } else {
        assert(a.contains(a[0]));
        assert(b.contains(a[0]));
        assert(b.len() > 0);
        assert(b.contains(b[0]));
        assert(a.contains(b[0]));
        let k = choose|k: int| 0 <= k < a.len() && a[k] == b[0];
        let j = choose|j: int| 0 <= j < b.len() && b[j] == a[0];
        assert(a[0] <= a[k]);
        assert(b[0] <= b[j]);
        assert(a[0] == b[0]);
        let a1 = a.drop_first();
        let b1 = b.drop_first();
        assert forall|x: u64| a1.contains(x) <==> b1.contains(x) by {
            if a1.contains(x) {
                let i = choose|i: int| 0 <= i < a1.len() && a1[i] == x;
                assert(a[i + 1] == x);
                assert(a.contains(x));
                let i2 = choose|i2: int| 0 <= i2 < b.len() && b[i2] == x;
                assert(a[0] < a[i + 1]);
                assert(i2 != 0);
                assert(b1[i2 - 1] == x);
            }
            if b1.contains(x) {
                let i = choose|i: int| 0 <= i < b1.len() && b1[i] == x;
                assert(b[i + 1] == x);
                assert(b.contains(x));
                let i2 = choose|i2: int| 0 <= i2 < a.len() && a[i2] == x;
                assert(b[0] < b[i + 1]);
                assert(i2 != 0);
                assert(a1[i2 - 1] == x);
            }
        }
        assert forall|p: int, q: int| 0 <= p < q < a1.len() implies a1[p] < a1[q] by {
            assert(a1[p] == a[p + 1] && a1[q] == a[q + 1]);
        }
        assert forall|p: int, q: int| 0 <= p < q < b1.len() implies b1[p] < b1[q] by {
            assert(b1[p] == b[p + 1] && b1[q] == b[q + 1]);
        }
        law_sorted_unique_is_canonical(a1, b1);
        assert(a =~= b) by {
            assert forall|i: int| 0 <= i < a.len() implies a[i] == b[i] by {
                if i > 0 {
                    assert(a[i] == a1[i - 1] && b[i] == b1[i - 1]);
                }
            }
        }
    }
}

/// Law: the mailbox of sanitised email settings is never empty.
pub proof fn law_sanitized_mailbox_not_empty(mailbox: Seq<char>)
    ensures
        sanitized_mailbox(mailbox).len() > 0,
{
    reveal_strlit("INBOX");
}

/// Law: a clamped poll interval lies in its range, and clamping again leaves
/// it unchanged.
pub proof fn law_clamp_in_range_and_stable(value: u64, lo: u64, hi: u64)
    requires
        lo <= hi,
    ensures
        lo <= clamped(value, lo, hi) <= hi,
        clamped(clamped(value, lo, hi), lo, hi) == clamped(value, lo, hi),
{
}

/// Law: a mailbox with a name that is not all white space is kept, trimmed;
/// a name with no white space at its ends is kept exactly; only a blank name
/// falls back to `INBOX`.
pub proof fn law_named_mailbox_is_kept(mailbox: Seq<char>)
    ensures
        trimmed(mailbox).len() > 0 ==> sanitized_mailbox(mailbox) == trimmed(mailbox),
        mailbox.len() > 0 && !is_white_space(mailbox[0]) && !is_white_space(mailbox.last())
            ==> sanitized_mailbox(mailbox) == mailbox,
        is_blank(mailbox) ==> sanitized_mailbox(mailbox) == "INBOX"@,
{
    if mailbox.len() > 0 && !is_white_space(mailbox[0]) && !is_white_space(mailbox.last()) {
        law_trim_keeps_bare_text(mailbox);
    }
}

} // verus!
