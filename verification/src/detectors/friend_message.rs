//! Discord bot messages: which incoming messages become alerts, and the
//! bounded memory of recent message ids that rejects replayed deliveries.

use vstd::prelude::*;
use std::collections::{HashSet, VecDeque};
use crate::text::{is_blank, joined, trim, trimmed, truncate, truncated};

verus! {

broadcast use vstd::std_specs::hash::group_hash_axioms;

/// The last `capacity` elements of `s` (all of them when there are fewer).
pub open spec fn newest(s: Seq<u64>, capacity: nat) -> Seq<u64> {
    if s.len() > capacity { s.subrange(s.len() - capacity, s.len() as int) } else { s }
}

/// No value occurs twice in `s`.
pub open spec fn distinct(s: Seq<u64>) -> bool {
    forall|i: int, j: int| 0 <= i < s.len() && 0 <= j < s.len() && i != j ==> s[i] != s[j]
}

/// A bounded first-in, first-out memory of recently accepted message ids.
pub struct RecentMessageIds {
    capacity: usize,
    order: VecDeque<u64>,
    ids: HashSet<u64>,
}

impl View for RecentMessageIds {
    /// The remembered ids, oldest first.
    type V = Seq<u64>;

    closed spec fn view(&self) -> Seq<u64> {
        self.order@
    }
}

impl RecentMessageIds {
    /// The memory's invariant: the set mirrors the queue, which holds no
    /// repeats and never more than `capacity` ids.
    pub closed spec fn wf(&self) -> bool {
        &&& self.ids@ == self.order@.to_set()
        &&& distinct(self.order@)
        &&& self.order@.len() <= self.capacity
    }

    pub closed spec fn spec_capacity(&self) -> nat {
        self.capacity as nat
    }

    /// The ids in the lookup set.
    pub closed spec fn id_set(&self) -> Set<u64> {
        self.ids@
    }

    /// Law: a well-formed memory holds no id twice and no more ids than its
    /// capacity, and its lookup set holds exactly the remembered ids, so the
    /// set and the queue have the same size. `new` establishes it and
    /// `accept` keeps it.
    pub proof fn law_memory_invariant(&self)
        requires
            self.wf(),
        ensures
            distinct(self@),
            self@.len() <= self.spec_capacity(),
            self.id_set() == self@.to_set(),
            self.id_set().len() == self@.len(),
    {
        self.order@.unique_seq_to_set();
    }

    /// An empty memory of at most `capacity` ids.
    pub fn new(capacity: usize) -> (r: Self)
        ensures
            r.wf(),
            r@ == Seq::<u64>::empty(),
            r.spec_capacity() == capacity,
    {
        let r = RecentMessageIds {
            capacity,
            order: VecDeque::with_capacity(capacity),
            ids: HashSet::with_capacity(capacity),
        };
        assert(r.order@.to_set() =~= Set::<u64>::empty());
        r
    }

    /// Accepts `id` unless it is remembered; an accepted id is remembered and
    /// the oldest ids are forgotten beyond the capacity.
    pub fn accept(&mut self, id: u64) -> (accepted: bool)
        requires
            old(self).wf(),
        ensures
            final(self).wf(),
            final(self).spec_capacity() == old(self).spec_capacity(),
            accepted == !old(self)@.contains(id),
            accepted ==> final(self)@ == newest(old(self)@.push(id), old(self).spec_capacity()),
            !accepted ==> final(self)@ == old(self)@,
    {
        let ghost ids_before = self.ids@;
        if !self.ids.insert(id) {
            assert(self.ids@ =~= ids_before);
            return false;
        }
        let ghost before = self.order@;
        self.order.push_back(id);
        proof {
            assert(self.ids@ =~= self.order@.to_set()) by {
                assert forall|x: u64| self.order@.to_set().contains(x) <==> self.ids@.contains(x) by {
                    if x == id {
                        assert(self.order@[before.len() as int] == id);
                    } else if before.contains(x) {
                        let k = choose|k: int| 0 <= k < before.len() && before[k] == x;
                        assert(self.order@[k] == x);
                    } else if self.order@.contains(x) {
                        let k = choose|k: int| 0 <= k < self.order@.len() && self.order@[k] == x;
                        assert(before[k] == x);
                    }
                }
            }
            assert forall|i: int, j: int|
                0 <= i < self.order@.len() && 0 <= j < self.order@.len() && i != j implies self.order@[i] != self.order@[j] by {
                if i < before.len() && j < before.len() {
                } else if i < before.len() {
                    assert(before.contains(before[i]));
                } else if j < before.len() {
                    assert(before.contains(before[j]));
                }
            }
        }
        let ghost full = self.order@;
        assert(full.subrange(0, full.len() as int) =~= full);
        while self.order.len() > self.capacity
            invariant
                self.ids@ == self.order@.to_set(),
                distinct(self.order@),
                self.order@.len() <= full.len(),
                full.len() > self.capacity ==> self.order@.len() >= self.capacity,
                full.len() <= self.capacity ==> self.order@ == full,
                self.capacity == old(self).capacity,
                self.order@ == full.subrange(full.len() - self.order@.len(), full.len() as int),
                full.len() <= self.capacity + 1,
            decreases self.order@.len(),
        {
            let ghost prev = self.order@;
            let front = self.order.pop_front();
            match front {
                Some(expired) => {
                    self.ids.remove(&expired);
                    proof {
                        assert(self.order@ =~= prev.subrange(1, prev.len() as int));
                        assert(self.ids@ =~= self.order@.to_set()) by {
                            assert forall|x: u64| self.order@.to_set().contains(x) <==> self.ids@.contains(x) by {
                                if self.order@.contains(x) {
                                    let k = choose|k: int| 0 <= k < self.order@.len() && self.order@[k] == x;
                                    assert(prev[k + 1] == x);
                                    assert(prev.contains(x));
                                    assert(x != expired);
                                }
                                if x != expired && prev.contains(x) {
                                    let k = choose|k: int| 0 <= k < prev.len() && prev[k] == x;
                                    assert(k != 0);
                                    assert(self.order@[k - 1] == x);
                                }
                            }
                        }
                        assert forall|i: int, j: int|
                            0 <= i < self.order@.len() && 0 <= j < self.order@.len() && i != j implies self.order@[i] != self.order@[j] by {
                            assert(self.order@[i] == prev[i + 1] && self.order@[j] == prev[j + 1]);
                        }
                        let ghost start = full.len() - prev.len();
                        assert forall|i: int| 0 <= i < self.order@.len() implies self.order@[i] == full[start + 1 + i] by {
                            assert(self.order@[i] == prev[i + 1]);
                            assert(prev[i + 1] == full.subrange(start, full.len() as int)[i + 1]);
                        }
                        assert(self.order@ =~= full.subrange(full.len() - self.order@.len(), full.len() as int));
                    }
                },
                None => {},
            }
        }
        proof {
            assert(full == before.push(id));
            if full.len() > self.capacity {
                assert(self.order@.len() == self.capacity);
            } else {
                assert(self.order@ =~= full);
            }
        }
        true
    }

    /// Number of ids in the arrival-order queue.
    pub fn order_len(&self) -> (n: usize)
        ensures
            n == self@.len(),
    {
        self.order.len()
    }

    /// Number of ids in the lookup set.
    pub fn ids_len(&self) -> (n: usize)
        requires
            self.wf(),
        ensures
            n == self@.len(),
    {
        proof {
            self.order@.unique_seq_to_set();
        }
        self.ids.len()
    }
}

/// How many message ids the Discord detector remembers against replays.
pub const RECENT_MESSAGE_CAPACITY: usize = 512;

/// The parts of an incoming Discord message that decide whether it alerts.
pub struct IncomingMessage {
    pub author_is_bot: bool,
    pub from_webhook: bool,
    /// Posted in a guild channel rather than as a direct message.
    pub in_guild: bool,
    pub channel_id: u64,
    pub message_id: u64,
    pub author_name: String,
    pub content: String,
}

/// The alert body: the trimmed content cut to 160 characters, or a
/// placeholder when the message carries no readable text.
pub open spec fn message_body(content: Seq<char>) -> Seq<char> {
    if is_blank(content) {
        "(attachment, embed, or message content unavailable)"@
    } else {
        truncated(trimmed(content), 160)
    }
}

/// The alert text of a message: `author: body`.
pub open spec fn message_alert_text(author: Seq<char>, content: Seq<char>) -> Seq<char> {
    author + ": "@ + message_body(content)
}

/// The message is one that the detector reports at all: written by a person
/// (not a bot or a webhook), either directly or in an allowed channel.
pub open spec fn is_reportable(allowed: Set<u64>, m: IncomingMessage) -> bool {
    &&& !m.author_is_bot
    &&& !m.from_webhook
    &&& (m.in_guild ==> allowed.contains(m.channel_id))
}

/// Builds the alert text of a message.
pub fn alert_text(author: &str, content: &str) -> (text: String)
    ensures
        text@ == message_alert_text(author@, content@),
{
    let trimmed_content = trim(content);
    let body = if trimmed_content.is_empty() {
        crate::text::owned("(attachment, embed, or message content unavailable)")
    } else {
        truncate(trimmed_content, 160)
    };
    let mut text = joined(author, ": ");
    text.append(body.as_str());
    text
}

/// The set of channels whose messages are reported.
pub fn channel_set(ids: &Vec<u64>) -> (set: HashSet<u64>)
    ensures
        set@ == ids@.to_set(),
{
    let mut set: HashSet<u64> = HashSet::new();
    let n = ids.len();
    let mut i: usize = 0;
    while i < n
        invariant
            n == ids@.len(),
            i <= n,
            set@ == ids@.take(i as int).to_set(),
        decreases n - i,
    {
        let ghost before = set@;
        set.insert(ids[i]);
        proof {
            assert(ids@.take(i + 1) =~= ids@.take(i as int).push(ids@[i as int]));
            assert(set@ =~= ids@.take(i + 1).to_set()) by {
                assert forall|x: u64| set@.contains(x) <==> ids@.take(i + 1).to_set().contains(x) by {
                    let t0 = ids@.take(i as int);
                    let t1 = ids@.take(i + 1);
                    if x == ids@[i as int] {
                        assert(t1[i as int] == x);
                    } else if t0.contains(x) {
                        let k = choose|k: int| 0 <= k < t0.len() && t0[k] == x;
                        assert(t1[k] == x);
                    } else if t1.contains(x) {
                        let k = choose|k: int| 0 <= k < t1.len() && t1[k] == x;
                        assert(t0[k] == x);
                    }
                }
            }
        }
        i = i + 1;
    }
    assert(ids@.take(n as int) =~= ids@);
    set
}

/// Decides which Discord messages become alerts.
pub struct DiscordMessageFilter {
    allowed_channels: HashSet<u64>,
    recent: RecentMessageIds,
}

impl DiscordMessageFilter {
    pub closed spec fn wf(&self) -> bool {
        self.recent.wf()
    }

    /// The guild channels whose messages are reported.
    pub closed spec fn allowed(&self) -> Set<u64> {
        self.allowed_channels@
    }

    /// The recently accepted message ids, oldest first.
    pub closed spec fn recent(&self) -> Seq<u64> {
        self.recent@
    }

    pub closed spec fn capacity(&self) -> nat {
        self.recent.spec_capacity()
    }

    /// A filter for the given allowed channels that remembers the last
    /// `RECENT_MESSAGE_CAPACITY` message ids.
    pub fn new(allowed_channel_ids: &Vec<u64>) -> (f: Self)
        ensures
            f.wf(),
            f.allowed() == allowed_channel_ids@.to_set(),
            f.recent() == Seq::<u64>::empty(),
            f.capacity() == RECENT_MESSAGE_CAPACITY,
    {
        DiscordMessageFilter {
            allowed_channels: channel_set(allowed_channel_ids),
            recent: RecentMessageIds::new(RECENT_MESSAGE_CAPACITY),
        }
    }

    /// The alert text for `m`, or `None` when it is not reportable or is a
    /// replay of a recently accepted message id.
    pub fn alert_for(&mut self, m: &IncomingMessage) -> (text: Option<String>)
        requires
            old(self).wf(),
        ensures
            final(self).wf(),
            final(self).allowed() == old(self).allowed(),
            final(self).capacity() == old(self).capacity(),
            !is_reportable(old(self).allowed(), *m) ==> text is None && final(self).recent() == old(self).recent(),
            is_reportable(old(self).allowed(), *m) && old(self).recent().contains(m.message_id) ==> text is None
                && final(self).recent() == old(self).recent(),
            is_reportable(old(self).allowed(), *m) && !old(self).recent().contains(m.message_id) ==> {
                &&& text is Some
                &&& text->Some_0@ == message_alert_text(m.author_name@, m.content@)
                &&& final(self).recent() == newest(old(self).recent().push(m.message_id), old(self).capacity())
            },
    {
        if m.author_is_bot || m.from_webhook {
            return None;
        }
        if m.in_guild && !self.allowed_channels.contains(&m.channel_id) {
            return None;
        }
        if !self.recent.accept(m.message_id) {
            return None;
        }
        Some(alert_text(m.author_name.as_str(), m.content.as_str()))
    }
}

/// Law: a message id that was just accepted is refused if it arrives again
/// at once, whenever the memory holds at least one id.
pub proof fn law_replay_refused(recent: Seq<u64>, capacity: nat, id: u64)
    requires
        capacity > 0,
    ensures
        newest(recent.push(id), capacity).contains(id),
{
    let s = recent.push(id);
    let n = newest(s, capacity);
    assert(n[n.len() - 1] == id);
}

/// Law: the memory never holds more than its capacity.
pub proof fn law_memory_bounded(recent: Seq<u64>, capacity: nat, id: u64)
    ensures
        newest(recent.push(id), capacity).len() <= capacity,
{
}

/// Law: a guild message is reported only from an allowed channel, so with no
/// allowed channel (the default settings) only direct messages are reported.
pub proof fn law_guild_messages_need_an_allowed_channel(allowed: Set<u64>, m: IncomingMessage)
    ensures
        is_reportable(allowed, m) && m.in_guild ==> allowed.contains(m.channel_id),
        is_reportable(Set::empty(), m) ==> !m.in_guild,
        !m.author_is_bot && !m.from_webhook && !m.in_guild ==> is_reportable(allowed, m),
{
}

} // verus!
