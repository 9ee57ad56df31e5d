//! The central duplicate filter and the bounded event queue between detectors
//! and the HUD.

use vstd::prelude::*;
use crate::event::{event_model, EventModel, IonSenseEvent, IonSenseEventType};
use crate::text::{normalize_template, template_of};

verus! {

/// How long, in nanoseconds, an admitted event suppresses later events with
/// the same key. One window for every detector keeps behaviour predictable:
/// identical system conditions and exact duplicate content messages are
/// collapsed for thirty seconds.
pub const SUPPRESS_WINDOW_NS: u64 = 30_000_000_000;

/// Upper bound on remembered keys, so that a pathological detector cannot
/// grow the filter without limit.
pub const SUPPRESSION_CACHE_LIMIT: usize = 128;

/// A remembered key and when it was admitted, as plain values:
/// (event type, context, admission time in nanoseconds).
pub type EntryModel = (IonSenseEventType, Seq<char>, u64);

/// Time from `at` to `now`, zero when `at` lies in the future.
pub open spec fn elapsed(at: u64, now: u64) -> int {
    if now >= at { now - at } else { 0 }
}

/// An admission at `at` still suppresses duplicates at `now`.
pub open spec fn is_fresh(at: u64, now: u64) -> bool {
    elapsed(at, now) < SUPPRESS_WINDOW_NS
}

/// The entries of `s` that are still fresh at `now`, in their order.
pub open spec fn live_entries(s: Seq<EntryModel>, now: u64) -> Seq<EntryModel>
    decreases s.len(),
{
    if s.len() == 0 {
        Seq::empty()
    } else {
        let rest = live_entries(s.drop_last(), now);
        if is_fresh(s.last().2, now) { rest.push(s.last()) } else { rest }
    }
}

/// `s` remembers the key (`event_type`, `context`).
pub open spec fn has_key(s: Seq<EntryModel>, event_type: IonSenseEventType, context: Seq<char>) -> bool {
    exists|i: int| 0 <= i < s.len() && #[trigger] s[i].0 == event_type && s[i].1 == context
}

/// No key is remembered twice.
pub open spec fn unique_keys(s: Seq<EntryModel>) -> bool {
    forall|i: int, j: int|
        0 <= i < s.len() && 0 <= j < s.len() && i != j ==> !(#[trigger] s[i].0 == #[trigger] s[j].0 && s[i].1 == s[j].1)
}

/// The text that decides whether two events of the same type are duplicates.
/// System detectors emit templates whose readings vary, so the digit-collapsed
/// template identifies the condition; content detectors forward external text,
/// which only an exact match duplicates.
pub open spec fn context_of(event_type: IonSenseEventType, message: Seq<char>) -> Seq<char> {
    match event_type {
        IonSenseEventType::BatteryLow
        | IonSenseEventType::Overheating
        | IonSenseEventType::DownloadFinished => template_of(message),
        _ => message,
    }
}

/// What the filter decides for key (`event_type`, `context`) at `now`, and the
/// entries it remembers afterwards: expired entries are dropped; a live key
/// is refused; otherwise the key is admitted and remembered, after forgetting
/// everything if the cache is full.
pub open spec fn suppression_decision(s: Seq<EntryModel>, event_type: IonSenseEventType, context: Seq<char>, now: u64)
    -> (bool, Seq<EntryModel>)
{
    let live = live_entries(s, now);
    if has_key(live, event_type, context) {
        (false, live)
    } else {
        let base = if live.len() >= SUPPRESSION_CACHE_LIMIT { Seq::<EntryModel>::empty() } else { live };
        (true, base.push((event_type, context, now)))
    }
}

/// Returns the duplicate-suppression context of an event.
pub fn suppression_context(event: &IonSenseEvent) -> (context: String)
    ensures
        context@ == context_of(event.event_type, event.message@),
{
    match event.event_type {
        IonSenseEventType::BatteryLow
        | IonSenseEventType::Overheating
        | IonSenseEventType::DownloadFinished => normalize_template(event.message.as_str()),
        IonSenseEventType::NewEmail
        | IonSenseEventType::FriendMessage
        | IonSenseEventType::PackageDelivered => event.message.clone(),
    }
}

/// A remembered suppression key.
pub struct SuppressionEntry {
    pub event_type: IonSenseEventType,
    pub context: String,
    pub admitted_at: u64,
}

pub open spec fn entry_model(e: SuppressionEntry) -> EntryModel {
    (e.event_type, e.context@, e.admitted_at)
}

/// The keys that the filter remembers.
pub struct SuppressionState {
    seen: Vec<SuppressionEntry>,
}

impl View for SuppressionState {
    type V = Seq<EntryModel>;

    closed spec fn view(&self) -> Seq<EntryModel> {
        self.seen@.map_values(|e: SuppressionEntry| entry_model(e))
    }
}

/// Every element of the live part of `s` is an element of `s` that is fresh.
pub proof fn lemma_live_entries_subset(s: Seq<EntryModel>, now: u64)
    ensures
        live_entries(s, now).len() <= s.len(),
        forall|x: EntryModel| #[trigger] live_entries(s, now).contains(x) ==> s.contains(x) && is_fresh(x.2, now),
    decreases s.len(),
{
    if s.len() > 0 {
        lemma_live_entries_subset(s.drop_last(), now);
        let rest = live_entries(s.drop_last(), now);
        assert forall|x: EntryModel| #[trigger] live_entries(s, now).contains(x) implies s.contains(x) && is_fresh(x.2, now) by {
            if rest.contains(x) {
                let k = choose|k: int| 0 <= k < s.drop_last().len() && s.drop_last()[k] == x;
                assert(s[k] == x);
            } else {
                assert(x == s.last());
                assert(s[s.len() - 1] == x);
            }
        }
    }
}

/// Every fresh element of `s` stays in the live part of `s`.
pub proof fn lemma_live_entries_keeps_fresh(s: Seq<EntryModel>, now: u64, x: EntryModel)
    requires
        s.contains(x),
        is_fresh(x.2, now),
    ensures
        live_entries(s, now).contains(x),
    decreases s.len(),
{
    let rest = live_entries(s.drop_last(), now);
    if s.last() == x {
        assert(live_entries(s, now) == rest.push(x));
        assert(live_entries(s, now)[rest.len() as int] == x);
    } else {
        let k = choose|k: int| 0 <= k < s.len() && s[k] == x;
        assert(s.drop_last()[k] == x);
        lemma_live_entries_keeps_fresh(s.drop_last(), now, x);
        let j = choose|j: int| 0 <= j < rest.len() && rest[j] == x;
        if is_fresh(s.last().2, now) {
            assert(live_entries(s, now)[j] == x);
        }
    }
}

/// Dropping expired entries keeps keys unique.
pub proof fn lemma_live_entries_unique(s: Seq<EntryModel>, now: u64)
    requires
        unique_keys(s),
    ensures
        unique_keys(live_entries(s, now)),
    decreases s.len(),
{
    if s.len() > 0 {
        let p = s.drop_last();
        assert(unique_keys(p)) by {
            assert forall|i: int, j: int|
                0 <= i < p.len() && 0 <= j < p.len() && i != j implies !(#[trigger] p[i].0 == #[trigger] p[j].0 && p[i].1 == p[j].1) by {
                assert(p[i] == s[i] && p[j] == s[j]);
            }
        }
        lemma_live_entries_unique(p, now);
        lemma_live_entries_subset(p, now);
        let rest = live_entries(p, now);
        if is_fresh(s.last().2, now) {
            let l = rest.push(s.last());
            assert forall|i: int, j: int|
                0 <= i < l.len() && 0 <= j < l.len() && i != j implies !(#[trigger] l[i].0 == #[trigger] l[j].0 && l[i].1 == l[j].1) by {
                if i < rest.len() && j < rest.len() {
                    assert(l[i] == rest[i] && l[j] == rest[j]);
                } else if i < rest.len() {
                    assert(rest.contains(rest[i]));
                    let k = choose|k: int| 0 <= k < p.len() && p[k] == rest[i];
                    assert(s[k] == p[k]);
                    assert(l[j] == s[s.len() - 1]);
                } else if j < rest.len() {
                    assert(rest.contains(rest[j]));
                    let k = choose|k: int| 0 <= k < p.len() && p[k] == rest[j];
                    assert(s[k] == p[k]);
                    assert(l[i] == s[s.len() - 1]);
                }
            }
        }
    }
}

impl SuppressionState {
    /// The invariant: unique keys, never more than the cache limit.
    pub closed spec fn wf(&self) -> bool {
        &&& unique_keys(self@)
        &&& self@.len() <= SUPPRESSION_CACHE_LIMIT
    }

    /// A filter that remembers nothing.
    pub fn new() -> (state: Self)
        ensures
            state.wf(),
            state@ == Seq::<EntryModel>::empty(),
    {
        let state = SuppressionState { seen: Vec::new() };
        assert(state@ =~= Seq::<EntryModel>::empty());
        state
    }

    /// Number of remembered keys.
    pub fn len(&self) -> (n: usize)
        ensures
            n == self@.len(),
    {
        self.seen.len()
    }

    /// Forgets every key whose suppression window has passed at `now`.
    pub fn evict_expired(&mut self, now: u64)
        requires
            old(self).wf(),
        ensures
            final(self).wf(),
            final(self)@ == live_entries(old(self)@, now),
    {
        let ghost before = self@;
        let mut kept: Vec<SuppressionEntry> = Vec::new();
        let n = self.seen.len();
        let mut i: usize = 0;
        while i < n
            invariant
                n == self.seen@.len(),
                before == self.seen@.map_values(|e: SuppressionEntry| entry_model(e)),
                i <= n,
                kept@.map_values(|e: SuppressionEntry| entry_model(e)) == live_entries(before.take(i as int), now),
            decreases n - i,
        {
            let entry = &self.seen[i];
            assert(before.take(i + 1).drop_last() =~= before.take(i as int));
            assert(before.take(i + 1).last() == entry_model(*entry));
            if now < entry.admitted_at || now - entry.admitted_at < SUPPRESS_WINDOW_NS {
                let copy = SuppressionEntry {
                    event_type: entry.event_type,
                    context: entry.context.clone(),
                    admitted_at: entry.admitted_at,
                };
                let ghost prev = kept@;
                kept.push(copy);
                assert(kept@.map_values(|e: SuppressionEntry| entry_model(e)) =~= prev.map_values(
                    |e: SuppressionEntry| entry_model(e),
                ).push(entry_model(copy)));
            }
            i = i + 1;
        }
        assert(before.take(n as int) =~= before);
        self.seen = kept;
        proof {
            lemma_live_entries_unique(before, now);
            lemma_live_entries_subset(before, now);
        }
    }

    /// Whether key (`event_type`, `context`) is remembered.
    fn contains_key(&self, event_type: IonSenseEventType, context: &String) -> (found: bool)
        ensures
            found == has_key(self@, event_type, context@),
    {
        let n = self.seen.len();
        let mut i: usize = 0;
        while i < n
            invariant
                n == self.seen@.len(),
                i <= n,
                forall|k: int| 0 <= k < i ==> !(#[trigger] self@[k].0 == event_type && self@[k].1 == context@),
            decreases n - i,
        {
            let entry = &self.seen[i];
            assert(self@[i as int] == entry_model(*entry));
            if entry.event_type == event_type && entry.context == *context {
                assert(self@[i as int].0 == event_type && self@[i as int].1 == context@);
                return true;
            }
            i = i + 1;
        }
        false
    }

    /// The central duplicate filter: decides whether an event with key
    /// (`event_type`, `context`) is admitted at `now`, and remembers it if so.
    pub fn accept_key(&mut self, event_type: IonSenseEventType, context: String, now: u64) -> (admitted: bool)
        requires
            old(self).wf(),
        ensures
            final(self).wf(),
            (admitted, final(self)@) == suppression_decision(old(self)@, event_type, context@, now),
    {
        self.evict_expired(now);
        if self.contains_key(event_type, &context) {
            return false;
        }
        let ghost live = self@;
        if self.seen.len() >= SUPPRESSION_CACHE_LIMIT {
            self.seen.clear();
        }
        let ghost base = self@;
        assert(base =~= if live.len() >= SUPPRESSION_CACHE_LIMIT { Seq::<EntryModel>::empty() } else { live });
        let ghost ctx = context@;
        let entry = SuppressionEntry { event_type, context, admitted_at: now };
        self.seen.push(entry);
        assert(self@ =~= base.push((event_type, ctx, now)));
        proof {
            let s = self@;
            assert forall|i: int, j: int|
                0 <= i < s.len() && 0 <= j < s.len() && i != j implies !(#[trigger] s[i].0 == #[trigger] s[j].0 && s[i].1 == s[j].1) by {
                if i < base.len() && j < base.len() {
                    assert(s[i] == base[i] && s[j] == base[j]);
                } else if i < base.len() {
                    assert(s[i] == base[i]);
                    assert(base[i] == live[i]);
                } else if j < base.len() {
                    assert(s[j] == base[j]);
                    assert(base[j] == live[j]);
                }
            }
        }
        true
    }
}


impl SuppressionState {
    /// Decides whether `event` is admitted at `now`, and remembers its key if so.
    pub fn accept_event(&mut self, event: &IonSenseEvent, now: u64) -> (admitted: bool)
        requires
            old(self).wf(),
        ensures
            final(self).wf(),
            (admitted, final(self)@) == suppression_decision(
                old(self)@,
                event.event_type,
                context_of(event.event_type, event.message@),
                now,
            ),
    {
        let context = suppression_context(event);
        self.accept_key(event.event_type, context, now)
    }
}

#[verifier::external_type_specification]
#[verifier::external_body]
#[verifier::reject_recursive_types(T)]
pub struct ExQueueSender<T>(tokio::sync::mpsc::Sender<T>);

#[verifier::external_type_specification]
#[verifier::external_body]
#[verifier::reject_recursive_types(T)]
pub struct ExQueueReceiver<T>(tokio::sync::mpsc::Receiver<T>);

#[verifier::external_type_specification]
#[verifier::external_body]
pub struct ExInstant(std::time::Instant);

/// Why an admitted event could not be queued.
#[derive(Clone, Copy, Debug, PartialEq, Eq, Structural)]
pub enum DispatchError {
    /// The queue holds as many events as its capacity.
    QueueFull,
    /// The receiving side of the queue is gone.
    QueueClosed,
}

/// The bound that a tokio queue was created with, as its sending end reports
/// it (`Sender::max_capacity`, the `bound` field of the channel's semaphore).
pub uninterp spec fn queue_bound(sender: tokio::sync::mpsc::Sender<IonSenseEvent>) -> usize;

/// Creates a bounded tokio queue (`tokio::sync::mpsc::channel`), which panics
/// on a capacity of zero or above `usize::MAX >> 3`, that is `usize::MAX / 8`.
/// The sending end's bound is the capacity asked for (tokio stores `buffer`
/// as the semaphore's `bound`); nothing else is stated of the two opaque ends.
#[verifier::external_body]
fn bounded_queue(capacity: usize) -> (ends: (
    tokio::sync::mpsc::Sender<IonSenseEvent>,
    tokio::sync::mpsc::Receiver<IonSenseEvent>,
))
    requires
        0 < capacity <= usize::MAX / 8,
    ensures
        queue_bound(ends.0) == capacity,
{
    tokio::sync::mpsc::channel(capacity)
}

/// Offers `item` to the queue without waiting (`Sender::try_send`), telling
/// its two errors apart, and returns a ghost record of the event handed to
/// the call. Whether the queue has room or is still open depends on the other
/// side of the channel, so nothing is stated of the outcome.
#[verifier::external_body]
fn queue_try_send(sender: &tokio::sync::mpsc::Sender<IonSenseEvent>, item: IonSenseEvent) -> (sent: (
    Result<(), DispatchError>,
    Ghost<EventModel>,
))
    ensures
        sent.1@ == event_model(item),
{
    let handed = Ghost(event_model(item));
    let outcome = match sender.try_send(item) {
        Ok(()) => Ok(()),
        Err(tokio::sync::mpsc::error::TrySendError::Full(_)) => Err(DispatchError::QueueFull),
        Err(tokio::sync::mpsc::error::TrySendError::Closed(_)) => Err(DispatchError::QueueClosed),
    };
    (outcome, handed)
}

/// Another handle to the same queue (`Sender::clone`, which clones the shared
/// channel handle); it reports the same bound.
#[verifier::external_body]
fn queue_sender_clone(sender: &tokio::sync::mpsc::Sender<IonSenseEvent>) -> (copy:
    tokio::sync::mpsc::Sender<IonSenseEvent>)
    ensures
        queue_bound(copy) == queue_bound(*sender),
{
    sender.clone()
}

/// The monotonic clock (`std::time::Instant::now`); nothing is promised of it.
#[verifier::external_body]
fn instant_now() -> std::time::Instant {
    std::time::Instant::now()
}

/// Whole nanoseconds elapsed since `origin` (`Instant::elapsed` then
/// `Duration::as_nanos`); a clock reading, so nothing is stated.
#[verifier::external_body]
fn nanos_elapsed_since(origin: &std::time::Instant) -> u128 {
    origin.elapsed().as_nanos()
}

/// `elapsed` nanoseconds as a `u64`, `u64::MAX` when it does not fit.
pub open spec fn saturated_nanos(elapsed: u128) -> u64 {
    if elapsed > u64::MAX { u64::MAX } else { elapsed as u64 }
}

/// Converts a clock reading in nanoseconds to `u64`, saturating.
pub fn saturating_nanos(elapsed: u128) -> (nanos: u64)
    ensures
        nanos == saturated_nanos(elapsed),
{
    if elapsed > u64::MAX as u128 { u64::MAX } else { elapsed as u64 }
}

/// A monotonic clock counting nanoseconds from its creation; the time base
/// of every window and back-off in the library.
pub struct MonotonicClock {
    origin: std::time::Instant,
}

impl MonotonicClock {
    /// A clock that starts at zero now.
    pub fn start() -> Self {
        MonotonicClock { origin: instant_now() }
    }

    /// Nanoseconds since the clock started, saturated to `u64`.
    pub fn now_nanos(&self) -> u64 {
        saturating_nanos(nanos_elapsed_since(&self.origin))
    }
}

/// What became of an offered event.
#[derive(Clone, Copy, Debug, PartialEq, Eq, Structural)]
pub enum Delivery {
    /// The event was admitted and queued for the HUD.
    Queued,
    /// The event duplicates a recent one and was dropped.
    Suppressed,
}

/// `p + 1`, wrapping as an atomic counter's `fetch_add` does.
pub open spec fn counter_up(p: usize) -> usize {
    if p == usize::MAX { 0 } else { (p + 1) as usize }
}

/// `p - 1`, wrapping as an atomic counter's `fetch_sub` does.
pub open spec fn counter_down(p: usize) -> usize {
    if p == 0 { usize::MAX } else { (p - 1) as usize }
}

/// What offering the event `event` (as plain values) with filter context
/// `context` at `now` does to the dispatcher's remembered keys, pending count
/// and log of events handed to the queue: the filter's decision replaces the
/// remembered keys; a duplicate is reported as `Suppressed`, changes no count
/// and reaches no queue; an admitted event is never reported as suppressed,
/// is handed to the queue as it is, and is counted as pending exactly when it
/// was queued.
pub open spec fn offer_effect(
    before: DispatcherModel,
    after: DispatcherModel,
    event: EventModel,
    context: Seq<char>,
    now: u64,
    result: Result<Delivery, DispatchError>,
) -> bool {
    let (admitted, remembered) = suppression_decision(before.0, event.0, context, now);
    &&& after.0 == remembered
    &&& !admitted ==> result == Ok::<Delivery, DispatchError>(Delivery::Suppressed) && after.1 == before.1
        && after.2 == before.2
    &&& admitted ==> result != Ok::<Delivery, DispatchError>(Delivery::Suppressed) && after.2 == before.2.push(event)
    &&& admitted && result is Ok ==> after.1 == counter_up(before.1)
    &&& admitted && result is Err ==> after.1 == before.1
}

/// The same as `offer_effect`, with a queued event and a suppressed duplicate
/// both reported as `Ok(())`.
pub open spec fn dispatch_effect(
    before: DispatcherModel,
    after: DispatcherModel,
    event: EventModel,
    context: Seq<char>,
    now: u64,
    result: Result<(), DispatchError>,
) -> bool {
    let (admitted, remembered) = suppression_decision(before.0, event.0, context, now);
    &&& after.0 == remembered
    &&& !admitted ==> result is Ok && after.1 == before.1 && after.2 == before.2
    &&& admitted ==> after.2 == before.2.push(event)
    &&& admitted && result is Ok ==> after.1 == counter_up(before.1)
    &&& admitted && result is Err ==> after.1 == before.1
}

/// A dispatcher as plain values: the remembered filter keys, the pending
/// count, and every event handed to the queue so far, oldest first.
pub type DispatcherModel = (Seq<EntryModel>, usize, Seq<EventModel>);

/// The single entry point through which detectors reach the HUD: a
/// duplicate filter in front of a bounded queue, and a count of accepted events
/// whose HUD cycle has not completed yet.
pub struct EventDispatcher {
    sender: tokio::sync::mpsc::Sender<IonSenseEvent>,
    pending: usize,
    suppression: SuppressionState,
    clock: MonotonicClock,
    handed: Ghost<Seq<EventModel>>,
}

impl EventDispatcher {
    pub closed spec fn wf(&self) -> bool {
        self.suppression.wf()
    }

    /// Number of accepted events that have not completed their HUD cycle.
    pub closed spec fn pending_count(&self) -> usize {
        self.pending
    }

    /// The keys that the duplicate filter remembers.
    pub closed spec fn remembered(&self) -> Seq<EntryModel> {
        self.suppression@
    }

    /// Every event handed to the queue by this dispatcher, oldest first.
    pub closed spec fn handed_events(&self) -> Seq<EventModel> {
        self.handed@
    }

    /// The dispatcher as plain values.
    pub open spec fn model(&self) -> DispatcherModel {
        (self.remembered(), self.pending_count(), self.handed_events())
    }

    /// How many events the dispatcher's queue holds at most.
    pub closed spec fn queue_capacity(&self) -> usize {
        queue_bound(self.sender)
    }

    /// Creates the dispatcher and the receiving end of its queue, which holds
    /// at least one event (`capacity` zero is raised to one).
    pub fn channel(capacity: usize) -> (result: (Self, tokio::sync::mpsc::Receiver<IonSenseEvent>))
        requires
            capacity <= usize::MAX / 8,
        ensures
            result.0.wf(),
            result.0.pending_count() == 0,
            result.0.remembered() == Seq::<EntryModel>::empty(),
            result.0.queue_capacity() == (if capacity < 1 { 1 } else { capacity }),
            result.0.handed_events() == Seq::<EventModel>::empty(),
    {
        let bound = if capacity < 1 { 1 } else { capacity };
        let (sender, receiver) = bounded_queue(bound);
        (
            EventDispatcher {
                sender,
                pending: 0,
                suppression: SuppressionState::new(),
                clock: MonotonicClock::start(),
                handed: Ghost(Seq::empty()),
            },
            receiver,
        )
    }

    /// Nanoseconds on the dispatcher's monotonic clock, saturated to `u64`.
    pub fn now_nanos(&self) -> u64 {
        self.clock.now_nanos()
    }

    /// The duplicate filter: whether `event` is admitted at `now` (nanoseconds
    /// on the dispatcher's clock); an admitted key is remembered.
    pub fn accept_event(&mut self, event: &IonSenseEvent, now: u64) -> (admitted: bool)
        requires
            old(self).wf(),
        ensures
            final(self).wf(),
            final(self).queue_capacity() == old(self).queue_capacity(),
            final(self).handed_events() == old(self).handed_events(),
            final(self).pending_count() == old(self).pending_count(),
            (admitted, final(self).remembered()) == suppression_decision(
                old(self).remembered(),
                event.event_type,
                context_of(event.event_type, event.message@),
                now,
            ),
    {
        self.suppression.accept_event(event, now)
    }

    /// Offers `event` at `now`: a duplicate is dropped (`Suppressed`); an
    /// admitted event is queued and counted as pending (`Queued`), unless the
    /// queue is full or closed, in which case the error is returned and the
    /// count is left unchanged.
    pub fn offer_at(&mut self, event: IonSenseEvent, now: u64) -> (result: Result<Delivery, DispatchError>)
        requires
            old(self).wf(),
        ensures
            final(self).wf(),
            final(self).queue_capacity() == old(self).queue_capacity(),
            offer_effect(
                old(self).model(),
                final(self).model(),
                event_model(event),
                context_of(event.event_type, event.message@),
                now,
                result,
            ),
    {
        if !self.suppression.accept_event(&event, now) {
            return Ok(Delivery::Suppressed);
        }
        let before = self.pending;
        self.pending = if before == usize::MAX { 0 } else { before + 1 };
        let (outcome, Ghost(handed)) = queue_try_send(&self.sender, event);
        self.handed = Ghost(self.handed@.push(handed));
        match outcome {
            Ok(()) => Ok(Delivery::Queued),
            Err(error) => {
                self.pending = before;
                Err(error)
            },
        }
    }

    /// Queues `event` without consulting the duplicate filter, for when the
    /// filter's state cannot be trusted: a queued event is counted as
    /// pending; a full or closed queue returns the error and leaves the count.
    pub fn queue_unfiltered(&mut self, event: IonSenseEvent) -> (result: Result<(), DispatchError>)
        ensures
            final(self).wf() == old(self).wf(),
            final(self).remembered() == old(self).remembered(),
            final(self).queue_capacity() == old(self).queue_capacity(),
            final(self).handed_events() == old(self).handed_events().push(event_model(event)),
            result is Ok ==> final(self).pending_count() == counter_up(old(self).pending_count()),
            result is Err ==> final(self).pending_count() == old(self).pending_count(),
    {
        let before = self.pending;
        self.pending = if before == usize::MAX { 0 } else { before + 1 };
        let (outcome, Ghost(handed)) = queue_try_send(&self.sender, event);
        self.handed = Ghost(self.handed@.push(handed));
        match outcome {
            Ok(()) => Ok(()),
            Err(error) => {
                self.pending = before;
                Err(error)
            },
        }
    }

    /// Offers `event` at `now`; a suppressed duplicate counts as success.
    pub fn try_dispatch_at(&mut self, event: IonSenseEvent, now: u64) -> (result: Result<(), DispatchError>)
        requires
            old(self).wf(),
        ensures
            final(self).wf(),
            final(self).queue_capacity() == old(self).queue_capacity(),
            dispatch_effect(
                old(self).model(),
                final(self).model(),
                event_model(event),
                context_of(event.event_type, event.message@),
                now,
                result,
            ),
    {
        match self.offer_at(event, now) {
            Ok(_) => Ok(()),
            Err(error) => Err(error),
        }
    }

    /// Offers `event` now, on the dispatcher's own clock, telling a queued
    /// event from a suppressed duplicate.
    pub fn offer(&mut self, event: IonSenseEvent) -> (result: Result<Delivery, DispatchError>)
        requires
            old(self).wf(),
        ensures
            final(self).wf(),
            final(self).queue_capacity() == old(self).queue_capacity(),
            exists|now: u64|
                #[trigger] offer_effect(
                    old(self).model(),
                    final(self).model(),
                    event_model(event),
                    context_of(event.event_type, event.message@),
                    now,
                    result,
                ),
    {
        let now = self.now_nanos();
        self.offer_at(event, now)
    }

    /// Offers `event` now, on the dispatcher's own clock.
    pub fn try_dispatch(&mut self, event: IonSenseEvent) -> (result: Result<(), DispatchError>)
        requires
            old(self).wf(),
        ensures
            final(self).wf(),
            final(self).queue_capacity() == old(self).queue_capacity(),
            exists|now: u64|
                #[trigger] dispatch_effect(
                    old(self).model(),
                    final(self).model(),
                    event_model(event),
                    context_of(event.event_type, event.message@),
                    now,
                    result,
                ),
    {
        let now = self.now_nanos();
        self.try_dispatch_at(event, now)
    }

    /// Number of accepted events that have not completed their HUD cycle.
    pub fn pending(&self) -> (count: usize)
        ensures
            count == self.pending_count(),
    {
        self.pending
    }

    /// Marks one accepted event as fully presented; a count of zero stays zero.
    pub fn complete_one(&mut self)
        ensures
            final(self).queue_capacity() == old(self).queue_capacity(),
            final(self).handed_events() == old(self).handed_events(),
            final(self).wf() == old(self).wf(),
            final(self).remembered() == old(self).remembered(),
            final(self).pending_count() == if old(self).pending_count() == 0 { 0 } else {
                (old(self).pending_count() - 1) as usize
            },
    {
        if self.pending > 0 {
            self.pending = self.pending - 1;
        }
    }

    /// Counts an event that bypasses the duplicate filter and is about to be
    /// sent by waiting on the queue.
    pub fn begin_direct_delivery(&mut self)
        ensures
            final(self).queue_capacity() == old(self).queue_capacity(),
            final(self).handed_events() == old(self).handed_events(),
            final(self).wf() == old(self).wf(),
            final(self).remembered() == old(self).remembered(),
            final(self).pending_count() == counter_up(old(self).pending_count()),
    {
        self.pending = if self.pending == usize::MAX { 0 } else { self.pending + 1 };
    }

    /// Withdraws the count of a direct delivery whose send failed.
    pub fn abandon_direct_delivery(&mut self)
        ensures
            final(self).queue_capacity() == old(self).queue_capacity(),
            final(self).handed_events() == old(self).handed_events(),
            final(self).wf() == old(self).wf(),
            final(self).remembered() == old(self).remembered(),
            final(self).pending_count() == counter_down(old(self).pending_count()),
    {
        self.pending = if self.pending == 0 { usize::MAX } else { self.pending - 1 };
    }

    /// Another handle to the dispatcher's queue, for a send that waits.
    pub fn queue_sender(&self) -> (sender: tokio::sync::mpsc::Sender<IonSenseEvent>)
        ensures
            queue_bound(sender) == self.queue_capacity(),
    {
        queue_sender_clone(&self.sender)
    }

    /// Number of keys the duplicate filter remembers.
    pub fn remembered_len(&self) -> (n: usize)
        requires
            self.wf(),
        ensures
            n == self.remembered().len(),
            n <= SUPPRESSION_CACHE_LIMIT,
    {
        self.suppression.len()
    }
}


/// What the filter remembers after one decision: elements of the old entries,
/// or the newly admitted key; and its keys stay unique.
proof fn lemma_suppression_decision_shape(s: Seq<EntryModel>, event_type: IonSenseEventType, context: Seq<char>, now: u64)
    requires
        unique_keys(s),
    ensures
        ({
            let (admitted, after) = suppression_decision(s, event_type, context, now);
            &&& unique_keys(after)
            &&& forall|x: EntryModel| #[trigger] after.contains(x) ==> s.contains(x) || x == (event_type, context, now)
            &&& admitted ==> after.last() == (event_type, context, now) && after.len() >= 1
        }),
{
    let live = live_entries(s, now);
    lemma_live_entries_subset(s, now);
    lemma_live_entries_unique(s, now);
    let (admitted, after) = suppression_decision(s, event_type, context, now);
    if admitted {
        let base = if live.len() >= SUPPRESSION_CACHE_LIMIT { Seq::<EntryModel>::empty() } else { live };
        assert(after == base.push((event_type, context, now)));
        assert forall|x: EntryModel| #[trigger] after.contains(x) implies s.contains(x) || x == (event_type, context, now) by {
            let k = choose|k: int| 0 <= k < after.len() && after[k] == x;
            if k < base.len() {
                assert(base[k] == x);
                assert(live.contains(x));
            }
        }
        assert forall|i: int, j: int|
            0 <= i < after.len() && 0 <= j < after.len() && i != j implies !(#[trigger] after[i].0 == #[trigger] after[j].0 && after[i].1 == after[j].1) by {
            if i < base.len() && j < base.len() {
                assert(after[i] == base[i] && after[j] == base[j]);
                assert(base[i] == live[i] && base[j] == live[j]);
            } else if i < base.len() {
                assert(after[i] == live[i]);
            } else if j < base.len() {
                assert(after[j] == live[j]);
            }
        }
    }
}

/// Law: once an event is admitted, an event with the same key (same type and
/// same suppression context) is refused for as long as that admission is
/// fresh, that is, until the suppression window has passed.
pub proof fn law_duplicate_refused_within_window(
    s: Seq<EntryModel>,
    event_type: IonSenseEventType,
    context: Seq<char>,
    first: u64,
    later: u64,
)
    requires
        unique_keys(s),
        suppression_decision(s, event_type, context, first).0,
        is_fresh(first, later),
    ensures
        !suppression_decision(suppression_decision(s, event_type, context, first).1, event_type, context, later).0,
{
    lemma_suppression_decision_shape(s, event_type, context, first);
    let after = suppression_decision(s, event_type, context, first).1;
    let x = (event_type, context, first);
    assert(after[after.len() - 1] == x);
    assert(after.contains(x));
    lemma_live_entries_keeps_fresh(after, later, x);
    let live = live_entries(after, later);
    let k = choose|k: int| 0 <= k < live.len() && live[k] == x;
    assert(live[k].0 == event_type && live[k].1 == context);
}

/// Law: once an event is admitted at `first`, an event with the same key is
/// admitted again at any `later` time when that admission is no longer fresh.
pub proof fn law_duplicate_admitted_after_window(
    s: Seq<EntryModel>,
    event_type: IonSenseEventType,
    context: Seq<char>,
    first: u64,
    later: u64,
)
    requires
        unique_keys(s),
        suppression_decision(s, event_type, context, first).0,
        !is_fresh(first, later),
    ensures
        suppression_decision(suppression_decision(s, event_type, context, first).1, event_type, context, later).0,
{
    lemma_suppression_decision_shape(s, event_type, context, first);
    let after = suppression_decision(s, event_type, context, first).1;
    lemma_live_entries_subset(after, later);
    let live = live_entries(after, later);
    if has_key(live, event_type, context) {
        let k = choose|k: int| 0 <= k < live.len() && #[trigger] live[k].0 == event_type && live[k].1 == context;
        assert(live.contains(live[k]));
        let j = choose|j: int| 0 <= j < after.len() && after[j] == live[k];
        let last = after.len() - 1;
        assert(after[last] == (event_type, context, first));
        if j != last {
            assert(after[j].0 == after[last].0 && after[j].1 == after[last].1);
        }
        assert(false);
    }
}

/// Law: admitting one key never causes a different key to be refused: if key
/// (`t2`, `c2`) is not live in `s` at `n2`, it is admitted at `n2` even after
/// some other key (`t1`, `c1`) was admitted or refused at `n1`.
pub proof fn law_distinct_keys_do_not_interfere(
    s: Seq<EntryModel>,
    t1: IonSenseEventType,
    c1: Seq<char>,
    n1: u64,
    t2: IonSenseEventType,
    c2: Seq<char>,
    n2: u64,
)
    requires
        unique_keys(s),
        t1 != t2 || c1 != c2,
        !has_key(live_entries(s, n2), t2, c2),
    ensures
        suppression_decision(suppression_decision(s, t1, c1, n1).1, t2, c2, n2).0,
{
    lemma_suppression_decision_shape(s, t1, c1, n1);
    let after = suppression_decision(s, t1, c1, n1).1;
    lemma_live_entries_subset(after, n2);
    let live = live_entries(after, n2);
    if has_key(live, t2, c2) {
        let k = choose|k: int| 0 <= k < live.len() && #[trigger] live[k].0 == t2 && live[k].1 == c2;
        let x = live[k];
        assert(live.contains(x));
        assert(after.contains(x));
        assert(s.contains(x));
        lemma_live_entries_keeps_fresh(s, n2, x);
        let old_live = live_entries(s, n2);
        let j = choose|j: int| 0 <= j < old_live.len() && old_live[j] == x;
        assert(old_live[j].0 == t2 && old_live[j].1 == c2);
        assert(false);
    }
}

/// Law: the filter never remembers more than `SUPPRESSION_CACHE_LIMIT` keys,
/// and never the same key twice.
pub proof fn law_suppression_stays_bounded(s: Seq<EntryModel>, event_type: IonSenseEventType, context: Seq<char>, now: u64)
    requires
        unique_keys(s),
        s.len() <= SUPPRESSION_CACHE_LIMIT,
    ensures
        unique_keys(suppression_decision(s, event_type, context, now).1),
        suppression_decision(s, event_type, context, now).1.len() <= SUPPRESSION_CACHE_LIMIT,
{
    lemma_suppression_decision_shape(s, event_type, context, now);
    lemma_live_entries_subset(s, now);
}

/// Law: content detectors (new mail, friend messages, deliveries) are keyed
/// on their exact message, so two such events with different messages are
/// never collapsed: offered in turn to a fresh filter, at any two times, both
/// are admitted.
pub proof fn law_content_events_keyed_by_message(
    event_type: IonSenseEventType,
    first_message: Seq<char>,
    second_message: Seq<char>,
    first: u64,
    later: u64,
)
    requires
        event_type is NewEmail || event_type is FriendMessage || event_type is PackageDelivered,
        first_message != second_message,
    ensures
        context_of(event_type, first_message) == first_message,
        context_of(event_type, first_message) != context_of(event_type, second_message),
        suppression_decision(Seq::empty(), event_type, context_of(event_type, first_message), first).0,
        suppression_decision(
            suppression_decision(Seq::empty(), event_type, context_of(event_type, first_message), first).1,
            event_type,
            context_of(event_type, second_message),
            later,
        ).0,
{
    let empty = Seq::<EntryModel>::empty();
    assert(live_entries(empty, first) =~= empty);
    assert(!has_key(live_entries(empty, first), event_type, first_message));
    let after = suppression_decision(empty, event_type, first_message, first).1;
    assert(after =~= seq![(event_type, first_message, first)]);
    lemma_live_entries_subset(after, later);
    let live = live_entries(after, later);
    if has_key(live, event_type, second_message) {
        let i = choose|i: int| 0 <= i < live.len() && #[trigger] live[i].0 == event_type && live[i].1 == second_message;
        assert(live.contains(live[i]));
        assert(after.contains(live[i]));
        assert(after[0] == live[i]);
    }
}

} // verus!
