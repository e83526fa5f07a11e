//! Scheduling rules of the session event bus: which handlers run for an event
//! and in what order, and when an `error.occurred` event is let through.
//!
//! Handlers themselves are asynchronous closures held by the runtime; here they
//! are known by the id that [`EventBus::subscribe`] hands out. Times are
//! microseconds since the Unix epoch, read by the caller.
use vstd::prelude::*;
use crate::events::{Event, EventMeta, event_type_of, meta_of};
use crate::text::{string_of, text_eq};

verus! {

/// Max nesting depth of `error.occurred` dispatch.
pub const MAX_ERROR_EVENT_DEPTH: u32 = 3;

/// Minimum time between accepted `error.occurred` publishes (microseconds; one second).
pub const ERROR_EVENT_COOLDOWN: u64 = 1_000_000;

/// Max `error.occurred` events accepted per trailing window.
pub const ERROR_EVENT_RATE_LIMIT: usize = 10;

/// Length of the trailing rate-limit window (microseconds; one second).
pub const ERROR_EVENT_WINDOW: u64 = 1_000_000;

/// One subscription: a handler id and its priority (higher runs earlier).
#[derive(Clone, Copy, Debug, PartialEq, Eq)]
pub struct Subscription {
    pub priority: i32,
    pub handler: u64,
}

/// Recursion and rate limits applied to `error.occurred` events.
#[derive(Debug)]
pub struct ErrorLimiter {
    pub depth: u32,
    pub last_error_event_time: u64,
    pub error_event_times: Vec<u64>,
}

/// `t` lies within the trailing rate-limit window ending at `now`.
pub open spec fn in_window(t: u64, now: u64) -> bool {
    (now as int) - (t as int) < ERROR_EVENT_WINDOW as int
}

/// The times of `ts` within the window ending at `now`, in order.
pub open spec fn recent(ts: Seq<u64>, now: u64) -> Seq<u64>
    decreases ts.len(),
{
    if ts.len() == 0 {
        ts
    } else if in_window(ts.last(), now) {
        recent(ts.drop_last(), now).push(ts.last())
    } else {
        recent(ts.drop_last(), now)
    }
}

/// The cooldown since the last accepted error event is still running at `now`.
pub open spec fn cooling(last: u64, now: u64) -> bool {
    (now as int) - (last as int) < ERROR_EVENT_COOLDOWN as int
}

/// Plain state of an [`ErrorLimiter`].
pub struct LimiterState {
    pub depth: u32,
    pub last: u64,
    pub times: Seq<u64>,
}

impl ErrorLimiter {
    pub open spec fn state(&self) -> LimiterState {
        LimiterState {
            depth: self.depth,
            last: self.last_error_event_time,
            times: self.error_event_times@,
        }
    }

    pub open spec fn wf(&self) -> bool {
        limiter_wf(self.state())
    }
}

/// Bounds the limiter always keeps.
pub open spec fn limiter_wf(s: LimiterState) -> bool {
    &&& s.depth <= MAX_ERROR_EVENT_DEPTH
    &&& s.times.len() <= ERROR_EVENT_RATE_LIMIT
}

/// An error event published at `now` is dispatched.
pub open spec fn begin_accepts(s: LimiterState, now: u64) -> bool {
    &&& s.depth < MAX_ERROR_EVENT_DEPTH
    &&& !cooling(s.last, now)
    &&& recent(s.times, now).len() < ERROR_EVENT_RATE_LIMIT
}

/// Limiter state after an error event is published at `now`.
pub open spec fn begin_state(s: LimiterState, now: u64) -> LimiterState {
    if s.depth >= MAX_ERROR_EVENT_DEPTH || cooling(s.last, now) {
        s
    } else if recent(s.times, now).len() >= ERROR_EVENT_RATE_LIMIT {
        LimiterState { times: recent(s.times, now), ..s }
    } else {
        LimiterState {
            depth: (s.depth + 1) as u32,
            last: now,
            times: recent(s.times, now).push(now),
        }
    }
}

/// Limiter state after a dispatched error event finishes.
pub open spec fn end_state(s: LimiterState) -> LimiterState {
    LimiterState { depth: if s.depth > 0 { (s.depth - 1) as u32 } else { 0 }, ..s }
}

pub proof fn lemma_recent_len(ts: Seq<u64>, now: u64)
    ensures
        recent(ts, now).len() <= ts.len(),
    decreases ts.len(),
{
    if ts.len() > 0 {
        lemma_recent_len(ts.drop_last(), now);
    }
}

impl ErrorLimiter {
    /// A limiter with no error event in flight or on record.
    pub fn new() -> (r: ErrorLimiter)
        ensures
            r.depth == 0,
            r.last_error_event_time == 0,
            r.error_event_times@.len() == 0,
            r.wf(),
    {
        ErrorLimiter { depth: 0, last_error_event_time: 0, error_event_times: Vec::new() }
    }

    /// Forget every error event.
    pub fn reset(&mut self)
        ensures
            final(self).depth == 0,
            final(self).last_error_event_time == 0,
            final(self).error_event_times@.len() == 0,
            final(self).wf(),
    {
        self.depth = 0;
        self.last_error_event_time = 0;
        self.error_event_times.clear();
    }

    /// Decide whether an error event published at `now` is dispatched; if so,
    /// reserve one level of depth for it.
    pub fn begin_error_event(&mut self, now: u64) -> (accepted: bool)
        requires
            old(self).wf(),
        ensures
            accepted == begin_accepts(old(self).state(), now),
            final(self).state() == begin_state(old(self).state(), now),
            final(self).wf(),
    {
        if self.depth >= MAX_ERROR_EVENT_DEPTH {
            return false;
        }
        if now < self.last_error_event_time || now - self.last_error_event_time < ERROR_EVENT_COOLDOWN {
            return false;
        }
        let mut kept: Vec<u64> = Vec::new();
        let mut i: usize = 0;
        let ghost ts = self.error_event_times@;
        while i < self.error_event_times.len()
            invariant
                ts == self.error_event_times@,
                i <= ts.len(),
                kept@ == recent(ts.take(i as int), now),
            decreases ts.len() - i,
        {
            let t = self.error_event_times[i];
            proof {
                assert(ts.take(i + 1).drop_last() =~= ts.take(i as int));
                assert(ts.take(i + 1).last() == t);
            }
            if now < t || now - t < ERROR_EVENT_WINDOW {
                kept.push(t);
            }
            i = i + 1;
        }
        proof {
            assert(ts.take(ts.len() as int) =~= ts);
            lemma_recent_len(ts, now);
        }
        self.error_event_times = kept;
        if self.error_event_times.len() >= ERROR_EVENT_RATE_LIMIT {
            return false;
        }
        self.depth = self.depth + 1;
        self.last_error_event_time = now;
        self.error_event_times.push(now);
        true
    }

    /// A dispatched error event finished: release its level of depth.
    pub fn end_error_event(&mut self)
        requires
            old(self).wf(),
        ensures
            final(self).state() == end_state(old(self).state()),
            final(self).wf(),
    {
        if self.depth > 0 {
            self.depth = self.depth - 1;
        }
    }
}

/// `s` inserted into `list` after every entry of equal or higher priority: what a
/// stable sort by descending priority makes of an already sorted list with `s`
/// appended.
pub open spec fn insert_by_priority(list: Seq<Subscription>, s: Subscription) -> Seq<Subscription>
    decreases list.len(),
{
    if list.len() == 0 {
        seq![s]
    } else if list[0].priority >= s.priority {
        seq![list[0]] + insert_by_priority(list.drop_first(), s)
    } else {
        seq![s] + list
    }
}

/// Handlers in descending priority, and in subscription (id) order within a priority.
pub open spec fn dispatch_ordered(list: Seq<Subscription>) -> bool {
    forall|i: int, j: int|
        0 <= i < j < list.len() ==> (#[trigger] list[i]).priority > (#[trigger] list[j]).priority
            || (list[i].priority == list[j].priority && list[i].handler < list[j].handler)
}

/// Subscriptions of event type `key` in a subscription table.
pub open spec fn subs_of(table: Seq<(Seq<char>, Seq<Subscription>)>, key: Seq<char>) -> Seq<Subscription>
    decreases table.len(),
{
    if table.len() == 0 {
        Seq::empty()
    } else if table[0].0 == key {
        table[0].1
    } else {
        subs_of(table.drop_first(), key)
    }
}

/// Handler ids of a subscription list, in order.
pub open spec fn handler_ids(list: Seq<Subscription>) -> Seq<u64> {
    list.map_values(|s: Subscription| s.handler)
}

/// Priority-ordered publish/subscribe table of one session, with the
/// `error.occurred` limits.
#[derive(Debug)]
pub struct EventBus {
    pub subs: Vec<(String, Vec<Subscription>)>,
    pub errors: ErrorLimiter,
    pub next_handler: u64,
}

impl EventBus {
    pub open spec fn table(&self) -> Seq<(Seq<char>, Seq<Subscription>)> {
        self.subs@.map_values(|e: (String, Vec<Subscription>)| (e.0@, e.1@))
    }

    /// Subscriptions of event type `key`, in dispatch order.
    pub open spec fn subscriptions(&self, key: Seq<char>) -> Seq<Subscription> {
        subs_of(self.table(), key)
    }

    /// Every subscription list is in dispatch order and uses ids below
    /// `next_handler`; the error limiter keeps its bounds.
    pub open spec fn wf(&self) -> bool {
        &&& self.errors.wf()
        &&& forall|key: Seq<char>| #[trigger] dispatch_ordered(self.subscriptions(key))
        &&& forall|key: Seq<char>, i: int|
            0 <= i < self.subscriptions(key).len() ==> (#[trigger] self.subscriptions(key)[i]).handler
                < self.next_handler
    }

    /// An empty bus.
    pub fn new() -> (r: EventBus)
        ensures
            r.wf(),
            forall|key: Seq<char>| r.subscriptions(key).len() == 0,
            r.next_handler == 0,
            r.errors.depth == 0,
            r.errors.last_error_event_time == 0,
            r.errors.error_event_times@.len() == 0,
    {
        let r = EventBus { subs: Vec::new(), errors: ErrorLimiter::new(), next_handler: 0 };
        assert(r.table() =~= Seq::<(Seq<char>, Seq<Subscription>)>::empty());
        r
    }

    /// Subscribe a new handler to `event_type`; it runs after every earlier
    /// handler of equal or higher priority. Returns the new handler's id.
    pub fn subscribe(&mut self, event_type: &str, priority: i32) -> (id: u64)
        requires
            old(self).next_handler < u64::MAX,
        ensures
            id == old(self).next_handler,
            final(self).next_handler == id + 1,
            final(self).errors == old(self).errors,
            forall|key: Seq<char>|
                #[trigger] final(self).subscriptions(key) == if key == event_type@ {
                    insert_by_priority(
                        old(self).subscriptions(key),
                        Subscription { priority, handler: id },
                    )
                } else {
                    old(self).subscriptions(key)
                },
            old(self).wf() ==> final(self).wf(),
    {
        let id = self.next_handler;
        let sub = Subscription { priority, handler: id };
        let ghost old_table = self.table();
        let ghost old_bus = *self;
        let mut i: usize = 0;
        assert(old_table.skip(0) =~= old_table);
        while i < self.subs.len()
            invariant
                i <= self.subs@.len(),
                self.table() == old_table,
                *self == old_bus,
                old_bus == *old(self),
                id == old_bus.next_handler,
                id < u64::MAX,
                sub == (Subscription { priority, handler: id }),
                forall|k: int| 0 <= k < i ==> old_table[k].0 != event_type@,
            decreases self.subs@.len() - i,
        {
            proof {
                assert(old_table.skip(i as int)[0] == old_table[i as int]);
                assert(old_table.skip(i as int).drop_first() =~= old_table.skip(i + 1));
            }
            if text_eq(self.subs[i].0.as_str(), event_type) {
                let ghost old_list = self.subs@[i as int].1@;
                let mut entry = self.subs.remove(i);
                let mut list = entry.1;
                let cut = Self::insert_position(&list, priority);
                assert(list@ == old_list);
                proof {
                    assert forall|k: int| 0 <= k < cut implies old_list[k].priority >= priority by {
                        assert(old_list[k] == list@[k]);
                    }
                    if cut < old_list.len() {
                        assert(old_list[cut as int] == list@[cut as int]);
                    }
                    lemma_insert_at_cut(old_list, sub, cut as int);
                }
                list.insert(cut, sub);
                assert(list@ =~= old_list.take(cut as int).push(sub) + old_list.skip(cut as int));
                entry.1 = list;
                self.subs.insert(i, entry);
                self.next_handler = id + 1;
                proof {
                    self.lemma_table_update(old_bus, i as int, event_type@, sub, id);
                }
                return id;
            }
            i = i + 1;
        }
        let mut list: Vec<Subscription> = Vec::new();
        list.push(sub);
        self.subs.push((string_of(event_type), list));
        self.next_handler = id + 1;
        proof {
            self.lemma_table_append(old_bus, event_type@, sub, id);
        }
        id
    }

    /// Number of leading entries of `list` whose priority is at least `priority`.
    fn insert_position(list: &Vec<Subscription>, priority: i32) -> (cut: usize)
        ensures
            cut <= list@.len(),
            forall|k: int| 0 <= k < cut ==> list@[k].priority >= priority,
            cut < list@.len() ==> list@[cut as int].priority < priority,
    {
        let mut cut: usize = 0;
        while cut < list.len() && list[cut].priority >= priority
            invariant
                cut <= list@.len(),
                forall|k: int| 0 <= k < cut ==> list@[k].priority >= priority,
            decreases list@.len() - cut,
        {
            cut = cut + 1;
        }
        cut
    }

    proof fn lemma_table_update(&self, old_bus: EventBus, i: int, key0: Seq<char>, sub: Subscription, id: u64)
        requires
            0 <= i < old_bus.subs@.len(),
            self.subs@.len() == old_bus.subs@.len(),
            forall|k: int| 0 <= k < self.subs@.len() && k != i ==> self.subs@[k] == old_bus.subs@[k],
            self.subs@[i].0@ == old_bus.subs@[i].0@,
            old_bus.subs@[i].0@ == key0,
            self.subs@[i].1@ == insert_by_priority(old_bus.subs@[i].1@, sub),
            forall|k: int| 0 <= k < i ==> old_bus.table()[k].0 != key0,
            sub.handler == id,
            id == old_bus.next_handler,
            self.next_handler == id + 1,
            self.errors == old_bus.errors,
        ensures
            forall|key: Seq<char>|
                #[trigger] self.subscriptions(key) == if key == key0 {
                    insert_by_priority(old_bus.subscriptions(key), sub)
                } else {
                    old_bus.subscriptions(key)
                },
            old_bus.wf() ==> self.wf(),
    {
        assert forall|key: Seq<char>|
            #[trigger] self.subscriptions(key) == if key == key0 {
                insert_by_priority(old_bus.subscriptions(key), sub)
            } else {
                old_bus.subscriptions(key)
            } by {
            lemma_subs_of_update(old_bus.table(), self.table(), i, key0, key);
        }
        if old_bus.wf() {
            assert forall|key: Seq<char>| #[trigger] dispatch_ordered(self.subscriptions(key)) by {
                if key == key0 {
                    lemma_insert_keeps_order(old_bus.subscriptions(key), sub);
                }
            }
            assert forall|key: Seq<char>, k: int|
                0 <= k < self.subscriptions(key).len() implies (#[trigger] self.subscriptions(
                key,
            )[k]).handler < self.next_handler by {
                if key == key0 {
                    lemma_insert_members(old_bus.subscriptions(key), sub, k);
                }
            }
        }
    }

    proof fn lemma_table_append(&self, old_bus: EventBus, key0: Seq<char>, sub: Subscription, id: u64)
        requires
            self.subs@.len() == old_bus.subs@.len() + 1,
            forall|k: int| 0 <= k < old_bus.subs@.len() ==> self.subs@[k] == old_bus.subs@[k],
            self.subs@.last().0@ == key0,
            self.subs@.last().1@ == seq![sub],
            forall|k: int| 0 <= k < old_bus.subs@.len() ==> old_bus.table()[k].0 != key0,
            sub.handler == id,
            id == old_bus.next_handler,
            self.next_handler == id + 1,
            self.errors == old_bus.errors,
        ensures
            forall|key: Seq<char>|
                #[trigger] self.subscriptions(key) == if key == key0 {
                    insert_by_priority(old_bus.subscriptions(key), sub)
                } else {
                    old_bus.subscriptions(key)
                },
            old_bus.wf() ==> self.wf(),
    {
        assert(self.table().drop_last() =~= old_bus.table());
        assert(self.table().last() == (self.subs@.last().0@, self.subs@.last().1@));
        assert forall|key: Seq<char>|
            #[trigger] self.subscriptions(key) == if key == key0 {
                insert_by_priority(old_bus.subscriptions(key), sub)
            } else {
                old_bus.subscriptions(key)
            } by {
            lemma_subs_of_append(old_bus.table(), self.table(), key0, key);
            if key == key0 {
                lemma_subs_of_absent(old_bus.table(), key0);
                assert(insert_by_priority(Seq::<Subscription>::empty(), sub) == seq![sub]);
            }
        }
        lemma_subs_of_absent(old_bus.table(), key0);
        assert(insert_by_priority(Seq::<Subscription>::empty(), sub) == seq![sub]);
        assert(self.subscriptions(key0) == seq![sub]);
        if old_bus.wf() {
            assert forall|key: Seq<char>| #[trigger] dispatch_ordered(self.subscriptions(key)) by {
                if key == key0 {
                    assert(self.subscriptions(key) == seq![sub]);
                }
            }
            assert forall|key: Seq<char>, k: int|
                0 <= k < self.subscriptions(key).len() implies (#[trigger] self.subscriptions(
                key,
            )[k]).handler < self.next_handler by {
                if key == key0 {
                    assert(self.subscriptions(key) == seq![sub]);
                }
            }
        }
    }

    /// Handler ids subscribed to `event_type`, in dispatch order.
    pub fn handlers_for(&self, event_type: &str) -> (r: Vec<u64>)
        ensures
            r@ == handler_ids(self.subscriptions(event_type@)),
    {
        let ghost table = self.table();
        let mut i: usize = 0;
        assert(table.skip(0) =~= table);
        while i < self.subs.len()
            invariant
                i <= self.subs@.len(),
                table == self.table(),
                subs_of(table, event_type@) == subs_of(table.skip(i as int), event_type@),
            decreases self.subs@.len() - i,
        {
            proof {
                assert(table.skip(i as int)[0] == table[i as int]);
                assert(table.skip(i as int).drop_first() =~= table.skip(i + 1));
            }
            if text_eq(self.subs[i].0.as_str(), event_type) {
                let list = &self.subs[i].1;
                let mut ids: Vec<u64> = Vec::new();
                let mut k: usize = 0;
                while k < list.len()
                    invariant
                        k <= list@.len(),
                        list@ == table[i as int].1,
                        ids@ == handler_ids(list@.take(k as int)),
                    decreases list@.len() - k,
                {
                    ids.push(list[k].handler);
                    k = k + 1;
                    assert(ids@ =~= handler_ids(list@.take(k as int)));
                }
                assert(list@.take(list@.len() as int) =~= list@);
                return ids;
            }
            i = i + 1;
        }
        assert(table.skip(i as int) =~= Seq::<(Seq<char>, Seq<Subscription>)>::empty());
        let r: Vec<u64> = Vec::new();
        assert(r@ =~= handler_ids(Seq::<Subscription>::empty()));
        r
    }

    /// Start publishing `event` at time `now`: the handler ids to run, in order,
    /// or `None` when an `error.occurred` event is dropped by the error limits.
    pub fn publish(&mut self, event: &Event, now: u64) -> (r: Option<Vec<u64>>)
        requires
            old(self).wf(),
        ensures
            final(self).wf(),
            final(self).subs == old(self).subs,
            final(self).next_handler == old(self).next_handler,
            *event is ErrorOccurred ==> final(self).errors.state() == begin_state(
                old(self).errors.state(),
                now,
            ),
            !(*event is ErrorOccurred) ==> final(self).errors == old(self).errors,
            r is None <==> (*event is ErrorOccurred && !begin_accepts(old(self).errors.state(), now)),
            r matches Some(ids) ==> ids@ == handler_ids(old(self).subscriptions(event_type_of(*event))),
    {
        let ghost before = *self;
        if event.is_error_event() {
            if !self.errors.begin_error_event(now) {
                proof {
                    lemma_same_table(before, *self);
                }
                return None;
            }
        }
        proof {
            lemma_same_table(before, *self);
        }
        Some(self.handlers_for(event.event_type()))
    }

    /// Finish publishing `event` after its handlers ran (releases the error depth).
    pub fn end_publish(&mut self, event: &Event)
        requires
            old(self).wf(),
        ensures
            final(self).wf(),
            final(self).subs == old(self).subs,
            final(self).next_handler == old(self).next_handler,
            *event is ErrorOccurred ==> final(self).errors.state() == end_state(old(self).errors.state()),
            !(*event is ErrorOccurred) ==> final(self).errors == old(self).errors,
    {
        let ghost before = *self;
        if event.is_error_event() {
            self.errors.end_error_event();
        }
        proof {
            lemma_same_table(before, *self);
        }
    }

    /// Clear every subscription and reset the error limits.
    pub fn shutdown(&mut self)
        requires
            old(self).wf(),
        ensures
            final(self).wf(),
            forall|key: Seq<char>| final(self).subscriptions(key).len() == 0,
            final(self).next_handler == old(self).next_handler,
            final(self).errors.depth == 0,
            final(self).errors.error_event_times@.len() == 0,
            final(self).errors.last_error_event_time == 0,
    {
        self.subs.clear();
        self.errors.reset();
        assert(self.table() =~= Seq::<(Seq<char>, Seq<Subscription>)>::empty());
    }
}

/// The event published when a handler of `event` panicked at time `now`: an
/// `error.occurred` for the same session, unless `event` is itself one.
pub fn handler_panic_event(event: &Event, now: u64) -> (r: Option<Event>)
    ensures
        event_type_of(*event) == "error.occurred"@ ==> r is None,
        event_type_of(*event) != "error.occurred"@ ==> (r matches Some(
            Event::ErrorOccurred { meta, error_message },
        ) && meta.session_id@ == meta_of(*event).session_id@ && meta.timestamp == now
            && error_message@ == "event_handler_panic"@),
{
    if text_eq(event.event_type(), "error.occurred") {
        None
    } else {
        let sid = event.meta().session_id.clone();
        Some(Event::ErrorOccurred {
            meta: EventMeta::new(sid, now),
            error_message: string_of("event_handler_panic"),
        })
    }
}

/// One publish in progress: the handlers it runs, in order, and how many
/// have been handed out.
pub struct Dispatch {
    pub ids: Vec<u64>,
    pub next: usize,
}

/// One step of a dispatch from `a` to `b`: `r` is the handler to run next.
/// Each handler comes exactly once, in order, then nothing.
pub open spec fn dispatch_step(a: Dispatch, b: Dispatch, r: Option<u64>) -> bool {
    &&& b.ids@ == a.ids@
    &&& a.next < a.ids@.len() ==> r == Some(a.ids@[a.next as int]) && b.next == a.next + 1
    &&& a.next >= a.ids@.len() ==> r is None && b.next == a.next
}

impl Dispatch {
    /// A dispatch of the handlers `ids` (as [`EventBus::publish`] lists them).
    pub fn new(ids: Vec<u64>) -> (r: Dispatch)
        ensures
            r.ids@ == ids@,
            r.next == 0,
    {
        Dispatch { ids, next: 0 }
    }

    /// The next handler to run. Whether earlier handlers panicked does not
    /// matter: every handler runs once.
    pub fn next_handler(&mut self) -> (r: Option<u64>)
        ensures
            dispatch_step(*old(self), *final(self), r),
    {
        if self.next < self.ids.len() {
            let h = self.ids[self.next];
            self.next = self.next + 1;
            Some(h)
        } else {
            None
        }
    }

    /// What follows a handler's run for `event` at `now`: when it panicked,
    /// the `error.occurred` to publish (none for an `error.occurred` event).
    pub fn after_handler(event: &Event, panicked: bool, now: u64) -> (r: Option<Event>)
        ensures
            !panicked ==> r is None,
            panicked && event_type_of(*event) == "error.occurred"@ ==> r is None,
            panicked && event_type_of(*event) != "error.occurred"@ ==> (r matches Some(
                Event::ErrorOccurred { meta, error_message },
            ) && meta.session_id@ == meta_of(*event).session_id@ && meta.timestamp == now
                && error_message@ == "event_handler_panic"@),
    {
        if panicked {
            handler_panic_event(event, now)
        } else {
            None
        }
    }
}

/// A dispatch run step by step from its start hands out its handlers exactly
/// once each, in order, and then nothing, whatever the handlers did.
pub proof fn law_dispatch_each_handler_once(states: Seq<Dispatch>, out: Seq<Option<u64>>)
    requires
        states.len() == out.len() + 1,
        states[0].next == 0,
        forall|i: int| 0 <= i < out.len() ==> #[trigger] dispatch_step(states[i], states[i + 1], out[i]),
    ensures
        forall|i: int| 0 <= i < out.len() && i < states[0].ids@.len() ==> out[i] == Some(states[0].ids@[i]),
        forall|i: int| states[0].ids@.len() <= i < out.len() ==> out[i] is None,
    decreases out.len(),
{
    if out.len() > 0 {
        let n = out.len() - 1;
        law_dispatch_each_handler_once(states.take(n + 1), out.take(n));
        assert forall|i: int| 0 <= i <= n implies states[i].ids@ == states[0].ids@ && states[i].next == (
            if i < states[0].ids@.len() { i } else { states[0].ids@.len() as int }) by {
            lemma_dispatch_prefix(states, out, i);
        }
        assert(dispatch_step(states[n], states[n + 1], out[n]));
        assert forall|i: int| 0 <= i < out.len() && i < states[0].ids@.len() implies out[i] == Some(
            states[0].ids@[i],
        ) by {
            if i < n {
                assert(states.take(n + 1)[i] == states[i]);
                assert(out.take(n)[i] == out[i]);
            }
        }
        assert forall|i: int| states[0].ids@.len() <= i < out.len() implies out[i] is None by {
            if i < n {
                assert(out.take(n)[i] == out[i]);
            }
        }
    }
}

proof fn lemma_dispatch_prefix(states: Seq<Dispatch>, out: Seq<Option<u64>>, i: int)
    requires
        states.len() == out.len() + 1,
        states[0].next == 0,
        forall|k: int| 0 <= k < out.len() ==> #[trigger] dispatch_step(states[k], states[k + 1], out[k]),
        0 <= i <= out.len(),
    ensures
        states[i].ids@ == states[0].ids@,
        states[i].next == (if i < states[0].ids@.len() { i } else { states[0].ids@.len() as int }),
    decreases i,
{
    if i > 0 {
        lemma_dispatch_prefix(states, out, i - 1);
        let k = i - 1;
        assert(dispatch_step(states[k], states[k + 1], out[k]));
    }
}

/// Handlers of an event type run in descending priority; among equal
/// priorities, the one subscribed first runs first.
pub proof fn law_dispatch_order(bus: EventBus, key: Seq<char>, i: int, j: int)
    requires
        bus.wf(),
        0 <= i < j < bus.subscriptions(key).len(),
    ensures
        bus.subscriptions(key)[i].priority >= bus.subscriptions(key)[j].priority,
        bus.subscriptions(key)[i].priority == bus.subscriptions(key)[j].priority
            ==> bus.subscriptions(key)[i].handler < bus.subscriptions(key)[j].handler,
{
    assert(dispatch_ordered(bus.subscriptions(key)));
}

/// After an error event is let through at `now1`, every error event published
/// before the cooldown has run out is dropped, whether or not the first one
/// has finished.
pub proof fn law_error_cooldown(s: LimiterState, now1: u64, now2: u64)
    requires
        limiter_wf(s),
        begin_accepts(s, now1),
        now1 <= now2,
        now2 - now1 < ERROR_EVENT_COOLDOWN,
    ensures
        !begin_accepts(begin_state(s, now1), now2),
        !begin_accepts(end_state(begin_state(s, now1)), now2),
{
}

/// A dispatched error event that finishes gives back exactly the depth it took.
pub proof fn law_error_depth_balanced(s: LimiterState, now: u64)
    requires
        limiter_wf(s),
        begin_accepts(s, now),
    ensures
        end_state(begin_state(s, now)).depth == s.depth,
        begin_state(s, now).depth == s.depth + 1,
{
}

/// Error dispatch never nests deeper than `MAX_ERROR_EVENT_DEPTH`, and the
/// record of recent error events never exceeds the rate limit.
pub proof fn law_error_limits_kept(s: LimiterState, now: u64)
    requires
        limiter_wf(s),
    ensures
        limiter_wf(begin_state(s, now)),
        limiter_wf(end_state(s)),
        begin_accepts(s, now) ==> recent(begin_state(s, now).times, now).len() <= ERROR_EVENT_RATE_LIMIT,
        s.depth == MAX_ERROR_EVENT_DEPTH ==> !begin_accepts(s, now),
{
    lemma_recent_len(s.times, now);
    lemma_recent_len(begin_state(s, now).times, now);
}

proof fn lemma_same_table(a: EventBus, b: EventBus)
    requires
        a.wf(),
        a.subs == b.subs,
        a.next_handler == b.next_handler,
        b.errors.wf(),
    ensures
        b.wf(),
        forall|key: Seq<char>| #[trigger] b.subscriptions(key) == a.subscriptions(key),
{
    assert(a.table() == b.table());
    assert forall|key: Seq<char>| #[trigger] b.subscriptions(key) == a.subscriptions(key) by {
        assert(b.subscriptions(key) == subs_of(a.table(), key));
    }
    assert forall|key: Seq<char>| #[trigger] dispatch_ordered(b.subscriptions(key)) by {
        assert(dispatch_ordered(a.subscriptions(key)));
    }
    assert forall|key: Seq<char>, i: int|
        0 <= i < b.subscriptions(key).len() implies (#[trigger] b.subscriptions(key)[i]).handler
        < b.next_handler by {
        assert(a.subscriptions(key)[i].handler < a.next_handler);
    }
}

proof fn lemma_subs_of_update(
    t0: Seq<(Seq<char>, Seq<Subscription>)>,
    t1: Seq<(Seq<char>, Seq<Subscription>)>,
    i: int,
    key0: Seq<char>,
    key: Seq<char>,
)
    requires
        0 <= i < t0.len(),
        t1.len() == t0.len(),
        forall|k: int| 0 <= k < t0.len() && k != i ==> t1[k] == t0[k],
        t1[i].0 == key0,
        t0[i].0 == key0,
        forall|k: int| 0 <= k < i ==> t0[k].0 != key0,
    ensures
        key != key0 ==> subs_of(t1, key) == subs_of(t0, key),
        key == key0 ==> subs_of(t1, key) == t1[i].1 && subs_of(t0, key) == t0[i].1,
    decreases i,
{
    if i > 0 {
        assert(t1[0] == t0[0]);
        if t0[0].0 != key {
            lemma_subs_of_update(t0.drop_first(), t1.drop_first(), i - 1, key0, key);
        }
    } else if key != key0 {
        assert(t1.drop_first() =~= t0.drop_first());
    }
}

proof fn lemma_subs_of_append(
    t0: Seq<(Seq<char>, Seq<Subscription>)>,
    t1: Seq<(Seq<char>, Seq<Subscription>)>,
    key0: Seq<char>,
    key: Seq<char>,
)
    requires
        t1.len() == t0.len() + 1,
        forall|k: int| 0 <= k < t0.len() ==> t1[k] == t0[k],
        t1.last().0 == key0,
        forall|k: int| 0 <= k < t0.len() ==> t0[k].0 != key0,
    ensures
        key != key0 ==> subs_of(t1, key) == subs_of(t0, key),
        key == key0 ==> subs_of(t1, key) == t1.last().1,
    decreases t0.len(),
{
    if t0.len() > 0 {
        assert(t1[0] == t0[0]);
        if t0[0].0 != key {
            lemma_subs_of_append(t0.drop_first(), t1.drop_first(), key0, key);
        }
    } else {
        assert(t1[0].0 == key0);
        assert(t1.drop_first().len() == 0);
        assert(subs_of(t1.drop_first(), key) == Seq::<Subscription>::empty());
    }
}

proof fn lemma_subs_of_absent(t0: Seq<(Seq<char>, Seq<Subscription>)>, key0: Seq<char>)
    requires
        forall|k: int| 0 <= k < t0.len() ==> t0[k].0 != key0,
    ensures
        subs_of(t0, key0) == Seq::<Subscription>::empty(),
    decreases t0.len(),
{
    if t0.len() > 0 {
        lemma_subs_of_absent(t0.drop_first(), key0);
    }
}

/// Inserting at the first position whose priority is lower is `insert_by_priority`.
proof fn lemma_insert_at_cut(list: Seq<Subscription>, s: Subscription, cut: int)
    requires
        0 <= cut <= list.len(),
        forall|k: int| 0 <= k < cut ==> list[k].priority >= s.priority,
        cut < list.len() ==> list[cut].priority < s.priority,
    ensures
        insert_by_priority(list, s) == list.take(cut).push(s) + list.skip(cut),
    decreases cut,
{
    if cut == 0 {
        if list.len() == 0 {
            assert(list.take(0).push(s) + list.skip(0) =~= seq![s]);
        } else {
            assert(list.take(0).push(s) + list.skip(0) =~= seq![s] + list);
        }
    } else {
        let rest = list.drop_first();
        assert forall|k: int| 0 <= k < cut - 1 implies rest[k].priority >= s.priority by {
            assert(rest[k] == list[k + 1]);
        }
        if cut - 1 < rest.len() {
            assert(rest[cut - 1] == list[cut]);
        }
        lemma_insert_at_cut(rest, s, cut - 1);
        assert(list.take(cut).push(s) + list.skip(cut) =~= seq![list[0]] + (rest.take(cut - 1).push(s)
            + rest.skip(cut - 1)));
    }
}

/// Membership of `insert_by_priority`: the old entries and `s`.
proof fn lemma_insert_members(list: Seq<Subscription>, s: Subscription, k: int)
    requires
        0 <= k < insert_by_priority(list, s).len(),
    ensures
        insert_by_priority(list, s).len() == list.len() + 1,
        insert_by_priority(list, s)[k] == s || exists|j: int|
            0 <= j < list.len() && insert_by_priority(list, s)[k] == #[trigger] list[j],
    decreases list.len(),
{
    if list.len() == 0 {
    } else if list[0].priority >= s.priority {
        if k == 0 {
            assert(insert_by_priority(list, s)[k] == list[0]);
        } else {
            lemma_insert_members(list.drop_first(), s, k - 1);
            if insert_by_priority(list, s)[k] != s {
                let j = choose|j: int|
                    0 <= j < list.drop_first().len() && insert_by_priority(list.drop_first(), s)[k
                        - 1] == #[trigger] list.drop_first()[j];
                assert(list[j + 1] == list.drop_first()[j]);
            }
        }
        lemma_insert_len(list.drop_first(), s);
    } else {
        if k > 0 {
            assert(insert_by_priority(list, s)[k] == list[k - 1]);
        }
    }
}

proof fn lemma_insert_len(list: Seq<Subscription>, s: Subscription)
    ensures
        insert_by_priority(list, s).len() == list.len() + 1,
    decreases list.len(),
{
    if list.len() > 0 && list[0].priority >= s.priority {
        lemma_insert_len(list.drop_first(), s);
    }
}

/// Inserting a handler whose id exceeds every id in an ordered list keeps the
/// list in dispatch order.
proof fn lemma_insert_keeps_order(list: Seq<Subscription>, s: Subscription)
    requires
        dispatch_ordered(list),
        forall|i: int| 0 <= i < list.len() ==> (#[trigger] list[i]).handler < s.handler,
    ensures
        dispatch_ordered(insert_by_priority(list, s)),
    decreases list.len(),
{
    lemma_insert_len(list, s);
    if list.len() == 0 {
    } else if list[0].priority >= s.priority {
        let rest = list.drop_first();
        assert forall|i: int, j: int|
            0 <= i < j < rest.len() implies (#[trigger] rest[i]).priority > (#[trigger] rest[j]).priority
            || (rest[i].priority == rest[j].priority && rest[i].handler < rest[j].handler) by {
            assert(rest[i] == list[i + 1] && rest[j] == list[j + 1]);
        }
        assert forall|i: int| 0 <= i < rest.len() implies (#[trigger] rest[i]).handler < s.handler by {
            assert(rest[i] == list[i + 1]);
        }
        lemma_insert_keeps_order(rest, s);
        let ins = insert_by_priority(list, s);
        let sub = insert_by_priority(rest, s);
        assert forall|i: int, j: int|
            0 <= i < j < ins.len() implies (#[trigger] ins[i]).priority > (#[trigger] ins[j]).priority
            || (ins[i].priority == ins[j].priority && ins[i].handler < ins[j].handler) by {
            if i == 0 {
                assert(ins[0] == list[0]);
                assert(ins[j] == sub[j - 1]);
                lemma_insert_members(rest, s, j - 1);
                if sub[j - 1] != s {
                    let m = choose|m: int| 0 <= m < rest.len() && sub[j - 1] == #[trigger] rest[m];
                    assert(rest[m] == list[m + 1]);
                }
            } else {
                assert(ins[i] == sub[i - 1] && ins[j] == sub[j - 1]);
            }
        }
    } else {
        let ins = insert_by_priority(list, s);
        assert forall|i: int, j: int|
            0 <= i < j < ins.len() implies (#[trigger] ins[i]).priority > (#[trigger] ins[j]).priority
            || (ins[i].priority == ins[j].priority && ins[i].handler < ins[j].handler) by {
            if i == 0 {
                assert(ins[j] == list[j - 1]);
                if j - 1 > 0 {
                    assert(list[0].priority >= list[j - 1].priority);
                }
            } else {
                assert(ins[i] == list[i - 1] && ins[j] == list[j - 1]);
            }
        }
    }
}

} // verus!
