//! A watch from its first connection to its end.
//!
//! [`Watch::step`] takes what happened and says what to do next; the caller
//! holds the sockets, the clock and the output. There are at most two sessions:
//! the current one, and during a rotation a fresh one that is subscribed before
//! the current one is closed.

use vstd::prelude::*;

use crate::error::{Error, Fault};
use crate::json::{docs, lemma_docs, Doc, Json};
use crate::order::texts;
use crate::watch::{
    decide, gap_marker, later, marker, past, verdict, Feed, Filter, Keep, Next, SessionEnd, Stream,
    WatchArgs, DRAIN_POLLS, DRAIN_QUIET_POLLS, DRAIN_WAIT_MS, ROTATE_RETRY_MS, TICK_MS,
};

verus! {

/// What a watch keeps and when it ends.
#[derive(Debug)]
pub struct Plan {
    pub filter: Filter,
    /// When the watch ends.
    pub deadline: Option<u64>,
    /// How long it may stay quiet.
    pub idle: Option<u64>,
    /// How often its session is replaced.
    pub rotate: Option<u64>,
}

/// A session that is being drained: when its successor was made, and how many
/// polls are left and were empty in a row.
#[derive(Debug, Clone, Copy)]
pub struct Drain {
    pub minted: u64,
    pub left: u64,
    pub quiet: u64,
}

/// What a watch is waiting for.
#[derive(Debug)]
pub enum Phase {
    /// The connection of a new session.
    Opening,
    /// Its subscription.
    Subscribing,
    /// The output of the marker of a hole.
    Announcing,
    /// Events.
    Polling,
    /// The output of an event; the rest of its batch; the drain it came from.
    Writing { rest: Vec<Json>, drain: Option<Drain> },
    /// The connection of a fresh session.
    Renewing { minted: u64 },
    /// The subscription of a fresh session.
    Resubscribing { minted: u64 },
    /// What the current session still holds.
    Draining(Drain),
    /// The end of the current session, and the fresh one taking its place.
    Swapping { minted: u64, done: bool },
    /// The end of the fresh session after the output failed.
    Discarding(Error),
    /// The end of the current session.
    Closing(Option<Error>),
    /// The next attempt.
    Pausing,
    /// Nothing: the watch is over.
    Over,
}

/// What happened.
#[derive(Debug)]
pub enum Signal {
    /// What was asked for is done.
    Done,
    /// What was asked for failed.
    Failed(Error),
    /// A poll brought these events.
    Events(Vec<Json>),
    /// A pause was cut short.
    Interrupted,
}

/// What to do next.
#[derive(Debug)]
pub enum Action {
    Connect,
    Subscribe,
    Poll { wait_ms: u64 },
    Write(Json),
    ConnectFresh,
    SubscribeFresh,
    /// Close the current session and make the fresh one current.
    Swap,
    DisconnectFresh,
    Disconnect,
    Pause { secs: u64, attempt: u32 },
    Finish,
    Fail(Error),
}

/// A watch.
#[derive(Debug)]
pub struct Watch {
    pub plan: Plan,
    pub stream: Stream,
    pub attempt: u32,
    pub established: bool,
    /// The ordinal of the reconnect that will close the hole.
    pub gap: Option<u32>,
    /// Since when the watch is not subscribed.
    pub offline_since: u64,
    pub started: u64,
    pub rotate_at: Option<u64>,
    pub phase: Phase,
}

/// What a watch is waiting for, as a view.
pub ghost enum Stage {
    Opening,
    Subscribing,
    Announcing,
    Polling,
    Writing { rest: Seq<Doc>, drain: Option<Drain> },
    Renewing { minted: u64 },
    Resubscribing { minted: u64 },
    Draining(Drain),
    Swapping { minted: u64, done: bool },
    Discarding(Fault),
    Closing(Option<Fault>),
    Pausing,
    Over,
}

/// What happened, as a view.
pub ghost enum Report {
    Done,
    Failed(Fault),
    Events(Seq<Doc>),
    Interrupted,
}

/// What to do next, as a view.
pub ghost enum Order {
    Connect,
    Subscribe,
    Poll { wait_ms: u64 },
    Write(Doc),
    ConnectFresh,
    SubscribeFresh,
    Swap,
    DisconnectFresh,
    Disconnect,
    Pause { secs: u64, attempt: u32 },
    Finish,
    Fail(Fault),
}

/// A watch as a view.
pub ghost struct State {
    pub keep: Keep,
    pub deadline: Option<u64>,
    pub idle: Option<u64>,
    pub rotate: Option<u64>,
    pub feed: Feed,
    pub attempt: u32,
    pub established: bool,
    pub gap: Option<u32>,
    pub offline_since: u64,
    pub started: u64,
    pub rotate_at: Option<u64>,
    pub stage: Stage,
}

/// The first event of a batch that is kept and new, and what follows it.
pub open spec fn pick(feed: Feed, keep: Keep, now: u64, batch: Seq<Doc>) -> (
    Feed,
    Option<(Doc, Seq<Doc>)>,
)
    decreases batch.len(),
{
    if batch.len() == 0 {
        (feed, None)
    } else if !keep.accepts(batch[0]) {
        pick(feed, keep, now, batch.drop_first())
    } else {
        let (f, seen) = feed.duplicate(now, batch[0]);
        if seen {
            pick(f, keep, now, batch.drop_first())
        } else {
            (f, Some((batch[0], batch.drop_first())))
        }
    }
}

/// How long a stretch of the clock is.
pub open spec fn stretch(from: u64, to: u64) -> u64 {
    if to >= from {
        (to - from) as u64
    } else {
        0
    }
}

/// The time from which a session is due for rotation.
pub open spec fn rotation_due(rotate: Option<u64>, from: u64) -> Option<u64> {
    match rotate {
        Some(d) => Some(later(from, d)),
        None => None,
    }
}

impl State {
    /// The caller asked to stop, or the time is up.
    pub open spec fn stopping(self, now: u64, stop: bool) -> bool {
        stop || (self.deadline matches Some(d) && now >= d)
    }

    pub open spec fn go(self, stage: Stage, order: Order) -> (State, Order) {
        (State { stage, ..self }, order)
    }

    /// Opens a session.
    pub open spec fn open(self, now: u64) -> (State, Order) {
        State { started: now, ..self }.go(Stage::Opening, Order::Connect)
    }

    /// A session has ended: the policy decides. A new hole dates from now, one
    /// that is still open from its beginning.
    pub open spec fn end(self, now: u64, stop: bool, failure: Option<Fault>) -> (State, Order) {
        match verdict(
            failure,
            self.established,
            stretch(self.started, now),
            self.attempt,
            self.stopping(now, stop),
        ) {
            Next::Stop => self.go(Stage::Over, Order::Finish),
            Next::Fail => self.go(
                Stage::Over,
                match failure {
                    Some(f) => Order::Fail(f),
                    None => Order::Finish,
                },
            ),
            Next::Retry { attempt, wait_secs } => State {
                attempt,
                offline_since: if self.gap is None {
                    now
                } else {
                    self.offline_since
                },
                gap: Some(attempt),
                ..self
            }.go(Stage::Pausing, Order::Pause { secs: wait_secs, attempt }),
        }
    }

    /// Ends the current session.
    pub open spec fn close(self, failure: Option<Fault>) -> (State, Order) {
        self.go(Stage::Closing(failure), Order::Disconnect)
    }

    /// Goes on listening: unless it is time to stop, or to rotate.
    pub open spec fn pump(self, now: u64, stop: bool) -> (State, Order) {
        if self.stopping(now, stop) || self.feed.idle_expired(now, self.idle) {
            self.close(None)
        } else if self.rotate_at matches Some(d) && now >= d {
            self.go(Stage::Renewing { minted: now }, Order::ConnectFresh)
        } else {
            self.go(Stage::Polling, Order::Poll { wait_ms: TICK_MS })
        }
    }

    /// A session is subscribed and announced: its rotation is due from now.
    pub open spec fn begin(self, now: u64, stop: bool) -> (State, Order) {
        State { rotate_at: rotation_due(self.rotate, now), ..self }.pump(now, stop)
    }

    /// Subscribed: the time without a subscription is forgiven, and where it was
    /// a hole it is announced, once.
    pub open spec fn subscribed(self, now: u64, stop: bool) -> (State, Order) {
        let offline = stretch(self.offline_since, now);
        let s = State {
            established: true,
            feed: self.feed.resume(now, offline),
            gap: None,
            ..self
        };
        match self.gap {
            Some(attempt) => s.go(Stage::Announcing, Order::Write(marker(offline, attempt))),
            None => s.begin(now, stop),
        }
    }

    /// Gives way to the fresh session.
    pub open spec fn swap(self, minted: u64, done: bool) -> (State, Order) {
        self.go(Stage::Swapping { minted, done }, Order::Swap)
    }

    /// The fresh session is in place.
    pub open spec fn swapped(self, now: u64, stop: bool, minted: u64, done: bool) -> (
        State,
        Order,
    ) {
        let s = State { rotate_at: rotation_due(self.rotate, minted), ..self };
        if done {
            s.close(None)
        } else {
            s.pump(now, stop)
        }
    }

    /// A rotation failed: the current session goes on, and it is tried again
    /// soon.
    pub open spec fn rotation_failed(self, now: u64, stop: bool) -> (State, Order) {
        State { rotate_at: Some(later(now, ROTATE_RETRY_MS)), ..self }.pump(now, stop)
    }

    /// Goes on draining.
    pub open spec fn drain(self, now: u64, stop: bool, d: Drain) -> (State, Order) {
        if d.left == 0 {
            self.swap(d.minted, false)
        } else if self.stopping(now, stop) {
            self.swap(d.minted, true)
        } else {
            self.go(
                Stage::Draining(Drain { left: (d.left - 1) as u64, ..d }),
                Order::Poll { wait_ms: DRAIN_WAIT_MS },
            )
        }
    }

    /// Delivers a batch: the first event that counts is written; after the last
    /// one the watch goes on as it was.
    pub open spec fn deliver(self, now: u64, stop: bool, batch: Seq<Doc>, d: Option<Drain>) -> (
        State,
        Order,
    ) {
        let (feed, found) = pick(self.feed, self.keep, now, batch);
        let s = State { feed, ..self };
        match found {
            Some((event, rest)) => s.go(Stage::Writing { rest, drain: d }, Order::Write(event)),
            None => match d {
                Some(d) => s.drain(now, stop, d),
                None => s.pump(now, stop),
            },
        }
    }

    /// An event went out.
    pub open spec fn written(self, now: u64, stop: bool, rest: Seq<Doc>, d: Option<Drain>) -> (
        State,
        Order,
    ) {
        let s = State { feed: self.feed.event(now), ..self };
        if s.feed.satisfied() {
            match d {
                Some(d) => s.swap(d.minted, true),
                None => s.close(None),
            }
        } else {
            s.deliver(now, stop, rest, d)
        }
    }

    /// A poll of the session that is being drained came back.
    pub open spec fn drained(self, now: u64, stop: bool, batch: Seq<Doc>, d: Drain) -> (
        State,
        Order,
    ) {
        if batch.len() == 0 {
            if d.quiet + 1 >= DRAIN_QUIET_POLLS {
                self.swap(d.minted, false)
            } else {
                self.drain(now, stop, Drain { quiet: (d.quiet + 1) as u64, ..d })
            }
        } else {
            self.deliver(now, stop, batch, Some(Drain { quiet: 0, ..d }))
        }
    }

    /// What follows a report. A report that does not fit the stage ends the
    /// watch.
    pub open spec fn step(self, now: u64, stop: bool, r: Report) -> (State, Order) {
        match (self.stage, r) {
            (Stage::Opening, Report::Done) => self.go(Stage::Subscribing, Order::Subscribe),
            (Stage::Opening, Report::Failed(f)) => self.end(now, stop, Some(f)),
            (Stage::Subscribing, Report::Done) => self.subscribed(now, stop),
            (Stage::Subscribing, Report::Failed(f)) => self.end(now, stop, Some(f)),
            (Stage::Announcing, Report::Done) => self.begin(now, stop),
            (Stage::Announcing, Report::Failed(f)) => self.close(Some(f)),
            (Stage::Polling, Report::Events(batch)) => self.deliver(now, stop, batch, None),
            (Stage::Polling, Report::Failed(f)) => self.close(Some(f)),
            (Stage::Writing { rest, drain }, Report::Done) => self.written(now, stop, rest, drain),
            (Stage::Writing { rest, drain }, Report::Failed(f)) => match drain {
                Some(_) => self.go(Stage::Discarding(f), Order::DisconnectFresh),
                None => self.close(Some(f)),
            },
            (Stage::Renewing { minted }, Report::Done) => self.go(
                Stage::Resubscribing { minted },
                Order::SubscribeFresh,
            ),
            (Stage::Renewing { .. }, Report::Failed(_)) => self.rotation_failed(now, stop),
            (Stage::Resubscribing { minted }, Report::Done) => State {
                feed: self.feed.open_seam(now),
                ..self
            }.drain(now, stop, Drain { minted, left: DRAIN_POLLS, quiet: 0 }),
            (Stage::Resubscribing { .. }, Report::Failed(_)) => self.rotation_failed(now, stop),
            (Stage::Draining(d), Report::Events(batch)) => self.drained(now, stop, batch, d),
            (Stage::Draining(d), Report::Failed(_)) => self.swap(d.minted, false),
            (Stage::Swapping { minted, done }, Report::Done) => self.swapped(
                now,
                stop,
                minted,
                done,
            ),
            (Stage::Discarding(f), Report::Done) => self.close(Some(f)),
            (Stage::Closing(failure), Report::Done) => self.end(now, stop, failure),
            (Stage::Pausing, Report::Done) => self.open(now),
            _ => self.go(Stage::Over, Order::Finish),
        }
    }
}

/// `pick` counts nothing and keeps the limits.
proof fn lemma_pick(feed: Feed, keep: Keep, now: u64, batch: Seq<Doc>)
    ensures
        pick(feed, keep, now, batch).0.emitted == feed.emitted,
        pick(feed, keep, now, batch).0.max_events == feed.max_events,
        pick(feed, keep, now, batch).0.last_event == feed.last_event,
    decreases batch.len(),
{
    if batch.len() > 0 {
        if !keep.accepts(batch[0]) {
            lemma_pick(feed, keep, now, batch.drop_first());
        } else {
            lemma_pick(feed.duplicate(now, batch[0]).0, keep, now, batch.drop_first());
        }
    }
}

impl State {
    /// The events that a watch may emit: as many as were asked for, and one
    /// where none were.
    pub open spec fn budget(self) -> Option<u64> {
        match self.feed.max_events {
            Some(m) => Some(
                if m == 0 {
                    1
                } else {
                    m
                },
            ),
            None => None,
        }
    }

    /// A drain has seen fewer empty polls in a row than end it.
    pub open spec fn sound(self) -> bool {
        &&& self.stage matches Stage::Draining(d) ==> d.quiet < DRAIN_QUIET_POLLS
        &&& self.stage matches Stage::Writing { drain: Some(d), .. } ==> d.quiet
            < DRAIN_QUIET_POLLS
    }

    /// The watch has nothing more to emit.
    pub open spec fn winding_down(self) -> bool {
        self.stage is Over || self.stage == Stage::Closing(None) || (
        self.stage matches Stage::Swapping { done, .. } && done)
    }

    /// The watch has emitted no more than it may, and fewer while it goes on.
    pub open spec fn within_budget(self) -> bool {
        self.budget() matches Some(m) ==> {
            &&& self.feed.emitted <= m
            &&& self.winding_down() || self.feed.emitted < m
        }
    }

    /// A step keeps the watch within its budget.
    pub proof fn lemma_step_budget(self, now: u64, stop: bool, r: Report)
        requires
            self.feed.emitted < u64::MAX,
        ensures
            self.within_budget() ==> self.step(now, stop, r).0.within_budget(),
            self.sound() ==> self.step(now, stop, r).0.sound(),
    {
        if let Report::Events(batch) = r {
            lemma_pick(self.feed, self.keep, now, batch);
        }
        if let Stage::Writing { rest, .. } = self.stage {
            lemma_pick(self.feed.event(now), self.keep, now, rest);
        }
    }

    /// A step counts an event where one went out, and keeps the limits.
    pub proof fn lemma_step_count(self, now: u64, stop: bool, r: Report)
        requires
            self.feed.emitted < u64::MAX,
        ensures
            self.step(now, stop, r).0.feed.emitted == (if self.stage is Writing && r is Done {
                self.feed.emitted + 1
            } else {
                self.feed.emitted as int
            }),
            self.step(now, stop, r).0.feed.max_events == self.feed.max_events,
    {
        if let Report::Events(batch) = r {
            lemma_pick(self.feed, self.keep, now, batch);
        }
        if let Stage::Writing { rest, .. } = self.stage {
            lemma_pick(self.feed.event(now), self.keep, now, rest);
        }
    }
}

/// The failure of an optional error.
pub open spec fn fault_option(e: Option<Error>) -> Option<Fault> {
    match e {
        Some(e) => Some(e@),
        None => None,
    }
}

impl Phase {
    pub open spec fn view(&self) -> Stage {
        match self {
            Phase::Opening => Stage::Opening,
            Phase::Subscribing => Stage::Subscribing,
            Phase::Announcing => Stage::Announcing,
            Phase::Polling => Stage::Polling,
            Phase::Writing { rest, drain } => Stage::Writing { rest: docs(rest@), drain: *drain },
            Phase::Renewing { minted } => Stage::Renewing { minted: *minted },
            Phase::Resubscribing { minted } => Stage::Resubscribing { minted: *minted },
            Phase::Draining(d) => Stage::Draining(*d),
            Phase::Swapping { minted, done } => Stage::Swapping { minted: *minted, done: *done },
            Phase::Discarding(e) => Stage::Discarding(e@),
            Phase::Closing(e) => Stage::Closing(fault_option(*e)),
            Phase::Pausing => Stage::Pausing,
            Phase::Over => Stage::Over,
        }
    }
}

impl Signal {
    pub open spec fn view(&self) -> Report {
        match self {
            Signal::Done => Report::Done,
            Signal::Failed(e) => Report::Failed(e@),
            Signal::Events(batch) => Report::Events(docs(batch@)),
            Signal::Interrupted => Report::Interrupted,
        }
    }
}

impl Action {
    pub open spec fn view(&self) -> Order {
        match self {
            Action::Connect => Order::Connect,
            Action::Subscribe => Order::Subscribe,
            Action::Poll { wait_ms } => Order::Poll { wait_ms: *wait_ms },
            Action::Write(j) => Order::Write(j@),
            Action::ConnectFresh => Order::ConnectFresh,
            Action::SubscribeFresh => Order::SubscribeFresh,
            Action::Swap => Order::Swap,
            Action::DisconnectFresh => Order::DisconnectFresh,
            Action::Disconnect => Order::Disconnect,
            Action::Pause { secs, attempt } => Order::Pause { secs: *secs, attempt: *attempt },
            Action::Finish => Order::Finish,
            Action::Fail(e) => Order::Fail(e@),
        }
    }
}

/// The first value taken off a list of documents.
proof fn lemma_docs_rest(items: Seq<Json>)
    requires
        items.len() > 0,
    ensures
        docs(items)[0] == items[0]@,
        docs(items.remove(0)) == docs(items).drop_first(),
{
    lemma_docs(items);
    lemma_docs(items.remove(0));
    assert(docs(items.remove(0)) =~= docs(items).drop_first());
}

impl Watch {
    pub open spec fn view(&self) -> State {
        State {
            keep: self.plan.filter@,
            deadline: self.plan.deadline,
            idle: self.plan.idle,
            rotate: self.plan.rotate,
            feed: self.stream@,
            attempt: self.attempt,
            established: self.established,
            gap: self.gap,
            offline_since: self.offline_since,
            started: self.started,
            rotate_at: self.rotate_at,
            stage: self.phase@,
        }
    }

    /// A watch at its beginning: the first thing to do is to connect.
    pub fn new(plan: Plan, max_events: Option<u64>, now: u64) -> (r: (Self, Action))
        ensures
            (r.0@, r.1@) == (State {
                keep: plan.filter@,
                deadline: plan.deadline,
                idle: plan.idle,
                rotate: plan.rotate,
                feed: Feed {
                    max_events,
                    emitted: 0,
                    last_event: now,
                    recent: Seq::empty(),
                    seam_until: None,
                },
                attempt: 0,
                established: false,
                gap: None,
                offline_since: now,
                started: now,
                rotate_at: None,
                stage: Stage::Opening,
            }).open(now),
            r.0@.within_budget(),
            r.0@.sound(),
    {
        (
            Watch {
                plan,
                stream: Stream::new(max_events, now),
                attempt: 0,
                established: false,
                gap: None,
                offline_since: now,
                started: now,
                rotate_at: None,
                phase: Phase::Opening,
            },
            Action::Connect,
        )
    }

    fn stopping(&self, now: u64, stop: bool) -> (r: bool)
        ensures
            r == self@.stopping(now, stop),
    {
        stop || past(self.plan.deadline, now)
    }

    fn end(&mut self, now: u64, stop: bool, failure: Option<Error>) -> (r: Action)
        ensures
            (final(self)@, r@) == old(self)@.end(now, stop, fault_option(failure)),
            final(self).plan == old(self).plan,
    {
        let lifetime_ms: u64 = if now >= self.started {
            now - self.started
        } else {
            0
        };
        let next = decide(
            &SessionEnd {
                error: failure.as_ref(),
                established: self.established,
                lifetime_ms,
                attempt: self.attempt,
                stopping: self.stopping(now, stop),
            },
        );
        match next {
            Next::Stop => {
                self.phase = Phase::Over;
                Action::Finish
            },
            Next::Fail => {
                self.phase = Phase::Over;
                match failure {
                    Some(e) => Action::Fail(e),
                    None => Action::Finish,
                }
            },
            Next::Retry { attempt, wait_secs } => {
                self.attempt = attempt;
                if self.gap.is_none() {
                    self.offline_since = now;
                }
                self.gap = Some(attempt);
                self.phase = Phase::Pausing;
                Action::Pause { secs: wait_secs, attempt }
            },
        }
    }

    fn close(&mut self, failure: Option<Error>) -> (r: Action)
        ensures
            (final(self)@, r@) == old(self)@.close(fault_option(failure)),
            final(self).plan == old(self).plan,
    {
        self.phase = Phase::Closing(failure);
        Action::Disconnect
    }

    fn pump(&mut self, now: u64, stop: bool) -> (r: Action)
        ensures
            (final(self)@, r@) == old(self)@.pump(now, stop),
            final(self).plan == old(self).plan,
    {
        if self.stopping(now, stop) || self.stream.idle_expired(now, self.plan.idle) {
            return self.close(None);
        }
        if past(self.rotate_at, now) {
            self.phase = Phase::Renewing { minted: now };
            return Action::ConnectFresh;
        }
        self.phase = Phase::Polling;
        Action::Poll { wait_ms: TICK_MS }
    }

    fn rotation_due(&self, from: u64) -> (r: Option<u64>)
        ensures
            r == rotation_due(self@.rotate, from),
    {
        match self.plan.rotate {
            Some(d) => Some(from.saturating_add(d)),
            None => None,
        }
    }

    fn begin(&mut self, now: u64, stop: bool) -> (r: Action)
        ensures
            (final(self)@, r@) == old(self)@.begin(now, stop),
            final(self).plan == old(self).plan,
    {
        self.rotate_at = self.rotation_due(now);
        self.pump(now, stop)
    }

    fn subscribed(&mut self, now: u64, stop: bool) -> (r: Action)
        ensures
            (final(self)@, r@) == old(self)@.subscribed(now, stop),
            final(self).plan == old(self).plan,
    {
        self.established = true;
        let offline: u64 = if now >= self.offline_since {
            now - self.offline_since
        } else {
            0
        };
        self.stream.resume(now, offline);
        match self.gap.take() {
            Some(attempt) => {
                self.phase = Phase::Announcing;
                Action::Write(self.stream.meta(gap_marker(offline as u128, attempt)))
            },
            None => self.begin(now, stop),
        }
    }

    fn swap(&mut self, minted: u64, done: bool) -> (r: Action)
        ensures
            (final(self)@, r@) == old(self)@.swap(minted, done),
            final(self).plan == old(self).plan,
    {
        self.phase = Phase::Swapping { minted, done };
        Action::Swap
    }

    fn swapped(&mut self, now: u64, stop: bool, minted: u64, done: bool) -> (r: Action)
        ensures
            (final(self)@, r@) == old(self)@.swapped(now, stop, minted, done),
            final(self).plan == old(self).plan,
    {
        self.rotate_at = self.rotation_due(minted);
        if done {
            self.close(None)
        } else {
            self.pump(now, stop)
        }
    }

    fn rotation_failed(&mut self, now: u64, stop: bool) -> (r: Action)
        ensures
            (final(self)@, r@) == old(self)@.rotation_failed(now, stop),
            final(self).plan == old(self).plan,
    {
        self.rotate_at = Some(now.saturating_add(ROTATE_RETRY_MS));
        self.pump(now, stop)
    }

    fn drain(&mut self, now: u64, stop: bool, d: Drain) -> (r: Action)
        ensures
            (final(self)@, r@) == old(self)@.drain(now, stop, d),
            final(self).plan == old(self).plan,
    {
        if d.left == 0 {
            return self.swap(d.minted, false);
        }
        if self.stopping(now, stop) {
            return self.swap(d.minted, true);
        }
        self.phase = Phase::Draining(Drain { minted: d.minted, left: d.left - 1, quiet: d.quiet });
        Action::Poll { wait_ms: DRAIN_WAIT_MS }
    }

    fn deliver(&mut self, now: u64, stop: bool, batch: Vec<Json>, d: Option<Drain>) -> (r: Action)
        ensures
            (final(self)@, r@) == old(self)@.deliver(now, stop, docs(batch@), d),
            final(self).plan == old(self).plan,
    {
        let mut rest = batch;
        while rest.len() > 0
            invariant
                self.plan == old(self).plan,
                self@ == (State { feed: self.stream@, ..old(self)@ }),
                pick(old(self)@.feed, old(self)@.keep, now, docs(batch@)) == pick(
                    self.stream@,
                    old(self)@.keep,
                    now,
                    docs(rest@),
                ),
            decreases rest.len(),
        {
            proof {
                lemma_docs(rest@);
                lemma_docs_rest(rest@);
            }
            let event = rest.remove(0);
            if self.plan.filter.accepts(&event) {
                if !self.stream.duplicate(now, &event) {
                    self.phase = Phase::Writing { rest, drain: d };
                    return Action::Write(event);
                }
            }
        }
        proof {
            lemma_docs(rest@);
        }
        match d {
            Some(d) => self.drain(now, stop, d),
            None => self.pump(now, stop),
        }
    }

    fn written(&mut self, now: u64, stop: bool, rest: Vec<Json>, d: Option<Drain>) -> (r: Action)
        requires
            old(self)@.feed.emitted < u64::MAX,
        ensures
            (final(self)@, r@) == old(self)@.written(now, stop, docs(rest@), d),
            final(self).plan == old(self).plan,
    {
        if self.stream.event(now) {
            return match d {
                Some(d) => self.swap(d.minted, true),
                None => self.close(None),
            };
        }
        self.deliver(now, stop, rest, d)
    }

    fn drained(&mut self, now: u64, stop: bool, batch: Vec<Json>, d: Drain) -> (r: Action)
        requires
            d.quiet < DRAIN_QUIET_POLLS,
        ensures
            (final(self)@, r@) == old(self)@.drained(now, stop, docs(batch@), d),
            final(self).plan == old(self).plan,
    {
        proof {
            lemma_docs(batch@);
        }
        if batch.len() == 0 {
            if d.quiet + 1 >= DRAIN_QUIET_POLLS {
                self.swap(d.minted, false)
            } else {
                self.drain(
                    now,
                    stop,
                    Drain { minted: d.minted, left: d.left, quiet: d.quiet + 1 },
                )
            }
        } else {
            self.deliver(
                now,
                stop,
                batch,
                Some(Drain { minted: d.minted, left: d.left, quiet: 0 }),
            )
        }
    }

    /// Takes what happened, at which time and whether the caller asked to stop,
    /// and says what to do next.
    pub fn step(&mut self, now: u64, stop: bool, signal: Signal) -> (r: Action)
        requires
            old(self)@.feed.emitted < u64::MAX,
            old(self)@.sound(),
        ensures
            (final(self)@, r@) == old(self)@.step(now, stop, signal@),
            final(self)@.sound(),
            old(self)@.within_budget() ==> final(self)@.within_budget(),
    {
        let ghost before = self@;
        let mut phase = Phase::Over;
        core::mem::swap(&mut phase, &mut self.phase);
        let action = match (phase, signal) {
            (Phase::Opening, Signal::Done) => {
                self.phase = Phase::Subscribing;
                Action::Subscribe
            },
            (Phase::Opening, Signal::Failed(e)) => self.end(now, stop, Some(e)),
            (Phase::Subscribing, Signal::Done) => self.subscribed(now, stop),
            (Phase::Subscribing, Signal::Failed(e)) => self.end(now, stop, Some(e)),
            (Phase::Announcing, Signal::Done) => self.begin(now, stop),
            (Phase::Announcing, Signal::Failed(e)) => self.close(Some(e)),
            (Phase::Polling, Signal::Events(batch)) => self.deliver(now, stop, batch, None),
            (Phase::Polling, Signal::Failed(e)) => self.close(Some(e)),
            (Phase::Writing { rest, drain }, Signal::Done) => self.written(now, stop, rest, drain),
            (Phase::Writing { drain, .. }, Signal::Failed(e)) => match drain {
                Some(_) => {
                    self.phase = Phase::Discarding(e);
                    Action::DisconnectFresh
                },
                None => self.close(Some(e)),
            },
            (Phase::Renewing { minted }, Signal::Done) => {
                self.phase = Phase::Resubscribing { minted };
                Action::SubscribeFresh
            },
            (Phase::Renewing { .. }, Signal::Failed(_)) => self.rotation_failed(now, stop),
            (Phase::Resubscribing { minted }, Signal::Done) => {
                self.stream.open_seam(now);
                self.drain(now, stop, Drain { minted, left: DRAIN_POLLS, quiet: 0 })
            },
            (Phase::Resubscribing { .. }, Signal::Failed(_)) => self.rotation_failed(now, stop),
            (Phase::Draining(d), Signal::Events(batch)) => self.drained(now, stop, batch, d),
            (Phase::Draining(d), Signal::Failed(_)) => self.swap(d.minted, false),
            (Phase::Swapping { minted, done }, Signal::Done) => self.swapped(
                now,
                stop,
                minted,
                done,
            ),
            (Phase::Discarding(e), Signal::Done) => self.close(Some(e)),
            (Phase::Closing(failure), Signal::Done) => self.end(now, stop, failure),
            (Phase::Pausing, Signal::Done) => {
                self.started = now;
                self.phase = Phase::Opening;
                Action::Connect
            },
            _ => Action::Finish,
        };
        proof {
            before.lemma_step_budget(now, stop, signal@);
        }
        action
    }
}

/// Seconds as milliseconds; the clock ends at its largest value.
pub open spec fn millis(secs: u64) -> u64 {
    if secs * 1000 > u64::MAX {
        u64::MAX
    } else {
        (secs * 1000) as u64
    }
}

/// Seconds as milliseconds.
fn to_millis(secs: u64) -> (r: u64)
    ensures
        r == millis(secs),
{
    if secs > u64::MAX / 1000 {
        u64::MAX
    } else {
        secs * 1000
    }
}

/// The watch that the flags ask for, at its beginning. Its length is counted from
/// now, and a session that is replaced every zero seconds is never replaced.
pub open spec fn asked(
    keep: Keep,
    duration: Option<u64>,
    idle_timeout: Option<u64>,
    session_rotate: u64,
    max_events: Option<u64>,
    now: u64,
) -> State {
    State {
        keep,
        deadline: match duration {
            Some(secs) => Some(later(now, millis(secs))),
            None => None,
        },
        idle: match idle_timeout {
            Some(secs) => Some(millis(secs)),
            None => None,
        },
        rotate: if session_rotate > 0 {
            Some(millis(session_rotate))
        } else {
            None
        },
        feed: Feed {
            max_events,
            emitted: 0,
            last_event: now,
            recent: Seq::empty(),
            seam_until: None,
        },
        attempt: 0,
        established: false,
        gap: None,
        offline_since: now,
        started: now,
        rotate_at: None,
        stage: Stage::Opening,
    }
}

/// Begins the watch that the flags ask for.
pub fn run(a: WatchArgs, now: u64) -> (r: (Watch, Action))
    ensures
        (r.0@, r.1@) == asked(
            Keep { operations: a.operation@, on_change: texts(a.on_change@) },
            a.limits.duration,
            a.limits.idle_timeout,
            a.session_rotate,
            a.limits.max_events,
            now,
        ).open(now),
        r.0@.within_budget(),
        r.0@.sound(),
{
    let deadline = match a.limits.duration {
        Some(secs) => Some(now.saturating_add(to_millis(secs))),
        None => None,
    };
    let idle = match a.limits.idle_timeout {
        Some(secs) => Some(to_millis(secs)),
        None => None,
    };
    let rotate = if a.session_rotate > 0 {
        Some(to_millis(a.session_rotate))
    } else {
        None
    };
    let plan = Plan {
        filter: Filter { operations: a.operation, on_change: a.on_change },
        deadline,
        idle,
        rotate,
    };
    Watch::new(plan, a.limits.max_events, now)
}

/// A notice is no event: writing the marker of a hole moves neither the count of
/// events nor the idle clock.
pub proof fn notices_do_not_count(s: State, now: u64, stop: bool, r: Report)
    requires
        s.stage is Announcing,
    ensures
        s.step(now, stop, r).0.feed == s.feed,
{
}

/// An event that the filter drops costs nothing: a batch of such events leaves
/// the count, the idle clock and the record of a rotation as they were.
pub proof fn filtered_events_cost_nothing(feed: Feed, keep: Keep, now: u64, batch: Seq<Doc>)
    requires
        forall|i: int| 0 <= i < batch.len() ==> !keep.accepts(#[trigger] batch[i]),
    ensures
        pick(feed, keep, now, batch) == (feed, None::<(Doc, Seq<Doc>)>),
    decreases batch.len(),
{
    if batch.len() > 0 {
        assert(!keep.accepts(batch[0]));
        assert forall|i: int| 0 <= i < batch.drop_first().len() implies !keep.accepts(
            #[trigger] batch.drop_first()[i],
        ) by {
            assert(batch.drop_first()[i] == batch[i + 1]);
        }
        filtered_events_cost_nothing(feed, keep, now, batch.drop_first());
    }
}

/// What is written is an event that the filter keeps, or the marker of a hole;
/// the marker comes right after the subscription that closes the hole, once, and
/// never where nothing was lost.
pub proof fn only_kept_events_and_markers_are_written(s: State, now: u64, stop: bool, r: Report)
    ensures
        s.step(now, stop, r).1 matches Order::Write(d) ==> {
            ||| s.stage is Subscribing && s.gap is Some && s.step(now, stop, r).0.gap is None && d
                == marker(stretch(s.offline_since, now), s.gap->0)
            ||| s.step(now, stop, r).0.stage is Writing && s.keep.accepts(d)
        },
        s.stage is Subscribing && r is Done && s.gap is None ==> s.step(now, stop, r).1 !is Write,
{
    if let Report::Events(batch) = r {
        lemma_picked_is_kept(s.feed, s.keep, now, batch);
    }
    if let Stage::Writing { rest, .. } = s.stage {
        lemma_picked_is_kept(s.feed.event(now), s.keep, now, rest);
    }
}

proof fn lemma_picked_is_kept(feed: Feed, keep: Keep, now: u64, batch: Seq<Doc>)
    ensures
        pick(feed, keep, now, batch).1 matches Some(found) ==> keep.accepts(found.0),
    decreases batch.len(),
{
    if batch.len() > 0 {
        if !keep.accepts(batch[0]) {
            lemma_picked_is_kept(feed, keep, now, batch.drop_first());
        } else {
            lemma_picked_is_kept(
                feed.duplicate(now, batch[0]).0,
                keep,
                now,
                batch.drop_first(),
            );
        }
    }
}

/// A hole is dated from the drop that opened it, however many attempts it takes
/// to close it; its marker names the attempt that closed it.
pub proof fn a_hole_keeps_its_beginning(s: State, now: u64, stop: bool, f: Fault)
    requires
        s.stage is Opening || s.stage is Subscribing,
        s.gap is Some,
        s.step(now, stop, Report::Failed(f)).1 is Pause,
    ensures
        s.step(now, stop, Report::Failed(f)).0.offline_since == s.offline_since,
        s.step(now, stop, Report::Failed(f)).0.gap == Some(
            s.step(now, stop, Report::Failed(f)).0.attempt,
        ),
{
}

/// A rotation opens no hole: until it is over, successful or not, no gap is
/// recorded and nothing but events is written.
pub proof fn a_rotation_opens_no_hole(s: State, now: u64, stop: bool, r: Report)
    requires
        s.stage is Renewing || s.stage is Resubscribing || s.stage is Draining
            || s.stage is Swapping,
        r is Done || r is Failed || r is Events,
        s.stage is Swapping ==> r is Done,
        s.stage is Draining ==> r !is Done,
        s.stage is Renewing || s.stage is Resubscribing ==> r !is Events,
    ensures
        s.step(now, stop, r).0.gap == s.gap,
        s.step(now, stop, r).0.offline_since == s.offline_since,
        s.step(now, stop, r).1 !is Finish && s.step(now, stop, r).1 !is Fail,
{
}

/// A watch is as long as was asked for, counted from its beginning, ends after the
/// idle time that was asked for, and replaces its session as often as was asked for.
pub proof fn a_watch_is_as_long_as_asked(
    keep: Keep,
    duration: Option<u64>,
    idle_timeout: Option<u64>,
    session_rotate: u64,
    max_events: Option<u64>,
    now: u64,
)
    ensures
        ({
            let s = asked(keep, duration, idle_timeout, session_rotate, max_events, now);
            &&& s.keep == keep
            &&& s.stage is Opening
            &&& s.feed.max_events == max_events && s.feed.emitted == 0
            &&& s.feed.last_event == now && s.started == now && s.offline_since == now
            &&& s.gap is None && s.attempt == 0 && !s.established && s.rotate_at is None
            &&& duration is None <==> s.deadline is None
            &&& duration matches Some(secs) ==> (now + secs * 1000 <= u64::MAX ==> s.deadline
                == Some((now + secs * 1000) as u64))
            &&& idle_timeout is None <==> s.idle is None
            &&& idle_timeout matches Some(secs) ==> (secs * 1000 <= u64::MAX ==> s.idle == Some(
                (secs * 1000) as u64,
            ))
            &&& session_rotate == 0 <==> s.rotate is None
            &&& session_rotate > 0 && session_rotate * 1000 <= u64::MAX ==> s.rotate == Some(
                (session_rotate * 1000) as u64,
            )
        }),
{
}

/// Whether a watch is to stop: its caller says so, its time is up, or nothing has come
/// for as long as it waits.
pub open spec fn due_to_stop(s: State, now: u64, stop: bool) -> bool {
    ||| stop
    ||| s.deadline matches Some(d) && now >= d
    ||| s.idle matches Some(i) && now >= s.feed.last_event && now - s.feed.last_event >= i
}

/// A watch polls for as long as it goes on: it disconnects once it is due to stop, and
/// renews its session once that is due.
pub proof fn a_watch_polls_until_it_is_due(s: State, now: u64, stop: bool)
    ensures
        s.pump(now, stop).1 is Disconnect <==> due_to_stop(s, now, stop),
        s.pump(now, stop).1 is Disconnect ==> s.pump(now, stop).0.stage == Stage::Closing(None),
        s.pump(now, stop).1 is ConnectFresh <==> !due_to_stop(s, now, stop) && (
        s.rotate_at matches Some(d) && now >= d),
        s.pump(now, stop).1 is ConnectFresh ==> s.pump(now, stop).0.stage == (Stage::Renewing {
            minted: now,
        }),
        !due_to_stop(s, now, stop) && (s.rotate_at matches Some(d) ==> now < d) ==> s.pump(
            now,
            stop,
        ).1 == (Order::Poll { wait_ms: 500 }) && s.pump(now, stop).0.stage is Polling,
        s.pump(now, stop).0.feed == s.feed,
{
}

/// A session is connected, then subscribed, then polled; where it comes after a hole
/// the hole is announced first.
pub proof fn a_session_comes_up_step_by_step(s: State, now: u64, stop: bool)
    ensures
        s.stage is Opening ==> s.step(now, stop, Report::Done).1 is Subscribe && s.step(
            now,
            stop,
            Report::Done,
        ).0.stage is Subscribing,
        s.stage is Subscribing ==> s.step(now, stop, Report::Done).0.established && s.step(
            now,
            stop,
            Report::Done,
        ).0.gap is None,
        s.stage is Subscribing && s.gap is Some ==> s.step(now, stop, Report::Done).1 is Write
            && s.step(now, stop, Report::Done).0.stage is Announcing,
        s.stage is Subscribing && s.gap is None && s.idle is None && s.rotate is None && !stop
            && s.deadline is None ==> s.step(now, stop, Report::Done).1 is Poll,
        s.stage is Announcing && s.idle is None && s.rotate is None && !stop && s.deadline is None
            ==> s.step(now, stop, Report::Done).1 is Poll,
        s.stage is Subscribing && s.gap is None ==> (s.rotate matches Some(d) ==> (now + d
            <= u64::MAX ==> s.step(now, stop, Report::Done).0.rotate_at == Some(
            (now + d) as u64,
        ))),
        s.stage is Pausing ==> s.step(now, stop, Report::Done).1 is Connect && s.step(
            now,
            stop,
            Report::Done,
        ).0.started == now,
{
}

/// A failure of the session, of a notice or of an event that is written is what the
/// session ends with.
pub proof fn a_session_ends_with_its_failure(s: State, now: u64, stop: bool, f: Fault)
    ensures
        s.stage is Polling || s.stage is Announcing ==> s.step(now, stop, Report::Failed(f)).1
            is Disconnect && s.step(now, stop, Report::Failed(f)).0.stage == Stage::Closing(
            Some(f),
        ),
        s.stage matches Stage::Writing { drain, .. } ==> (drain is None ==> s.step(
            now,
            stop,
            Report::Failed(f),
        ).0.stage == Stage::Closing(Some(f))) && (drain is Some ==> s.step(
            now,
            stop,
            Report::Failed(f),
        ).1 is DisconnectFresh && s.step(now, stop, Report::Failed(f)).0.step(
            now,
            stop,
            Report::Done,
        ).0.stage == Stage::Closing(Some(f))),
{
}

/// What a watch ends in: it is finished where it was asked to stop, and fails with the
/// failure of its last session, where it does not try again.
pub proof fn a_watch_ends_in_its_last_failure(
    s: State,
    now: u64,
    stop: bool,
    failure: Option<Fault>,
)
    requires
        s.stage == Stage::Closing(failure),
    ensures
        ({
            let (t, order) = s.step(now, stop, Report::Done);
            &&& order is Finish || order is Fail || order is Pause
            &&& order matches Order::Fail(f) ==> failure == Some(f) && t.stage is Over
            &&& order is Finish ==> t.stage is Over
            &&& order matches Order::Pause { attempt, .. } ==> t.stage is Pausing && t.gap == Some(
                attempt,
            ) && t.attempt == attempt && (s.gap is None ==> t.offline_since == now)
        }),
{
}

/// A fresh session takes over only once it is connected and subscribed and the old one
/// is drained; where it fails the old one goes on and it is tried again later.
pub proof fn a_fresh_session_takes_over_in_turn(
    s: State,
    now: u64,
    stop: bool,
    minted: u64,
    f: Fault,
)
    ensures
        s.stage == (Stage::Renewing { minted }) ==> s.step(now, stop, Report::Done).1
            is SubscribeFresh && s.step(now, stop, Report::Done).0.stage == (
        Stage::Resubscribing { minted }),
        s.stage is Renewing || s.stage is Resubscribing ==> s.step(
            now,
            stop,
            Report::Failed(f),
        ).0.rotate_at == Some(
            (if now + 10_000 > u64::MAX {
                u64::MAX as int
            } else {
                now + 10_000
            }) as u64,
        ) && !(s.step(now, stop, Report::Failed(f)).1 is Swap) && !(s.step(
            now,
            stop,
            Report::Failed(f),
        ).1 is Fail),
        s.stage == (Stage::Resubscribing { minted }) && !stop && s.deadline is None ==> {
            let (t, order) = s.step(now, stop, Report::Done);
            order is Poll && t.stage == Stage::Draining(Drain { minted, left: 49, quiet: 0 })
                && t.feed.seam_until is Some && t.feed.recent.len() == 0
        },
        s.stage == (Stage::Swapping { minted, done: false }) && s.idle is None && s.rotate is None
            && !stop && s.deadline is None ==> s.step(now, stop, Report::Done).1 is Poll,
        s.stage == (Stage::Swapping { minted, done: true }) ==> s.step(
            now,
            stop,
            Report::Done,
        ).0.stage == Stage::Closing(None),
        s.stage == (Stage::Swapping { minted, done: false }) ==> (s.rotate matches Some(d) ==> (
        minted + d <= u64::MAX ==> s.step(now, stop, Report::Done).0.rotate_at == Some(
            (minted + d) as u64,
        ))),
{
}

/// A drain ends after its last poll, after enough empty polls in a row, or where the
/// old session fails; an event on the way starts the count of empty polls anew.
pub proof fn a_drain_comes_to_its_end(s: State, now: u64, stop: bool, d: Drain, f: Fault)
    requires
        s.stage == Stage::Draining(d),
    ensures
        s.step(now, stop, Report::Failed(f)).1 is Swap,
        d.quiet >= 2 ==> s.step(now, stop, Report::Events(Seq::empty())).1 is Swap,
        d.left == 0 ==> s.step(now, stop, Report::Events(Seq::empty())).1 is Swap,
        d.left > 0 && d.quiet < 2 && !stop && s.deadline is None ==> s.step(
            now,
            stop,
            Report::Events(Seq::empty()),
        ) == (
            State {
                stage: Stage::Draining(
                    Drain { left: (d.left - 1) as u64, quiet: (d.quiet + 1) as u64, ..d },
                ),
                ..s
            },
            Order::Poll { wait_ms: 100 },
        ),
        s.step(now, stop, Report::Failed(f)).0.stage == (Stage::Swapping {
            minted: d.minted,
            done: false,
        }),
{
}

/// Once as many events are out as were asked for the watch comes to its end, and not
/// before.
pub proof fn enough_events_end_the_watch(s: State, now: u64, stop: bool, m: u64, rest: Seq<Doc>)
    requires
        s.stage == (Stage::Writing { rest, drain: None }),
        s.feed.max_events == Some(m),
        s.feed.emitted < u64::MAX,
    ensures
        s.feed.emitted + 1 >= m ==> s.step(now, stop, Report::Done).0.stage == Stage::Closing(None),
        s.feed.emitted + 1 < m && !stop && s.deadline is None && s.idle is None && s.rotate_at
            is None ==> s.step(now, stop, Report::Done).1 is Write || s.step(
            now,
            stop,
            Report::Done,
        ).1 is Poll,
{
    lemma_pick(s.feed.event(now), s.keep, now, rest);
}

/// A stretch of the clock is its difference, and none where the clock went back.
pub proof fn a_stretch_is_a_difference(from: u64, to: u64)
    ensures
        from <= to ==> from + stretch(from, to) == to,
        from > to ==> stretch(from, to) == 0,
{
}

} // verus!
