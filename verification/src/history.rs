//! What holds of a watch as a whole.
//!
//! A history is what happened to a watch, one report after the other. The laws here
//! speak of every history in which each report answers what the watch was waiting
//! for.

use vstd::prelude::*;

use crate::json::Doc;
use crate::supervisor::{pick, stretch, Drain, Order, Report, Stage, State};
use crate::watch::{marker, write_identity, Feed, Keep};

verus! {

/// One thing that happened: when, whether the caller had asked to stop by then, and
/// what.
pub ghost struct Happening {
    pub now: u64,
    pub stop: bool,
    pub report: Report,
}

/// Whether a report answers what a stage waits for.
pub open spec fn answers(stage: Stage, r: Report) -> bool {
    match stage {
        Stage::Polling | Stage::Draining(_) => r is Events || r is Failed,
        Stage::Swapping { .. } | Stage::Discarding(_) | Stage::Closing(_) => r is Done,
        Stage::Pausing => r is Done || r is Interrupted,
        Stage::Over => false,
        _ => r is Done || r is Failed,
    }
}

/// Where a watch stands after a history, and what it asks for. It begins with a
/// connection.
pub open spec fn after(s: State, h: Seq<Happening>) -> (State, Order)
    decreases h.len(),
{
    if h.len() == 0 {
        (s, Order::Connect)
    } else {
        let e = h.last();
        after(s, h.drop_last()).0.step(e.now, e.stop, e.report)
    }
}

/// Every report answers what the watch was waiting for.
pub open spec fn course(s: State, h: Seq<Happening>) -> bool
    decreases h.len(),
{
    h.len() > 0 ==> course(s, h.drop_last()) && answers(
        after(s, h.drop_last()).0.stage,
        h.last().report,
    )
}

/// A watch at its beginning.
pub open spec fn fresh(s: State) -> bool {
    s.stage is Opening && s.gap is None
}

/// What a stage asks for.
pub open spec fn asks(stage: Stage, o: Order) -> bool {
    match stage {
        Stage::Opening => o is Connect,
        Stage::Subscribing => o is Subscribe,
        Stage::Announcing | Stage::Writing { .. } => o is Write,
        Stage::Polling | Stage::Draining(_) => o is Poll,
        Stage::Renewing { .. } => o is ConnectFresh,
        Stage::Resubscribing { .. } => o is SubscribeFresh,
        Stage::Swapping { .. } => o is Swap,
        Stage::Discarding(_) => o is DisconnectFresh,
        Stage::Closing(_) => o is Disconnect,
        Stage::Pausing => o is Pause,
        Stage::Over => o is Finish || o is Fail,
    }
}

/// The stages from the announcement of a session to its end.
pub open spec fn listening(stage: Stage) -> bool {
    !(stage is Opening || stage is Subscribing || stage is Pausing || stage is Over)
}

/// What a stage asks for, and whether a hole can be open in it.
pub open spec fn consistent(s: State, o: Order) -> bool {
    &&& asks(s.stage, o)
    &&& listening(s.stage) ==> s.gap is None
    &&& s.stage is Pausing ==> s.gap is Some
}

proof fn lemma_pump(s: State, now: u64, stop: bool)
    requires
        s.gap is None,
    ensures
        consistent(s.pump(now, stop).0, s.pump(now, stop).1),
{
}

proof fn lemma_drain(s: State, now: u64, stop: bool, d: Drain)
    requires
        s.gap is None,
    ensures
        consistent(s.drain(now, stop, d).0, s.drain(now, stop, d).1),
{
}

proof fn lemma_deliver(
    s: State,
    now: u64,
    stop: bool,
    batch: Seq<Doc>,
    d: Option<Drain>,
)
    requires
        s.gap is None,
    ensures
        consistent(s.deliver(now, stop, batch, d).0, s.deliver(now, stop, batch, d).1),
{
    let feed = pick(s.feed, s.keep, now, batch).0;
    let t = State { feed, ..s };
    lemma_pump(t, now, stop);
    if let Some(d) = d {
        lemma_drain(t, now, stop, d);
    }
}

#[verifier::rlimit(40)]
proof fn lemma_step(s: State, now: u64, stop: bool, r: Report)
    requires
        answers(s.stage, r),
        listening(s.stage) ==> s.gap is None,
    ensures
        consistent(s.step(now, stop, r).0, s.step(now, stop, r).1),
{
    match s.stage {
        Stage::Polling => {
            if let Report::Events(batch) = r {
                lemma_deliver(s, now, stop, batch, None);
            }
        },
        Stage::Draining(d) => {
            if let Report::Events(batch) = r {
                lemma_deliver(
                    s,
                    now,
                    stop,
                    batch,
                    Some(Drain { quiet: 0, ..d }),
                );
            }
        },
        Stage::Writing { rest, drain } => {
            let t = State { feed: s.feed.event(now), ..s };
            lemma_deliver(t, now, stop, rest, drain);
        },
        _ => {},
    }
}

/// What a step does to the hole.
proof fn lemma_gap(s: State, now: u64, stop: bool, r: Report)
    requires
        answers(s.stage, r),
        listening(s.stage) ==> s.gap is None,
    ensures
        ({
            let (t, order) = s.step(now, stop, r);
            match order {
                Order::Pause { attempt, .. } => t.gap == Some(attempt) && t.offline_since == (
                if s.gap is None {
                    now
                } else {
                    s.offline_since
                }),
                Order::Write(line) => t.gap is None && (t.stage is Announcing ==> s.gap is Some
                    && line == marker(stretch(s.offline_since, now), s.gap->0)) && (
                t.stage !is Announcing ==> s.gap is None),
                _ => t.gap == s.gap && t.offline_since == s.offline_since,
            }
        }),
{
}

proof fn lemma_asks(s: State, h: Seq<Happening>)
    requires
        fresh(s),
        course(s, h),
    ensures
        consistent(after(s, h).0, after(s, h).1),
    decreases h.len(),
{
    if h.len() > 0 {
        lemma_asks(s, h.drop_last());
        let e = h.last();
        lemma_step(after(s, h.drop_last()).0, e.now, e.stop, e.report);
    }
}

/// The sessions that are subscribed after a history, by what was asked for and done:
/// the current one, and the fresh one of a rotation.
pub open spec fn subscribed(s: State, h: Seq<Happening>) -> (bool, bool)
    decreases h.len(),
{
    if h.len() == 0 {
        (false, false)
    } else {
        let (current, fresh) = subscribed(s, h.drop_last());
        if h.last().report !is Done {
            (current, fresh)
        } else {
            match after(s, h.drop_last()).1 {
                Order::Subscribe => (true, fresh),
                Order::SubscribeFresh => (current, true),
                Order::Swap => (fresh, false),
                Order::Disconnect => (false, fresh),
                Order::DisconnectFresh => (current, false),
                _ => (current, fresh),
            }
        }
    }
}

proof fn lemma_subscribed(s: State, h: Seq<Happening>)
    requires
        fresh(s),
        course(s, h),
    ensures
        subscribed(s, h) == (
            listening(after(s, h).0.stage),
            match after(s, h).0.stage {
                Stage::Draining(_) | Stage::Swapping { .. } | Stage::Discarding(_) => true,
                Stage::Writing { drain, .. } => drain is Some,
                _ => false,
            },
        ),
    decreases h.len(),
{
    if h.len() > 0 {
        lemma_subscribed(s, h.drop_last());
        lemma_asks(s, h.drop_last());
        lemma_asks(s, h);
    }
}

/// No subscription is left behind: a watch that is over, or that pauses before it
/// tries again, holds none.
pub proof fn no_subscription_is_left_behind(s: State, h: Seq<Happening>)
    requires
        fresh(s),
        course(s, h),
        after(s, h).1 is Finish || after(s, h).1 is Fail || after(s, h).1 is Pause,
    ensures
        subscribed(s, h) == (false, false),
{
    lemma_asks(s, h);
    lemma_subscribed(s, h);
}

/// A rotation leaves no moment without a subscription: while the fresh session is
/// made, while the current one is drained and until it gives way, one of the two is
/// subscribed, and the fresh one is before the current one is closed.
pub proof fn a_rotation_stays_subscribed(s: State, h: Seq<Happening>)
    requires
        fresh(s),
        course(s, h),
    ensures
        after(s, h).1 is ConnectFresh || after(s, h).1 is SubscribeFresh ==> subscribed(s, h).0,
        after(s, h).1 is Swap ==> subscribed(s, h) == (true, true),
        after(s, h).1 is DisconnectFresh ==> subscribed(s, h) == (true, true),
        after(s, h).0.stage is Draining ==> subscribed(s, h) == (true, true),
{
    lemma_asks(s, h);
    lemma_subscribed(s, h);
}

/// What a watch tells its reader, and what it lost: an event, the opening of a hole
/// with the attempt that is to close it, a further attempt, and the marker of a hole.
pub ghost enum Mark {
    Event(Doc),
    Hole { at: u64, attempt: u32 },
    Attempt(u32),
    Marker { line: Doc, at: u64 },
}

/// The events, the holes, the attempts to close them and the markers of a history, in
/// their order. Every pause announces the attempt that follows it.
pub open spec fn marks(s: State, h: Seq<Happening>) -> Seq<Mark>
    decreases h.len(),
{
    if h.len() == 0 {
        Seq::empty()
    } else {
        let prior = marks(s, h.drop_last());
        let before = after(s, h.drop_last()).0;
        let (now, order) = after(s, h);
        match order {
            Order::Pause { attempt, .. } => if before.gap is None {
                prior.push(Mark::Hole { at: h.last().now, attempt })
            } else {
                prior.push(Mark::Attempt(attempt))
            },
            Order::Write(line) => if now.stage is Announcing {
                prior.push(Mark::Marker { line, at: h.last().now })
            } else {
                prior.push(Mark::Event(line))
            },
            _ => prior,
        }
    }
}

/// The hole that is open at the end of a list of marks: when it was opened, and the
/// last attempt to close it.
pub open spec fn open_hole(m: Seq<Mark>) -> Option<(u64, u32)>
    decreases m.len(),
{
    if m.len() == 0 {
        None
    } else {
        let prior = open_hole(m.drop_last());
        match m.last() {
            Mark::Hole { at, attempt } => Some((at, attempt)),
            Mark::Attempt(attempt) => match prior {
                Some((at, _)) => Some((at, attempt)),
                None => None,
            },
            Mark::Marker { .. } => None,
            Mark::Event(_) => prior,
        }
    }
}

/// Whether marks come in turn: a hole opens where none is open, a further attempt is
/// made at one that is open, a marker closes the hole that is open and gives its
/// length and the attempt that closed it, and no event comes while one is open.
pub open spec fn in_turn(m: Seq<Mark>) -> bool
    decreases m.len(),
{
    m.len() > 0 ==> {
        let open = open_hole(m.drop_last());
        &&& in_turn(m.drop_last())
        &&& match m.last() {
            Mark::Event(_) => open is None,
            Mark::Hole { .. } => open is None,
            Mark::Attempt(_) => open is Some,
            Mark::Marker { line, at } => open matches Some((from, attempt)) && line == marker(
                stretch(from, at),
                attempt,
            ),
        }
    }
}

/// A hole is announced before the next event, once, in its full length and with the
/// attempt that closed it: the marker stands between the last event before the hole
/// and the first one after it, however many attempts it took to close the hole.
pub proof fn holes_are_announced_in_turn(s: State, h: Seq<Happening>)
    requires
        fresh(s),
        course(s, h),
    ensures
        in_turn(marks(s, h)),
        open_hole(marks(s, h)) == (match after(s, h).0.gap {
            Some(attempt) => Some((after(s, h).0.offline_since, attempt)),
            None => None,
        }),
    decreases h.len(),
{
    if h.len() > 0 {
        let prior = h.drop_last();
        holes_are_announced_in_turn(s, prior);
        lemma_asks(s, prior);
        lemma_asks(s, h);
        let before = after(s, prior).0;
        let e = h.last();
        lemma_gap(before, e.now, e.stop, e.report);
        let m = marks(s, h);
        if m.len() > 0 && m != marks(s, prior) {
            assert(m.drop_last() =~= marks(s, prior));
        }
    }
}

/// The events that were written in a history: those that went out.
pub open spec fn delivered(s: State, h: Seq<Happening>) -> Seq<Doc>
    decreases h.len(),
{
    if h.len() == 0 {
        Seq::empty()
    } else {
        let prior = delivered(s, h.drop_last());
        let (before, order) = after(s, h.drop_last());
        match order {
            Order::Write(line) => if before.stage is Writing && h.last().report is Done {
                prior.push(line)
            } else {
                prior
            },
            _ => prior,
        }
    }
}

/// The count of a watch is the number of events that went out, whatever else it
/// wrote, and it never exceeds the number that was asked for. A limit of zero is met
/// by the first event.
pub proof fn every_event_is_counted_once(s: State, h: Seq<Happening>)
    requires
        fresh(s),
        course(s, h),
        s.feed.emitted == 0,
        h.len() < u64::MAX,
    ensures
        after(s, h).0.feed.emitted == delivered(s, h).len(),
        after(s, h).0.feed.max_events == s.feed.max_events,
        s.feed.max_events matches Some(m) ==> delivered(s, h).len() <= m || delivered(s, h).len()
            == 1,
        after(s, h).0.within_budget(),
        delivered(s, h).len() <= h.len(),
    decreases h.len(),
{
    if h.len() > 0 {
        let prior = h.drop_last();
        every_event_is_counted_once(s, prior);
        lemma_asks(s, prior);
        let before = after(s, prior).0;
        let e = h.last();
        before.lemma_step_budget(e.now, e.stop, e.report);
        before.lemma_step_count(e.now, e.stop, e.report);
    }
}

/// Everything that the polls of a history brought, in the order in which it came.
pub open spec fn offered(s: State, h: Seq<Happening>) -> Seq<Doc>
    decreases h.len(),
{
    if h.len() == 0 {
        Seq::empty()
    } else {
        let prior = offered(s, h.drop_last());
        match h.last().report {
            Report::Events(batch) => prior + batch,
            _ => prior,
        }
    }
}

/// The events that a watch gave out for writing in a history, in their order. Markers
/// are none.
pub open spec fn given_out(s: State, h: Seq<Happening>) -> Seq<Doc>
    decreases h.len(),
{
    if h.len() == 0 {
        Seq::empty()
    } else {
        let prior = given_out(s, h.drop_last());
        match after(s, h).1 {
            Order::Write(line) => if after(s, h).0.stage is Writing {
                prior.push(line)
            } else {
                prior
            },
            _ => prior,
        }
    }
}

/// Every event that was given out could be written.
pub open spec fn all_written(s: State, h: Seq<Happening>) -> bool
    decreases h.len(),
{
    h.len() > 0 ==> all_written(s, h.drop_last()) && (after(
        s,
        h.drop_last(),
    ).0.stage is Writing ==> h.last().report is Done)
}

/// What came and is still to be looked at: the rest of the batch that is being
/// written.
pub open spec fn ahead(stage: Stage) -> Seq<Doc> {
    match stage {
        Stage::Writing { rest, .. } => rest,
        _ => Seq::empty(),
    }
}

/// An event tells of the same write as one that was given out.
pub open spec fn repeats(e: Doc, out: Seq<Doc>) -> bool {
    write_identity(e) is Some && exists|i: int|
        0 <= i < out.len() && write_identity(#[trigger] out[i]) == write_identity(e)
}

/// What was given out of what came: the events that are kept, all of them, in their
/// order. Only a second copy of a write may be left out, and only where the sessions
/// overlap.
pub open spec fn sifted(keep: Keep, came: Seq<Doc>, out: Seq<Doc>, overlap: bool) -> bool
    decreases came.len(),
{
    if came.len() == 0 {
        out.len() == 0
    } else {
        let e = came.last();
        ||| keep.accepts(e) && out.len() > 0 && out.last() == e && sifted(
            keep,
            came.drop_last(),
            out.drop_last(),
            overlap,
        )
        ||| (!keep.accepts(e) || (overlap && repeats(e, out))) && sifted(
            keep,
            came.drop_last(),
            out,
            overlap,
        )
    }
}

/// The writes that the stream remembers were given out.
spec fn remembers(recent: Seq<Seq<char>>, out: Seq<Doc>) -> bool {
    forall|k: int|
        0 <= k < recent.len() ==> exists|i: int|
            0 <= i < out.len() && write_identity(#[trigger] out[i]) == Some(#[trigger] recent[k])
}

proof fn lemma_remembers_push(recent: Seq<Seq<char>>, out: Seq<Doc>, e: Doc)
    requires
        remembers(recent, out),
    ensures
        remembers(recent, out.push(e)),
        write_identity(e) matches Some(key) ==> remembers(recent.push(key), out.push(e)),
{
    let more = out.push(e);
    assert forall|k: int| 0 <= k < recent.len() implies exists|i: int|
        0 <= i < more.len() && write_identity(#[trigger] more[i]) == Some(#[trigger] recent[k]) by {
        let i = choose|i: int|
            0 <= i < out.len() && write_identity(#[trigger] out[i]) == Some(recent[k]);
        assert(more[i] == out[i]);
    }
    if let Some(key) = write_identity(e) {
        let all = recent.push(key);
        assert forall|k: int| 0 <= k < all.len() implies exists|i: int|
            0 <= i < more.len() && write_identity(#[trigger] more[i]) == Some(#[trigger] all[k]) by {
            if k < recent.len() {
                assert(all[k] == recent[k]);
                let i = choose|i: int|
                    0 <= i < more.len() && write_identity(#[trigger] more[i]) == Some(recent[k]);
                assert(write_identity(more[i]) == Some(all[k]));
            } else {
                assert(more[out.len() as int] == e);
            }
        }
    }
}

/// Picking the next event goes on where the sifting stands.
proof fn lemma_pick_sifts(
    feed: Feed,
    keep: Keep,
    now: u64,
    batch: Seq<Doc>,
    came: Seq<Doc>,
    out: Seq<Doc>,
    overlap: bool,
)
    requires
        sifted(keep, came, out, overlap),
        remembers(feed.recent, out),
        !overlap ==> feed.seam_until is None,
    ensures
        ({
            let (f, found) = pick(feed, keep, now, batch);
            &&& !overlap ==> f.seam_until is None
            &&& f.max_events == feed.max_events && f.emitted == feed.emitted
            &&& match found {
                None => sifted(keep, came + batch, out, overlap) && remembers(f.recent, out),
                Some((e, rest)) => {
                    &&& rest.len() < batch.len()
                    &&& batch.skip(batch.len() - rest.len()) == rest
                    &&& sifted(
                        keep,
                        came + batch.take(batch.len() - rest.len()),
                        out.push(e),
                        overlap,
                    )
                    &&& remembers(f.recent, out.push(e))
                },
            }
        }),
    decreases batch.len(),
{
    if batch.len() == 0 {
        assert(came + batch =~= came);
    } else {
        let e = batch[0];
        let more = came.push(e);
        let tail = batch.drop_first();
        assert(more.drop_last() =~= came);
        assert(more + tail =~= came + batch);
        let (f, seen) = feed.duplicate(now, e);
        if !keep.accepts(e) || seen {
            if keep.accepts(e) {
                let key = write_identity(e)->0;
                let k = choose|k: int| 0 <= k < feed.recent.len() && feed.recent[k] == key;
                assert(feed.recent[k] == key);
                assert(repeats(e, out));
            }
            assert(sifted(keep, more, out, overlap));
            let next = if keep.accepts(e) {
                f
            } else {
                feed
            };
            lemma_pick_sifts(next, keep, now, tail, more, out, overlap);
            if let Some((_, rest)) = pick(next, keep, now, tail).1 {
                assert(batch.skip(batch.len() - rest.len()) =~= tail.skip(
                    tail.len() - rest.len(),
                ));
                assert(more + tail.take(tail.len() - rest.len()) =~= came + batch.take(
                    batch.len() - rest.len(),
                ));
            }
        } else {
            lemma_remembers_push(feed.recent, out, e);
            assert(out.push(e).drop_last() =~= out);
            assert(batch.skip(1) =~= tail);
            assert(came + batch.take(1) =~= more);
            assert(sifted(keep, more, out.push(e), overlap));
            assert(remembers(Seq::empty(), out.push(e)));
        }
    }
}

/// How far the sifting has come in a state, with what came and what was given out.
spec fn sifting(s: State, came: Seq<Doc>, out: Seq<Doc>, overlap: bool) -> bool {
    let n = ahead(s.stage).len();
    &&& n <= came.len()
    &&& came.skip(came.len() - n) == ahead(s.stage)
    &&& sifted(s.keep, came.take(came.len() - n), out, overlap)
    &&& remembers(s.feed.recent, out)
    &&& !overlap ==> {
        &&& s.feed.seam_until is None && s.rotate is None && s.rotate_at is None
        &&& s.stage !is Renewing && s.stage !is Resubscribing
    }
}

/// A batch is looked at to its first event that is kept.
proof fn lemma_sift_batch(
    s: State,
    now: u64,
    stop: bool,
    batch: Seq<Doc>,
    d: Option<Drain>,
    came: Seq<Doc>,
    out: Seq<Doc>,
    overlap: bool,
)
    requires
        sifted(s.keep, came, out, overlap),
        remembers(s.feed.recent, out),
        !overlap ==> s.feed.seam_until is None && s.rotate is None && s.rotate_at is None,
    ensures
        ({
            let (t, order) = s.deliver(now, stop, batch, d);
            &&& t.keep == s.keep
            &&& t.feed.emitted == s.feed.emitted && t.feed.max_events == s.feed.max_events
            &&& if t.stage is Writing {
                order is Write && sifting(t, came + batch, out.push(order->Write_0), overlap)
            } else {
                order !is Write && sifting(t, came + batch, out, overlap)
            }
        }),
{
    lemma_pick_sifts(s.feed, s.keep, now, batch, came, out, overlap);
    let all = came + batch;
    match pick(s.feed, s.keep, now, batch).1 {
        Some((_, rest)) => {
            assert(all.take(all.len() - rest.len()) =~= came + batch.take(
                batch.len() - rest.len(),
            ));
            assert(all.skip(all.len() - rest.len()) =~= batch.skip(batch.len() - rest.len()));
        },
        None => {
            assert(all.take(all.len() as int) =~= all);
            assert(all.skip(all.len() as int) =~= Seq::empty());
        },
    }
}

/// A step sifts what came.
#[verifier::rlimit(60)]
proof fn lemma_sift_step(
    s: State,
    now: u64,
    stop: bool,
    r: Report,
    came: Seq<Doc>,
    out: Seq<Doc>,
    overlap: bool,
)
    requires
        answers(s.stage, r),
        s.stage is Writing ==> r is Done,
        s.feed.emitted < u64::MAX,
        sifting(s, came, out, overlap),
        !s.step(now, stop, r).0.feed.satisfied(),
    ensures
        ({
            let (t, order) = s.step(now, stop, r);
            let came_now = match r {
                Report::Events(batch) => came + batch,
                _ => came,
            };
            &&& t.keep == s.keep
            &&& t.stage is Writing <==> order is Write && t.stage !is Announcing
            &&& if t.stage is Writing {
                sifting(t, came_now, out.push(order->Write_0), overlap)
            } else {
                sifting(t, came_now, out, overlap)
            }
        }),
{
    let n = ahead(s.stage).len();
    let seen = came.take(came.len() - n);
    match (s.stage, r) {
        (Stage::Polling, Report::Events(batch)) => {
            assert(seen =~= came);
            lemma_sift_batch(s, now, stop, batch, None, came, out, overlap);
        },
        (Stage::Draining(d), Report::Events(batch)) => {
            assert(seen =~= came);
            if batch.len() > 0 {
                lemma_sift_batch(
                    s,
                    now,
                    stop,
                    batch,
                    Some(Drain { quiet: 0, ..d }),
                    came,
                    out,
                    overlap,
                );
            } else {
                assert(came + batch =~= came);
            }
        },
        (Stage::Writing { rest, drain }, Report::Done) => {
            let t = State { feed: s.feed.event(now), ..s };
            assert(seen + rest =~= came);
            lemma_sift_batch(t, now, stop, rest, drain, seen, out, overlap);
        },
        _ => {
            assert(seen =~= came);
            assert(came.skip(came.len() as int) =~= Seq::empty());
            assert(remembers(Seq::empty(), out));
        },
    }
}

proof fn lemma_sifting(s: State, h: Seq<Happening>, overlap: bool)
    requires
        fresh(s),
        course(s, h),
        all_written(s, h),
        s.feed.emitted == 0 && s.feed.recent.len() == 0,
        h.len() < u64::MAX,
        !after(s, h).0.feed.satisfied(),
        !overlap ==> s.feed.seam_until is None && s.rotate is None && s.rotate_at is None,
    ensures
        sifting(after(s, h).0, offered(s, h), given_out(s, h), overlap),
        after(s, h).0.keep == s.keep,
        delivered(s, h) == (if after(s, h).0.stage is Writing {
            given_out(s, h).drop_last()
        } else {
            given_out(s, h)
        }),
        after(s, h).0.stage is Writing ==> given_out(s, h).len() > 0 && after(s, h).1
            == Order::Write(given_out(s, h).last()),
    decreases h.len(),
{
    if h.len() == 0 {
        let none = Seq::<Doc>::empty();
        assert(none.take(0) =~= none && none.skip(0) =~= none);
    } else {
        let prior = h.drop_last();
        let e = h.last();
        let before = after(s, prior).0;
        every_event_is_counted_once(s, prior);
        before.lemma_step_count(e.now, e.stop, e.report);
        assert(!before.feed.satisfied());
        lemma_sifting(s, prior, overlap);
        lemma_asks(s, prior);
        lemma_asks(s, h);
        lemma_sift_step(
            before,
            e.now,
            e.stop,
            e.report,
            offered(s, prior),
            given_out(s, prior),
            overlap,
        );
        let out = given_out(s, prior);
        if before.stage is Writing {
            assert(out.drop_last().push(out.last()) =~= out);
        }
        if after(s, h).0.stage is Writing {
            assert(out.push(after(s, h).1->Write_0).drop_last() =~= out);
        }
    }
}

/// No event is lost and none is made up: what went out of a watch that goes on is
/// what its polls brought, in the same order, without the events that the filter
/// rejects. Only the second copy of a write is left out besides. Behind what went out
/// stand at most the event that is being written and the rest of its batch.
pub proof fn every_kept_event_goes_out(s: State, h: Seq<Happening>)
    requires
        fresh(s),
        course(s, h),
        all_written(s, h),
        s.feed.emitted == 0 && s.feed.recent.len() == 0,
        h.len() < u64::MAX,
        !after(s, h).0.feed.satisfied(),
    ensures
        after(s, h).0.stage !is Writing ==> sifted(
            s.keep,
            offered(s, h),
            delivered(s, h),
            true,
        ),
        after(s, h).0.stage matches Stage::Writing { rest, .. } ==> after(
            s,
            h,
        ).1 matches Order::Write(e) && rest.len() <= offered(s, h).len() && rest == offered(
            s,
            h,
        ).skip(offered(s, h).len() - rest.len()) && sifted(
            s.keep,
            offered(s, h).take(offered(s, h).len() - rest.len()),
            delivered(s, h).push(e),
            true,
        ),
{
    lemma_sifting(s, h, true);
    let all = offered(s, h);
    let out = given_out(s, h);
    if after(s, h).0.stage is Writing {
        assert(out.drop_last().push(out.last()) =~= out);
    } else {
        assert(all.take(all.len() as int) =~= all);
    }
}

proof fn lemma_sifted_exactly(keep: Keep, came: Seq<Doc>, out: Seq<Doc>)
    requires
        sifted(keep, came, out, false),
    ensures
        out == came.filter(|e: Doc| keep.accepts(e)),
    decreases came.len(),
{
    reveal(Seq::filter);
    if came.len() > 0 {
        if keep.accepts(came.last()) {
            lemma_sifted_exactly(keep, came.drop_last(), out.drop_last());
            assert(out =~= out.drop_last().push(out.last()));
        } else {
            lemma_sifted_exactly(keep, came.drop_last(), out);
        }
    } else {
        assert(out =~= Seq::empty());
    }
}

/// A watch whose session is never replaced gives out exactly the events that its
/// polls brought and its filter keeps, each as often as it came, once nothing is left
/// to write.
pub proof fn a_watch_gives_out_what_its_filter_keeps(s: State, h: Seq<Happening>)
    requires
        fresh(s),
        course(s, h),
        all_written(s, h),
        s.feed.emitted == 0 && s.feed.recent.len() == 0,
        h.len() < u64::MAX,
        !after(s, h).0.feed.satisfied(),
        s.rotate is None && s.rotate_at is None && s.feed.seam_until is None,
        after(s, h).0.stage !is Writing,
    ensures
        delivered(s, h) == offered(s, h).filter(|e: Doc| s.keep.accepts(e)),
{
    lemma_sifting(s, h, false);
    let all = offered(s, h);
    assert(all.take(all.len() as int) =~= all);
    lemma_sifted_exactly(s.keep, all, delivered(s, h));
}

} // verus!
