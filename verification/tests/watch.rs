use sn::config::{AuthMethod, ResolvedProfile};
use sn::error::{Error, NO_HTTP_STATUS};
use sn::json::{parse, Json};
use sn::supervisor::{run, Action, Plan, Signal, Watch};
use sn::watch::{
    backoff, decide, ensure_transport_supported, gap_marker, is_recoverable, Filter, Next,
    Operation, SessionEnd, Stream, WatchArgs, WatchLimits, HEALTHY_MS, MAX_RECONNECT_ATTEMPTS,
    TICK_MS,
};
use std::collections::VecDeque;

fn doc(s: &str) -> Json {
    parse(s).unwrap()
}

// Payloads as an instance sends them.
fn insert() -> Json {
    doc(
        r#"{"operation": "insert", "action": "entry",
        "changes": ["number", "state", "priority", "short_description", "urgency"]}"#,
    )
}

fn update() -> Json {
    doc(r#"{"operation": "update", "action": "change", "changes": ["state", "incident_state"]}"#)
}

fn delete() -> Json {
    doc(r#"{"operation": "delete", "action": "exit", "changes": []}"#)
}

/// An event with the fields that identify a write.
fn keyed(op: &str, sys_id: &str, mod_count: u32) -> Json {
    doc(&format!(
        r#"{{"operation": "{op}", "sys_id": "{sys_id}", "changes": ["state"],
        "record": {{"sys_mod_count": {{
            "display_value": "{mod_count}", "value": "{mod_count}"
        }}}}}}"#
    ))
}

fn filter(operations: Vec<Operation>, on_change: &[&str]) -> Filter {
    Filter {
        operations,
        on_change: on_change.iter().map(|s| s.to_string()).collect(),
    }
}

/// A stream at the beginning of the clock that the tests turn by hand.
fn buffered(max_events: Option<u64>) -> Stream {
    Stream::new(max_events, 10_000)
}

const NOW: u64 = 10_000;

#[test]
fn dedup_distinguishes_writes_by_mod_count_and_operation() {
    let mut s = buffered(None);
    s.open_seam(NOW);
    assert!(!s.duplicate(NOW, &keyed("update", "a1", 7)), "first sighting");
    assert!(s.duplicate(NOW, &keyed("update", "a1", 7)), "same write again");
    assert!(!s.duplicate(NOW, &keyed("update", "a1", 8)), "a real re-write");
    assert!(
        !s.duplicate(NOW, &keyed("delete", "a1", 8)),
        "another operation"
    );
    assert!(
        s.duplicate(NOW, &keyed("delete", "a1", 8)),
        "one delete per record"
    );
}

#[test]
fn dedup_is_inert_outside_a_rotation_seam() {
    // On the normal path nothing can arrive twice, so the dedup must not exist
    // there: a false positive would eat a real event.
    let mut s = buffered(None);
    assert!(!s.duplicate(NOW, &keyed("update", "a1", 7)));
    assert!(!s.duplicate(NOW, &keyed("update", "a1", 7)));
}

#[test]
fn a_seam_closes_by_itself() {
    let mut s = buffered(None);
    s.open_seam(NOW);
    assert!(!s.duplicate(NOW, &keyed("update", "a1", 7)));
    assert!(s.duplicate(NOW + 30_000, &keyed("update", "a1", 7)));
    assert!(!s.duplicate(NOW + 30_001, &keyed("update", "a1", 7)));
}

#[test]
fn an_event_without_a_sys_id_is_never_a_duplicate() {
    // Dropping an unidentifiable event is worse than repeating one.
    let mut s = buffered(None);
    s.open_seam(NOW);
    assert!(!s.duplicate(NOW, &update()));
    assert!(!s.duplicate(NOW, &update()));
}

#[test]
fn a_write_without_a_mod_count_is_never_a_duplicate() {
    // Tables without sys_mod_count send events that cannot tell one write from
    // the next. Two genuine writes inside one seam must both come through.
    let bare = doc(
        r#"{"operation": "update", "sys_id": "a1", "changes": ["message"], "record": {}}"#,
    );
    let mut s = buffered(None);
    s.open_seam(NOW);
    assert!(!s.duplicate(NOW, &bare));
    assert!(!s.duplicate(NOW, &bare));
}

#[test]
fn empty_filter_accepts_everything() {
    let f = filter(vec![], &[]);
    assert!(f.accepts(&insert()));
    assert!(f.accepts(&update()));
    assert!(f.accepts(&delete()));
}

#[test]
fn operation_filter_selects_one_kind() {
    let f = filter(vec![Operation::Insert], &[]);
    assert!(f.accepts(&insert()));
    assert!(!f.accepts(&update()));
    assert!(!f.accepts(&delete()));
}

#[test]
fn operation_filter_accepts_any_listed_kind() {
    let f = filter(vec![Operation::Insert, Operation::Delete], &[]);
    assert!(f.accepts(&insert()));
    assert!(f.accepts(&delete()));
    assert!(!f.accepts(&update()));
}

#[test]
fn on_change_matches_a_changed_field() {
    let f = filter(vec![], &["state"]);
    assert!(f.accepts(&update()), "state is in the changed list");
}

#[test]
fn on_change_rejects_an_untouched_field() {
    let f = filter(vec![], &["assigned_to"]);
    assert!(!f.accepts(&update()));
}

#[test]
fn on_change_matches_an_insert_that_set_the_field() {
    // Inserts report every populated field as changed, so watching a field
    // legitimately catches a new record that sets it.
    let f = filter(vec![], &["short_description"]);
    assert!(f.accepts(&insert()));
}

#[test]
fn on_change_never_matches_a_delete() {
    // A delete carries `changes: []`: nothing changed, the row left.
    let f = filter(vec![], &["state"]);
    assert!(!f.accepts(&delete()));
}

#[test]
fn operation_and_on_change_are_anded() {
    let f = filter(vec![Operation::Update], &["state"]);
    assert!(f.accepts(&update()));
    // Right field, wrong operation.
    assert!(!f.accepts(&insert()));

    let g = filter(vec![Operation::Update], &["assigned_to"]);
    // Right operation, wrong field.
    assert!(!g.accepts(&update()));
}

#[test]
fn a_payload_without_the_keys_is_rejected_by_any_filter() {
    // A malformed or foreign payload carries neither key; a filter must not
    // silently treat "field absent" as "matches".
    let bare = doc(r#"{"unrelated": 7}"#);
    assert!(!filter(vec![Operation::Update], &[]).accepts(&bare));
    assert!(!filter(vec![], &["state"]).accepts(&bare));
}

// The marker of a hole.

#[test]
fn the_marker_reports_the_downtime_and_the_attempt() {
    assert_eq!(
        gap_marker(4100, 2).render(),
        doc(r#"{"sn_watch": "reconnected", "downtime_ms": 4100, "attempt": 2}"#).render()
    );
}

#[test]
fn an_absurd_downtime_saturates_rather_than_panicking() {
    let m = gap_marker(u128::from(u64::MAX) * 1000, 1);
    assert_eq!(
        m.get("downtime_ms").unwrap().render(),
        format!("{}", u64::MAX)
    );
}

#[test]
fn the_marker_is_not_shaped_like_an_event() {
    // Its whole job is to survive filtering.
    let m = gap_marker(1000, 1);
    assert!(m.get("operation").is_none(), "{}", m.render());
    assert!(m.get("changes").is_none(), "{}", m.render());
    assert!(m.get("record").is_none(), "{}", m.render());
    assert_eq!(m.get_str("sn_watch").unwrap(), "reconnected");
}

// A notice is not an event.

#[test]
fn a_meta_line_does_not_count_against_max_events() {
    let mut s = buffered(Some(2));
    s.meta(gap_marker(4000, 1));
    s.meta(gap_marker(4000, 2));
    s.meta(gap_marker(4000, 3));
    assert!(
        !s.event(NOW),
        "three markers must not have consumed a budget of two events"
    );
    assert!(s.event(NOW), "the second event satisfies it");
}

#[test]
fn a_meta_line_does_not_reset_the_idle_clock() {
    const STALE: Option<u64> = Some(250);
    const FRESH: Option<u64> = Some(3_600_000);
    let mut s = buffered(None);
    s.last_event -= 500;
    assert!(s.idle_expired(NOW, STALE), "nothing has arrived");

    let line = s.meta(gap_marker(4000, 1));
    assert_eq!(line.render(), gap_marker(4000, 1).render());
    assert!(
        s.idle_expired(NOW, STALE),
        "a reconnect notice is not an arrival: --idle-timeout must still fire"
    );

    s.event(NOW);
    assert!(!s.idle_expired(NOW, FRESH), "a real event does reset it");
}

#[test]
fn an_outage_is_forgiven_rather_than_counted_as_idle() {
    // Time with no channel open is time nothing *could* have arrived on, so it
    // is not idleness.
    let idle = Some(1000);
    let mut s = buffered(None);
    s.last_event -= 3000;
    assert!(s.idle_expired(NOW, idle), "3s with nothing delivered");

    s.resume(NOW, 3000);
    assert!(
        !s.idle_expired(NOW, idle),
        "but all of it was spent off the socket"
    );
}

#[test]
fn forgiving_more_than_elapsed_parks_the_clock_at_now_not_in_the_future() {
    // A clock in the future would make --idle-timeout never fire again.
    let mut s = buffered(None);
    s.resume(NOW, 3_600_000);
    assert!(s.idle_expired(NOW + 30, Some(5)));
}

#[test]
fn max_events_is_satisfied_by_the_nth_event_and_never_without_one() {
    let mut s = buffered(Some(1));
    assert!(s.event(NOW));

    let mut unbounded = buffered(None);
    for _ in 0..50 {
        assert!(!unbounded.event(NOW));
    }
}

#[test]
fn every_value_is_one_flushed_jsonl_line() {
    let values = [insert(), gap_marker(4100, 2), update()];
    let mut text = String::new();
    for v in &values {
        text.push_str(&sn::output::write_jsonl_line(v));
    }
    let out: Vec<Json> = text.lines().map(doc).collect();
    assert_eq!(out.len(), 3, "one line per value: {out:?}");
    assert_eq!(out[0].get_str("operation").unwrap(), "insert");
    assert_eq!(out[1].get_str("sn_watch").unwrap(), "reconnected");
    assert_eq!(out[2].get_str("operation").unwrap(), "update");
}

// The reconnect policy.

fn ended(error: Option<&Error>) -> SessionEnd<'_> {
    SessionEnd {
        error,
        established: true,
        lifetime_ms: 1000,
        attempt: 0,
        stopping: false,
    }
}

fn dropped() -> Error {
    Error::Transport("amb websocket closed".into())
}

#[test]
fn a_clean_session_stops() {
    assert_eq!(decide(&ended(None)), Next::Stop);
}

#[test]
fn a_connection_that_never_established_fails_instead_of_retrying() {
    // Ten backoff rounds is ~6 minutes of postponing the same error.
    let e = dropped();
    let end = SessionEnd {
        established: false,
        ..ended(Some(&e))
    };
    assert_eq!(decide(&end), Next::Fail);
}

#[test]
fn an_unrecoverable_error_fails_even_after_establishing() {
    let e = Error::Auth {
        status: 401,
        message: "nope".into(),
        transaction_id: None,
    };
    assert_eq!(decide(&ended(Some(&e))), Next::Fail);
}

#[test]
fn ctrl_c_racing_the_teardown_is_not_a_failure() {
    let e = dropped();
    let end = SessionEnd {
        stopping: true,
        ..ended(Some(&e))
    };
    assert_eq!(decide(&end), Next::Stop);
}

#[test]
fn consecutive_short_sessions_escalate_the_backoff() {
    let e = dropped();
    for (attempt, wait_secs) in [(0u32, 2u64), (1, 4), (2, 8)] {
        assert_eq!(
            decide(&SessionEnd {
                lifetime_ms: 1000,
                attempt,
                ..ended(Some(&e))
            }),
            Next::Retry {
                attempt: attempt + 1,
                wait_secs
            }
        );
    }
}

#[test]
fn a_healthy_session_restarts_the_backoff_and_the_budget() {
    // A watcher running for days must not be capped at ten lifetime reconnects,
    // so a session that stayed up resets the counter, even one that had already
    // exhausted it.
    let e = dropped();
    assert_eq!(
        decide(&SessionEnd {
            lifetime_ms: HEALTHY_MS,
            attempt: MAX_RECONNECT_ATTEMPTS,
            ..ended(Some(&e))
        }),
        Next::Retry {
            attempt: 1,
            wait_secs: 2
        }
    );
}

#[test]
fn a_reconnect_storm_gives_up_after_the_cap() {
    let e = dropped();
    assert_eq!(
        decide(&SessionEnd {
            lifetime_ms: 1000,
            attempt: MAX_RECONNECT_ATTEMPTS,
            ..ended(Some(&e))
        }),
        Next::Fail
    );
}

#[test]
fn backoff_doubles_then_caps_at_a_minute() {
    assert_eq!(backoff(1), 2);
    assert_eq!(backoff(2), 4);
    assert_eq!(backoff(3), 8);
    assert_eq!(backoff(10), 60);
    // Must not overflow into a multi-century sleep.
    assert_eq!(backoff(64), 60);
    assert_eq!(backoff(u32::MAX), 60);
}

#[test]
fn only_transport_errors_are_retried() {
    assert!(is_recoverable(&Error::Transport("socket died".into())));
    // A rejected session will be rejected identically on every retry.
    assert!(!is_recoverable(&Error::Auth {
        status: 401,
        message: "nope".into(),
        transaction_id: None,
    }));
    // So will a table that does not exist.
    assert!(!is_recoverable(&Error::Api {
        status: NO_HTTP_STATUS,
        message: "bad table".into(),
        detail: None,
        transaction_id: None,
        sn_error: None,
    }));
    assert!(!is_recoverable(&Error::Config("bad profile".into())));
}

// A watch over a scripted link.

/// One poll worth of scripted behavior.
enum Step {
    /// Deliver these payloads.
    Deliver(Vec<Json>),
    /// Nothing arrives for this long.
    Quiet(u64),
    /// The socket dies.
    Drop,
}

/// One session's worth of scripted connect.
enum Attempt {
    /// The socket never opens.
    ConnectFails,
    /// The socket opens and subscribes, then plays these steps.
    Opens(Vec<Step>),
}

/// What was done to the links.
#[derive(Default)]
struct Log {
    subscribes: usize,
    disconnects: usize,
}

#[derive(Default)]
struct Script {
    attempts: Vec<Attempt>,
    max_events: Option<u64>,
    idle: Option<u64>,
    /// What each wait before a reconnect costs.
    pause: u64,
    /// How long the first connect takes.
    connect_delay: u64,
    rotate: Option<u64>,
    /// After how many lines the reader goes away.
    lines: Option<usize>,
}

fn connect(attempts: &mut VecDeque<Attempt>) -> Result<VecDeque<Step>, Error> {
    match attempts.pop_front() {
        Some(Attempt::Opens(steps)) => Ok(steps.into()),
        Some(Attempt::ConnectFails) => {
            Err(Error::Transport("amb websocket upgrade: refused".into()))
        }
        None => Err(Error::Transport("scripted link exhausted".into())),
    }
}

fn done(r: Result<(), Error>) -> Signal {
    match r {
        Ok(()) => Signal::Done,
        Err(e) => Signal::Failed(e),
    }
}

/// Plays a script on a clock of its own.
fn play(script: Script) -> (Result<(), Error>, Log, Vec<Json>) {
    let mut now: u64 = 100_000;
    let mut log = Log::default();
    let mut out: Vec<Json> = Vec::new();
    let mut attempts: VecDeque<Attempt> = script.attempts.into();
    let mut current: VecDeque<Step> = VecDeque::new();
    let mut fresh: VecDeque<Step> = VecDeque::new();
    let mut first = true;
    let plan = Plan {
        filter: filter(vec![], &[]),
        deadline: None,
        idle: script.idle,
        rotate: script.rotate,
    };
    let (mut watch, mut action) = Watch::new(plan, script.max_events, now);
    loop {
        let signal = match action {
            Action::Connect => {
                if first {
                    now += script.connect_delay;
                    first = false;
                }
                done(connect(&mut attempts).map(|steps| current = steps))
            }
            Action::ConnectFresh => done(connect(&mut attempts).map(|steps| fresh = steps)),
            Action::Subscribe | Action::SubscribeFresh => {
                log.subscribes += 1;
                Signal::Done
            }
            Action::Poll { .. } => match current.pop_front() {
                Some(Step::Deliver(payloads)) => Signal::Events(payloads),
                Some(Step::Quiet(ms)) => {
                    now += ms;
                    Signal::Events(vec![])
                }
                // Running out is a script that never said how the session ends.
                Some(Step::Drop) | None => Signal::Failed(dropped()),
            },
            Action::Write(v) => {
                if script.lines.is_some_and(|n| out.len() >= n) {
                    Signal::Failed(Error::BrokenPipe)
                } else {
                    out.push(v);
                    Signal::Done
                }
            }
            Action::Swap => {
                log.disconnects += 1;
                current = std::mem::take(&mut fresh);
                Signal::Done
            }
            Action::Disconnect | Action::DisconnectFresh => {
                log.disconnects += 1;
                Signal::Done
            }
            Action::Pause { .. } => {
                now += script.pause;
                Signal::Done
            }
            Action::Finish => return (Ok(()), log, out),
            Action::Fail(e) => return (Err(e), log, out),
        };
        action = watch.step(now, false, signal);
    }
}

fn operation(v: &Json) -> &str {
    v.get_str("operation").map_or("", |s| s.as_str())
}

fn is_marker(v: &Json) -> bool {
    v.get_str("sn_watch").is_some_and(|s| s == "reconnected")
}

#[test]
fn the_marker_lands_between_the_last_pre_drop_event_and_the_first_after() {
    let (result, log, out) = play(Script {
        attempts: vec![
            Attempt::Opens(vec![Step::Deliver(vec![insert()]), Step::Drop]),
            Attempt::Opens(vec![Step::Deliver(vec![update()])]),
        ],
        max_events: Some(2),
        ..Default::default()
    });
    assert!(
        result.is_ok(),
        "a survivable drop is not a failure: {result:?}"
    );
    assert_eq!(out.len(), 3, "event, marker, event: {out:?}");
    assert_eq!(operation(&out[0]), "insert");
    assert!(is_marker(&out[1]), "the hole is announced");
    assert_eq!(out[1].get("attempt").unwrap().render(), "1");
    assert_eq!(operation(&out[2]), "update");
    assert_eq!(log.subscribes, 2, "the replacement session resubscribed");
}

#[test]
fn rotation_swaps_sessions_without_a_marker() {
    // The replacement subscribes, the old session is drained and dropped, and
    // the stream carries no marker: nothing was lost.
    let (result, log, out) = play(Script {
        attempts: vec![
            Attempt::Opens(vec![Step::Deliver(vec![insert()]), Step::Quiet(30)]),
            Attempt::Opens(vec![Step::Deliver(vec![update()])]),
        ],
        max_events: Some(2),
        rotate: Some(20),
        ..Default::default()
    });
    assert!(result.is_ok(), "{result:?}");
    assert_eq!(out.len(), 2, "two events, no marker: {out:?}");
    assert_eq!(operation(&out[0]), "insert");
    assert_eq!(operation(&out[1]), "update");
    assert_eq!(log.subscribes, 2, "replacement subscribed");
    assert_eq!(
        log.disconnects, 2,
        "the old session at rotation, the new one at exit"
    );
}

#[test]
fn the_rotation_seam_emits_each_write_once() {
    // During the overlap one write can arrive on both the old session (in the
    // drain) and the replacement. Exactly one copy reaches the caller, and a
    // genuine later write still gets through.
    let (result, _, out) = play(Script {
        attempts: vec![
            Attempt::Opens(vec![
                Step::Quiet(30),
                Step::Deliver(vec![keyed("update", "a1", 7)]),
            ]),
            Attempt::Opens(vec![Step::Deliver(vec![
                keyed("update", "a1", 7),
                keyed("update", "a1", 8),
            ])]),
        ],
        max_events: Some(2),
        rotate: Some(20),
        ..Default::default()
    });
    assert!(result.is_ok(), "{result:?}");
    assert_eq!(out.len(), 2, "the seam duplicate is dropped: {out:?}");
    let count = |v: &Json| {
        v.get("record")
            .and_then(|r| r.get("sys_mod_count"))
            .and_then(|c| c.get_str("value"))
            .unwrap()
            .clone()
    };
    assert_eq!(count(&out[0]), "7");
    assert_eq!(count(&out[1]), "8");
}

#[test]
fn a_failed_rotation_keeps_the_current_session() {
    // The current session is healthy; a replacement that cannot be built is
    // retry-later, not an error and not a teardown.
    let (result, log, out) = play(Script {
        attempts: vec![
            Attempt::Opens(vec![Step::Quiet(30), Step::Deliver(vec![insert()])]),
            Attempt::ConnectFails,
        ],
        max_events: Some(1),
        rotate: Some(20),
        ..Default::default()
    });
    assert!(result.is_ok(), "{result:?}");
    assert_eq!(out.len(), 1, "the old session kept delivering: {out:?}");
    assert_eq!(operation(&out[0]), "insert");
    assert_eq!(log.disconnects, 1, "only the session that lived");
}

#[test]
fn a_clean_run_says_nothing_about_gaps() {
    // The marker is evidence of loss; on a stream that never lost anything it
    // would be a lie.
    let (result, _, out) = play(Script {
        attempts: vec![Attempt::Opens(vec![Step::Deliver(vec![insert()])])],
        max_events: Some(1),
        ..Default::default()
    });
    assert!(result.is_ok(), "{result:?}");
    assert_eq!(out.len(), 1, "{out:?}");
    assert!(out[0].get("sn_watch").is_none(), "{out:?}");
}

#[test]
fn one_marker_per_gap_however_many_attempts_it_takes_to_close() {
    // Attempts 1 and 2 die before subscribing, so they announce nothing, and the
    // downtime attempt 3 reports has to span the whole outage, not just the
    // slice after the last failure.
    let pause = 40;
    let (result, _, out) = play(Script {
        attempts: vec![
            Attempt::Opens(vec![Step::Deliver(vec![insert()]), Step::Drop]),
            Attempt::ConnectFails,
            Attempt::ConnectFails,
            Attempt::Opens(vec![Step::Deliver(vec![update()])]),
        ],
        max_events: Some(2),
        pause,
        ..Default::default()
    });
    assert!(result.is_ok(), "{result:?}");
    let markers: Vec<&Json> = out.iter().filter(|v| is_marker(v)).collect();
    assert_eq!(markers.len(), 1, "one hole, one marker: {out:?}");
    assert_eq!(
        markers[0].get("attempt").unwrap().render(),
        "3",
        "reported as closed by the try that worked"
    );
    // Three waits of `pause` separate the drop from the resubscribe.
    let reported: u64 = markers[0]
        .get("downtime_ms")
        .unwrap()
        .render()
        .parse()
        .expect("a number");
    let whole = 3 * pause;
    assert!(
        reported >= whole * 3 / 4,
        "downtime must span the outage, not its last slice: {reported}ms of ~{whole}ms"
    );
    assert_eq!(reported, whole);
}

#[test]
fn a_broken_pipe_on_the_marker_still_closes_the_subscription() {
    // The output goes away while the marker is being written. Every other
    // post-subscribe exit closes the subscription, and this one must too.
    let (result, log, _) = play(Script {
        attempts: vec![
            Attempt::Opens(vec![Step::Deliver(vec![insert()]), Step::Drop]),
            Attempt::Opens(vec![Step::Deliver(vec![update()])]),
        ],
        max_events: Some(3),
        lines: Some(1),
        ..Default::default()
    });
    assert!(
        matches!(result, Err(Error::BrokenPipe)),
        "a closed stdout is a silent exit, not a crash: {result:?}"
    );
    assert_eq!(
        log.disconnects, 2,
        "the session that could not announce its gap is still closed"
    );
}

#[test]
fn a_slow_first_connect_is_not_idleness() {
    // Nothing can arrive before there is a channel to arrive on.
    let (result, _, out) = play(Script {
        attempts: vec![Attempt::Opens(vec![Step::Deliver(vec![insert()])])],
        max_events: Some(1),
        idle: Some(250),
        connect_delay: 400,
        ..Default::default()
    });
    assert!(result.is_ok(), "{result:?}");
    assert_eq!(
        out.len(),
        1,
        "the event it was subscribed for, not an empty stream"
    );
}

#[test]
fn an_outage_does_not_make_the_marker_the_last_line() {
    let (result, _, out) = play(Script {
        attempts: vec![
            Attempt::Opens(vec![Step::Deliver(vec![insert()]), Step::Drop]),
            Attempt::Opens(vec![Step::Deliver(vec![update()])]),
        ],
        max_events: Some(2),
        idle: Some(250),
        pause: 400,
        ..Default::default()
    });
    assert!(result.is_ok(), "{result:?}");
    assert_eq!(
        out.len(),
        3,
        "a marker must not be the last thing a watcher says: {out:?}"
    );
    assert_eq!(operation(&out[2]), "update");
}

#[test]
fn silence_accumulates_across_sessions_so_flapping_cannot_hold_a_watcher_open() {
    // Forgiving an outage must be weaker than restarting the clock: one
    // session's quiet must not expire the timeout, while quiet either side of a
    // drop must.
    let (result, log, out) = play(Script {
        attempts: vec![
            Attempt::Opens(vec![Step::Quiet(400), Step::Drop]),
            Attempt::Opens(vec![Step::Quiet(400), Step::Deliver(vec![update()])]),
        ],
        idle: Some(600),
        ..Default::default()
    });
    assert!(result.is_ok(), "{result:?}");
    assert_eq!(log.subscribes, 2, "it did reconnect");
    assert_eq!(out.len(), 1, "the marker, and nothing after it: {out:?}");
    assert!(is_marker(&out[0]));
}

#[test]
fn silence_while_subscribed_still_expires_the_idle_clock() {
    let (result, _, out) = play(Script {
        attempts: vec![Attempt::Opens(vec![
            Step::Quiet(200),
            Step::Deliver(vec![update()]),
        ])],
        idle: Some(100),
        ..Default::default()
    });
    assert!(result.is_ok(), "an idle stop is a clean exit: {result:?}");
    assert!(out.is_empty(), "nothing arrived in time");
}

#[test]
fn a_watch_begins_as_its_flags_say() {
    let args = |rotate: u64, duration: Option<u64>| WatchArgs {
        table: "incident".into(),
        query: "active=true".into(),
        operation: vec![Operation::Delete],
        on_change: vec!["state".into()],
        session_rotate: rotate,
        no_hydrate: false,
        limits: WatchLimits {
            max_events: Some(3),
            duration,
            idle_timeout: Some(7),
        },
    };
    let (w, action) = run(args(45, Some(60)), 1000);
    assert!(matches!(action, Action::Connect));
    assert_eq!(w.plan.deadline, Some(61_000));
    assert_eq!(w.plan.idle, Some(7000));
    assert_eq!(w.plan.rotate, Some(45_000));
    assert_eq!(w.stream.max_events, Some(3));

    let (w, _) = run(args(0, None), 1000);
    assert_eq!(w.plan.rotate, None);
    assert_eq!(w.plan.deadline, None);
}

#[test]
fn a_subscribed_watch_polls_tick_by_tick() {
    let plan = Plan {
        filter: filter(vec![], &[]),
        deadline: Some(5000),
        idle: None,
        rotate: None,
    };
    let (mut w, _) = Watch::new(plan, None, 0);
    assert!(matches!(w.step(1, false, Signal::Done), Action::Subscribe));
    assert!(matches!(
        w.step(2, false, Signal::Done),
        Action::Poll { wait_ms: TICK_MS }
    ));
    // The time is up, and the session is closed in good order.
    assert!(matches!(
        w.step(5000, false, Signal::Events(vec![])),
        Action::Disconnect
    ));
    assert!(matches!(w.step(5000, false, Signal::Done), Action::Finish));
}

#[test]
fn a_first_connect_that_fails_is_reported() {
    let (result, log, out) = play(Script {
        attempts: vec![Attempt::ConnectFails],
        ..Default::default()
    });
    assert!(matches!(result, Err(Error::Transport(_))), "{result:?}");
    assert_eq!(log.subscribes, 0);
    assert!(out.is_empty());
}

fn profile() -> ResolvedProfile {
    ResolvedProfile {
        name: "p".into(),
        instance: "dev1.service-now.com".into(),
        username: "u".into(),
        password: "p".into(),
        proxy: None,
        no_proxy: None,
        insecure: false,
        ca_cert: None,
        proxy_ca_cert: None,
        proxy_username: None,
        proxy_password: None,
        auth_method: AuthMethod::Basic,
        oauth: None,
    }
}

#[test]
fn plain_profile_is_supported() {
    assert!(ensure_transport_supported(&profile()).is_ok());
}

#[test]
fn tls_overrides_are_carried_to_the_socket_not_refused() {
    // The websocket honors these itself, so they must not trip the check.
    let mut p = profile();
    p.insecure = true;
    p.ca_cert = Some("/etc/corp-ca.pem".into());
    assert!(ensure_transport_supported(&p).is_ok());
}

#[test]
fn a_proxy_is_refused_rather_than_silently_bypassed() {
    let mut p = profile();
    p.proxy = Some("http://proxy:8080".into());
    let err = ensure_transport_supported(&p).unwrap_err();
    let msg = err.text();
    assert!(msg.contains("proxy"), "must name the culprit: {msg}");
    assert!(msg.contains("--no-proxy"), "must offer a way out: {msg}");
    assert_eq!(err.exit_code(), 1);
}
