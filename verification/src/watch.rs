//! Watching records change: which events are kept, what the stream counts, and
//! when a broken session is replaced. Times are milliseconds on one clock.

use vstd::prelude::*;

use crate::config::ResolvedProfile;
use crate::error::{Error, Fault};
use crate::json::{docs, lemma_docs, put, rendered, Doc, Json};
use crate::order::texts;
use crate::text::{digits, same};

verus! {

/// How long one poll waits for events.
pub const TICK_MS: u64 = 500;

/// The most reconnects in a row.
pub const MAX_RECONNECT_ATTEMPTS: u32 = 10;

/// A session of this length was healthy: its end is a new problem.
pub const HEALTHY_MS: u64 = 60_000;

/// How soon a rotation that failed is tried again.
pub const ROTATE_RETRY_MS: u64 = 10_000;

/// How long one poll of a session that is being drained waits.
pub const DRAIN_WAIT_MS: u64 = 100;

/// The most polls of a session that is being drained.
pub const DRAIN_POLLS: u64 = 50;

/// How many empty polls in a row mean that a session is drained.
pub const DRAIN_QUIET_POLLS: u64 = 3;

/// How long after a rotation begins an event may arrive a second time.
pub const SEAM_TTL_MS: u64 = 30_000;

/// The limits of a watch.
#[derive(Debug)]
pub struct WatchLimits {
    pub max_events: Option<u64>,
    pub duration: Option<u64>,
    pub idle_timeout: Option<u64>,
}

/// The write that an event reports.
#[derive(Debug, Clone, Copy, PartialEq, Eq, Structural)]
pub enum Operation {
    Insert,
    Update,
    Delete,
}

impl Operation {
    pub open spec fn text(self) -> Seq<char> {
        match self {
            Operation::Insert => "insert"@,
            Operation::Update => "update"@,
            Operation::Delete => "delete"@,
        }
    }

    /// The name of the operation in an event.
    pub fn as_str(self) -> (r: &'static str)
        ensures
            r@ == self.text(),
    {
        match self {
            Operation::Insert => "insert",
            Operation::Update => "update",
            Operation::Delete => "delete",
        }
    }
}

/// The flags of a watch.
#[derive(Debug)]
pub struct WatchArgs {
    pub table: String,
    pub query: String,
    pub operation: Vec<Operation>,
    pub on_change: Vec<String>,
    pub session_rotate: u64,
    pub no_hydrate: bool,
    pub limits: WatchLimits,
}

/// Which events are kept. An empty list keeps all.
#[derive(Debug)]
pub struct Filter {
    pub operations: Vec<Operation>,
    pub on_change: Vec<String>,
}

/// Which events are kept, as a view.
pub ghost struct Keep {
    pub operations: Seq<Operation>,
    pub on_change: Seq<Seq<char>>,
}

impl Keep {
    /// The event is one of the operations.
    pub open spec fn wants_operation(self, data: Doc) -> bool {
        let op = match data.field_text("operation"@) {
            Some(s) => s,
            None => Seq::empty(),
        };
        exists|i: int| 0 <= i < self.operations.len() && (#[trigger] self.operations[i]).text() == op
    }

    /// The event changed one of the fields.
    pub open spec fn wants_change(self, data: Doc) -> bool {
        data.field("changes"@) matches Some(Doc::Array(changed)) && exists|i: int, j: int|
            0 <= i < changed.len() && 0 <= j < self.on_change.len() && (
            #[trigger] changed[i]).text() == Some(#[trigger] self.on_change[j])
    }

    /// The event is kept: both conditions hold where they are set.
    pub open spec fn accepts(self, data: Doc) -> bool {
        &&& self.operations.len() > 0 ==> self.wants_operation(data)
        &&& self.on_change.len() > 0 ==> self.wants_change(data)
    }
}

impl Filter {
    pub open spec fn view(&self) -> Keep {
        Keep { operations: self.operations@, on_change: texts(self.on_change@) }
    }

    /// Whether one of the operations is the one that is named.
    fn lists_operation(&self, op: &str) -> (r: bool)
        ensures
            r == exists|i: int|
                0 <= i < self@.operations.len() && (#[trigger] self@.operations[i]).text() == op@,
    {
        let mut i: usize = 0;
        while i < self.operations.len()
            invariant
                i <= self.operations.len(),
                forall|j: int| 0 <= j < i ==> (#[trigger] self@.operations[j]).text() != op@,
            decreases self.operations.len() - i,
        {
            assert(self@.operations[i as int] == self.operations@[i as int]);
            if same(self.operations[i].as_str(), op) {
                return true;
            }
            i = i + 1;
        }
        false
    }

    /// Whether one of the fields is the one that is named.
    fn lists_field(&self, name: &str) -> (r: bool)
        ensures
            r == exists|j: int|
                0 <= j < self@.on_change.len() && #[trigger] self@.on_change[j] == name@,
    {
        let mut i: usize = 0;
        while i < self.on_change.len()
            invariant
                i <= self.on_change.len(),
                forall|j: int| 0 <= j < i ==> #[trigger] self@.on_change[j] != name@,
            decreases self.on_change.len() - i,
        {
            assert(self@.on_change[i as int] == self.on_change@[i as int]@);
            if same(self.on_change[i].as_str(), name) {
                return true;
            }
            i = i + 1;
        }
        false
    }

    /// Whether an event is kept.
    pub fn accepts(&self, data: &Json) -> (r: bool)
        ensures
            r == self@.accepts(data@),
    {
        if self.operations.len() > 0 {
            let op = match data.get_str("operation") {
                Some(s) => s.clone(),
                None => String::new(),
            };
            if !self.lists_operation(op.as_str()) {
                return false;
            }
        }
        if self.on_change.len() > 0 {
            let changed = match data.get("changes") {
                Some(Json::Array(items)) => items,
                _ => {
                    return false;
                },
            };
            let ghost all = docs(changed@);
            proof {
                lemma_docs(changed@);
            }
            let mut i: usize = 0;
            while i < changed.len()
                invariant
                    i <= changed.len(),
                    all == docs(changed@),
                    all.len() == changed@.len(),
                    forall|k: int| 0 <= k < changed@.len() ==> #[trigger] all[k] == changed@[k]@,
                    data@.field("changes"@) == Some(Doc::Array(all)),
                    self.on_change.len() > 0,
                    self.operations@.len() > 0 ==> self@.wants_operation(data@),
                    forall|k: int, j: int|
                        0 <= k < i && 0 <= j < self@.on_change.len() ==> (
                        #[trigger] all[k]).text() != Some(#[trigger] self@.on_change[j]),
                decreases changed.len() - i,
            {
                if let Some(name) = changed[i].as_str() {
                    if self.lists_field(name.as_str()) {
                        assert(all[i as int].text() == Some(name@));
                        return true;
                    }
                }
                i = i + 1;
            }
            return false;
        }
        true
    }
}

/// The line that marks a hole in the stream: what changed in between is lost.
pub open spec fn marker(downtime_ms: u64, attempt: u32) -> Doc {
    Doc::Object(
        Map::empty().insert("sn_watch"@, Doc::Str("reconnected"@)).insert(
            "downtime_ms"@,
            Doc::Number(digits(downtime_ms as nat)),
        ).insert("attempt"@, Doc::Number(digits(attempt as nat))),
    )
}

/// Makes the line that marks a hole. A downtime that no JSON number of this
/// width holds is cut to the largest one.
pub fn gap_marker(downtime_ms: u128, attempt: u32) -> (r: Json)
    ensures
        r@ == marker(
            if downtime_ms > u64::MAX {
                u64::MAX
            } else {
                downtime_ms as u64
            },
            attempt,
        ),
{
    let ms: u64 = if downtime_ms > u64::MAX as u128 {
        u64::MAX
    } else {
        downtime_ms as u64
    };
    let mut out: Vec<(String, Json)> = Vec::new();
    put(&mut out, "sn_watch", Json::str("reconnected"));
    put(&mut out, "downtime_ms", Json::number(ms));
    put(&mut out, "attempt", Json::number(attempt as u64));
    Json::Object(out)
}

/// The marker is not shaped like an event: it has none of the members that
/// filters and consumers look for in one, so no filter that is set keeps it.
pub proof fn marker_is_no_event(downtime_ms: u64, attempt: u32, keep: Keep)
    ensures
        marker(downtime_ms, attempt).field("operation"@) is None,
        marker(downtime_ms, attempt).field("changes"@) is None,
        marker(downtime_ms, attempt).field("record"@) is None,
        marker(downtime_ms, attempt).field("sn_watch"@) == Some(Doc::Str("reconnected"@)),
        keep.on_change.len() > 0 ==> !keep.accepts(marker(downtime_ms, attempt)),
        keep.operations.len() > 0 ==> !keep.accepts(marker(downtime_ms, attempt)),
{
    reveal_strlit("operation");
    reveal_strlit("changes");
    reveal_strlit("record");
    reveal_strlit("sn_watch");
    reveal_strlit("downtime_ms");
    reveal_strlit("attempt");
    reveal_strlit("insert");
    reveal_strlit("update");
    reveal_strlit("delete");
    assert("operation"@.len() == 9 && "changes"@.len() == 7 && "record"@.len() == 6
        && "sn_watch"@.len() == 8 && "downtime_ms"@.len() == 11 && "attempt"@.len() == 7
        && "insert"@.len() == 6 && "update"@.len() == 6 && "delete"@.len() == 6);
    assert("attempt"@[0] != "changes"@[0]);
    assert(marker(downtime_ms, attempt).field_text("operation"@) is None);
}

/// The identity of one write, where an event has one that tells it from the
/// next write to the same record.
pub open spec fn write_identity(data: Doc) -> Option<Seq<char>> {
    match data.field_text("sys_id"@) {
        None => None,
        Some(sys_id) => {
            let operation = match data.field_text("operation"@) {
                Some(s) => s,
                None => Seq::empty(),
            };
            if operation == "delete"@ {
                Some(sys_id + "|delete|"@)
            } else {
                match mod_count(data) {
                    Some(n) => Some(sys_id + "|"@ + operation + "|"@ + n),
                    None => None,
                }
            }
        },
    }
}

/// The modification count that an event reports.
pub open spec fn mod_count(data: Doc) -> Option<Seq<char>> {
    match data.field("record"@) {
        Some(record) => match record.field("sys_mod_count"@) {
            Some(pair) => match pair.field("value"@) {
                Some(Doc::Str(s)) => Some(s),
                Some(other) => Some(rendered(other)),
                None => None,
            },
            None => None,
        },
        None => None,
    }
}

/// The identity of one write.
pub fn dedup_key(data: &Json) -> (r: Option<String>)
    ensures
        crate::error::text_option(r) == write_identity(data@),
{
    let sys_id = match data.get_str("sys_id") {
        Some(s) => s,
        None => {
            return None;
        },
    };
    let operation = match data.get_str("operation") {
        Some(s) => s.clone(),
        None => String::new(),
    };
    if same(operation.as_str(), "delete") {
        return Some(sys_id.clone().concat("|delete|"));
    }
    let value = match data.get("record") {
        Some(record) => match record.get("sys_mod_count") {
            Some(pair) => pair.get("value"),
            None => None,
        },
        None => None,
    };
    let count = match value {
        Some(Json::Str(s)) => s.clone(),
        Some(other) => other.render(),
        None => {
            return None;
        },
    };
    Some(
        sys_id.clone().concat("|").concat(operation.as_str()).concat("|").concat(count.as_str()),
    )
}

/// A moment some time after another; the clock ends at its largest value.
pub open spec fn later(now: u64, ms: u64) -> u64 {
    if now + ms > u64::MAX {
        u64::MAX
    } else {
        (now + ms) as u64
    }
}

/// What a stream has emitted, and the limits that bound it. A notice of the
/// watcher itself is no event: it moves neither the count nor the idle clock.
#[derive(Debug)]
pub struct Stream {
    pub max_events: Option<u64>,
    pub emitted: u64,
    /// When the last event went out, pushed forward by all time in which none
    /// could have arrived.
    pub last_event: u64,
    /// The identities of the writes emitted since the last rotation began.
    pub recent: Vec<String>,
    /// Until when a write may arrive a second time.
    pub seam_until: Option<u64>,
}

/// A stream as a view.
pub ghost struct Feed {
    pub max_events: Option<u64>,
    pub emitted: u64,
    pub last_event: u64,
    pub recent: Seq<Seq<char>>,
    pub seam_until: Option<u64>,
}

impl Feed {
    /// A rotation begins: from now on for a while a write may arrive twice.
    pub open spec fn open_seam(self, now: u64) -> Feed {
        Feed { recent: Seq::empty(), seam_until: Some(later(now, SEAM_TTL_MS)), ..self }
    }

    /// Whether an event was emitted since the rotation began. It is recorded
    /// where it was not. Away from a rotation, and where an event has no
    /// identity, the answer is no.
    pub open spec fn duplicate(self, now: u64, data: Doc) -> (Feed, bool) {
        match self.seam_until {
            None => (self, false),
            Some(until) => if now > until {
                (Feed { recent: Seq::empty(), seam_until: None, ..self }, false)
            } else {
                match write_identity(data) {
                    None => (self, false),
                    Some(key) => if self.recent.contains(key) {
                        (self, true)
                    } else {
                        (Feed { recent: self.recent.push(key), ..self }, false)
                    },
                }
            },
        }
    }

    /// An event went out.
    pub open spec fn event(self, now: u64) -> Feed {
        Feed { emitted: (self.emitted + 1) as u64, last_event: now, ..self }
    }

    /// The stream has what was asked for.
    pub open spec fn satisfied(self) -> bool {
        self.max_events matches Some(m) && self.emitted >= m
    }

    /// Time without a subscription is forgiven: the idle clock is pushed forward
    /// by it, but not past now.
    pub open spec fn resume(self, now: u64, offline: u64) -> Feed {
        let pushed = later(self.last_event, offline);
        Feed {
            last_event: if pushed > now {
                now
            } else {
                pushed
            },
            ..self
        }
    }

    /// Nothing has arrived for as long as the limit says.
    pub open spec fn idle_expired(self, now: u64, idle: Option<u64>) -> bool {
        idle matches Some(i) && now - self.last_event >= i && now >= self.last_event
    }
}

impl Stream {
    pub open spec fn view(&self) -> Feed {
        Feed {
            max_events: self.max_events,
            emitted: self.emitted,
            last_event: self.last_event,
            recent: texts(self.recent@),
            seam_until: self.seam_until,
        }
    }

    /// A stream that has emitted nothing.
    pub fn new(max_events: Option<u64>, now: u64) -> (r: Self)
        ensures
            r@ == (Feed {
                max_events,
                emitted: 0,
                last_event: now,
                recent: Seq::empty(),
                seam_until: None,
            }),
    {
        let recent: Vec<String> = Vec::new();
        assert(texts(recent@) =~= Seq::<Seq<char>>::empty());
        Stream { max_events, emitted: 0, last_event: now, recent, seam_until: None }
    }

    /// A rotation begins.
    pub fn open_seam(&mut self, now: u64)
        ensures
            final(self)@ == old(self)@.open_seam(now),
    {
        self.recent = Vec::new();
        assert(texts(self.recent@) =~= Seq::<Seq<char>>::empty());
        self.seam_until = Some(now.saturating_add(SEAM_TTL_MS));
    }

    /// Whether an event was emitted since the rotation began.
    pub fn duplicate(&mut self, now: u64, data: &Json) -> (r: bool)
        ensures
            (final(self)@, r) == old(self)@.duplicate(now, data@),
    {
        match self.seam_until {
            None => {
                return false;
            },
            Some(until) => {
                if now > until {
                    self.recent = Vec::new();
                    assert(texts(self.recent@) =~= Seq::<Seq<char>>::empty());
                    self.seam_until = None;
                    return false;
                }
            },
        }
        let key = match dedup_key(data) {
            Some(k) => k,
            None => {
                return false;
            },
        };
        let ghost prior = texts(self.recent@);
        let mut i: usize = 0;
        while i < self.recent.len()
            invariant
                i <= self.recent.len(),
                prior == texts(self.recent@),
                *self == *old(self),
                forall|j: int| 0 <= j < i ==> #[trigger] prior[j] != key@,
                write_identity(data@) == Some(key@),
                old(self)@.seam_until matches Some(until) && now <= until,
            decreases self.recent.len() - i,
        {
            assert(prior[i as int] == self.recent@[i as int]@);
            if same(self.recent[i].as_str(), key.as_str()) {
                assert(prior.contains(key@));
                return true;
            }
            i = i + 1;
        }
        assert(!prior.contains(key@));
        self.recent.push(key);
        assert(texts(self.recent@) =~= prior.push(key@));
        false
    }

    /// An event went out. The answer is whether the stream has what was asked
    /// for.
    pub fn event(&mut self, now: u64) -> (r: bool)
        requires
            old(self)@.emitted < u64::MAX,
        ensures
            final(self)@ == old(self)@.event(now),
            r == final(self)@.satisfied(),
    {
        self.emitted = self.emitted + 1;
        self.last_event = now;
        match self.max_events {
            Some(m) => self.emitted >= m,
            None => false,
        }
    }

    /// A notice goes out. It is no event: neither the count nor the clock moves.
    pub fn meta(&mut self, line: Json) -> (r: Json)
        ensures
            *final(self) == *old(self),
            r == line,
    {
        line
    }

    /// Forgives time without a subscription.
    pub fn resume(&mut self, now: u64, offline: u64)
        ensures
            final(self)@ == old(self)@.resume(now, offline),
            final(self)@.last_event <= now,
    {
        let pushed = self.last_event.saturating_add(offline);
        self.last_event =
        if pushed > now {
            now
        } else {
            pushed
        };
    }

    /// Whether nothing has arrived for as long as the limit says.
    pub fn idle_expired(&self, now: u64, idle: Option<u64>) -> (r: bool)
        ensures
            r == self@.idle_expired(now, idle),
    {
        match idle {
            Some(i) => now >= self.last_event && now - self.last_event >= i,
            None => false,
        }
    }
}

/// Away from a rotation nothing is a duplicate and nothing is recorded.
pub proof fn dedup_is_inert_without_a_seam(f: Feed, now: u64, data: Doc)
    requires
        f.seam_until is None,
    ensures
        f.duplicate(now, data) == (f, false),
{
}

/// During a rotation the same write is emitted once: asked a second time within
/// the window, an event with an identity is a duplicate; one with another
/// identity, or with none, is not unless it was seen itself.
pub proof fn dedup_drops_exactly_the_second_copy(f: Feed, now: u64, again: u64, data: Doc, other: Doc)
    requires
        f.seam_until matches Some(until) && now <= until && again <= until,
        !f.duplicate(now, data).1,
    ensures
        write_identity(data) is Some ==> f.duplicate(now, data).0.duplicate(again, data).1,
        write_identity(data) is None ==> !f.duplicate(now, data).0.duplicate(again, data).1,
        write_identity(other) is Some && write_identity(other) != write_identity(data)
            && !f.recent.contains(write_identity(other)->0) ==> !f.duplicate(now, data).0.duplicate(
            again,
            other,
        ).1,
{
    if let Some(key) = write_identity(data) {
        assert(f.recent.push(key).last() == key);
        assert(f.recent.push(key).contains(key));
        if let Some(k) = write_identity(other) {
            if k != key && f.recent.push(key).contains(k) {
                let i = choose|i: int| 0 <= i < f.recent.push(key).len() && f.recent.push(key)[i] == k;
                assert(f.recent[i] == k);
            }
        }
    }
}

/// Forgiving time never makes a quiet stream look busier than it was: the idle
/// clock does not pass now, and silence before the outage still counts.
pub proof fn outages_are_forgiven_not_erased(f: Feed, now: u64, offline: u64)
    requires
        f.last_event + offline <= now,
    ensures
        f.resume(now, offline).last_event == f.last_event + offline,
        now - f.resume(now, offline).last_event == (now - f.last_event) - offline,
{
}

/// How long to wait before a reconnect, in seconds: two to the power of its
/// ordinal, at most a minute.
pub open spec fn pause(attempt: u32) -> u64 {
    if attempt >= 6 {
        60
    } else if attempt == 5 {
        32
    } else if attempt == 4 {
        16
    } else if attempt == 3 {
        8
    } else if attempt == 2 {
        4
    } else if attempt == 1 {
        2
    } else {
        1
    }
}

/// `pause` is two to the power of the ordinal, cut at sixty.
pub proof fn pause_doubles_up_to_a_minute(attempt: u32)
    ensures
        pause(attempt) == if vstd::arithmetic::power2::pow2(attempt as nat) > 60 {
            60nat
        } else {
            vstd::arithmetic::power2::pow2(attempt as nat)
        },
        pause(attempt) <= 60,
{
    vstd::arithmetic::power2::lemma2_to64();
    if attempt >= 6 {
        if attempt > 6 {
            vstd::arithmetic::power2::lemma_pow2_strictly_increases(6, attempt as nat);
        }
    }
}

/// How long to wait before a reconnect, in seconds.
pub fn backoff(attempt: u32) -> (r: u64)
    ensures
        r == pause(attempt),
{
    let mut secs: u64 = 1;
    let mut i: u32 = 0;
    while i < attempt && secs < 60
        invariant
            i <= attempt,
            secs <= 64,
            i <= 6,
            secs == 64 <==> i == 6,
            i < 6 ==> secs == pause(i),
        decreases attempt - i,
    {
        secs = secs * 2;
        i = i + 1;
    }
    if secs > 60 {
        60
    } else {
        secs
    }
}

/// Whether a failure is worth a reconnect: only a broken connection is.
pub fn is_recoverable(e: &Error) -> (r: bool)
    ensures
        r == (e@ is Transport),
{
    matches!(e, Error::Transport(_))
}

/// What the end of a session depends on.
pub struct SessionEnd<'a> {
    /// The failure, where the session did not end by itself.
    pub error: Option<&'a Error>,
    /// Whether any session so far was subscribed.
    pub established: bool,
    pub lifetime_ms: u64,
    /// The ordinal of the reconnect that opened the session; zero for the first.
    pub attempt: u32,
    /// The caller asked to stop, or the time is up.
    pub stopping: bool,
}

/// What follows the end of a session.
#[derive(Debug, Clone, Copy, PartialEq, Eq, Structural)]
pub enum Next {
    Stop,
    Fail,
    Retry { attempt: u32, wait_secs: u64 },
}

/// The reconnect policy. A failure that would repeat itself is reported; an
/// interruption during a broken connection is no failure; a session that lasted
/// starts the count anew.
pub open spec fn verdict(
    failure: Option<Fault>,
    established: bool,
    lifetime_ms: u64,
    attempt: u32,
    stopping: bool,
) -> Next {
    match failure {
        None => Next::Stop,
        Some(f) => if !established || !(f is Transport) {
            Next::Fail
        } else if stopping {
            Next::Stop
        } else {
            let n: int = if lifetime_ms >= HEALTHY_MS {
                1
            } else {
                attempt + 1
            };
            if n > MAX_RECONNECT_ATTEMPTS {
                Next::Fail
            } else {
                Next::Retry { attempt: n as u32, wait_secs: pause(n as u32) }
            }
        },
    }
}

/// Decides what follows the end of a session.
pub fn decide(end: &SessionEnd<'_>) -> (r: Next)
    ensures
        r == verdict(
            match end.error {
                Some(e) => Some(e@),
                None => None,
            },
            end.established,
            end.lifetime_ms,
            end.attempt,
            end.stopping,
        ),
{
    let e = match end.error {
        Some(e) => e,
        None => {
            return Next::Stop;
        },
    };
    if !end.established || !is_recoverable(e) {
        return Next::Fail;
    }
    if end.stopping {
        return Next::Stop;
    }
    let attempt: u32 = if end.lifetime_ms >= HEALTHY_MS {
        1
    } else if end.attempt >= MAX_RECONNECT_ATTEMPTS {
        return Next::Fail;
    } else {
        end.attempt + 1
    };
    Next::Retry { attempt, wait_secs: backoff(attempt) }
}

/// A reconnect is only ever tried after a connection that once worked and then
/// broke; its ordinal is at most the cap, and it waits between two seconds and a
/// minute.
pub proof fn reconnects_are_bounded(
    failure: Option<Fault>,
    established: bool,
    lifetime_ms: u64,
    attempt: u32,
    stopping: bool,
)
    ensures
        verdict(failure, established, lifetime_ms, attempt, stopping) matches Next::Retry {
            attempt: n,
            wait_secs,
        } ==> {
            &&& established && !stopping
            &&& failure matches Some(f) && f is Transport
            &&& 1 <= n <= MAX_RECONNECT_ATTEMPTS
            &&& 2 <= wait_secs <= 60
        },
        failure is None ==> verdict(failure, established, lifetime_ms, attempt, stopping) is Stop,
{
}

/// Refuses a profile with a proxy: the websocket would go around it.
pub fn ensure_transport_supported(p: &ResolvedProfile) -> (r: Result<(), Error>)
    ensures
        r is Ok <==> p.proxy is None,
        r matches Err(e) ==> e@ == Fault::Config(
            "`sn watch` does not support a proxy: the AMB websocket is opened directly, not through the HTTP client. Re-run with --no-proxy if the instance is reachable without it."@,
        ),
{
    if p.proxy.is_none() {
        return Ok(());
    }
    Err(
        Error::Config(
            "`sn watch` does not support a proxy: the AMB websocket is opened directly, not through the HTTP client. Re-run with --no-proxy if the instance is reachable without it.".to_owned(),
        ),
    )
}

/// Whether a moment has come.
pub fn past(deadline: Option<u64>, now: u64) -> (r: bool)
    ensures
        r == (deadline matches Some(d) && now >= d),
{
    match deadline {
        Some(d) => now >= d,
        None => false,
    }
}

/// An event is kept by an operation exactly where it is one of those asked for, by
/// its name in the event; where none was asked for every operation is kept.
pub proof fn an_event_is_kept_by_its_operation(keep: Keep, data: Doc, op: Seq<char>)
    requires
        keep.on_change.len() == 0,
        data.field("operation"@) == Some(Doc::Str(op)),
    ensures
        keep.operations.len() == 0 ==> keep.accepts(data),
        keep.operations.len() > 0 ==> (keep.accepts(data) <==> {
            ||| keep.operations.contains(Operation::Insert) && op == "insert"@
            ||| keep.operations.contains(Operation::Update) && op == "update"@
            ||| keep.operations.contains(Operation::Delete) && op == "delete"@
        }),
{
    if keep.operations.len() > 0 {
        if keep.accepts(data) {
            let i = choose|i: int|
                0 <= i < keep.operations.len() && (#[trigger] keep.operations[i]).text() == op;
            assert(keep.operations.contains(keep.operations[i]));
        }
        if keep.operations.contains(Operation::Insert) && op == "insert"@ {
            let i = choose|i: int|
                0 <= i < keep.operations.len() && keep.operations[i] == Operation::Insert;
            assert(keep.operations[i].text() == op);
        }
        if keep.operations.contains(Operation::Update) && op == "update"@ {
            let i = choose|i: int|
                0 <= i < keep.operations.len() && keep.operations[i] == Operation::Update;
            assert(keep.operations[i].text() == op);
        }
        if keep.operations.contains(Operation::Delete) && op == "delete"@ {
            let i = choose|i: int|
                0 <= i < keep.operations.len() && keep.operations[i] == Operation::Delete;
            assert(keep.operations[i].text() == op);
        }
    }
}

/// An event is kept by its changes exactly where it lists one of the fields asked for
/// as changed.
pub proof fn an_event_is_kept_by_its_changes(keep: Keep, data: Doc, changed: Seq<Doc>)
    requires
        keep.operations.len() == 0 && keep.on_change.len() > 0,
        data.field("changes"@) == Some(Doc::Array(changed)),
    ensures
        keep.accepts(data) <==> exists|j: int|
            0 <= j < keep.on_change.len() && changed.contains(
                Doc::Str(#[trigger] keep.on_change[j]),
            ),
{
    if keep.accepts(data) {
        let (i, j) = choose|i: int, j: int|
            0 <= i < changed.len() && 0 <= j < keep.on_change.len() && (
            #[trigger] changed[i]).text() == Some(#[trigger] keep.on_change[j]);
        assert(changed[i] == Doc::Str(keep.on_change[j]));
        assert(changed.contains(Doc::Str(keep.on_change[j])));
    }
    if exists|j: int|
        0 <= j < keep.on_change.len() && changed.contains(Doc::Str(#[trigger] keep.on_change[j])) {
        let j = choose|j: int|
            0 <= j < keep.on_change.len() && changed.contains(
                Doc::Str(#[trigger] keep.on_change[j]),
            );
        let i = choose|i: int|
            0 <= i < changed.len() && changed[i] == Doc::Str(keep.on_change[j]);
        assert(changed[i].text() == Some(keep.on_change[j]));
    }
}

/// Both conditions have to hold, and each narrows what the other keeps.
pub proof fn both_conditions_narrow(keep: Keep, data: Doc)
    ensures
        keep.accepts(data) <==> (Keep { operations: Seq::empty(), ..keep }).accepts(data) && (Keep {
            on_change: Seq::empty(),
            ..keep
        }).accepts(data),
{
}

/// Two events tell of the same write exactly where they name the same record, the
/// same operation and the same count of its changes; a record is deleted once.
pub proof fn a_write_is_told_by_record_and_count(
    a: Doc,
    b: Doc,
    id: Seq<char>,
    op: Seq<char>,
    n: Seq<char>,
    m: Seq<char>,
)
    requires
        a.field("sys_id"@) == Some(Doc::Str(id)) && b.field("sys_id"@) == Some(Doc::Str(id)),
        a.field("operation"@) == Some(Doc::Str(op)) && b.field("operation"@) == Some(Doc::Str(op)),
        a.field("record"@) is Some && a.field("record"@)->0.field("sys_mod_count"@) is Some
            && a.field("record"@)->0.field("sys_mod_count"@)->0.field("value"@) == Some(
            Doc::Str(n),
        ),
        b.field("record"@) is Some && b.field("record"@)->0.field("sys_mod_count"@) is Some
            && b.field("record"@)->0.field("sys_mod_count"@)->0.field("value"@) == Some(
            Doc::Str(m),
        ),
    ensures
        write_identity(a) is Some,
        op != "delete"@ ==> (write_identity(a) == write_identity(b) <==> n == m),
        op == "delete"@ ==> write_identity(a) == write_identity(b),
{
    if op != "delete"@ && write_identity(a) == write_identity(b) {
        let head = id + "|"@ + op + "|"@;
        assert((head + n).skip(head.len() as int) =~= n);
        assert((head + m).skip(head.len() as int) =~= m);
    }
}

/// An event that names no record, or that counts no changes and is no removal, has no
/// identity and is never taken for a copy.
pub proof fn an_event_without_identity_is_no_copy(f: Feed, now: u64, data: Doc)
    requires
        data.field("sys_id"@) is None || (data.field("record"@) is None && data.field("operation"@)
            is None),
    ensures
        write_identity(data) is None,
        !f.duplicate(now, data).1,
{
    reveal_strlit("delete");
    assert("delete"@.len() == 6);
}

/// A session that broke off is tried again, at once counted from one where it had
/// lasted and from the last attempt where it had not, until the attempts are used up;
/// a failure that is no broken connection, or a first session that never stood, is
/// not tried again.
pub proof fn a_broken_session_is_tried_again(
    message: Seq<char>,
    lifetime_ms: u64,
    attempt: u32,
)
    ensures
        lifetime_ms >= HEALTHY_MS ==> (verdict(
            Some(Fault::Transport(message)),
            true,
            lifetime_ms,
            attempt,
            false,
        ) matches Next::Retry { attempt: n, wait_secs } && n == 1 && wait_secs == 2),
        lifetime_ms < HEALTHY_MS && attempt < MAX_RECONNECT_ATTEMPTS ==> (verdict(
            Some(Fault::Transport(message)),
            true,
            lifetime_ms,
            attempt,
            false,
        ) matches Next::Retry { attempt: n, .. } && n == attempt + 1),
        lifetime_ms < HEALTHY_MS && attempt >= MAX_RECONNECT_ATTEMPTS ==> verdict(
            Some(Fault::Transport(message)),
            true,
            lifetime_ms,
            attempt,
            false,
        ) is Fail,
        verdict(Some(Fault::Transport(message)), false, lifetime_ms, attempt, false) is Fail,
        verdict(Some(Fault::Transport(message)), true, lifetime_ms, attempt, true) is Stop,
        verdict(Some(Fault::Usage(message)), true, lifetime_ms, attempt, false) is Fail,
{
}

/// A watch is idle once nothing came for as long as its limit, and never without one.
pub proof fn idleness_is_time_without_events(f: Feed, now: u64, limit: u64)
    requires
        f.last_event <= now,
    ensures
        f.idle_expired(now, Some(limit)) <==> now >= f.last_event + limit,
        !f.idle_expired(now, None),
        f.emitted < u64::MAX ==> f.event(now).emitted == f.emitted + 1 && f.event(now).last_event
            == now,
        f.satisfied() <==> (f.max_events matches Some(m) && f.emitted >= m),
{
}

/// The marker of a hole tells that the watch is back, how long it was away and which
/// attempt brought it back.
pub proof fn a_marker_tells_of_the_hole(downtime_ms: u64, attempt: u32)
    ensures
        marker(downtime_ms, attempt).field("sn_watch"@) == Some(Doc::Str("reconnected"@)),
        marker(downtime_ms, attempt).field("downtime_ms"@) == Some(
            Doc::Number(digits(downtime_ms as nat)),
        ),
        marker(downtime_ms, attempt).field("attempt"@) == Some(Doc::Number(digits(attempt as nat))),
{
    reveal_strlit("sn_watch");
    reveal_strlit("downtime_ms");
    reveal_strlit("attempt");
    assert("sn_watch"@.len() == 8 && "downtime_ms"@.len() == 11 && "attempt"@.len() == 7);
}

} // verus!
