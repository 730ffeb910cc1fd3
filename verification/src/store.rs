//! Where the configuration is kept, and who may write it.
//!
//! A directory is guarded by a file of its own that is created once and never
//! replaced. A holder may take the same lock again while it has it; only the outer
//! one locks the file.

use vstd::prelude::*;

use crate::error::{text_option, Error, Fault};
use crate::order::texts;
use crate::text::{chars_of, decimal, digits, same};

verus! {

/// The name of the file that guards a directory.
pub const LOCK_FILE: &'static str = ".sn.lock";

/// How long a writer waits for the lock, in milliseconds.
pub const LOCK_TIMEOUT_MS: u64 = 10_000;

/// The longest pause between two attempts, in milliseconds.
pub const LONGEST_PAUSE_MS: u64 = 25;

/// The directory of the configuration: the one that the environment names, unless
/// that is empty, else the one of the system.
pub open spec fn directory(from_env: Option<Seq<char>>, native: Option<Seq<char>>) -> Result<
    Seq<char>,
    Fault,
> {
    match from_env {
        Some(d) if d.len() > 0 => Ok(d),
        _ => match native {
            Some(d) => Ok(d),
            None => Err(Fault::Config("cannot resolve home directory for config"@)),
        },
    }
}

/// Picks the directory of the configuration.
pub fn config_dir(from_env: Option<String>, native: Option<String>) -> (r: Result<String, Error>)
    ensures
        match r {
            Ok(d) => directory(text_option(from_env), text_option(native)) == Ok::<Seq<char>, Fault>(d@),
            Err(e) => directory(text_option(from_env), text_option(native)) == Err::<Seq<char>, Fault>(e@),
        },
{
    if let Some(d) = from_env {
        if !d.as_str().is_empty() {
            return Ok(d);
        }
    }
    match native {
        Some(d) => Ok(d),
        None => Err(Error::Config("cannot resolve home directory for config".to_owned())),
    }
}

/// The path of a file in a directory.
pub open spec fn within(dir: Seq<char>, name: Seq<char>) -> Seq<char> {
    if dir.len() == 0 || dir.last() == '/' {
        dir + name
    } else {
        dir + "/"@ + name
    }
}

/// The path of a file in a directory.
fn file_in(dir: &str, name: &str) -> (r: String)
    ensures
        r@ == within(dir@, name@),
{
    let cs = chars_of(dir);
    if cs.len() == 0 || cs[cs.len() - 1] == '/' {
        dir.to_owned().concat(name)
    } else {
        dir.to_owned().concat("/").concat(name)
    }
}

/// The file of the profiles.
pub fn config_path(dir: &str) -> (r: String)
    ensures
        r@ == within(dir@, "config.toml"@),
{
    file_in(dir, "config.toml")
}

/// The file of the secrets.
pub fn credentials_path(dir: &str) -> (r: String)
    ensures
        r@ == within(dir@, "credentials.toml"@),
{
    file_in(dir, "credentials.toml")
}

/// The file that guards a directory.
pub fn lock_path(dir: &str) -> (r: String)
    ensures
        r@ == within(dir@, ".sn.lock"@),
{
    file_in(dir, LOCK_FILE)
}

/// The directory whose lock guards a file: the one it stands in, or the working
/// directory where its path names none.
pub fn lock_dir_of(parent: Option<String>) -> (r: String)
    ensures
        r@ == (match parent {
            Some(p) => if p@.len() > 0 {
                p@
            } else {
                "."@
            },
            None => "."@,
        }),
{
    match parent {
        Some(p) => if !p.as_str().is_empty() {
            p
        } else {
            ".".to_owned()
        },
        None => ".".to_owned(),
    }
}

/// A writer that waits for a lock.
#[derive(Debug)]
pub struct LockWait {
    /// When it gives up.
    pub deadline: u64,
    /// How long it was told it would wait.
    pub timeout_ms: u64,
    /// The pause before the next attempt.
    pub pause: u64,
}

/// What a writer does after an attempt at the lock.
#[derive(Debug)]
pub enum LockStep {
    /// It has the lock.
    Held,
    /// It tries again after so many milliseconds.
    Pause(u64),
    /// It gives up.
    Fail(Error),
}

/// What an attempt at the lock brought.
#[derive(Debug)]
pub enum Attempt {
    Locked,
    /// Another process has it.
    Blocked,
    Failed(String),
}

/// What a writer does after an attempt, as a view.
pub ghost enum LockNext {
    Held,
    Pause(u64),
    Fail(Fault),
}

impl LockStep {
    pub open spec fn view(&self) -> LockNext {
        match self {
            LockStep::Held => LockNext::Held,
            LockStep::Pause(ms) => LockNext::Pause(*ms),
            LockStep::Fail(e) => LockNext::Fail(e@),
        }
    }
}

/// The pause after another: twice as long, up to the longest.
pub open spec fn next_pause(pause: u64) -> u64 {
    if pause * 2 < LONGEST_PAUSE_MS {
        (pause * 2) as u64
    } else {
        LONGEST_PAUSE_MS
    }
}

impl LockWait {
    /// A pause is short, and never none.
    pub open spec fn sound(self) -> bool {
        1 <= self.pause <= LONGEST_PAUSE_MS
    }

    /// What follows an attempt at the lock of a file.
    pub open spec fn after(self, path: Seq<char>, attempt: Attempt, now: u64) -> LockNext {
        match attempt {
            Attempt::Locked => LockNext::Held,
            Attempt::Failed(m) => LockNext::Fail(Fault::Config("lock "@ + path + ": "@ + m@)),
            Attempt::Blocked => if now >= self.deadline {
                LockNext::Fail(
                    Fault::Config(
                        "timed out after "@ + digits((self.timeout_ms / 1000) as nat)
                            + "s waiting for the config lock at "@ + path
                            + "; another sn process is holding it"@,
                    ),
                )
            } else {
                LockNext::Pause(self.pause)
            },
        }
    }

    /// A writer that begins to wait.
    pub fn new(now: u64, timeout_ms: u64) -> (r: Self)
        ensures
            r.sound(),
            r.pause == 1,
            r.timeout_ms == timeout_ms,
            r.deadline == (if now + timeout_ms > u64::MAX {
                u64::MAX
            } else {
                (now + timeout_ms) as u64
            }),
    {
        LockWait { deadline: now.saturating_add(timeout_ms), timeout_ms, pause: 1 }
    }

    /// Takes in what an attempt brought.
    pub fn receive(&mut self, path: &str, attempt: Attempt, now: u64) -> (r: LockStep)
        requires
            old(self).sound(),
        ensures
            r@ == old(self).after(path@, attempt, now),
            final(self).sound(),
            final(self).deadline == old(self).deadline,
            final(self).timeout_ms == old(self).timeout_ms,
            final(self).pause == (if r@ is Pause {
                next_pause(old(self).pause)
            } else {
                old(self).pause
            }),
    {
        match attempt {
            Attempt::Locked => LockStep::Held,
            Attempt::Failed(m) => LockStep::Fail(
                Error::Config("lock ".to_owned().concat(path).concat(": ").concat(m.as_str())),
            ),
            Attempt::Blocked => {
                if now >= self.deadline {
                    return LockStep::Fail(
                        Error::Config(
                            "timed out after ".to_owned().concat(
                                decimal(self.timeout_ms / 1000).as_str(),
                            ).concat("s waiting for the config lock at ").concat(path).concat(
                                "; another sn process is holding it",
                            ),
                        ),
                    );
                }
                let pause = self.pause;
                self.pause = if pause * 2 < LONGEST_PAUSE_MS {
                    pause * 2
                } else {
                    LONGEST_PAUSE_MS
                };
                LockStep::Pause(pause)
            },
        }
    }
}

/// The directories whose locks a thread has, each as often as it took it.
#[derive(Debug)]
pub struct HeldLocks {
    pub dirs: Vec<String>,
}

/// The last place of a text in a list.
pub open spec fn last_place(s: Seq<Seq<char>>, t: Seq<char>) -> Option<int>
    decreases s.len(),
{
    if s.len() == 0 {
        None
    } else if s.last() == t {
        Some(s.len() - 1)
    } else {
        last_place(s.drop_last(), t)
    }
}

/// A list without the last text that is `t`.
pub open spec fn left(s: Seq<Seq<char>>, t: Seq<char>) -> Seq<Seq<char>> {
    match last_place(s, t) {
        Some(i) => s.remove(i),
        None => s,
    }
}

proof fn lemma_last_place(s: Seq<Seq<char>>, t: Seq<char>)
    ensures
        match last_place(s, t) {
            Some(i) => 0 <= i < s.len() && s[i] == t && forall|j: int|
                i < j < s.len() ==> #[trigger] s[j] != t,
            None => !s.contains(t),
        },
    decreases s.len(),
{
    if s.len() > 0 && s.last() != t {
        let rest = s.drop_last();
        lemma_last_place(rest, t);
        match last_place(rest, t) {
            Some(i) => {
                assert(s[i] == rest[i]);
                assert forall|j: int| i < j < s.len() implies #[trigger] s[j] != t by {
                    if j < rest.len() {
                        assert(rest[j] == s[j]);
                    }
                }
            },
            None => {
                if s.contains(t) {
                    let k = choose|k: int| 0 <= k < s.len() && s[k] == t;
                    assert(rest[k] == t);
                }
            },
        }
    }
}

impl HeldLocks {
    pub open spec fn view(&self) -> Seq<Seq<char>> {
        texts(self.dirs@)
    }

    /// No lock.
    pub fn new() -> (r: Self)
        ensures
            r@ == Seq::<Seq<char>>::empty(),
    {
        let r = HeldLocks { dirs: Vec::new() };
        assert(r@ =~= Seq::empty());
        r
    }

    /// Whether a directory is locked already, so that its file is not locked again.
    pub fn holds(&self, dir: &str) -> (r: bool)
        ensures
            r == self@.contains(dir@),
    {
        let mut i: usize = 0;
        while i < self.dirs.len()
            invariant
                i <= self.dirs.len(),
                forall|j: int| 0 <= j < i ==> #[trigger] self@[j] != dir@,
            decreases self.dirs.len() - i,
        {
            assert(self@[i as int] == self.dirs@[i as int]@);
            if same(self.dirs[i].as_str(), dir) {
                return true;
            }
            i = i + 1;
        }
        assert(self@.len() == self.dirs@.len());
        false
    }

    /// Takes note of a lock.
    pub fn enter(&mut self, dir: &str)
        ensures
            final(self)@ == old(self)@.push(dir@),
    {
        self.dirs.push(dir.to_owned());
        assert(self@ =~= old(self)@.push(dir@));
    }

    /// Takes note that a lock is given back.
    pub fn leave(&mut self, dir: &str)
        ensures
            final(self)@ == left(old(self)@, dir@),
    {
        let ghost all = self@;
        let mut i: usize = self.dirs.len();
        assert(all.take(i as int) =~= all);
        while i > 0
            invariant
                i <= self.dirs.len(),
                all == self@,
                *self == *old(self),
                last_place(all, dir@) == last_place(all.take(i as int), dir@),
            decreases i,
        {
            assert(all.take(i as int).last() == all[i - 1]);
            assert(all[i - 1] == self.dirs@[i - 1]@);
            assert(all.take(i as int).drop_last() =~= all.take(i - 1));
            if same(self.dirs[i - 1].as_str(), dir) {
                let gone = self.dirs.remove(i - 1);
                assert(self@ =~= all.remove(i - 1));
                return;
            }
            i = i - 1;
        }
    }
}

/// A lock within a lock of the same directory is free: leaving it again gives the
/// locks that were held before, and what was locked stays locked.
pub proof fn leaving_undoes_entering(held: Seq<Seq<char>>, dir: Seq<char>)
    ensures
        left(held.push(dir), dir) == held,
        held.contains(dir) ==> held.push(dir).contains(dir) && left(
            held.push(dir),
            dir,
        ).contains(dir),
{
    let inner = held.push(dir);
    assert(inner.last() == dir);
    assert(inner.remove(inner.len() - 1) =~= held);
    assert(inner[held.len() as int] == dir);
}

/// Giving one lock back leaves the locks of all other directories as they were.
pub proof fn leaving_keeps_the_others(held: Seq<Seq<char>>, dir: Seq<char>, other: Seq<char>)
    requires
        other != dir,
    ensures
        left(held, dir).contains(other) <==> held.contains(other),
{
    lemma_last_place(held, dir);
    match last_place(held, dir) {
        Some(i) => {
            let out = held.remove(i);
            if held.contains(other) {
                let k = choose|k: int| 0 <= k < held.len() && held[k] == other;
                assert(out[if k < i { k } else { k - 1 }] == other);
            }
            if out.contains(other) {
                let k = choose|k: int| 0 <= k < out.len() && out[k] == other;
                assert(held[if k < i { k } else { k + 1 }] == other);
            }
        },
        None => {},
    }
}

/// A writer that is past its deadline does not wait any longer, and one that is
/// not never pauses for longer than the longest pause.
pub proof fn waiting_is_bounded(w: LockWait, path: Seq<char>, now: u64)
    requires
        w.sound(),
    ensures
        now >= w.deadline ==> w.after(path, Attempt::Blocked, now) is Fail,
        now < w.deadline ==> (w.after(path, Attempt::Blocked, now) matches LockNext::Pause(
            ms,
        ) && 1 <= ms <= LONGEST_PAUSE_MS),
{
}

/// The environment names the directory, unless what it says is empty; else the system
/// does, and without either there is none.
pub proof fn the_environment_names_the_directory(
    from_env: Option<Seq<char>>,
    native: Option<Seq<char>>,
)
    ensures
        from_env matches Some(d) ==> (d.len() > 0 ==> directory(from_env, native) == Ok::<
            _,
            Fault,
        >(d)),
        from_env is None || from_env == Some(Seq::<char>::empty()) ==> (native matches Some(d)
            ==> directory(from_env, native) == Ok::<_, Fault>(d)),
        (from_env is None || from_env == Some(Seq::<char>::empty())) && native is None ==> (
        directory(from_env, native) matches Err(f) && f is Config),
{
}

/// A file lies in its directory, with one slash between them.
pub proof fn a_file_lies_in_its_directory(dir: Seq<char>, name: Seq<char>)
    ensures
        dir.is_prefix_of(within(dir, name)),
        name.is_suffix_of(within(dir, name)),
        dir.len() > 0 && dir.last() != '/' ==> within(dir, name) == dir + "/"@ + name,
        dir.len() > 0 ==> within(dir, name)[within(dir, name).len() - name.len() - 1] == '/',
{
    reveal_strlit("/");
    let w = within(dir, name);
    assert(name =~= w.skip(w.len() - name.len()));
}

/// Pauses grow up to the longest and never shrink below one another.
pub proof fn pauses_grow_to_the_longest(pause: u64)
    requires
        1 <= pause <= LONGEST_PAUSE_MS,
    ensures
        pause <= next_pause(pause) <= LONGEST_PAUSE_MS,
        pause < LONGEST_PAUSE_MS ==> pause < next_pause(pause),
        next_pause(pause) <= 2 * pause,
        2 * pause < LONGEST_PAUSE_MS ==> next_pause(pause) == 2 * pause,
        LONGEST_PAUSE_MS == 25,
{
}

/// A lock that is got is held, whatever the time; a failure other than that another
/// holds it ends the wait at once.
pub proof fn a_lock_that_is_got_is_held(w: LockWait, path: Seq<char>, m: String, now: u64)
    ensures
        w.after(path, Attempt::Locked, now) is Held,
        w.after(path, Attempt::Failed(m), now) == LockNext::Fail(
            Fault::Config("lock "@ + path + ": "@ + m@),
        ),
        !(w.after(path, Attempt::Blocked, now) is Held),
{
}

/// A wait that took too long says for how many seconds it waited, and for which lock.
pub proof fn a_long_wait_says_for_how_long(w: LockWait, path: Seq<char>, now: u64, secs: u64)
    requires
        now >= w.deadline,
        w.timeout_ms == secs * 1000,
    ensures
        w.after(path, Attempt::Blocked, now) matches LockNext::Fail(f) && f is Config && f.message()
            == "timed out after "@ + digits(secs as nat) + "s waiting for the config lock at "@
            + path + "; another sn process is holding it"@,
{
    assert(w.timeout_ms / 1000 == secs);
}

} // verus!
