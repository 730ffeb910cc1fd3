//! A download to a file.
//!
//! The bytes go to a file beside the destination, which takes the destination's name
//! once it is whole. [`Staging::step`] takes what became of the last action and says
//! what to do next.

use vstd::prelude::*;

use crate::attachment::downloaded;
use crate::error::{Error, Fault};
use crate::flags::SinkFault;
use crate::json::{Doc, Json};
use crate::text::digits;
use crate::transfer::{discarded, discarded_fault, DownloadError};

verus! {

/// What a download is waiting for.
#[derive(Debug)]
pub enum Phase {
    /// The file beside the destination.
    Creating,
    /// The bytes.
    Copying,
    /// That the file is flushed; the bytes that it holds.
    Flushing(u64),
    /// That the file takes its name; the bytes that it holds.
    Renaming(u64),
    /// That the file is gone, and then the failure to report.
    Removing(Error),
    /// Nothing: the download is over.
    Over,
}

/// What became of the last action.
#[derive(Debug)]
pub enum Outcome {
    Done,
    /// The body has ended, and this many bytes went into the file.
    Copied(u64),
    /// The copy broke off.
    Broken(DownloadError),
    /// The file system refused.
    Refused(SinkFault),
}

/// What to do next.
#[derive(Debug)]
pub enum Action {
    /// Create the file beside the destination.
    Create,
    /// Copy the body into it.
    Copy,
    /// Flush it.
    Flush,
    /// Close it and give it the name of the destination.
    Rename,
    /// Close it and remove it.
    Remove,
    /// Show this: the download is complete.
    Finish(Json),
    /// Report this: there is no download.
    Fail(Error),
}

/// A download to a file: the destination, the file beside it, and how far it has
/// come.
#[derive(Debug)]
pub struct Staging {
    pub out_path: String,
    pub temp_path: String,
    pub phase: Phase,
}

/// What a download is waiting for, as a view.
pub ghost enum Stage {
    Creating,
    Copying,
    Flushing(u64),
    Renaming(u64),
    Removing(Fault),
    Over,
}

/// What to do next, as a view.
pub ghost enum Order {
    Create,
    Copy,
    Flush,
    Rename,
    Remove,
    Finish(Doc),
    Fail(Fault),
}

/// A download to a file, as a view.
pub ghost struct State {
    pub out_path: Seq<char>,
    pub temp_path: Seq<char>,
    pub stage: Stage,
}

/// Whether an outcome answers what a stage waits for.
pub open spec fn answers(stage: Stage, o: Outcome) -> bool {
    match stage {
        Stage::Copying => o is Copied || o is Broken,
        Stage::Over => false,
        _ => o is Done || o is Refused,
    }
}

/// What a complete download shows.
pub open spec fn complete(out_path: Seq<char>, n: u64) -> Doc {
    Doc::Object(
        Map::empty().insert("path"@, Doc::Str(out_path)).insert(
            "size"@,
            Doc::Number(digits(n as nat)),
        ),
    )
}

impl State {
    pub open spec fn go(self, stage: Stage, order: Order) -> (State, Order) {
        (State { stage, ..self }, order)
    }

    /// The file is removed before a failure is reported.
    pub open spec fn discard(self, f: Fault) -> (State, Order) {
        self.go(Stage::Removing(f), Order::Remove)
    }

    /// What follows an outcome. Whether the file could be removed makes no difference:
    /// the failure before it is what is reported.
    pub open spec fn step(self, o: Outcome) -> (State, Order) {
        match (self.stage, o) {
            (Stage::Creating, Outcome::Done) => self.go(Stage::Copying, Order::Copy),
            (Stage::Creating, Outcome::Refused(f)) => self.go(
                Stage::Over,
                Order::Fail(
                    Fault::Usage("create "@ + self.temp_path + ": "@ + f.message@),
                ),
            ),
            (Stage::Copying, Outcome::Copied(n)) => self.go(Stage::Flushing(n), Order::Flush),
            (Stage::Copying, Outcome::Broken(e)) => self.discard(
                discarded_fault(e, self.out_path),
            ),
            (Stage::Flushing(n), Outcome::Done) => self.go(Stage::Renaming(n), Order::Rename),
            (Stage::Flushing(_), Outcome::Refused(f)) => self.discard(
                discarded_fault(DownloadError::Sink(f), self.out_path),
            ),
            (Stage::Renaming(n), Outcome::Done) => self.go(
                Stage::Over,
                Order::Finish(complete(self.out_path, n)),
            ),
            (Stage::Renaming(_), Outcome::Refused(f)) => self.discard(
                Fault::Usage("write "@ + self.out_path + ": "@ + f.message@),
            ),
            (Stage::Removing(f), _) => self.go(Stage::Over, Order::Fail(f)),
            // Nothing else answers what a stage waits for.
            _ => self.go(Stage::Over, Order::Remove),
        }
    }
}

impl Phase {
    pub open spec fn view(&self) -> Stage {
        match self {
            Phase::Creating => Stage::Creating,
            Phase::Copying => Stage::Copying,
            Phase::Flushing(n) => Stage::Flushing(*n),
            Phase::Renaming(n) => Stage::Renaming(*n),
            Phase::Removing(e) => Stage::Removing(e@),
            Phase::Over => Stage::Over,
        }
    }
}

impl Action {
    pub open spec fn view(&self) -> Order {
        match self {
            Action::Create => Order::Create,
            Action::Copy => Order::Copy,
            Action::Flush => Order::Flush,
            Action::Rename => Order::Rename,
            Action::Remove => Order::Remove,
            Action::Finish(j) => Order::Finish(j@),
            Action::Fail(e) => Order::Fail(e@),
        }
    }
}

impl Staging {
    pub open spec fn view(&self) -> State {
        State { out_path: self.out_path@, temp_path: self.temp_path@, stage: self.phase@ }
    }

    /// A download at its beginning: the first thing to do is to create the file beside
    /// the destination.
    pub fn new(out_path: &str, temp_path: &str) -> (r: (Self, Action))
        ensures
            r.0@ == (State {
                out_path: out_path@,
                temp_path: temp_path@,
                stage: Stage::Creating,
            }),
            r.1@ == Order::Create,
    {
        (
            Staging {
                out_path: out_path.to_owned(),
                temp_path: temp_path.to_owned(),
                phase: Phase::Creating,
            },
            Action::Create,
        )
    }

    fn discard(&mut self, e: Error) -> (r: Action)
        ensures
            (final(self)@, r@) == old(self)@.discard(e@),
    {
        self.phase = Phase::Removing(e);
        Action::Remove
    }

    /// Takes in what became of the last action.
    pub fn step(&mut self, outcome: Outcome) -> (r: Action)
        requires
            answers(old(self)@.stage, outcome),
        ensures
            (final(self)@, r@) == old(self)@.step(outcome),
    {
        let mut phase = Phase::Over;
        std::mem::swap(&mut phase, &mut self.phase);
        match (phase, outcome) {
            (Phase::Creating, Outcome::Done) => {
                self.phase = Phase::Copying;
                Action::Copy
            },
            (Phase::Creating, Outcome::Refused(f)) => Action::Fail(
                Error::Usage(
                    "create ".to_owned().concat(self.temp_path.as_str()).concat(": ").concat(
                        f.message.as_str(),
                    ),
                ),
            ),
            (Phase::Copying, Outcome::Copied(n)) => {
                self.phase = Phase::Flushing(n);
                Action::Flush
            },
            (Phase::Copying, Outcome::Broken(e)) => {
                let e = discarded(e, self.out_path.as_str());
                self.discard(e)
            },
            (Phase::Flushing(n), Outcome::Done) => {
                self.phase = Phase::Renaming(n);
                Action::Rename
            },
            (Phase::Flushing(_), Outcome::Refused(f)) => {
                let e = discarded(DownloadError::Sink(f), self.out_path.as_str());
                self.discard(e)
            },
            (Phase::Renaming(n), Outcome::Done) => Action::Finish(
                downloaded(self.out_path.as_str(), n),
            ),
            (Phase::Renaming(_), Outcome::Refused(f)) => {
                let e = Error::Usage(
                    "write ".to_owned().concat(self.out_path.as_str()).concat(": ").concat(
                        f.message.as_str(),
                    ),
                );
                self.discard(e)
            },
            (Phase::Removing(e), _) => Action::Fail(e),
            _ => Action::Remove,
        }
    }
}

/// Where a download stands after a list of outcomes, and what it asks for.
pub open spec fn after(s: State, h: Seq<Outcome>) -> (State, Order)
    decreases h.len(),
{
    if h.len() == 0 {
        (s, Order::Create)
    } else {
        after(s, h.drop_last()).0.step(h.last())
    }
}

/// Every outcome answers what the download was waiting for.
pub open spec fn course(s: State, h: Seq<Outcome>) -> bool
    decreases h.len(),
{
    h.len() > 0 ==> course(s, h.drop_last()) && answers(
        after(s, h.drop_last()).0.stage,
        h.last(),
    )
}

/// What has been done to the files after a list of outcomes.
pub ghost struct Files {
    /// The file beside the destination is there.
    pub staged: bool,
    /// It holds the whole body: this many bytes.
    pub whole: Option<u64>,
    /// It has been flushed.
    pub flushed: bool,
    /// It has taken the place of the destination.
    pub replaced: bool,
}

/// What has been done to the files, by what was asked for and done.
pub open spec fn files(s: State, h: Seq<Outcome>) -> Files
    decreases h.len(),
{
    if h.len() == 0 {
        Files { staged: false, whole: None, flushed: false, replaced: false }
    } else {
        let f = files(s, h.drop_last());
        match (after(s, h.drop_last()).1, h.last()) {
            (Order::Create, Outcome::Done) => Files { staged: true, ..f },
            (Order::Copy, Outcome::Copied(n)) => Files { whole: Some(n), ..f },
            (Order::Flush, Outcome::Done) => Files { flushed: true, ..f },
            (Order::Rename, Outcome::Done) => Files { staged: false, replaced: true, ..f },
            (Order::Remove, Outcome::Done) => Files { staged: false, ..f },
            _ => f,
        }
    }
}

proof fn lemma_files(s: State, h: Seq<Outcome>)
    requires
        s.stage is Creating,
        course(s, h),
    ensures
        after(s, h).0.out_path == s.out_path,
        after(s, h).0.stage is Over ==> after(s, h).1 is Finish || after(s, h).1 is Fail,
        ({
            let f = files(s, h);
            match after(s, h).0.stage {
                Stage::Creating => after(s, h).1 is Create && !f.staged && f.whole is None
                    && !f.flushed && !f.replaced,
                Stage::Copying => after(s, h).1 is Copy && f.staged && f.whole is None && !f.flushed
                    && !f.replaced,
                Stage::Flushing(n) => after(s, h).1 is Flush && f.staged && f.whole == Some(n)
                    && !f.flushed && !f.replaced,
                Stage::Renaming(n) => after(s, h).1 is Rename && f.staged && f.whole == Some(n)
                    && f.flushed && !f.replaced,
                Stage::Removing(_) => after(s, h).1 is Remove && f.staged && !f.replaced,
                Stage::Over => match after(s, h).1 {
                    Order::Finish(d) => f.replaced && f.flushed && f.whole is Some && d
                        == complete(s.out_path, f.whole->0) && !f.staged,
                    _ => !f.replaced && (f.staged ==> h.len() > 0 && h.last() is Refused),
                },
            }
        }),
    decreases h.len(),
{
    if h.len() > 0 {
        lemma_files(s, h.drop_last());
    }
}

/// The destination never holds a part of a file: it is replaced only by a file that
/// holds the whole body and has been flushed, and what is shown is its length.
pub proof fn the_destination_is_replaced_whole(s: State, h: Seq<Outcome>)
    requires
        s.stage is Creating,
        course(s, h),
    ensures
        files(s, h).replaced ==> files(s, h).whole is Some && files(s, h).flushed,
        after(s, h).1 matches Order::Finish(d) ==> files(s, h).replaced && d == complete(
            s.out_path,
            files(s, h).whole->0,
        ),
        after(s, h).1 is Rename ==> files(s, h).whole is Some && files(s, h).flushed,
{
    lemma_files(s, h);
}

/// A download that fails leaves the destination as it was, and no file beside it
/// unless the file system refused to remove that.
pub proof fn a_failed_download_leaves_no_trace(s: State, h: Seq<Outcome>)
    requires
        s.stage is Creating,
        course(s, h),
        after(s, h).1 is Fail,
    ensures
        !files(s, h).replaced,
        files(s, h).staged ==> h.len() > 0 && h.last() is Refused,
{
    lemma_files(s, h);
}

/// A download goes through its steps in their order: the file is made, filled, flushed
/// and only then moved to its place.
pub proof fn a_download_goes_through_its_steps(s: State, n: u64)
    ensures
        (State { stage: Stage::Creating, ..s }).step(Outcome::Done).1 is Copy,
        (State { stage: Stage::Copying, ..s }).step(Outcome::Copied(n)).1 is Flush,
        (State { stage: Stage::Flushing(n), ..s }).step(Outcome::Done).1 is Rename,
        (State { stage: Stage::Renaming(n), ..s }).step(Outcome::Done).1 matches Order::Finish(d)
            && d.field("path"@) == Some(Doc::Str(s.out_path)) && d.field("size"@) == Some(
            Doc::Number(digits(n as nat)),
        ),
{
    reveal_strlit("path");
    reveal_strlit("size");
    assert("path"@.len() == 4 && "size"@.len() == 4);
    assert("path"@[0] != "size"@[0]);
}

/// Where a step fails the file is taken away first, and then the failure of that very
/// step is reported, whatever becomes of the removal.
pub proof fn a_failed_step_takes_the_file_away(
    s: State,
    n: u64,
    f: SinkFault,
    e: DownloadError,
    o: Outcome,
)
    ensures
        (State { stage: Stage::Creating, ..s }).step(Outcome::Refused(f)).1 is Fail,
        ({
            let (t, order) = (State { stage: Stage::Copying, ..s }).step(Outcome::Broken(e));
            order is Remove && t.step(o).1 == Order::Fail(discarded_fault(e, s.out_path))
        }),
        ({
            let (t, order) = (State { stage: Stage::Flushing(n), ..s }).step(Outcome::Refused(f));
            order is Remove && t.step(o).1 == Order::Fail(
                discarded_fault(DownloadError::Sink(f), s.out_path),
            )
        }),
        ({
            let (t, order) = (State { stage: Stage::Renaming(n), ..s }).step(Outcome::Refused(f));
            order is Remove && t.step(o).1 == Order::Fail(
                Fault::Usage("write "@ + s.out_path + ": "@ + f.message@),
            )
        }),
{
}

} // verus!
