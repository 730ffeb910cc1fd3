//! Downloads: a body that is copied through a buffer of fixed size.
//!
//! The loop that moves the bytes asks here after each read and each write. What a
//! sink refused is never counted as delivered.

use vstd::prelude::*;

use crate::error::{Error, Fault};
use crate::flags::{map_stdout_err, stdout_fault, SinkFault};
use crate::text::{decimal, digits};

verus! {

/// The bytes that are moved at a time.
pub const DOWNLOAD_BUFFER_BYTES: usize = 65536;

/// What a read brought.
#[derive(Debug)]
pub enum ReadOutcome {
    /// Some bytes, or none at the end of the body.
    Bytes(usize),
    /// A signal came in between.
    Interrupted,
    /// A failure.
    Failed(String),
}

/// Which side of a copy failed.
#[derive(Debug)]
pub enum DownloadError {
    /// The body stopped arriving.
    Source(Error),
    /// The destination refused the bytes.
    Sink(SinkFault),
}

/// What to do after a read.
#[derive(Debug)]
pub enum CopyStep {
    /// The body has ended, and this many bytes were delivered.
    Done(u64),
    /// Hand over this many bytes.
    Deliver(usize),
    /// Read again.
    Again,
    /// Give up.
    Fail(DownloadError),
}

/// Where a copy stands.
pub ghost enum CopyStage {
    /// It waits for a read.
    Reading,
    /// It waits for the delivery of this many bytes.
    Delivering(nat),
    /// The body has ended.
    Ended,
    /// A side has failed.
    Broken,
}

/// A copy under way: where it stands, and the bytes that count as delivered.
pub ghost struct Copying {
    pub stage: CopyStage,
    pub written: nat,
}

/// What happens to a copy: a read comes back, or a delivery of some bytes does.
pub ghost enum CopyEvent {
    Read(ReadOutcome),
    Write { n: nat, refused: bool },
}

impl CopyStep {
    /// Where a copy stands at a step.
    pub open spec fn stage(self) -> CopyStage {
        match self {
            CopyStep::Done(_) => CopyStage::Ended,
            CopyStep::Deliver(n) => CopyStage::Delivering(n as nat),
            CopyStep::Again => CopyStage::Reading,
            CopyStep::Fail(_) => CopyStage::Broken,
        }
    }
}

impl Copying {
    /// What follows an event. Bytes that were refused do not count as delivered.
    pub open spec fn step(self, e: CopyEvent) -> Copying {
        match e {
            CopyEvent::Read(ReadOutcome::Bytes(n)) => Copying {
                stage: if n == 0 {
                    CopyStage::Ended
                } else {
                    CopyStage::Delivering(n as nat)
                },
                ..self
            },
            CopyEvent::Read(ReadOutcome::Interrupted) => Copying {
                stage: CopyStage::Reading,
                ..self
            },
            CopyEvent::Read(ReadOutcome::Failed(_)) => Copying { stage: CopyStage::Broken, ..self },
            CopyEvent::Write { n, refused } => if refused {
                Copying { stage: CopyStage::Broken, ..self }
            } else {
                Copying { stage: CopyStage::Reading, written: self.written + n }
            },
        }
    }
}

/// A copy after some events, from its beginning.
pub open spec fn copied(events: Seq<CopyEvent>) -> Copying
    decreases events.len(),
{
    if events.len() == 0 {
        Copying { stage: CopyStage::Reading, written: 0 }
    } else {
        copied(events.drop_last()).step(events.last())
    }
}

/// Whether each event answers what the copy waited for: reads where it reads, and the
/// delivery of just the bytes that were read.
pub open spec fn orderly(events: Seq<CopyEvent>) -> bool
    decreases events.len(),
{
    events.len() > 0 ==> orderly(events.drop_last()) && match events.last() {
        CopyEvent::Read(_) => copied(events.drop_last()).stage is Reading,
        CopyEvent::Write { n, .. } => copied(events.drop_last()).stage == CopyStage::Delivering(n),
    }
}

/// The bytes that the reads brought.
pub open spec fn brought(events: Seq<CopyEvent>) -> nat
    decreases events.len(),
{
    if events.len() == 0 {
        0
    } else {
        brought(events.drop_last()) + match events.last() {
            CopyEvent::Read(ReadOutcome::Bytes(n)) => n as nat,
            _ => 0,
        }
    }
}

/// The bytes that the sink accepted.
pub open spec fn accepted(events: Seq<CopyEvent>) -> nat
    decreases events.len(),
{
    if events.len() == 0 {
        0
    } else {
        accepted(events.drop_last()) + match events.last() {
            CopyEvent::Write { n, refused } => if refused {
                0
            } else {
                n
            },
            _ => 0,
        }
    }
}

/// A copy counts the bytes that the sink accepted, at every moment and however it
/// ends. Where the body has ended, they are all the bytes that were read.
pub proof fn a_copy_counts_what_the_sink_accepted(events: Seq<CopyEvent>)
    requires
        orderly(events),
    ensures
        copied(events).written == accepted(events),
        accepted(events) <= brought(events),
        copied(events).stage is Reading || copied(events).stage is Ended ==> accepted(events)
            == brought(events),
        copied(events).stage matches CopyStage::Delivering(n) ==> accepted(events) + n == brought(
            events,
        ),
    decreases events.len(),
{
    if events.len() > 0 {
        a_copy_counts_what_the_sink_accepted(events.drop_last());
    }
}

/// A download under way.
#[derive(Debug)]
pub struct Download {
    pub written: u64,
}

impl Download {
    /// A download at a stage.
    pub open spec fn at(self, stage: CopyStage) -> Copying {
        Copying { stage, written: self.written as nat }
    }

    /// A download at its beginning.
    pub fn new() -> (r: Self)
        ensures
            r.written == 0,
            r.at(CopyStage::Reading) == copied(Seq::empty()),
    {
        Download { written: 0 }
    }

    /// The bytes that were delivered so far.
    pub fn bytes_written(&self) -> (r: u64)
        ensures
            r == self.written,
    {
        self.written
    }

    /// Takes in what a read brought.
    pub fn on_read(&self, outcome: ReadOutcome) -> (r: CopyStep)
        ensures
            match outcome {
                ReadOutcome::Bytes(n) => if n == 0 {
                    r == CopyStep::Done(self.written)
                } else {
                    r == CopyStep::Deliver(n)
                },
                ReadOutcome::Interrupted => r is Again,
                ReadOutcome::Failed(m) => r matches CopyStep::Fail(DownloadError::Source(e)) && e@
                    == Fault::Transport("read body: "@ + m@),
            },
            self.at(r.stage()) == self.at(CopyStage::Reading).step(CopyEvent::Read(outcome)),
    {
        match outcome {
            ReadOutcome::Bytes(n) => if n == 0 {
                CopyStep::Done(self.written)
            } else {
                CopyStep::Deliver(n)
            },
            ReadOutcome::Interrupted => CopyStep::Again,
            ReadOutcome::Failed(m) => CopyStep::Fail(
                DownloadError::Source(
                    Error::Transport("read body: ".to_owned().concat(m.as_str())),
                ),
            ),
        }
    }

    /// Takes in what became of a delivery of `n` bytes.
    pub fn on_write(&mut self, n: usize, refusal: Option<SinkFault>) -> (r: Option<DownloadError>)
        requires
            old(self).written + n <= u64::MAX,
        ensures
            match refusal {
                None => r is None && final(self).written == old(self).written + n,
                Some(f) => r == Some(DownloadError::Sink(f)) && final(self).written
                    == old(self).written,
            },
            final(self).at(
                if r is None {
                    CopyStage::Reading
                } else {
                    CopyStage::Broken
                },
            ) == old(self).at(CopyStage::Delivering(n as nat)).step(
                CopyEvent::Write { n: n as nat, refused: refusal is Some },
            ),
    {
        match refusal {
            None => {
                self.written = self.written + n as u64;
                None
            },
            Some(f) => Some(DownloadError::Sink(f)),
        }
    }
}

/// The message of a failure, without what names its kind.
pub open spec fn bare_message(f: Fault) -> Seq<char> {
    match f {
        Fault::Transport(m) => m,
        other => other.line(),
    }
}

/// The message of a failure, without what names its kind.
pub fn transport_detail(err: Error) -> (r: String)
    ensures
        r@ == bare_message(err@),
{
    match err {
        Error::Transport(m) => m,
        other => other.text(),
    }
}

/// The failure of a download to a file. It says that the destination was left as
/// it was.
pub open spec fn discarded_fault(e: DownloadError, out_path: Seq<char>) -> Fault {
    match e {
        DownloadError::Source(err) => Fault::Transport(
            bare_message(err@) + "; partial download discarded, "@ + out_path + " not written"@,
        ),
        DownloadError::Sink(f) => Fault::Usage(
            "write "@ + out_path + ": "@ + f.message@ + "; partial download discarded, "@ + out_path
                + " not written"@,
        ),
    }
}

/// The failure of a download to a file.
pub fn discarded(e: DownloadError, out_path: &str) -> (r: Error)
    ensures
        r@ == discarded_fault(e, out_path@),
{
    match e {
        DownloadError::Source(err) => Error::Transport(
            transport_detail(err).concat("; partial download discarded, ").concat(out_path).concat(
                " not written",
            ),
        ),
        DownloadError::Sink(f) => Error::Usage(
            "write ".to_owned().concat(out_path).concat(": ").concat(f.message.as_str()).concat(
                "; partial download discarded, ",
            ).concat(out_path).concat(" not written"),
        ),
    }
}

/// The failure of a download to the standard output, where what was written stays
/// written.
pub fn truncated(e: DownloadError, written: u64) -> (r: Error)
    ensures
        r@ == match e {
            DownloadError::Source(err) => Fault::Transport(
                bare_message(err@) + "; "@ + digits(written as nat)
                    + " bytes of a truncated download were already written to stdout"@,
            ),
            DownloadError::Sink(f) => stdout_fault(f.broken_pipe, f.message@),
        },
{
    match e {
        DownloadError::Source(err) => Error::Transport(
            transport_detail(err).concat("; ").concat(decimal(written).as_str()).concat(
                " bytes of a truncated download were already written to stdout",
            ),
        ),
        DownloadError::Sink(f) => map_stdout_err(f),
    }
}

/// A failed copy to a file names the destination and says that it was not written; who
/// failed decides the kind.
pub proof fn a_discarded_download_says_so(err: Error, f: SinkFault, out_path: Seq<char>)
    ensures
        ({
            let s = discarded_fault(DownloadError::Source(err), out_path);
            &&& s is Transport
            &&& s.message() == bare_message(err@) + "; partial download discarded, "@ + out_path
                + " not written"@
        }),
        ({
            let s = discarded_fault(DownloadError::Sink(f), out_path);
            &&& s is Usage
            &&& s.message() == "write "@ + out_path + ": "@ + f.message@
                + "; partial download discarded, "@ + out_path + " not written"@
        }),
        err@ matches Fault::Transport(m) ==> bare_message(err@) == m,
        !(err@ is Transport) ==> bare_message(err@) == err@.line(),
{
}

/// A copy reads, delivers what it read and reads again; it ends where nothing is left
/// and breaks where either side fails.
pub proof fn a_copy_reads_and_delivers(c: Copying, n: usize, m: nat, e: String)
    ensures
        n > 0 ==> c.step(CopyEvent::Read(ReadOutcome::Bytes(n))).stage == CopyStage::Delivering(
            n as nat,
        ),
        c.step(CopyEvent::Read(ReadOutcome::Bytes(0))).stage is Ended,
        c.step(CopyEvent::Read(ReadOutcome::Interrupted)).stage is Reading,
        c.step(CopyEvent::Read(ReadOutcome::Bytes(n))).written == c.written,
        c.step(CopyEvent::Write { n: m, refused: false }) == (Copying {
            stage: CopyStage::Reading,
            written: c.written + m,
        }),
        c.step(CopyEvent::Write { n: m, refused: true }) == (Copying {
            stage: CopyStage::Broken,
            written: c.written,
        }),
{
}

} // verus!
