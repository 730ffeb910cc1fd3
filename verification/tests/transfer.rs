use sn::error::Error;
use sn::flags::SinkFault;
use sn::transfer::{
    discarded, truncated, CopyStep, Download, DownloadError, ReadOutcome, DOWNLOAD_BUFFER_BYTES,
};
use std::io::{self, Read, Write};

/// The loop that moves the bytes, as a caller writes it.
fn stream_body<R: Read, W: Write>(
    src: &mut R,
    sink: &mut W,
    buf: &mut [u8],
    written: &mut u64,
) -> Result<u64, DownloadError> {
    let mut d = Download::new();
    loop {
        let outcome = match src.read(buf) {
            Ok(n) => ReadOutcome::Bytes(n),
            Err(e) if e.kind() == io::ErrorKind::Interrupted => ReadOutcome::Interrupted,
            Err(e) => ReadOutcome::Failed(format!("{e}")),
        };
        match d.on_read(outcome) {
            CopyStep::Done(n) => return Ok(n),
            CopyStep::Again => {}
            CopyStep::Fail(e) => return Err(e),
            CopyStep::Deliver(n) => {
                let refusal = sink.write_all(&buf[..n]).err().map(|e| SinkFault {
                    broken_pipe: e.kind() == io::ErrorKind::BrokenPipe,
                    message: format!("{e}"),
                });
                let failed = d.on_write(n, refusal);
                *written = d.bytes_written();
                if let Some(e) = failed {
                    return Err(e);
                }
            }
        }
    }
}

/// A reader that yields `total` bytes of a repeating pattern in chunks the
/// caller cannot control, recording the largest buffer it was ever handed.
struct PatternReader {
    remaining: usize,
    offset: u8,
    max_buf_seen: usize,
}

impl Read for PatternReader {
    fn read(&mut self, buf: &mut [u8]) -> io::Result<usize> {
        self.max_buf_seen = self.max_buf_seen.max(buf.len());
        if self.remaining == 0 {
            return Ok(0);
        }
        // Short reads are legal and normal on a socket; hand back well under
        // the buffer so the loop cannot assume it fills every time.
        let n = buf.len().min(self.remaining).min(7919);
        for (i, slot) in buf.iter_mut().take(n).enumerate() {
            *slot = self.offset.wrapping_add(i as u8);
        }
        self.offset = self.offset.wrapping_add(n as u8);
        self.remaining -= n;
        Ok(n)
    }
}

fn run_stream(total: usize) -> (Vec<u8>, usize, u64) {
    let mut src = PatternReader {
        remaining: total,
        offset: 0,
        max_buf_seen: 0,
    };
    let mut sink = Vec::new();
    let mut buf = vec![0u8; DOWNLOAD_BUFFER_BYTES];
    let mut written = 0u64;
    let n = stream_body(&mut src, &mut sink, &mut buf, &mut written).unwrap();
    (sink, src.max_buf_seen, n)
}

#[test]
fn streaming_never_reads_more_than_the_fixed_buffer() {
    // Memory does not track payload size: 4 MiB through a 64 KiB buffer,
    // byte-exact.
    let total = 4 * 1024 * 1024;
    let (sink, max_buf_seen, n) = run_stream(total);
    assert_eq!(n, total as u64);
    assert_eq!(sink.len(), total);
    assert!(
        max_buf_seen <= DOWNLOAD_BUFFER_BYTES,
        "read buffer grew to {max_buf_seen}, past the {DOWNLOAD_BUFFER_BYTES}-byte bound"
    );
    // Contents survive the chunk boundaries, not just the length.
    assert!(sink.iter().enumerate().all(|(i, b)| *b == i as u8));
}

#[test]
fn empty_body_streams_to_zero_bytes() {
    let (sink, _, n) = run_stream(0);
    assert_eq!(n, 0);
    assert!(sink.is_empty());
}

struct FailingReader;

impl Read for FailingReader {
    fn read(&mut self, _buf: &mut [u8]) -> io::Result<usize> {
        Err(io::Error::new(io::ErrorKind::ConnectionReset, "peer gone"))
    }
}

struct FailingWriter;

impl Write for FailingWriter {
    fn write(&mut self, _buf: &[u8]) -> io::Result<usize> {
        Err(io::Error::new(io::ErrorKind::StorageFull, "disk full"))
    }
    fn flush(&mut self) -> io::Result<()> {
        Ok(())
    }
}

#[test]
fn source_and_sink_failures_stay_distinguishable() {
    let mut buf = vec![0u8; DOWNLOAD_BUFFER_BYTES];
    let mut written = 0u64;
    let err = stream_body(&mut FailingReader, &mut Vec::new(), &mut buf, &mut written).unwrap_err();
    assert!(matches!(err, DownloadError::Source(_)), "{err:?}");
    assert_eq!(written, 0);

    let mut src = PatternReader {
        remaining: 1024,
        offset: 0,
        max_buf_seen: 0,
    };
    let mut written = 0u64;
    let err = stream_body(&mut src, &mut FailingWriter, &mut buf, &mut written).unwrap_err();
    assert!(matches!(err, DownloadError::Sink(_)), "{err:?}");
    // Nothing the sink rejected may be counted as delivered.
    assert_eq!(written, 0);
}

struct InterruptOnce {
    done: bool,
    payload: Vec<u8>,
}

impl Read for InterruptOnce {
    fn read(&mut self, buf: &mut [u8]) -> io::Result<usize> {
        if !self.done {
            self.done = true;
            return Err(io::Error::new(io::ErrorKind::Interrupted, "signal"));
        }
        let n = buf.len().min(self.payload.len());
        buf[..n].copy_from_slice(&self.payload[..n]);
        self.payload.drain(..n);
        Ok(n)
    }
}

#[test]
fn interrupted_reads_resume_instead_of_failing() {
    let mut src = InterruptOnce {
        done: false,
        payload: b"hello".to_vec(),
    };
    let mut sink = Vec::new();
    let mut buf = vec![0u8; DOWNLOAD_BUFFER_BYTES];
    let mut written = 0u64;
    let n = stream_body(&mut src, &mut sink, &mut buf, &mut written).unwrap();
    assert_eq!(n, 5);
    assert_eq!(sink, b"hello");
}

#[test]
fn a_failed_download_leaves_the_destination_alone() {
    let e = discarded(
        DownloadError::Source(Error::Transport("read body: peer gone".into())),
        "out.bin",
    );
    assert_eq!(e.exit_code(), 3);
    assert!(
        e.text()
            .ends_with("read body: peer gone; partial download discarded, out.bin not written"),
        "{}",
        e.text()
    );
}

#[test]
fn a_closed_pipe_ends_a_download_in_silence() {
    let e = truncated(
        DownloadError::Sink(SinkFault {
            broken_pipe: true,
            message: "gone".into(),
        }),
        7,
    );
    assert!(matches!(e, Error::BrokenPipe), "{e:?}");
}
