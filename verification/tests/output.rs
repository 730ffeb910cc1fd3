use sn::error::Error;
use sn::flags::{Format, ResolvedFormat, SinkFault};
use sn::json::{parse, Json};
use sn::output::{emit_error, emit_value, write_jsonl_line, SendStep, Sending};
use std::cell::RefCell;
use std::io::{self, ErrorKind, Write};
use std::rc::Rc;

fn doc(s: &str) -> Json {
    parse(s).unwrap()
}

#[test]
fn compact_emits_single_line() {
    assert_eq!(
        emit_value(&doc(r#"{"a": 1}"#), ResolvedFormat::Compact),
        "{\"a\":1}\n"
    );
}

#[test]
fn pretty_emits_indented() {
    let s = emit_value(&doc(r#"{"a": 1}"#), ResolvedFormat::Pretty);
    assert!(s.contains("  \"a\": 1"));
}

#[test]
fn pretty_is_what_serde_json_writes() {
    for text in [
        "{}",
        "[]",
        "null",
        r#"{"b": [1, {"c": []}, [2.5, "x\n\"y"]], "a": {"d": {}, "e": true}}"#,
    ] {
        let value: serde_json::Value = serde_json::from_str(text).unwrap();
        assert_eq!(
            emit_value(&doc(text), ResolvedFormat::Pretty),
            format!("{}\n", serde_json::to_string_pretty(&value).unwrap())
        );
        assert_eq!(
            emit_value(&doc(text), ResolvedFormat::Compact),
            format!("{}\n", serde_json::to_string(&value).unwrap())
        );
    }
}

#[test]
fn jsonl_one_record_per_line() {
    let mut buf = String::new();
    for v in [doc(r#"{"a": 1}"#), doc(r#"{"a": 2}"#)] {
        buf.push_str(&write_jsonl_line(&v));
    }
    assert_eq!(buf, "{\"a\":1}\n{\"a\":2}\n");
}

#[test]
fn error_envelope_goes_to_writer() {
    let e = Error::Usage("bad".into());
    let s = emit_error(&e);
    assert!(s.contains("\"message\":\"bad\""));
}

/// Stands in for a pipe: `visible` is what a reader on the far end could have read, so
/// bytes only move there on flush.
#[derive(Default)]
struct Pipe {
    pending: Vec<u8>,
    visible: Vec<u8>,
    writes: usize,
    flush_err: Option<ErrorKind>,
    write_err: Option<ErrorKind>,
}

struct SpyWriter(Rc<RefCell<Pipe>>);

impl Write for SpyWriter {
    fn write(&mut self, b: &[u8]) -> io::Result<usize> {
        let mut p = self.0.borrow_mut();
        if let Some(kind) = p.write_err {
            return Err(io::Error::new(kind, "spy write failure"));
        }
        p.writes += 1;
        p.pending.extend_from_slice(b);
        Ok(b.len())
    }
    fn flush(&mut self) -> io::Result<()> {
        let mut p = self.0.borrow_mut();
        if let Some(kind) = p.flush_err {
            return Err(io::Error::new(kind, "spy flush failure"));
        }
        let pending = std::mem::take(&mut p.pending);
        p.visible.extend_from_slice(&pending);
        Ok(())
    }
}

fn visible(pipe: &Rc<RefCell<Pipe>>) -> String {
    String::from_utf8(pipe.borrow().visible.clone()).unwrap()
}

/// The loop that sends a text, as a caller writes it.
fn send(mut w: SpyWriter, text: String) -> Result<(), Error> {
    let (mut sending, mut step) = Sending::new(text);
    loop {
        let done = match step {
            SendStep::Write(s) => w.write_all(s.as_bytes()),
            SendStep::Flush => w.flush(),
            SendStep::Done => return Ok(()),
            SendStep::Fail(e) => return Err(e),
        };
        step = sending.receive(done.err().map(|e| SinkFault {
            broken_pipe: e.kind() == ErrorKind::BrokenPipe,
            message: e.to_string(),
        }));
    }
}

/// The stream contract: a record has reached the reader before the iterator is asked
/// for the next one.
#[test]
fn jsonl_records_are_visible_before_the_next_is_produced() {
    let pipe = Rc::new(RefCell::new(Pipe::default()));
    let seen = Rc::clone(&pipe);
    let mut produced = 0usize;
    let it = std::iter::from_fn(move || {
        assert_eq!(
            visible(&seen).lines().count(),
            produced,
            "record {produced} was still buffered when the next was requested"
        );
        if produced == 3 {
            return None;
        }
        produced += 1;
        Some(doc(&format!(r#"{{ "i": {produced} }}"#)))
    });
    for v in it {
        send(SpyWriter(Rc::clone(&pipe)), write_jsonl_line(&v)).unwrap();
    }
    assert_eq!(visible(&pipe).lines().count(), 3);
}

#[test]
fn a_streamed_line_is_flushed_on_its_own() {
    let pipe = Rc::new(RefCell::new(Pipe::default()));
    send(SpyWriter(Rc::clone(&pipe)), write_jsonl_line(&doc(r#"{"a": 1}"#))).unwrap();
    assert_eq!(visible(&pipe), "{\"a\":1}\n");
}

#[test]
fn a_batched_value_leaves_in_a_single_write() {
    let pipe = Rc::new(RefCell::new(Pipe::default()));
    let rows: Vec<String> = (0..500).map(|i| format!(r#"{{"n": {i}}}"#)).collect();
    let value = doc(&format!(r#"{{"rows": [{}]}}"#, rows.join(",")));
    send(
        SpyWriter(Rc::clone(&pipe)),
        emit_value(&value, ResolvedFormat::Pretty),
    )
    .unwrap();
    let p = pipe.borrow();
    assert_eq!(
        p.writes, 1,
        "batched output fragmented into {} writes",
        p.writes
    );
    assert!(p.visible.len() > 64 * 1024 / 8);
}

fn refused(pipe: Pipe) -> Error {
    send(
        SpyWriter(Rc::new(RefCell::new(pipe))),
        emit_value(&doc(r#"{"a": 1}"#), ResolvedFormat::Compact),
    )
    .unwrap_err()
}

#[test]
fn a_deferred_flush_failure_is_not_swallowed() {
    let err = refused(Pipe {
        flush_err: Some(ErrorKind::Other),
        ..Pipe::default()
    });
    assert!(
        matches!(err, Error::Transport(_)),
        "unexpected error: {err:?}"
    );
}

#[test]
fn a_closed_pipe_on_flush_stays_a_broken_pipe() {
    let err = refused(Pipe {
        flush_err: Some(ErrorKind::BrokenPipe),
        ..Pipe::default()
    });
    assert!(matches!(err, Error::BrokenPipe), "unexpected error: {err:?}");
}

#[test]
fn a_line_that_cannot_be_written_fails_by_its_reason() {
    let full = refused(Pipe {
        write_err: Some(ErrorKind::Other),
        ..Pipe::default()
    });
    match &full {
        Error::Transport(m) => assert_eq!(m, "stdout: spy write failure"),
        other => panic!("{other:?}"),
    }
    assert_eq!(full.exit_code(), 3);
    let closed = refused(Pipe {
        write_err: Some(ErrorKind::BrokenPipe),
        ..Pipe::default()
    });
    assert!(matches!(closed, Error::BrokenPipe));
    assert_eq!(closed.exit_code(), 0);
}

#[test]
fn the_layout_goes_by_the_terminal() {
    assert_eq!(Format::Auto.resolve(true), ResolvedFormat::Pretty);
    assert_eq!(Format::Auto.resolve(false), ResolvedFormat::Compact);
    assert_eq!(Format::Pretty.resolve(false), ResolvedFormat::Pretty);
    assert_eq!(Format::Compact.resolve(true), ResolvedFormat::Compact);
}

#[test]
fn a_string_is_escaped_character_by_character() {
    let out = write_jsonl_line(&Json::str("a\"\\/\u{8}\t\n\u{c}\r\u{0}\u{1f}\u{b}\u{7f}é\u{2028}"));
    assert_eq!(
        out,
        "\"a\\\"\\\\/\\b\\t\\n\\f\\r\\u0000\\u001f\\u000b\u{7f}é\u{2028}\"\n"
    );
    for c in (0..=0x10ffff_u32).step_by(7).chain(0..300).filter_map(char::from_u32) {
        let text = c.to_string();
        let expected = match c {
            '"' => "\"\\\"\"".to_string(),
            '\\' => "\"\\\\\"".to_string(),
            '\u{8}' => "\"\\b\"".to_string(),
            '\t' => "\"\\t\"".to_string(),
            '\n' => "\"\\n\"".to_string(),
            '\u{c}' => "\"\\f\"".to_string(),
            '\r' => "\"\\r\"".to_string(),
            c if (c as u32) < 32 => format!("\"\\u{:04x}\"", c as u32),
            c => format!("\"{c}\""),
        };
        assert_eq!(Json::str(&text).render(), expected, "{:x}", c as u32);
    }
}

#[test]
fn a_record_takes_one_line() {
    let record = doc(r#"{"a\nb": ["x\r\ny", {"c": 1.5}], "d": "\n"}"#);
    let line = write_jsonl_line(&record);
    assert!(line.ends_with('\n'));
    assert_eq!(line.matches(|c| c == '\n' || c == '\r').count(), 1);
    assert_eq!(doc(line.trim_end()).render(), record.render());
}
