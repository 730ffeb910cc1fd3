use sn::error::Error;
use sn::flags::SinkFault;
use sn::staging::{Action, Outcome, Staging};
use sn::transfer::DownloadError;

fn refused(message: &str) -> Outcome {
    Outcome::Refused(SinkFault { broken_pipe: false, message: message.to_string() })
}

fn begun() -> Staging {
    let (mut s, first) = Staging::new("out.bin", "./.out.bin.part");
    assert!(matches!(first, Action::Create));
    assert!(matches!(s.step(Outcome::Done), Action::Copy));
    s
}

fn usage(a: Action) -> String {
    match a {
        Action::Fail(Error::Usage(m)) => m,
        other => panic!("{other:?}"),
    }
}

#[test]
fn a_whole_file_takes_its_name_last() {
    let mut s = begun();
    assert!(matches!(s.step(Outcome::Copied(70_000)), Action::Flush));
    assert!(matches!(s.step(Outcome::Done), Action::Rename));
    match s.step(Outcome::Done) {
        Action::Finish(j) => assert_eq!(j.render(), r#"{"path":"out.bin","size":70000}"#),
        other => panic!("{other:?}"),
    }
}

#[test]
fn a_file_that_cannot_be_created_is_not_removed() {
    let (mut s, _) = Staging::new("out.bin", "./.out.bin.part");
    assert_eq!(usage(s.step(refused("denied"))), "create ./.out.bin.part: denied");
}

#[test]
fn a_copy_that_breaks_off_is_removed_first() {
    let mut s = begun();
    let lost = DownloadError::Source(Error::Transport("read body: reset".to_string()));
    assert!(matches!(s.step(Outcome::Broken(lost)), Action::Remove));
    match s.step(refused("gone")) {
        Action::Fail(Error::Transport(m)) => assert_eq!(
            m,
            "read body: reset; partial download discarded, out.bin not written"
        ),
        other => panic!("{other:?}"),
    }
}

#[test]
fn a_file_that_cannot_be_flushed_or_named_is_removed() {
    let mut s = begun();
    s.step(Outcome::Copied(1));
    assert!(matches!(s.step(refused("full")), Action::Remove));
    assert_eq!(
        usage(s.step(Outcome::Done)),
        "write out.bin: full; partial download discarded, out.bin not written"
    );
    let mut s = begun();
    s.step(Outcome::Copied(1));
    s.step(Outcome::Done);
    assert!(matches!(s.step(refused("busy")), Action::Remove));
    assert_eq!(usage(s.step(Outcome::Done)), "write out.bin: busy");
}
