use sn::error::Error;
use sn::store::{
    config_dir, config_path, credentials_path, lock_dir_of, lock_path, Attempt, HeldLocks,
    LockStep, LockWait, LOCK_TIMEOUT_MS,
};
use std::path::Path;

#[test]
fn paths_end_in_expected_filenames() {
    let dir = config_dir(None, Some("/home/u/.config/sn".into())).unwrap();
    let cfg = config_path(&dir);
    assert_eq!(Path::new(&cfg).file_name().unwrap(), "config.toml");
    let cred = credentials_path(&dir);
    assert_eq!(Path::new(&cred).file_name().unwrap(), "credentials.toml");
}

#[test]
fn the_environment_names_the_directory_itself() {
    let native = Some("/home/u/.config/sn".to_string());
    assert_eq!(config_dir(Some("/tmp/x".into()), native.clone()).unwrap(), "/tmp/x");
    assert_eq!(
        config_dir(Some(String::new()), native.clone()).unwrap(),
        "/home/u/.config/sn"
    );
    assert!(matches!(config_dir(None, None), Err(Error::Config(_))));
    assert_eq!(config_path("/tmp/x"), "/tmp/x/config.toml");
    assert_eq!(config_path("/tmp/x/"), "/tmp/x/config.toml");
    assert_eq!(lock_path("/tmp/x"), "/tmp/x/.sn.lock");
}

#[test]
fn a_bare_file_is_guarded_in_the_working_directory() {
    assert_eq!(lock_dir_of(Some("/tmp".into())), "/tmp");
    assert_eq!(lock_dir_of(Some(String::new())), ".");
    assert_eq!(lock_dir_of(None), ".");
}

#[test]
fn nested_locks_on_one_directory_do_not_deadlock() {
    let mut held = HeldLocks::new();
    assert!(!held.holds("/cfg"), "the outer one locks the file");
    held.enter("/cfg");
    assert!(held.holds("/cfg"), "the inner one does not");
    held.enter("/cfg");
    held.leave("/cfg");
    assert!(held.holds("/cfg"), "the outer one still has it");
    held.leave("/cfg");
    assert!(!held.holds("/cfg"));
}

#[test]
fn leaving_one_directory_keeps_another() {
    let mut held = HeldLocks::new();
    held.enter("/a");
    held.enter("/b");
    held.leave("/a");
    assert!(!held.holds("/a"));
    assert!(held.holds("/b"));
    held.leave("/never");
    assert!(held.holds("/b"));
}

#[test]
fn a_blocked_writer_waits_longer_each_time_and_then_gives_up() {
    let mut w = LockWait::new(1000, LOCK_TIMEOUT_MS);
    let mut pauses = Vec::new();
    for _ in 0..7 {
        match w.receive("/cfg/.sn.lock", Attempt::Blocked, 1000) {
            LockStep::Pause(ms) => pauses.push(ms),
            other => panic!("expected a pause, got {other:?}"),
        }
    }
    assert_eq!(pauses, vec![1, 2, 4, 8, 16, 25, 25]);
    match w.receive("/cfg/.sn.lock", Attempt::Blocked, 11_000) {
        LockStep::Fail(Error::Config(m)) => assert_eq!(
            m,
            "timed out after 10s waiting for the config lock at /cfg/.sn.lock; \
             another sn process is holding it"
        ),
        other => panic!("expected a failure, got {other:?}"),
    }
}

#[test]
fn a_lock_is_had_or_refused_at_once() {
    let mut w = LockWait::new(0, LOCK_TIMEOUT_MS);
    assert!(matches!(
        w.receive("l", Attempt::Locked, u64::MAX),
        LockStep::Held
    ));
    match w.receive("l", Attempt::Failed("denied".into()), 0) {
        LockStep::Fail(e) => assert!(e.text().contains("lock l: denied"), "{}", e.text()),
        other => panic!("expected a failure, got {other:?}"),
    }
}
