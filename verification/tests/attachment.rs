use sn::attachment::{
    delete, download, downloaded, get, list, mime_from_extension, staging_name_of, temp_file_name,
    truncate_bytes, upload, upload_as, AttachmentDeleteArgs, AttachmentDownloadArgs, AttachmentGetArgs, AttachmentListArgs,
    AttachmentUploadArgs, MAX_STAGING_NAME,
};
use sn::flags::{Paging, SetLimit};
use sn::request::Method;

#[test]
fn staging_name_stays_within_name_max() {
    // A destination name the OS accepts must not become one it rejects: the
    // staging name adds a pid+nanos suffix, so a long-but-legal destination
    // is exactly where ENAMETOOLONG appears.
    for len in [1usize, 200, 220, 240, 255] {
        let dest = format!("{}.bin", "a".repeat(len));
        let name = temp_file_name(&dest, u32::MAX, u128::MAX);
        assert!(
            name.len() <= MAX_STAGING_NAME,
            "staging name for a {len}-char destination is {} bytes: {name}",
            name.len()
        );
        assert!(name.starts_with(".a"), "lost the readable prefix: {name}");
        assert!(name.ends_with(".part"), "lost the .part suffix: {name}");
    }
}

#[test]
fn staging_name_keeps_the_unique_suffix_when_truncating() {
    // Uniqueness lives in pid+nanos; truncation must eat the readable base,
    // never the part that keeps concurrent downloads apart.
    let dest = "x".repeat(240);
    let a = temp_file_name(&dest, 4711, 1_700_000_000_000_000_000);
    let b = temp_file_name(&dest, 4711, 1_700_000_000_002_000_000);
    assert_ne!(a, b, "two staging names collided: {a}");
    assert!(a.contains(&format!(".sn{}-", 4711)));
}

#[test]
fn a_staging_name_is_exactly_base_pid_and_clock() {
    assert_eq!(
        staging_name_of(&Some("out.bin".into()), 42, 7),
        ".out.bin.sn42-7.part"
    );
    assert_eq!(staging_name_of(&None, 42, 7), ".download.sn42-7.part");
    assert_eq!(
        temp_file_name("/tmp/a.b/out.bin", 42, 7),
        ".out.bin.sn42-7.part"
    );
    assert_eq!(temp_file_name("out.bin", 42, 7), ".out.bin.sn42-7.part");
    assert_eq!(temp_file_name("..", 42, 7), ".download.sn42-7.part");
}

#[test]
fn truncation_does_not_split_a_character() {
    // "é" is two bytes: a naive byte slice at 3 would panic.
    assert_eq!(truncate_bytes("aéb", 3), "aé");
    assert_eq!(truncate_bytes("aéb", 2), "a");
    assert_eq!(truncate_bytes("abc", 10), "abc");
    assert_eq!(truncate_bytes("abc", 0), "");
}

#[test]
fn the_widest_characters_are_measured_in_bytes() {
    assert_eq!(truncate_bytes("a€b", 4), "a€");
    assert_eq!(truncate_bytes("a€b", 3), "a");
    assert_eq!(truncate_bytes("a😀b", 5), "a😀");
    assert_eq!(truncate_bytes("a😀b", 4), "a");
}

#[test]
fn a_media_type_goes_by_the_extension() {
    assert_eq!(mime_from_extension(&Some("txt".into())), "text/plain");
    assert_eq!(mime_from_extension(&Some("jpeg".into())), "image/jpeg");
    assert_eq!(
        mime_from_extension(&Some("TXT".into())),
        "application/octet-stream"
    );
    assert_eq!(mime_from_extension(&Some("png".into())), "image/png");
    assert_eq!(mime_from_extension(&Some("gzip".into())), "application/gzip");
    assert_eq!(
        mime_from_extension(&Some("odd".into())),
        "application/octet-stream"
    );
    assert_eq!(mime_from_extension(&None), "application/octet-stream");
}

#[test]
fn every_command_names_its_path() {
    let d = list(&AttachmentListArgs {
        query: Some("table_name=incident".into()),
        paging: Paging {
            limit: SetLimit { setlimit: 5 },
            offset: None,
        },
    });
    assert_eq!(d.path, "/api/now/attachment");
    assert!(d.query.iter().any(|(k, v)| k == "sysparm_limit" && v == "5"));

    let d = get(&AttachmentGetArgs { sys_id: "a1".into() });
    assert_eq!(d.path, "/api/now/attachment/a1");

    let d = delete(&AttachmentDeleteArgs {
        sys_id: "a1".into(),
        yes: true,
    });
    assert_eq!(d.method, Method::Delete);
    assert_eq!(d.path, "/api/now/attachment/a1");

    let q = download(&AttachmentDownloadArgs {
        sys_id: "a1".into(),
        out: None,
    });
    assert_eq!(q.path, "/api/now/attachment/a1/file");
    assert_eq!(
        downloaded("out.bin", 12).render(),
        r#"{"path":"out.bin","size":12}"#
    );
}

#[test]
fn an_upload_is_named_after_its_file() {
    let args = AttachmentUploadArgs {
        table: "incident".into(),
        record: "i1".into(),
        file: "/tmp/log.txt".into(),
        file_name: None,
        content_type: None,
        encryption_context: None,
    };
    let (q, content_type) = upload(&args);
    assert_eq!(q.method, Method::Post);
    assert_eq!(q.path, "/api/now/attachment/file");
    assert_eq!(
        q.query,
        vec![
            ("table_name".to_string(), "incident".to_string()),
            ("table_sys_id".to_string(), "i1".to_string()),
            ("file_name".to_string(), "log.txt".to_string()),
        ]
    );
    assert_eq!(content_type, "text/plain");
}

#[test]
fn an_upload_takes_its_type_from_the_ending_of_its_name() {
    let named = |file: &str| AttachmentUploadArgs {
        table: "incident".into(),
        record: "i1".into(),
        file: file.into(),
        file_name: None,
        content_type: None,
        encryption_context: None,
    };
    let sent = |file: &str| {
        let (q, t) = upload(&named(file));
        (q.query[2].1.clone(), t)
    };
    let octets = "application/octet-stream".to_string();
    assert_eq!(
        sent("dir.json/report.tar.gz"),
        ("report.tar.gz".to_string(), "application/gzip".to_string())
    );
    assert_eq!(sent("dir.json/report"), ("report".to_string(), octets.clone()));
    assert_eq!(sent(".json"), (".json".to_string(), octets.clone()));
    assert_eq!(
        sent(".a.json"),
        (".a.json".to_string(), "application/json".to_string())
    );
    assert_eq!(sent("report."), ("report.".to_string(), octets.clone()));
    for upwards in ["..", "a/..", "/", "", "a/../", "/."] {
        assert_eq!(sent(upwards), ("upload".to_string(), octets.clone()), "{upwards}");
    }
    for path in ["report:10.csv", "d/report:10.csv/", "report:10.csv/.", "report:10.csv/.//"] {
        assert_eq!(
            sent(path),
            ("report:10.csv".to_string(), "text/csv".to_string()),
            "{path}"
        );
    }

    let (q, t) = upload_as(&named("x"), &None);
    assert_eq!(q.query[2].1, "upload");
    assert_eq!(t, octets);
    let (q, t) = upload_as(&named("x"), &Some("a.csv".into()));
    assert_eq!(q.query[2].1, "a.csv");
    assert_eq!(t, "text/csv");
}

#[test]
fn what_the_flags_say_of_a_file_comes_first() {
    let args = AttachmentUploadArgs {
        table: "incident".into(),
        record: "i1".into(),
        file: "/tmp/log.txt".into(),
        file_name: Some("other.bin".into()),
        content_type: Some("image/x".into()),
        encryption_context: Some("ctx".into()),
    };
    let (q, t) = upload(&args);
    assert_eq!(q.query[2].1, "other.bin");
    assert_eq!(
        q.query[3],
        ("encryption_context".to_string(), "ctx".to_string())
    );
    assert_eq!(t, "image/x");
}
