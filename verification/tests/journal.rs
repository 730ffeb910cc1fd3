use sn::journal::{parse_stream, sort_newest_first, undefined_field, validate_identifier, validate_sys_id};
use sn::json::{parse, Json};

fn doc(s: &str) -> Json {
    parse(s).unwrap()
}

#[test]
fn parses_two_entries_newest_first() {
    let stream = "2026-08-11 10:40:20 - Abey Ahmad (Work notes)\nchecked the router\n\n\
                  2026-08-10 07:40:58 - Abey Ahmad (Comments)\nuser called back\n\n";
    let entries = parse_stream(stream).unwrap();
    assert_eq!(entries.len(), 2);
    assert_eq!(entries[0].created_on, "2026-08-11 10:40:20");
    assert_eq!(entries[0].author, "Abey Ahmad");
    assert_eq!(entries[0].element.as_deref(), Some("work_notes"));
    assert_eq!(entries[0].label.as_deref(), Some("Work notes"));
    assert_eq!(entries[0].text, "checked the router");
    assert_eq!(entries[1].element.as_deref(), Some("comments"));
}

#[test]
fn multiline_text_with_internal_blank_lines_survives() {
    let stream = "2026-08-11 10:40:20 - A B (Comments)\nline one\n\nline three\n\n\
                  2026-08-10 07:00:00 - A B (Comments)\nolder\n\n";
    let entries = parse_stream(stream).unwrap();
    assert_eq!(entries.len(), 2);
    assert_eq!(entries[0].text, "line one\n\nline three");
}

#[test]
fn locale_formatted_timestamps_are_accepted() {
    let stream = "08/11/2026 10:40:20 AM - Abey Ahmad (Additional comments)\nhello\n\n";
    let entries = parse_stream(stream).unwrap();
    assert_eq!(entries[0].created_on, "08/11/2026 10:40:20 AM");
    assert_eq!(entries[0].element.as_deref(), Some("comments"));
}

#[test]
fn author_names_containing_dash_and_parens_parse() {
    let stream = "2026-08-11 10:40:20 - Mary-Jane O'Neil (ext) (Work notes)\nnote\n\n";
    let entries = parse_stream(stream).unwrap();
    // The last parenthesis is the label, so the first stays with the author.
    assert_eq!(entries[0].author, "Mary-Jane O'Neil (ext)");
    assert_eq!(entries[0].label.as_deref(), Some("Work notes"));
}

#[test]
fn empty_stream_yields_no_entries() {
    assert!(parse_stream("").unwrap().is_empty());
    assert!(parse_stream("\n\n").unwrap().is_empty());
}

#[test]
fn garbage_stream_is_an_error_not_silence() {
    let err = parse_stream("this is not a journal stream").unwrap_err();
    assert_eq!(err.exit_code(), 2);
}

#[test]
fn unknown_label_omits_element_but_keeps_label() {
    let stream = "2026-08-11 10:40:20 - A B (Approval history)\napproved\n\n";
    let entries = parse_stream(stream).unwrap();
    assert_eq!(entries[0].element, None);
    assert_eq!(entries[0].label.as_deref(), Some("Approval history"));
}

#[test]
fn header_lookalikes_in_text_must_have_timestamp_shape() {
    // "2 - foo (bar)" starts with a digit but has no time separator.
    let stream = "2026-08-11 10:40:20 - A B (Comments)\n2 - foo (bar)\nmore\n\n";
    let entries = parse_stream(stream).unwrap();
    assert_eq!(entries.len(), 1);
    assert_eq!(entries[0].text, "2 - foo (bar)\nmore");
}

#[test]
fn merged_iso_entries_sort_newest_first() {
    let mut entries = parse_stream(
        "2026-08-10 07:00:00 - A B (Comments)\nolder\n\n\
         2026-08-11 09:00:00 - A B (Comments)\nnewer\n\n",
    )
    .unwrap();
    sort_newest_first(&mut entries);
    assert_eq!(entries[0].text, "newer");
}

#[test]
fn locale_timestamps_keep_stream_order() {
    let mut entries = parse_stream(
        "08/10/2026 07:00:00 AM - A B (Comments)\nfirst\n\n\
         08/11/2026 09:00:00 AM - A B (Comments)\nsecond\n\n",
    )
    .unwrap();
    sort_newest_first(&mut entries);
    assert_eq!(entries[0].text, "first");
}

#[test]
fn identifier_and_sys_id_validation() {
    assert!(validate_identifier("incident", "table").is_ok());
    assert!(validate_identifier("u_custom_2", "table").is_ok());
    for bad in ["", "Incident", "x;drop", "9start"] {
        assert!(validate_identifier(bad, "table").is_err(), "{bad}");
    }
    assert!(validate_sys_id("47a91e3c2f8acf107efd1d707fa4e387").is_ok());
    for bad in ["", "a^b", "a=b", "a,b", &"x".repeat(65)] {
        assert!(validate_sys_id(bad).is_err(), "{bad}");
    }
}

#[test]
fn undefined_field_matches_the_column_name_exactly() {
    let errs = vec![doc(
        r#"{
        "message": "Validation error (FieldUndefined@[GlideRecord_Query/incident/_results/comments_and_work_notes]) : Field 'comments_and_work_notes' in type 'GlideRecord_TableResultsType_incident' is undefined",
        "errorType": "ValidationError"
    }"#,
    )];
    assert!(undefined_field(&errs, "comments_and_work_notes"));
    assert!(!undefined_field(&errs, "comments"));
    assert!(!undefined_field(&errs, "incident"));
}

#[test]
fn sorting_loses_no_entry_and_keeps_ties_in_order() {
    let mut entries = parse_stream(
        "2026-08-10 07:00:00 - A B (Comments)\none\n\n\
         2026-08-11 09:00:00 - A B (Comments)\ntwo\n\n\
         2026-08-10 07:00:00 - A B (Comments)\nthree\n\n",
    )
    .unwrap();
    sort_newest_first(&mut entries);
    let seen: Vec<&str> = entries.iter().map(|e| e.text.as_str()).collect();
    assert_eq!(seen, vec!["two", "one", "three"]);
}
