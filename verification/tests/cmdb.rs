use sn::cmdb::ire_envelope;
use sn::error::Error;
use sn::json::{parse, Json};

fn doc(s: &str) -> Json {
    parse(s).unwrap()
}

fn envelope(body: &str, source: Option<&str>) -> Result<String, Error> {
    ire_envelope(doc(body), source.map(str::to_string)).map(|j| j.render())
}

fn usage_of(body: &str, source: Option<&str>) -> String {
    match envelope(body, source) {
        Err(Error::Usage(m)) => m,
        other => panic!("expected a usage error for {body}, got {other:?}"),
    }
}

#[test]
fn flat_body_is_wrapped_with_the_default_source() {
    assert_eq!(
        envelope(r#"{"name": "web01"}"#, None).unwrap(),
        doc(r#"{"attributes": {"name": "web01"}, "source": "Manual Entry"}"#).render()
    );
}

#[test]
fn flag_source_lands_beside_attributes() {
    assert_eq!(
        envelope(r#"{"name": "web01"}"#, Some("ServiceNow")).unwrap(),
        doc(r#"{"attributes": {"name": "web01"}, "source": "ServiceNow"}"#).render()
    );
}

#[test]
fn object_valued_attributes_passes_through() {
    let body = r#"{
        "attributes": {"name": "web01"},
        "source": "Other Automated",
        "outbound_relations": [{"target": "abc", "type": "def"}]
    }"#;
    assert_eq!(envelope(body, None).unwrap(), doc(body).render());
}

/// `--field cpu_count=8` parses to a JSON number, which the Instance API
/// answers with an HTTP 500 `Integer cannot be cast to String`.
#[test]
fn numbers_and_bools_become_strings() {
    let out = envelope(
        r#"{"cpu_count": 8, "virtual": true, "cost": 12.5, "name": "web01"}"#,
        None,
    )
    .unwrap();
    assert_eq!(
        out,
        doc(
            r#"{
            "attributes": {
                "cpu_count": "8",
                "virtual": "true",
                "cost": "12.5",
                "name": "web01"
            },
            "source": "Manual Entry"
        }"#
        )
        .render()
    );
}

/// The passthrough covers the envelope's shape, not the cast the API does to
/// every attribute value.
#[test]
fn an_explicit_envelope_gets_its_attribute_values_stringified_too() {
    assert_eq!(
        envelope(
            r#"{"attributes": {"operational_status": 2}, "source": "Altiris"}"#,
            None
        )
        .unwrap(),
        doc(r#"{"attributes": {"operational_status": "2"}, "source": "Altiris"}"#).render()
    );
}

/// Null stays available for clearing a field.
#[test]
fn null_attribute_survives_verbatim() {
    assert_eq!(
        envelope(r#"{"short_description": null}"#, None).unwrap(),
        doc(r#"{"attributes": {"short_description": null}, "source": "Manual Entry"}"#).render()
    );
}

#[test]
fn object_and_array_attribute_values_are_refused() {
    for body in [
        r#"{"ports": {"a": 1}}"#,
        r#"{"attributes": {"ports": ["a"]}, "source": "Manual Entry"}"#,
    ] {
        let msg = usage_of(body, None);
        assert!(msg.contains("\"ports\""), "{msg}");
        assert!(msg.contains("string values"), "{msg}");
    }
}

/// A top-level `source` is spent on provenance, so a flat one can never reach
/// an attribute.
#[test]
fn a_flat_bodys_source_is_refused_rather_than_demoted() {
    for flag in [None, Some("Manual Entry")] {
        let msg = usage_of(r#"{"name": "web01", "source": "Altiris"}"#, flag);
        assert!(msg.contains("ambiguous"), "{msg}");
        assert!(msg.contains("Altiris"), "{msg}");
        assert!(msg.contains("--source"), "{msg}");
    }
}

#[test]
fn a_non_string_source_in_an_envelope_is_a_usage_error() {
    let msg = usage_of(r#"{"attributes": {"name": "web01"}, "source": 7}"#, None);
    assert!(msg.contains("must be a string"), "{msg}");
}

#[test]
fn enveloped_body_without_source_gets_the_default() {
    assert_eq!(
        envelope(r#"{"attributes": {"name": "web01"}}"#, None).unwrap(),
        doc(r#"{"attributes": {"name": "web01"}, "source": "Manual Entry"}"#).render()
    );
}

/// A string column may be named `attributes`; writing it must not be mistaken
/// for the envelope.
#[test]
fn scalar_attributes_is_a_field_not_an_envelope() {
    assert_eq!(
        envelope(r#"{"attributes": "cpu=8"}"#, None).unwrap(),
        doc(r#"{"attributes": {"attributes": "cpu=8"}, "source": "Manual Entry"}"#).render()
    );
}

#[test]
fn source_in_both_places_is_a_usage_error() {
    let msg = usage_of(
        r#"{"attributes": {"name": "web01"}, "source": "ServiceNow"}"#,
        Some("Manual Entry"),
    );
    assert!(msg.contains("given twice"), "{msg}");
    assert!(
        msg.contains("ServiceNow") && msg.contains("Manual Entry"),
        "{msg}"
    );
}

#[test]
fn a_quoted_name_is_escaped_in_the_message() {
    let msg = usage_of(r#"{"a\"b": {"x": 1}}"#, None);
    assert!(msg.contains(r#""a\"b""#), "{msg}");
}

#[test]
fn a_body_that_is_no_object_is_carried_as_the_attributes() {
    assert_eq!(
        envelope("[1]", None).unwrap(),
        r#"{"attributes":[1],"source":"Manual Entry"}"#
    );
}
