use sn::profile::{normalize_instance, write_order, ProfileChange, ProfileFile};

#[test]
fn short_name_gets_service_now_suffix() {
    assert_eq!(normalize_instance("dev380385"), "dev380385.service-now.com");
}

#[test]
fn fqdn_passes_through() {
    assert_eq!(
        normalize_instance("acme.service-now.com"),
        "acme.service-now.com"
    );
}

#[test]
fn full_url_passes_through() {
    assert_eq!(
        normalize_instance("https://dev380385.service-now.com"),
        "https://dev380385.service-now.com"
    );
}

#[test]
fn http_url_passes_through() {
    assert_eq!(
        normalize_instance("http://localhost:8080"),
        "http://localhost:8080"
    );
}

#[test]
fn trailing_slash_stripped() {
    assert_eq!(
        normalize_instance("dev380385/"),
        "dev380385.service-now.com"
    );
    assert_eq!(
        normalize_instance("https://dev380385.service-now.com/"),
        "https://dev380385.service-now.com"
    );
}

#[test]
fn whitespace_trimmed() {
    assert_eq!(
        normalize_instance("  dev380385 \n"),
        "dev380385.service-now.com"
    );
}

#[test]
fn empty_stays_empty() {
    // Whitespace must not become the bare suffix ".service-now.com".
    assert_eq!(normalize_instance("   "), "");
}

#[test]
fn the_file_that_must_not_be_missed_is_written_in_time() {
    assert_eq!(
        write_order(ProfileChange::Addition),
        (ProfileFile::Credentials, ProfileFile::Config)
    );
    for change in [ProfileChange::Removal, ProfileChange::Undoing] {
        assert_eq!(
            write_order(change),
            (ProfileFile::Config, ProfileFile::Credentials)
        );
    }
}
