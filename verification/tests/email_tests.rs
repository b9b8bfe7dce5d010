use auth_core::email::is_valid_email;

#[test]
fn accepts_plain_addresses() {
    assert!(is_valid_email("alice@x.com"));
    assert!(is_valid_email("a_b-c.d@mail-host.org"));
    assert!(is_valid_email("1@2.ab"));
    assert!(is_valid_email("a@b.c.de"));
    assert!(is_valid_email("user@sub.domain.info"));
}

#[test]
fn rejects_missing_parts() {
    assert!(!is_valid_email(""));
    assert!(!is_valid_email("alice"));
    assert!(!is_valid_email("alice@"));
    assert!(!is_valid_email("@x.com"));
    assert!(!is_valid_email("alice@x"));
    assert!(!is_valid_email("alice@.com"));
}

#[test]
fn rejects_bad_top_level_labels() {
    assert!(!is_valid_email("a@b.c"));
    assert!(!is_valid_email("a@b.abcde"));
    assert!(!is_valid_email("a@b.c0m"));
    assert!(!is_valid_email("a@b.com."));
}

#[test]
fn rejects_stray_characters() {
    assert!(!is_valid_email("a b@x.com"));
    assert!(!is_valid_email("a@x.com "));
    assert!(!is_valid_email("a@x!y.com"));
    assert!(!is_valid_email("a@@x.com"));
    assert!(!is_valid_email("\u{e1}lice@x.com"));
}
