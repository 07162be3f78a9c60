use anseo_api::org_branding::validate_hostname;

#[test]
fn hostname_validation_accepts_valid() {
    assert!(validate_hostname("portal.example.com").is_ok());
    assert!(validate_hostname("sub.domain.co.uk").is_ok());
}

#[test]
fn hostname_validation_rejects_scheme() {
    assert!(validate_hostname("https://portal.example.com").is_err());
}

#[test]
fn hostname_validation_rejects_no_dot() {
    assert!(validate_hostname("localhost").is_err());
}

#[test]
fn hostname_validation_rejects_spaces() {
    assert!(validate_hostname("portal .example.com").is_err());
}
