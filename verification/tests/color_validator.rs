use anseo_api::color::validate_accent_hex;

#[test]
fn white_fails_contrast() {
    assert!(validate_accent_hex("#FFFFFF").is_err());
}

#[test]
fn black_passes_contrast() {
    assert!(validate_accent_hex("#000000").is_ok());
}

#[test]
fn dark_blue_passes() {
    assert!(validate_accent_hex("#1a5fb4").is_ok());
}

#[test]
fn invalid_format_rejected() {
    assert!(validate_accent_hex("1a5fb4").is_err());
    assert!(validate_accent_hex("#GGGGGG").is_err());
    assert!(validate_accent_hex("#FFF").is_err());
}

#[test]
fn contrast_error_messages_name_the_failure() {
    assert_eq!(validate_accent_hex("#FFF"), Err("color must be in #RRGGBB format"));
    assert_eq!(validate_accent_hex("#GGGGGG"), Err("invalid hex digits"));
    assert_eq!(
        validate_accent_hex("#FFFFFF"),
        Err("accent color must have at least 4.5:1 contrast against white (WCAG AA)")
    );
    // #767676 is the lightest grey that reaches 4.5:1 against white.
    assert!(validate_accent_hex("#767676").is_ok());
    assert!(validate_accent_hex("#777777").is_err());
}

#[test]
fn signs_and_non_ascii_are_not_hex_digits() {
    assert_eq!(validate_accent_hex("#+0+0+0"), Err("invalid hex digits"));
    assert_eq!(validate_accent_hex("#1é234"), Err("invalid hex digits"));
    assert_eq!(validate_accent_hex("#00é00"), Err("invalid hex digits"));
}
