use whatnull::types::{
    AppError, is_valid_avatar_color, is_valid_display_name, is_valid_profile_id, MAX_DISPLAY_NAME_LEN,
    MAX_PROFILE_ID_LEN,
};

#[test]
fn profile_ids_accept_safe_characters_only() {
    assert!(is_valid_profile_id("default"));
    assert!(is_valid_profile_id("profile-1787774426"));
    assert!(is_valid_profile_id("work_2"));
    assert!(!is_valid_profile_id(""));
    assert!(!is_valid_profile_id("../escape"));
    assert!(!is_valid_profile_id("has space"));
    assert!(!is_valid_profile_id("slash/inside"));
    assert!(!is_valid_profile_id(&"a".repeat(MAX_PROFILE_ID_LEN + 1)));
}

#[test]
fn display_names_are_measured_in_characters_not_bytes() {
    assert!(is_valid_display_name("İş"));
    assert!(is_valid_display_name(&"ğ".repeat(MAX_DISPLAY_NAME_LEN)));
    assert!(!is_valid_display_name(&"ğ".repeat(MAX_DISPLAY_NAME_LEN + 1)));
    assert!(!is_valid_display_name("   "));
    assert!(!is_valid_display_name(""));
}

#[test]
fn avatar_colors_require_hex_rgb() {
    assert!(is_valid_avatar_color("#10b981"));
    assert!(is_valid_avatar_color("#ABCDEF"));
    assert!(!is_valid_avatar_color("10b981"));
    assert!(!is_valid_avatar_color("#10b98"));
    assert!(!is_valid_avatar_color("#10b98g"));
    assert!(!is_valid_avatar_color("red"));
}

#[test]
fn profile_id_length_limit_is_inclusive() {
    assert!(is_valid_profile_id(&"a".repeat(MAX_PROFILE_ID_LEN)));
    assert!(!is_valid_profile_id("naïve"));
}

#[test]
fn display_names_are_trimmed_before_measuring() {
    let padded = format!("  {}\t\n", "x".repeat(MAX_DISPLAY_NAME_LEN));
    assert!(is_valid_display_name(&padded));
    assert!(!is_valid_display_name("\u{3000}\u{2003}"));
    assert!(is_valid_display_name("\u{a0}Ana\u{a0}"));
}

#[test]
fn avatar_colors_reject_non_ascii() {
    assert!(!is_valid_avatar_color("#10b98ü"));
    assert!(!is_valid_avatar_color("#10b9811"));
}

#[test]
fn errors_read_with_their_category() {
    assert_eq!(AppError::Config("bad".to_string()).message(), "Configuration error: bad");
    assert_eq!(AppError::Io("gone".to_string()).message(), "I/O error: gone");
    assert_eq!(AppError::WebView("x".to_string()).message(), "WebView error: x");
    assert_eq!(AppError::Internal(String::new()).message(), "Internal error: ");
}
