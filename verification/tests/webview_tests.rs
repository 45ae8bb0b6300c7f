use whatnull::config::PermissionsConfig;
use whatnull::error::AppErrorWrapper;
use whatnull::security::NavigationDecision;
use whatnull::types::{AppError, CloseBehavior};
use whatnull::webview::{
    decide_permission, evaluate_user_media, focus_blur_event, handle_navigation, hides_on_close,
    js_string, navigate_script, webview_visibility, whatsapp_user_agent, UserMediaRequest,
};

fn media(is_for_display: bool, wants_audio: bool, wants_video: bool) -> UserMediaRequest {
    UserMediaRequest { is_for_display, wants_audio, wants_video }
}

#[test]
fn navigation_outcomes() {
    let allow = handle_navigation(NavigationDecision::Allow);
    assert!(allow.proceed && !allow.open_externally);
    let ext = handle_navigation(NavigationDecision::OpenExternally);
    assert!(!ext.proceed && ext.open_externally);
    let reject = handle_navigation(NavigationDecision::Reject);
    assert!(!reject.proceed && !reject.open_externally);
}

#[test]
fn js_string_quotes_and_escapes() {
    assert_eq!(js_string("https://web.whatsapp.com/"), "\"https://web.whatsapp.com/\"");
    assert_eq!(js_string("a\"b"), "\"a\\\"b\"");
    assert_eq!(
        navigate_script("https://web.whatsapp.com/x"),
        "window.location.href = \"https://web.whatsapp.com/x\";"
    );
}

#[test]
fn user_agent_is_a_desktop_chrome() {
    assert!(whatsapp_user_agent().starts_with("Mozilla/5.0 (X11; Linux x86_64)"));
    assert!(whatsapp_user_agent().contains("Chrome/"));
}

#[test]
fn exactly_one_webview_is_visible() {
    let v = webview_visibility(true);
    assert!(v.shell_visible && !v.whatsapp_visible);
    let v = webview_visibility(false);
    assert!(!v.shell_visible && v.whatsapp_visible);
}

#[test]
fn focus_changes_blur_and_unblur() {
    assert_eq!(focus_blur_event(false, true), Some(true));
    assert_eq!(focus_blur_event(false, false), None);
    assert_eq!(focus_blur_event(true, true), Some(false));
    assert_eq!(focus_blur_event(true, false), Some(false));
}

#[test]
fn close_hides_unless_quitting() {
    assert!(hides_on_close(CloseBehavior::HideToTray));
    assert!(hides_on_close(CloseBehavior::Ask));
    assert!(!hides_on_close(CloseBehavior::Quit));
}

#[test]
fn media_permissions_follow_the_configuration() {
    let defaults = PermissionsConfig::default();
    assert!(evaluate_user_media(media(false, true, false), &defaults));
    assert!(evaluate_user_media(media(false, true, true), &defaults));
    assert!(!evaluate_user_media(media(true, false, false), &defaults));
    assert!(!evaluate_user_media(media(false, false, false), &defaults));
    let no_camera = PermissionsConfig { microphone: true, camera: false, screen_share: true };
    assert!(!evaluate_user_media(media(false, true, true), &no_camera));
    assert!(evaluate_user_media(media(true, false, false), &no_camera));
}

#[test]
fn unreadable_configuration_refuses_everything() {
    assert!(!decide_permission(None, Some(media(false, true, false))));
    assert!(!decide_permission(None, Some(media(true, false, false))));
    assert!(!decide_permission(Some(PermissionsConfig::default()), None));
    assert!(decide_permission(Some(PermissionsConfig::default()), Some(media(false, false, true))));
}

#[test]
fn error_wrapper_keeps_the_error() {
    let wrapped = AppErrorWrapper::from(AppError::Io("disk".to_string()));
    match wrapped.0 {
        AppError::Io(m) => assert_eq!(m, "disk"),
        other => panic!("unexpected {:?}", other),
    }
}
