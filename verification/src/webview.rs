//! Decisions of the window and webview layer: what a navigation or a new
//! window request leads to, which webview is shown, how the window reacts to
//! focus and close requests, and which media permissions the remote page
//! gets.

use vstd::prelude::*;
use vstd::string::*;
use crate::config::{default_config_view, PermissionsConfig};
use crate::security::NavigationDecision;
use crate::text::{joined, owned};
use crate::types::CloseBehavior;

verus! {

/// The browser identity the remote webview presents.
pub open spec fn whatsapp_user_agent_text() -> Seq<char> {
    "Mozilla/5.0 (X11; Linux x86_64) AppleWebKit/537.36 (KHTML, like Gecko) Chrome/128.0.0.0 Safari/537.36"@
}

/// The user agent string of the remote webview.
pub fn whatsapp_user_agent() -> (r: &'static str)
    ensures
        r@ == whatsapp_user_agent_text(),
{
    "Mozilla/5.0 (X11; Linux x86_64) AppleWebKit/537.36 (KHTML, like Gecko) Chrome/128.0.0.0 Safari/537.36"
}

/// What the webview does with a navigation request.
#[derive(Debug, Clone, Copy, PartialEq, Eq, Structural)]
pub struct NavigationOutcome {
    /// Let the webview itself navigate.
    pub proceed: bool,
    /// Hand the URL to the system browser.
    pub open_externally: bool,
}

/// Allowed navigations proceed in the webview; external ones are handed to
/// the system browser and stopped; rejected ones are stopped.
pub fn handle_navigation(decision: NavigationDecision) -> (r: NavigationOutcome)
    ensures
        r.proceed == (decision == NavigationDecision::Allow),
        r.open_externally == (decision == NavigationDecision::OpenExternally),
{
    match decision {
        NavigationDecision::Allow => NavigationOutcome { proceed: true, open_externally: false },
        NavigationDecision::OpenExternally => NavigationOutcome {
            proceed: false,
            open_externally: true,
        },
        NavigationDecision::Reject => NavigationOutcome { proceed: false, open_externally: false },
    }
}

/// What `serde_json::to_string` gives for the string `s`: its JSON string
/// literal, or `None` on an error.
pub uninterp spec fn json_string_of(s: Seq<char>) -> Option<Seq<char>>;

/// Serializes `s` as a JSON string literal with `serde_json::to_string`.
/// Claims that the outcome is a function of `s`, and that it succeeds:
/// serializing a string writes into memory and never fails.
#[verifier::external_body]
fn json_string(s: &str) -> (r: Option<String>)
    ensures
        r is Some,
        (match r {
            Some(v) => Some(v@),
            None => None,
        }) == json_string_of(s@),
{
    serde_json::to_string(s).ok()
}

/// `value` as a JavaScript string literal: its JSON encoding, or
/// `"about:blank"` should encoding fail.
pub open spec fn js_string_of(value: Seq<char>) -> Seq<char> {
    match json_string_of(value) {
        Some(v) => v,
        None => "\"about:blank\""@,
    }
}

/// Quotes `value` for use in a script.
pub fn js_string(value: &str) -> (r: String)
    ensures
        r@ == js_string_of(value@),
{
    match json_string(value) {
        Some(v) => v,
        None => owned("\"about:blank\""),
    }
}

/// The script that sends the remote webview to `url` when the page asks for
/// a new window on an allowed URL.
pub fn navigate_script(url: &str) -> (r: String)
    ensures
        r@ == "window.location.href = "@ + js_string_of(url@) + ";"@,
{
    let quoted = js_string(url);
    let mut s = joined("window.location.href = ", quoted.as_str());
    s.append(";");
    s
}

/// Which of the two webviews is shown.
#[derive(Debug, Clone, Copy, PartialEq, Eq, Structural)]
pub struct WebviewVisibility {
    pub shell_visible: bool,
    pub whatsapp_visible: bool,
}

/// Exactly one webview is shown: the local shell while an overlay (privacy
/// lock, settings, onboarding, account switcher) is up, WhatsApp otherwise.
pub fn webview_visibility(overlay_visible: bool) -> (r: WebviewVisibility)
    ensures
        r.shell_visible == overlay_visible,
        r.whatsapp_visible == !overlay_visible,
{
    WebviewVisibility { shell_visible: overlay_visible, whatsapp_visible: !overlay_visible }
}

/// The `privacy_blur` event to emit when the window's focus changes: blur
/// when focus is lost and blurring on unfocus is enabled, unblur when focus
/// returns, nothing otherwise.
pub fn focus_blur_event(focused: bool, blur_on_unfocus: bool) -> (r: Option<bool>)
    ensures
        r == if !focused && blur_on_unfocus {
            Some(true)
        } else if focused {
            Some(false)
        } else {
            None::<bool>
        },
{
    if !focused && blur_on_unfocus {
        Some(true)
    } else if focused {
        Some(false)
    } else {
        None
    }
}

/// Whether a close request is turned into hiding the window: it is, unless
/// the configured behavior is to quit.
pub fn hides_on_close(behavior: CloseBehavior) -> (r: bool)
    ensures
        r == (behavior != CloseBehavior::Quit),
{
    match behavior {
        CloseBehavior::HideToTray => true,
        CloseBehavior::Quit => false,
        CloseBehavior::Ask => true,
    }
}

/// A request for camera, microphone or screen capture.
#[derive(Debug, Clone, Copy, PartialEq, Eq, Structural)]
pub struct UserMediaRequest {
    pub is_for_display: bool,
    pub wants_audio: bool,
    pub wants_video: bool,
}

/// Whether a media request is granted: screen capture by the screen-share
/// permission; otherwise it must ask for audio or video, and each device it
/// asks for must be permitted.
pub open spec fn user_media_granted(request: UserMediaRequest, permissions: PermissionsConfig) -> bool {
    if request.is_for_display {
        permissions.screen_share
    } else if !request.wants_audio && !request.wants_video {
        false
    } else {
        (!request.wants_audio || permissions.microphone) && (!request.wants_video
            || permissions.camera)
    }
}

/// Decides a media request under the configured permissions.
pub fn evaluate_user_media(request: UserMediaRequest, permissions: &PermissionsConfig) -> (r: bool)
    ensures
        r == user_media_granted(request, *permissions),
{
    if request.is_for_display {
        return permissions.screen_share;
    }
    let wants_audio = request.wants_audio;
    let wants_video = request.wants_video;
    if !wants_audio && !wants_video {
        return false;
    }
    (!wants_audio || permissions.microphone) && (!wants_video || permissions.camera)
}

/// Decides a permission request from the remote webview. When the
/// configuration cannot be read every permission counts as refused; requests
/// other than media capture are refused.
pub fn decide_permission(permissions: Option<PermissionsConfig>, media: Option<UserMediaRequest>) -> (r: bool)
    ensures
        r == match media {
            None => false,
            Some(m) => match permissions {
                Some(p) => user_media_granted(m, p),
                None => user_media_granted(
                    m,
                    PermissionsConfig { microphone: false, camera: false, screen_share: false },
                ),
            },
        },
{
    let p = match permissions {
        Some(p) => p,
        None => PermissionsConfig { microphone: false, camera: false, screen_share: false },
    };
    match media {
        Some(m) => evaluate_user_media(m, &p),
        None => false,
    }
}

/// Without a readable configuration, no media request is ever granted.
pub proof fn unreadable_config_grants_nothing(media: Option<UserMediaRequest>)
    ensures
        match media {
            None => true,
            Some(m) => !user_media_granted(
                m,
                PermissionsConfig { microphone: false, camera: false, screen_share: false },
            ),
        },
{
}

/// With the default permissions a call gets the microphone and the camera
/// it asks for, and screen sharing is refused.
pub proof fn default_permissions_allow_calls_only(m: UserMediaRequest)
    ensures
        user_media_granted(m, default_config_view().permissions) == (!m.is_for_display && (
        m.wants_audio || m.wants_video)),
{
}

/// How each kind of media request is decided, device by device: screen
/// capture follows the screen-share switch alone; a voice call (audio only)
/// follows the microphone switch alone, whatever the camera setting; a
/// camera-only request follows the camera switch alone; a video call needs
/// both; a request for neither device is refused.
pub proof fn media_requests_need_exactly_their_devices(p: PermissionsConfig, display: bool, audio: bool, video: bool)
    ensures
        display ==> user_media_granted(
            UserMediaRequest { is_for_display: true, wants_audio: audio, wants_video: video },
            p,
        ) == p.screen_share,
        user_media_granted(
            UserMediaRequest { is_for_display: false, wants_audio: true, wants_video: false },
            p,
        ) == p.microphone,
        user_media_granted(
            UserMediaRequest { is_for_display: false, wants_audio: false, wants_video: true },
            p,
        ) == p.camera,
        user_media_granted(
            UserMediaRequest { is_for_display: false, wants_audio: true, wants_video: true },
            p,
        ) == (p.microphone && p.camera),
        !user_media_granted(
            UserMediaRequest { is_for_display: false, wants_audio: false, wants_video: false },
            p,
        ),
{
}

/// Turning a permission on never refuses a request that was granted before.
pub proof fn more_permissions_never_refuse_more(m: UserMediaRequest, p: PermissionsConfig, q: PermissionsConfig)
    requires
        p.microphone ==> q.microphone,
        p.camera ==> q.camera,
        p.screen_share ==> q.screen_share,
    ensures
        user_media_granted(m, p) ==> user_media_granted(m, q),
{
}

} // verus!
