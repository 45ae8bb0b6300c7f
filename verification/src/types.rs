//! Shared enums and records: errors, session states, account profiles,
//! appearance and notification settings, and the rules that account
//! profile fields must follow.

use vstd::prelude::*;
use crate::text::{
    check_token, is_ascii_hexdigit, is_ascii_hexdigit_char, is_token, joined, trim,
    trimmed_char_count,
};

verus! {

/// Error categories reported to the user interface, each with its message.
#[derive(Debug, Clone, PartialEq, Eq)]
pub enum AppError {
    Config(String),
    Storage(String),
    Security(String),
    Navigation(String),
    WebView(String),
    Window(String),
    Platform(String),
    Notification(String),
    Update(String),
    Session(String),
    Account(String),
    Io(String),
    Internal(String),
}

/// How an error reads: its category, a colon and its message.
pub open spec fn app_error_message(e: AppError) -> Seq<char> {
    match e {
        AppError::Config(m) => "Configuration error: "@ + m@,
        AppError::Storage(m) => "Storage error: "@ + m@,
        AppError::Security(m) => "Security error: "@ + m@,
        AppError::Navigation(m) => "Navigation error: "@ + m@,
        AppError::WebView(m) => "WebView error: "@ + m@,
        AppError::Window(m) => "Window error: "@ + m@,
        AppError::Platform(m) => "Platform error: "@ + m@,
        AppError::Notification(m) => "Notification error: "@ + m@,
        AppError::Update(m) => "Update error: "@ + m@,
        AppError::Session(m) => "Session error: "@ + m@,
        AppError::Account(m) => "Account error: "@ + m@,
        AppError::Io(m) => "I/O error: "@ + m@,
        AppError::Internal(m) => "Internal error: "@ + m@,
    }
}

impl AppError {
    /// The error as it is shown to the user.
    pub fn message(&self) -> (r: String)
        ensures
            r@ == app_error_message(*self),
    {
        match self {
            AppError::Config(m) => joined("Configuration error: ", m.as_str()),
            AppError::Storage(m) => joined("Storage error: ", m.as_str()),
            AppError::Security(m) => joined("Security error: ", m.as_str()),
            AppError::Navigation(m) => joined("Navigation error: ", m.as_str()),
            AppError::WebView(m) => joined("WebView error: ", m.as_str()),
            AppError::Window(m) => joined("Window error: ", m.as_str()),
            AppError::Platform(m) => joined("Platform error: ", m.as_str()),
            AppError::Notification(m) => joined("Notification error: ", m.as_str()),
            AppError::Update(m) => joined("Update error: ", m.as_str()),
            AppError::Session(m) => joined("Session error: ", m.as_str()),
            AppError::Account(m) => joined("Account error: ", m.as_str()),
            AppError::Io(m) => joined("I/O error: ", m.as_str()),
            AppError::Internal(m) => joined("Internal error: ", m.as_str()),
        }
    }
}

/// Lifecycle of the WhatsApp Web session.
#[derive(Debug, Clone, Copy, PartialEq, Eq, Structural)]
pub enum SessionState {
    Uninitialized,
    Loading,
    AuthenticationRequired,
    Authenticated,
    Offline,
    Reconnecting,
    Expired,
    Failed,
}

/// One WhatsApp account with its own isolated webview storage.
#[derive(Debug, Clone, PartialEq, Eq)]
pub struct AccountProfile {
    pub id: String,
    pub display_name: String,
    pub storage_partition: String,
    pub avatar_color: String,
    pub created_at: u64,
    pub last_used_at: u64,
}

/// The mathematical value of an `AccountProfile`: its strings as character
/// sequences.
pub struct AccountProfileView {
    pub id: Seq<char>,
    pub display_name: Seq<char>,
    pub storage_partition: Seq<char>,
    pub avatar_color: Seq<char>,
    pub created_at: u64,
    pub last_used_at: u64,
}

impl View for AccountProfile {
    type V = AccountProfileView;

    open spec fn view(&self) -> AccountProfileView {
        AccountProfileView {
            id: self.id@,
            display_name: self.display_name@,
            storage_partition: self.storage_partition@,
            avatar_color: self.avatar_color@,
            created_at: self.created_at,
            last_used_at: self.last_used_at,
        }
    }
}

/// The views of a list of profiles.
pub open spec fn profiles_view(ps: Seq<AccountProfile>) -> Seq<AccountProfileView> {
    ps.map_values(|p: AccountProfile| p@)
}

/// Longest profile id, in bytes.
pub const MAX_PROFILE_ID_LEN: usize = 80;
/// Longest display name, in characters, after trimming.
pub const MAX_DISPLAY_NAME_LEN: usize = 64;

/// A profile id is non-empty, at most `MAX_PROFILE_ID_LEN` long and made of
/// ASCII letters, digits, `-` and `_` only. Such a string is pure ASCII, so
/// its byte length and its character count agree.
pub open spec fn valid_profile_id(s: Seq<char>) -> bool {
    is_token(s, MAX_PROFILE_ID_LEN as nat)
}

/// A display name has between 1 and `MAX_DISPLAY_NAME_LEN` characters once
/// leading and trailing whitespace is trimmed.
pub open spec fn valid_display_name(s: Seq<char>) -> bool {
    0 < trim(s).len() <= MAX_DISPLAY_NAME_LEN
}

/// An avatar color is `#` followed by six hexadecimal digits.
pub open spec fn valid_avatar_color(s: Seq<char>) -> bool {
    &&& s.len() == 7
    &&& s[0] == '#'
    &&& forall|i: int| 1 <= i < 7 ==> is_ascii_hexdigit(#[trigger] s[i])
}

/// Accepts profile ids that are safe to use as directory and socket names.
pub fn is_valid_profile_id(profile_id: &str) -> (r: bool)
    ensures
        r == valid_profile_id(profile_id@),
{
    check_token(profile_id, MAX_PROFILE_ID_LEN)
}

/// Accepts display names that are not blank and not longer than
/// `MAX_DISPLAY_NAME_LEN` characters, counted after trimming.
pub fn is_valid_display_name(name: &str) -> (r: bool)
    ensures
        r == valid_display_name(name@),
{
    let n = trimmed_char_count(name);
    0 < n && n <= MAX_DISPLAY_NAME_LEN
}

/// Accepts hex RGB colors such as `#10b981`.
pub fn is_valid_avatar_color(color: &str) -> (r: bool)
    ensures
        r == valid_avatar_color(color@),
{
    if color.unicode_len() != 7 || color.get_char(0) != '#' {
        return false;
    }
    let mut i: usize = 1;
    while i < 7
        invariant
            color@.len() == 7,
            1 <= i <= 7,
            forall|k: int| 1 <= k < i ==> is_ascii_hexdigit(#[trigger] color@[k]),
        decreases 7 - i,
    {
        if !is_ascii_hexdigit_char(color.get_char(i)) {
            return false;
        }
        i = i + 1;
    }
    true
}

/// What closing the main window does.
#[derive(Debug, Clone, Copy, PartialEq, Eq, Structural)]
pub enum CloseBehavior {
    Quit,
    HideToTray,
    Ask,
}

/// Color scheme of the shell.
#[derive(Debug, Clone, Copy, PartialEq, Eq, Structural)]
pub enum Theme {
    System,
    Dark,
    Light,
}

/// How much of a message a desktop notification may show.
#[derive(Debug, Clone, Copy, PartialEq, Eq, Structural)]
pub enum NotificationPrivacy {
    FullPreview,
    SenderOnly,
    Generic,
    Disabled,
}

/// A notification as the page asked for it.
#[derive(Debug, Clone, PartialEq, Eq)]
pub struct NotificationPayload {
    pub title: String,
    pub body: String,
    pub icon: Option<String>,
    pub tag: Option<String>,
}

/// The mathematical value of a `NotificationPayload`.
pub struct NotificationPayloadView {
    pub title: Seq<char>,
    pub body: Seq<char>,
    pub icon: Option<Seq<char>>,
    pub tag: Option<Seq<char>>,
}

/// The view of an optional string.
pub open spec fn opt_string_view(s: Option<String>) -> Option<Seq<char>> {
    match s {
        Some(v) => Some(v@),
        None => None,
    }
}

impl View for NotificationPayload {
    type V = NotificationPayloadView;

    open spec fn view(&self) -> NotificationPayloadView {
        NotificationPayloadView {
            title: self.title@,
            body: self.body@,
            icon: opt_string_view(self.icon),
            tag: opt_string_view(self.tag),
        }
    }
}

/// Whether the window content is blurred and whether the privacy lock is on.
#[derive(Debug, Clone, Copy, PartialEq, Eq, Structural)]
pub struct PrivacyState {
    pub is_blurred: bool,
    pub is_locked: bool,
}

/// A copy of a profile with the same values.
pub fn copy_profile(p: &AccountProfile) -> (r: AccountProfile)
    ensures
        r@ == p@,
{
    AccountProfile {
        id: p.id.clone(),
        display_name: p.display_name.clone(),
        storage_partition: p.storage_partition.clone(),
        avatar_color: p.avatar_color.clone(),
        created_at: p.created_at,
        last_used_at: p.last_used_at,
    }
}

/// A copy of a string with the same contents.
pub fn copy_string(s: &String) -> (r: String)
    ensures
        r@ == s@,
{
    s.clone()
}

/// A copy of an optional string with the same contents.
pub fn copy_opt_string(s: &Option<String>) -> (r: Option<String>)
    ensures
        opt_string_view(r) == opt_string_view(*s),
{
    match s {
        Some(v) => Some(v.clone()),
        None => None,
    }
}

} // verus!
