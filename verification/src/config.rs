//! Versioned application configuration: its sections, its defaults, the
//! rules a stored configuration must satisfy, the repair applied after
//! loading, and the manager that only ever holds a configuration passing
//! those rules.

use vstd::prelude::*;
use vstd::string::*;
use crate::text::{decimal, trim_start, trim_end, has_prefix, is_token, owned, joined, push_decimal, check_token, same_text};
use crate::types::{
    AccountProfile, AccountProfileView, profiles_view, AppError, CloseBehavior, NotificationPrivacy, Theme, is_valid_avatar_color,
    is_valid_display_name, is_valid_profile_id, valid_avatar_color, valid_display_name,
    valid_profile_id, copy_string, copy_profile,
};

verus! {

/// The only schema version this release reads and writes.
pub const CURRENT_SCHEMA_VERSION: u32 = 1;
/// Smallest zoom level, 0.5, as the bits of an IEEE-754 binary64 value.
pub const MIN_ZOOM_LEVEL_BITS: u64 = 0x3FE0_0000_0000_0000;
/// Largest zoom level, 3.0, as the bits of an IEEE-754 binary64 value.
pub const MAX_ZOOM_LEVEL_BITS: u64 = 0x4008_0000_0000_0000;
/// The default zoom level, 1.0, as the bits of an IEEE-754 binary64 value.
pub const DEFAULT_ZOOM_LEVEL_BITS: u64 = 0x3FF0_0000_0000_0000;
/// Longest privacy lock timeout, in minutes.
pub const MAX_LOCK_TIMEOUT_MINS: u32 = 1440;
/// Longest language tag, in bytes.
pub const MAX_LANGUAGE_LEN: usize = 16;

/// Media permissions answered for the remote webview.
#[derive(Debug, Clone, Copy, PartialEq, Eq, Structural)]
pub struct PermissionsConfig {
    pub microphone: bool,
    pub camera: bool,
    pub screen_share: bool,
}

impl Default for PermissionsConfig {
    /// Calls are allowed, screen sharing is refused.
    fn default() -> (r: Self)
        ensures
            r.microphone && r.camera && !r.screen_share,
    {
        PermissionsConfig { microphone: true, camera: true, screen_share: false }
    }
}

/// General window behavior. The zoom level is carried as the bits of its
/// IEEE-754 binary64 value (`f64::to_bits`).
#[derive(Debug, Clone, PartialEq, Eq)]
pub struct GeneralConfig {
    pub close_behavior: CloseBehavior,
    pub start_minimized: bool,
    pub remember_window_position: bool,
    pub zoom_level_bits: u64,
    pub language: String,
}

#[derive(Debug, Clone, Copy, PartialEq, Eq, Structural)]
pub struct AppearanceConfig {
    pub theme: Theme,
}

#[derive(Debug, Clone, Copy, PartialEq, Eq, Structural)]
pub struct PrivacyConfig {
    pub telemetry: bool,
    pub analytics: bool,
    pub crash_upload: bool,
    pub message_logging: bool,
    pub contact_logging: bool,
    pub privacy_mode_enabled: bool,
    pub blur_on_unfocus: bool,
    pub blur_on_minimize: bool,
    pub lock_timeout_mins: u32,
}

#[derive(Debug, Clone, Copy, PartialEq, Eq, Structural)]
pub struct NotificationsConfig {
    pub enabled: bool,
    pub privacy: NotificationPrivacy,
    pub dnd_enabled: bool,
}

#[derive(Debug, Clone, PartialEq, Eq)]
pub struct DownloadsConfig {
    pub ask_every_time: bool,
    pub default_directory: Option<String>,
}

#[derive(Debug, Clone, Copy, PartialEq, Eq, Structural)]
pub struct StartupConfig {
    pub autostart: bool,
}

/// The account profiles and which one is active.
#[derive(Debug, Clone, PartialEq, Eq)]
pub struct AccountsConfig {
    pub active_profile_id: String,
    pub profiles: Vec<AccountProfile>,
}

#[derive(Debug, Clone, Copy, PartialEq, Eq, Structural)]
pub struct AdvancedConfig {
    pub hardware_acceleration: bool,
    pub enable_dev_tools: bool,
}

/// The whole persisted configuration.
#[derive(Debug, Clone, PartialEq, Eq)]
pub struct AppConfig {
    pub schema_version: u32,
    pub general: GeneralConfig,
    pub appearance: AppearanceConfig,
    pub privacy: PrivacyConfig,
    pub notifications: NotificationsConfig,
    pub downloads: DownloadsConfig,
    pub startup: StartupConfig,
    pub accounts: AccountsConfig,
    pub advanced: AdvancedConfig,
    pub permissions: PermissionsConfig,
}

/// The mathematical value of `GeneralConfig`.
pub struct GeneralView {
    pub close_behavior: CloseBehavior,
    pub start_minimized: bool,
    pub remember_window_position: bool,
    pub zoom_level_bits: u64,
    pub language: Seq<char>,
}

/// The mathematical value of `DownloadsConfig`.
pub struct DownloadsView {
    pub ask_every_time: bool,
    pub default_directory: Option<Seq<char>>,
}

/// The mathematical value of `AccountsConfig`.
pub struct AccountsView {
    pub active_profile_id: Seq<char>,
    pub profiles: Seq<AccountProfileView>,
}

/// The mathematical value of `AppConfig`.
pub struct AppConfigView {
    pub schema_version: u32,
    pub general: GeneralView,
    pub appearance: AppearanceConfig,
    pub privacy: PrivacyConfig,
    pub notifications: NotificationsConfig,
    pub downloads: DownloadsView,
    pub startup: StartupConfig,
    pub accounts: AccountsView,
    pub advanced: AdvancedConfig,
    pub permissions: PermissionsConfig,
}

impl View for GeneralConfig {
    type V = GeneralView;

    open spec fn view(&self) -> GeneralView {
        GeneralView {
            close_behavior: self.close_behavior,
            start_minimized: self.start_minimized,
            remember_window_position: self.remember_window_position,
            zoom_level_bits: self.zoom_level_bits,
            language: self.language@,
        }
    }
}

impl View for DownloadsConfig {
    type V = DownloadsView;

    open spec fn view(&self) -> DownloadsView {
        DownloadsView {
            ask_every_time: self.ask_every_time,
            default_directory: match self.default_directory {
                Some(d) => Some(d@),
                None => None,
            },
        }
    }
}

impl View for AccountsConfig {
    type V = AccountsView;

    open spec fn view(&self) -> AccountsView {
        AccountsView {
            active_profile_id: self.active_profile_id@,
            profiles: profiles_view(self.profiles@),
        }
    }
}

impl View for AppConfig {
    type V = AppConfigView;

    open spec fn view(&self) -> AppConfigView {
        AppConfigView {
            schema_version: self.schema_version,
            general: self.general@,
            appearance: self.appearance,
            privacy: self.privacy,
            notifications: self.notifications,
            downloads: self.downloads@,
            startup: self.startup,
            accounts: self.accounts@,
            advanced: self.advanced,
            permissions: self.permissions,
        }
    }
}

/// The profile every fresh configuration starts with.
pub open spec fn default_profile_view() -> AccountProfileView {
    AccountProfileView {
        id: "default"@,
        display_name: "Primary Account"@,
        storage_partition: "default"@,
        avatar_color: "#10b981"@,
        created_at: 0,
        last_used_at: 0,
    }
}

/// The accounts section of a fresh configuration: one default profile, active.
pub open spec fn default_accounts_view() -> AccountsView {
    AccountsView { active_profile_id: "default"@, profiles: seq![default_profile_view()] }
}

/// Every value of a fresh configuration.
pub open spec fn default_config_view() -> AppConfigView {
    AppConfigView {
        schema_version: 1,
        general: GeneralView {
            close_behavior: CloseBehavior::HideToTray,
            start_minimized: false,
            remember_window_position: true,
            zoom_level_bits: DEFAULT_ZOOM_LEVEL_BITS,
            language: "en"@,
        },
        appearance: AppearanceConfig { theme: Theme::System },
        privacy: PrivacyConfig {
            telemetry: false,
            analytics: false,
            crash_upload: false,
            message_logging: false,
            contact_logging: false,
            privacy_mode_enabled: false,
            blur_on_unfocus: true,
            blur_on_minimize: true,
            lock_timeout_mins: 15,
        },
        notifications: NotificationsConfig {
            enabled: true,
            privacy: NotificationPrivacy::FullPreview,
            dnd_enabled: false,
        },
        downloads: DownloadsView { ask_every_time: true, default_directory: None },
        startup: StartupConfig { autostart: false },
        accounts: default_accounts_view(),
        advanced: AdvancedConfig { hardware_acceleration: true, enable_dev_tools: false },
        permissions: PermissionsConfig { microphone: true, camera: true, screen_share: false },
    }
}

fn default_profile() -> (p: AccountProfile)
    ensures
        p@ == default_profile_view(),
{
    AccountProfile {
        id: owned("default"),
        display_name: owned("Primary Account"),
        storage_partition: owned("default"),
        avatar_color: owned("#10b981"),
        created_at: 0,
        last_used_at: 0,
    }
}

impl Default for AccountsConfig {
    /// A single "Primary Account" profile with id `default`, which is active.
    fn default() -> (r: Self)
        ensures
            r@ == default_accounts_view(),
    {
        let mut profiles = Vec::new();
        profiles.push(default_profile());
        let r = AccountsConfig { active_profile_id: owned("default"), profiles };
        assert(r@.profiles =~= seq![default_profile_view()]);
        r
    }
}

impl Default for AppConfig {
    /// Privacy-preserving defaults: no telemetry, analytics or crash upload,
    /// hide to tray on close, blur when unfocused.
    fn default() -> (r: Self)
        ensures
            r@ == default_config_view(),
    {
        AppConfig {
            schema_version: 1,
            general: GeneralConfig {
                close_behavior: CloseBehavior::HideToTray,
                start_minimized: false,
                remember_window_position: true,
                zoom_level_bits: DEFAULT_ZOOM_LEVEL_BITS,
                language: owned("en"),
            },
            appearance: AppearanceConfig { theme: Theme::System },
            privacy: PrivacyConfig {
                telemetry: false,
                analytics: false,
                crash_upload: false,
                message_logging: false,
                contact_logging: false,
                privacy_mode_enabled: false,
                blur_on_unfocus: true,
                blur_on_minimize: true,
                lock_timeout_mins: 15,
            },
            notifications: NotificationsConfig {
                enabled: true,
                privacy: NotificationPrivacy::FullPreview,
                dnd_enabled: false,
            },
            downloads: DownloadsConfig { ask_every_time: true, default_directory: None },
            startup: StartupConfig { autostart: false },
            accounts: AccountsConfig::default(),
            advanced: AdvancedConfig { hardware_acceleration: true, enable_dev_tools: false },
            permissions: PermissionsConfig::default(),
        }
    }
}

/// Whether the binary64 value with these bits is a finite number in
/// `[0.5, 3.0]`. Positive finite values order like their bits; every NaN,
/// infinity and negative value lies above `MAX_ZOOM_LEVEL_BITS`.
pub open spec fn zoom_in_range(bits: u64) -> bool {
    MIN_ZOOM_LEVEL_BITS <= bits <= MAX_ZOOM_LEVEL_BITS
}

/// A Unix path is absolute when it starts at the root.
pub open spec fn is_absolute_path(p: Seq<char>) -> bool {
    p.len() > 0 && p[0] == '/'
}

/// Whether the Unix path `path` is absolute (`Path::is_absolute`, which on
/// Unix holds exactly for a path that starts with `/`).
fn path_is_absolute(path: &str) -> (r: bool)
    ensures
        r == is_absolute_path(path@),
{
    path.unicode_len() > 0 && path.get_char(0) == '/'
}

/// The message for a display name that breaks the length rule.
pub open spec fn display_name_message() -> Seq<char> {
    "Profile name must be between 1 and 64 characters"@
}

/// The first rule that profile `i` of `ps` breaks, given the profiles before it.
pub open spec fn profile_fault(ps: Seq<AccountProfileView>, i: int) -> Option<Seq<char>> {
    let p = ps[i];
    if !valid_profile_id(p.id) {
        Some("Invalid profile id: "@ + p.id)
    } else if exists|k: int| 0 <= k < i && (#[trigger] ps[k]).id == p.id {
        Some("Duplicate profile id: "@ + p.id)
    } else if !valid_profile_id(p.storage_partition) {
        Some("Invalid storage partition for profile "@ + p.id)
    } else if !valid_display_name(p.display_name) {
        Some(display_name_message())
    } else if !valid_avatar_color(p.avatar_color) {
        Some("Avatar color must be a hex RGB value for profile "@ + p.id)
    } else {
        None
    }
}

/// The first profile fault found scanning from profile `i` onward.
pub open spec fn profiles_fault_from(ps: Seq<AccountProfileView>, i: int) -> Option<Seq<char>>
    decreases ps.len() - i,
{
    if i < 0 || i >= ps.len() {
        None
    } else if profile_fault(ps, i) is Some {
        profile_fault(ps, i)
    } else {
        profiles_fault_from(ps, i + 1)
    }
}

/// Whether some profile of `ps` has the id `id`.
pub open spec fn has_profile(ps: Seq<AccountProfileView>, id: Seq<char>) -> bool {
    exists|k: int| 0 <= k < ps.len() && (#[trigger] ps[k]).id == id
}

/// The message `AppConfig::validate` reports for `c`, checking the rules in
/// order; `None` when every rule holds.
pub open spec fn config_error(c: AppConfigView) -> Option<Seq<char>> {
    let ps = c.accounts.profiles;
    if c.schema_version != CURRENT_SCHEMA_VERSION {
        Some("Unsupported schema version: "@ + decimal(c.schema_version as nat))
    } else if ps.len() == 0 {
        Some("At least one account profile is required"@)
    } else if profiles_fault_from(ps, 0) is Some {
        profiles_fault_from(ps, 0)
    } else if !has_profile(ps, c.accounts.active_profile_id) {
        Some("Active profile does not exist: "@ + c.accounts.active_profile_id)
    } else if !zoom_in_range(c.general.zoom_level_bits) {
        Some("Zoom level must be between 0.5 and 3"@)
    } else if c.privacy.lock_timeout_mins > MAX_LOCK_TIMEOUT_MINS {
        Some("Lock timeout must not exceed 1440 minutes"@)
    } else if !is_token(c.general.language, MAX_LANGUAGE_LEN as nat) {
        Some("Invalid language tag: "@ + c.general.language)
    } else if c.downloads.default_directory is Some && !is_absolute_path(
        c.downloads.default_directory->0,
    ) {
        Some("Download directory must be an absolute path"@)
    } else {
        None
    }
}

/// A configuration that passes every rule of `AppConfig::validate`.
pub open spec fn valid_config(c: AppConfigView) -> bool {
    config_error(c) is None
}

/// Whether `r` is the outcome of validating against `error`: `Ok` exactly
/// when there is no error, otherwise a configuration error with its message.
pub open spec fn is_config_outcome(r: Result<(), AppError>, error: Option<Seq<char>>) -> bool {
    match r {
        Ok(()) => error is None,
        Err(e) => error is Some && (e matches AppError::Config(m) && m@ == error->0),
    }
}

fn config_err(msg: String) -> (r: Result<(), AppError>)
    ensures
        r matches Err(AppError::Config(m)) && m@ == msg@,
{
    Err(AppError::Config(msg))
}

/// Looks for the first earlier profile whose id equals that of profile `i`.
fn has_earlier_id(ps: &Vec<AccountProfile>, i: usize) -> (r: bool)
    requires
        i < ps@.len(),
    ensures
        r == exists|k: int| 0 <= k < i && (#[trigger] profiles_view(ps@)[k]).id == ps@[i as int].id@,
{
    let mut k: usize = 0;
    while k < i
        invariant
            i < ps@.len(),
            k <= i,
            forall|j: int| 0 <= j < k ==> (#[trigger] profiles_view(ps@)[j]).id != ps@[i as int].id@,
        decreases i - k,
    {
        if same_text(ps[k].id.as_str(), ps[i].id.as_str()) {
            assert(profiles_view(ps@)[k as int].id == ps@[i as int].id@);
            return true;
        }
        k = k + 1;
    }
    false
}

/// Checks profile `i` against the profiles before it.
fn check_profile(ps: &Vec<AccountProfile>, i: usize) -> (r: Result<(), AppError>)
    requires
        i < ps@.len(),
    ensures
        is_config_outcome(r, profile_fault(profiles_view(ps@), i as int)),
{
    let p = &ps[i];
    if !is_valid_profile_id(p.id.as_str()) {
        return config_err(joined("Invalid profile id: ", p.id.as_str()));
    }
    if has_earlier_id(ps, i) {
        return config_err(joined("Duplicate profile id: ", p.id.as_str()));
    }
    if !is_valid_profile_id(p.storage_partition.as_str()) {
        return config_err(joined("Invalid storage partition for profile ", p.id.as_str()));
    }
    if !is_valid_display_name(p.display_name.as_str()) {
        return config_err(owned("Profile name must be between 1 and 64 characters"));
    }
    if !is_valid_avatar_color(p.avatar_color.as_str()) {
        return config_err(
            joined("Avatar color must be a hex RGB value for profile ", p.id.as_str()),
        );
    }
    Ok(())
}

/// Whether some profile has the id `id`.
fn find_profile(ps: &Vec<AccountProfile>, id: &str) -> (r: bool)
    ensures
        r == has_profile(profiles_view(ps@), id@),
{
    let mut k: usize = 0;
    while k < ps.len()
        invariant
            k <= ps@.len(),
            forall|j: int| 0 <= j < k ==> (#[trigger] profiles_view(ps@)[j]).id != id@,
        decreases ps@.len() - k,
    {
        if same_text(ps[k].id.as_str(), id) {
            assert(profiles_view(ps@)[k as int].id == id@);
            return true;
        }
        k = k + 1;
    }
    false
}

impl AppConfig {
    /// Checks the configuration rules in order and reports the first one
    /// broken: the schema version, at least one profile, each profile's id,
    /// uniqueness, storage partition, display name and avatar color, the
    /// active profile existing, the zoom range, the lock timeout, the
    /// language tag and an absolute download directory.
    pub fn validate(&self) -> (r: Result<(), AppError>)
        ensures
            is_config_outcome(r, config_error(self@)),
    {
        if self.schema_version != CURRENT_SCHEMA_VERSION {
            let mut m = owned("Unsupported schema version: ");
            push_decimal(&mut m, self.schema_version as u64);
            return config_err(m);
        }
        let ps = &self.accounts.profiles;
        if ps.len() == 0 {
            return config_err(owned("At least one account profile is required"));
        }
        let mut i: usize = 0;
        while i < ps.len()
            invariant
                i <= ps@.len(),
                ps@ == self.accounts.profiles@,
                self.schema_version == CURRENT_SCHEMA_VERSION,
                ps@.len() > 0,
                profiles_fault_from(profiles_view(ps@), 0) == profiles_fault_from(profiles_view(ps@), i as int),
            decreases ps@.len() - i,
        {
            let r = check_profile(ps, i);
            let ghost pv = profiles_view(ps@);
            assert(profile_fault(pv, i as int) is Some ==> profiles_fault_from(pv, i as int)
                == profile_fault(pv, i as int));
            assert(profile_fault(pv, i as int) is None ==> profiles_fault_from(pv, i as int)
                == profiles_fault_from(pv, i + 1));
            if r.is_err() {
                return r;
            }
            i = i + 1;
        }
        assert(profiles_fault_from(profiles_view(ps@), i as int) is None);
        if !find_profile(ps, self.accounts.active_profile_id.as_str()) {
            return config_err(
                joined("Active profile does not exist: ", self.accounts.active_profile_id.as_str()),
            );
        }
        let zoom = self.general.zoom_level_bits;
        if !(MIN_ZOOM_LEVEL_BITS <= zoom && zoom <= MAX_ZOOM_LEVEL_BITS) {
            return config_err(owned("Zoom level must be between 0.5 and 3"));
        }
        if self.privacy.lock_timeout_mins > MAX_LOCK_TIMEOUT_MINS {
            return config_err(owned("Lock timeout must not exceed 1440 minutes"));
        }
        if !check_token(self.general.language.as_str(), MAX_LANGUAGE_LEN) {
            return config_err(joined("Invalid language tag: ", self.general.language.as_str()));
        }
        match &self.downloads.default_directory {
            Some(directory) => {
                if !path_is_absolute(directory.as_str()) {
                    return config_err(owned("Download directory must be an absolute path"));
                }
            },
            None => {},
        }
        Ok(())
    }
}


/// The accounts section after `AppConfig::repair`: an empty profile list is
/// replaced by the default one, and a dangling active id is pointed at the
/// first profile.
pub open spec fn repaired_accounts(a: AccountsView) -> AccountsView {
    let a1 = if a.profiles.len() == 0 { default_accounts_view() } else { a };
    if has_profile(a1.profiles, a1.active_profile_id) {
        a1
    } else {
        AccountsView { active_profile_id: a1.profiles[0].id, profiles: a1.profiles }
    }
}

/// A configuration after `AppConfig::repair`; only its accounts change.
pub open spec fn repaired(c: AppConfigView) -> AppConfigView {
    AppConfigView { accounts: repaired_accounts(c.accounts), ..c }
}

impl AppConfig {
    /// Restores a usable accounts section: the default profile when there is
    /// none, and an active profile that exists.
    pub fn repair(&mut self)
        ensures
            final(self)@ == repaired(old(self)@),
    {
        if self.accounts.profiles.len() == 0 {
            self.accounts = AccountsConfig::default();
        }
        let ghost a1 = self.accounts@;
        if !find_profile(&self.accounts.profiles, self.accounts.active_profile_id.as_str()) {
            let first = copy_string(&self.accounts.profiles[0].id);
            self.accounts.active_profile_id = first;
        }
        proof {
            assert(self@.accounts =~= repaired_accounts(old(self)@.accounts));
        }
    }
}

/// After a repair there is at least one profile and the active profile is
/// one of them.
pub proof fn repair_leaves_an_existing_active_profile(c: AppConfigView)
    ensures
        repaired(c).accounts.profiles.len() > 0,
        has_profile(repaired(c).accounts.profiles, repaired(c).accounts.active_profile_id),
{
    let a = c.accounts;
    let a1 = if a.profiles.len() == 0 { default_accounts_view() } else { a };
    if a.profiles.len() == 0 {
        assert(a1.profiles[0].id == a1.active_profile_id);
    }
    if !has_profile(a1.profiles, a1.active_profile_id) {
        assert(repaired(c).accounts.profiles[0].id == repaired(c).accounts.active_profile_id);
    }
}

/// Repairing twice changes nothing more than repairing once.
pub proof fn repair_is_idempotent(c: AppConfigView)
    ensures
        repaired(repaired(c)) == repaired(c),
{
    repair_leaves_an_existing_active_profile(c);
}

/// A configuration that passes validation is left as it is by a repair.
pub proof fn repair_keeps_valid_configs(c: AppConfigView)
    requires
        valid_config(c),
    ensures
        repaired(c) == c,
{
}

/// What the manager holds loads back unchanged: a configuration that passes
/// validation, stored with schema version 1, is neither changed by the repair
/// that loading applies nor refused by the validation after it.
pub proof fn held_config_loads_back(c: AppConfigView)
    requires
        valid_config(c),
    ensures
        repaired(c) == c,
        config_error(repaired(c)) is None,
        stored_version(Some(c.schema_version as u64)) == 1,
{
    repair_keeps_valid_configs(c);
}

/// Deleting a profile other than the active one keeps the active profile:
/// a configuration whose active profile exists still has it afterwards.
pub proof fn deleting_keeps_the_active_profile(a: AccountsView, profile_id: Seq<char>)
    requires
        has_profile(a.profiles, a.active_profile_id),
        profile_id != a.active_profile_id,
    ensures
        has_profile(
            a.profiles.filter(|p: AccountProfileView| p.id != profile_id),
            a.active_profile_id,
        ),
{
    let keep = |p: AccountProfileView| p.id != profile_id;
    let k = choose|k: int| 0 <= k < a.profiles.len() && (#[trigger] a.profiles[k]).id
        == a.active_profile_id;
    a.profiles.lemma_filter_contains(keep, k);
    let f = a.profiles.filter(keep);
    let j = choose|j: int| 0 <= j < f.len() && f[j] == a.profiles[k];
    assert(f[j].id == a.active_profile_id);
}

/// The configuration with its lock timeout set to `t` minutes.
pub open spec fn with_lock_timeout(c: AppConfigView, t: u32) -> AppConfigView {
    AppConfigView { privacy: PrivacyConfig { lock_timeout_mins: t, ..c.privacy }, ..c }
}

/// The lock timeout may be anything up to a day: a configuration that passes
/// validation still passes with any lock timeout of at most 1440 minutes,
/// and with a longer one it is refused for exactly that reason.
pub proof fn lock_timeouts_up_to_a_day_are_accepted(c: AppConfigView, t: u32)
    requires
        valid_config(c),
    ensures
        t <= 1440 ==> valid_config(with_lock_timeout(c, t)),
        t > 1440 ==> config_error(with_lock_timeout(c, t)) == Some(
            "Lock timeout must not exceed 1440 minutes"@,
        ),
{
}

/// The configuration with its zoom level set to the binary64 value with
/// bits `z`.
pub open spec fn with_zoom_bits(c: AppConfigView, z: u64) -> AppConfigView {
    AppConfigView { general: GeneralView { zoom_level_bits: z, ..c.general }, ..c }
}

/// The configuration with its download directory set to `d`.
pub open spec fn with_download_directory(c: AppConfigView, d: Option<Seq<char>>) -> AppConfigView {
    AppConfigView { downloads: DownloadsView { default_directory: d, ..c.downloads }, ..c }
}

/// The zoom level may be any finite value from 0.5 to 3.0: a configuration
/// that passes validation still passes with a zoom whose bits lie between
/// those of 0.5 (0x3FE0000000000000) and 3.0 (0x4008000000000000), and with
/// any other value (smaller, larger, negative, infinite or NaN) it is
/// refused for its zoom.
pub proof fn zoom_from_half_to_triple_is_accepted(c: AppConfigView, z: u64)
    requires
        valid_config(c),
    ensures
        0x3FE0_0000_0000_0000 <= z <= 0x4008_0000_0000_0000 ==> valid_config(with_zoom_bits(c, z)),
        !(0x3FE0_0000_0000_0000 <= z <= 0x4008_0000_0000_0000) ==> config_error(
            with_zoom_bits(c, z),
        ) == Some("Zoom level must be between 0.5 and 3"@),
{
}

/// The download directory may be left unset or be any absolute path (one
/// that starts with `/`); a relative one is refused.
pub proof fn download_directory_must_be_absolute(c: AppConfigView, d: Seq<char>)
    requires
        valid_config(c),
    ensures
        valid_config(with_download_directory(c, None)),
        d.len() > 0 && d[0] == '/' ==> valid_config(with_download_directory(c, Some(d))),
        !(d.len() > 0 && d[0] == '/') ==> config_error(with_download_directory(c, Some(d)))
            == Some("Download directory must be an absolute path"@),
{
}

proof fn lemma_default_profile_valid()
    ensures
        valid_profile_id("default"@),
        valid_display_name("Primary Account"@),
        valid_avatar_color("#10b981"@),
        is_token("en"@, MAX_LANGUAGE_LEN as nat),
{
    reveal_strlit("default");
    reveal_strlit("Primary Account");
    reveal_strlit("#10b981");
    reveal_strlit("en");
    let name = "Primary Account"@;
    assert(trim_start(name) == name);
    assert(trim_end(name) == name);
}

/// The default configuration passes validation.
pub proof fn default_config_is_valid()
    ensures
        valid_config(default_config_view()),
{
    lemma_default_profile_valid();
    let c = default_config_view();
    let ps = c.accounts.profiles;
    assert(profile_fault(ps, 0) is None);
    assert(profiles_fault_from(ps, 1) is None);
    assert(profiles_fault_from(ps, 0) is None);
    assert(ps[0].id == c.accounts.active_profile_id);
    assert(has_profile(ps, c.accounts.active_profile_id));
}

/// What was found where the configuration is stored.
pub enum StoredConfig {
    /// No configuration file exists yet.
    Missing,
    /// A configuration file exists: the `schema_version` number read from
    /// its JSON (when present and a non-negative integer), and the outcome of
    /// decoding the JSON as an `AppConfig`, with the decoder's message on
    /// failure.
    Found { schema_version: Option<u64>, decoded: Result<AppConfig, String> },
}

/// The schema version `ConfigManager::load` compares: a missing number counts
/// as 0, and the number is truncated to 32 bits.
pub open spec fn stored_version(v: Option<u64>) -> u32 {
    (match v {
        Some(x) => x,
        None => 0,
    }) as u32
}

/// Holds the active configuration and where it is stored. The configuration
/// it holds always passes `AppConfig::validate`.
pub struct ConfigManager {
    config_path: String,
    current_config: AppConfig,
}

impl ConfigManager {
    #[verifier::type_invariant]
    spec fn holds_valid_config(self) -> bool {
        valid_config(self.current_config@)
    }

    /// The configuration held.
    pub closed spec fn config(self) -> AppConfigView {
        self.current_config@
    }

    /// Where the configuration is stored.
    pub closed spec fn path(self) -> Seq<char> {
        self.config_path@
    }

    /// Builds the manager from what is stored at `config_path`. With nothing
    /// stored the defaults are used (and are to be written out). A stored
    /// configuration must declare schema version 1 and decode; it is then
    /// repaired and must pass validation.
    pub fn load(config_path: String, stored: StoredConfig) -> (r: Result<ConfigManager, AppError>)
        ensures
            match stored {
                StoredConfig::Missing => r matches Ok(m) && m.config() == default_config_view()
                    && m.path() == config_path@,
                StoredConfig::Found { schema_version, decoded } => {
                    let v = stored_version(schema_version);
                    if v < 1 {
                        r matches Err(AppError::Config(e)) && e@
                            == "Unsupported config schema version"@
                    } else if v > 1 {
                        r matches Err(AppError::Config(e)) && e@
                            == "Config schema version is from a newer app version"@
                    } else {
                        match decoded {
                            Err(d) => r matches Err(AppError::Config(e)) && e@
                                == "Invalid config structure: "@ + d@,
                            Ok(c) => match config_error(repaired(c@)) {
                                Some(msg) => r matches Err(AppError::Config(e)) && e@ == msg,
                                None => r matches Ok(m) && m.config() == repaired(c@) && m.path()
                                    == config_path@,
                            },
                        }
                    }
                },
            },
    {
        match stored {
            StoredConfig::Missing => {
                proof {
                    default_config_is_valid();
                }
                Ok(ConfigManager { config_path, current_config: AppConfig::default() })
            },
            StoredConfig::Found { schema_version, decoded } => {
                let raw: u64 = match schema_version {
                    Some(x) => x,
                    None => 0,
                };
                let v: u32 = #[verifier::truncate] (raw as u32);
                if v < 1 {
                    return Err(AppError::Config(owned("Unsupported config schema version")));
                } else if v > 1 {
                    return Err(
                        AppError::Config(owned("Config schema version is from a newer app version")),
                    );
                }
                match decoded {
                    Err(d) => Err(AppError::Config(joined("Invalid config structure: ", d.as_str()))),
                    Ok(c) => {
                        let mut config = c;
                        config.repair();
                        match config.validate() {
                            Err(e) => Err(e),
                            Ok(()) => Ok(ConfigManager { config_path, current_config: config }),
                        }
                    },
                }
            },
        }
    }

    /// The configuration held, which always passes validation.
    pub fn get(&self) -> (r: &AppConfig)
        ensures
            r@ == self.config(),
            valid_config(r@),
    {
        proof {
            use_type_invariant(self);
        }
        &self.current_config
    }

    /// Where the configuration is stored.
    pub fn config_path(&self) -> (r: &str)
        ensures
            r@ == self.path(),
    {
        self.config_path.as_str()
    }

    /// Replaces the configuration with `new_config` when it passes
    /// validation; otherwise reports why and keeps the current one. After an
    /// `Ok` the new configuration is to be saved.
    pub fn update(&mut self, new_config: AppConfig) -> (r: Result<(), AppError>)
        ensures
            is_config_outcome(r, config_error(new_config@)),
            r is Ok ==> final(self).config() == new_config@,
            r is Err ==> final(self).config() == old(self).config(),
            final(self).path() == old(self).path(),
    {
        match new_config.validate() {
            Err(e) => Err(e),
            Ok(()) => {
                self.current_config = new_config;
                Ok(())
            },
        }
    }
}


impl AccountsConfig {
    /// Appends a profile to the list.
    pub fn add_profile(&mut self, profile: AccountProfile)
        ensures
            final(self)@.profiles == old(self)@.profiles.push(profile@),
            final(self)@.active_profile_id == old(self)@.active_profile_id,
    {
        self.profiles.push(profile);
        proof {
            assert(self@.profiles =~= old(self)@.profiles.push(profile@));
        }
    }

    /// Removes every profile whose id is `profile_id`, keeping the others in
    /// order.
    pub fn remove_profile(&mut self, profile_id: &str)
        ensures
            final(self)@.profiles == old(self)@.profiles.filter(
                |p: AccountProfileView| p.id != profile_id@,
            ),
            !has_profile(final(self)@.profiles, profile_id@),
            final(self)@.active_profile_id == old(self)@.active_profile_id,
    {
        let ghost keep = |p: AccountProfileView| p.id != profile_id@;
        let ghost old_ps = self@.profiles;
        let mut kept: Vec<AccountProfile> = Vec::new();
        let mut i: usize = 0;
        while i < self.profiles.len()
            invariant
                i <= self.profiles@.len(),
                profiles_view(self.profiles@) == old_ps,
                profiles_view(kept@) == old_ps.take(i as int).filter(keep),
                keep == (|p: AccountProfileView| p.id != profile_id@),
            decreases self.profiles@.len() - i,
        {
            let ghost t = old_ps.take(i + 1);
            assert(t.drop_last() =~= old_ps.take(i as int));
            assert(t.last() == old_ps[i as int]);
            assert(t.filter(keep) == if keep(t.last()) {
                t.drop_last().filter(keep).push(t.last())
            } else {
                t.drop_last().filter(keep)
            }) by {
                reveal_with_fuel(Seq::<_>::filter, 1);
            }
            assert(old_ps[i as int] == self.profiles@[i as int]@);
            let ghost before = profiles_view(kept@);
            if !same_text(self.profiles[i].id.as_str(), profile_id) {
                let p = copy_profile(&self.profiles[i]);
                kept.push(p);
                assert(profiles_view(kept@) =~= before.push(p@));
            }
            assert(profiles_view(kept@) == t.filter(keep));
            i = i + 1;
        }
        assert(old_ps.take(i as int) =~= old_ps);
        self.profiles = kept;
        proof {
            assert forall|k: int| 0 <= k < self@.profiles.len() implies (#[trigger] self@.profiles[k]).id
                != profile_id@ by {
                old_ps.lemma_filter_pred(keep, k);
            }
        }
    }

    /// Deletes the profile `profile_id`. The active profile cannot be
    /// deleted: that is refused with "Cannot delete the active profile" and
    /// nothing changes.
    pub fn delete_profile(&mut self, profile_id: &str) -> (r: Result<(), AppError>)
        ensures
            r is Err <==> profile_id@ == old(self)@.active_profile_id,
            r matches Err(e) ==> e matches AppError::Account(m) && m@
                == "Cannot delete the active profile"@,
            r is Err ==> final(self)@ == old(self)@,
            r is Ok ==> final(self)@.profiles == old(self)@.profiles.filter(
                |p: AccountProfileView| p.id != profile_id@,
            ),
            final(self)@.active_profile_id == old(self)@.active_profile_id,
    {
        if same_text(self.active_profile_id.as_str(), profile_id) {
            return Err(AppError::Account(owned("Cannot delete the active profile")));
        }
        self.remove_profile(profile_id);
        Ok(())
    }

    /// Makes `profile_id` the active profile.
    pub fn set_active(&mut self, profile_id: String)
        ensures
            final(self)@.active_profile_id == profile_id@,
            final(self)@.profiles == old(self)@.profiles,
    {
        self.active_profile_id = profile_id;
    }
}

/// A new profile created at time `now` (seconds since the Unix epoch): its
/// id and storage partition are `profile-` followed by `now` in decimal.
pub fn new_account_profile(now: u64, display_name: String, avatar_color: String) -> (r: AccountProfile)
    ensures
        r@.id == "profile-"@ + decimal(now as nat),
        r@.storage_partition == r@.id,
        r@.display_name == display_name@,
        r@.avatar_color == avatar_color@,
        r.created_at == now,
        r.last_used_at == now,
{
    let mut id = owned("profile-");
    push_decimal(&mut id, now);
    let partition = copy_string(&id);
    AccountProfile {
        id,
        display_name,
        storage_partition: partition,
        avatar_color,
        created_at: now,
        last_used_at: now,
    }
}

} // verus!
