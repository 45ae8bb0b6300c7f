//! Privacy filtering of desktop notifications.

use vstd::prelude::*;
use crate::config::NotificationsConfig;
use crate::text::owned;
use crate::types::{
    NotificationPayload, NotificationPayloadView, NotificationPrivacy, copy_opt_string, copy_string,
};

verus! {

/// Decides what a notification may show under the user's settings.
pub struct NotificationFilter;

/// What `NotificationFilter::process` shows of `p` under `config`: nothing
/// when notifications are off, do-not-disturb is on or the privacy level is
/// `Disabled`; everything for `FullPreview`; the sender with a generic body
/// for `SenderOnly`; a generic title and body for `Generic`. Icon and tag are
/// always kept.
pub open spec fn filtered_notification(
    p: NotificationPayloadView,
    config: NotificationsConfig,
) -> Option<NotificationPayloadView> {
    if !config.enabled || config.dnd_enabled {
        None
    } else {
        match config.privacy {
            NotificationPrivacy::Disabled => None,
            NotificationPrivacy::FullPreview => Some(p),
            NotificationPrivacy::SenderOnly => Some(
                NotificationPayloadView { title: p.title, body: "New message"@, icon: p.icon, tag: p.tag },
            ),
            NotificationPrivacy::Generic => Some(
                NotificationPayloadView {
                    title: "WhatNull"@,
                    body: "New message"@,
                    icon: p.icon,
                    tag: p.tag,
                },
            ),
        }
    }
}

/// The view of an optional notification.
pub open spec fn opt_payload_view(p: Option<NotificationPayload>) -> Option<NotificationPayloadView> {
    match p {
        Some(v) => Some(v@),
        None => None,
    }
}

impl NotificationFilter {
    /// The notification to show for `payload`, or `None` when none may be shown.
    pub fn process(payload: &NotificationPayload, config: &NotificationsConfig) -> (r: Option<
        NotificationPayload,
    >)
        ensures
            opt_payload_view(r) == filtered_notification(payload@, *config),
    {
        if !config.enabled || config.dnd_enabled {
            return None;
        }
        match config.privacy {
            NotificationPrivacy::Disabled => None,
            NotificationPrivacy::FullPreview => Some(
                NotificationPayload {
                    title: copy_string(&payload.title),
                    body: copy_string(&payload.body),
                    icon: copy_opt_string(&payload.icon),
                    tag: copy_opt_string(&payload.tag),
                },
            ),
            NotificationPrivacy::SenderOnly => Some(
                NotificationPayload {
                    title: copy_string(&payload.title),
                    body: owned("New message"),
                    icon: copy_opt_string(&payload.icon),
                    tag: copy_opt_string(&payload.tag),
                },
            ),
            NotificationPrivacy::Generic => Some(
                NotificationPayload {
                    title: owned("WhatNull"),
                    body: owned("New message"),
                    icon: copy_opt_string(&payload.icon),
                    tag: copy_opt_string(&payload.tag),
                },
            ),
        }
    }
}

/// A notification that is shown at all keeps its icon and tag, and shows no
/// more than the page asked for: its body is either the original body or the
/// generic "New message".
pub proof fn shown_notifications_reveal_no_more(p: NotificationPayloadView, config: NotificationsConfig)
    ensures
        filtered_notification(p, config) matches Some(q) ==> {
            &&& q.icon == p.icon
            &&& q.tag == p.tag
            &&& (q.body == p.body || q.body == "New message"@)
            &&& (config.privacy != NotificationPrivacy::FullPreview ==> q.body == "New message"@)
        },
        filtered_notification(p, config) is Some ==> config.enabled && !config.dnd_enabled
            && config.privacy != NotificationPrivacy::Disabled,
{
}

/// What each privacy level shows of an enabled notification outside
/// do-not-disturb: `FullPreview` shows it as it came; `SenderOnly` keeps the
/// sender (the title) and replaces the body with "New message"; `Generic`
/// shows only "WhatNull" and "New message"; `Disabled` shows nothing. With
/// notifications off or do-not-disturb on nothing is shown at any level.
pub proof fn each_privacy_level_shows_what_it_promises(p: NotificationPayloadView, config: NotificationsConfig)
    ensures
        !config.enabled || config.dnd_enabled ==> filtered_notification(p, config) is None,
        config.enabled && !config.dnd_enabled ==> match config.privacy {
            NotificationPrivacy::FullPreview => filtered_notification(p, config) == Some(p),
            NotificationPrivacy::SenderOnly => filtered_notification(p, config) matches Some(q)
                && q.title == p.title && q.body == "New message"@ && q.icon == p.icon && q.tag == p.tag,
            NotificationPrivacy::Generic => filtered_notification(p, config) matches Some(q)
                && q.title == "WhatNull"@ && q.body == "New message"@ && q.icon == p.icon && q.tag
                == p.tag,
            NotificationPrivacy::Disabled => filtered_notification(p, config) is None,
        },
{
}

} // verus!
