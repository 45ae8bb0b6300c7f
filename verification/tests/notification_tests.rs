use whatnull::config::NotificationsConfig;
use whatnull::notification::NotificationFilter;
use whatnull::types::{NotificationPayload, NotificationPrivacy};

fn sample_payload() -> NotificationPayload {
    NotificationPayload {
        title: "Alice".to_string(),
        body: "Meeting tomorrow at 10 AM".to_string(),
        icon: None,
        tag: Some("chat-123".to_string()),
    }
}

#[test]
fn test_full_preview() {
    let config = NotificationsConfig {
        enabled: true,
        privacy: NotificationPrivacy::FullPreview,
        dnd_enabled: false,
    };
    let result = NotificationFilter::process(&sample_payload(), &config);
    assert!(result.is_some());
    let p = result.unwrap();
    assert_eq!(p.title, "Alice");
    assert_eq!(p.body, "Meeting tomorrow at 10 AM");
}

#[test]
fn test_sender_only() {
    let config = NotificationsConfig {
        enabled: true,
        privacy: NotificationPrivacy::SenderOnly,
        dnd_enabled: false,
    };
    let result = NotificationFilter::process(&sample_payload(), &config);
    assert!(result.is_some());
    let p = result.unwrap();
    assert_eq!(p.title, "Alice");
    assert_eq!(p.body, "New message");
}

#[test]
fn test_generic() {
    let config = NotificationsConfig {
        enabled: true,
        privacy: NotificationPrivacy::Generic,
        dnd_enabled: false,
    };
    let result = NotificationFilter::process(&sample_payload(), &config);
    assert!(result.is_some());
    let p = result.unwrap();
    assert_eq!(p.title, "WhatNull");
    assert_eq!(p.body, "New message");
}

#[test]
fn test_disabled_or_dnd() {
    let config_disabled = NotificationsConfig {
        enabled: false,
        privacy: NotificationPrivacy::FullPreview,
        dnd_enabled: false,
    };
    assert!(NotificationFilter::process(&sample_payload(), &config_disabled).is_none());

    let config_dnd = NotificationsConfig {
        enabled: true,
        privacy: NotificationPrivacy::FullPreview,
        dnd_enabled: true,
    };
    assert!(NotificationFilter::process(&sample_payload(), &config_dnd).is_none());

    let config_priv_disabled = NotificationsConfig {
        enabled: true,
        privacy: NotificationPrivacy::Disabled,
        dnd_enabled: false,
    };
    assert!(NotificationFilter::process(&sample_payload(), &config_priv_disabled).is_none());
}

#[test]
fn filtered_notifications_keep_icon_and_tag() {
    let payload = NotificationPayload {
        title: "Bob".to_string(),
        body: "secret".to_string(),
        icon: Some("avatar.png".to_string()),
        tag: Some("chat-9".to_string()),
    };
    let config = NotificationsConfig {
        enabled: true,
        privacy: NotificationPrivacy::Generic,
        dnd_enabled: false,
    };
    let p = NotificationFilter::process(&payload, &config).unwrap();
    assert_eq!(p.icon.as_deref(), Some("avatar.png"));
    assert_eq!(p.tag.as_deref(), Some("chat-9"));
    assert_ne!(p.body, "secret");
}
