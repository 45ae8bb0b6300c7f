use whatnull::platform::{
    download_dir_for, is_focus_signal, next_instance_action, socket_path, AutostartManager,
    InstanceAction, InstanceEvent, InstanceStep, XdgPaths,
};
use whatnull::storage::{FileSecretStore, StorageManager};
use whatnull::types::AppError;

#[test]
fn test_xdg_paths_resolve() {
    let resolved = XdgPaths::from_env(Some("/root".to_string()), None, None, None, None);
    assert!(resolved.is_ok());
    let paths = resolved.unwrap();
    assert!(paths.config_dir.contains("whatnull"));
    assert!(paths.data_dir.contains("whatnull"));
    assert!(paths.cache_dir.contains("whatnull"));
    assert!(paths.state_dir.contains("whatnull"));
}

#[test]
fn xdg_paths_fall_back_to_home() {
    let paths = XdgPaths::from_env(
        Some("/home/ana".to_string()),
        Some("/cfg".to_string()),
        None,
        None,
        Some("/state/".to_string()),
    )
    .unwrap();
    assert_eq!(paths.config_dir, "/cfg/whatnull");
    assert_eq!(paths.data_dir, "/home/ana/.local/share/whatnull");
    assert_eq!(paths.cache_dir, "/home/ana/.cache/whatnull");
    assert_eq!(paths.state_dir, "/state/whatnull");
    match XdgPaths::from_env(None, None, None, None, None) {
        Err(AppError::Platform(m)) => assert_eq!(m, "HOME environment variable not set"),
        _ => panic!("expected a platform error"),
    }
}

#[test]
fn storage_dirs_are_per_profile() {
    let paths = XdgPaths::from_env(Some("/home/ana".to_string()), None, None, None, None).unwrap();
    let storage = StorageManager::new(&paths);
    assert_eq!(
        storage.get_profile_data_dir("work"),
        "/home/ana/.local/share/whatnull/profiles/work"
    );
    assert_eq!(storage.get_profile_cache_dir("work"), "/home/ana/.cache/whatnull/profiles/work");
    assert_eq!(FileSecretStore::new("/var/lib/x").path(), "/var/lib/x/secrets.json");
    assert_eq!(FileSecretStore::new("/var/lib/x/").path(), "/var/lib/x/secrets.json");
}

#[test]
fn download_dir_comes_from_user_dirs() {
    let content = "# comment\nXDG_DESKTOP_DIR=\"$HOME/Desktop\"\r\n  XDG_DOWNLOAD_DIR=\"$HOME/İndirilenler\"  \r\n";
    assert_eq!(
        download_dir_for("/home/ana", Some(content.to_string())).as_deref(),
        Some("/home/ana/İndirilenler")
    );
    assert_eq!(
        download_dir_for("/home/ana", Some("XDG_DOWNLOAD_DIR=\"${HOME}/dl\"".to_string())).as_deref(),
        Some("/home/ana/dl")
    );
    assert_eq!(
        download_dir_for("/home/ana", Some("XDG_DOWNLOAD_DIR=a=b\nXDG_DOWNLOAD_DIR=/x".to_string()))
            .as_deref(),
        Some("/x")
    );
    assert_eq!(download_dir_for("/home/ana", None).as_deref(), Some("/home/ana/Downloads"));
    assert_eq!(
        download_dir_for("/home/ana", Some("nothing here".to_string())).as_deref(),
        Some("/home/ana/Downloads")
    );
    assert_eq!(download_dir_for("", Some(content.to_string())), None);
}

#[test]
fn autostart_entry_points_at_the_executable() {
    let manager = AutostartManager::new(Some("/home/ana".to_string())).unwrap();
    assert_eq!(manager.autostart_dir(), "/home/ana/.config/autostart");
    assert_eq!(manager.desktop_file_path(), "/home/ana/.config/autostart/whatnull.desktop");
    let entry = AutostartManager::desktop_entry("/usr/bin/whatnull");
    assert!(entry.starts_with("[Desktop Entry]\nType=Application\n"));
    assert!(entry.contains("Exec=/usr/bin/whatnull --started-at-boot\n"));
    assert!(entry.ends_with("X-GNOME-Autostart-enabled=true\n"));
    assert!(AutostartManager::new(None).is_err());
}

#[test]
fn single_instance_handshake() {
    assert_eq!(socket_path("/run/user/1000", "default"), "/run/user/1000/whatnull-default.sock");
    assert!(is_focus_signal(b"focus"));
    assert!(!is_focus_signal(b"focu"));
    assert!(matches!(
        next_instance_action(InstanceStep::Bind, InstanceEvent::Bound),
        InstanceAction::BecomePrimary
    ));
    assert!(matches!(
        next_instance_action(
            InstanceStep::Bind,
            InstanceEvent::BindFailed { address_in_use: true, message: "in use".to_string() }
        ),
        InstanceAction::ConnectToPrimary
    ));
    assert!(matches!(
        next_instance_action(InstanceStep::Connect, InstanceEvent::Connected),
        InstanceAction::SignalPrimary
    ));
    assert!(matches!(
        next_instance_action(InstanceStep::Connect, InstanceEvent::ConnectFailed),
        InstanceAction::RemoveStaleAndRebind
    ));
    match next_instance_action(
        InstanceStep::Rebind,
        InstanceEvent::BindFailed { address_in_use: false, message: "denied".to_string() },
    ) {
        InstanceAction::Fail(AppError::Platform(m)) => {
            assert_eq!(m, "Failed to bind to socket after removing stale file: denied")
        }
        _ => panic!("expected failure"),
    }
    match next_instance_action(
        InstanceStep::Bind,
        InstanceEvent::BindFailed { address_in_use: false, message: "denied".to_string() },
    ) {
        InstanceAction::Fail(AppError::Platform(m)) => assert_eq!(m, "Failed to bind to socket: denied"),
        _ => panic!("expected failure"),
    }
}
