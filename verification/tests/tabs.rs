use sshs::host::Host;
use sshs::tabs::{Session, SessionStatus, TabManager, MAX_SESSIONS};

fn create_test_host(name: &str) -> Host {
    Host {
        name: name.to_string(),
        destination: format!("{name}.com"),
        user: Some("root".to_string()),
        port: Some("22".to_string()),
        aliases: String::new(),
        proxy_command: None,
    }
}

#[test]
fn test_new_tab_manager_is_empty() {
    let manager = TabManager::new();
    assert!(!manager.has_sessions());
    assert_eq!(manager.session_count(), 0);
    assert!(manager.current_session().is_none());
}

#[test]
fn test_add_first_session() {
    let mut manager = TabManager::new();
    let host = create_test_host("prod-web");

    let session_id = manager.add_session(host).unwrap();

    assert_eq!(session_id, 1);
    assert!(manager.has_sessions());
    assert_eq!(manager.session_count(), 1);
    assert_eq!(manager.current_session_index(), 0);

    let current = manager.current_session().unwrap();
    assert_eq!(current.id, 1);
    assert_eq!(current.host.name, "prod-web");
}

#[test]
fn test_add_multiple_sessions() {
    let mut manager = TabManager::new();

    let _id1 = manager.add_session(create_test_host("host1")).unwrap();
    let _id2 = manager.add_session(create_test_host("host2")).unwrap();
    let id3 = manager.add_session(create_test_host("host3")).unwrap();

    assert_eq!(manager.session_count(), 3);
    assert_eq!(id3, 3);
    assert_eq!(manager.current_session_index(), 2);

    let current = manager.current_session().unwrap();
    assert_eq!(current.host.name, "host3");
}

#[test]
fn test_maximum_sessions_limit() {
    let mut manager = TabManager::new();

    for i in 1..=MAX_SESSIONS {
        let host = create_test_host(&format!("host{i}"));
        manager.add_session(host).unwrap();
    }

    assert_eq!(manager.session_count(), MAX_SESSIONS);

    let result = manager.add_session(create_test_host("extra"));
    assert!(result.is_err());
    assert_eq!(manager.session_count(), MAX_SESSIONS);
}

#[test]
fn test_switch_to_session_valid_indices() {
    let mut manager = TabManager::new();

    manager.add_session(create_test_host("host1")).unwrap();
    manager.add_session(create_test_host("host2")).unwrap();
    manager.add_session(create_test_host("host3")).unwrap();

    assert_eq!(manager.current_session_index(), 2);

    assert!(manager.switch_to_session(1));
    assert_eq!(manager.current_session_index(), 0);
    assert_eq!(manager.current_session().unwrap().host.name, "host1");

    assert!(manager.switch_to_session(2));
    assert_eq!(manager.current_session_index(), 1);
    assert_eq!(manager.current_session().unwrap().host.name, "host2");
}

#[test]
fn test_switch_to_session_invalid_indices() {
    let mut manager = TabManager::new();
    manager.add_session(create_test_host("host1")).unwrap();

    assert!(!manager.switch_to_session(0));
    assert!(!manager.switch_to_session(2));
    assert!(!manager.switch_to_session(99));

    assert_eq!(manager.current_session_index(), 0);
}

#[test]
fn test_session_tab_display_name() {
    let host = create_test_host("prod-web");
    let session = Session::new(1, host);

    assert_eq!(session.tab_display_name(), "[1:prod-web]");
}

#[test]
fn test_tab_bar_display_single_session() {
    let mut manager = TabManager::new();
    manager.add_session(create_test_host("prod-web")).unwrap();

    let display = manager.tab_bar_display();
    assert_eq!(display, "▶[1:prod-web]");
}

#[test]
fn test_tab_bar_display_multiple_sessions() {
    let mut manager = TabManager::new();
    manager.add_session(create_test_host("host1")).unwrap();
    manager.add_session(create_test_host("host2")).unwrap();
    manager.add_session(create_test_host("host3")).unwrap();

    let display = manager.tab_bar_display();
    assert_eq!(display, "[1:host1][2:host2]▶[3:host3]");

    manager.switch_to_session(1);
    let display = manager.tab_bar_display();
    assert_eq!(display, "▶[1:host1][2:host2][3:host3]");
}

#[test]
fn test_tab_bar_display_empty() {
    let manager = TabManager::new();
    assert_eq!(manager.tab_bar_display(), "");
}

#[test]
fn test_create_many_sessions() {
    let mut manager = TabManager::new();

    for i in 1..=10 {
        let host = create_test_host(&format!("host{i}"));
        let session_id = manager.add_session(host).unwrap();
        assert_eq!(session_id, i);
    }

    assert_eq!(manager.session_count(), 10);
    assert_eq!(manager.current_session_index(), 9);

    for i in 1..=10 {
        assert!(manager.switch_to_session(i));
        assert_eq!(manager.current_session_index(), i - 1);
        let current = manager.current_session().unwrap();
        assert_eq!(current.host.name, format!("host{i}"));
    }
}

#[test]
fn test_reasonable_session_limit() {
    let mut manager = TabManager::new();

    for i in 1..=20 {
        let host = create_test_host(&format!("host{i}"));
        manager.add_session(host).unwrap();
    }

    assert_eq!(manager.session_count(), 20);

    let result = manager.add_session(create_test_host("extra"));
    assert!(result.is_err());
    assert_eq!(manager.session_count(), 20);
}

#[test]
fn test_tab_bar_display_overflow() {
    let mut manager = TabManager::new();

    for i in 1..=15 {
        let host = create_test_host(&format!("host{i}"));
        manager.add_session(host).unwrap();
    }

    let display = manager.tab_bar_display();

    for i in 1..=15 {
        assert!(
            display.contains(&format!("[{i}:host{i}]")),
            "Display should contain tab {i}: {display}"
        );
    }

    assert!(
        display.contains("▶[15:host15]"),
        "Should highlight current tab: {display}"
    );
}

#[test]
fn test_session_is_connected_initially_false() {
    let host = create_test_host("test");
    let session = Session::new(1, host);
    assert!(!session.is_connected());
}

#[test]
fn test_activity_indicators_basic() {
    let host = create_test_host("test");
    let mut session = Session::new(1, host);

    assert_eq!(session.tab_display_name(), "[1:test]");
    assert_eq!(session.status, SessionStatus::Connecting);

    session.mark_new_output();
    assert_eq!(session.tab_display_name(), "[1:test*]");
    assert!(session.activity.has_new_output);

    session.mark_error();
    assert_eq!(session.tab_display_name(), "[1:test*!]");
    assert!(session.activity.has_error);
    assert_eq!(session.status, SessionStatus::Disconnected);

    session.mark_background_activity();
    assert_eq!(session.tab_display_name(), "[1:test*!@]");
    assert!(session.activity.has_background_activity);
}

#[test]
fn test_clear_activity_indicators() {
    let host = create_test_host("test");
    let mut session = Session::new(1, host);

    session.mark_new_output();
    session.mark_error();
    session.mark_background_activity();
    assert_eq!(session.tab_display_name(), "[1:test*!@]");

    session.clear_activity_indicators();
    assert_eq!(session.tab_display_name(), "[1:test!@]");
    assert!(!session.activity.has_new_output);
    assert!(session.activity.has_error);
    assert!(session.activity.has_background_activity);

    session.clear_error();
    assert_eq!(session.tab_display_name(), "[1:test@]");
    assert!(!session.activity.has_error);
}

#[test]
fn test_tab_manager_activity_marking() {
    let mut manager = TabManager::new();

    manager.add_session(create_test_host("host1")).unwrap();
    manager.add_session(create_test_host("host2")).unwrap();

    manager.mark_session_activity(0, "output");
    let display = manager.tab_bar_display();
    assert!(display.contains("[1:host1*]"));
    assert!(display.contains("[2:host2]"));

    manager.mark_session_activity(1, "error");
    let display = manager.tab_bar_display();
    assert!(display.contains("[1:host1*]"));
    assert!(display.contains("▶[2:host2!]"));
}

#[test]
fn test_switch_and_clear_activity() {
    let mut manager = TabManager::new();

    manager.add_session(create_test_host("host1")).unwrap();
    manager.add_session(create_test_host("host2")).unwrap();

    manager.mark_session_activity(0, "output");
    assert!(manager.switch_to_session_and_clear_activity(1));

    let display = manager.tab_bar_display();
    assert!(display.contains("▶[1:host1]"));
    assert!(display.contains("[2:host2]"));
}

#[test]
fn test_disconnect_session() {
    let mut manager = TabManager::new();

    manager.add_session(create_test_host("host1")).unwrap();
    manager.add_session(create_test_host("host2")).unwrap();

    assert_eq!(manager.sessions()[0].status, SessionStatus::Connecting);
    assert_eq!(manager.sessions()[1].status, SessionStatus::Connecting);
    assert!(!manager.sessions()[0].activity.has_error);
    assert!(!manager.sessions()[1].activity.has_error);

    assert!(manager.disconnect_session(0));

    assert_eq!(manager.sessions()[0].status, SessionStatus::Disconnected);
    assert!(manager.sessions()[0].activity.has_error);

    assert_eq!(manager.sessions()[1].status, SessionStatus::Connecting);
    assert!(!manager.sessions()[1].activity.has_error);
}

#[test]
fn test_disconnect_session_invalid_index() {
    let mut manager = TabManager::new();

    assert!(!manager.disconnect_session(0));
    assert!(!manager.disconnect_session(99));

    manager.add_session(create_test_host("host1")).unwrap();
    assert!(!manager.disconnect_session(1));
    assert!(manager.disconnect_session(0));
}

#[test]
fn test_rename_session() {
    let mut manager = TabManager::new();

    manager.add_session(create_test_host("host1")).unwrap();
    manager.add_session(create_test_host("host2")).unwrap();

    assert_eq!(manager.sessions()[0].host.name, "host1");
    assert_eq!(manager.sessions()[1].host.name, "host2");

    assert!(manager.rename_session(0, "new-host1".to_string()));
    assert_eq!(manager.sessions()[0].host.name, "new-host1");
    assert_eq!(manager.sessions()[1].host.name, "host2");

    assert!(manager.rename_session(1, "new-host2".to_string()));
    assert_eq!(manager.sessions()[0].host.name, "new-host1");
    assert_eq!(manager.sessions()[1].host.name, "new-host2");
}

#[test]
fn test_rename_session_invalid_index() {
    let mut manager = TabManager::new();

    assert!(!manager.rename_session(0, "new-name".to_string()));
    assert!(!manager.rename_session(99, "new-name".to_string()));

    manager.add_session(create_test_host("host1")).unwrap();
    assert!(!manager.rename_session(1, "new-name".to_string()));
    assert!(manager.rename_session(0, "new-name".to_string()));
    assert_eq!(manager.sessions()[0].host.name, "new-name");
}

#[test]
fn test_close_session_middle() {
    let mut manager = TabManager::new();

    manager.add_session(create_test_host("host1")).unwrap();
    manager.add_session(create_test_host("host2")).unwrap();
    manager.add_session(create_test_host("host3")).unwrap();

    assert_eq!(manager.current_session_index(), 2);
    assert_eq!(manager.session_count(), 3);

    assert!(manager.close_session(1));

    assert_eq!(manager.session_count(), 2);
    assert_eq!(manager.sessions()[0].host.name, "host1");
    assert_eq!(manager.sessions()[1].host.name, "host3");

    assert_eq!(manager.current_session_index(), 1);
}

#[test]
fn test_close_session_current() {
    let mut manager = TabManager::new();

    manager.add_session(create_test_host("host1")).unwrap();
    manager.add_session(create_test_host("host2")).unwrap();

    assert_eq!(manager.current_session_index(), 1);

    assert!(manager.close_session(1));

    assert_eq!(manager.session_count(), 1);
    assert_eq!(manager.sessions()[0].host.name, "host1");

    assert_eq!(manager.current_session_index(), 0);
}

#[test]
fn test_close_session_before_current() {
    let mut manager = TabManager::new();

    manager.add_session(create_test_host("host1")).unwrap();
    manager.add_session(create_test_host("host2")).unwrap();
    manager.add_session(create_test_host("host3")).unwrap();

    manager.switch_to_session(2);
    assert_eq!(manager.current_session_index(), 1);

    assert!(manager.close_session(0));

    assert_eq!(manager.session_count(), 2);
    assert_eq!(manager.sessions()[0].host.name, "host2");
    assert_eq!(manager.sessions()[1].host.name, "host3");

    assert_eq!(manager.current_session_index(), 0);
}

#[test]
fn test_close_last_remaining_session() {
    let mut manager = TabManager::new();

    manager.add_session(create_test_host("only-host")).unwrap();
    assert_eq!(manager.session_count(), 1);
    assert_eq!(manager.current_session_index(), 0);

    assert!(manager.close_session(0));

    assert_eq!(manager.session_count(), 0);
    assert!(!manager.has_sessions());
    assert_eq!(manager.current_session_index(), 0);
}

#[test]
fn test_close_session_invalid_index() {
    let mut manager = TabManager::new();

    assert!(!manager.close_session(0));
    assert!(!manager.close_session(99));

    manager.add_session(create_test_host("host1")).unwrap();

    assert!(!manager.close_session(1));
    assert!(!manager.close_session(99));

    assert!(manager.close_session(0));
    assert_eq!(manager.session_count(), 0);
}
