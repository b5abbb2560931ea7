use sshs::cli::{Args, CliError};
use sshs::host::{CommandError, Host, HostFilter};
use sshs::parser_error::{ParseError, UnknownEntryError};
use sshs::searchable::Searchable;
use sshs::session::{
    process_all_sessions, ActivityIndicator, ConnectionState, SessionConfig, SessionError,
    SshSession,
};
use sshs::strutil::{split_lines, str_contains, str_eq, usize_to_string};
use sshs::tabs::{Session, TabError, TabManager};
use sshs::terminal::TerminalBuffer;

fn host_named(name: &str) -> Host {
    Host {
        name: name.to_string(),
        destination: format!("{name}.example.com"),
        user: None,
        port: None,
        aliases: String::new(),
        proxy_command: None,
    }
}

#[test]
fn session_count_matches_successful_creates() {
    let mut manager = TabManager::new();
    for i in 1..=20 {
        assert!(manager.add_session(host_named(&format!("h{i}"))).is_ok());
        assert_eq!(manager.session_count(), i);
    }
    let refused = manager.add_session(host_named("over"));
    assert!(matches!(refused, Err(TabError::CapacityExceeded)));
    assert_eq!(manager.session_count(), 20);
}

#[test]
fn active_index_stays_in_range_after_tab_operations() {
    let mut manager = TabManager::new();
    for i in 1..=5 {
        manager.add_session(host_named(&format!("h{i}"))).unwrap();
    }
    manager.next_tab();
    assert!(manager.current_session_index() < manager.session_count());
    manager.previous_tab();
    assert!(manager.current_session_index() < manager.session_count());
    manager.goto_tab(3).unwrap();
    assert!(manager.current_session_index() < manager.session_count());
    assert!(manager.close_session(4));
    assert!(manager.current_session_index() < manager.session_count());
    manager.close_current_tab();
    assert!(manager.current_session_index() < manager.session_count());
}

#[test]
fn next_then_previous_returns_to_start() {
    let mut manager = TabManager::new();
    for i in 1..=4 {
        manager.add_session(host_named(&format!("h{i}"))).unwrap();
    }
    for start in 1..=4 {
        manager.goto_tab(start).unwrap();
        let before = manager.current_session_index();
        manager.next_tab();
        manager.previous_tab();
        assert_eq!(manager.current_session_index(), before);
        manager.previous_tab();
        manager.next_tab();
        assert_eq!(manager.current_session_index(), before);
    }
}

#[test]
fn closing_tabs_moves_active_index_by_position() {
    // closing the active tab at the last position moves to the new last tab
    let mut manager = TabManager::new();
    for i in 1..=3 {
        manager.add_session(host_named(&format!("h{i}"))).unwrap();
    }
    assert_eq!(manager.current_session_index(), 2);
    assert!(manager.close_session(2));
    assert_eq!(manager.current_session_index(), 1);

    // closing a tab strictly after the active one leaves the index unchanged
    let mut manager = TabManager::new();
    for i in 1..=3 {
        manager.add_session(host_named(&format!("h{i}"))).unwrap();
    }
    manager.goto_tab(1).unwrap();
    assert!(manager.close_session(2));
    assert_eq!(manager.current_session_index(), 0);

    // closing a tab strictly before the active one decrements it by one
    let mut manager = TabManager::new();
    for i in 1..=3 {
        manager.add_session(host_named(&format!("h{i}"))).unwrap();
    }
    assert!(manager.close_session(0));
    assert_eq!(manager.current_session_index(), 1);

    // closing the active tab away from the end also shifts down by one,
    // so the left-hand neighbour becomes active
    let mut manager = TabManager::new();
    for i in 1..=3 {
        manager.add_session(host_named(&format!("h{i}"))).unwrap();
    }
    manager.goto_tab(2).unwrap();
    assert!(manager.close_session(1));
    assert_eq!(manager.current_session_index(), 0);
    assert_eq!(manager.sessions()[0].host.name, "h1");

    // at the very first tab there is nothing to shift down to
    let mut manager = TabManager::new();
    for i in 1..=2 {
        manager.add_session(host_named(&format!("h{i}"))).unwrap();
    }
    manager.goto_tab(1).unwrap();
    assert!(manager.close_session(0));
    assert_eq!(manager.current_session_index(), 0);
    assert_eq!(manager.sessions()[0].host.name, "h2");
}

#[test]
fn scrollback_stays_bounded_even_with_no_room() {
    let mut buffer = TerminalBuffer::new(0);
    for i in 0..8 {
        buffer.process_data(format!("line {i}\n").as_bytes());
        assert_eq!(buffer.get_scrollback().len(), 0);
    }
    let mut buffer = TerminalBuffer::new(3);
    for i in 0..12 {
        buffer.process_data(format!("line {i}\n").as_bytes());
        assert!(buffer.get_scrollback().len() <= 3);
    }
}

#[test]
fn search_is_case_insensitive_over_scrollback() {
    let mut buffer = TerminalBuffer::new(100);
    buffer.process_data(b"abc\r\nXYZ abc\r\ndef\r\n");
    assert_eq!(buffer.get_scrollback().len(), 3);
    let results = buffer.search("ABC");
    let indices: Vec<usize> = results.iter().map(|(i, _)| *i).collect();
    assert_eq!(indices, vec![0, 1]);
    assert_eq!(results[0].1, "abc");
    assert_eq!(results[1].1, "XYZ abc");
}

#[test]
fn reconnect_budget_exhausts_with_terminal_error() {
    let config = SessionConfig {
        max_scrollback_lines: 10,
        connection_timeout_ms: 1000,
        auto_reconnect: true,
        max_reconnect_attempts: 3,
    };
    let mut session = SshSession::new(host_named("flaky"), config);
    assert_eq!(session.state, ConnectionState::Disconnected);
    for _ in 0..3 {
        assert!(session.reconnect().is_ok());
        assert_eq!(session.state, ConnectionState::Reconnecting);
        assert!(session.reconnect_attempts <= 3);
        session.disconnect();
    }
    let refused = session.reconnect();
    assert!(matches!(refused, Err(SessionError::ReconnectExhausted)));
    assert_eq!(session.reconnect_attempts, 3);
    match &session.state {
        ConnectionState::Error(m) => assert_eq!(m, "Max reconnection attempts exceeded"),
        other => panic!("expected a terminal error state, got {:?}", other),
    }
    // and it stays refused
    assert!(session.reconnect().is_err());
    assert_eq!(session.reconnect_attempts, 3);
}

#[test]
fn tab_label_concatenates_activity_suffix_in_order() {
    let mut session = Session::new(3, host_named("prod-web"));
    session.mark_new_output();
    session.mark_error();
    assert_eq!(session.tab_display_name(), "[3:prod-web*!]");
}

#[test]
fn overflow_window_centers_the_active_tab() {
    let mut manager = TabManager::new();
    for i in 1..=15 {
        manager.add_session(host_named(&format!("h{i}"))).unwrap();
    }
    manager.goto_tab(8).unwrap();
    assert_eq!(manager.current_session_index(), 7);
    let window = manager.overflow_window();
    assert_eq!(window.start_index, 2);
    assert!(window.start_index <= 7 && 7 < window.start_index + 10);
    assert!(window.has_left_overflow);
    assert!(window.has_right_overflow);

    manager.goto_tab(15).unwrap();
    let window = manager.overflow_window();
    assert_eq!(window.start_index, 5);
    assert!(window.has_left_overflow);
    assert!(!window.has_right_overflow);
}

#[test]
fn command_template_renders_and_splits_shell_words() {
    let host = Host {
        name: "web east".to_string(),
        destination: "web.example.com".to_string(),
        user: Some("ops".to_string()),
        port: Some("2222".to_string()),
        aliases: String::new(),
        proxy_command: None,
    };
    let (command, args) = host
        .run_command_template("ssh -p {{port}} \"{{name}}\" {{user}}@{{destination}}")
        .unwrap();
    assert_eq!(command, "ssh");
    assert_eq!(
        args,
        vec![
            "-p".to_string(),
            "2222".to_string(),
            "web east".to_string(),
            "ops@web.example.com".to_string()
        ]
    );
}

#[test]
fn command_template_errors_name_their_cause() {
    let host = host_named("plain");
    // a template with an unterminated quote survives rendering but has no
    // shell-word reading
    let unparsable = host.run_command_template("echo \"{{name}}");
    assert!(matches!(unparsable, Err(CommandError::UnparsableCommand(_))));
    // an empty template renders to an empty command line
    let empty = host.run_command_template("");
    assert!(matches!(empty, Err(CommandError::EmptyCommand)));
    // a malformed template fails to render
    let bad_template = host.run_command_template("{{#if}}");
    assert!(matches!(bad_template, Err(CommandError::Template(_))));
    // an unsafe field is reported with the offending character
    let bad_host = host_named("a;b");
    let unsafe_field = bad_host.run_command_template("echo {{name}}");
    match unsafe_field {
        Err(CommandError::UnsafeCharacter { ch, value }) => {
            assert_eq!(ch, ';');
            assert_eq!(value, "a;b");
        },
        other => panic!("expected an unsafe-character error, got {:?}", other),
    }
}

#[test]
fn fuzzy_filter_narrows_and_empty_query_keeps_all() {
    let hosts = vec![host_named("prod-web"), host_named("dev-db"), host_named("staging")];
    let mut table = Searchable::new(hosts, "", HostFilter);
    assert_eq!(table.len(), 3);
    assert!(!table.is_empty());

    table.search("prdwb");
    assert_eq!(table.len(), 1);
    assert_eq!(table.get(0).name, "prod-web");

    table.search("zzzz");
    assert!(table.is_empty());

    table.search("");
    assert_eq!(table.len(), 3);
    assert_eq!(table.iter().len(), 3);
    assert_eq!(table.non_filtered_iter().len(), 3);
}

#[test]
fn connect_outcome_parks_failures_in_error_state() {
    let mut session = SshSession::new(host_named("box"), SessionConfig::default());
    let argv = session.connect_command();
    assert_eq!(
        argv,
        vec![
            "ssh".to_string(),
            "-o".to_string(),
            "LogLevel=ERROR".to_string(),
            "-o".to_string(),
            "StrictHostKeyChecking=accept-new".to_string(),
            "root@box.example.com".to_string()
        ]
    );
    assert_eq!(session.state, ConnectionState::Connecting);

    let failed = session.connect_outcome(Some("no such binary".to_string()), 5);
    match failed {
        Err(err) => {
            assert!(matches!(err, SessionError::SpawnFailure(_)));
            assert_eq!(err.message(), "Failed to start SSH process: no such binary");
        },
        other => panic!("expected a spawn failure, got {:?}", other),
    }
    assert_eq!(session.activity, ActivityIndicator::Error);
    assert!(matches!(session.state, ConnectionState::Error(_)));

    let ok = session.connect_outcome(None, 9);
    assert!(ok.is_ok());
    assert_eq!(session.state, ConnectionState::Connected);
    assert!(session.is_process_running());
}

#[test]
fn connect_command_includes_port_and_user_when_set() {
    let host = Host {
        name: "db".to_string(),
        destination: "db.internal".to_string(),
        user: Some("admin".to_string()),
        port: Some("2200".to_string()),
        aliases: String::new(),
        proxy_command: None,
    };
    let mut session = SshSession::new(host, SessionConfig::default());
    let argv = session.connect_command();
    assert_eq!(
        argv,
        vec![
            "ssh".to_string(),
            "-o".to_string(),
            "LogLevel=ERROR".to_string(),
            "-o".to_string(),
            "StrictHostKeyChecking=accept-new".to_string(),
            "-p".to_string(),
            "2200".to_string(),
            "admin@db.internal".to_string()
        ]
    );
}

#[test]
fn ticking_sessions_signals_output_and_death() {
    let mut sessions = vec![
        SshSession::new(host_named("alpha"), SessionConfig::default()),
        SshSession::new(host_named("beta"), SessionConfig::default()),
    ];
    sessions[0].connect_command();
    sessions[0].connect_outcome(None, 1).unwrap();
    sessions[1].connect_command();
    sessions[1].connect_outcome(None, 1).unwrap();

    let batches = vec![vec![b"hello\n".to_vec()], vec![]];
    let alive = vec![true, false];
    process_all_sessions(&mut sessions, &batches, &alive, 42);

    assert_eq!(sessions[0].activity, ActivityIndicator::NewOutput);
    assert_eq!(sessions[0].state, ConnectionState::Connected);
    assert_eq!(sessions[0].last_activity_ms, 42);

    assert_eq!(sessions[1].activity, ActivityIndicator::Error);
    assert_eq!(sessions[1].state, ConnectionState::Disconnected);
    assert!(!sessions[1].is_process_running());
}

#[test]
fn marking_viewed_clears_new_output_only() {
    let mut session = SshSession::new(host_named("gamma"), SessionConfig::default());
    let chunks = vec![b"data\n".to_vec()];
    session.process_pending_data(&chunks, 7);
    assert_eq!(session.activity, ActivityIndicator::NewOutput);
    assert!(session.terminal.has_new_output());
    session.mark_viewed();
    assert_eq!(session.activity, ActivityIndicator::Idle);
    assert!(!session.terminal.has_new_output());

    let stats = session.get_stats(10);
    assert_eq!(stats.uptime_ms, 3);
    assert_eq!(stats.last_activity_ms, 7);
    assert_eq!(stats.connection_attempts, 0);
    assert!(stats.lines_in_buffer >= 1);
}

#[test]
fn session_overview_reflects_registry_order() {
    let mut manager = TabManager::new();
    manager.add_session(host_named("one")).unwrap();
    manager.add_session(host_named("two")).unwrap();
    manager.mark_session_activity(0, "background");
    let stats = manager.get_session_stats();
    assert_eq!(stats.len(), 2);
    assert_eq!(stats[0].tab_number, 1);
    assert_eq!(stats[0].name, "one");
    assert_eq!(stats[0].destination, "one.example.com");
    assert!(stats[0].activity.has_background_activity);
    assert!(!stats[0].is_current);
    assert_eq!(stats[1].tab_number, 2);
    assert!(stats[1].is_current);
}

#[test]
fn duplicate_host_lookup_scans_by_name() {
    let mut manager = TabManager::new();
    manager.add_session(host_named("one")).unwrap();
    manager.add_session(host_named("two")).unwrap();
    assert_eq!(manager.find_session_by_host("two"), Some(1));
    assert_eq!(manager.find_session_by_host("three"), None);
    assert!(manager.has_session_for_host("one"));
    assert!(!manager.has_session_for_host("none"));
}

#[test]
fn goto_tab_rejects_zero_and_past_the_end() {
    let mut manager = TabManager::new();
    manager.add_session(host_named("one")).unwrap();
    assert!(matches!(manager.goto_tab(0), Err(TabError::InvalidIndex)));
    assert!(matches!(manager.goto_tab(2), Err(TabError::InvalidIndex)));
    assert!(manager.goto_tab(1).is_ok());
    let msg = TabError::InvalidIndex.message();
    assert_eq!(msg, "invalid session index");
    let cap = TabError::CapacityExceeded.message();
    assert_eq!(cap, "Maximum number of sessions (20) reached");
}

#[test]
fn cli_rejects_unknown_flags_and_missing_values() {
    let unknown = Args::try_parse_from(vec!["sshs".to_string(), "--bogus".to_string()]);
    match unknown {
        Err(CliError::UnknownArgument(a)) => assert_eq!(a, "--bogus"),
        other => panic!("expected an unknown-argument error, got {:?}", other),
    }
    let missing = Args::try_parse_from(vec!["sshs".to_string(), "-s".to_string()]);
    assert!(matches!(missing, Err(CliError::MissingValue(_))));
    let version = Args::try_parse_from(vec!["sshs".to_string(), "--version".to_string()]);
    assert!(matches!(version, Err(CliError::VersionRequested(_))));
    let several = Args::try_parse_from(vec![
        "sshs".to_string(),
        "-c".to_string(),
        "/a".to_string(),
        "/b".to_string(),
        "-e".to_string(),
    ])
    .unwrap();
    assert_eq!(several.config, vec!["/a".to_string(), "/b".to_string()]);
    assert!(several.exit);
}

#[test]
fn decimal_rendering_is_exact() {
    assert_eq!(usize_to_string(0), "0");
    assert_eq!(usize_to_string(7), "7");
    assert_eq!(usize_to_string(10), "10");
    assert_eq!(usize_to_string(905), "905");
    assert_eq!(usize_to_string(18446744073709551615), "18446744073709551615");
}

#[test]
fn parse_error_messages_are_exact() {
    let unknown = UnknownEntryError {
        line: "Frobnicate yes".to_string(),
        entry: "Frobnicate".to_string(),
    };
    assert_eq!(unknown.message(), "Unknown entry 'Frobnicate' on line: Frobnicate yes");
    let unparseable = ParseError::UnparseableLine("invalid line".to_string());
    assert_eq!(unparseable.message(), "Unable to parse line: 'invalid line'");
    let io = ParseError::Io("file not found".to_string());
    assert_eq!(io.message(), "IO error: file not found");
}

#[test]
fn truncated_display_names_keep_a_twelve_character_prefix() {
    let long = host_named("very-long-hostname-that-should-be-truncated");
    assert_eq!(SshSession::generate_display_name(&long), "very-long-ho...");
    let short = host_named("db");
    assert_eq!(SshSession::generate_display_name(&short), "db");
}

#[test]
fn resize_keeps_committed_scrollback() {
    let mut buffer = TerminalBuffer::new(10);
    buffer.process_data(b"one\ntwo\n");
    let before = buffer.get_scrollback().clone();
    buffer.resize(120, 40);
    assert_eq!(buffer.get_scrollback(), &before);
}

#[test]
fn config_text_yields_host_records() {
    let content = "# comment\n\nHost web web-alias\n  Hostname web.internal\n  User ops\n  Port 2200\n  IdentityFile ~/.ssh/id\nHost bare\n";
    let hosts = sshs::config::parse_config_content(content);
    assert_eq!(hosts.len(), 2);
    assert_eq!(hosts[0].name, "web");
    assert_eq!(hosts[0].aliases, "web-alias");
    assert_eq!(hosts[0].destination, "web.internal");
    assert_eq!(hosts[0].user, Some("ops".to_string()));
    assert_eq!(hosts[0].port, Some("2200".to_string()));
    assert_eq!(hosts[0].proxy_command, None);
    assert_eq!(hosts[1].name, "bare");
    assert_eq!(hosts[1].destination, "bare");
    assert_eq!(hosts[1].user, None);
}

#[test]
fn column_widths_pad_the_widest_cell() {
    let hosts = vec![
        sshs::host::Host {
            name: "alpha".to_string(),
            aliases: "a1, a2".to_string(),
            user: Some("root".to_string()),
            destination: "alpha.example.com".to_string(),
            port: None,
            proxy_command: None,
        },
        sshs::host::Host {
            name: "longer-name".to_string(),
            aliases: "".to_string(),
            user: None,
            destination: "a.io".to_string(),
            port: Some("22".to_string()),
            proxy_command: Some("nc proxy 22".to_string()),
        },
    ];
    let widths = sshs::layout::host_column_widths(&hosts, false);
    assert_eq!(widths, vec![12, 7, 5, 18, 3]);
    let with_proxy = sshs::layout::host_column_widths(&hosts, true);
    assert_eq!(with_proxy.len(), 6);
    assert_eq!(with_proxy[5], 12);
}

#[test]
fn malformed_escape_sequences_degrade_gracefully() {
    let mut buffer = TerminalBuffer::new(4);
    buffer.process_data(b"\x1b[31mred\x1b[0m\r\n");
    buffer.process_data(b"\x1b[999Xodd\x1b");
    buffer.process_data(b"\r\nplain\r\n");
    assert!(buffer.get_scrollback().len() <= 4);
    assert!(buffer.get_scrollback().iter().any(|l| l.contains("red")));
}

#[test]
fn tab_stepping_wraps_both_ways() {
    let mut manager = TabManager::new();
    for i in 1..=3 {
        manager.add_session(host_named(&format!("h{i}"))).unwrap();
    }
    assert_eq!(manager.current_session_index(), 2);
    manager.next_tab();
    assert_eq!(manager.current_session_index(), 0);
    manager.previous_tab();
    assert_eq!(manager.current_session_index(), 2);
    let empty = &mut TabManager::default();
    empty.next_tab();
    empty.previous_tab();
    assert_eq!(empty.current_session_index(), 0);
}

#[test]
fn line_splitting_matches_newline_boundaries() {
    let lines = split_lines("a\n\nbc\nd");
    assert_eq!(lines, vec!["a".to_string(), "".to_string(), "bc".to_string(), "d".to_string()]);
    assert_eq!(split_lines("a\nb\n"), vec!["a".to_string(), "b".to_string()]);
    assert_eq!(split_lines(""), Vec::<String>::new());
    assert!(str_eq("same", "same"));
    assert!(!str_eq("same", "sane"));
    assert!(str_contains("haystack", "sta"));
    assert!(!str_contains("haystack", "stc"));
    assert!(str_contains("anything", ""));
}

#[test]
fn scrollback_keeps_collecting_after_the_screen_scrolls() {
    // far more lines than the 24-row screen holds: every completed line must
    // still reach the scrollback, exactly once and in order
    let mut buffer = TerminalBuffer::new(200);
    for i in 0..100 {
        buffer.process_data(format!("line {i}\r\n").as_bytes());
    }
    let lines = buffer.get_scrollback();
    assert_eq!(lines.len(), 100);
    assert_eq!(lines[0], "line 0");
    assert_eq!(lines[50], "line 50");
    assert_eq!(lines[99], "line 99");
    let hits = buffer.search("line 7");
    // "line 7" plus "line 70" through "line 79"
    assert_eq!(hits.len(), 11);
}

#[test]
fn screen_size_follows_resize_and_never_hits_zero() {
    let mut buffer = TerminalBuffer::new(10);
    assert_eq!(buffer.get_screen().size(), (24, 80));
    buffer.resize(100, 40);
    assert_eq!(buffer.get_screen().size(), (40, 100));
    // undersized asks are raised to the two-row, two-column floor the
    // interpreter needs for arbitrary output
    buffer.resize(0, 0);
    assert_eq!(buffer.get_screen().size(), (2, 2));
    buffer.resize(1, 1);
    assert_eq!(buffer.get_screen().size(), (2, 2));
    buffer.process_data(b"still alive\r\n");
    assert!(buffer.get_scrollback().len() <= 10);
}
