use sshs::host::Host;
use sshs::session::{ActivityIndicator, ConnectionState, SessionConfig, SshSession};
use sshs::terminal::TerminalBuffer;

fn create_test_host() -> Host {
    Host {
        name: "test-host".to_string(),
        destination: "localhost".to_string(),
        user: Some("testuser".to_string()),
        port: Some("22".to_string()),
        aliases: "".to_string(),
        proxy_command: None,
    }
}

#[test]
fn test_session_creation() {
    let host = create_test_host();
    let config = SessionConfig::default();
    let session = SshSession::new(host.clone(), config);

    assert_eq!(session.host.name, "test-host");
    assert_eq!(session.state, ConnectionState::Disconnected);
    assert_eq!(session.activity, ActivityIndicator::Idle);
    assert!(!session.is_active());
}

#[test]
fn test_display_name_generation() {
    let host = Host {
        name: "very-long-hostname-that-should-be-truncated".to_string(),
        destination: "example.com".to_string(),
        user: None,
        port: None,
        aliases: "".to_string(),
        proxy_command: None,
    };

    let display_name = SshSession::generate_display_name(&host);
    assert!(display_name.len() <= 15);
    assert!(display_name.ends_with("..."));
}

#[test]
fn test_terminal_buffer() {
    let mut buffer = TerminalBuffer::new(100);

    let test_data = b"Hello, World!\n";
    buffer.process_data(test_data);

    assert!(buffer.has_new_output());

    buffer.mark_viewed();
    assert!(!buffer.has_new_output());
}

#[test]
fn test_terminal_buffer_scrollback_limit() {
    let mut buffer = TerminalBuffer::new(5);

    for i in 0..10 {
        let data = format!("Line {}\n", i);
        buffer.process_data(data.as_bytes());
    }

    assert!(buffer.get_scrollback().len() <= 5);
}

#[test]
fn test_search_functionality() {
    let mut buffer = TerminalBuffer::new(100);

    buffer.process_data(b"First line\n");
    buffer.process_data(b"Second line with pattern\n");
    buffer.process_data(b"Third line\n");
    buffer.process_data(b"Another line with PATTERN\n");

    let results = buffer.search("pattern");
    assert_eq!(results.len(), 2);
}
