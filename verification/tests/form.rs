use sshs::form::AddHostForm;

#[test]
fn test_form_validation() {
    let mut form = AddHostForm::new();
    assert!(!form.is_valid());

    // Insert text into host_name field
    form.host_name = "Test Host".to_string();
    assert!(!form.is_valid());

    // Insert text into hostname field
    form.hostname = "localhost".to_string();
    assert!(form.is_valid());

    // Test with valid port
    form.port = "22".to_string();
    assert!(form.is_valid());

    // Test with invalid port (non-numeric)
    form.port = "abc".to_string();
    assert!(!form.is_valid());
    assert_eq!(
        form.validation_error(),
        Some("Port must be a valid number (0-65535)".to_string())
    );

    // Test with invalid port (out of range)
    form.port = "99999".to_string();
    assert!(!form.is_valid());
    assert_eq!(
        form.validation_error(),
        Some("Port must be a valid number (0-65535)".to_string())
    );

    // Test with valid port (upper range)
    form.port = "65535".to_string();
    assert!(form.is_valid());

    // Test invalid hostname format
    form.hostname = "invalid hostname?".to_string();
    assert!(!form.is_valid());
    assert_eq!(form.validation_error(), Some("Invalid hostname format".to_string()));

    // Test invalid username format
    form.hostname = "valid-hostname".to_string();
    form.username = "invalid/username".to_string();
    assert!(!form.is_valid());
    assert_eq!(form.validation_error(), Some("Invalid username format".to_string()));

    // Reset to valid values
    form.hostname = "example.com".to_string();
    form.username = "validuser".to_string();
    assert!(form.is_valid());
}

#[test]
fn test_sanitize_functions() {
    let mut form = AddHostForm::new();

    // Test host name sanitization
    form.host_name = "  Test Host  ".to_string();
    assert_eq!(form.sanitize_host_name(), "\"Test Host\"");

    form.host_name = "NoSpaces".to_string();
    assert_eq!(form.sanitize_host_name(), "NoSpaces");

    // Test hostname sanitization
    form.hostname = "  example.com  ".to_string();
    assert_eq!(form.sanitize_hostname(), "example.com");

    // Test username sanitization
    form.username = "  user  ".to_string();
    assert_eq!(form.sanitize_username(), "user");

    // Test port sanitization
    form.port = "  22  ".to_string();
    assert_eq!(form.sanitize_port(), Some("22".to_string()));

    form.port = String::new();
    assert_eq!(form.sanitize_port(), None);
}

#[test]
fn test_form_navigation() {
    let mut form = AddHostForm::new();
    assert_eq!(form.active_field, 0);

    form.next_field();
    assert_eq!(form.active_field, 1);

    form.next_field();
    assert_eq!(form.active_field, 2);

    form.previous_field();
    assert_eq!(form.active_field, 1);

    form.previous_field();
    assert_eq!(form.active_field, 0);

    form.previous_field();
    assert_eq!(form.active_field, 3);
}

#[test]
fn test_add_host_form_validation() {
    let mut form = AddHostForm::new();

    // Initially the form should be invalid
    assert!(!form.is_valid());

    // Set only the host name - still invalid
    form.host_name = "test-host".to_string();
    assert!(!form.is_valid());

    // Set the hostname - now valid
    form.hostname = "test.example.com".to_string();
    assert!(form.is_valid());

    // Set optional fields - still valid
    form.username = "testuser".to_string();
    assert!(form.is_valid());

    form.port = "2222".to_string();
    assert!(form.is_valid());
}

#[test]
fn test_add_host_form_field_navigation() {
    let mut form = AddHostForm::new();

    // Initially the first field is active
    assert_eq!(form.active_field, 0);

    // Move to the next field
    form.next_field();
    assert_eq!(form.active_field, 1);

    // Move to the next field again
    form.next_field();
    assert_eq!(form.active_field, 2);

    // Move to the next field again
    form.next_field();
    assert_eq!(form.active_field, 3);

    // Move to the next field - should wrap around to the first field
    form.next_field();
    assert_eq!(form.active_field, 0);

    // Move to the previous field - should wrap around to the last field
    form.previous_field();
    assert_eq!(form.active_field, 3);
}

#[test]
fn typed_characters_land_in_the_active_field_with_a_digit_only_port() {
    let mut form = AddHostForm::new();
    form.enter_char('w');
    form.enter_char('b');
    assert_eq!(form.host_name, "wb");
    form.next_field();
    form.enter_char('w');
    form.enter_char('.');
    form.enter_char('x');
    assert_eq!(form.hostname, "w.x");
    form.next_field();
    form.next_field();
    assert_eq!(form.active_field, 3);
    form.enter_char('2');
    form.enter_char('a');
    form.enter_char('2');
    assert_eq!(form.port, "22");
}

#[test]
fn entry_text_lists_only_filled_fields() {
    let mut form = AddHostForm::new();
    form.host_name = "Test Host".to_string();
    form.hostname = "test.example.com".to_string();
    form.username = "testuser".to_string();
    form.port = "2222".to_string();
    assert_eq!(
        form.build_host_entry(),
        "Host \"Test Host\"\n  Hostname test.example.com\n  User testuser\n  Port 2222"
    );

    let mut bare = AddHostForm::new();
    bare.host_name = "plain".to_string();
    bare.hostname = "plain.example.com".to_string();
    assert_eq!(bare.build_host_entry(), "Host plain\n  Hostname plain.example.com");
}

#[test]
fn duplicate_detection_strips_quotes_on_both_sides() {
    let content = "# SSH Config File\nHost \"Test Host\"\n  Hostname test.example.com\nHost other\n  Hostname other.example.com\n";
    let mut form = AddHostForm::new();
    form.host_name = "Test Host".to_string();
    form.hostname = "test.example.com".to_string();
    assert!(form.check_duplicate(content));

    form.host_name = "fresh".to_string();
    assert!(!form.check_duplicate(content));

    // an invalid form is never a duplicate
    let empty = AddHostForm::new();
    assert!(!empty.check_duplicate(content));
}

#[test]
fn rewriting_replaces_one_block_and_keeps_the_rest() {
    let content = "# SSH Config File\nHost old-host\n  Hostname old.example.com\n  User olduser\n  Port 22\nHost another-host\n  Hostname another.example.com";
    let mut form = AddHostForm::new();
    form.host_name = "updated-host".to_string();
    form.hostname = "updated.example.com".to_string();
    form.username = "updateduser".to_string();
    form.port = "2222".to_string();

    let updated = form.replace_host_entry(content, "old-host");
    assert!(updated.contains("Host updated-host"));
    assert!(updated.contains("Hostname updated.example.com"));
    assert!(updated.contains("User updateduser"));
    assert!(updated.contains("Port 2222"));
    assert!(!updated.contains("Host old-host"));
    assert!(!updated.contains("olduser"));
    assert!(updated.contains("Host another-host"));
    assert!(updated.contains("Hostname another.example.com"));
    assert!(updated.starts_with("# SSH Config File\n"));
}

#[test]
fn saved_entries_are_framed_by_newlines() {
    let mut form = AddHostForm::new();
    form.host_name = "box".to_string();
    form.hostname = "box.example.com".to_string();
    assert_eq!(form.save_entry_text(), "\nHost box\n  Hostname box.example.com\n");
}

#[test]
fn test_populate_from_host() {
    let host = sshs::host::Host {
        name: "test-host".to_string(),
        aliases: String::new(),
        user: Some("testuser".to_string()),
        destination: "test.example.com".to_string(),
        port: Some("2222".to_string()),
        proxy_command: None,
    };

    let mut form = AddHostForm::new();
    form.populate_from_host(&host);

    assert_eq!(form.host_name, "test-host");
    assert_eq!(form.hostname, "test.example.com");
    assert_eq!(form.username, "testuser");
    assert_eq!(form.port, "2222");
}

#[test]
fn removing_a_host_drops_exactly_its_block() {
    let content = "# header\nHost one\n  Hostname one.example.com\nHost two\n  Hostname two.example.com";
    let removed = sshs::form::remove_host_entry(content, "one").unwrap();
    assert!(!removed.contains("Host one"));
    assert!(!removed.contains("one.example.com"));
    assert!(removed.contains("# header"));
    assert!(removed.contains("Host two"));
    assert!(removed.contains("two.example.com"));

    let missing = sshs::form::remove_host_entry(content, "ghost");
    assert_eq!(
        missing.unwrap_err(),
        "Host 'ghost' not found in SSH config file"
    );
}
