use sshs::cli::{
    default_exit_after_session, default_show_proxy_command, default_sort_by_name,
    default_ssh_template, default_system_ssh_config, default_user_ssh_config, Args,
};

fn argv(parts: &[&str]) -> Vec<String> {
    parts.iter().map(|p| p.to_string()).collect()
}

#[test]
fn test_default_proxy_command_flag() {
    // show_proxy_command defaults to false
    let args = Args::try_parse_from(argv(&["sshs"])).unwrap();
    assert_eq!(args.show_proxy_command, false);
}

#[test]
fn test_proxy_command_flag_can_be_enabled() {
    // --show-proxy-command enables show_proxy_command
    let args = Args::try_parse_from(argv(&["sshs", "--show-proxy-command"])).unwrap();
    assert_eq!(args.show_proxy_command, true);
}

#[test]
fn test_proxy_command_flag_remains_false_when_not_specified() {
    // other flags leave show_proxy_command at its default
    let args = Args::try_parse_from(argv(&["sshs", "--search", "test"])).unwrap();
    assert_eq!(args.show_proxy_command, false);
    assert_eq!(args.search, Some("test".to_string()));
}

#[test]
fn test_help_shows_proxy_command_option() {
    let help_output = Args::try_parse_from(argv(&["sshs", "--help"]));

    // help is reported as an error, like any early exit
    assert!(help_output.is_err());

    let error_msg = help_output.unwrap_err().message();
    assert!(error_msg.contains("show-proxy-command"));
}

#[test]
fn test_default_config_paths() {
    let args = Args::try_parse_from(argv(&["sshs"])).unwrap();
    assert_eq!(args.config.len(), 2);
    assert_eq!(args.config[0], default_system_ssh_config());
    assert_eq!(args.config[1], default_user_ssh_config());
}

#[test]
fn test_default_template() {
    let args = Args::try_parse_from(argv(&["sshs"])).unwrap();
    assert_eq!(args.template, default_ssh_template());
}

#[test]
fn test_constants_accessibility() {
    assert_eq!(default_system_ssh_config(), "/etc/ssh/ssh_config");
    assert_eq!(default_user_ssh_config(), "~/.ssh/config");
    assert_eq!(default_ssh_template(), "ssh \"{{{name}}}\"");
    assert_eq!(default_sort_by_name(), true);
    assert_eq!(default_show_proxy_command(), false);
    assert_eq!(default_exit_after_session(), false);
}

#[test]
fn test_config_path_override() {
    let args = Args::try_parse_from(argv(&["sshs", "-c", "/custom/config"])).unwrap();
    assert_eq!(args.config.len(), 1);
    assert_eq!(args.config[0], "/custom/config");
}

#[test]
fn test_template_override() {
    let args = Args::try_parse_from(argv(&["sshs", "-t", "custom_command \"{{name}}\""])).unwrap();
    assert_eq!(args.template, "custom_command \"{{name}}\"");
}
