use archy::helpers;

#[test]
fn test_sanitize_command() {
    let dirty = "ls\0-la\r\n";
    let clean = helpers::sanitize_command(dirty);
    assert_eq!(clean, "ls-la");
}

#[test]
fn test_response_builders() {
    let success = helpers::success("test output".to_string());
    assert!(success.success);
    assert_eq!(success.output, Some("test output".to_string()));
    assert_eq!(success.error, None);

    let error = helpers::error("test error".to_string());
    assert!(!error.success);
    assert_eq!(error.error, Some("test error".to_string()));
    assert_eq!(error.output, None);

    let exists = helpers::exists_response(true);
    assert_eq!(exists.exists, Some(true));
}

#[test]
fn response_from_result() {
    let ok = helpers::from_result(Ok("done".to_string()));
    assert!(ok.success);
    assert_eq!(ok.output, Some("done".to_string()));

    let err = helpers::from_result(Err("broken".to_string()));
    assert!(!err.success);
    assert_eq!(err.error, Some("broken".to_string()));
}

#[test]
fn validate_command_accepts_ordinary_commands() {
    assert!(helpers::validate_command("ls -la").is_ok());
    assert!(helpers::validate_command("").is_ok());
    assert!(helpers::validate_command("echo hello world").is_ok());
}

#[test]
fn validate_command_rejects_null_byte() {
    let r = helpers::validate_command("ls\0 -la");
    assert_eq!(r.unwrap_err(), "Invalid command: contains null byte");
}

#[test]
fn validate_command_rejects_oversize() {
    let long = "a".repeat(8193);
    let r = helpers::validate_command(&long);
    assert_eq!(r.unwrap_err(), "Command too long (max 8192 characters)");
    assert!(helpers::validate_command(&"a".repeat(8192)).is_ok());
}

#[test]
fn validate_command_rejects_dangerous_patterns() {
    let r = helpers::validate_command("sudo RM -RF / --no-preserve-root");
    assert_eq!(r.unwrap_err(), "Blocked dangerous command pattern: rm -rf /");
    let r = helpers::validate_command("echo :(){ :|:& };: > bomb.sh");
    assert_eq!(
        r.unwrap_err(),
        "Blocked dangerous command pattern: :(){ :|:& };:"
    );
    let r = helpers::validate_command("mkfs.ext4 /dev/sdb1");
    assert_eq!(r.unwrap_err(), "Blocked dangerous command pattern: mkfs.");
}

#[test]
fn validate_desktop_entry_checks() {
    assert!(helpers::validate_desktop_entry("firefox").is_ok());
    let r = helpers::validate_desktop_entry("../evil");
    assert_eq!(
        r.unwrap_err(),
        "Invalid desktop_entry: contains illegal characters"
    );
    let r = helpers::validate_desktop_entry(&"x".repeat(256));
    assert_eq!(r.unwrap_err(), "Invalid desktop_entry: too long");
}

#[test]
fn escape_pgrep_pattern_escapes_specials() {
    assert_eq!(helpers::escape_pgrep_pattern("a.b*c"), "a\\.b\\*c");
    assert_eq!(helpers::escape_pgrep_pattern("a\\b"), "a\\\\b");
    assert_eq!(helpers::escape_pgrep_pattern("plain"), "plain");
    assert_eq!(helpers::escape_pgrep_pattern("(x|y)^$"), "\\(x\\|y\\)\\^\\$");
}

#[test]
fn is_blank_checks_whitespace() {
    assert!(helpers::is_blank(""));
    assert!(helpers::is_blank("  \t\n"));
    assert!(!helpers::is_blank(" x "));
}

#[test]
fn truncate_keeps_short_and_cuts_long() {
    assert_eq!(helpers::truncate("hello", 10), "hello");
    assert_eq!(helpers::truncate("hello world", 8), "hello...");
    assert_eq!(helpers::truncate("abcdef", 2), "...");
}

#[test]
fn executable_prefix_allowlist() {
    assert!(helpers::is_allowed_executable_prefix("/usr/bin/ls"));
    assert!(helpers::is_allowed_executable_prefix("/opt/tool"));
    assert!(!helpers::is_allowed_executable_prefix("/home/user/evil"));
    assert!(!helpers::is_allowed_executable_prefix("usr/bin/ls"));
}

#[test]
fn terminal_allowlist() {
    assert!(helpers::is_allowed_terminal("foot"));
    assert!(helpers::is_allowed_terminal("alacritty"));
    assert!(!helpers::is_allowed_terminal("xterm"));
    assert!(!helpers::is_allowed_terminal(""));
}

#[test]
fn app_name_from_command() {
    assert_eq!(
        helpers::app_name_of_command("/usr/bin/python3 script.py"),
        Some("python3".to_string())
    );
    assert_eq!(helpers::app_name_of_command("firefox"), Some("firefox".to_string()));
    assert_eq!(helpers::app_name_of_command("   "), None);
}

#[test]
fn desktop_entry_matching() {
    let content = "Name=Firefox\nGenericName=Web Browser\nExec=/usr/bin/firefox %u";
    assert!(helpers::desktop_entry_matches(content, "firefox"));
    assert!(helpers::desktop_entry_matches(content, "web browser"));
    assert!(!helpers::desktop_entry_matches(content, "chromium"));
}

#[test]
fn desktop_entry_fuzzy_matching() {
    let content = "Name=Firefox Browser";
    assert!(helpers::desktop_entry_fuzzy_matches(content, "firefox"));
    assert!(!helpers::desktop_entry_fuzzy_matches(content, "chromium"));
}

#[test]
fn exec_line_parsing() {
    let parts = helpers::exec_line_parts("Exec=/usr/bin/foo %U --bar").unwrap();
    assert_eq!(parts, vec!["/usr/bin/foo".to_string(), "--bar".to_string()]);
    assert!(helpers::exec_line_parts("Name=foo").is_none());
    assert!(helpers::exec_line_parts("Exec=%U").is_none());
}

#[test]
fn dbus_address_parsing() {
    let out = "ignored line\nDBUS_SESSION_BUS_ADDRESS='unix:abstract';\n";
    assert_eq!(
        helpers::dbus_address_from_output(out),
        Some("unix:abstract".to_string())
    );
    assert_eq!(helpers::dbus_address_from_output("nothing here"), None);
}

#[test]
fn directory_extraction_patterns() {
    assert_eq!(
        helpers::extract_current_directory("user@host:/home/u$ "),
        Some("/home/u".to_string())
    );
    assert_eq!(
        helpers::extract_current_directory("[user@host /tmp]$ "),
        Some("/tmp".to_string())
    );
    assert_eq!(helpers::extract_current_directory(""), None);
}
