use archy::config::Config;

#[test]
fn test_default_config() {
    let config = Config::default();
    assert_eq!(config.socket_path, "/tmp/archy.sock");
    assert_eq!(config.default_session, "archy_session");
    assert_eq!(config.max_buffer_size, 8192);
}

#[test]
fn default_config_wait_bounds() {
    let config = Config::default();
    assert_eq!(config.default_capture_lines, 100);
    assert_eq!(config.max_wait_seconds, 600);
    assert_eq!(config.poll_interval_ms, 500);
    assert!(config.terminal_emulator.is_none());
}
