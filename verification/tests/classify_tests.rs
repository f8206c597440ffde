use archy::parser::detect_format;

#[test]
fn detect_format_empty_input_is_plain_text() {
    assert_eq!(detect_format("", ""), "plain_text");
}

#[test]
fn detect_format_by_command_name() {
    assert_eq!(detect_format("", "nmap -sV 10.0.0.0/24"), "nmap");
    assert_eq!(detect_format("", "netstat -tulpn"), "network_table");
    assert_eq!(detect_format("", "top"), "process_table");
    assert_eq!(detect_format("", "df -h"), "disk_usage");
    assert_eq!(detect_format("", "lsblk"), "block_devices");
    assert_eq!(detect_format("", "journalctl -xe"), "journalctl");
    assert_eq!(detect_format("", "systemctl status"), "systemctl");
    assert_eq!(detect_format("", "ip addr show"), "ip_addr");
}

#[test]
fn detect_format_ls_needs_long_flag() {
    assert_eq!(detect_format("", "ls -la"), "ls_long");
    assert_eq!(detect_format("", "ls"), "plain_text");
}

#[test]
fn detect_format_command_tier_wins_over_content() {
    // The command tier decides first even when the output looks like JSON.
    assert_eq!(detect_format("{\"a\": 1}", "ls -l"), "ls_long");
}

#[test]
fn detect_format_by_content() {
    assert_eq!(detect_format("Starting Nmap 7.92 ( https://nmap.org )", ""), "nmap");
    assert_eq!(detect_format("tcp 0 0 addr ESTABLISHED", ""), "network_table");
    assert_eq!(detect_format("{\"key\": true}", ""), "json");
    assert_eq!(detect_format("[1, 2, 3]", ""), "json");
    let table = "a | b\nc | d\ne | f\ng | h\n";
    assert_eq!(detect_format(table, ""), "table");
    let small_table = "a | b\nc | d\n";
    assert_eq!(detect_format(small_table, ""), "plain_text");
}

#[test]
fn detect_format_table_bound_is_strict() {
    // Exactly three separator lines stay plain text; the bound is strict.
    let three = "a | b\nc | d\ne | f\nplain";
    assert_eq!(detect_format(three, ""), "plain_text");
    let four = "a | b\nc | d\ne | f\ng | h";
    assert_eq!(detect_format(four, ""), "table");
}

#[test]
fn detect_format_substring_tie_break() {
    // Substring matching is deliberate: a command merely containing a tool
    // name classifies by the first rule that fires.
    assert_eq!(detect_format("", "less /var/log/syslog"), "network_table");
}
