use archy::parser::{Importance, StructuredData};
use archy::extract::parse_intelligently;

#[test]
fn disk_usage_boundaries() {
    // Strictly above 90 is critical, strictly above 80 is high, 80 is neither.
    let critical = parse_intelligently("/dev/sda1 100G 95G 5G 95% /", "df -h");
    assert_eq!(critical.findings.len(), 1);
    assert_eq!(critical.findings[0].category, "Disk Space Critical");
    assert!(matches!(critical.findings[0].importance, Importance::Critical));

    let high = parse_intelligently("/dev/sda1 100G 85G 15G 85% /", "df -h");
    assert_eq!(high.findings.len(), 1);
    assert_eq!(high.findings[0].category, "Disk Space Warning");
    assert!(matches!(high.findings[0].importance, Importance::High));

    let fine = parse_intelligently("/dev/sda1 100G 80G 20G 80% /", "df -h");
    assert_eq!(fine.findings.len(), 0);
}

#[test]
fn disk_usage_scenario() {
    let raw = "Filesystem Size Used Avail Use% Mounted on\n/dev/sda1 100G 96G 2G 96% /";
    let out = parse_intelligently(raw, "df -h");
    assert_eq!(out.metadata.format_detected, "disk_usage");
    match &out.structured {
        StructuredData::DiskUsage { filesystems } => {
            assert_eq!(filesystems.len(), 1);
            assert_eq!(filesystems[0].filesystem, "/dev/sda1");
            assert_eq!(filesystems[0].usage_percent, 96);
            assert_eq!(filesystems[0].mount, "/");
        }
        other => panic!("wrong structured record: {:?}", other),
    }
    assert_eq!(out.findings.len(), 1);
    assert!(matches!(out.findings[0].importance, Importance::Critical));
    assert!(out.findings[0].message.contains("/dev/sda1"));
    assert_eq!(out.summary, "1 filesystem(s) checked");
}

#[test]
fn systemctl_scenario() {
    let raw = "nginx.service loaded failed failed\nsshd.service loaded active (running)";
    let out = parse_intelligently(raw, "systemctl status");
    assert_eq!(out.metadata.format_detected, "systemctl");
    match &out.structured {
        StructuredData::Systemctl { active_services, failed_services } => {
            assert_eq!(failed_services, &vec!["nginx".to_string()]);
            assert_eq!(active_services, &vec!["sshd".to_string()]);
        }
        other => panic!("wrong structured record: {:?}", other),
    }
    let failed_finding = out
        .findings
        .iter()
        .find(|f| f.category == "Failed Services")
        .expect("a finding for failed services");
    assert!(matches!(failed_finding.importance, Importance::High));
    assert!(failed_finding.message.contains("nginx"));
}

#[test]
fn json_round_trip() {
    let raw = "{\"name\": \"box\", \"sizes\": [1, 2, 3]}";
    let out = parse_intelligently(raw, "curl http://example.test/api");
    assert_eq!(out.metadata.format_detected, "json");
    match &out.structured {
        StructuredData::Json { valid, text } => {
            assert!(*valid);
            // The structured record keeps the document itself: it parses to
            // the same value as the input.
            let a: serde_json::Value = serde_json::from_str(text).unwrap();
            let b: serde_json::Value = serde_json::from_str(raw).unwrap();
            assert_eq!(a, b);
            assert_eq!(text, raw);
        }
        other => panic!("wrong structured record: {:?}", other),
    }
    assert_eq!(out.summary, "JSON data parsed successfully");
}

#[test]
fn json_invalid_is_not_an_error() {
    let raw = "{definitely not json";
    let out = parse_intelligently(raw, "");
    assert_eq!(out.metadata.format_detected, "json");
    match &out.structured {
        StructuredData::Json { valid, text } => {
            assert!(!*valid);
            assert_eq!(text, raw);
        }
        other => panic!("wrong structured record: {:?}", other),
    }
    assert_eq!(out.findings.len(), 1);
    assert_eq!(out.findings[0].message, "JSON data detected and parsed");
}

#[test]
fn nmap_extraction() {
    let raw = "Starting Nmap 7.92\nHost is up (0.0010s latency).\n22/tcp open ssh\n80/tcp open http";
    let out = parse_intelligently(raw, "nmap 10.0.0.1");
    match &out.structured {
        StructuredData::Nmap { hosts_up, open_ports, services } => {
            assert_eq!(*hosts_up, 1);
            assert_eq!(open_ports, &vec!["22/tcp".to_string(), "80/tcp".to_string()]);
            assert_eq!(services, &vec!["ssh".to_string(), "http".to_string()]);
        }
        other => panic!("wrong structured record: {:?}", other),
    }
    assert_eq!(out.findings.len(), 3);
    assert!(matches!(out.findings[0].importance, Importance::Medium));
    assert!(matches!(out.findings[1].importance, Importance::High));
    assert_eq!(out.summary, "Network scan complete - 1 hosts active, 2 open ports");
}

#[test]
fn network_table_extraction() {
    let raw = "tcp 0 0 10.0.0.1:22 10.0.0.9:51000 ESTABLISHED\ntcp LISTEN 0 128";
    let out = parse_intelligently(raw, "netstat -tupn");
    match &out.structured {
        StructuredData::NetworkTable { connections, established_count, listening_count } => {
            assert_eq!(*established_count, 1);
            assert_eq!(*listening_count, 1);
            assert_eq!(connections.len(), 1);
            assert_eq!(connections[0].protocol, "tcp");
            assert_eq!(connections[0].local, "10.0.0.1:22");
            assert_eq!(connections[0].remote, "10.0.0.9:51000");
            assert_eq!(connections[0].state, "ESTABLISHED");
        }
        other => panic!("wrong structured record: {:?}", other),
    }
    assert_eq!(out.summary, "1 established, 1 listening");
}

#[test]
fn process_table_extraction() {
    let raw = "PID TTY TIME CMD\n1 ? 00:00:01 init\n2 ? 00:00:00 kthreadd\n\n";
    let out = parse_intelligently(raw, "ps aux");
    match &out.structured {
        StructuredData::ProcessTable { process_count } => {
            assert_eq!(*process_count, 2);
        }
        other => panic!("wrong structured record: {:?}", other),
    }
    assert_eq!(out.summary, "2 processes");
    assert_eq!(out.findings.len(), 1);
    assert!(matches!(out.findings[0].importance, Importance::Info));
}

#[test]
fn ls_long_extraction() {
    let raw = "-rw-r--r-- 1 u g 1234 Jan 1 a.txt\ndrwxr-xr-x 2 u g 4096 Jan 1 dir\n-rw-r--r-- 1 u g 66 Jan 1 b.txt";
    let out = parse_intelligently(raw, "ls -l");
    match &out.structured {
        StructuredData::LsLong { files, directories, total_size_bytes } => {
            assert_eq!(*files, 2);
            assert_eq!(*directories, 1);
            assert_eq!(*total_size_bytes, 1300);
        }
        other => panic!("wrong structured record: {:?}", other),
    }
    assert_eq!(out.summary, "2 files, 1 directories");
}

#[test]
fn ip_addr_extraction() {
    let raw = "2: eth0: <BROADCAST,MULTICAST,UP>\n    inet 192.168.1.5/24 brd 192.168.1.255 scope global eth0\n3: wlan0: <BROADCAST>\n    inet6 ::1/128 scope host";
    let out = parse_intelligently(raw, "ip addr");
    match &out.structured {
        StructuredData::IpAddr { interfaces, ipv4_addresses } => {
            assert_eq!(interfaces, &vec!["eth0".to_string(), "wlan0".to_string()]);
            assert_eq!(ipv4_addresses, &vec!["192.168.1.5/24".to_string()]);
        }
        other => panic!("wrong structured record: {:?}", other),
    }
    assert_eq!(out.summary, "2 interfaces, 1 IPs");
}

#[test]
fn journalctl_extraction() {
    let raw = "foo.service failed to start\nsomething harmless\nlow disk warning";
    let out = parse_intelligently(raw, "journalctl -b");
    match &out.structured {
        StructuredData::Journalctl { error_count, warning_count, failed_services, errors, warnings } => {
            assert_eq!(*error_count, 1);
            assert_eq!(*warning_count, 1);
            assert_eq!(failed_services, &vec!["foo".to_string()]);
            assert_eq!(errors, &vec!["foo.service failed to start".to_string()]);
            assert_eq!(warnings, &vec!["low disk warning".to_string()]);
        }
        other => panic!("wrong structured record: {:?}", other),
    }
    assert_eq!(out.summary, "1 error(s), 1 warning(s) in logs");
}

#[test]
fn journalctl_keeps_ten_samples_and_dedups_services() {
    let mut text = String::new();
    for i in 0..12 {
        text.push_str(&format!("foo.service failed attempt {}\n", i));
    }
    let out = parse_intelligently(&text, "journalctl");
    match &out.structured {
        StructuredData::Journalctl { error_count, failed_services, errors, .. } => {
            assert_eq!(*error_count, 12);
            assert_eq!(errors.len(), 10);
            assert_eq!(failed_services, &vec!["foo".to_string()]);
        }
        other => panic!("wrong structured record: {:?}", other),
    }
}

#[test]
fn plain_text_fallback() {
    let raw = "just some text\nwith two lines";
    let out = parse_intelligently(raw, "whoami");
    assert_eq!(out.metadata.format_detected, "plain_text");
    match &out.structured {
        StructuredData::PlainText { line_count } => {
            assert_eq!(*line_count, 2);
        }
        other => panic!("wrong structured record: {:?}", other),
    }
    assert_eq!(out.findings.len(), 0);
    assert_eq!(out.summary, "Output captured (2 lines)");
    assert_eq!(out.metadata.line_count, 2);
    assert_eq!(out.metadata.byte_count, raw.len());
    assert_eq!(out.raw, raw);
    assert!(out.metadata.duration_ms.is_none());
}

#[test]
fn disk_usage_empty_capture() {
    let out = parse_intelligently("", "df");
    match &out.structured {
        StructuredData::DiskUsage { filesystems } => assert!(filesystems.is_empty()),
        other => panic!("wrong structured record: {:?}", other),
    }
    assert_eq!(out.findings.len(), 0);
    assert_eq!(out.summary, "0 filesystem(s) checked");
}

#[test]
fn network_table_weighs_many_connections_high() {
    let mut fifty = String::new();
    for i in 0..50 {
        fifty.push_str(&format!("tcp 0 0 a:{} b:{} ESTABLISHED\n", i, i));
    }
    let out = parse_intelligently(&fifty, "ss -t");
    assert!(matches!(out.findings[0].importance, Importance::Info));

    let mut many = fifty.clone();
    many.push_str("tcp 0 0 a:50 b:50 ESTABLISHED\n");
    let out = parse_intelligently(&many, "ss -t");
    assert!(matches!(out.findings[0].importance, Importance::High));
}

#[test]
fn nmap_weighs_many_hosts_high() {
    let ten = "Host is up.\n".repeat(10);
    let out = parse_intelligently(&ten, "nmap");
    assert!(matches!(out.findings[0].importance, Importance::Medium));
    let eleven = "Host is up.\n".repeat(11);
    let out = parse_intelligently(&eleven, "nmap");
    assert!(matches!(out.findings[0].importance, Importance::High));
}

#[test]
fn nmap_without_hosts() {
    let out = parse_intelligently("Nmap done: 0 hosts up", "nmap 10.0.0.1");
    assert_eq!(out.summary, "Network scan complete - no hosts detected");
    assert_eq!(out.findings.len(), 0);
}
