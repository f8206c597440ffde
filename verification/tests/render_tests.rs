use archy::batch::BatchExecutionResult;
use archy::formatter;
use archy::parser::{Finding, Importance, Metadata};

fn finding(category: &str, message: &str, importance: Importance) -> Finding {
    Finding {
        category: category.to_string(),
        message: message.to_string(),
        importance,
    }
}

#[test]
fn colors_wrap_and_strip() {
    let red = formatter::color_red("alert");
    assert_eq!(red, "\x1b[31malert\x1b[0m");
    assert_eq!(formatter::color_bold("x"), "\x1b[1mx\x1b[0m");
    assert_eq!(formatter::strip_colors(&red), "alert");
    let mixed = format!(
        "{} and {}",
        formatter::color_green("good"),
        formatter::color_yellow("warn")
    );
    assert_eq!(formatter::strip_colors(&mixed), "good and warn");
    assert_eq!(formatter::strip_colors("no colors"), "no colors");
}

#[test]
fn padding_and_truncation() {
    assert_eq!(formatter::pad_string("ab", 5), "ab   ");
    assert_eq!(formatter::pad_string("abcdef", 3), "abcdef");
    assert_eq!(formatter::truncate_string("abcdef", 10), "abcdef");
    assert_eq!(formatter::truncate_string("abcdefgh", 7), "abcd...");
    assert_eq!(formatter::truncate_string("abcdef", 2), "...");
}

#[test]
fn finding_line_layout() {
    let f = finding("Open Ports", "2 open port(s)", Importance::High);
    let line = formatter::format_finding(&f);
    assert_eq!(
        line,
        "  \u{1f7e0} \x1b[1mOpen Ports\x1b[0m - 2 open port(s)\n"
    );
}

#[test]
fn summary_weighs_severities() {
    assert_eq!(
        formatter::generate_summary(&[]),
        "Command completed successfully"
    );
    let fs = vec![
        finding("a", "info line", Importance::Info),
        finding("b", "bad", Importance::Critical),
        finding("c", "bad again", Importance::Critical),
        finding("d", "high", Importance::High),
    ];
    assert_eq!(formatter::generate_summary(&fs), "2 critical issue(s) found");
    let fs = vec![
        finding("a", "first message", Importance::Info),
        finding("d", "high", Importance::High),
    ];
    assert_eq!(
        formatter::generate_summary(&fs),
        "1 important finding(s) detected"
    );
    let fs = vec![
        finding("a", "first message", Importance::Info),
        finding("b", "second", Importance::Low),
    ];
    assert_eq!(formatter::generate_summary(&fs), "first message");
}

#[test]
fn error_block_layout() {
    let text = formatter::format_error("ls -la", "session gone");
    assert_eq!(
        text,
        "\x1b[31m\u{2717} Command failed: ls -la\x1b[0m\n\x1b[31m  Error: session gone\x1b[0m\n"
    );
}

#[test]
fn metadata_block_layout() {
    let m = Metadata {
        line_count: 2,
        byte_count: 17,
        duration_ms: None,
        format_detected: "plain_text".to_string(),
    };
    let text = formatter::format_metadata(&m);
    let plain = formatter::strip_colors(&text);
    assert_eq!(plain, "\n\u{2500}\u{2500}\u{2500} Metadata \u{2500}\u{2500}\u{2500}\nLines: 2\nSize: 17 bytes\n");
    let m = Metadata { duration_ms: Some(120), ..m };
    let plain = formatter::strip_colors(&formatter::format_metadata(&m));
    assert!(plain.ends_with("Duration: 120ms\n"));
}

#[test]
fn batch_records_and_report() {
    let mut batch = BatchExecutionResult::new();
    assert_eq!(batch.total_commands, 0);
    batch.total_commands = 2;
    batch.record_success(1, "echo hi".to_string(), "prints hi".to_string(), "hi\nuser@host$ ");
    batch.record_failure(
        2,
        "bad cmd".to_string(),
        String::new(),
        "send failed".to_string(),
    );
    batch.finalize_summary();
    assert_eq!(batch.successful, 1);
    assert_eq!(batch.failed, 1);
    assert_eq!(
        batch.summary,
        "Batch executed 2 commands: 1 succeeded, 1 failed"
    );
    assert_eq!(batch.commands.len(), 2);
    assert_eq!(batch.commands[0].status, "success");
    assert_eq!(
        batch.commands[0].output_preview,
        Some("hi\nuser@host$ ".to_string())
    );
    assert_eq!(batch.commands[1].status, "error");
    assert_eq!(batch.commands[1].error, Some("send failed".to_string()));

    let report = formatter::strip_colors(&formatter::format_batch_result(&batch));
    assert!(report.contains("[1/2] echo hi"));
    assert!(report.contains("\u{2713} Completed"));
    assert!(report.contains("[2/2] bad cmd"));
    assert!(report.contains("\u{2717} Failed: send failed"));
    assert!(report.contains("Explanation: prints hi"));
    assert!(report.contains("Explanation: (AI explanation pending)"));
    assert!(report.contains("1/2 completed successfully"));
    assert!(report.contains("\u{2717} 1 failed"));
}

#[test]
fn batch_preview_keeps_six_lines() {
    let out = "l1\nl2\nl3\nl4\nl5\nl6\nl7\nl8";
    assert_eq!(
        archy::batch::preview_of(out),
        Some("l1\nl2\nl3\nl4\nl5\nl6".to_string())
    );
    assert_eq!(archy::batch::preview_of(""), None);
}
