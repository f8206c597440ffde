//! Text rendering: ANSI colors, padding and truncation, findings and
//! metadata display, and batch-result reports.
//!
//! Every function here is a pure function from values to text; the exact
//! text is stated in the specifications.

use vstd::prelude::*;
use crate::parser::{Finding, FindingModel, Importance, Metadata, finding_views};
use crate::text::{dec_str, repeat_char, repeat_chars, string_from_chars, u64_dec_string, usize_dec_string};

verus! {

// ---------------------------------------------------------------------------
// ANSI colors
// ---------------------------------------------------------------------------

/// `s` wrapped in the given ANSI escape and a reset.
pub open spec fn wrapped(esc: Seq<char>, s: Seq<char>) -> Seq<char> {
    esc + s + "\u{1b}[0m"@
}

/// `s` in red.
pub fn color_red(s: &str) -> (r: String)
    ensures
        r@ == wrapped("\u{1b}[31m"@, s@),
{
    let mut r = "\u{1b}[31m".to_owned();
    r.append(s);
    r.append("\u{1b}[0m");
    r
}

/// `s` in green.
pub fn color_green(s: &str) -> (r: String)
    ensures
        r@ == wrapped("\u{1b}[32m"@, s@),
{
    let mut r = "\u{1b}[32m".to_owned();
    r.append(s);
    r.append("\u{1b}[0m");
    r
}

/// `s` in yellow.
pub fn color_yellow(s: &str) -> (r: String)
    ensures
        r@ == wrapped("\u{1b}[33m"@, s@),
{
    let mut r = "\u{1b}[33m".to_owned();
    r.append(s);
    r.append("\u{1b}[0m");
    r
}

/// `s` in blue.
pub fn color_blue(s: &str) -> (r: String)
    ensures
        r@ == wrapped("\u{1b}[34m"@, s@),
{
    let mut r = "\u{1b}[34m".to_owned();
    r.append(s);
    r.append("\u{1b}[0m");
    r
}

/// `s` in magenta.
pub fn color_magenta(s: &str) -> (r: String)
    ensures
        r@ == wrapped("\u{1b}[35m"@, s@),
{
    let mut r = "\u{1b}[35m".to_owned();
    r.append(s);
    r.append("\u{1b}[0m");
    r
}

/// `s` in cyan.
pub fn color_cyan(s: &str) -> (r: String)
    ensures
        r@ == wrapped("\u{1b}[36m"@, s@),
{
    let mut r = "\u{1b}[36m".to_owned();
    r.append(s);
    r.append("\u{1b}[0m");
    r
}

/// `s` in bold.
pub fn color_bold(s: &str) -> (r: String)
    ensures
        r@ == wrapped("\u{1b}[1m"@, s@),
{
    let mut r = "\u{1b}[1m".to_owned();
    r.append(s);
    r.append("\u{1b}[0m");
    r
}

/// `s` dimmed.
pub fn color_dim(s: &str) -> (r: String)
    ensures
        r@ == wrapped("\u{1b}[2m"@, s@),
{
    let mut r = "\u{1b}[2m".to_owned();
    r.append(s);
    r.append("\u{1b}[0m");
    r
}

// ---------------------------------------------------------------------------
// Stripping colors
// ---------------------------------------------------------------------------

/// A character that may stand inside a color escape: a digit or a
/// semicolon.
pub open spec fn is_sgr_char(c: char) -> bool {
    crate::text::is_digit(c) || c == ';'
}

/// The end of the run of escape-body characters starting at `i`.
pub open spec fn sgr_run(s: Seq<char>, i: int) -> int
    decreases s.len() - i
        when 0 <= i <= s.len()
{
    if i < s.len() && is_sgr_char(s[i]) {
        sgr_run(s, i + 1)
    } else {
        i
    }
}

/// Whether a color escape begins at the front of `s`, and where it ends.
pub open spec fn sgr_at_front(s: Seq<char>) -> Option<int> {
    if s.len() >= 2 && s[0] == '\u{1b}' && s[1] == '[' {
        let e = sgr_run(s, 2);
        if 2 <= e && e < s.len() && s[e] == 'm' {
            Some(e)
        } else {
            None
        }
    } else {
        None
    }
}

/// `s` with every ANSI color escape removed, scanning left to right.
pub open spec fn strip_ansi(s: Seq<char>) -> Seq<char>
    decreases s.len(),
{
    if s.len() == 0 {
        s
    } else {
        match sgr_at_front(s) {
            Some(e) => strip_ansi(s.skip(e + 1)),
            None => seq![s[0]] + strip_ansi(s.drop_first()),
        }
    }
}

proof fn lemma_sgr_run_shift(s: Seq<char>, i: int, j: int)
    requires
        0 <= i,
        0 <= j,
        i + j <= s.len(),
    ensures
        sgr_run(s.skip(i), j) == sgr_run(s, i + j) - i,
    decreases s.len() - i - j,
{
    assert(s.skip(i).len() == s.len() - i);
    if i + j < s.len() && is_sgr_char(s[i + j]) {
        assert(s.skip(i)[j] == s[i + j]);
        lemma_sgr_run_shift(s, i, j + 1);
    } else {
        if j < s.skip(i).len() {
            assert(s.skip(i)[j] == s[i + j]);
        }
    }
}

/// Whether `c` may stand inside a color escape.
fn is_sgr_char_exec(c: char) -> (r: bool)
    ensures
        r == is_sgr_char(c),
{
    match c {
        '0' => true,
        '1' => true,
        '2' => true,
        '3' => true,
        '4' => true,
        '5' => true,
        '6' => true,
        '7' => true,
        '8' => true,
        '9' => true,
        ';' => true,
        _ => false,
    }
}

/// The end of the run of escape-body characters starting at `i`.
fn sgr_run_exec(l: &Vec<char>, i: usize) -> (r: usize)
    requires
        i <= l@.len(),
    ensures
        i <= r <= l@.len(),
        r == sgr_run(l@, i as int),
{
    let n = l.len();
    let mut j: usize = i;
    while j < n && is_sgr_char_exec(l[j])
        invariant
            n == l@.len(),
            i <= j <= n,
            sgr_run(l@, i as int) == sgr_run(l@, j as int),
        decreases n - j,
    {
        j = j + 1;
    }
    j
}

/// Strips ANSI color escapes from a string.
pub fn strip_colors(s: &str) -> (r: String)
    ensures
        r@ == strip_ansi(s@),
{
    let v = crate::text::chars_vec(s);
    let n = v.len();
    let mut out: Vec<char> = Vec::new();
    let mut i: usize = 0;
    proof {
        assert(v@.skip(0) =~= v@);
        assert(out@ + strip_ansi(v@.skip(0)) =~= strip_ansi(v@));
    }
    while i < n
        invariant
            n == v@.len(),
            i <= n,
            strip_ansi(v@) == out@ + strip_ansi(v@.skip(i as int)),
        decreases n - i,
    {
        let ghost suffix = v@.skip(i as int);
        proof {
            crate::text::lemma_skip_one(v@, i as int);
        }
        let mut consumed = false;
        if v[i] == '\u{1b}' && i + 1 < n && v[i + 1] == '[' {
            proof {
                lemma_sgr_run_shift(v@, i as int, 2);
            }
            let e = sgr_run_exec(&v, i + 2);
            if e < n && v[e] == 'm' {
                proof {
                    assert(suffix[0] == '\u{1b}');
                    assert(suffix[1] == '[');
                    assert(sgr_run(suffix, 2) == e - i);
                    assert(suffix[e - i] == v@[e as int]);
                    assert(sgr_at_front(suffix) == Some(e - i));
                    assert(suffix.skip(e - i + 1) =~= v@.skip(e + 1));
                }
                i = e + 1;
                consumed = true;
            } else {
                proof {
                    assert(sgr_run(suffix, 2) == e - i);
                    if e - i < suffix.len() {
                        assert(suffix[e - i] == v@[e as int]);
                    }
                    assert(sgr_at_front(suffix) is None);
                }
            }
        } else {
            proof {
                if suffix.len() >= 2 && suffix[0] == '\u{1b}' && suffix[1] == '[' {
                    assert(v@[i as int] == '\u{1b}' && v@[i + 1] == '[');
                }
                assert(sgr_at_front(suffix) is None);
            }
        }
        if !consumed {
            proof {
                assert(strip_ansi(suffix) == seq![v@[i as int]] + strip_ansi(v@.skip(i + 1)));
                assert(out@ + (seq![v@[i as int]] + strip_ansi(v@.skip(i + 1))) =~= out@.push(
                    v@[i as int],
                ) + strip_ansi(v@.skip(i + 1)));
            }
            out.push(v[i]);
            i = i + 1;
        }
    }
    proof {
        assert(v@.skip(n as int) =~= Seq::<char>::empty());
        assert(out@ + Seq::<char>::empty() =~= out@);
    }
    string_from_chars(&out)
}

// ---------------------------------------------------------------------------
// Padding and truncation
// ---------------------------------------------------------------------------

/// `s` padded with spaces to `width` characters; a longer string is kept.
pub open spec fn spec_pad(s: Seq<char>, width: int) -> Seq<char> {
    if s.len() >= width {
        s
    } else {
        s + repeat_char(' ', (width - s.len()) as nat)
    }
}

/// Pads a string with spaces to the given width.
pub fn pad_string(s: &str, width: usize) -> (r: String)
    ensures
        r@ == spec_pad(s@, width as int),
{
    let n = s.unicode_len();
    if n >= width {
        return s.to_owned();
    }
    let pad = repeat_chars(' ', width - n);
    let mut r = s.to_owned();
    let pad_str = string_from_chars(&pad);
    r.append(pad_str.as_str());
    r
}

/// `s` cut to `max_len` characters with a closing ellipsis; a short enough
/// string is kept, and a tiny budget leaves just the ellipsis.
pub open spec fn spec_truncate_string(s: Seq<char>, max_len: int) -> Seq<char> {
    if s.len() <= max_len {
        s
    } else if max_len <= 3 {
        "..."@
    } else {
        s.take(max_len - 3) + "..."@
    }
}

/// Truncates a string to at most `max_len` characters with an ellipsis.
pub fn truncate_string(s: &str, max_len: usize) -> (r: String)
    ensures
        r@ == spec_truncate_string(s@, max_len as int),
{
    let n = s.unicode_len();
    if n <= max_len {
        return s.to_owned();
    }
    if max_len <= 3 {
        return "...".to_owned();
    }
    let v = crate::text::chars_vec(s);
    let head = crate::text::take_chars(&v, max_len - 3);
    let mut r = string_from_chars(&head);
    r.append("...");
    r
}

// ---------------------------------------------------------------------------
// Findings and summaries
// ---------------------------------------------------------------------------

/// The icon shown for each severity.
pub open spec fn importance_icon(imp: Importance) -> Seq<char> {
    match imp {
        Importance::Critical => "\u{1f534}"@,
        Importance::High => "\u{1f7e0}"@,
        Importance::Medium => "\u{1f7e1}"@,
        Importance::Low => "\u{1f7e2}"@,
        Importance::Info => "\u{2139}\u{fe0f} "@,
    }
}

/// One finding rendered as an indented line: icon, bold category, message.
pub open spec fn spec_format_finding(f: FindingModel) -> Seq<char> {
    "  "@ + importance_icon(f.importance) + " "@ + wrapped("\u{1b}[1m"@, f.category) + " - "@
        + f.message + "\n"@
}

/// Renders one finding with its severity icon and bold category.
pub fn format_finding(finding: &Finding) -> (r: String)
    ensures
        r@ == spec_format_finding(finding@),
{
    let mut r = "  ".to_owned();
    let icon: &str = match finding.importance {
        Importance::Critical => "\u{1f534}",
        Importance::High => "\u{1f7e0}",
        Importance::Medium => "\u{1f7e1}",
        Importance::Low => "\u{1f7e2}",
        Importance::Info => "\u{2139}\u{fe0f} ",
    };
    r.append(icon);
    r.append(" ");
    let bold = color_bold(finding.category.as_str());
    r.append(bold.as_str());
    r.append(" - ");
    r.append(finding.message.as_str());
    r.append("\n");
    r
}

/// How many findings carry the given severity.
pub open spec fn count_importance(fs: Seq<FindingModel>, imp: Importance) -> nat
    decreases fs.len(),
{
    if fs.len() == 0 {
        0
    } else {
        count_importance(fs.drop_last(), imp) + if fs.last().importance == imp {
            1nat
        } else {
            0nat
        }
    }
}

proof fn lemma_count_importance_snoc(fs: Seq<FindingModel>, f: FindingModel, imp: Importance)
    ensures
        count_importance(fs.push(f), imp) == count_importance(fs, imp) + if f.importance == imp {
            1nat
        } else {
            0nat
        },
{
    assert(fs.push(f).drop_last() =~= fs);
    assert(fs.push(f).last() == f);
}

/// The one-line summary of a list of findings: criticals first, then highs,
/// else the first finding's message; no findings means plain success.
pub open spec fn spec_generate_summary(fs: Seq<FindingModel>) -> Seq<char> {
    if fs.len() == 0 {
        "Command completed successfully"@
    } else {
        let critical = count_importance(fs, Importance::Critical);
        let high = count_importance(fs, Importance::High);
        if critical > 0 {
            dec_str(critical) + " critical issue(s) found"@
        } else if high > 0 {
            dec_str(high) + " important finding(s) detected"@
        } else {
            fs[0].message
        }
    }
}

/// Summarizes a list of findings in one line, weighing criticals first.
pub fn generate_summary(findings: &[Finding]) -> (r: String)
    ensures
        r@ == spec_generate_summary(finding_views(findings@)),
{
    let n = findings.len();
    if n == 0 {
        proof {
            assert(finding_views(findings@).len() == 0);
        }
        return "Command completed successfully".to_owned();
    }
    let mut critical: usize = 0;
    let mut high: usize = 0;
    let mut i: usize = 0;
    proof {
        assert(finding_views(findings@).take(0) =~= Seq::<FindingModel>::empty());
    }
    while i < n
        invariant
            n == findings@.len(),
            i <= n,
            critical <= i,
            high <= i,
            critical == count_importance(finding_views(findings@).take(i as int), Importance::Critical),
            high == count_importance(finding_views(findings@).take(i as int), Importance::High),
        decreases n - i,
    {
        proof {
            assert(finding_views(findings@).take(i + 1) =~= finding_views(findings@).take(
                i as int,
            ).push(findings@[i as int]@));
            lemma_count_importance_snoc(
                finding_views(findings@).take(i as int),
                findings@[i as int]@,
                Importance::Critical,
            );
            lemma_count_importance_snoc(
                finding_views(findings@).take(i as int),
                findings@[i as int]@,
                Importance::High,
            );
        }
        match findings[i].importance {
            Importance::Critical => {
                critical = critical + 1;
            },
            Importance::High => {
                high = high + 1;
            },
            _ => {},
        }
        i = i + 1;
    }
    proof {
        assert(finding_views(findings@).take(n as int) =~= finding_views(findings@));
    }
    if critical > 0 {
        let mut r = usize_dec_string(critical);
        r.append(" critical issue(s) found");
        r
    } else if high > 0 {
        let mut r = usize_dec_string(high);
        r.append(" important finding(s) detected");
        r
    } else {
        proof {
            assert(finding_views(findings@)[0] == findings@[0]@);
        }
        findings[0].message.clone()
    }
}

// ---------------------------------------------------------------------------
// Errors and metadata
// ---------------------------------------------------------------------------

/// A failed command rendered in red: the command, then the error.
pub open spec fn spec_format_error(command: Seq<char>, err: Seq<char>) -> Seq<char> {
    wrapped("\u{1b}[31m"@, "\u{2717} Command failed: "@ + command) + "\n"@ + wrapped(
        "\u{1b}[31m"@,
        "  Error: "@ + err,
    ) + "\n"@
}

/// Renders a failed command and its error in red.
pub fn format_error(command: &str, error_text: &str) -> (r: String)
    ensures
        r@ == spec_format_error(command@, error_text@),
{
    let mut head = "\u{2717} Command failed: ".to_owned();
    head.append(command);
    let mut tail = "  Error: ".to_owned();
    tail.append(error_text);
    let mut r = color_red(head.as_str());
    r.append("\n");
    let colored_tail = color_red(tail.as_str());
    r.append(colored_tail.as_str());
    r.append("\n");
    r
}

/// The dimmed metadata block: line count, byte size, and the duration when
/// one was measured.
pub open spec fn spec_format_metadata(m: crate::parser::MetadataModel) -> Seq<char> {
    let header = wrapped("\u{1b}[2m"@, "\n\u{2500}\u{2500}\u{2500} Metadata \u{2500}\u{2500}\u{2500}\n"@);
    let lines_part = wrapped("\u{1b}[2m"@, "Lines: "@ + dec_str(m.line_count as nat) + "\n"@);
    let size_part = wrapped("\u{1b}[2m"@, "Size: "@ + dec_str(m.byte_count as nat) + " bytes\n"@);
    let duration_part = match m.duration_ms {
        Some(d) => wrapped("\u{1b}[2m"@, "Duration: "@ + dec_str(d as nat) + "ms\n"@),
        None => Seq::empty(),
    };
    header + lines_part + size_part + duration_part
}

/// Renders the metadata block, dimmed.
pub fn format_metadata(metadata: &Metadata) -> (r: String)
    ensures
        r@ == spec_format_metadata(metadata@),
{
    let mut r = color_dim("\n\u{2500}\u{2500}\u{2500} Metadata \u{2500}\u{2500}\u{2500}\n");
    let mut lines_text = "Lines: ".to_owned();
    let ldigits = usize_dec_string(metadata.line_count);
    lines_text.append(ldigits.as_str());
    lines_text.append("\n");
    let lines_colored = color_dim(lines_text.as_str());
    r.append(lines_colored.as_str());
    let mut size_text = "Size: ".to_owned();
    let bdigits = usize_dec_string(metadata.byte_count);
    size_text.append(bdigits.as_str());
    size_text.append(" bytes\n");
    let size_colored = color_dim(size_text.as_str());
    r.append(size_colored.as_str());
    match metadata.duration_ms {
        Some(d) => {
            let mut dur_text = "Duration: ".to_owned();
            let ddigits = u64_dec_string(d);
            dur_text.append(ddigits.as_str());
            dur_text.append("ms\n");
            let dur_colored = color_dim(dur_text.as_str());
            r.append(dur_colored.as_str());
        },
        None => {},
    }
    r
}

// ---------------------------------------------------------------------------
// Batch reports
// ---------------------------------------------------------------------------

/// One command's line in the batch report: its position and command in
/// cyan, then a completion or failure mark.
pub open spec fn batch_entry_line(c: crate::batch::BatchCommandModel, total: int) -> Seq<char> {
    wrapped(
        "\u{1b}[36m"@,
        "["@ + dec_str(c.index as nat) + "/"@ + dec_str(total as nat) + "] "@ + c.command,
    ) + "\n"@ + (if c.success {
        "  "@ + wrapped("\u{1b}[32m"@, "\u{2713} Completed"@) + "\n"@
    } else {
        "  "@ + wrapped(
            "\u{1b}[31m"@,
            "\u{2717} Failed: "@ + (match c.error {
                Some(e) => e,
                None => "Unknown error"@,
            }),
        ) + "\n"@
    })
}

/// The command lines of the batch report, in order.
pub open spec fn batch_entry_lines(cmds: Seq<crate::batch::BatchCommandModel>, total: int) -> Seq<char>
    decreases cmds.len(),
{
    if cmds.len() == 0 {
        Seq::empty()
    } else {
        batch_entry_lines(cmds.drop_last(), total) + batch_entry_line(cmds.last(), total)
    }
}

/// One command's explanation block in the batch report.
pub open spec fn batch_explanation_block(c: crate::batch::BatchCommandModel) -> Seq<char> {
    "["@ + dec_str(c.index as nat) + "] "@ + wrapped("\u{1b}[1m"@, c.command) + "\n"@ + (if c.explanation.len()
        > 0 {
        "  \u{1f4dd} Explanation: "@ + c.explanation + "\n"@
    } else {
        "  \u{1f4dd} Explanation: (AI explanation pending)\n"@
    }) + "\n"@
}

/// The explanation blocks of the batch report, in order.
pub open spec fn batch_explanation_blocks(cmds: Seq<crate::batch::BatchCommandModel>) -> Seq<char>
    decreases cmds.len(),
{
    if cmds.len() == 0 {
        Seq::empty()
    } else {
        batch_explanation_blocks(cmds.drop_last()) + batch_explanation_block(cmds.last())
    }
}

/// The whole batch report: a header, the command lines, the explanation
/// section, and the closing counts.
pub open spec fn spec_format_batch_result(b: crate::batch::BatchExecutionModel) -> Seq<char> {
    "\n"@ + wrapped("\u{1b}[36m"@, "\u{26a1} Executing commands in sequence..."@) + "\n"@ + wrapped(
        "\u{1b}[2m"@,
        repeat_char('\u{2500}', 60),
    ) + "\n\n"@ + batch_entry_lines(b.commands, b.total_commands) + wrapped(
        "\u{1b}[2m"@,
        repeat_char('\u{2500}', 60),
    ) + "\n"@ + "\n"@ + wrapped("\u{1b}[35m"@, "\u{1f916} AI COMMAND EXPLANATIONS"@) + "\n"@
        + repeat_char('=', 60) + "\n\n"@ + batch_explanation_blocks(b.commands) + repeat_char('=', 60)
        + "\n"@ + wrapped("\u{1b}[33m"@, "\u{1f4a1} COMMAND SUMMARY"@) + "\n"@ + repeat_char('=', 60)
        + "\n\n"@ + "\u{2713} "@ + wrapped(
        "\u{1b}[32m"@,
        dec_str(b.successful as nat) + "/"@ + dec_str(b.total_commands as nat),
    ) + " completed successfully\n"@ + (if b.failed > 0 {
        "\u{2717} "@ + wrapped("\u{1b}[31m"@, dec_str(b.failed as nat)) + " failed\n"@
    } else {
        Seq::empty()
    })
}

/// Renders the report for one batch run.
pub fn format_batch_result(batch: &crate::batch::BatchExecutionResult) -> (r: String)
    ensures
        r@ == spec_format_batch_result(batch@),
{
    let dashes_chars = repeat_chars('\u{2500}', 60);
    let dashes = string_from_chars(&dashes_chars);
    let eqs_chars = repeat_chars('=', 60);
    let eqs = string_from_chars(&eqs_chars);
    let n = batch.commands.len();
    let total = batch.total_commands;

    let mut entries = String::new();
    let mut i: usize = 0;
    proof {
        assert(crate::batch::batch_command_views(batch.commands@).take(0)
            =~= Seq::<crate::batch::BatchCommandModel>::empty());
    }
    while i < n
        invariant
            n == batch.commands@.len(),
            i <= n,
            total == batch.total_commands,
            entries@ == batch_entry_lines(
                crate::batch::batch_command_views(batch.commands@).take(i as int),
                total as int,
            ),
        decreases n - i,
    {
        let c = &batch.commands[i];
        let mut head = "[".to_owned();
        let idigits = usize_dec_string(c.index);
        head.append(idigits.as_str());
        head.append("/");
        let tdigits = usize_dec_string(total);
        head.append(tdigits.as_str());
        head.append("] ");
        head.append(c.command.as_str());
        let mut entry = color_cyan(head.as_str());
        entry.append("\n");
        if c.success {
            entry.append("  ");
            let mark = color_green("\u{2713} Completed");
            entry.append(mark.as_str());
            entry.append("\n");
        } else {
            entry.append("  ");
            let mut fail_text = "\u{2717} Failed: ".to_owned();
            match c.error {
                Some(ref e) => {
                    fail_text.append(e.as_str());
                },
                None => {
                    fail_text.append("Unknown error");
                },
            }
            let mark = color_red(fail_text.as_str());
            entry.append(mark.as_str());
            entry.append("\n");
        }
        proof {
            let views = crate::batch::batch_command_views(batch.commands@);
            assert(views[i as int] == batch.commands@[i as int]@);
            assert(entry@ =~= batch_entry_line(views[i as int], total as int));
            assert(views.take(i + 1) =~= views.take(i as int).push(views[i as int]));
            assert(views.take(i + 1).drop_last() =~= views.take(i as int));
        }
        entries.append(entry.as_str());
        i = i + 1;
    }

    let mut blocks = String::new();
    let mut j: usize = 0;
    proof {
        assert(crate::batch::batch_command_views(batch.commands@).take(0)
            =~= Seq::<crate::batch::BatchCommandModel>::empty());
    }
    while j < n
        invariant
            n == batch.commands@.len(),
            j <= n,
            blocks@ == batch_explanation_blocks(
                crate::batch::batch_command_views(batch.commands@).take(j as int),
            ),
        decreases n - j,
    {
        let c = &batch.commands[j];
        let mut block = "[".to_owned();
        let idigits = usize_dec_string(c.index);
        block.append(idigits.as_str());
        block.append("] ");
        let bold_cmd = color_bold(c.command.as_str());
        block.append(bold_cmd.as_str());
        block.append("\n");
        if !c.explanation.as_str().is_empty() {
            block.append("  \u{1f4dd} Explanation: ");
            block.append(c.explanation.as_str());
            block.append("\n");
        } else {
            block.append("  \u{1f4dd} Explanation: (AI explanation pending)\n");
        }
        block.append("\n");
        proof {
            let views = crate::batch::batch_command_views(batch.commands@);
            assert(views[j as int] == batch.commands@[j as int]@);
            assert(block@ =~= batch_explanation_block(views[j as int]));
            assert(views.take(j + 1) =~= views.take(j as int).push(views[j as int]));
            assert(views.take(j + 1).drop_last() =~= views.take(j as int));
        }
        blocks.append(block.as_str());
        j = j + 1;
    }

    proof {
        assert(crate::batch::batch_command_views(batch.commands@).take(n as int)
            =~= crate::batch::batch_command_views(batch.commands@));
    }

    let mut r = "\n".to_owned();
    let header = color_cyan("\u{26a1} Executing commands in sequence...");
    r.append(header.as_str());
    r.append("\n");
    let dim_dashes = color_dim(dashes.as_str());
    r.append(dim_dashes.as_str());
    r.append("\n\n");
    r.append(entries.as_str());
    let dim_dashes2 = color_dim(dashes.as_str());
    r.append(dim_dashes2.as_str());
    r.append("\n");
    r.append("\n");
    let ai_header = color_magenta("\u{1f916} AI COMMAND EXPLANATIONS");
    r.append(ai_header.as_str());
    r.append("\n");
    r.append(eqs.as_str());
    r.append("\n\n");
    r.append(blocks.as_str());
    r.append(eqs.as_str());
    r.append("\n");
    let summary_header = color_yellow("\u{1f4a1} COMMAND SUMMARY");
    r.append(summary_header.as_str());
    r.append("\n");
    r.append(eqs.as_str());
    r.append("\n\n");
    r.append("\u{2713} ");
    let mut ratio = usize_dec_string(batch.successful);
    ratio.append("/");
    let tdigits = usize_dec_string(batch.total_commands);
    ratio.append(tdigits.as_str());
    let ratio_colored = color_green(ratio.as_str());
    r.append(ratio_colored.as_str());
    r.append(" completed successfully\n");
    if batch.failed > 0 {
        r.append("\u{2717} ");
        let fdigits = usize_dec_string(batch.failed);
        let failed_colored = color_red(fdigits.as_str());
        r.append(failed_colored.as_str());
        r.append(" failed\n");
    }
    proof {
        assert(r@ =~= spec_format_batch_result(batch@));
    }
    r
}

} // verus!
