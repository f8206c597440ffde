//! Output classification: data model for parsed command output and the
//! format classifier that decides which extractor runs.
//!
//! A capture is classified once into a [`Format`]; the matching extractor
//! turns it into a [`StructuredData`] record plus a list of [`Finding`]s, and
//! the assembled [`ParsedOutput`] carries both together with metadata about
//! the raw text.

use vstd::prelude::*;
use crate::text::{
    chars_vec, contains_chars, contains_seq, dec_str, lines_of, lower, lower_vec, split_lines,
    string_views, views_of,
};

verus! {

// ---------------------------------------------------------------------------
// Findings
// ---------------------------------------------------------------------------

/// Severity of a single finding.
#[derive(Clone, Copy, Debug, PartialEq, Eq, Structural)]
pub enum Importance {
    Critical,
    High,
    Medium,
    Low,
    Info,
}

/// One severity-tagged observation extracted from captured text.
#[derive(Clone, Debug)]
pub struct Finding {
    pub category: String,
    pub message: String,
    pub importance: Importance,
}

/// Mathematical model of a [`Finding`].
pub struct FindingModel {
    pub category: Seq<char>,
    pub message: Seq<char>,
    pub importance: Importance,
}

impl View for Finding {
    type V = FindingModel;

    open spec fn view(&self) -> FindingModel {
        FindingModel { category: self.category@, message: self.message@, importance: self.importance }
    }
}

/// The models of a vector of findings.
pub open spec fn finding_views(v: Seq<Finding>) -> Seq<FindingModel> {
    v.map_values(|f: Finding| f@)
}

// ---------------------------------------------------------------------------
// Metadata
// ---------------------------------------------------------------------------

/// Facts about the raw capture, computed once before extraction.
#[derive(Clone, Debug)]
pub struct Metadata {
    pub line_count: usize,
    pub byte_count: usize,
    pub duration_ms: Option<u64>,
    pub format_detected: String,
}

/// Mathematical model of [`Metadata`].
pub struct MetadataModel {
    pub line_count: int,
    pub byte_count: int,
    pub duration_ms: Option<u64>,
    pub format_detected: Seq<char>,
}

impl View for Metadata {
    type V = MetadataModel;

    open spec fn view(&self) -> MetadataModel {
        MetadataModel {
            line_count: self.line_count as int,
            byte_count: self.byte_count as int,
            duration_ms: self.duration_ms,
            format_detected: self.format_detected@,
        }
    }
}

// ---------------------------------------------------------------------------
// Formats
// ---------------------------------------------------------------------------

/// The recognized categories of captured text.
#[derive(Clone, Copy, Debug, PartialEq, Eq, Structural)]
pub enum Format {
    Nmap,
    NetworkTable,
    ProcessTable,
    LsLong,
    IpAddr,
    Systemctl,
    DiskUsage,
    BlockDevices,
    Journalctl,
    Json,
    Table,
    PlainText,
}

/// The name under which each format is reported.
pub open spec fn format_name(f: Format) -> Seq<char> {
    match f {
        Format::Nmap => "nmap"@,
        Format::NetworkTable => "network_table"@,
        Format::ProcessTable => "process_table"@,
        Format::LsLong => "ls_long"@,
        Format::IpAddr => "ip_addr"@,
        Format::Systemctl => "systemctl"@,
        Format::DiskUsage => "disk_usage"@,
        Format::BlockDevices => "block_devices"@,
        Format::Journalctl => "journalctl"@,
        Format::Json => "json"@,
        Format::Table => "table"@,
        Format::PlainText => "plain_text"@,
    }
}

/// A line counted by the table heuristic: it holds a pipe or a box-drawing
/// vertical bar.
pub open spec fn is_sep_line(l: Seq<char>) -> bool {
    contains_seq(l, seq!['|']) || contains_seq(l, seq!['\u{2502}'])
}

/// How many lines the table heuristic counts.
pub open spec fn sep_line_count(lines: Seq<Seq<char>>) -> nat
    decreases lines.len(),
{
    if lines.len() == 0 {
        0
    } else {
        sep_line_count(lines.drop_last()) + if is_sep_line(lines.last()) {
            1nat
        } else {
            0nat
        }
    }
}

/// The command tier of the classifier: substring checks against the
/// lower-cased command, first match winning.
pub open spec fn command_format(lc: Seq<char>) -> Option<Format> {
    if contains_seq(lc, "nmap"@) {
        Some(Format::Nmap)
    } else if contains_seq(lc, "netstat"@) || contains_seq(lc, "ss"@) {
        Some(Format::NetworkTable)
    } else if contains_seq(lc, "ps"@) || contains_seq(lc, "top"@) {
        Some(Format::ProcessTable)
    } else if contains_seq(lc, "ls"@) && (contains_seq(lc, "-l"@) || contains_seq(lc, "--long"@)) {
        Some(Format::LsLong)
    } else if contains_seq(lc, "ip"@) && (contains_seq(lc, "addr"@) || contains_seq(lc, "ip a"@) || lc
        == "ip a"@) {
        Some(Format::IpAddr)
    } else if contains_seq(lc, "systemctl"@) {
        Some(Format::Systemctl)
    } else if contains_seq(lc, "df"@) {
        Some(Format::DiskUsage)
    } else if contains_seq(lc, "lsblk"@) {
        Some(Format::BlockDevices)
    } else if contains_seq(lc, "journalctl"@) {
        Some(Format::Journalctl)
    } else {
        None
    }
}

/// The content tier of the classifier, reached when no command rule fires.
pub open spec fn content_format(out: Seq<char>, lo: Seq<char>) -> Format {
    if contains_seq(lo, "starting nmap"@) || contains_seq(lo, "host is up"@) {
        Format::Nmap
    } else if contains_seq(lo, "tcp"@) && contains_seq(lo, "established"@) {
        Format::NetworkTable
    } else if sep_line_count(lines_of(out)) > 3 {
        Format::Table
    } else if out.len() > 0 && (out[0] == '{' || out[0] == '[') {
        Format::Json
    } else {
        Format::PlainText
    }
}

/// The format chosen for raw output `out` produced by command `cmd`.
///
/// Total by construction: every pair of inputs maps to exactly one format,
/// with `PlainText` as the fallback when no rule fires.
pub open spec fn spec_detect_format(out: Seq<char>, cmd: Seq<char>) -> Format {
    match command_format(lower(cmd)) {
        Some(f) => f,
        None => content_format(out, lower(out)),
    }
}

/// When no command rule and no content rule fires, classification falls back
/// to `PlainText`.
pub proof fn lemma_detect_format_fallback(out: Seq<char>, cmd: Seq<char>)
    requires
        command_format(lower(cmd)) is None,
        !contains_seq(lower(out), "starting nmap"@),
        !contains_seq(lower(out), "host is up"@),
        !(contains_seq(lower(out), "tcp"@) && contains_seq(lower(out), "established"@)),
        sep_line_count(lines_of(out)) <= 3,
        !(out.len() > 0 && (out[0] == '{' || out[0] == '[')),
    ensures
        spec_detect_format(out, cmd) == Format::PlainText,
{
}

proof fn lemma_sep_count_snoc(lines: Seq<Seq<char>>, l: Seq<char>)
    ensures
        sep_line_count(lines.push(l)) == sep_line_count(lines) + if is_sep_line(l) {
            1nat
        } else {
            0nat
        },
{
    assert(lines.push(l).drop_last() =~= lines);
    assert(lines.push(l).last() == l);
}

/// Counts the lines that the table heuristic counts.
fn count_sep_lines(lines: &Vec<Vec<char>>) -> (r: usize)
    ensures
        r == sep_line_count(views_of(lines@)),
{
    let pipe = chars_vec("|");
    let bar = chars_vec("\u{2502}");
    proof {
        reveal_strlit("|");
        reveal_strlit("\u{2502}");
        assert(pipe@ =~= seq!['|']);
        assert(bar@ =~= seq!['\u{2502}']);
    }
    let n = lines.len();
    let mut count: usize = 0;
    let mut i: usize = 0;
    proof {
        assert(views_of(lines@.subrange(0, 0)) =~= Seq::<Seq<char>>::empty());
    }
    while i < n
        invariant
            n == lines@.len(),
            i <= n,
            count <= i,
            pipe@ == seq!['|'],
            bar@ == seq!['\u{2502}'],
            count == sep_line_count(views_of(lines@.subrange(0, i as int))),
        decreases n - i,
    {
        proof {
            assert(views_of(lines@.subrange(0, i + 1)) =~= views_of(lines@.subrange(0, i as int)).push(
                lines@[i as int]@,
            ));
            lemma_sep_count_snoc(views_of(lines@.subrange(0, i as int)), lines@[i as int]@);
        }
        if contains_chars(&lines[i], &pipe) || contains_chars(&lines[i], &bar) {
            count = count + 1;
        }
        i = i + 1;
    }
    proof {
        assert(lines@.subrange(0, n as int) =~= lines@);
    }
    count
}

/// Classifies raw output `output` produced by command `command`.
pub fn detect_format_tag(output: &str, command: &str) -> (f: Format)
    ensures
        f == spec_detect_format(output@, command@),
{
    let cmd = chars_vec(command);
    let lc = lower_vec(&cmd);
    let needle_nmap = chars_vec("nmap");
    if contains_chars(&lc, &needle_nmap) {
        return Format::Nmap;
    }
    if contains_chars(&lc, &chars_vec("netstat")) || contains_chars(&lc, &chars_vec("ss")) {
        return Format::NetworkTable;
    }
    if contains_chars(&lc, &chars_vec("ps")) || contains_chars(&lc, &chars_vec("top")) {
        return Format::ProcessTable;
    }
    if contains_chars(&lc, &chars_vec("ls")) && (contains_chars(&lc, &chars_vec("-l"))
        || contains_chars(&lc, &chars_vec("--long"))) {
        return Format::LsLong;
    }
    let ip_a = chars_vec("ip a");
    if contains_chars(&lc, &chars_vec("ip")) && (contains_chars(&lc, &chars_vec("addr"))
        || contains_chars(&lc, &ip_a) || crate::text::eq_chars(&lc, &ip_a)) {
        return Format::IpAddr;
    }
    if contains_chars(&lc, &chars_vec("systemctl")) {
        return Format::Systemctl;
    }
    if contains_chars(&lc, &chars_vec("df")) {
        return Format::DiskUsage;
    }
    if contains_chars(&lc, &chars_vec("lsblk")) {
        return Format::BlockDevices;
    }
    if contains_chars(&lc, &chars_vec("journalctl")) {
        return Format::Journalctl;
    }
    let out = chars_vec(output);
    let lo = lower_vec(&out);
    if contains_chars(&lo, &chars_vec("starting nmap")) || contains_chars(&lo, &chars_vec("host is up")) {
        return Format::Nmap;
    }
    if contains_chars(&lo, &chars_vec("tcp")) && contains_chars(&lo, &chars_vec("established")) {
        return Format::NetworkTable;
    }
    let lines = split_lines(&out);
    if count_sep_lines(&lines) > 3 {
        return Format::Table;
    }
    if out.len() > 0 && (out[0] == '{' || out[0] == '[') {
        return Format::Json;
    }
    Format::PlainText
}

/// The label of a format, as [`format_name`] spells it.
pub fn format_label(f: Format) -> (s: String)
    ensures
        s@ == format_name(f),
{
    match f {
        Format::Nmap => "nmap".to_owned(),
        Format::NetworkTable => "network_table".to_owned(),
        Format::ProcessTable => "process_table".to_owned(),
        Format::LsLong => "ls_long".to_owned(),
        Format::IpAddr => "ip_addr".to_owned(),
        Format::Systemctl => "systemctl".to_owned(),
        Format::DiskUsage => "disk_usage".to_owned(),
        Format::BlockDevices => "block_devices".to_owned(),
        Format::Journalctl => "journalctl".to_owned(),
        Format::Json => "json".to_owned(),
        Format::Table => "table".to_owned(),
        Format::PlainText => "plain_text".to_owned(),
    }
}

/// Detects the format of command output, reported by name.
pub fn detect_format(output: &str, command: &str) -> (r: String)
    ensures
        r@ == format_name(spec_detect_format(output@, command@)),
{
    format_label(detect_format_tag(output, command))
}

// ---------------------------------------------------------------------------
// Structured records
// ---------------------------------------------------------------------------

/// One established connection from a network table.
#[derive(Clone, Debug)]
pub struct Connection {
    pub protocol: String,
    pub local: String,
    pub remote: String,
    pub state: String,
}

/// Mathematical model of a [`Connection`].
pub struct ConnectionModel {
    pub protocol: Seq<char>,
    pub local: Seq<char>,
    pub remote: Seq<char>,
    pub state: Seq<char>,
}

impl View for Connection {
    type V = ConnectionModel;

    open spec fn view(&self) -> ConnectionModel {
        ConnectionModel {
            protocol: self.protocol@,
            local: self.local@,
            remote: self.remote@,
            state: self.state@,
        }
    }
}

/// One row of a disk-usage table.
#[derive(Clone, Debug)]
pub struct FilesystemRow {
    pub filesystem: String,
    pub size: String,
    pub used: String,
    pub available: String,
    pub usage_percent: u8,
    pub mount: String,
}

/// Mathematical model of a [`FilesystemRow`].
pub struct FilesystemRowModel {
    pub filesystem: Seq<char>,
    pub size: Seq<char>,
    pub used: Seq<char>,
    pub available: Seq<char>,
    pub usage_percent: u8,
    pub mount: Seq<char>,
}

impl View for FilesystemRow {
    type V = FilesystemRowModel;

    open spec fn view(&self) -> FilesystemRowModel {
        FilesystemRowModel {
            filesystem: self.filesystem@,
            size: self.size@,
            used: self.used@,
            available: self.available@,
            usage_percent: self.usage_percent,
            mount: self.mount@,
        }
    }
}

/// The models of a vector of connections.
pub open spec fn connection_views(v: Seq<Connection>) -> Seq<ConnectionModel> {
    v.map_values(|c: Connection| c@)
}

/// The models of a vector of filesystem rows.
pub open spec fn fs_row_views(v: Seq<FilesystemRow>) -> Seq<FilesystemRowModel> {
    v.map_values(|r: FilesystemRow| r@)
}

/// The format-specific record an extractor produces.
#[derive(Clone, Debug)]
pub enum StructuredData {
    Nmap { hosts_up: usize, open_ports: Vec<String>, services: Vec<String> },
    NetworkTable { connections: Vec<Connection>, established_count: usize, listening_count: usize },
    ProcessTable { process_count: usize },
    LsLong { files: usize, directories: usize, total_size_bytes: u64 },
    IpAddr { interfaces: Vec<String>, ipv4_addresses: Vec<String> },
    Systemctl { active_services: Vec<String>, failed_services: Vec<String> },
    DiskUsage { filesystems: Vec<FilesystemRow> },
    Journalctl {
        error_count: usize,
        warning_count: usize,
        failed_services: Vec<String>,
        errors: Vec<String>,
        warnings: Vec<String>,
    },
    Json { valid: bool, text: String },
    PlainText { line_count: usize },
}

/// Mathematical model of [`StructuredData`].
pub enum StructuredModel {
    Nmap { hosts_up: int, open_ports: Seq<Seq<char>>, services: Seq<Seq<char>> },
    NetworkTable { connections: Seq<ConnectionModel>, established_count: int, listening_count: int },
    ProcessTable { process_count: int },
    LsLong { files: int, directories: int, total_size_bytes: u64 },
    IpAddr { interfaces: Seq<Seq<char>>, ipv4_addresses: Seq<Seq<char>> },
    Systemctl { active_services: Seq<Seq<char>>, failed_services: Seq<Seq<char>> },
    DiskUsage { filesystems: Seq<FilesystemRowModel> },
    Journalctl {
        error_count: int,
        warning_count: int,
        failed_services: Seq<Seq<char>>,
        errors: Seq<Seq<char>>,
        warnings: Seq<Seq<char>>,
    },
    Json { valid: bool, text: Seq<char> },
    PlainText { line_count: int },
}

impl View for StructuredData {
    type V = StructuredModel;

    open spec fn view(&self) -> StructuredModel {
        match self {
            StructuredData::Nmap { hosts_up, open_ports, services } => StructuredModel::Nmap {
                hosts_up: *hosts_up as int,
                open_ports: string_views(open_ports@),
                services: string_views(services@),
            },
            StructuredData::NetworkTable {
                connections,
                established_count,
                listening_count,
            } => StructuredModel::NetworkTable {
                connections: connection_views(connections@),
                established_count: *established_count as int,
                listening_count: *listening_count as int,
            },
            StructuredData::ProcessTable { process_count } => StructuredModel::ProcessTable {
                process_count: *process_count as int,
            },
            StructuredData::LsLong { files, directories, total_size_bytes } => StructuredModel::LsLong {
                files: *files as int,
                directories: *directories as int,
                total_size_bytes: *total_size_bytes,
            },
            StructuredData::IpAddr { interfaces, ipv4_addresses } => StructuredModel::IpAddr {
                interfaces: string_views(interfaces@),
                ipv4_addresses: string_views(ipv4_addresses@),
            },
            StructuredData::Systemctl { active_services, failed_services } => StructuredModel::Systemctl {
                active_services: string_views(active_services@),
                failed_services: string_views(failed_services@),
            },
            StructuredData::DiskUsage { filesystems } => StructuredModel::DiskUsage {
                filesystems: fs_row_views(filesystems@),
            },
            StructuredData::Journalctl {
                error_count,
                warning_count,
                failed_services,
                errors,
                warnings,
            } => StructuredModel::Journalctl {
                error_count: *error_count as int,
                warning_count: *warning_count as int,
                failed_services: string_views(failed_services@),
                errors: string_views(errors@),
                warnings: string_views(warnings@),
            },
            StructuredData::Json { valid, text } => StructuredModel::Json {
                valid: *valid,
                text: text@,
            },
            StructuredData::PlainText { line_count } => StructuredModel::PlainText {
                line_count: *line_count as int,
            },
        }
    }
}

// ---------------------------------------------------------------------------
// Parsed output
// ---------------------------------------------------------------------------

/// The complete result of classifying and extracting one capture.
#[derive(Clone, Debug)]
pub struct ParsedOutput {
    pub raw: String,
    pub structured: StructuredData,
    pub findings: Vec<Finding>,
    pub summary: String,
    pub metadata: Metadata,
}

/// Mathematical model of a [`ParsedOutput`].
pub struct ParsedModel {
    pub raw: Seq<char>,
    pub structured: StructuredModel,
    pub findings: Seq<FindingModel>,
    pub summary: Seq<char>,
    pub metadata: MetadataModel,
}

impl View for ParsedOutput {
    type V = ParsedModel;

    open spec fn view(&self) -> ParsedModel {
        ParsedModel {
            raw: self.raw@,
            structured: self.structured@,
            findings: finding_views(self.findings@),
            summary: self.summary@,
            metadata: self.metadata@,
        }
    }
}

/// The structured variant that each format's extractor produces; formats
/// without an extractor of their own fall back to the plain-text record.
pub open spec fn structured_matches_format(s: StructuredModel, f: Format) -> bool {
    match f {
        Format::Nmap => s is Nmap,
        Format::NetworkTable => s is NetworkTable,
        Format::ProcessTable => s is ProcessTable,
        Format::LsLong => s is LsLong,
        Format::IpAddr => s is IpAddr,
        Format::Systemctl => s is Systemctl,
        Format::DiskUsage => s is DiskUsage,
        Format::Journalctl => s is Journalctl,
        Format::Json => s is Json,
        Format::BlockDevices => s is PlainText,
        Format::Table => s is PlainText,
        Format::PlainText => s is PlainText,
    }
}

/// Classification and extraction agree: the structured record is the one the
/// detected format's extractor produces, and the metadata names that format.
pub open spec fn parsed_output_wf(out: ParsedModel, raw: Seq<char>, cmd: Seq<char>) -> bool {
    &&& out.metadata.format_detected == format_name(spec_detect_format(raw, cmd))
    &&& structured_matches_format(out.structured, spec_detect_format(raw, cmd))
}

// ---------------------------------------------------------------------------
// JSON extraction
// ---------------------------------------------------------------------------

/// Whether `s` is a valid JSON document; named after the outside parser that
/// decides it.
pub uninterp spec fn is_valid_json(s: Seq<char>) -> bool;

/// Relies on `serde_json::from_str::<Value>`: whether a string parses as
/// JSON depends on its characters alone.
#[verifier::external_body]
fn json_parses(s: &str) -> (r: bool)
    ensures
        r == is_valid_json(s@),
{
    serde_json::from_str::<serde_json::Value>(s).is_ok()
}

/// Expected result of the JSON extractor.
pub open spec fn spec_parse_json(raw: Seq<char>, meta: MetadataModel) -> ParsedModel {
    ParsedModel {
        raw: raw,
        structured: StructuredModel::Json { valid: is_valid_json(raw), text: raw },
        findings: seq![
            FindingModel {
                category: "Format"@,
                message: "JSON data detected and parsed"@,
                importance: Importance::Info,
            },
        ],
        summary: "JSON data parsed successfully"@,
        metadata: meta,
    }
}

/// JSON extractor: the raw text is kept as the structured record, flagged by
/// whether it parses; an unparsable document is not an error.
pub fn parse_json(raw: &str, metadata: Metadata) -> (out: ParsedOutput)
    ensures
        out@ == spec_parse_json(raw@, metadata@),
{
    let valid = json_parses(raw);
    let out = ParsedOutput {
        raw: raw.to_owned(),
        structured: StructuredData::Json { valid, text: raw.to_owned() },
        findings: vec![
            Finding {
                category: "Format".to_owned(),
                message: "JSON data detected and parsed".to_owned(),
                importance: Importance::Info,
            },
        ],
        summary: "JSON data parsed successfully".to_owned(),
        metadata,
    };
    proof {
        assert(finding_views(out.findings@) =~= spec_parse_json(raw@, metadata@).findings);
    }
    out
}

/// Expected result of the fallback extractor.
pub open spec fn spec_parse_generic(raw: Seq<char>, meta: MetadataModel) -> ParsedModel {
    ParsedModel {
        raw: raw,
        structured: StructuredModel::PlainText { line_count: meta.line_count },
        findings: Seq::empty(),
        summary: "Output captured ("@ + dec_str(meta.line_count as nat) + " lines)"@,
        metadata: meta,
    }
}

/// Fallback extractor for unrecognized formats: no findings, a line count
/// and a one-line summary.
pub fn parse_generic(raw: &str, metadata: Metadata) -> (out: ParsedOutput)
    ensures
        out@ == spec_parse_generic(raw@, metadata@),
{
    let line_count = metadata.line_count;
    let mut summary = String::new();
    summary.append("Output captured (");
    let digits = crate::text::usize_dec_string(line_count);
    summary.append(digits.as_str());
    summary.append(" lines)");
    let out = ParsedOutput {
        raw: raw.to_owned(),
        structured: StructuredData::PlainText { line_count },
        findings: Vec::new(),
        summary,
        metadata,
    };
    proof {
        assert(finding_views(out.findings@) =~= Seq::<FindingModel>::empty());
    }
    out
}

} // verus!
