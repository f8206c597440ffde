//! Per-format extractors.
//!
//! Each extractor is a total function from raw captured text to a structured
//! record, a list of findings and a one-line summary: malformed lines are
//! skipped, never an error. The thresholds here are the classification
//! policy of the library and are stated exactly in the specifications.

use vstd::prelude::*;
use vstd::string::StringSliceAdditionalSpecFns;
use crate::parser::{
    Finding, FindingModel, FilesystemRow, FilesystemRowModel, Importance, Metadata, MetadataModel,
    ParsedModel, ParsedOutput, StructuredData, StructuredModel, finding_views, fs_row_views,
};
use crate::text::{
    chars_vec, collect_from, contains_chars, contains_seq, dec_str, ends_with_chars, ends_with_seq,
    fields_of, join_strings, join_with, lemma_collect_from_snoc, lines_of, lower, lower_vec,
    parse_uint, parse_u8_chars, remove_all, remove_all_chars, split_fields, split_lines,
    string_from_chars, string_views, usize_dec_string, views_of,
};

verus! {

// ---------------------------------------------------------------------------
// Small view lemmas shared by the extractors
// ---------------------------------------------------------------------------

proof fn lemma_string_views_push(v: Seq<String>, s: String)
    ensures
        string_views(v.push(s)) == string_views(v).push(s@),
{
    assert(string_views(v.push(s)) =~= string_views(v).push(s@));
}

proof fn lemma_finding_views_push(v: Seq<Finding>, f: Finding)
    ensures
        finding_views(v.push(f)) == finding_views(v).push(f@),
{
    assert(finding_views(v.push(f)) =~= finding_views(v).push(f@));
}

proof fn lemma_fs_row_views_push(v: Seq<FilesystemRow>, r: FilesystemRow)
    ensures
        fs_row_views(v.push(r)) == fs_row_views(v).push(r@),
{
    assert(fs_row_views(v.push(r)) =~= fs_row_views(v).push(r@));
}

proof fn lemma_prefix_push<T>(s: Seq<T>, i: int)
    requires
        0 <= i < s.len(),
    ensures
        s.subrange(0, i + 1) == s.subrange(0, i).push(s[i]),
{
    assert(s.subrange(0, i + 1) =~= s.subrange(0, i).push(s[i]));
}

// ---------------------------------------------------------------------------
// Disk usage (df)
// ---------------------------------------------------------------------------

/// The first field of `parts` that ends in `'%'`, if any.
pub open spec fn first_pct_index(parts: Seq<Seq<char>>) -> Option<int>
    decreases parts.len(),
{
    if parts.len() == 0 {
        None
    } else if ends_with_seq(parts[0], seq!['%']) {
        Some(0)
    } else {
        match first_pct_index(parts.drop_first()) {
            Some(i) => Some(i + 1),
            None => None,
        }
    }
}

/// `s` without its trailing `'%'` characters.
pub open spec fn strip_trailing_pct(s: Seq<char>) -> Seq<char>
    decreases s.len(),
{
    if s.len() > 0 && s.last() == '%' {
        strip_trailing_pct(s.drop_last())
    } else {
        s
    }
}

/// The filesystem row read from one line of disk-usage output: the line must
/// hold a `'%'`, split into at least five fields, and its first `%`-ending
/// field must read as a percentage that fits in a byte; otherwise the line is
/// skipped.
pub open spec fn disk_row_of_line(l: Seq<char>) -> Option<FilesystemRowModel> {
    let parts = fields_of(l);
    if contains_seq(l, seq!['%']) && parts.len() >= 5 {
        match first_pct_index(parts) {
            Some(j) => {
                match parse_uint(strip_trailing_pct(parts[j])) {
                    Some(u) => {
                        if u <= u8::MAX {
                            Some(
                                FilesystemRowModel {
                                    filesystem: parts[0],
                                    size: parts[1],
                                    used: parts[2],
                                    available: parts[3],
                                    usage_percent: u as u8,
                                    mount: if parts.len() > 5 {
                                        parts[5]
                                    } else {
                                        Seq::empty()
                                    },
                                },
                            )
                        } else {
                            None
                        }
                    },
                    None => None,
                }
            },
            None => None,
        }
    } else {
        None
    }
}

/// The rows of a disk-usage capture, in line order.
pub open spec fn disk_rows(lines: Seq<Seq<char>>) -> Seq<FilesystemRowModel> {
    collect_from(
        lines,
        |l: Seq<char>|
            match disk_row_of_line(l) {
                Some(r) => seq![r],
                None => Seq::empty(),
            },
    )
}

/// The finding for one disk-usage row: above 90 percent is critical, above
/// 80 percent is a warning, at or below 80 percent nothing is reported. Both
/// bounds are strict.
pub open spec fn disk_finding_of_row(r: FilesystemRowModel) -> Seq<FindingModel> {
    if r.usage_percent > 90 {
        seq![
            FindingModel {
                category: "Disk Space Critical"@,
                message: r.filesystem + " is "@ + dec_str(r.usage_percent as nat) + "% full"@,
                importance: Importance::Critical,
            },
        ]
    } else if r.usage_percent > 80 {
        seq![
            FindingModel {
                category: "Disk Space Warning"@,
                message: r.filesystem + " is "@ + dec_str(r.usage_percent as nat) + "% full"@,
                importance: Importance::High,
            },
        ]
    } else {
        Seq::empty()
    }
}

/// The findings of a disk-usage capture, in line order.
pub open spec fn disk_findings(lines: Seq<Seq<char>>) -> Seq<FindingModel> {
    collect_from(
        lines,
        |l: Seq<char>|
            match disk_row_of_line(l) {
                Some(r) => disk_finding_of_row(r),
                None => Seq::empty(),
            },
    )
}

/// Expected result of the disk-usage extractor.
pub open spec fn spec_parse_disk_usage(raw: Seq<char>, meta: MetadataModel) -> ParsedModel {
    ParsedModel {
        raw: raw,
        structured: StructuredModel::DiskUsage { filesystems: disk_rows(lines_of(raw)) },
        findings: disk_findings(lines_of(raw)),
        summary: dec_str(disk_rows(lines_of(raw)).len() as nat) + " filesystem(s) checked"@,
        metadata: meta,
    }
}

proof fn lemma_first_pct_properties(parts: Seq<Seq<char>>)
    ensures
        match first_pct_index(parts) {
            Some(i) => 0 <= i < parts.len() && ends_with_seq(parts[i], seq!['%']) && forall|k: int|
                0 <= k < i ==> !ends_with_seq(#[trigger] parts[k], seq!['%']),
            None => forall|k: int|
                0 <= k < parts.len() ==> !ends_with_seq(#[trigger] parts[k], seq!['%']),
        },
    decreases parts.len(),
{
    if parts.len() > 0 && !ends_with_seq(parts[0], seq!['%']) {
        lemma_first_pct_properties(parts.drop_first());
        assert(forall|k: int| 1 <= k < parts.len() ==> parts[k] == parts.drop_first()[k - 1]);
    }
}

/// `v` without its trailing `'%'` characters.
fn strip_trailing_pct_exec(v: &Vec<char>) -> (r: Vec<char>)
    ensures
        r@ == strip_trailing_pct(v@),
{
    let n = v.len();
    let mut end: usize = n;
    proof {
        assert(v@.take(n as int) =~= v@);
    }
    while end > 0 && v[end - 1] == '%'
        invariant
            n == v@.len(),
            end <= n,
            strip_trailing_pct(v@) == strip_trailing_pct(v@.take(end as int)),
        decreases end,
    {
        proof {
            let sub = v@.take(end as int);
            assert(sub.last() == v@[end - 1]);
            assert(sub.drop_last() =~= v@.take(end - 1));
        }
        end = end - 1;
    }
    proof {
        let sub = v@.take(end as int);
        if end > 0 {
            assert(sub.last() == v@[end - 1]);
        }
        assert(strip_trailing_pct(sub) == sub);
    }
    let mut r: Vec<char> = Vec::new();
    let mut i: usize = 0;
    while i < end
        invariant
            n == v@.len(),
            i <= end <= n,
            r@ == v@.subrange(0, i as int),
        decreases end - i,
    {
        proof {
            lemma_prefix_push(v@, i as int);
        }
        r.push(v[i]);
        i = i + 1;
    }
    proof {
        assert(v@.subrange(0, end as int) =~= v@.take(end as int));
    }
    r
}

/// The index of the first field ending in `'%'`, if any.
fn find_pct_field(parts: &Vec<Vec<char>>) -> (r: Option<usize>)
    ensures
        match r {
            Some(j) => j < parts@.len() && first_pct_index(views_of(parts@)) == Some(j as int),
            None => first_pct_index(views_of(parts@)) is None,
        },
{
    let pct = chars_vec("%");
    proof {
        reveal_strlit("%");
        assert(pct@ =~= seq!['%']);
    }
    let n = parts.len();
    let mut j: usize = 0;
    while j < n
        invariant
            n == parts@.len(),
            pct@ == seq!['%'],
            j <= n,
            forall|k: int| 0 <= k < j ==> !ends_with_seq(#[trigger] views_of(parts@)[k], seq!['%']),
        decreases n - j,
    {
        if ends_with_chars(&parts[j], &pct) {
            proof {
                lemma_first_pct_properties(views_of(parts@));
                match first_pct_index(views_of(parts@)) {
                    Some(i) => {
                        if i < j {
                            assert(!ends_with_seq(views_of(parts@)[i], seq!['%']));
                        }
                        if i > j {
                            assert(!ends_with_seq(views_of(parts@)[j as int], seq!['%']));
                        }
                    },
                    None => {
                        assert(!ends_with_seq(views_of(parts@)[j as int], seq!['%']));
                    },
                }
            }
            return Some(j);
        }
        j = j + 1;
    }
    proof {
        lemma_first_pct_properties(views_of(parts@));
        match first_pct_index(views_of(parts@)) {
            Some(i) => {
                assert(!ends_with_seq(views_of(parts@)[i], seq!['%']));
            },
            None => {},
        }
    }
    None
}

/// Reads one line of disk-usage output as a filesystem row, if it has one.
fn disk_row_exec(l: &Vec<char>) -> (r: Option<FilesystemRow>)
    ensures
        match r {
            Some(row) => disk_row_of_line(l@) == Some(row@),
            None => disk_row_of_line(l@) is None,
        },
{
    let pct = chars_vec("%");
    proof {
        reveal_strlit("%");
        assert(pct@ =~= seq!['%']);
    }
    if !contains_chars(l, &pct) {
        return None;
    }
    let parts = split_fields(l);
    if parts.len() < 5 {
        return None;
    }
    let j = match find_pct_field(&parts) {
        Some(j) => j,
        None => {
            return None;
        },
    };
    let stripped = strip_trailing_pct_exec(&parts[j]);
    let usage = match parse_u8_chars(&stripped) {
        Some(u) => u,
        None => {
            return None;
        },
    };
    let row = FilesystemRow {
        filesystem: string_from_chars(&parts[0]),
        size: string_from_chars(&parts[1]),
        used: string_from_chars(&parts[2]),
        available: string_from_chars(&parts[3]),
        usage_percent: usage,
        mount: if parts.len() > 5 {
            string_from_chars(&parts[5])
        } else {
            String::new()
        },
    };
    Some(row)
}

/// Builds the finding for one disk-usage row, if its usage crosses a bound.
fn disk_finding_exec(row: &FilesystemRow) -> (r: Option<Finding>)
    ensures
        match r {
            Some(f) => disk_finding_of_row(row@) == seq![f@],
            None => disk_finding_of_row(row@) == Seq::<FindingModel>::empty(),
        },
{
    if row.usage_percent > 90 {
        let mut message = row.filesystem.clone();
        message.append(" is ");
        let digits = crate::text::u64_dec_string(row.usage_percent as u64);
        message.append(digits.as_str());
        message.append("% full");
        Some(
            Finding {
                category: "Disk Space Critical".to_owned(),
                message,
                importance: Importance::Critical,
            },
        )
    } else if row.usage_percent > 80 {
        let mut message = row.filesystem.clone();
        message.append(" is ");
        let digits = crate::text::u64_dec_string(row.usage_percent as u64);
        message.append(digits.as_str());
        message.append("% full");
        Some(
            Finding {
                category: "Disk Space Warning".to_owned(),
                message,
                importance: Importance::High,
            },
        )
    } else {
        None
    }
}

/// Disk-usage extractor: one row per parsable `df` line, a critical finding
/// above 90 percent usage and a warning above 80.
pub fn parse_disk_usage(raw: &str, metadata: Metadata) -> (out: ParsedOutput)
    ensures
        out@ == spec_parse_disk_usage(raw@, metadata@),
{
    let chars = chars_vec(raw);
    let lines = split_lines(&chars);
    let n = lines.len();
    let mut filesystems: Vec<FilesystemRow> = Vec::new();
    let mut findings: Vec<Finding> = Vec::new();
    let mut i: usize = 0;
    proof {
        assert(views_of(lines@.subrange(0, 0)) =~= Seq::<Seq<char>>::empty());
    }
    while i < n
        invariant
            n == lines@.len(),
            i <= n,
            views_of(lines@) == lines_of(raw@),
            fs_row_views(filesystems@) == disk_rows(views_of(lines@.subrange(0, i as int))),
            finding_views(findings@) == disk_findings(views_of(lines@.subrange(0, i as int))),
        decreases n - i,
    {
        proof {
            lemma_prefix_push(lines@, i as int);
            assert(views_of(lines@.subrange(0, i + 1)) =~= views_of(lines@.subrange(0, i as int)).push(
                lines@[i as int]@,
            ));
            lemma_collect_from_snoc(
                views_of(lines@.subrange(0, i as int)),
                lines@[i as int]@,
                |l: Seq<char>|
                    match disk_row_of_line(l) {
                        Some(r) => seq![r],
                        None => Seq::<FilesystemRowModel>::empty(),
                    },
            );
            lemma_collect_from_snoc(
                views_of(lines@.subrange(0, i as int)),
                lines@[i as int]@,
                |l: Seq<char>|
                    match disk_row_of_line(l) {
                        Some(r) => disk_finding_of_row(r),
                        None => Seq::<FindingModel>::empty(),
                    },
            );
        }
        match disk_row_exec(&lines[i]) {
            Some(row) => {
                match disk_finding_exec(&row) {
                    Some(f) => {
                        proof {
                            lemma_finding_views_push(findings@, f);
                            assert(finding_views(findings@).push(f@) =~= finding_views(findings@)
                                + seq![f@]);
                        }
                        findings.push(f);
                    },
                    None => {
                        proof {
                            assert(finding_views(findings@) + Seq::<FindingModel>::empty()
                                =~= finding_views(findings@));
                        }
                    },
                }
                proof {
                    lemma_fs_row_views_push(filesystems@, row);
                    assert(fs_row_views(filesystems@).push(row@) =~= fs_row_views(filesystems@)
                        + seq![row@]);
                }
                filesystems.push(row);
            },
            None => {
                proof {
                    assert(fs_row_views(filesystems@) + Seq::<FilesystemRowModel>::empty()
                        =~= fs_row_views(filesystems@));
                    assert(finding_views(findings@) + Seq::<FindingModel>::empty() =~= finding_views(
                        findings@,
                    ));
                }
            },
        }
        i = i + 1;
    }
    proof {
        assert(lines@.subrange(0, n as int) =~= lines@);
    }
    let count = filesystems.len();
    let mut summary = usize_dec_string(count);
    summary.append(" filesystem(s) checked");
    let out = ParsedOutput {
        raw: raw.to_owned(),
        structured: StructuredData::DiskUsage { filesystems },
        findings,
        summary,
        metadata,
    };
    out
}

// ---------------------------------------------------------------------------
// Service manager (systemctl)
// ---------------------------------------------------------------------------

/// The service name on a line: its first field must mention `.service`, and
/// the name is that field with every `.service` removed.
pub open spec fn service_name_of(l: Seq<char>) -> Option<Seq<char>> {
    let parts = fields_of(l);
    if parts.len() > 0 && contains_seq(parts[0], ".service"@) {
        Some(remove_all(parts[0], ".service"@))
    } else {
        None
    }
}

/// Whether a line reports its service as active and running.
pub open spec fn is_active_line(l: Seq<char>) -> bool {
    contains_seq(lower(l), "active"@) && contains_seq(lower(l), "running"@)
}

/// The service a line reports as active and running, if any.
pub open spec fn active_service_of(l: Seq<char>) -> Seq<Seq<char>> {
    match service_name_of(l) {
        Some(name) => if is_active_line(l) {
            seq![name]
        } else {
            Seq::empty()
        },
        None => Seq::empty(),
    }
}

/// The service a line reports as failed, if any; a line counted as active is
/// not also counted as failed.
pub open spec fn failed_service_of(l: Seq<char>) -> Seq<Seq<char>> {
    match service_name_of(l) {
        Some(name) => if !is_active_line(l) && contains_seq(lower(l), "failed"@) {
            seq![name]
        } else {
            Seq::empty()
        },
        None => Seq::empty(),
    }
}

/// All services reported active and running, in line order.
pub open spec fn active_services_of(lines: Seq<Seq<char>>) -> Seq<Seq<char>> {
    collect_from(lines, |l: Seq<char>| active_service_of(l))
}

/// All services reported failed, in line order.
pub open spec fn failed_services_of(lines: Seq<Seq<char>>) -> Seq<Seq<char>> {
    collect_from(lines, |l: Seq<char>| failed_service_of(l))
}

/// Expected findings of the service-manager extractor: failed services are
/// reported first and weigh more.
pub open spec fn spec_systemctl_findings(lines: Seq<Seq<char>>) -> Seq<FindingModel> {
    let actives = active_services_of(lines);
    let faileds = failed_services_of(lines);
    (if faileds.len() > 0 {
        seq![
            FindingModel {
                category: "Failed Services"@,
                message: dec_str(faileds.len() as nat) + " service(s) in failed state: "@ + join_with(
                    faileds,
                    ", "@,
                ),
                importance: Importance::High,
            },
        ]
    } else {
        Seq::empty()
    }) + (if actives.len() > 0 {
        seq![
            FindingModel {
                category: "Active Services"@,
                message: dec_str(actives.len() as nat) + " service(s) active and running"@,
                importance: Importance::Info,
            },
        ]
    } else {
        Seq::empty()
    })
}

/// Expected summary of the service-manager extractor.
pub open spec fn spec_systemctl_summary(lines: Seq<Seq<char>>) -> Seq<char> {
    let actives = active_services_of(lines);
    let faileds = failed_services_of(lines);
    if faileds.len() > 0 {
        dec_str(faileds.len() as nat) + " failed services: "@ + join_with(faileds, ", "@)
    } else {
        dec_str(actives.len() as nat) + " active, "@ + dec_str(faileds.len() as nat) + " failed"@
    }
}

/// Expected result of the service-manager extractor.
pub open spec fn spec_parse_systemctl(raw: Seq<char>, meta: MetadataModel) -> ParsedModel {
    ParsedModel {
        raw: raw,
        structured: StructuredModel::Systemctl {
            active_services: active_services_of(lines_of(raw)),
            failed_services: failed_services_of(lines_of(raw)),
        },
        findings: spec_systemctl_findings(lines_of(raw)),
        summary: spec_systemctl_summary(lines_of(raw)),
        metadata: meta,
    }
}

/// Service-manager extractor: reads active and failed services off each
/// line, flags failures high.
pub fn parse_systemctl(raw: &str, metadata: Metadata) -> (out: ParsedOutput)
    ensures
        out@ == spec_parse_systemctl(raw@, metadata@),
{
    let chars = chars_vec(raw);
    let lines = split_lines(&chars);
    let n = lines.len();
    let svc = chars_vec(".service");
    proof {
        reveal_strlit(".service");
        assert(svc@.len() == 8);
    }
    let needle_active = chars_vec("active");
    let needle_running = chars_vec("running");
    let needle_failed = chars_vec("failed");
    let mut active_services: Vec<String> = Vec::new();
    let mut failed_services: Vec<String> = Vec::new();
    let mut i: usize = 0;
    proof {
        assert(views_of(lines@.subrange(0, 0)) =~= Seq::<Seq<char>>::empty());
    }
    while i < n
        invariant
            n == lines@.len(),
            i <= n,
            views_of(lines@) == lines_of(raw@),
            svc@ == ".service"@,
            svc@.len() == 8,
            needle_active@ == "active"@,
            needle_running@ == "running"@,
            needle_failed@ == "failed"@,
            string_views(active_services@) == active_services_of(views_of(lines@.subrange(0, i as int))),
            string_views(failed_services@) == failed_services_of(views_of(lines@.subrange(0, i as int))),
        decreases n - i,
    {
        proof {
            lemma_prefix_push(lines@, i as int);
            assert(views_of(lines@.subrange(0, i + 1)) =~= views_of(lines@.subrange(0, i as int)).push(
                lines@[i as int]@,
            ));
            lemma_collect_from_snoc(
                views_of(lines@.subrange(0, i as int)),
                lines@[i as int]@,
                |l: Seq<char>| active_service_of(l),
            );
            lemma_collect_from_snoc(
                views_of(lines@.subrange(0, i as int)),
                lines@[i as int]@,
                |l: Seq<char>| failed_service_of(l),
            );
        }
        let parts = split_fields(&lines[i]);
        let mut matched_active = false;
        let mut matched_failed = false;
        if parts.len() > 0 && contains_chars(&parts[0], &svc) {
            let name_chars = remove_all_chars(&parts[0], &svc);
            let lower_line = lower_vec(&lines[i]);
            if contains_chars(&lower_line, &needle_active) && contains_chars(&lower_line, &needle_running) {
                let name = string_from_chars(&name_chars);
                proof {
                    lemma_string_views_push(active_services@, name);
                    assert(string_views(active_services@).push(name@) =~= string_views(active_services@)
                        + seq![name@]);
                }
                active_services.push(name);
                matched_active = true;
            } else if contains_chars(&lower_line, &needle_failed) {
                let name = string_from_chars(&name_chars);
                proof {
                    lemma_string_views_push(failed_services@, name);
                    assert(string_views(failed_services@).push(name@) =~= string_views(failed_services@)
                        + seq![name@]);
                }
                failed_services.push(name);
                matched_failed = true;
            }
        }
        proof {
            if !matched_active {
                assert(string_views(active_services@) + Seq::<Seq<char>>::empty() =~= string_views(
                    active_services@,
                ));
            }
            if !matched_failed {
                assert(string_views(failed_services@) + Seq::<Seq<char>>::empty() =~= string_views(
                    failed_services@,
                ));
            }
        }
        i = i + 1;
    }
    proof {
        assert(lines@.subrange(0, n as int) =~= lines@);
    }
    let mut findings: Vec<Finding> = Vec::new();
    if failed_services.len() > 0 {
        let mut message = usize_dec_string(failed_services.len());
        message.append(" service(s) in failed state: ");
        let joined = join_strings(&failed_services, ", ");
        message.append(joined.as_str());
        findings.push(
            Finding {
                category: "Failed Services".to_owned(),
                message,
                importance: Importance::High,
            },
        );
    }
    if active_services.len() > 0 {
        let mut message = usize_dec_string(active_services.len());
        message.append(" service(s) active and running");
        findings.push(
            Finding {
                category: "Active Services".to_owned(),
                message,
                importance: Importance::Info,
            },
        );
    }
    proof {
        assert(finding_views(findings@) =~= spec_systemctl_findings(lines_of(raw@)));
    }
    let summary: String = if failed_services.len() > 0 {
        let mut s = usize_dec_string(failed_services.len());
        s.append(" failed services: ");
        let joined = join_strings(&failed_services, ", ");
        s.append(joined.as_str());
        s
    } else {
        let mut s = usize_dec_string(active_services.len());
        s.append(" active, ");
        let fdigits = usize_dec_string(failed_services.len());
        s.append(fdigits.as_str());
        s.append(" failed");
        s
    };
    let out = ParsedOutput {
        raw: raw.to_owned(),
        structured: StructuredData::Systemctl { active_services, failed_services },
        findings,
        summary,
        metadata,
    };
    out
}

// ---------------------------------------------------------------------------
// Process table (ps/top)
// ---------------------------------------------------------------------------

/// A line counted as a process row: not blank and not a header naming a pid
/// column.
pub open spec fn is_process_line(l: Seq<char>) -> bool {
    crate::text::trim(l).len() > 0 && !contains_seq(lower(l), "pid"@)
}

/// How many process rows a capture holds.
pub open spec fn process_count_of(lines: Seq<Seq<char>>) -> nat {
    crate::text::count_matching(lines, |l: Seq<char>| is_process_line(l))
}

/// Expected result of the process-table extractor.
pub open spec fn spec_parse_process_table(raw: Seq<char>, meta: MetadataModel) -> ParsedModel {
    let count = process_count_of(lines_of(raw));
    ParsedModel {
        raw: raw,
        structured: StructuredModel::ProcessTable { process_count: count as int },
        findings: if count > 0 {
            seq![
                FindingModel {
                    category: "Process Count"@,
                    message: dec_str(count) + " process(es) listed"@,
                    importance: Importance::Info,
                },
            ]
        } else {
            Seq::empty()
        },
        summary: dec_str(count) + " processes"@,
        metadata: meta,
    }
}

/// Process-table extractor: counts the non-blank, non-header lines.
pub fn parse_process_table(raw: &str, metadata: Metadata) -> (out: ParsedOutput)
    ensures
        out@ == spec_parse_process_table(raw@, metadata@),
{
    let chars = chars_vec(raw);
    let lines = split_lines(&chars);
    let n = lines.len();
    let needle_pid = chars_vec("pid");
    let mut count: usize = 0;
    let mut i: usize = 0;
    proof {
        assert(views_of(lines@.subrange(0, 0)) =~= Seq::<Seq<char>>::empty());
    }
    while i < n
        invariant
            n == lines@.len(),
            i <= n,
            count <= i,
            views_of(lines@) == lines_of(raw@),
            needle_pid@ == "pid"@,
            count == process_count_of(views_of(lines@.subrange(0, i as int))),
        decreases n - i,
    {
        proof {
            lemma_prefix_push(lines@, i as int);
            assert(views_of(lines@.subrange(0, i + 1)) =~= views_of(lines@.subrange(0, i as int)).push(
                lines@[i as int]@,
            ));
            crate::text::lemma_count_matching_snoc(
                views_of(lines@.subrange(0, i as int)),
                lines@[i as int]@,
                |l: Seq<char>| is_process_line(l),
            );
        }
        let trimmed = crate::text::trim_chars(&lines[i]);
        let lower_line = lower_vec(&lines[i]);
        if trimmed.len() > 0 && !contains_chars(&lower_line, &needle_pid) {
            count = count + 1;
        }
        i = i + 1;
    }
    proof {
        assert(lines@.subrange(0, n as int) =~= lines@);
    }
    let mut findings: Vec<Finding> = Vec::new();
    if count > 0 {
        let mut message = usize_dec_string(count);
        message.append(" process(es) listed");
        findings.push(
            Finding {
                category: "Process Count".to_owned(),
                message,
                importance: Importance::Info,
            },
        );
    }
    proof {
        assert(finding_views(findings@) =~= spec_parse_process_table(raw@, metadata@).findings);
    }
    let mut summary = usize_dec_string(count);
    summary.append(" processes");
    let out = ParsedOutput {
        raw: raw.to_owned(),
        structured: StructuredData::ProcessTable { process_count: count },
        findings,
        summary,
        metadata,
    };
    out
}

// ---------------------------------------------------------------------------
// Long directory listing (ls -l)
// ---------------------------------------------------------------------------

/// A directory row: the mode column starts with `d`.
pub open spec fn is_dir_line(l: Seq<char>) -> bool {
    l.len() > 0 && l[0] == 'd'
}

/// A plain-file row: the mode column starts with `-`.
pub open spec fn is_file_line(l: Seq<char>) -> bool {
    l.len() > 0 && l[0] == '-'
}

/// The size read from a file row: its fifth field when that reads as an
/// unsigned 64-bit number, otherwise nothing is added.
pub open spec fn size_of_line(l: Seq<char>) -> nat {
    if is_file_line(l) && fields_of(l).len() > 4 {
        match parse_uint(fields_of(l)[4]) {
            Some(sz) => if sz <= u64::MAX {
                sz
            } else {
                0
            },
            None => 0,
        }
    } else {
        0
    }
}

/// The total of the sizes read from all file rows.
pub open spec fn total_size_of(lines: Seq<Seq<char>>) -> nat
    decreases lines.len(),
{
    if lines.len() == 0 {
        0
    } else {
        total_size_of(lines.drop_last()) + size_of_line(lines.last())
    }
}

proof fn lemma_total_size_snoc(lines: Seq<Seq<char>>, l: Seq<char>)
    ensures
        total_size_of(lines.push(l)) == total_size_of(lines) + size_of_line(l),
{
    assert(lines.push(l).drop_last() =~= lines);
    assert(lines.push(l).last() == l);
}

/// How many file rows a capture holds.
pub open spec fn file_count_of(lines: Seq<Seq<char>>) -> nat {
    crate::text::count_matching(lines, |l: Seq<char>| is_file_line(l))
}

/// How many directory rows a capture holds.
pub open spec fn dir_count_of(lines: Seq<Seq<char>>) -> nat {
    crate::text::count_matching(lines, |l: Seq<char>| is_dir_line(l))
}

/// A total clamped into a `u64`.
pub open spec fn clamp_u64(n: nat) -> u64 {
    if n > u64::MAX {
        u64::MAX
    } else {
        n as u64
    }
}

/// Expected result of the directory-listing extractor.
pub open spec fn spec_parse_ls_long(raw: Seq<char>, meta: MetadataModel) -> ParsedModel {
    let files = file_count_of(lines_of(raw));
    let dirs = dir_count_of(lines_of(raw));
    ParsedModel {
        raw: raw,
        structured: StructuredModel::LsLong {
            files: files as int,
            directories: dirs as int,
            total_size_bytes: clamp_u64(total_size_of(lines_of(raw))),
        },
        findings: if files > 0 || dirs > 0 {
            seq![
                FindingModel {
                    category: "Directory Contents"@,
                    message: dec_str(files) + " file(s), "@ + dec_str(dirs) + " director(ies)"@,
                    importance: Importance::Info,
                },
            ]
        } else {
            Seq::empty()
        },
        summary: dec_str(files) + " files, "@ + dec_str(dirs) + " directories"@,
        metadata: meta,
    }
}

/// Directory-listing extractor: counts files and directories and totals the
/// file sizes, saturating at the largest 64-bit value.
pub fn parse_ls_long(raw: &str, metadata: Metadata) -> (out: ParsedOutput)
    ensures
        out@ == spec_parse_ls_long(raw@, metadata@),
{
    let chars = chars_vec(raw);
    let lines = split_lines(&chars);
    let n = lines.len();
    let mut files: usize = 0;
    let mut directories: usize = 0;
    let mut total_size: u64 = 0;
    let mut i: usize = 0;
    proof {
        assert(views_of(lines@.subrange(0, 0)) =~= Seq::<Seq<char>>::empty());
    }
    while i < n
        invariant
            n == lines@.len(),
            i <= n,
            files <= i,
            directories <= i,
            views_of(lines@) == lines_of(raw@),
            files == file_count_of(views_of(lines@.subrange(0, i as int))),
            directories == dir_count_of(views_of(lines@.subrange(0, i as int))),
            total_size == clamp_u64(total_size_of(views_of(lines@.subrange(0, i as int)))),
        decreases n - i,
    {
        proof {
            lemma_prefix_push(lines@, i as int);
            assert(views_of(lines@.subrange(0, i + 1)) =~= views_of(lines@.subrange(0, i as int)).push(
                lines@[i as int]@,
            ));
            crate::text::lemma_count_matching_snoc(
                views_of(lines@.subrange(0, i as int)),
                lines@[i as int]@,
                |l: Seq<char>| is_file_line(l),
            );
            crate::text::lemma_count_matching_snoc(
                views_of(lines@.subrange(0, i as int)),
                lines@[i as int]@,
                |l: Seq<char>| is_dir_line(l),
            );
            lemma_total_size_snoc(views_of(lines@.subrange(0, i as int)), lines@[i as int]@);
        }
        let line = &lines[i];
        if line.len() > 0 && line[0] == 'd' {
            directories = directories + 1;
        } else if line.len() > 0 && line[0] == '-' {
            files = files + 1;
            let parts = split_fields(line);
            if parts.len() > 4 {
                match crate::text::parse_u64_chars(&parts[4]) {
                    Some(sz) => {
                        if total_size > u64::MAX - sz {
                            total_size = u64::MAX;
                        } else {
                            total_size = total_size + sz;
                        }
                    },
                    None => {},
                }
            }
        }
        i = i + 1;
    }
    proof {
        assert(lines@.subrange(0, n as int) =~= lines@);
    }
    let mut findings: Vec<Finding> = Vec::new();
    if files > 0 || directories > 0 {
        let mut message = usize_dec_string(files);
        message.append(" file(s), ");
        let ddigits = usize_dec_string(directories);
        message.append(ddigits.as_str());
        message.append(" director(ies)");
        findings.push(
            Finding {
                category: "Directory Contents".to_owned(),
                message,
                importance: Importance::Info,
            },
        );
    }
    proof {
        assert(finding_views(findings@) =~= spec_parse_ls_long(raw@, metadata@).findings);
    }
    let mut summary = usize_dec_string(files);
    summary.append(" files, ");
    let ddigits = usize_dec_string(directories);
    summary.append(ddigits.as_str());
    summary.append(" directories");
    let out = ParsedOutput {
        raw: raw.to_owned(),
        structured: StructuredData::LsLong {
            files,
            directories,
            total_size_bytes: total_size,
        },
        findings,
        summary,
        metadata,
    };
    out
}

// ---------------------------------------------------------------------------
// Network table (netstat/ss)
// ---------------------------------------------------------------------------

/// A line reporting an established connection.
pub open spec fn is_established_line(l: Seq<char>) -> bool {
    contains_seq(lower(l), "established"@)
}

/// A line reporting a listening socket; an established line is not also
/// counted here.
pub open spec fn is_listening_line(l: Seq<char>) -> bool {
    !is_established_line(l) && contains_seq(lower(l), "listen"@)
}

/// The connection row read from an established line with at least five
/// fields.
pub open spec fn connection_of_line(l: Seq<char>) -> Seq<crate::parser::ConnectionModel> {
    let parts = fields_of(l);
    if is_established_line(l) && parts.len() >= 5 {
        seq![
            crate::parser::ConnectionModel {
                protocol: parts[0],
                local: parts[3],
                remote: parts[4],
                state: "ESTABLISHED"@,
            },
        ]
    } else {
        Seq::empty()
    }
}

/// How many established lines a capture holds.
pub open spec fn established_count_of(lines: Seq<Seq<char>>) -> nat {
    crate::text::count_matching(lines, |l: Seq<char>| is_established_line(l))
}

/// How many listening lines a capture holds.
pub open spec fn listening_count_of(lines: Seq<Seq<char>>) -> nat {
    crate::text::count_matching(lines, |l: Seq<char>| is_listening_line(l))
}

/// All connection rows of a capture, in line order.
pub open spec fn connections_of(lines: Seq<Seq<char>>) -> Seq<crate::parser::ConnectionModel> {
    collect_from(lines, |l: Seq<char>| connection_of_line(l))
}

/// Expected result of the network-table extractor: more than fifty
/// established connections weigh high, the bound strict.
pub open spec fn spec_parse_network_table(raw: Seq<char>, meta: MetadataModel) -> ParsedModel {
    let est = established_count_of(lines_of(raw));
    let lst = listening_count_of(lines_of(raw));
    ParsedModel {
        raw: raw,
        structured: StructuredModel::NetworkTable {
            connections: connections_of(lines_of(raw)),
            established_count: est as int,
            listening_count: lst as int,
        },
        findings: (if est > 0 {
            seq![
                FindingModel {
                    category: "Active Connections"@,
                    message: dec_str(est) + " established connection(s)"@,
                    importance: if est > 50 {
                        Importance::High
                    } else {
                        Importance::Info
                    },
                },
            ]
        } else {
            Seq::empty()
        }) + (if lst > 0 {
            seq![
                FindingModel {
                    category: "Listening Ports"@,
                    message: dec_str(lst) + " listening port(s)"@,
                    importance: Importance::Info,
                },
            ]
        } else {
            Seq::empty()
        }),
        summary: dec_str(est) + " established, "@ + dec_str(lst) + " listening"@,
        metadata: meta,
    }
}

proof fn lemma_connection_views_push(v: Seq<crate::parser::Connection>, c: crate::parser::Connection)
    ensures
        crate::parser::connection_views(v.push(c)) == crate::parser::connection_views(v).push(c@),
{
    assert(crate::parser::connection_views(v.push(c)) =~= crate::parser::connection_views(v).push(c@));
}

/// Network-table extractor: counts established and listening sockets and
/// keeps a row per established connection.
pub fn parse_network_table(raw: &str, metadata: Metadata) -> (out: ParsedOutput)
    ensures
        out@ == spec_parse_network_table(raw@, metadata@),
{
    let chars = chars_vec(raw);
    let lines = split_lines(&chars);
    let n = lines.len();
    let needle_est = chars_vec("established");
    let needle_listen = chars_vec("listen");
    let mut connections: Vec<crate::parser::Connection> = Vec::new();
    let mut established: usize = 0;
    let mut listening: usize = 0;
    let mut i: usize = 0;
    proof {
        assert(views_of(lines@.subrange(0, 0)) =~= Seq::<Seq<char>>::empty());
    }
    while i < n
        invariant
            n == lines@.len(),
            i <= n,
            established <= i,
            listening <= i,
            views_of(lines@) == lines_of(raw@),
            needle_est@ == "established"@,
            needle_listen@ == "listen"@,
            established == established_count_of(views_of(lines@.subrange(0, i as int))),
            listening == listening_count_of(views_of(lines@.subrange(0, i as int))),
            crate::parser::connection_views(connections@) == connections_of(
                views_of(lines@.subrange(0, i as int)),
            ),
        decreases n - i,
    {
        proof {
            lemma_prefix_push(lines@, i as int);
            assert(views_of(lines@.subrange(0, i + 1)) =~= views_of(lines@.subrange(0, i as int)).push(
                lines@[i as int]@,
            ));
            crate::text::lemma_count_matching_snoc(
                views_of(lines@.subrange(0, i as int)),
                lines@[i as int]@,
                |l: Seq<char>| is_established_line(l),
            );
            crate::text::lemma_count_matching_snoc(
                views_of(lines@.subrange(0, i as int)),
                lines@[i as int]@,
                |l: Seq<char>| is_listening_line(l),
            );
            lemma_collect_from_snoc(
                views_of(lines@.subrange(0, i as int)),
                lines@[i as int]@,
                |l: Seq<char>| connection_of_line(l),
            );
        }
        let lower_line = lower_vec(&lines[i]);
        let mut pushed = false;
        if contains_chars(&lower_line, &needle_est) {
            established = established + 1;
            let parts = split_fields(&lines[i]);
            if parts.len() >= 5 {
                let conn = crate::parser::Connection {
                    protocol: string_from_chars(&parts[0]),
                    local: string_from_chars(&parts[3]),
                    remote: string_from_chars(&parts[4]),
                    state: "ESTABLISHED".to_owned(),
                };
                proof {
                    lemma_connection_views_push(connections@, conn);
                    assert(crate::parser::connection_views(connections@).push(conn@)
                        =~= crate::parser::connection_views(connections@) + seq![conn@]);
                }
                connections.push(conn);
                pushed = true;
            }
        } else if contains_chars(&lower_line, &needle_listen) {
            listening = listening + 1;
        }
        proof {
            if !pushed {
                assert(crate::parser::connection_views(connections@)
                    + Seq::<crate::parser::ConnectionModel>::empty() =~= crate::parser::connection_views(
                    connections@,
                ));
            }
        }
        i = i + 1;
    }
    proof {
        assert(lines@.subrange(0, n as int) =~= lines@);
    }
    let mut findings: Vec<Finding> = Vec::new();
    if established > 0 {
        let mut message = usize_dec_string(established);
        message.append(" established connection(s)");
        findings.push(
            Finding {
                category: "Active Connections".to_owned(),
                message,
                importance: if established > 50 {
                    Importance::High
                } else {
                    Importance::Info
                },
            },
        );
    }
    if listening > 0 {
        let mut message = usize_dec_string(listening);
        message.append(" listening port(s)");
        findings.push(
            Finding {
                category: "Listening Ports".to_owned(),
                message,
                importance: Importance::Info,
            },
        );
    }
    proof {
        assert(finding_views(findings@) =~= spec_parse_network_table(raw@, metadata@).findings);
    }
    let mut summary = usize_dec_string(established);
    summary.append(" established, ");
    let ldigits = usize_dec_string(listening);
    summary.append(ldigits.as_str());
    summary.append(" listening");
    let out = ParsedOutput {
        raw: raw.to_owned(),
        structured: StructuredData::NetworkTable {
            connections,
            established_count: established,
            listening_count: listening,
        },
        findings,
        summary,
        metadata,
    };
    out
}

// ---------------------------------------------------------------------------
// Log query (journalctl)
// ---------------------------------------------------------------------------

/// A log line counted as an error.
pub open spec fn is_error_line(l: Seq<char>) -> bool {
    ||| contains_seq(lower(l), "error"@)
    ||| contains_seq(lower(l), "failed"@)
    ||| contains_seq(lower(l), "fail"@)
}

/// A log line counted as a warning; an error line is not also a warning.
pub open spec fn is_warning_line(l: Seq<char>) -> bool {
    &&& !is_error_line(l)
    &&& (contains_seq(lower(l), "warning"@) || contains_seq(lower(l), "warn"@))
}

/// The error lines of a capture, in order.
pub open spec fn error_lines_of(lines: Seq<Seq<char>>) -> Seq<Seq<char>> {
    collect_from(
        lines,
        |l: Seq<char>|
            if is_error_line(l) {
                seq![l]
            } else {
                Seq::empty()
            },
    )
}

/// The warning lines of a capture, in order.
pub open spec fn warning_lines_of(lines: Seq<Seq<char>>) -> Seq<Seq<char>> {
    collect_from(
        lines,
        |l: Seq<char>|
            if is_warning_line(l) {
                seq![l]
            } else {
                Seq::empty()
            },
    )
}

/// An ASCII letter.
pub open spec fn is_alpha(c: char) -> bool {
    ('a' <= c && c <= 'z') || ('A' <= c && c <= 'Z')
}

/// The position of the first ASCII letter of `l`, if any.
pub open spec fn first_alpha_index(l: Seq<char>) -> Option<int>
    decreases l.len(),
{
    if l.len() == 0 {
        None
    } else if is_alpha(l[0]) {
        Some(0)
    } else {
        match first_alpha_index(l.drop_first()) {
            Some(i) => Some(i + 1),
            None => None,
        }
    }
}

/// The troubled service named on an error line: from the first letter up to
/// the next `.service`, provided the lower-cased line mentions `.service`.
pub open spec fn journal_service_of(l: Seq<char>) -> Option<Seq<char>> {
    if is_error_line(l) && contains_seq(lower(l), ".service"@) {
        match first_alpha_index(l) {
            Some(st) => match crate::text::find_first(l.skip(st), ".service"@) {
                Some(end) => Some(l.subrange(st, st + end)),
                None => None,
            },
            None => None,
        }
    } else {
        None
    }
}

/// `acc` with `x` appended unless already present.
pub open spec fn dedup_push(acc: Seq<Seq<char>>, x: Seq<char>) -> Seq<Seq<char>> {
    if acc.contains(x) {
        acc
    } else {
        acc.push(x)
    }
}

/// The troubled services of a capture, first occurrence first, without
/// duplicates.
pub open spec fn journal_failed_services(lines: Seq<Seq<char>>) -> Seq<Seq<char>>
    decreases lines.len(),
{
    if lines.len() == 0 {
        Seq::empty()
    } else {
        let pre = journal_failed_services(lines.drop_last());
        match journal_service_of(lines.last()) {
            Some(s) => dedup_push(pre, s),
            None => pre,
        }
    }
}

proof fn lemma_journal_services_snoc(lines: Seq<Seq<char>>, l: Seq<char>)
    ensures
        journal_failed_services(lines.push(l)) == (match journal_service_of(l) {
            Some(s) => dedup_push(journal_failed_services(lines), s),
            None => journal_failed_services(lines),
        }),
{
    assert(lines.push(l).drop_last() =~= lines);
    assert(lines.push(l).last() == l);
}

/// Expected findings of the log extractor.
pub open spec fn spec_journal_findings(lines: Seq<Seq<char>>) -> Seq<FindingModel> {
    let errors = error_lines_of(lines);
    let warnings = warning_lines_of(lines);
    let services = journal_failed_services(lines);
    (if errors.len() > 0 {
        seq![
            FindingModel {
                category: "Errors"@,
                message: dec_str(errors.len() as nat) + " error(s) found in logs"@,
                importance: Importance::High,
            },
        ]
    } else {
        Seq::empty()
    }) + (if warnings.len() > 0 {
        seq![
            FindingModel {
                category: "Warnings"@,
                message: dec_str(warnings.len() as nat) + " warning(s) found in logs"@,
                importance: Importance::Medium,
            },
        ]
    } else {
        Seq::empty()
    }) + (if services.len() > 0 {
        seq![
            FindingModel {
                category: "Failed Services"@,
                message: "Services with issues: "@ + join_with(services, ", "@),
                importance: Importance::High,
            },
        ]
    } else {
        Seq::empty()
    })
}

/// Expected summary of the log extractor.
pub open spec fn spec_journal_summary(lines: Seq<Seq<char>>) -> Seq<char> {
    let errors = error_lines_of(lines);
    let warnings = warning_lines_of(lines);
    if errors.len() > 0 || warnings.len() > 0 {
        dec_str(errors.len() as nat) + " error(s), "@ + dec_str(warnings.len() as nat)
            + " warning(s) in logs"@
    } else {
        "No errors or warnings found"@
    }
}

/// The first `k` of `s`.
pub open spec fn take_at_most(s: Seq<Seq<char>>, k: int) -> Seq<Seq<char>> {
    if s.len() <= k {
        s
    } else {
        s.take(k)
    }
}

/// Expected result of the log extractor: full counts, the services involved,
/// and at most ten sample lines of each kind.
pub open spec fn spec_parse_journalctl(raw: Seq<char>, meta: MetadataModel) -> ParsedModel {
    let lines = lines_of(raw);
    ParsedModel {
        raw: raw,
        structured: StructuredModel::Journalctl {
            error_count: error_lines_of(lines).len() as int,
            warning_count: warning_lines_of(lines).len() as int,
            failed_services: journal_failed_services(lines),
            errors: take_at_most(error_lines_of(lines), 10),
            warnings: take_at_most(warning_lines_of(lines), 10),
        },
        findings: spec_journal_findings(lines),
        summary: spec_journal_summary(lines),
        metadata: meta,
    }
}

/// The position of the first ASCII letter of `l`, if any.
fn first_alpha_exec(l: &Vec<char>) -> (r: Option<usize>)
    ensures
        match r {
            Some(i) => i < l@.len() && first_alpha_index(l@) == Some(i as int),
            None => first_alpha_index(l@) is None,
        },
{
    let n = l.len();
    let mut i: usize = 0;
    proof {
        assert(l@.skip(0) =~= l@);
    }
    while i < n
        invariant
            n == l@.len(),
            i <= n,
            first_alpha_index(l@) == (match first_alpha_index(l@.skip(i as int)) {
                Some(j) => Some(j + i),
                None => None,
            }),
        decreases n - i,
    {
        let c = l[i];
        proof {
            crate::text::lemma_skip_one(l@, i as int);
        }
        if ('a' <= c && c <= 'z') || ('A' <= c && c <= 'Z') {
            proof {
                assert(l@.skip(i as int)[0] == c);
                assert(first_alpha_index(l@.skip(i as int)) == Some(0int));
            }
            return Some(i);
        }
        i = i + 1;
    }
    proof {
        assert(l@.skip(n as int) =~= Seq::<char>::empty());
    }
    None
}

/// Whether `x` is already one of `v`.
fn contains_string(v: &Vec<String>, x: &String) -> (r: bool)
    ensures
        r == string_views(v@).contains(x@),
{
    let n = v.len();
    let mut i: usize = 0;
    while i < n
        invariant
            n == v@.len(),
            i <= n,
            forall|k: int| 0 <= k < i ==> string_views(v@)[k] != x@,
        decreases n - i,
    {
        if v[i] == *x {
            proof {
                assert(string_views(v@)[i as int] == x@);
            }
            return true;
        }
        i = i + 1;
    }
    proof {
        assert(forall|k: int| 0 <= k < string_views(v@).len() ==> string_views(v@)[k] != x@);
    }
    false
}

/// The first `k` strings of `v`.
fn take_strings(v: &Vec<String>, k: usize) -> (r: Vec<String>)
    ensures
        string_views(r@) == take_at_most(string_views(v@), k as int),
{
    let n = v.len();
    let stop: usize = if n <= k {
        n
    } else {
        k
    };
    let mut r: Vec<String> = Vec::new();
    let mut i: usize = 0;
    proof {
        assert(string_views(r@) =~= string_views(v@).take(0));
    }
    while i < stop
        invariant
            n == v@.len(),
            stop <= n,
            i <= stop,
            string_views(r@) == string_views(v@).take(i as int),
        decreases stop - i,
    {
        let s = v[i].clone();
        proof {
            lemma_string_views_push(r@, s);
            assert(string_views(v@).take(i + 1) =~= string_views(v@).take(i as int).push(v@[i as int]@));
        }
        r.push(s);
        i = i + 1;
    }
    proof {
        if stop == n {
            assert(string_views(v@).take(n as int) =~= string_views(v@));
        }
    }
    r
}

/// Log extractor: counts errors and warnings, names the services involved,
/// and keeps up to ten sample lines of each kind.
pub fn parse_journalctl(raw: &str, metadata: Metadata) -> (out: ParsedOutput)
    ensures
        out@ == spec_parse_journalctl(raw@, metadata@),
{
    let chars = chars_vec(raw);
    let lines = split_lines(&chars);
    let n = lines.len();
    let needle_error = chars_vec("error");
    let needle_failed = chars_vec("failed");
    let needle_fail = chars_vec("fail");
    let needle_warning = chars_vec("warning");
    let needle_warn = chars_vec("warn");
    let svc = chars_vec(".service");
    proof {
        reveal_strlit(".service");
        assert(svc@.len() == 8);
    }
    let mut errors: Vec<String> = Vec::new();
    let mut warnings: Vec<String> = Vec::new();
    let mut failed_services: Vec<String> = Vec::new();
    let mut i: usize = 0;
    proof {
        assert(views_of(lines@.subrange(0, 0)) =~= Seq::<Seq<char>>::empty());
    }
    while i < n
        invariant
            n == lines@.len(),
            i <= n,
            views_of(lines@) == lines_of(raw@),
            needle_error@ == "error"@,
            needle_failed@ == "failed"@,
            needle_fail@ == "fail"@,
            needle_warning@ == "warning"@,
            needle_warn@ == "warn"@,
            svc@ == ".service"@,
            svc@.len() == 8,
            string_views(errors@) == error_lines_of(views_of(lines@.subrange(0, i as int))),
            string_views(warnings@) == warning_lines_of(views_of(lines@.subrange(0, i as int))),
            string_views(failed_services@) == journal_failed_services(
                views_of(lines@.subrange(0, i as int)),
            ),
        decreases n - i,
    {
        proof {
            lemma_prefix_push(lines@, i as int);
            assert(views_of(lines@.subrange(0, i + 1)) =~= views_of(lines@.subrange(0, i as int)).push(
                lines@[i as int]@,
            ));
            lemma_collect_from_snoc(
                views_of(lines@.subrange(0, i as int)),
                lines@[i as int]@,
                |l: Seq<char>|
                    if is_error_line(l) {
                        seq![l]
                    } else {
                        Seq::<Seq<char>>::empty()
                    },
            );
            lemma_collect_from_snoc(
                views_of(lines@.subrange(0, i as int)),
                lines@[i as int]@,
                |l: Seq<char>|
                    if is_warning_line(l) {
                        seq![l]
                    } else {
                        Seq::<Seq<char>>::empty()
                    },
            );
            lemma_journal_services_snoc(views_of(lines@.subrange(0, i as int)), lines@[i as int]@);
        }
        let lower_line = lower_vec(&lines[i]);
        let is_err = contains_chars(&lower_line, &needle_error) || contains_chars(
            &lower_line,
            &needle_failed,
        ) || contains_chars(&lower_line, &needle_fail);
        if is_err {
            let line_string = string_from_chars(&lines[i]);
            proof {
                lemma_string_views_push(errors@, line_string);
                assert(string_views(errors@).push(line_string@) =~= string_views(errors@)
                    + seq![line_string@]);
            }
            errors.push(line_string);
            let mut named = false;
            if contains_chars(&lower_line, &svc) {
                match first_alpha_exec(&lines[i]) {
                    Some(st) => {
                        let suffix = crate::text::skip_chars(&lines[i], st);
                        match crate::text::find_first_exec(&suffix, &svc) {
                            Some(end) => {
                                let name_chars = crate::text::take_chars(&suffix, end);
                                let name = string_from_chars(&name_chars);
                                proof {
                                    assert(suffix@.take(end as int) =~= lines@[i as int]@.subrange(
                                        st as int,
                                        st + end,
                                    ));
                                    assert(journal_service_of(lines@[i as int]@) == Some(name@));
                                }
                                if contains_string(&failed_services, &name) {
                                    proof {
                                        assert(dedup_push(string_views(failed_services@), name@)
                                            =~= string_views(failed_services@));
                                    }
                                } else {
                                    proof {
                                        lemma_string_views_push(failed_services@, name);
                                    }
                                    failed_services.push(name);
                                }
                                named = true;
                            },
                            None => {},
                        }
                    },
                    None => {},
                }
            }
            proof {
                if !named {
                    assert(journal_service_of(lines@[i as int]@) is None);
                }
                assert(string_views(warnings@) + Seq::<Seq<char>>::empty() =~= string_views(warnings@));
            }
        } else if contains_chars(&lower_line, &needle_warning) || contains_chars(
            &lower_line,
            &needle_warn,
        ) {
            let line_string = string_from_chars(&lines[i]);
            proof {
                lemma_string_views_push(warnings@, line_string);
                assert(string_views(warnings@).push(line_string@) =~= string_views(warnings@)
                    + seq![line_string@]);
                assert(string_views(errors@) + Seq::<Seq<char>>::empty() =~= string_views(errors@));
            }
            warnings.push(line_string);
        } else {
            proof {
                assert(string_views(errors@) + Seq::<Seq<char>>::empty() =~= string_views(errors@));
                assert(string_views(warnings@) + Seq::<Seq<char>>::empty() =~= string_views(warnings@));
            }
        }
        i = i + 1;
    }
    proof {
        assert(lines@.subrange(0, n as int) =~= lines@);
    }
    let mut findings: Vec<Finding> = Vec::new();
    if errors.len() > 0 {
        let mut message = usize_dec_string(errors.len());
        message.append(" error(s) found in logs");
        findings.push(
            Finding { category: "Errors".to_owned(), message, importance: Importance::High },
        );
    }
    if warnings.len() > 0 {
        let mut message = usize_dec_string(warnings.len());
        message.append(" warning(s) found in logs");
        findings.push(
            Finding { category: "Warnings".to_owned(), message, importance: Importance::Medium },
        );
    }
    if failed_services.len() > 0 {
        let mut message = "Services with issues: ".to_owned();
        let joined = join_strings(&failed_services, ", ");
        message.append(joined.as_str());
        findings.push(
            Finding {
                category: "Failed Services".to_owned(),
                message,
                importance: Importance::High,
            },
        );
    }
    proof {
        assert(finding_views(findings@) =~= spec_journal_findings(lines_of(raw@)));
    }
    let summary: String = if errors.len() > 0 || warnings.len() > 0 {
        let mut s = usize_dec_string(errors.len());
        s.append(" error(s), ");
        let wdigits = usize_dec_string(warnings.len());
        s.append(wdigits.as_str());
        s.append(" warning(s) in logs");
        s
    } else {
        "No errors or warnings found".to_owned()
    };
    let error_count = errors.len();
    let warning_count = warnings.len();
    let error_preview = take_strings(&errors, 10);
    let warning_preview = take_strings(&warnings, 10);
    let out = ParsedOutput {
        raw: raw.to_owned(),
        structured: StructuredData::Journalctl {
            error_count,
            warning_count,
            failed_services,
            errors: error_preview,
            warnings: warning_preview,
        },
        findings,
        summary,
        metadata,
    };
    out
}

// ---------------------------------------------------------------------------
// Network scanner (nmap)
// ---------------------------------------------------------------------------

/// A line reporting a host as up.
pub open spec fn is_host_up_line(l: Seq<char>) -> bool {
    contains_seq(lower(l), "host is up"@)
}

/// A line reporting an open TCP port.
pub open spec fn is_open_port_line(l: Seq<char>) -> bool {
    contains_seq(l, "/tcp"@) && contains_seq(lower(l), "open"@)
}

/// The port column of an open-port line.
pub open spec fn port_of_line(l: Seq<char>) -> Seq<Seq<char>> {
    if is_open_port_line(l) && fields_of(l).len() > 0 {
        seq![fields_of(l)[0]]
    } else {
        Seq::empty()
    }
}

/// The service column of an open-port line, when it has one.
pub open spec fn service_of_line(l: Seq<char>) -> Seq<Seq<char>> {
    if is_open_port_line(l) && fields_of(l).len() > 2 {
        seq![fields_of(l)[2]]
    } else {
        Seq::empty()
    }
}

/// How many hosts a scan reports up.
pub open spec fn hosts_up_of(lines: Seq<Seq<char>>) -> nat {
    crate::text::count_matching(lines, |l: Seq<char>| is_host_up_line(l))
}

/// All open ports of a scan, in line order.
pub open spec fn open_ports_of(lines: Seq<Seq<char>>) -> Seq<Seq<char>> {
    collect_from(lines, |l: Seq<char>| port_of_line(l))
}

/// All services of a scan, in line order.
pub open spec fn services_of(lines: Seq<Seq<char>>) -> Seq<Seq<char>> {
    collect_from(lines, |l: Seq<char>| service_of_line(l))
}

/// Expected findings of the scan extractor: more than ten hosts weigh high,
/// any open port weighs high.
pub open spec fn spec_nmap_findings(lines: Seq<Seq<char>>) -> Seq<FindingModel> {
    let hosts = hosts_up_of(lines);
    let ports = open_ports_of(lines);
    let services = services_of(lines);
    (if hosts > 0 {
        seq![
            FindingModel {
                category: "Host Count"@,
                message: "Found "@ + dec_str(hosts) + " active host(s) on network"@,
                importance: if hosts > 10 {
                    Importance::High
                } else {
                    Importance::Medium
                },
            },
        ]
    } else {
        Seq::empty()
    }) + (if ports.len() > 0 {
        seq![
            FindingModel {
                category: "Open Ports"@,
                message: "Detected "@ + dec_str(ports.len() as nat) + " open port(s): "@ + join_with(
                    ports,
                    ", "@,
                ),
                importance: Importance::High,
            },
        ]
    } else {
        Seq::empty()
    }) + (if services.len() > 0 {
        seq![
            FindingModel {
                category: "Services"@,
                message: "Services detected: "@ + join_with(services, ", "@),
                importance: Importance::Info,
            },
        ]
    } else {
        Seq::empty()
    })
}

/// Expected summary of the scan extractor.
pub open spec fn spec_nmap_summary(lines: Seq<Seq<char>>) -> Seq<char> {
    let hosts = hosts_up_of(lines);
    let ports = open_ports_of(lines);
    if hosts > 0 {
        "Network scan complete - "@ + dec_str(hosts) + " hosts active, "@ + dec_str(
            ports.len() as nat,
        ) + " open ports"@
    } else {
        "Network scan complete - no hosts detected"@
    }
}

/// Expected result of the scan extractor.
pub open spec fn spec_parse_nmap(raw: Seq<char>, meta: MetadataModel) -> ParsedModel {
    ParsedModel {
        raw: raw,
        structured: StructuredModel::Nmap {
            hosts_up: hosts_up_of(lines_of(raw)) as int,
            open_ports: open_ports_of(lines_of(raw)),
            services: services_of(lines_of(raw)),
        },
        findings: spec_nmap_findings(lines_of(raw)),
        summary: spec_nmap_summary(lines_of(raw)),
        metadata: meta,
    }
}

/// Scan extractor: counts hosts that are up and collects open ports with
/// their services.
pub fn parse_nmap(raw: &str, metadata: Metadata) -> (out: ParsedOutput)
    ensures
        out@ == spec_parse_nmap(raw@, metadata@),
{
    let chars = chars_vec(raw);
    let lines = split_lines(&chars);
    let n = lines.len();
    let needle_up = chars_vec("host is up");
    let needle_tcp = chars_vec("/tcp");
    let needle_open = chars_vec("open");
    let mut hosts_up: usize = 0;
    let mut open_ports: Vec<String> = Vec::new();
    let mut services: Vec<String> = Vec::new();
    let mut i: usize = 0;
    proof {
        assert(views_of(lines@.subrange(0, 0)) =~= Seq::<Seq<char>>::empty());
    }
    while i < n
        invariant
            n == lines@.len(),
            i <= n,
            hosts_up <= i,
            views_of(lines@) == lines_of(raw@),
            needle_up@ == "host is up"@,
            needle_tcp@ == "/tcp"@,
            needle_open@ == "open"@,
            hosts_up == hosts_up_of(views_of(lines@.subrange(0, i as int))),
            string_views(open_ports@) == open_ports_of(views_of(lines@.subrange(0, i as int))),
            string_views(services@) == services_of(views_of(lines@.subrange(0, i as int))),
        decreases n - i,
    {
        proof {
            lemma_prefix_push(lines@, i as int);
            assert(views_of(lines@.subrange(0, i + 1)) =~= views_of(lines@.subrange(0, i as int)).push(
                lines@[i as int]@,
            ));
            crate::text::lemma_count_matching_snoc(
                views_of(lines@.subrange(0, i as int)),
                lines@[i as int]@,
                |l: Seq<char>| is_host_up_line(l),
            );
            lemma_collect_from_snoc(
                views_of(lines@.subrange(0, i as int)),
                lines@[i as int]@,
                |l: Seq<char>| port_of_line(l),
            );
            lemma_collect_from_snoc(
                views_of(lines@.subrange(0, i as int)),
                lines@[i as int]@,
                |l: Seq<char>| service_of_line(l),
            );
        }
        let lower_line = lower_vec(&lines[i]);
        if contains_chars(&lower_line, &needle_up) {
            hosts_up = hosts_up + 1;
        }
        let mut pushed_port = false;
        let mut pushed_service = false;
        if contains_chars(&lines[i], &needle_tcp) && contains_chars(&lower_line, &needle_open) {
            let parts = split_fields(&lines[i]);
            if parts.len() > 0 {
                let port = string_from_chars(&parts[0]);
                proof {
                    lemma_string_views_push(open_ports@, port);
                    assert(string_views(open_ports@).push(port@) =~= string_views(open_ports@)
                        + seq![port@]);
                }
                open_ports.push(port);
                pushed_port = true;
                if parts.len() > 2 {
                    let service = string_from_chars(&parts[2]);
                    proof {
                        lemma_string_views_push(services@, service);
                        assert(string_views(services@).push(service@) =~= string_views(services@)
                            + seq![service@]);
                    }
                    services.push(service);
                    pushed_service = true;
                }
            }
        }
        proof {
            if !pushed_port {
                assert(string_views(open_ports@) + Seq::<Seq<char>>::empty() =~= string_views(
                    open_ports@,
                ));
            }
            if !pushed_service {
                assert(string_views(services@) + Seq::<Seq<char>>::empty() =~= string_views(services@));
            }
        }
        i = i + 1;
    }
    proof {
        assert(lines@.subrange(0, n as int) =~= lines@);
    }
    let mut findings: Vec<Finding> = Vec::new();
    if hosts_up > 0 {
        let mut message = "Found ".to_owned();
        let digits = usize_dec_string(hosts_up);
        message.append(digits.as_str());
        message.append(" active host(s) on network");
        findings.push(
            Finding {
                category: "Host Count".to_owned(),
                message,
                importance: if hosts_up > 10 {
                    Importance::High
                } else {
                    Importance::Medium
                },
            },
        );
    }
    if open_ports.len() > 0 {
        let mut message = "Detected ".to_owned();
        let digits = usize_dec_string(open_ports.len());
        message.append(digits.as_str());
        message.append(" open port(s): ");
        let joined = join_strings(&open_ports, ", ");
        message.append(joined.as_str());
        findings.push(
            Finding { category: "Open Ports".to_owned(), message, importance: Importance::High },
        );
    }
    if services.len() > 0 {
        let mut message = "Services detected: ".to_owned();
        let joined = join_strings(&services, ", ");
        message.append(joined.as_str());
        findings.push(
            Finding { category: "Services".to_owned(), message, importance: Importance::Info },
        );
    }
    proof {
        assert(finding_views(findings@) =~= spec_nmap_findings(lines_of(raw@)));
    }
    let summary: String = if hosts_up > 0 {
        let mut s = "Network scan complete - ".to_owned();
        let digits = usize_dec_string(hosts_up);
        s.append(digits.as_str());
        s.append(" hosts active, ");
        let pdigits = usize_dec_string(open_ports.len());
        s.append(pdigits.as_str());
        s.append(" open ports");
        s
    } else {
        "Network scan complete - no hosts detected".to_owned()
    };
    let out = ParsedOutput {
        raw: raw.to_owned(),
        structured: StructuredData::Nmap { hosts_up, open_ports, services },
        findings,
        summary,
        metadata,
    };
    out
}

// ---------------------------------------------------------------------------
// Address listing (ip addr)
// ---------------------------------------------------------------------------

/// The end of the run of characters satisfying `p` that starts at `i`.
pub open spec fn run_end(l: Seq<char>, i: int, p: spec_fn(char) -> bool) -> int
    decreases l.len() - i
        when 0 <= i <= l.len()
{
    if i < l.len() && p(l[i]) {
        run_end(l, i + 1, p)
    } else {
        i
    }
}

/// The end of the digit run starting at `i`.
pub open spec fn digit_run(l: Seq<char>, i: int) -> int {
    run_end(l, i, |c: char| crate::text::is_digit(c))
}

/// The end of the whitespace run starting at `i`.
pub open spec fn ws_run(l: Seq<char>, i: int) -> int {
    run_end(l, i, |c: char| crate::text::is_ws(c))
}

/// The end of the non-whitespace run starting at `i`.
pub open spec fn nonws_run(l: Seq<char>, i: int) -> int {
    run_end(l, i, |c: char| !crate::text::is_ws(c))
}

/// The last `':'` strictly between `from` and `to`, leaving at least one
/// character after `from`.
pub open spec fn last_colon_after(l: Seq<char>, from: int, to: int) -> Option<int>
    decreases to - from
        when from <= to <= l.len()
{
    if to <= from + 1 {
        None
    } else if l[to - 1] == ':' {
        Some(to - 1)
    } else {
        last_colon_after(l, from, to - 1)
    }
}

/// The interface name on a header line: one or more digits, a colon,
/// whitespace, then a token that still holds a colon; the name is the token
/// up to its last colon.
pub open spec fn iface_of_line(l: Seq<char>) -> Option<Seq<char>> {
    let d = digit_run(l, 0);
    if d == 0 || d >= l.len() || l[d] != ':' {
        None
    } else {
        let w = ws_run(l, d + 1);
        if w == d + 1 {
            None
        } else {
            let e = nonws_run(l, w);
            match last_colon_after(l, w, e) {
                Some(j) => Some(l.subrange(w, j)),
                None => None,
            }
        }
    }
}

/// The end of an address written as four digit groups separated by dots and
/// a prefix length after a slash, starting at `w`; `None` when the shape is
/// not there.
pub open spec fn ipv4_end_at(l: Seq<char>, w: int) -> Option<int> {
    let e1 = digit_run(l, w);
    if e1 == w || e1 >= l.len() || l[e1] != '.' {
        None
    } else {
        let e2 = digit_run(l, e1 + 1);
        if e2 == e1 + 1 || e2 >= l.len() || l[e2] != '.' {
            None
        } else {
            let e3 = digit_run(l, e2 + 1);
            if e3 == e2 + 1 || e3 >= l.len() || l[e3] != '.' {
                None
            } else {
                let e4 = digit_run(l, e3 + 1);
                if e4 == e3 + 1 || e4 >= l.len() || l[e4] != '/' {
                    None
                } else {
                    let e5 = digit_run(l, e4 + 1);
                    if e5 == e4 + 1 {
                        None
                    } else {
                        Some(e5)
                    }
                }
            }
        }
    }
}

/// The address captured by an `inet` marker at position `p`: the marker,
/// whitespace, then the dotted address with its prefix length.
pub open spec fn ipv4_match_at(l: Seq<char>, p: int) -> Option<Seq<char>> {
    if crate::text::matches_at(l, "inet"@, p) {
        let w = ws_run(l, p + 4);
        if w == p + 4 {
            None
        } else {
            match ipv4_end_at(l, w) {
                Some(e) => Some(l.subrange(w, e)),
                None => None,
            }
        }
    } else {
        None
    }
}

/// The leftmost address match at or after `p`.
pub open spec fn find_ipv4(l: Seq<char>, p: int) -> Option<Seq<char>>
    decreases l.len() - p
        when 0 <= p <= l.len()
{
    if p >= l.len() {
        None
    } else {
        match ipv4_match_at(l, p) {
            Some(s) => Some(s),
            None => find_ipv4(l, p + 1),
        }
    }
}

/// The first address on a line, if any.
pub open spec fn ipv4_of_line(l: Seq<char>) -> Option<Seq<char>> {
    find_ipv4(l, 0)
}

/// The interfaces of a capture, in line order.
pub open spec fn interfaces_of(lines: Seq<Seq<char>>) -> Seq<Seq<char>> {
    collect_from(
        lines,
        |l: Seq<char>|
            match iface_of_line(l) {
                Some(s) => seq![s],
                None => Seq::empty(),
            },
    )
}

/// The addresses of a capture, in line order.
pub open spec fn ipv4_addresses_of(lines: Seq<Seq<char>>) -> Seq<Seq<char>> {
    collect_from(
        lines,
        |l: Seq<char>|
            match ipv4_of_line(l) {
                Some(s) => seq![s],
                None => Seq::empty(),
            },
    )
}

/// Expected result of the address-listing extractor.
pub open spec fn spec_parse_ip_addr(raw: Seq<char>, meta: MetadataModel) -> ParsedModel {
    let ifaces = interfaces_of(lines_of(raw));
    let addrs = ipv4_addresses_of(lines_of(raw));
    ParsedModel {
        raw: raw,
        structured: StructuredModel::IpAddr { interfaces: ifaces, ipv4_addresses: addrs },
        findings: (if ifaces.len() > 0 {
            seq![
                FindingModel {
                    category: "Network Interfaces"@,
                    message: dec_str(ifaces.len() as nat) + " interface(s) detected: "@ + join_with(
                        ifaces,
                        ", "@,
                    ),
                    importance: Importance::Info,
                },
            ]
        } else {
            Seq::empty()
        }) + (if addrs.len() > 0 {
            seq![
                FindingModel {
                    category: "IP Addresses"@,
                    message: dec_str(addrs.len() as nat) + " IPv4 address(es): "@ + join_with(
                        addrs,
                        ", "@,
                    ),
                    importance: Importance::Info,
                },
            ]
        } else {
            Seq::empty()
        }),
        summary: dec_str(ifaces.len() as nat) + " interfaces, "@ + dec_str(addrs.len() as nat)
            + " IPs"@,
        metadata: meta,
    }
}

/// Whether `c` is an ASCII digit.
fn is_digit_exec(c: char) -> (r: bool)
    ensures
        r == crate::text::is_digit(c),
{
    match c {
        '0' => true,
        '1' => true,
        '2' => true,
        '3' => true,
        '4' => true,
        '5' => true,
        '6' => true,
        '7' => true,
        '8' => true,
        '9' => true,
        _ => false,
    }
}

/// The end of the digit run starting at `i`.
fn digit_run_exec(l: &Vec<char>, i: usize) -> (r: usize)
    requires
        i <= l@.len(),
    ensures
        i <= r <= l@.len(),
        r == digit_run(l@, i as int),
{
    let n = l.len();
    let mut j: usize = i;
    while j < n && is_digit_exec(l[j])
        invariant
            n == l@.len(),
            i <= j <= n,
            digit_run(l@, i as int) == run_end(l@, j as int, |c: char| crate::text::is_digit(c)),
        decreases n - j,
    {
        j = j + 1;
    }
    j
}

/// The end of the whitespace run starting at `i`.
fn ws_run_exec(l: &Vec<char>, i: usize) -> (r: usize)
    requires
        i <= l@.len(),
    ensures
        i <= r <= l@.len(),
        r == ws_run(l@, i as int),
{
    let n = l.len();
    let mut j: usize = i;
    while j < n && crate::text::is_ws_exec(l[j])
        invariant
            n == l@.len(),
            i <= j <= n,
            ws_run(l@, i as int) == run_end(l@, j as int, |c: char| crate::text::is_ws(c)),
        decreases n - j,
    {
        j = j + 1;
    }
    j
}

/// The end of the non-whitespace run starting at `i`.
fn nonws_run_exec(l: &Vec<char>, i: usize) -> (r: usize)
    requires
        i <= l@.len(),
    ensures
        i <= r <= l@.len(),
        r == nonws_run(l@, i as int),
{
    let n = l.len();
    let mut j: usize = i;
    while j < n && !crate::text::is_ws_exec(l[j])
        invariant
            n == l@.len(),
            i <= j <= n,
            nonws_run(l@, i as int) == run_end(l@, j as int, |c: char| !crate::text::is_ws(c)),
        decreases n - j,
    {
        j = j + 1;
    }
    j
}

/// The last `':'` strictly between `from` and `to`.
fn last_colon_exec(l: &Vec<char>, from: usize, to: usize) -> (r: Option<usize>)
    requires
        from <= to <= l@.len(),
    ensures
        match r {
            Some(j) => from < j < to && last_colon_after(l@, from as int, to as int) == Some(j as int),
            None => last_colon_after(l@, from as int, to as int) is None,
        },
{
    let mut t = to;
    while t - from > 1
        invariant
            from <= t <= to <= l@.len(),
            last_colon_after(l@, from as int, to as int) == last_colon_after(
                l@,
                from as int,
                t as int,
            ),
        decreases t,
    {
        if l[t - 1] == ':' {
            return Some(t - 1);
        }
        t = t - 1;
    }
    None
}

/// Reads the interface name off a header line, if it has one.
fn iface_exec(l: &Vec<char>) -> (r: Option<Vec<char>>)
    ensures
        match r {
            Some(v) => iface_of_line(l@) == Some(v@),
            None => iface_of_line(l@) is None,
        },
{
    let n = l.len();
    let d = digit_run_exec(l, 0);
    if d == 0 || d >= n || l[d] != ':' {
        return None;
    }
    let w = ws_run_exec(l, d + 1);
    if w == d + 1 {
        return None;
    }
    let e = nonws_run_exec(l, w);
    match last_colon_exec(l, w, e) {
        Some(j) => {
            let name = crate::text::take_chars(&crate::text::skip_chars(l, w), j - w);
            proof {
                assert(l@.skip(w as int).take(j - w) =~= l@.subrange(w as int, j as int));
            }
            Some(name)
        },
        None => None,
    }
}

/// The end of an address shape starting at `w`, if it is there.
fn ipv4_end_exec(l: &Vec<char>, w: usize) -> (r: Option<usize>)
    requires
        w <= l@.len(),
    ensures
        match r {
            Some(e) => w < e <= l@.len() && ipv4_end_at(l@, w as int) == Some(e as int),
            None => ipv4_end_at(l@, w as int) is None,
        },
{
    let n = l.len();
    let e1 = digit_run_exec(l, w);
    if e1 == w || e1 >= n || l[e1] != '.' {
        return None;
    }
    let e2 = digit_run_exec(l, e1 + 1);
    if e2 == e1 + 1 || e2 >= n || l[e2] != '.' {
        return None;
    }
    let e3 = digit_run_exec(l, e2 + 1);
    if e3 == e2 + 1 || e3 >= n || l[e3] != '.' {
        return None;
    }
    let e4 = digit_run_exec(l, e3 + 1);
    if e4 == e3 + 1 || e4 >= n || l[e4] != '/' {
        return None;
    }
    let e5 = digit_run_exec(l, e4 + 1);
    if e5 == e4 + 1 {
        return None;
    }
    Some(e5)
}

/// Reads the first address off a line, if it has one.
fn ipv4_exec(l: &Vec<char>) -> (r: Option<Vec<char>>)
    ensures
        match r {
            Some(v) => ipv4_of_line(l@) == Some(v@),
            None => ipv4_of_line(l@) is None,
        },
{
    let inet = chars_vec("inet");
    proof {
        reveal_strlit("inet");
        assert(inet@ =~= "inet"@);
        assert(inet@.len() == 4);
    }
    let n = l.len();
    let mut p: usize = 0;
    while p < n
        invariant
            n == l@.len(),
            p <= n,
            inet@ == "inet"@,
            inet@.len() == 4,
            find_ipv4(l@, 0) == find_ipv4(l@, p as int),
        decreases n - p,
    {
        let mut matched = false;
        if n - p >= 4 && crate::text::matches_at_exec(l, &inet, p) {
            let w = ws_run_exec(l, p + 4);
            if w > p + 4 {
                match ipv4_end_exec(l, w) {
                    Some(e) => {
                        let addr = crate::text::take_chars(&crate::text::skip_chars(l, w), e - w);
                        proof {
                            assert(l@.skip(w as int).take(e - w) =~= l@.subrange(w as int, e as int));
                            assert(ipv4_match_at(l@, p as int) == Some(addr@));
                        }
                        return Some(addr);
                    },
                    None => {},
                }
            }
        } else {
            proof {
                if n - p < 4 {
                    assert(!crate::text::matches_at(l@, "inet"@, p as int));
                }
            }
        }
        proof {
            assert(ipv4_match_at(l@, p as int) is None);
        }
        p = p + 1;
    }
    None
}

/// Address-listing extractor: collects interface names and IPv4 addresses.
pub fn parse_ip_addr(raw: &str, metadata: Metadata) -> (out: ParsedOutput)
    ensures
        out@ == spec_parse_ip_addr(raw@, metadata@),
{
    let chars = chars_vec(raw);
    let lines = split_lines(&chars);
    let n = lines.len();
    let mut interfaces: Vec<String> = Vec::new();
    let mut ipv4_addresses: Vec<String> = Vec::new();
    let mut i: usize = 0;
    proof {
        assert(views_of(lines@.subrange(0, 0)) =~= Seq::<Seq<char>>::empty());
    }
    while i < n
        invariant
            n == lines@.len(),
            i <= n,
            views_of(lines@) == lines_of(raw@),
            string_views(interfaces@) == interfaces_of(views_of(lines@.subrange(0, i as int))),
            string_views(ipv4_addresses@) == ipv4_addresses_of(views_of(lines@.subrange(0, i as int))),
        decreases n - i,
    {
        proof {
            lemma_prefix_push(lines@, i as int);
            assert(views_of(lines@.subrange(0, i + 1)) =~= views_of(lines@.subrange(0, i as int)).push(
                lines@[i as int]@,
            ));
            lemma_collect_from_snoc(
                views_of(lines@.subrange(0, i as int)),
                lines@[i as int]@,
                |l: Seq<char>|
                    match iface_of_line(l) {
                        Some(s) => seq![s],
                        None => Seq::<Seq<char>>::empty(),
                    },
            );
            lemma_collect_from_snoc(
                views_of(lines@.subrange(0, i as int)),
                lines@[i as int]@,
                |l: Seq<char>|
                    match ipv4_of_line(l) {
                        Some(s) => seq![s],
                        None => Seq::<Seq<char>>::empty(),
                    },
            );
        }
        match iface_exec(&lines[i]) {
            Some(name_chars) => {
                let name = string_from_chars(&name_chars);
                proof {
                    lemma_string_views_push(interfaces@, name);
                    assert(string_views(interfaces@).push(name@) =~= string_views(interfaces@)
                        + seq![name@]);
                }
                interfaces.push(name);
            },
            None => {
                proof {
                    assert(string_views(interfaces@) + Seq::<Seq<char>>::empty() =~= string_views(
                        interfaces@,
                    ));
                }
            },
        }
        match ipv4_exec(&lines[i]) {
            Some(addr_chars) => {
                let addr = string_from_chars(&addr_chars);
                proof {
                    lemma_string_views_push(ipv4_addresses@, addr);
                    assert(string_views(ipv4_addresses@).push(addr@) =~= string_views(ipv4_addresses@)
                        + seq![addr@]);
                }
                ipv4_addresses.push(addr);
            },
            None => {
                proof {
                    assert(string_views(ipv4_addresses@) + Seq::<Seq<char>>::empty() =~= string_views(
                        ipv4_addresses@,
                    ));
                }
            },
        }
        i = i + 1;
    }
    proof {
        assert(lines@.subrange(0, n as int) =~= lines@);
    }
    let mut findings: Vec<Finding> = Vec::new();
    if interfaces.len() > 0 {
        let mut message = usize_dec_string(interfaces.len());
        message.append(" interface(s) detected: ");
        let joined = join_strings(&interfaces, ", ");
        message.append(joined.as_str());
        findings.push(
            Finding {
                category: "Network Interfaces".to_owned(),
                message,
                importance: Importance::Info,
            },
        );
    }
    if ipv4_addresses.len() > 0 {
        let mut message = usize_dec_string(ipv4_addresses.len());
        message.append(" IPv4 address(es): ");
        let joined = join_strings(&ipv4_addresses, ", ");
        message.append(joined.as_str());
        findings.push(
            Finding {
                category: "IP Addresses".to_owned(),
                message,
                importance: Importance::Info,
            },
        );
    }
    proof {
        assert(finding_views(findings@) =~= spec_parse_ip_addr(raw@, metadata@).findings);
    }
    let mut summary = usize_dec_string(interfaces.len());
    summary.append(" interfaces, ");
    let adigits = usize_dec_string(ipv4_addresses.len());
    summary.append(adigits.as_str());
    summary.append(" IPs");
    let out = ParsedOutput {
        raw: raw.to_owned(),
        structured: StructuredData::IpAddr { interfaces, ipv4_addresses },
        findings,
        summary,
        metadata,
    };
    out
}

// ---------------------------------------------------------------------------
// Dispatch
// ---------------------------------------------------------------------------

/// The extractor that runs for each format; formats without one fall back to
/// the plain-text extractor.
pub open spec fn spec_dispatch(
    f: crate::parser::Format,
    raw: Seq<char>,
    meta: MetadataModel,
) -> ParsedModel {
    match f {
        crate::parser::Format::Nmap => spec_parse_nmap(raw, meta),
        crate::parser::Format::NetworkTable => spec_parse_network_table(raw, meta),
        crate::parser::Format::ProcessTable => spec_parse_process_table(raw, meta),
        crate::parser::Format::LsLong => spec_parse_ls_long(raw, meta),
        crate::parser::Format::IpAddr => spec_parse_ip_addr(raw, meta),
        crate::parser::Format::Systemctl => spec_parse_systemctl(raw, meta),
        crate::parser::Format::DiskUsage => spec_parse_disk_usage(raw, meta),
        crate::parser::Format::Journalctl => spec_parse_journalctl(raw, meta),
        crate::parser::Format::Json => crate::parser::spec_parse_json(raw, meta),
        crate::parser::Format::BlockDevices => crate::parser::spec_parse_generic(raw, meta),
        crate::parser::Format::Table => crate::parser::spec_parse_generic(raw, meta),
        crate::parser::Format::PlainText => crate::parser::spec_parse_generic(raw, meta),
    }
}

/// The metadata computed once before dispatch.
pub open spec fn spec_metadata_for(raw: &str, cmd: Seq<char>) -> MetadataModel {
    MetadataModel {
        line_count: (lines_of(raw@).len() as usize) as int,
        byte_count: (raw.spec_bytes().len() as usize) as int,
        duration_ms: None,
        format_detected: crate::parser::format_name(crate::parser::spec_detect_format(raw@, cmd)),
    }
}

/// The complete expected result of classification and extraction.
pub open spec fn spec_parse_intelligently(raw: &str, cmd: Seq<char>) -> ParsedModel {
    spec_dispatch(
        crate::parser::spec_detect_format(raw@, cmd),
        raw@,
        spec_metadata_for(raw, cmd),
    )
}

/// Classifies `raw` and runs the matching extractor; the metadata is
/// computed once, before dispatch, and attached unchanged.
pub fn parse_intelligently(raw: &str, command: &str) -> (out: ParsedOutput)
    ensures
        out@ == spec_parse_intelligently(raw, command@),
        crate::parser::parsed_output_wf(out@, raw@, command@),
{
    let tag = crate::parser::detect_format_tag(raw, command);
    let chars = chars_vec(raw);
    let lines = split_lines(&chars);
    let line_count = lines.len();
    let byte_count = raw.len();
    let metadata = Metadata {
        line_count,
        byte_count,
        duration_ms: None,
        format_detected: crate::parser::format_label(tag),
    };
    match tag {
        crate::parser::Format::Nmap => parse_nmap(raw, metadata),
        crate::parser::Format::NetworkTable => parse_network_table(raw, metadata),
        crate::parser::Format::ProcessTable => parse_process_table(raw, metadata),
        crate::parser::Format::LsLong => parse_ls_long(raw, metadata),
        crate::parser::Format::IpAddr => parse_ip_addr(raw, metadata),
        crate::parser::Format::Systemctl => parse_systemctl(raw, metadata),
        crate::parser::Format::DiskUsage => parse_disk_usage(raw, metadata),
        crate::parser::Format::Journalctl => parse_journalctl(raw, metadata),
        crate::parser::Format::Json => crate::parser::parse_json(raw, metadata),
        crate::parser::Format::BlockDevices => crate::parser::parse_generic(raw, metadata),
        crate::parser::Format::Table => crate::parser::parse_generic(raw, metadata),
        crate::parser::Format::PlainText => crate::parser::parse_generic(raw, metadata),
    }
}

} // verus!
