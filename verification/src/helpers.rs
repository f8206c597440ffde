//! Input validation, sanitization and the response record.
//!
//! Commands arrive as untrusted text; before anything reaches the session
//! they are screened for null bytes, oversize input and a short denylist of
//! destructive patterns. The checks are a denylist, not a capability
//! boundary.

use vstd::prelude::*;
use vstd::string::StringSliceAdditionalSpecFns;
use crate::text::{
    chars_vec, contains_chars, contains_seq, lower, lower_vec, remove_all, remove_all_chars,
    starts_with_chars, starts_with_seq, string_from_chars, trim, trim_chars,
};

verus! {

// ---------------------------------------------------------------------------
// Command validation
// ---------------------------------------------------------------------------

/// The error reported for the first destructive pattern found in the
/// lower-cased command, if any.
pub open spec fn dangerous_message(lc: Seq<char>) -> Option<Seq<char>> {
    if contains_seq(lc, "rm -rf /"@) {
        Some("Blocked dangerous command pattern: rm -rf /"@)
    } else if contains_seq(lc, "rm -rf /*"@) {
        Some("Blocked dangerous command pattern: rm -rf /*"@)
    } else if contains_seq(lc, "> /dev/sda"@) {
        Some("Blocked dangerous command pattern: > /dev/sda"@)
    } else if contains_seq(lc, "dd if=/dev/zero of=/dev/sda"@) {
        Some("Blocked dangerous command pattern: dd if=/dev/zero of=/dev/sda"@)
    } else if contains_seq(lc, "mkfs."@) {
        Some("Blocked dangerous command pattern: mkfs."@)
    } else if contains_seq(lc, ":(){ :|:& };:"@) {
        Some("Blocked dangerous command pattern: :(){ :|:& };:"@)
    } else {
        None
    }
}

/// The error a command is rejected with, if any: a null byte, more than
/// 8192 bytes, or a destructive pattern, checked in that order.
pub open spec fn spec_validate_command(command: &str) -> Option<Seq<char>> {
    if contains_seq(command@, seq!['\u{0}']) {
        Some("Invalid command: contains null byte"@)
    } else if command.spec_bytes().len() as usize > 8192 {
        Some("Command too long (max 8192 characters)"@)
    } else {
        dangerous_message(lower(command@))
    }
}

/// Screens a command before it is sent to a session: rejects null bytes,
/// oversize input and a denylist of destructive patterns, each with its own
/// message; accepts everything else.
pub fn validate_command(command: &str) -> (r: Result<(), String>)
    ensures
        match r {
            Ok(_) => spec_validate_command(command) is None,
            Err(m) => spec_validate_command(command) == Some(m@),
        },
{
    let cmd = chars_vec(command);
    let nul = chars_vec("\u{0}");
    proof {
        reveal_strlit("\u{0}");
        assert(nul@ =~= seq!['\u{0}']);
    }
    if contains_chars(&cmd, &nul) {
        return Err("Invalid command: contains null byte".to_owned());
    }
    if command.len() > 8192 {
        return Err("Command too long (max 8192 characters)".to_owned());
    }
    let lc = lower_vec(&cmd);
    if contains_chars(&lc, &chars_vec("rm -rf /")) {
        return Err("Blocked dangerous command pattern: rm -rf /".to_owned());
    }
    if contains_chars(&lc, &chars_vec("rm -rf /*")) {
        return Err("Blocked dangerous command pattern: rm -rf /*".to_owned());
    }
    if contains_chars(&lc, &chars_vec("> /dev/sda")) {
        return Err("Blocked dangerous command pattern: > /dev/sda".to_owned());
    }
    if contains_chars(&lc, &chars_vec("dd if=/dev/zero of=/dev/sda")) {
        return Err("Blocked dangerous command pattern: dd if=/dev/zero of=/dev/sda".to_owned());
    }
    if contains_chars(&lc, &chars_vec("mkfs.")) {
        return Err("Blocked dangerous command pattern: mkfs.".to_owned());
    }
    if contains_chars(&lc, &chars_vec(":(){ :|:& };:")) {
        return Err("Blocked dangerous command pattern: :(){ :|:& };:".to_owned());
    }
    Ok(())
}

/// The error a desktop-entry name is rejected with, if any: a path
/// separator, a parent reference or a null byte, or more than 255 bytes.
pub open spec fn spec_validate_desktop_entry(entry: &str) -> Option<Seq<char>> {
    if contains_seq(entry@, seq!['/']) || contains_seq(entry@, ".."@) || contains_seq(
        entry@,
        seq!['\u{0}'],
    ) {
        Some("Invalid desktop_entry: contains illegal characters"@)
    } else if entry.spec_bytes().len() as usize > 255 {
        Some("Invalid desktop_entry: too long"@)
    } else {
        None
    }
}

/// Screens a desktop-entry name against directory traversal and oversize
/// input.
pub fn validate_desktop_entry(entry: &str) -> (r: Result<(), String>)
    ensures
        match r {
            Ok(_) => spec_validate_desktop_entry(entry) is None,
            Err(m) => spec_validate_desktop_entry(entry) == Some(m@),
        },
{
    let e = chars_vec(entry);
    let slash = chars_vec("/");
    let dots = chars_vec("..");
    let nul = chars_vec("\u{0}");
    proof {
        reveal_strlit("/");
        reveal_strlit("\u{0}");
        assert(slash@ =~= seq!['/']);
        assert(nul@ =~= seq!['\u{0}']);
    }
    if contains_chars(&e, &slash) || contains_chars(&e, &dots) || contains_chars(&e, &nul) {
        return Err("Invalid desktop_entry: contains illegal characters".to_owned());
    }
    if entry.len() > 255 {
        return Err("Invalid desktop_entry: too long".to_owned());
    }
    Ok(())
}

/// The prefixes under which an executable path is acceptable.
pub open spec fn allowed_exec_prefix(path: Seq<char>) -> bool {
    ||| starts_with_seq(path, "/usr/"@)
    ||| starts_with_seq(path, "/bin/"@)
    ||| starts_with_seq(path, "/usr/local/bin/"@)
    ||| starts_with_seq(path, "/opt/"@)
    ||| starts_with_seq(path, "/snap/bin/"@)
}

/// Whether a path lies under one of the prefixes from which executables may
/// be launched. The filesystem check that the file exists and is executable
/// is the caller's.
pub fn is_allowed_executable_prefix(path: &str) -> (r: bool)
    ensures
        r == allowed_exec_prefix(path@),
{
    let p = chars_vec(path);
    starts_with_chars(&p, &chars_vec("/usr/")) || starts_with_chars(&p, &chars_vec("/bin/"))
        || starts_with_chars(&p, &chars_vec("/usr/local/bin/")) || starts_with_chars(
        &p,
        &chars_vec("/opt/"),
    ) || starts_with_chars(&p, &chars_vec("/snap/bin/"))
}

/// The terminal emulators a fallback launch may name.
pub open spec fn allowed_terminal(name: Seq<char>) -> bool {
    ||| name == "foot"@
    ||| name == "kitty"@
    ||| name == "konsole"@
    ||| name == "gnome-terminal"@
    ||| name == "xfce4-terminal"@
    ||| name == "alacritty"@
    ||| name == "terminator"@
}

/// Whether a terminal name is on the allowlist for fallback launches.
pub fn is_allowed_terminal(name: &str) -> (r: bool)
    ensures
        r == allowed_terminal(name@),
{
    let n = chars_vec(name);
    crate::text::eq_chars(&n, &chars_vec("foot")) || crate::text::eq_chars(&n, &chars_vec("kitty"))
        || crate::text::eq_chars(&n, &chars_vec("konsole")) || crate::text::eq_chars(
        &n,
        &chars_vec("gnome-terminal"),
    ) || crate::text::eq_chars(&n, &chars_vec("xfce4-terminal")) || crate::text::eq_chars(
        &n,
        &chars_vec("alacritty"),
    ) || crate::text::eq_chars(&n, &chars_vec("terminator"))
}

// ---------------------------------------------------------------------------
// String helpers
// ---------------------------------------------------------------------------

/// Whether a string is empty or all whitespace.
pub fn is_blank(s: &str) -> (r: bool)
    ensures
        r == (trim(s@).len() == 0),
{
    let v = chars_vec(s);
    let t = trim_chars(&v);
    t.len() == 0
}

/// What sanitizing leaves of a command: null bytes and carriage returns
/// removed, then surrounding whitespace trimmed.
pub open spec fn spec_sanitize_command(cmd: Seq<char>) -> Seq<char> {
    trim(remove_all(remove_all(cmd, seq!['\u{0}']), seq!['\r']))
}

/// Strips null bytes and carriage returns from a command and trims it.
pub fn sanitize_command(cmd: &str) -> (r: String)
    ensures
        r@ == spec_sanitize_command(cmd@),
{
    let v = chars_vec(cmd);
    let nul = chars_vec("\u{0}");
    let cr = chars_vec("\r");
    proof {
        reveal_strlit("\u{0}");
        reveal_strlit("\r");
        assert(nul@ =~= seq!['\u{0}']);
        assert(cr@ =~= seq!['\r']);
    }
    let no_nul = remove_all_chars(&v, &nul);
    let no_cr = remove_all_chars(&no_nul, &cr);
    let trimmed = trim_chars(&no_cr);
    string_from_chars(&trimmed)
}

/// What truncation leaves of `s`: unchanged when it fits, otherwise cut to
/// make room for a three-dot ellipsis.
pub open spec fn spec_truncate(s: Seq<char>, max_len: int) -> Seq<char> {
    if s.len() <= max_len {
        s
    } else if max_len <= 3 {
        "..."@
    } else {
        s.take(max_len - 3) + "..."@
    }
}

/// Truncates a string to at most `max_len` characters, ending it with an
/// ellipsis when anything was cut.
pub fn truncate(s: &str, max_len: usize) -> (r: String)
    ensures
        r@ == spec_truncate(s@, max_len as int),
{
    let n = s.unicode_len();
    if n <= max_len {
        return s.to_owned();
    }
    if max_len <= 3 {
        return "...".to_owned();
    }
    let v = chars_vec(s);
    let head = crate::text::take_chars(&v, max_len - 3);
    let mut r = string_from_chars(&head);
    r.append("...");
    r
}

// ---------------------------------------------------------------------------
// The response record
// ---------------------------------------------------------------------------

/// The uniform reply sent back for one request.
#[derive(Clone, Debug)]
pub struct Response {
    pub success: bool,
    pub output: Option<String>,
    pub error: Option<String>,
    pub exists: Option<bool>,
}

/// A successful response carrying output.
pub fn success(output: String) -> (r: Response)
    ensures
        r.success == true,
        r.output matches Some(o) && o@ == output@,
        r.error is None,
        r.exists is None,
{
    Response { success: true, output: Some(output), error: None, exists: None }
}

/// A successful response without output.
pub fn success_empty() -> (r: Response)
    ensures
        r.success == true,
        r.output is None,
        r.error is None,
        r.exists is None,
{
    Response { success: true, output: None, error: None, exists: None }
}

/// An error response.
pub fn error(message: String) -> (r: Response)
    ensures
        r.success == false,
        r.output is None,
        r.error matches Some(e) && e@ == message@,
        r.exists is None,
{
    Response { success: false, output: None, error: Some(message), exists: None }
}

/// A response reporting a boolean check.
pub fn exists_response(present: bool) -> (r: Response)
    ensures
        r.success == present,
        r.output is None,
        r.error is None,
        r.exists == Some(present),
{
    Response { success: present, output: None, error: None, exists: Some(present) }
}

// ---------------------------------------------------------------------------
// Pattern escaping
// ---------------------------------------------------------------------------

/// A character with a meaning in a process-search pattern.
pub open spec fn is_pattern_special(c: char) -> bool {
    ||| c == '\\'
    ||| c == '.'
    ||| c == '*'
    ||| c == '+'
    ||| c == '?'
    ||| c == '['
    ||| c == ']'
    ||| c == '('
    ||| c == ')'
    ||| c == '{'
    ||| c == '}'
    ||| c == '|'
    ||| c == '^'
    ||| c == '$'
}

/// What one character becomes under escaping: special characters gain a
/// backslash, everything else passes through.
pub open spec fn escape_char(c: char) -> Seq<char> {
    if is_pattern_special(c) {
        seq!['\\', c]
    } else {
        seq![c]
    }
}

/// `s` with every special character escaped.
pub open spec fn spec_escape_pattern(s: Seq<char>) -> Seq<char>
    decreases s.len(),
{
    if s.len() == 0 {
        Seq::empty()
    } else {
        spec_escape_pattern(s.drop_last()) + escape_char(s.last())
    }
}

proof fn lemma_escape_snoc(s: Seq<char>, c: char)
    ensures
        spec_escape_pattern(s.push(c)) == spec_escape_pattern(s) + escape_char(c),
{
    assert(s.push(c).drop_last() =~= s);
    assert(s.push(c).last() == c);
}

/// Escapes the characters that carry a meaning in a process-search pattern,
/// so that a session name cannot smuggle one in.
pub fn escape_pgrep_pattern(s: &str) -> (r: String)
    ensures
        r@ == spec_escape_pattern(s@),
{
    let v = chars_vec(s);
    let n = v.len();
    let mut out: Vec<char> = Vec::new();
    let mut i: usize = 0;
    proof {
        assert(v@.take(0) =~= Seq::<char>::empty());
    }
    while i < n
        invariant
            n == v@.len(),
            i <= n,
            out@ == spec_escape_pattern(v@.take(i as int)),
        decreases n - i,
    {
        let c = v[i];
        proof {
            assert(v@.take(i + 1) =~= v@.take(i as int).push(v@[i as int]));
            lemma_escape_snoc(v@.take(i as int), v@[i as int]);
        }
        let special = match c {
            '\\' => true,
            '.' => true,
            '*' => true,
            '+' => true,
            '?' => true,
            '[' => true,
            ']' => true,
            '(' => true,
            ')' => true,
            '{' => true,
            '}' => true,
            '|' => true,
            '^' => true,
            '$' => true,
            _ => false,
        };
        if special {
            out.push('\\');
        }
        out.push(c);
        proof {
            if special {
                assert(out@ =~= spec_escape_pattern(v@.take(i as int)) + escape_char(v@[i as int]));
            } else {
                assert(out@ =~= spec_escape_pattern(v@.take(i as int)) + escape_char(v@[i as int]));
            }
        }
        i = i + 1;
    }
    proof {
        assert(v@.take(n as int) =~= v@);
    }
    string_from_chars(&out)
}

// ---------------------------------------------------------------------------
// Command and desktop-entry inspection
// ---------------------------------------------------------------------------

/// The application name in a command line: the first whitespace-separated
/// token, reduced to what follows its last path separator.
pub open spec fn spec_app_name_of_command(cmd: Seq<char>) -> Option<Seq<char>> {
    let parts = crate::text::fields_of(cmd);
    if parts.len() == 0 {
        None
    } else {
        match crate::text::rfind_char(parts[0], '/') {
            Some(i) => Some(parts[0].skip(i + 1)),
            None => Some(parts[0]),
        }
    }
}

/// The application name a command would launch, if the command has any
/// token at all.
pub fn app_name_of_command(command: &str) -> (r: Option<String>)
    ensures
        match r {
            Some(name) => spec_app_name_of_command(command@) == Some(name@),
            None => spec_app_name_of_command(command@) is None,
        },
{
    let v = chars_vec(command);
    let parts = crate::text::split_fields(&v);
    if parts.len() == 0 {
        return None;
    }
    let first = &parts[0];
    let flen = first.len();
    match crate::text::rfind_char_exec(first, '/') {
        Some(i) => {
            proof {
                assert(i < flen);
            }
            let tail = crate::text::skip_chars(first, i + 1);
            Some(string_from_chars(&tail))
        },
        None => Some(string_from_chars(first)),
    }
}

/// A `Name=` line whose value equals the application name, case folded.
pub open spec fn name_field_matches(l: Seq<char>, app: Seq<char>) -> bool {
    starts_with_seq(l, "Name="@) && l.len() > 5 && lower(l.skip(5)) == lower(app)
}

/// A `GenericName=` line whose value equals the application name, case
/// folded.
pub open spec fn generic_field_matches(l: Seq<char>, app: Seq<char>) -> bool {
    starts_with_seq(l, "GenericName="@) && l.len() > 12 && lower(l.skip(12)) == lower(app)
}

/// An `Exec=` line whose command's binary name equals the application name,
/// case folded.
pub open spec fn exec_field_matches(l: Seq<char>, app: Seq<char>) -> bool {
    &&& starts_with_seq(l, "Exec="@)
    &&& l.len() > 5
    &&& {
        let parts = crate::text::fields_of(l.skip(5));
        &&& parts.len() > 0
        &&& {
            let binary = if contains_seq(parts[0], seq!['/']) {
                match crate::text::rfind_char(parts[0], '/') {
                    Some(i) => parts[0].skip(i + 1),
                    None => parts[0],
                }
            } else {
                parts[0]
            };
            lower(binary) == lower(app)
        }
    }
}

/// A desktop-entry line that identifies the application, by name, generic
/// name, or the binary its command runs.
pub open spec fn desktop_line_matches(l: Seq<char>, app: Seq<char>) -> bool {
    name_field_matches(l, app) || generic_field_matches(l, app) || exec_field_matches(l, app)
}

/// Whether some line of a desktop-entry file identifies the application.
pub open spec fn spec_desktop_entry_matches(content: Seq<char>, app: Seq<char>) -> bool {
    exists|i: int|
        0 <= i < crate::text::lines_of(content).len() && desktop_line_matches(
            #[trigger] crate::text::lines_of(content)[i],
            app,
        )
}

/// Whether one line identifies the application.
fn desktop_line_match_exec(l: &Vec<char>, app: &Vec<char>) -> (r: bool)
    ensures
        r == desktop_line_matches(l@, app@),
{
    let app_lower = lower_vec(app);
    let name_prefix = chars_vec("Name=");
    if starts_with_chars(l, &name_prefix) && l.len() > 5 {
        let value = crate::text::skip_chars(l, 5);
        let value_lower = lower_vec(&value);
        if crate::text::eq_chars(&value_lower, &app_lower) {
            return true;
        }
    }
    let generic_prefix = chars_vec("GenericName=");
    if starts_with_chars(l, &generic_prefix) && l.len() > 12 {
        let value = crate::text::skip_chars(l, 12);
        let value_lower = lower_vec(&value);
        if crate::text::eq_chars(&value_lower, &app_lower) {
            return true;
        }
    }
    let exec_prefix = chars_vec("Exec=");
    let mut exec_hit = false;
    if starts_with_chars(l, &exec_prefix) && l.len() > 5 {
        let value = crate::text::skip_chars(l, 5);
        let parts = crate::text::split_fields(&value);
        if parts.len() > 0 {
            let slash = chars_vec("/");
            proof {
                reveal_strlit("/");
                assert(slash@ =~= seq!['/']);
            }
            let plen = parts[0].len();
            let binary: Vec<char> = if contains_chars(&parts[0], &slash) {
                match crate::text::rfind_char_exec(&parts[0], '/') {
                    Some(i) => {
                        proof {
                            assert(i < plen);
                        }
                        crate::text::skip_chars(&parts[0], i + 1)
                    },
                    None => crate::text::take_chars(&parts[0], parts[0].len()),
                }
            } else {
                crate::text::take_chars(&parts[0], parts[0].len())
            };
            proof {
                assert(parts[0]@.take(parts[0]@.len() as int) =~= parts[0]@);
            }
            let binary_lower = lower_vec(&binary);
            if crate::text::eq_chars(&binary_lower, &app_lower) {
                exec_hit = true;
            }
        }
    }
    exec_hit
}

/// Whether a desktop-entry file identifies the application: some line names
/// it, exactly, in its `Name=`, `GenericName=` or `Exec=` field.
pub fn desktop_entry_matches(content: &str, app_name: &str) -> (r: bool)
    ensures
        r == spec_desktop_entry_matches(content@, app_name@),
{
    let v = chars_vec(content);
    let lines = crate::text::split_lines(&v);
    let app = chars_vec(app_name);
    let n = lines.len();
    let mut i: usize = 0;
    while i < n
        invariant
            n == lines@.len(),
            i <= n,
            app@ == app_name@,
            crate::text::views_of(lines@) == crate::text::lines_of(content@),
            forall|k: int|
                0 <= k < i ==> !desktop_line_matches(
                    #[trigger] crate::text::lines_of(content@)[k],
                    app_name@,
                ),
        decreases n - i,
    {
        if desktop_line_match_exec(&lines[i], &app) {
            proof {
                assert(crate::text::lines_of(content@)[i as int] == lines@[i as int]@);
            }
            return true;
        }
        i = i + 1;
    }
    false
}

/// A `Name=` line that matches the application loosely: its lower-cased
/// value contains the lower-cased name and is at least four fifths as long.
pub open spec fn fuzzy_line_matches(l: Seq<char>, app: Seq<char>) -> bool {
    &&& starts_with_seq(l, "Name="@)
    &&& l.len() > 5
    &&& contains_seq(lower(l.skip(5)), lower(app))
    &&& lower(l.skip(5)).len() >= app.len() * 4 / 5
}

/// Whether some `Name=` line of a desktop-entry file matches the
/// application loosely, by the four-fifths rule.
pub open spec fn spec_desktop_entry_fuzzy_matches(content: Seq<char>, app: Seq<char>) -> bool {
    exists|i: int|
        0 <= i < crate::text::lines_of(content).len() && fuzzy_line_matches(
            #[trigger] crate::text::lines_of(content)[i],
            app,
        )
}

/// Whether a desktop-entry file matches the application loosely: some
/// `Name=` value contains the name, case folded, and is at least four
/// fifths of its length.
pub fn desktop_entry_fuzzy_matches(content: &str, app_name: &str) -> (r: bool)
    ensures
        r == spec_desktop_entry_fuzzy_matches(content@, app_name@),
{
    let v = chars_vec(content);
    let lines = crate::text::split_lines(&v);
    let app = chars_vec(app_name);
    let app_lower = lower_vec(&app);
    let name_prefix = chars_vec("Name=");
    let min_len: u128 = (app.len() as u128 * 4) / 5;
    let n = lines.len();
    let mut i: usize = 0;
    while i < n
        invariant
            n == lines@.len(),
            i <= n,
            app@ == app_name@,
            app_lower@ == lower(app_name@),
            name_prefix@ == "Name="@,
            min_len == app_name@.len() * 4 / 5,
            app@.len() == app_name@.len(),
            crate::text::views_of(lines@) == crate::text::lines_of(content@),
            forall|k: int|
                0 <= k < i ==> !fuzzy_line_matches(
                    #[trigger] crate::text::lines_of(content@)[k],
                    app_name@,
                ),
        decreases n - i,
    {
        let line = &lines[i];
        proof {
            assert(crate::text::lines_of(content@)[i as int] == lines@[i as int]@);
        }
        if starts_with_chars(line, &name_prefix) && line.len() > 5 {
            let value = crate::text::skip_chars(line, 5);
            let value_lower = lower_vec(&value);
            if contains_chars(&value_lower, &app_lower) && value_lower.len() as u128 >= min_len {
                return true;
            }
        }
        i = i + 1;
    }
    false
}

/// What an `Exec=` line's value parses to: desktop-entry field codes
/// removed, then split on whitespace; nothing when the line is not an
/// `Exec=` line or nothing is left.
pub open spec fn spec_exec_line_parts(l: Seq<char>) -> Option<Seq<Seq<char>>> {
    if starts_with_seq(l, "Exec="@) && l.len() > 5 {
        let cleaned = remove_all(
            remove_all(
                remove_all(
                    remove_all(
                        remove_all(
                            remove_all(
                                remove_all(remove_all(l.skip(5), "%U"@), "%F"@),
                                "%u"@,
                            ),
                            "%f"@,
                        ),
                        "%i"@,
                    ),
                    "%c"@,
                ),
                "%k"@,
            ),
            "%v"@,
        );
        let parts = crate::text::fields_of(cleaned);
        if parts.len() == 0 {
            None
        } else {
            Some(parts)
        }
    } else {
        None
    }
}

/// Parses an `Exec=` desktop-entry line into the command tokens it runs,
/// with the field codes removed.
pub fn exec_line_parts(line: &str) -> (r: Option<Vec<String>>)
    ensures
        match r {
            Some(parts) => {
                &&& spec_exec_line_parts(line@) matches Some(ps)
                &&& crate::text::string_views(parts@) == ps
                &&& parts@.len() > 0
            },
            None => spec_exec_line_parts(line@) is None,
        },
{
    let l = chars_vec(line);
    let exec_prefix = chars_vec("Exec=");
    if !(starts_with_chars(&l, &exec_prefix) && l.len() > 5) {
        return None;
    }
    let value = crate::text::skip_chars(&l, 5);
    let c1 = chars_vec("%U");
    let c2 = chars_vec("%F");
    let c3 = chars_vec("%u");
    let c4 = chars_vec("%f");
    let c5 = chars_vec("%i");
    let c6 = chars_vec("%c");
    let c7 = chars_vec("%k");
    let c8 = chars_vec("%v");
    proof {
        reveal_strlit("%U");
        reveal_strlit("%F");
        reveal_strlit("%u");
        reveal_strlit("%f");
        reveal_strlit("%i");
        reveal_strlit("%c");
        reveal_strlit("%k");
        reveal_strlit("%v");
        assert(c1@.len() == 2);
        assert(c2@.len() == 2);
        assert(c3@.len() == 2);
        assert(c4@.len() == 2);
        assert(c5@.len() == 2);
        assert(c6@.len() == 2);
        assert(c7@.len() == 2);
        assert(c8@.len() == 2);
    }
    let s1 = remove_all_chars(&value, &c1);
    let s2 = remove_all_chars(&s1, &c2);
    let s3 = remove_all_chars(&s2, &c3);
    let s4 = remove_all_chars(&s3, &c4);
    let s5 = remove_all_chars(&s4, &c5);
    let s6 = remove_all_chars(&s5, &c6);
    let s7 = remove_all_chars(&s6, &c7);
    let s8 = remove_all_chars(&s7, &c8);
    let parts = crate::text::split_fields(&s8);
    if parts.len() == 0 {
        return None;
    }
    let mut out: Vec<String> = Vec::new();
    let n = parts.len();
    let mut i: usize = 0;
    while i < n
        invariant
            n == parts@.len(),
            i <= n,
            crate::text::string_views(out@) == crate::text::views_of(parts@).take(i as int),
        decreases n - i,
    {
        let s = string_from_chars(&parts[i]);
        proof {
            assert(crate::text::string_views(out@.push(s)) =~= crate::text::string_views(out@).push(
                s@,
            ));
            assert(crate::text::views_of(parts@).take(i + 1) =~= crate::text::views_of(
                parts@,
            ).take(i as int).push(parts@[i as int]@));
        }
        out.push(s);
        i = i + 1;
    }
    proof {
        assert(crate::text::views_of(parts@).take(n as int) =~= crate::text::views_of(parts@));
    }
    Some(out)
}

// ---------------------------------------------------------------------------
// Session environment parsing
// ---------------------------------------------------------------------------

/// The bus address read off one line of launcher output: the value after
/// the equals sign, stripped of semicolons and quotes, when the line sets
/// the session bus variable and something is left.
pub open spec fn dbus_from_line(l: Seq<char>) -> Option<Seq<char>> {
    if starts_with_seq(l, "DBUS_SESSION_BUS_ADDRESS="@) {
        let pieces = crate::text::split_char(l, '=');
        if pieces.len() > 1 {
            let v = crate::text::trim_char(crate::text::trim_char(pieces[1], ';'), '\'');
            if v.len() > 0 {
                Some(v)
            } else {
                None
            }
        } else {
            None
        }
    } else {
        None
    }
}

/// The first line that yields a bus address.
pub open spec fn spec_dbus_address(lines: Seq<Seq<char>>) -> Option<Seq<char>>
    decreases lines.len(),
{
    if lines.len() == 0 {
        None
    } else {
        match dbus_from_line(lines[0]) {
            Some(v) => Some(v),
            None => spec_dbus_address(lines.drop_first()),
        }
    }
}

/// Reads the session bus address out of launcher output, from the first
/// line that sets it.
pub fn dbus_address_from_output(output: &str) -> (r: Option<String>)
    ensures
        match r {
            Some(v) => spec_dbus_address(crate::text::lines_of(output@)) == Some(v@),
            None => spec_dbus_address(crate::text::lines_of(output@)) is None,
        },
{
    let v = chars_vec(output);
    let lines = crate::text::split_lines(&v);
    let prefix = chars_vec("DBUS_SESSION_BUS_ADDRESS=");
    let n = lines.len();
    let mut i: usize = 0;
    proof {
        assert(crate::text::views_of(lines@).skip(0) =~= crate::text::views_of(lines@));
    }
    while i < n
        invariant
            n == lines@.len(),
            i <= n,
            prefix@ == "DBUS_SESSION_BUS_ADDRESS="@,
            crate::text::views_of(lines@) == crate::text::lines_of(output@),
            spec_dbus_address(crate::text::lines_of(output@)) == spec_dbus_address(
                crate::text::views_of(lines@).skip(i as int),
            ),
        decreases n - i,
    {
        let ghost lviews = crate::text::views_of(lines@);
        proof {
            assert(lviews.skip(i as int)[0] == lviews[i as int]);
            assert(lviews.skip(i as int).drop_first() =~= lviews.skip(i + 1));
        }
        let line = &lines[i];
        if starts_with_chars(line, &prefix) {
            let pieces = crate::text::split_char_exec(line, '=');
            if pieces.len() > 1 {
                let t1 = crate::text::trim_char_exec(&pieces[1], ';');
                let t2 = crate::text::trim_char_exec(&t1, '\'');
                if t2.len() > 0 {
                    proof {
                        assert(dbus_from_line(lviews[i as int]) == Some(t2@));
                    }
                    return Some(string_from_chars(&t2));
                }
            }
            proof {
                assert(dbus_from_line(lviews[i as int]) is None);
            }
        }
        i = i + 1;
    }
    proof {
        assert(crate::text::views_of(lines@).skip(n as int) =~= Seq::<Seq<char>>::empty());
    }
    None
}

// ---------------------------------------------------------------------------
// Prompt-line directory extraction
// ---------------------------------------------------------------------------

/// A path read from a `user@host:path$` prompt: the text between the last
/// colon and the first `$` or `#` after it, trimmed, when non-empty.
pub open spec fn dir_pattern_colon(l: Seq<char>) -> Option<Seq<char>> {
    match crate::text::rfind_char(l, ':') {
        Some(pos) => {
            let after = l.skip(pos + 1);
            let dpos = match crate::text::find_char(after, '$') {
                Some(d) => Some(d),
                None => crate::text::find_char(after, '#'),
            };
            match dpos {
                Some(d) => {
                    let path = trim(after.take(d));
                    if path.len() > 0 {
                        Some(path)
                    } else {
                        None
                    }
                },
                None => None,
            }
        },
        None => None,
    }
}

/// A path read from a `[user@host path]$` prompt: the text after the last
/// space inside the last bracket pair, trimmed, when non-empty.
pub open spec fn dir_pattern_bracket(l: Seq<char>) -> Option<Seq<char>> {
    if contains_seq(l, seq!['[']) && contains_seq(l, seq![']']) {
        match crate::text::rfind_char(l, '[') {
            Some(sb) => match crate::text::rfind_char(l, ']') {
                Some(eb) => {
                    if eb > sb {
                        let inside = l.subrange(sb + 1, eb);
                        match crate::text::rfind_char(inside, ' ') {
                            Some(sp) => {
                                let path = trim(inside.skip(sp + 1));
                                if path.len() > 0 {
                                    Some(path)
                                } else {
                                    None
                                }
                            },
                            None => None,
                        }
                    } else {
                        None
                    }
                },
                None => None,
            },
            None => None,
        }
    } else {
        None
    }
}

/// A path read from a `... /some/path$` prompt: the text between the last
/// space and the last `$` (or `#`), trimmed, when it looks like a path.
pub open spec fn dir_pattern_space(l: Seq<char>) -> Option<Seq<char>> {
    let dpos = match crate::text::rfind_char(l, '$') {
        Some(d) => Some(d),
        None => crate::text::rfind_char(l, '#'),
    };
    match dpos {
        Some(d) => {
            let before = l.take(d);
            match crate::text::rfind_char(before, ' ') {
                Some(sp) => {
                    let path = trim(before.skip(sp + 1));
                    if path.len() > 0 && (path[0] == '/' || path[0] == '~') {
                        Some(path)
                    } else {
                        None
                    }
                },
                None => None,
            }
        },
        None => None,
    }
}

/// The directory a prompt line shows, trying the colon, bracket and space
/// patterns in that order.
pub open spec fn dir_from_line(l: Seq<char>) -> Option<Seq<char>> {
    match dir_pattern_colon(l) {
        Some(p) => Some(p),
        None => match dir_pattern_bracket(l) {
            Some(p) => Some(p),
            None => dir_pattern_space(l),
        },
    }
}

/// The first directory found scanning a window of lines from the last line
/// backwards.
pub open spec fn dir_scan(window: Seq<Seq<char>>) -> Option<Seq<char>>
    decreases window.len(),
{
    if window.len() == 0 {
        None
    } else {
        match dir_from_line(window.last()) {
            Some(p) => Some(p),
            None => dir_scan(window.drop_last()),
        }
    }
}

/// The directory shown by the prompt in captured terminal output: the text
/// is trimmed and split into lines, and the last five lines are searched
/// backwards for a prompt that names a path.
pub open spec fn spec_extract_directory(out: Seq<char>) -> Option<Seq<char>> {
    let pieces = crate::text::split_char(trim(out), '\n');
    let start = if pieces.len() > 5 {
        pieces.len() - 5
    } else {
        0
    };
    dir_scan(pieces.skip(start as int))
}

/// Reads the directory off one prompt line, if it shows one.
fn dir_from_line_exec(l: &Vec<char>) -> (r: Option<Vec<char>>)
    ensures
        match r {
            Some(p) => dir_from_line(l@) == Some(p@),
            None => dir_from_line(l@) is None,
        },
{
    let llen = l.len();
    match crate::text::rfind_char_exec(l, ':') {
        Some(pos) => {
            proof {
                assert(pos < llen);
            }
            let after = crate::text::skip_chars(l, pos + 1);
            let dpos = match crate::text::find_char_exec(&after, '$') {
                Some(d) => Some(d),
                None => crate::text::find_char_exec(&after, '#'),
            };
            match dpos {
                Some(d) => {
                    let head = crate::text::take_chars(&after, d);
                    let path = trim_chars(&head);
                    if path.len() > 0 {
                        return Some(path);
                    }
                },
                None => {},
            }
        },
        None => {},
    }
    let ob = chars_vec("[");
    let cb = chars_vec("]");
    proof {
        reveal_strlit("[");
        reveal_strlit("]");
        assert(ob@ =~= seq!['[']);
        assert(cb@ =~= seq![']']);
    }
    if contains_chars(l, &ob) && contains_chars(l, &cb) {
        match crate::text::rfind_char_exec(l, '[') {
            Some(sb) => match crate::text::rfind_char_exec(l, ']') {
                Some(eb) => {
                    if eb > sb {
                        let tail = crate::text::skip_chars(l, sb + 1);
                        let inside = crate::text::take_chars(&tail, eb - (sb + 1));
                        proof {
                            assert(l@.skip(sb + 1).take(eb - (sb + 1)) =~= l@.subrange(sb + 1, eb as int));
                        }
                        match crate::text::rfind_char_exec(&inside, ' ') {
                            Some(sp) => {
                                let rest = crate::text::skip_chars(&inside, sp + 1);
                                let path = trim_chars(&rest);
                                if path.len() > 0 {
                                    return Some(path);
                                }
                            },
                            None => {},
                        }
                    }
                },
                None => {},
            },
            None => {},
        }
    }
    let dpos = match crate::text::rfind_char_exec(l, '$') {
        Some(d) => Some(d),
        None => crate::text::rfind_char_exec(l, '#'),
    };
    match dpos {
        Some(d) => {
            let before = crate::text::take_chars(l, d);
            match crate::text::rfind_char_exec(&before, ' ') {
                Some(sp) => {
                    let rest = crate::text::skip_chars(&before, sp + 1);
                    let path = trim_chars(&rest);
                    if path.len() > 0 && (path[0] == '/' || path[0] == '~') {
                        return Some(path);
                    }
                },
                None => {},
            }
        },
        None => {},
    }
    None
}

/// Extracts the current working directory from captured terminal output by
/// reading the shell prompt on one of the last five lines.
pub fn extract_current_directory(terminal_output: &str) -> (r: Option<String>)
    ensures
        match r {
            Some(p) => spec_extract_directory(terminal_output@) == Some(p@),
            None => spec_extract_directory(terminal_output@) is None,
        },
{
    let v = chars_vec(terminal_output);
    let trimmed = trim_chars(&v);
    let pieces = crate::text::split_char_exec(&trimmed, '\n');
    let n = pieces.len();
    let start: usize = if n > 5 {
        n - 5
    } else {
        0
    };
    let ghost window = crate::text::views_of(pieces@).skip(start as int);
    let mut j: usize = n;
    proof {
        assert(window.take(n - start) =~= window);
    }
    while j > start
        invariant
            n == pieces@.len(),
            start <= j <= n,
            start == (if n > 5 {
                n - 5
            } else {
                0
            }),
            window == crate::text::views_of(pieces@).skip(start as int),
            crate::text::views_of(pieces@) == crate::text::split_char(trim(terminal_output@), '\n'),
            dir_scan(window) == dir_scan(window.take(j - start)),
        decreases j,
    {
        proof {
            let sub = window.take(j - start);
            assert(sub.last() == window[j - start - 1]);
            assert(window[j - start - 1] == crate::text::views_of(pieces@)[j - 1]);
            assert(sub.drop_last() =~= window.take(j - start - 1));
        }
        match dir_from_line_exec(&pieces[j - 1]) {
            Some(p) => {
                return Some(string_from_chars(&p));
            },
            None => {},
        }
        j = j - 1;
    }
    proof {
        assert(window.take(0) =~= Seq::<Seq<char>>::empty());
    }
    None
}

/// A response built from a result: output on success, the message on error.
pub fn from_result(result: Result<String, String>) -> (r: Response)
    ensures
        match result {
            Ok(output) => r.success == true && (r.output matches Some(o) && o@ == output@)
                && r.error is None && r.exists is None,
            Err(message) => r.success == false && r.output is None && (r.error matches Some(e) && e@
                == message@) && r.exists is None,
        },
{
    match result {
        Ok(output) => success(output),
        Err(message) => error(message),
    }
}

} // verus!
