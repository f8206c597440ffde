//! Completion detection.
//!
//! A command runs inside an interactive session, so no exit status is ever
//! observed. Completion is inferred instead: the session's visible text is
//! captured at each poll, and the command counts as finished once the
//! capture has been identical often enough in a row and its last line looks
//! like a shell prompt that neither still echoes the command nor asks for a
//! password. When the polls run out first, the best-known capture is
//! returned as a timeout.
//!
//! The decision logic is a pure state machine over the sequence of captures;
//! the caller supplies the captures and does the sleeping.

use vstd::prelude::*;
use crate::text::{
    chars_vec, contains_chars, contains_seq, last_trimmed_line, lower, lower_vec, string_views,
    after_last_nl_exec, trim_chars,
};

verus! {

/// How many identical consecutive captures completion requires.
pub open spec fn stable_threshold() -> nat {
    3
}

/// The detector's outcome: the command finished and this is its output, or
/// the wait ran out and this is the best-known partial output.
pub enum CompletionResult {
    Stable(String),
    TimedOut(String),
}

/// Mathematical model of a [`CompletionResult`].
pub enum CompletionModel {
    Stable(Seq<char>),
    TimedOut(Seq<char>),
}

impl View for CompletionResult {
    type V = CompletionModel;

    open spec fn view(&self) -> CompletionModel {
        match self {
            CompletionResult::Stable(s) => CompletionModel::Stable(s@),
            CompletionResult::TimedOut(s) => CompletionModel::TimedOut(s@),
        }
    }
}

// ---------------------------------------------------------------------------
// Capture predicates
// ---------------------------------------------------------------------------

/// The last line shows a prompt-like glyph.
pub open spec fn has_prompt_marker(line: Seq<char>) -> bool {
    ||| contains_seq(line, seq!['$'])
    ||| contains_seq(line, seq!['#'])
    ||| contains_seq(line, seq!['\u{276f}'])
    ||| contains_seq(line, seq!['>'])
    ||| contains_seq(line, seq!['\u{276e}'])
    ||| contains_seq(line, seq!['\u{26a1}'])
}

/// The submitted command still appears literally on the last line: the
/// shell has not advanced past the echo. An empty command never counts as
/// echoed.
pub open spec fn command_echoed(line: Seq<char>, cmd: Seq<char>) -> bool {
    cmd.len() > 0 && contains_seq(line, cmd)
}

/// The last line asks for a password; completion must be blocked however
/// stable the output is.
pub open spec fn awaiting_secret(line: Seq<char>) -> bool {
    contains_seq(lower(line), "password for"@) || contains_seq(lower(line), "[sudo]"@)
}

/// The capture's last non-blank line signals completion: a prompt marker,
/// no lingering command echo, no password prompt.
pub open spec fn capture_signals_done(capture: Seq<char>, cmd: Seq<char>) -> bool {
    let line = last_trimmed_line(capture);
    &&& has_prompt_marker(line)
    &&& !command_echoed(line, cmd)
    &&& !awaiting_secret(line)
}

/// Whether the capture's last line signals completion.
pub fn capture_signals_done_exec(capture: &Vec<char>, cmd: &Vec<char>) -> (r: bool)
    ensures
        r == capture_signals_done(capture@, cmd@),
{
    let trimmed = trim_chars(capture);
    let line = after_last_nl_exec(&trimmed);
    let m1 = chars_vec("$");
    let m2 = chars_vec("#");
    let m3 = chars_vec("\u{276f}");
    let m4 = chars_vec(">");
    let m5 = chars_vec("\u{276e}");
    let m6 = chars_vec("\u{26a1}");
    proof {
        reveal_strlit("$");
        reveal_strlit("#");
        reveal_strlit("\u{276f}");
        reveal_strlit(">");
        reveal_strlit("\u{276e}");
        reveal_strlit("\u{26a1}");
        assert(m1@ =~= seq!['$']);
        assert(m2@ =~= seq!['#']);
        assert(m3@ =~= seq!['\u{276f}']);
        assert(m4@ =~= seq!['>']);
        assert(m5@ =~= seq!['\u{276e}']);
        assert(m6@ =~= seq!['\u{26a1}']);
    }
    let prompt = contains_chars(&line, &m1) || contains_chars(&line, &m2) || contains_chars(
        &line,
        &m3,
    ) || contains_chars(&line, &m4) || contains_chars(&line, &m5) || contains_chars(&line, &m6);
    if !prompt {
        return false;
    }
    if cmd.len() > 0 && contains_chars(&line, cmd) {
        return false;
    }
    let lower_line = lower_vec(&line);
    let p1 = chars_vec("password for");
    let p2 = chars_vec("[sudo]");
    if contains_chars(&lower_line, &p1) || contains_chars(&lower_line, &p2) {
        return false;
    }
    true
}

// ---------------------------------------------------------------------------
// The detector state machine
// ---------------------------------------------------------------------------

/// The wait bound, clamped to at most one hour.
pub open spec fn clamp_wait_ms(w: u64) -> u64 {
    if w > 3600000 {
        3600000
    } else {
        w
    }
}

/// The poll interval, clamped to at least a tenth of a second.
pub open spec fn clamp_poll_ms(p: u64) -> u64 {
    if p < 100 {
        100
    } else {
        p
    }
}

/// A counter increment that cannot overflow.
pub open spec fn bump(n: u64) -> u64 {
    if n < u64::MAX {
        (n + 1) as u64
    } else {
        n
    }
}

/// The polling state of one completion wait.
pub struct Detector {
    /// The submitted command, used to recognize its echo.
    pub command: String,
    /// The previous capture, for stability comparison; also the best-known
    /// partial output on timeout.
    pub previous: String,
    /// How many consecutive captures matched the previous one.
    pub stable_count: u64,
    /// How many polls remain before the wait times out.
    pub polls_left: u64,
}

impl Detector {
    /// A fresh detector for one submitted command. The wait bound is capped
    /// at one hour and the poll interval floored at 100 ms; their quotient
    /// is the number of polls.
    pub fn new(command: &str, max_wait_ms: u64, poll_interval_ms: u64) -> (d: Detector)
        ensures
            d.command@ == command@,
            d.previous@ == Seq::<char>::empty(),
            d.stable_count == 0,
            d.polls_left == clamp_wait_ms(max_wait_ms) / clamp_poll_ms(poll_interval_ms),
    {
        let wait = if max_wait_ms > 3600000 {
            3600000
        } else {
            max_wait_ms
        };
        let interval = if poll_interval_ms < 100 {
            100
        } else {
            poll_interval_ms
        };
        Detector {
            command: command.to_owned(),
            previous: String::new(),
            stable_count: 0,
            polls_left: wait / interval,
        }
    }

    /// Feeds one capture to the detector.
    ///
    /// With no polls left the wait has timed out and the previous capture
    /// comes back as the partial result. Otherwise the stability counter
    /// grows on an identical capture and resets on a changed one, and the
    /// command counts as finished exactly when the counter has reached the
    /// threshold and the capture's last line signals completion.
    pub fn poll(&mut self, capture: &str) -> (r: Option<CompletionResult>)
        ensures
            final(self).command@ == old(self).command@,
            old(self).polls_left == 0 ==> *final(self) == *old(self) && (match r {
                Some(c) => c@ == CompletionModel::TimedOut(old(self).previous@),
                None => false,
            }),
            old(self).polls_left > 0 ==> {
                &&& final(self).polls_left == old(self).polls_left - 1
                &&& (capture@ == old(self).previous@ ==> final(self).previous@ == old(self).previous@
                    && final(self).stable_count == bump(old(self).stable_count))
                &&& (capture@ != old(self).previous@ ==> final(self).previous@ == capture@
                    && final(self).stable_count == 0)
                &&& (match r {
                    Some(c) => c@ == CompletionModel::Stable(capture@) && final(self).stable_count
                        >= stable_threshold() && capture_signals_done(capture@, old(self).command@),
                    None => !(final(self).stable_count >= stable_threshold()
                        && capture_signals_done(capture@, old(self).command@)),
                })
            },
    {
        if self.polls_left == 0 {
            return Some(CompletionResult::TimedOut(self.previous.clone()));
        }
        self.polls_left = self.polls_left - 1;
        let capture_chars = chars_vec(capture);
        let previous_chars = chars_vec(self.previous.as_str());
        if crate::text::eq_chars(&capture_chars, &previous_chars) {
            if self.stable_count < u64::MAX {
                self.stable_count = self.stable_count + 1;
            }
        } else {
            self.stable_count = 0;
            self.previous = capture.to_owned();
        }
        if self.stable_count >= 3 {
            let cmd_chars = chars_vec(self.command.as_str());
            if capture_signals_done_exec(&capture_chars, &cmd_chars) {
                return Some(CompletionResult::Stable(capture.to_owned()));
            }
        }
        None
    }
}

// ---------------------------------------------------------------------------
// The pure driver over a capture sequence
// ---------------------------------------------------------------------------

/// What the detector decides over a given capture sequence, from a given
/// state: captures are consumed one per poll until one is accepted as
/// stable, the polls run out, or the captures do.
pub open spec fn run_from(
    captures: Seq<Seq<char>>,
    i: int,
    prev: Seq<char>,
    stable: nat,
    polls: nat,
    cmd: Seq<char>,
) -> CompletionModel
    decreases polls,
{
    if polls == 0 || i >= captures.len() {
        CompletionModel::TimedOut(prev)
    } else {
        let c = captures[i];
        let s2: nat = if c == prev {
            stable + 1
        } else {
            0
        };
        let p2 = if c == prev {
            prev
        } else {
            c
        };
        if s2 >= stable_threshold() && capture_signals_done(c, cmd) {
            CompletionModel::Stable(c)
        } else {
            run_from(captures, i + 1, p2, s2, (polls - 1) as nat, cmd)
        }
    }
}

/// What the detector decides over a whole capture sequence.
pub open spec fn spec_run_detector(
    captures: Seq<Seq<char>>,
    cmd: Seq<char>,
    polls: nat,
) -> CompletionModel {
    run_from(captures, 0, Seq::empty(), 0, polls, cmd)
}

/// Runs the detector over a given sequence of captures.
///
/// The result is always exactly one of stable or timed out, and stable is
/// only reachable after at least three consecutive identical captures whose
/// last line signals completion.
pub fn run_detector(
    captures: &Vec<String>,
    command: &str,
    max_wait_ms: u64,
    poll_interval_ms: u64,
) -> (r: CompletionResult)
    ensures
        r@ == spec_run_detector(
            string_views(captures@),
            command@,
            (clamp_wait_ms(max_wait_ms) / clamp_poll_ms(poll_interval_ms)) as nat,
        ),
        (match r@ {
            CompletionModel::Stable(text) => exists|i: int|
                2 <= i < captures@.len() && #[trigger] captures@[i]@ == text && captures@[i - 1]@
                    == text && captures@[i - 2]@ == text && capture_signals_done(text, command@),
            CompletionModel::TimedOut(_) => true,
        }),
{
    let mut det = Detector::new(command, max_wait_ms, poll_interval_ms);
    let ghost polls0 = det.polls_left as nat;
    let n = captures.len();
    let mut i: usize = 0;
    while i < n
        invariant
            n == captures@.len(),
            i <= n,
            det.command@ == command@,
            det.stable_count <= polls0,
            polls0 == clamp_wait_ms(max_wait_ms) as nat / clamp_poll_ms(poll_interval_ms) as nat,
            det.polls_left <= polls0,
            det.stable_count + det.polls_left <= polls0,
            det.stable_count as int <= i,
            spec_run_detector(string_views(captures@), command@, polls0) == run_from(
                string_views(captures@),
                i as int,
                det.previous@,
                det.stable_count as nat,
                det.polls_left as nat,
                command@,
            ),
            forall|j: int|
                i - det.stable_count <= j < i ==> #[trigger] captures@[j]@ == det.previous@,
        decreases n - i,
    {
        let ghost old_det = det;
        let r = det.poll(captures[i].as_str());
        match r {
            Some(c) => {
                proof {
                    if old_det.polls_left > 0 {
                        assert(captures@[i as int]@ == old_det.previous@);
                        assert(det.stable_count >= 3);
                        assert(det.stable_count == bump(old_det.stable_count));
                        assert(old_det.stable_count >= 2);
                        assert(captures@[i - 1]@ == old_det.previous@);
                        assert(captures@[i - 2]@ == old_det.previous@);
                    }
                }
                return c;
            },
            None => {},
        }
        proof {
            assert(string_views(captures@)[i as int] == captures@[i as int]@);
        }
        i = i + 1;
    }
    proof {
        assert(run_from(
            string_views(captures@),
            n as int,
            det.previous@,
            det.stable_count as nat,
            det.polls_left as nat,
            command@,
        ) == CompletionModel::TimedOut(det.previous@));
    }
    CompletionResult::TimedOut(det.previous)
}

// ---------------------------------------------------------------------------
// Laws
// ---------------------------------------------------------------------------

proof fn lemma_contains_trans(hay: Seq<char>, mid: Seq<char>, needle: Seq<char>, i: int, j: int)
    requires
        crate::text::matches_at(hay, mid, i),
        crate::text::matches_at(mid, needle, j),
    ensures
        crate::text::matches_at(hay, needle, i + j),
{
    assert(hay.subrange(i + j, i + j + needle.len()) =~= hay.subrange(i, i + mid.len()).subrange(
        j,
        j + needle.len(),
    ));
}

proof fn lemma_lower_matches(hay: Seq<char>, needle: Seq<char>, i: int)
    requires
        crate::text::matches_at(hay, needle, i),
    ensures
        crate::text::matches_at(lower(hay), lower(needle), i),
{
    assert(lower(hay).subrange(i, i + needle.len()) =~= lower(needle));
}

proof fn lemma_run_from_stable_done(
    captures: Seq<Seq<char>>,
    i: int,
    prev: Seq<char>,
    stable: nat,
    polls: nat,
    cmd: Seq<char>,
)
    ensures
        run_from(captures, i, prev, stable, polls, cmd) matches CompletionModel::Stable(text)
            ==> capture_signals_done(text, cmd),
    decreases polls,
{
    if !(polls == 0 || i >= captures.len()) {
        let c = captures[i];
        let s2: nat = if c == prev {
            stable + 1
        } else {
            0
        };
        let p2 = if c == prev {
            prev
        } else {
            c
        };
        if !(s2 >= stable_threshold() && capture_signals_done(c, cmd)) {
            lemma_run_from_stable_done(captures, i + 1, p2, s2, (polls - 1) as nat, cmd);
        }
    }
}

/// Whatever capture sequence the detector runs over, a capture whose last
/// line holds the sudo password prompt is never the one accepted as stable:
/// a stable result's text is free of the marker, at any stability count.
pub proof fn lemma_stable_never_a_password_prompt(
    captures: Seq<Seq<char>>,
    cmd: Seq<char>,
    polls: nat,
)
    ensures
        spec_run_detector(captures, cmd, polls) matches CompletionModel::Stable(text)
            ==> !contains_seq(last_trimmed_line(text), "[sudo] password for user:"@),
{
    lemma_run_from_stable_done(captures, 0, Seq::empty(), 0, polls, cmd);
    match spec_run_detector(captures, cmd, polls) {
        CompletionModel::Stable(text) => {
            if contains_seq(last_trimmed_line(text), "[sudo] password for user:"@) {
                lemma_secret_blocks_stable(text, cmd);
            }
        },
        CompletionModel::TimedOut(_) => {},
    }
}

/// A last line asking for a sudo password never signals completion, however
/// stable the output: the password prompt blocks completion.
pub proof fn lemma_secret_blocks_stable(capture: Seq<char>, cmd: Seq<char>)
    requires
        contains_seq(last_trimmed_line(capture), "[sudo] password for user:"@),
    ensures
        !capture_signals_done(capture, cmd),
{
    let line = last_trimmed_line(capture);
    let marker = "[sudo] password for user:"@;
    let sudo = "[sudo]"@;
    reveal_strlit("[sudo] password for user:");
    reveal_strlit("[sudo]");
    let i = choose|i: int| crate::text::matches_at(line, marker, i);
    assert(marker.subrange(0, 6) =~= sudo);
    assert(crate::text::matches_at(marker, sudo, 0));
    lemma_contains_trans(line, marker, sudo, i, 0);
    lemma_lower_matches(line, sudo, i);
    assert(lower(sudo) =~= sudo);
    assert(contains_seq(lower(line), sudo));
    assert(awaiting_secret(line));
}

} // verus!
