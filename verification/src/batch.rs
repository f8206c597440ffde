//! Batch execution records.
//!
//! A batch runs several commands in sequence in one session. The session
//! work itself happens outside; this module holds the records and the
//! decisions: how one command's outcome is entered, what its output
//! preview is, and how the batch is summarized.

use vstd::prelude::*;
use crate::text::{
    chars_vec, dec_str, join_with, lines_of, split_lines, usize_dec_string, views_of,
};
use crate::extract::take_at_most;

verus! {

/// The recorded outcome of one command in a batch.
#[derive(Clone, Debug)]
pub struct BatchCommandResult {
    pub index: usize,
    pub command: String,
    pub explanation: String,
    pub success: bool,
    pub status: String,
    pub output_preview: Option<String>,
    pub error: Option<String>,
}

/// Mathematical model of a [`BatchCommandResult`].
pub struct BatchCommandModel {
    pub index: int,
    pub command: Seq<char>,
    pub explanation: Seq<char>,
    pub success: bool,
    pub status: Seq<char>,
    pub output_preview: Option<Seq<char>>,
    pub error: Option<Seq<char>>,
}

impl View for BatchCommandResult {
    type V = BatchCommandModel;

    open spec fn view(&self) -> BatchCommandModel {
        BatchCommandModel {
            index: self.index as int,
            command: self.command@,
            explanation: self.explanation@,
            success: self.success,
            status: self.status@,
            output_preview: match self.output_preview {
                Some(ref p) => Some(p@),
                None => None,
            },
            error: match self.error {
                Some(ref e) => Some(e@),
                None => None,
            },
        }
    }
}

/// The models of a vector of command outcomes.
pub open spec fn batch_command_views(v: Seq<BatchCommandResult>) -> Seq<BatchCommandModel> {
    v.map_values(|c: BatchCommandResult| c@)
}

/// The aggregated outcome of a whole batch.
#[derive(Debug)]
pub struct BatchExecutionResult {
    pub total_commands: usize,
    pub successful: usize,
    pub failed: usize,
    pub commands: Vec<BatchCommandResult>,
    pub summary: String,
}

/// Mathematical model of a [`BatchExecutionResult`].
pub struct BatchExecutionModel {
    pub total_commands: int,
    pub successful: int,
    pub failed: int,
    pub commands: Seq<BatchCommandModel>,
    pub summary: Seq<char>,
}

impl View for BatchExecutionResult {
    type V = BatchExecutionModel;

    open spec fn view(&self) -> BatchExecutionModel {
        BatchExecutionModel {
            total_commands: self.total_commands as int,
            successful: self.successful as int,
            failed: self.failed as int,
            commands: batch_command_views(self.commands@),
            summary: self.summary@,
        }
    }
}

impl BatchExecutionResult {
    /// An empty batch result.
    pub fn new() -> (r: Self)
        ensures
            r.total_commands == 0,
            r.successful == 0,
            r.failed == 0,
            r.commands@.len() == 0,
            r.summary@ == Seq::<char>::empty(),
    {
        BatchExecutionResult {
            total_commands: 0,
            successful: 0,
            failed: 0,
            commands: Vec::new(),
            summary: String::new(),
        }
    }

    /// Enters one successful command with its output preview and counts it.
    pub fn record_success(&mut self, index: usize, command: String, explanation: String, output: &str)
        requires
            old(self).successful < usize::MAX,
        ensures
            final(self).total_commands == old(self).total_commands,
            final(self).failed == old(self).failed,
            final(self).successful == old(self).successful + 1,
            final(self).summary@ == old(self).summary@,
            final(self).commands@.len() == old(self).commands@.len() + 1,
            batch_command_views(final(self).commands@) == batch_command_views(old(self).commands@).push(
                (BatchCommandModel {
                    index: index as int,
                    command: command@,
                    explanation: explanation@,
                    success: true,
                    status: "success"@,
                    output_preview: spec_preview(output@),
                    error: None,
                }),
            ),
    {
        let preview = preview_of(output);
        let entry = BatchCommandResult {
            index,
            command,
            explanation,
            success: true,
            status: "success".to_owned(),
            output_preview: preview,
            error: None,
        };
        proof {
            assert(batch_command_views(old(self).commands@.push(entry)) =~= batch_command_views(
                old(self).commands@,
            ).push(entry@));
        }
        self.commands.push(entry);
        self.successful = self.successful + 1;
    }

    /// Enters one failed command with its error and counts it.
    pub fn record_failure(&mut self, index: usize, command: String, explanation: String, message: String)
        requires
            old(self).failed < usize::MAX,
        ensures
            final(self).total_commands == old(self).total_commands,
            final(self).successful == old(self).successful,
            final(self).failed == old(self).failed + 1,
            final(self).summary@ == old(self).summary@,
            final(self).commands@.len() == old(self).commands@.len() + 1,
            batch_command_views(final(self).commands@) == batch_command_views(old(self).commands@).push(
                (BatchCommandModel {
                    index: index as int,
                    command: command@,
                    explanation: explanation@,
                    success: false,
                    status: "error"@,
                    output_preview: None,
                    error: Some(message@),
                }),
            ),
    {
        let entry = BatchCommandResult {
            index,
            command,
            explanation,
            success: false,
            status: "error".to_owned(),
            output_preview: None,
            error: Some(message),
        };
        proof {
            assert(batch_command_views(old(self).commands@.push(entry)) =~= batch_command_views(
                old(self).commands@,
            ).push(entry@));
        }
        self.commands.push(entry);
        self.failed = self.failed + 1;
    }

    /// Writes the closing summary over the counts.
    pub fn finalize_summary(&mut self)
        ensures
            final(self).total_commands == old(self).total_commands,
            final(self).successful == old(self).successful,
            final(self).failed == old(self).failed,
            final(self).commands == old(self).commands,
            final(self).summary@ == "Batch executed "@ + dec_str(old(self).total_commands as nat)
                + " commands: "@ + dec_str(old(self).successful as nat) + " succeeded, "@ + dec_str(
                old(self).failed as nat,
            ) + " failed"@,
    {
        let mut s = "Batch executed ".to_owned();
        let t = usize_dec_string(self.total_commands);
        s.append(t.as_str());
        s.append(" commands: ");
        let ok = usize_dec_string(self.successful);
        s.append(ok.as_str());
        s.append(" succeeded, ");
        let bad = usize_dec_string(self.failed);
        s.append(bad.as_str());
        s.append(" failed");
        self.summary = s;
    }
}

/// The preview kept of one command's output: its first six lines, or
/// nothing when that is empty.
pub open spec fn spec_preview(out: Seq<char>) -> Option<Seq<char>> {
    let joined = join_with(take_at_most(lines_of(out), 6), "\n"@);
    if joined.len() == 0 {
        None
    } else {
        Some(joined)
    }
}

/// Keeps the first six lines of a command's output as its preview.
pub fn preview_of(output: &str) -> (r: Option<String>)
    ensures
        match r {
            Some(p) => spec_preview(output@) == Some(p@),
            None => spec_preview(output@) is None,
        },
{
    let chars = chars_vec(output);
    let lines = split_lines(&chars);
    let n = lines.len();
    let stop: usize = if n <= 6 {
        n
    } else {
        6
    };
    let ghost window = take_at_most(lines_of(output@), 6);
    proof {
        assert(views_of(lines@).take(stop as int) =~= window);
    }
    let mut joined: Vec<char> = Vec::new();
    let mut i: usize = 0;
    let nl = chars_vec("\n");
    proof {
        reveal_strlit("\n");
        assert(nl@ =~= "\n"@);
        assert(window.take(0) =~= Seq::<Seq<char>>::empty());
    }
    while i < stop
        invariant
            n == lines@.len(),
            stop <= n,
            i <= stop,
            nl@ == "\n"@,
            window == take_at_most(lines_of(output@), 6),
            views_of(lines@).take(stop as int) == window,
            joined@ == join_with(window.take(i as int), "\n"@),
        decreases stop - i,
    {
        if i > 0 {
            crate::text::append_chars(&mut joined, &nl);
        }
        crate::text::append_chars(&mut joined, &lines[i]);
        proof {
            let pre = window.take(i as int);
            let post = window.take(i + 1);
            assert(post.drop_last() =~= pre);
            assert(post.last() == views_of(lines@)[i as int]);
            if i == 0 {
                assert(join_with(post, "\n"@) == post[0]);
                assert(post[0] == lines@[0]@);
            }
        }
        i = i + 1;
    }
    proof {
        assert(window.take(stop as int) =~= window);
    }
    if joined.len() == 0 {
        None
    } else {
        Some(crate::text::string_from_chars(&joined))
    }
}

} // verus!
