//! The tools as their callers see them: the arguments that each tool takes,
//! and the `bash` tool's way of waiting for a command and of showing how it
//! ended.

use crate::decimal::{decimal, push_decimal};
use crate::models::{
    events_of, text_of, BashEvent, BashEventPage, BashEventView, BashOutput, BashOutputView,
    ExecuteBashRequest,
};
use crate::text::{push_str, string_of};
use vstd::prelude::*;

verus! {

/// The arguments of the `bash` tool.
#[derive(Clone, Debug, PartialEq, Eq)]
pub struct BashArgs {
    pub command: String,
    pub cwd: Option<String>,
    pub timeout: Option<u64>,
}

/// The arguments of the `view_file` tool.
#[derive(Clone, Debug, PartialEq, Eq)]
pub struct ViewFileArgs {
    pub path: String,
    pub start_line: Option<u64>,
    pub end_line: Option<u64>,
}

/// The arguments of the `list_directory` tool.
#[derive(Clone, Debug, PartialEq, Eq)]
pub struct ListDirectoryArgs {
    pub path: String,
}

/// The arguments of the `create_file` tool.
#[derive(Clone, Debug, PartialEq, Eq)]
pub struct CreateFileArgs {
    pub path: String,
    pub content: String,
}

/// The arguments of the `str_replace` tool.
#[derive(Clone, Debug, PartialEq, Eq)]
pub struct StrReplaceArgs {
    pub path: String,
    pub old_str: String,
    pub new_str: String,
}

/// The arguments of the `insert_lines` tool.
#[derive(Clone, Debug, PartialEq, Eq)]
pub struct InsertLinesArgs {
    pub path: String,
    pub insert_line: u64,
    pub content: String,
}

/// The arguments of the `delete_file` tool.
#[derive(Clone, Debug, PartialEq, Eq)]
pub struct DeleteFileArgs {
    pub path: String,
}

/// The arguments of the `undo_edit` tool.
#[derive(Clone, Debug, PartialEq, Eq)]
pub struct UndoEditArgs {
    pub path: String,
}

/// The arguments of the `tree` tool.
#[derive(Clone, Debug, PartialEq, Eq)]
pub struct TreeArgs {
    pub path: Option<String>,
    pub exclude: Option<String>,
    pub max_depth: Option<usize>,
    pub truncate: Option<usize>,
}

/// The request that the `bash` tool submits for its arguments.
pub fn bash_request(args: BashArgs) -> (req: ExecuteBashRequest)
    ensures
        req.command@ == args.command@,
        text_of(req.cwd) == text_of(args.cwd),
        req.timeout == args.timeout,
{
    ExecuteBashRequest { command: args.command, cwd: args.cwd, timeout: args.timeout }
}

/// The pause between two queries of the `bash` tool, in milliseconds.
pub const BASH_POLL_INTERVAL_MS: u64 = 100;

/// How many queries without an output the `bash` tool puts up with.
pub const BASH_MAX_POLLS: u64 = 300;

/// The line that tells the exit code.
pub open spec fn exit_code_line(exit_code: int) -> Seq<char> {
    "[Command finished with exit code "@ + decimal(exit_code) + "]"@
}

/// `text` with `part` behind it, on a line of its own unless `text` is empty.
pub open spec fn with_part(text: Seq<char>, part: Seq<char>) -> Seq<char> {
    if text.len() == 0 {
        part
    } else {
        text + seq!['\n'] + part
    }
}

/// `text` with `part` behind it where there is one.
pub open spec fn with_optional_part(text: Seq<char>, part: Option<Seq<char>>) -> Seq<char> {
    match part {
        Some(part) => with_part(text, part),
        None => text,
    }
}

/// How the `bash` tool shows an output: what the command wrote, then why it
/// could not be run, then the line that tells the exit code, each where
/// there is one and each on a line of its own.
pub open spec fn result_text(output: BashOutputView) -> Seq<char> {
    let shown = with_optional_part(
        match output.stdout {
            Some(stdout) => stdout,
            None => Seq::empty(),
        },
        output.stderr,
    );
    match output.exit_code {
        Some(exit_code) => with_part(shown, exit_code_line(exit_code as int)),
        None => shown,
    }
}

/// Shows an output as the `bash` tool does.
pub fn format_bash_result(output: &BashOutput) -> (text: String)
    ensures
        text@ == result_text(output@),
{
    let mut shown: Vec<char> = Vec::new();
    if let Some(stdout) = &output.stdout {
        push_str(&mut shown, stdout.as_str());
        assert(shown@ =~= stdout@);
    }
    if let Some(stderr) = &output.stderr {
        if shown.len() > 0 {
            shown.push('\n');
        }
        push_str(&mut shown, stderr.as_str());
    }
    assert(shown@ =~= with_optional_part(
        match output@.stdout {
            Some(stdout) => stdout,
            None => Seq::empty(),
        },
        output@.stderr,
    ));
    if let Some(exit_code) = output.exit_code {
        let ghost before = shown@;
        if shown.len() > 0 {
            shown.push('\n');
        }
        push_str(&mut shown, "[Command finished with exit code ");
        push_decimal(exit_code as i64, &mut shown);
        push_str(&mut shown, "]");
        assert(shown@ =~= with_part(before, exit_code_line(exit_code as int)));
    }
    string_of(shown.as_slice())
}

/// What the `bash` tool does after a query for its command.
#[derive(Debug, PartialEq, Eq)]
pub enum BashPoll {
    /// The command has its output: this is how it is shown.
    Finished(String),
    /// No output yet: pause, then ask again; `attempts` counts the queries so far.
    Wait { attempts: u64 },
    /// No output, and no query is left.
    TimedOut,
}

/// A `BashPoll` as a mathematical value.
pub enum BashPollView {
    Finished(Seq<char>),
    Wait { attempts: u64 },
    TimedOut,
}

impl View for BashPoll {
    type V = BashPollView;

    open spec fn view(&self) -> BashPollView {
        match self {
            BashPoll::Finished(text) => BashPollView::Finished(text@),
            BashPoll::Wait { attempts } => BashPollView::Wait { attempts: *attempts },
            BashPoll::TimedOut => BashPollView::TimedOut,
        }
    }
}

/// What the `bash` tool does after the query number `attempts + 1` has
/// returned `items`: where the last event is an output, the command is over
/// and the output is shown; otherwise the tool asks again, unless it has
/// asked more than `max_attempts` times by now.
pub open spec fn polled(items: Seq<BashEventView>, attempts: u64, max_attempts: u64) -> BashPollView {
    if items.len() > 0 && items.last() is BashOutput {
        BashPollView::Finished(result_text(items.last()->BashOutput_0))
    } else if attempts >= max_attempts {
        BashPollView::TimedOut
    } else {
        BashPollView::Wait { attempts: (attempts + 1) as u64 }
    }
}

/// Decides what the `bash` tool does after a query for its command; see `polled`.
pub fn bash_poll(page: &BashEventPage, attempts: u64, max_attempts: u64) -> (step: BashPoll)
    ensures
        step@ == polled(events_of(page.items@), attempts, max_attempts),
{
    let n: usize = page.items.len();
    if n > 0 {
        if let BashEvent::BashOutput(output) = &page.items[n - 1] {
            assert(events_of(page.items@).last() == page.items@[n - 1]@);
            return BashPoll::Finished(format_bash_result(output));
        }
        assert(events_of(page.items@).last() == page.items@[n - 1]@);
    }
    if attempts >= max_attempts {
        BashPoll::TimedOut
    } else {
        BashPoll::Wait { attempts: attempts + 1 }
    }
}

} // verus!
