//! The programs that are run to get and build the external tools.

use crate::helper::all_bytes;
use crate::outputs::{
    a_failure_tells_what_was_printed, command_failure_text, command_stdout, ensure_success,
    failure_text,
};
use crate::paths::PathBytes;
use crate::text::{ends, joined, texts, trimmed};
use std::path::PathBuf;
use vstd::prelude::*;

verus! {

/// What is asked of a program: that it succeeds, or what it prints. The first is named by a label in
/// messages, the second by the words of the command.
pub enum Asked {
    Success { label: &'static str },
    Output { words: Vec<String> },
}

/// What is asked of a program, as texts.
#[verifier::ext_equal]
pub enum AskedParts {
    Success { label: Seq<char> },
    Output { words: Seq<Seq<char>> },
}

impl View for Asked {
    type V = AskedParts;

    open spec fn view(&self) -> AskedParts {
        match *self {
            Asked::Success { label } => AskedParts::Success { label: label@ },
            Asked::Output { words } => AskedParts::Output { words: texts(words@) },
        }
    }
}

/// A program that is run with its arguments, in a folder where one is given, and what is said where
/// it could not be started.
pub struct ToolCommand {
    pub program: &'static str,
    pub arguments: Vec<PathBuf>,
    pub directory: Option<PathBuf>,
    pub asked: Asked,
    pub failure: &'static str,
}

/// What the run of a program consists of.
#[verifier::ext_equal]
pub struct CommandParts {
    pub program: Seq<char>,
    pub arguments: Seq<Seq<u8>>,
    pub directory: Option<Seq<u8>>,
    pub asked: AskedParts,
    pub failure: Seq<char>,
}

impl View for ToolCommand {
    type V = CommandParts;

    open spec fn view(&self) -> CommandParts {
        CommandParts {
            program: self.program@,
            arguments: all_bytes(self.arguments@),
            directory: crate::paths::opt_bytes(self.directory),
            asked: self.asked@,
            failure: self.failure@,
        }
    }
}

/// How a program that was started ended; `status` says it in words.
pub struct ProgramEnd {
    pub success: bool,
    pub stdout: String,
    pub stderr: String,
    pub status: String,
}

/// How a step went: a question is answered, and work is done with what it printed, or failed.
pub enum StepReply {
    Yes,
    No,
    Done(String),
    Failed(String),
}

/// How a step went, as texts.
pub enum ReplyParts {
    Yes,
    No,
    Done(Seq<char>),
    Failed(Seq<char>),
}

impl View for StepReply {
    type V = ReplyParts;

    open spec fn view(&self) -> ReplyParts {
        match *self {
            StepReply::Yes => ReplyParts::Yes,
            StepReply::No => ReplyParts::No,
            StepReply::Done(output) => ReplyParts::Done(output@),
            StepReply::Failed(message) => ReplyParts::Failed(message@),
        }
    }
}

impl CommandParts {
    /// How the run of a program went, given how it ended, where it was started.
    pub open spec fn judged(self, end: Option<ProgramEnd>) -> ReplyParts {
        match end {
            None => ReplyParts::Failed(self.failure),
            Some(end) => match self.asked {
                AskedParts::Success { label } => if end.success {
                    ReplyParts::Done(Seq::empty())
                } else {
                    ReplyParts::Failed(failure_text(label, end.stdout@, end.stderr@, end.status@))
                },
                AskedParts::Output { words } => if end.success {
                    ReplyParts::Done(trimmed(end.stdout@))
                } else {
                    ReplyParts::Failed(
                        command_failure_text(
                            self.program,
                            joined(words, " "@),
                            end.stdout@,
                            end.stderr@,
                        ),
                    )
                },
            },
        }
    }
}

impl ToolCommand {
    /// How the run of the program went, given how it ended, where it was started.
    pub fn judge(&self, end: &Option<ProgramEnd>) -> (r: StepReply)
        ensures
            r@ == self@.judged(*end),
    {
        let end = match end {
            Some(end) => end,
            None => {
                return StepReply::Failed(self.failure.to_owned());
            },
        };
        match &self.asked {
            Asked::Success { label } => match ensure_success(
                label,
                end.success,
                end.stdout.as_str(),
                end.stderr.as_str(),
                end.status.as_str(),
            ) {
                Ok(()) => StepReply::Done(String::new()),
                Err(message) => StepReply::Failed(message),
            },
            Asked::Output { words } => match command_stdout(
                self.program,
                words,
                end.success,
                end.stdout.as_str(),
                end.stderr.as_str(),
            ) {
                Ok(printed) => StepReply::Done(printed),
                Err(message) => StepReply::Failed(message),
            },
        }
    }
}

/// The run of a program counts as done exactly when it was started and succeeded.
pub proof fn a_run_is_done_by_its_success(command: CommandParts, end: Option<ProgramEnd>)
    ensures
        command.judged(end) is Done <==> (end matches Some(e) && e.success),
        command.judged(end) is Failed <==> !(command.judged(end) is Done),
{
}

/// What has to be done, or looked up, for a step.
pub enum ToolAction {
    Run(ToolCommand),
    IsFile(PathBuf),
    Exists(PathBuf),
    CreateFolder(PathBuf),
    RemoveFolder(PathBuf),
    BuildHelper,
}

/// What an action consists of.
#[verifier::ext_equal]
pub enum ActionParts {
    Run(CommandParts),
    IsFile(Seq<u8>),
    Exists(Seq<u8>),
    CreateFolder(Seq<u8>),
    RemoveFolder(Seq<u8>),
    BuildHelper,
}

impl View for ToolAction {
    type V = ActionParts;

    open spec fn view(&self) -> ActionParts {
        match *self {
            ToolAction::Run(command) => ActionParts::Run(command@),
            ToolAction::IsFile(path) => ActionParts::IsFile(path.bytes()),
            ToolAction::Exists(path) => ActionParts::Exists(path.bytes()),
            ToolAction::CreateFolder(path) => ActionParts::CreateFolder(path.bytes()),
            ToolAction::RemoveFolder(path) => ActionParts::RemoveFolder(path.bytes()),
            ToolAction::BuildHelper => ActionParts::BuildHelper,
        }
    }
}

/// What an action that may be left out consists of.
pub open spec fn opt_parts(action: Option<ToolAction>) -> Option<ActionParts> {
    match action {
        Some(action) => Some(action@),
        None => None,
    }
}

/// What a program printed is handed on without the white space around it where it was asked for; a
/// program that could not be started is told in its own words.
pub proof fn what_was_asked_for_is_handed_on(command: CommandParts, end: ProgramEnd)
    ensures
        command.judged(None) == ReplyParts::Failed(command.failure),
        end.success && command.asked is Output ==> command.judged(Some(end)) == ReplyParts::Done(
            trimmed(end.stdout@),
        ),
        !end.success && trimmed(end.stderr@).len() > 0 ==> (command.judged(Some(end)) matches
            ReplyParts::Failed(message) && ends(message, trimmed(end.stderr@))),
{
    if !end.success {
        match command.asked {
            AskedParts::Success { label } => a_failure_tells_what_was_printed(
                label,
                end.stdout@,
                end.stderr@,
                end.status@,
                Seq::empty(),
            ),
            AskedParts::Output { words } => a_failure_tells_what_was_printed(
                command.program,
                end.stdout@,
                end.stderr@,
                end.status@,
                joined(words, " "@),
            ),
        }
    }
}

}
