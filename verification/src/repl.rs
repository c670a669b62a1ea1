//! What a read-eval-print loop does with a line that it has read.

use crate::error::{Error, ErrorView};
use crate::parsing::tokens_of;
use crate::registry::{parses, CommandValue, CommandValueView};
use crate::text::{trim, trimmed};
use crate::Replman;
use vstd::prelude::*;

verus! {

/// What the loop does next.
#[derive(Debug, Clone, PartialEq, Eq)]
pub enum Step<'a> {
    /// The line is blank: read the next line.
    Skip,
    /// The line gives no command: report the error and read the next line.
    Report(Error),
    /// The line gives a command: hand it out. `line` is the line without
    /// the whitespace around it, as it goes into the history.
    Return { command: CommandValue, line: &'a str },
}

/// `step` is what the loop does with `line` among the commands `commands`:
/// a blank line is skipped, and any other line is parsed without the
/// whitespace around it.
pub open spec fn steps(commands: Seq<crate::definition::CommandDefinitionView>, line: Seq<char>, step: Step) -> bool {
    if trimmed(line).len() == 0 {
        step is Skip
    } else {
        match step {
            Step::Skip => false,
            Step::Report(e) => parses(
                commands,
                tokens_of(trimmed(line)),
                Err::<CommandValueView, ErrorView>(e@),
            ),
            Step::Return { command, line: entry } => entry@ == trimmed(line) && parses(
                commands,
                tokens_of(trimmed(line)),
                Ok::<CommandValueView, ErrorView>(command@),
            ),
        }
    }
}

/// Decides what a read-eval-print loop does with a line that it has read.
pub fn read_command<'a, R: Replman>(commands: &R, line: &'a str) -> (step: Step<'a>)
    ensures
        steps(commands.commands(), line@, step),
{
    let trimmed = trim(line);
    if trimmed.is_empty() {
        return Step::Skip;
    }
    match commands.parse_str(trimmed) {
        Ok(command) => Step::Return { command, line: trimmed },
        Err(err) => Step::Report(err),
    }
}

} // verus!
