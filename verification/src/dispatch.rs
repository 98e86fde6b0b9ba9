//! What to do with submitted input.
//!
//! The caller owns the event loop and the network; this module owns the
//! decision it makes on every submitted command line: ignore it, run it in
//! the shell, or hand it to command generation. Exactly one command may run
//! at a time; new input while one runs is ignored. Whether an input reads as
//! natural language is the caller's heuristic and arrives as a fact.

use vstd::prelude::*;
use crate::config::OperationMode;

verus! {

/// The decision taken on one submitted input line.
#[derive(Debug, Clone, Copy, PartialEq, Eq, Structural)]
pub enum InputDisposition {
    /// Nothing to do: the input is blank, or a command is already running.
    Ignore,
    /// Run the input as a shell command.
    RunShell,
    /// Hand the input to command generation for approval.
    GenerateCommand,
}

/// Decide what happens to a submitted input line. Blank input and input
/// submitted while a command runs are ignored; otherwise the operation mode
/// rules: terminal-only always runs the shell, prompt-only always generates,
/// and hybrid generates exactly when suggestions are enabled and the input
/// reads as natural language.
pub fn classify_input(
    mode: OperationMode,
    suggestions_enabled: bool,
    command_running: bool,
    input_is_blank: bool,
    reads_as_natural_language: bool,
) -> (r: InputDisposition)
    ensures
        input_is_blank || command_running ==> r == InputDisposition::Ignore,
        !input_is_blank && !command_running ==> r == (match mode {
            OperationMode::TerminalOnly => InputDisposition::RunShell,
            OperationMode::AiPromptOnly => InputDisposition::GenerateCommand,
            OperationMode::Hybrid => if suggestions_enabled && reads_as_natural_language {
                InputDisposition::GenerateCommand
            } else {
                InputDisposition::RunShell
            },
        }),
{
    if input_is_blank || command_running {
        InputDisposition::Ignore
    } else {
        match mode {
            OperationMode::TerminalOnly => InputDisposition::RunShell,
            OperationMode::AiPromptOnly => InputDisposition::GenerateCommand,
            OperationMode::Hybrid => {
                if suggestions_enabled && reads_as_natural_language {
                    InputDisposition::GenerateCommand
                } else {
                    InputDisposition::RunShell
                }
            },
        }
    }
}

} // verus!
