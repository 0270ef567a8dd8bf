//! The subcommands and what each of them runs.

use crate::commands::{
    check_words, format_words, import_words, jobs_word, lint_words, run_plan, test_words, words,
};
use vstd::prelude::*;

verus! {

/// The arguments of the program.
#[derive(Debug)]
pub struct Args {
    pub cmd: Cmd,
}

/// A subcommand with its arguments.
#[derive(Debug)]
pub enum Cmd {
    /// Add dependencies: `uv add`, with the arguments as they are. `auto` asks for the
    /// packages to be found in the project's imports, which is not supported.
    Add { auto: bool, args: Vec<String> },
    /// Call a Python script, module, function or package.
    Run { args: Vec<String> },
    /// Type-check the files.
    Check { files: Vec<String> },
    /// Format the files, or with `check` only say whether they are formatted.
    Fmt { files: Vec<String>, check: bool },
    /// Lint the files.
    Lint { files: Vec<String>, fix: bool, unsafe_fixes: bool },
    /// Run the tests.
    Test { files: Vec<String>, allow_no_tests: bool, parallel: Option<i32>, filter: Option<String> },
}

/// The words of some command lines.
pub open spec fn lines(commands: Seq<Vec<String>>) -> Seq<Seq<Seq<char>>> {
    Seq::new(commands.len(), |i: int| words(commands[i]@))
}

/// The text of a string that may be missing.
pub open spec fn optional_text(text: Option<String>) -> Option<Seq<char>> {
    match text {
        Some(t) => Some(t@),
        None => None,
    }
}

/// The command lines that a subcommand runs, in their order, with the merged configuration
/// in the file `config` and the status of the type-checking daemon in `status_file`; nothing
/// for a `run` without a target.
pub open spec fn plan(cmd: Cmd, config: Seq<char>, status_file: Seq<char>) -> Option<
    Seq<Seq<Seq<char>>>,
> {
    match cmd {
        Cmd::Add { auto, args } => Some(seq![seq!["uv"@, "add"@] + words(args@)]),
        Cmd::Run { args } => match run_plan(words(args@)) {
            Some(command) => Some(seq![command]),
            None => None,
        },
        Cmd::Check { files } => Some(seq![check_words(status_file, config, words(files@))]),
        Cmd::Fmt { files, check } => Some(
            seq![
                format_words(config, words(files@), check),
                import_words(config, words(files@), check),
            ],
        ),
        Cmd::Lint { files, fix, unsafe_fixes } => Some(
            seq![lint_words(config, words(files@), fix, unsafe_fixes)],
        ),
        Cmd::Test { files, allow_no_tests, parallel, filter } => Some(
            seq![test_words(config, words(files@), jobs_word(parallel), optional_text(filter))],
        ),
    }
}

impl Cmd {
    /// Whether the subcommand hands the merged configuration to the tool it runs.
    pub fn needs_config(&self) -> (r: bool)
        ensures
            r == (self is Check || self is Fmt || self is Lint || self is Test),
    {
        match self {
            Cmd::Add { .. } => false,
            Cmd::Run { .. } => false,
            _ => true,
        }
    }

    /// The command lines that the subcommand runs, in their order.
    pub fn commands(self, config: &str, status_file: &str) -> (r: Option<Vec<Vec<String>>>)
        requires
            (self matches Cmd::Add { auto, .. } ==> !auto),
        ensures
            match r {
                Some(commands) => plan(self, config@, status_file@) == Some(lines(commands@)),
                None => plan(self, config@, status_file@) is None,
            },
    {
        let mut out: Vec<Vec<String>> = Vec::new();
        match self {
            Cmd::Add { auto, args } => {
                out.push(crate::commands::add(args, auto));
            },
            Cmd::Run { args } => {
                match crate::commands::run(args) {
                    Some(command) => {
                        out.push(command);
                    },
                    None => {
                        return None;
                    },
                }
            },
            Cmd::Check { files } => {
                out.push(crate::commands::check(status_file, config, files));
            },
            Cmd::Fmt { files, check } => {
                let (format, imports) = crate::commands::fmt(config, files, check);
                out.push(format);
                out.push(imports);
            },
            Cmd::Lint { files, fix, unsafe_fixes } => {
                out.push(crate::commands::lint(config, files, fix, unsafe_fixes));
            },
            Cmd::Test { files, allow_no_tests, parallel, filter } => {
                out.push(crate::commands::test(config, files, allow_no_tests, parallel, filter));
            },
        }
        assert(plan(self, config@, status_file@)->Some_0 =~= lines(out@));
        Some(out)
    }
}

} // verus!
