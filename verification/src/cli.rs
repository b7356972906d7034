//! The command line of the tracker: a command word, then its arguments.
use vstd::prelude::*;
use crate::text::same_text;

verus! {

/// The help text.
pub const HELP: &'static str =
    "Forget-me-not, a universal package recorder.\nusage: fmn <command> <option> [<args>]\n\n    command:\n. ";

/// What the tracker can be asked to do.
#[non_exhaustive]
#[derive(Debug, Clone, Copy, PartialEq, Eq)]
pub enum CliCommand {
    /// `track`
    Track,
    /// `list`
    List,
    /// `help`
    Help,
}

/// The options of the command line.
#[derive(Debug, Clone, Copy, PartialEq, Eq)]
pub enum CliOption {
    /// `--help`
    Help,
}

/// Why a command line was turned away.
#[derive(Debug, PartialEq, Eq)]
pub enum CliError {
    /// No word follows the program's name.
    NoCommand,
    /// The word after the program's name is no command; it is given.
    UnknownCommand(String),
}

/// The command that a word names.
pub open spec fn command_named(word: Seq<char>) -> Option<CliCommand> {
    if word == "track"@ {
        Some(CliCommand::Track)
    } else if word == "list"@ {
        Some(CliCommand::List)
    } else if word == "help"@ {
        Some(CliCommand::Help)
    } else {
        None
    }
}

/// What is said of a word that is no command.
pub open spec fn unknown_command_message(word: Seq<char>) -> Seq<char> {
    "Cannot parse command `"@ + word + "`"@
}

impl CliCommand {
    /// The command that `s` names: `track`, `list` or `help`.
    pub fn parse(s: &str) -> (out: Result<CliCommand, String>)
        ensures
            match command_named(s@) {
                Some(command) => out == Ok::<CliCommand, String>(command),
                None => out is Err && out->Err_0@ == unknown_command_message(s@),
            },
    {
        if same_text(s, "track") {
            Ok(CliCommand::Track)
        } else if same_text(s, "list") {
            Ok(CliCommand::List)
        } else if same_text(s, "help") {
            Ok(CliCommand::Help)
        } else {
            let mut message = "Cannot parse command `".to_owned();
            message.append(s);
            message.append("`");
            Err(message)
        }
    }
}

impl std::str::FromStr for CliCommand {
    type Err = String;

    /// The command that `s` names, as `CliCommand::parse` gives it: `track`,
    /// `list` or `help`; any other word is turned away with a message that
    /// quotes it.
    fn from_str(s: &str) -> (out: Result<CliCommand, String>)
        ensures
            match command_named(s@) {
                Some(command) => out == Ok::<CliCommand, String>(command),
                None => out is Err && out->Err_0@ == unknown_command_message(s@),
            },
    {
        CliCommand::parse(s)
    }
}

impl CliOption {
    /// The option that `s` names. Only `--help` is an option, and only an
    /// option may be handed in.
    pub fn parse(s: &str) -> (out: Result<CliOption, String>)
        requires
            s@ == "--help"@,
        ensures
            out == Ok::<CliOption, String>(CliOption::Help),
    {
        Ok(CliOption::Help)
    }
}

/// A command line, taken apart.
#[derive(Debug, PartialEq, Eq)]
pub struct Cli {
    command: CliCommand,
    options: Vec<CliOption>,
    args: Vec<String>,
}

impl Cli {
    /// The command.
    pub closed spec fn spec_command(&self) -> CliCommand {
        self.command
    }

    /// The options.
    pub closed spec fn spec_options(&self) -> Seq<CliOption> {
        self.options@
    }

    /// The arguments behind the command.
    pub closed spec fn spec_args(&self) -> Seq<String> {
        self.args@
    }

    /// Takes a command line apart. The first word is the program's name; the
    /// second names the command; the rest are the command's arguments. No word
    /// is read as an option.
    pub fn parse(words: Vec<String>) -> (out: Result<Cli, CliError>)
        ensures
            words@.len() < 2 ==> out == Err::<Cli, CliError>(CliError::NoCommand),
            words@.len() >= 2 && command_named(words@[1]@) is None ==> (match out {
                Err(CliError::UnknownCommand(word)) => word@ == words@[1]@,
                _ => false,
            }),
            words@.len() >= 2 && command_named(words@[1]@) is Some ==> out is Ok
                && out->Ok_0.spec_command() == command_named(words@[1]@)->0
                && out->Ok_0.spec_options().len() == 0 && out->Ok_0.spec_args() == words@.skip(2),
    {
        if words.len() < 2 {
            return Err(CliError::NoCommand);
        }
        let command = match CliCommand::parse(words[1].as_str()) {
            Ok(command) => command,
            Err(_) => {
                return Err(CliError::UnknownCommand(words[1].clone()));
            },
        };
        let mut rest = words;
        let ghost all = rest@;
        rest.remove(0);
        rest.remove(0);
        proof {
            assert(rest@ =~= all.skip(2));
        }
        Ok(Cli { command, options: Vec::new(), args: rest })
    }

    /// The command.
    pub fn command(&self) -> (out: CliCommand)
        ensures
            out == self.spec_command(),
    {
        self.command
    }

    /// The options.
    pub fn options(&self) -> (out: &Vec<CliOption>)
        ensures
            out@ == self.spec_options(),
    {
        &self.options
    }

    /// The arguments behind the command.
    pub fn args(&self) -> (out: &Vec<String>)
        ensures
            out@ == self.spec_args(),
    {
        &self.args
    }
}

} // verus!
