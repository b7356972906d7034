use forget_me_not::args::{Cli, Commands, UsageError};
use forget_me_not::cli::{Cli as WordCli, CliCommand, CliError, CliOption};

fn words(list: &[&str]) -> Vec<String> {
    list.iter().map(|w| w.to_string()).collect()
}

#[test]
fn test_cli() {
    let cli = Cli::parse_from(vec!["target/debug/forget-me-not", "record", "abc"]);
    let expected = Cli { command: Commands::Record { name: "abc".into() } };

    assert_eq!(expected, cli);
}

#[test]
fn install_takes_name_and_source() {
    assert_eq!(
        Cli::try_parse_from(vec!["fmn", "install", "vim", "apt"]),
        Ok(Cli { command: Commands::Install { name: "vim".into(), source: "apt".into() } })
    );
}

#[test]
fn wrong_command_lines_are_turned_away() {
    assert_eq!(Cli::try_parse_from(vec![]), Err(UsageError::MissingSubcommand));
    assert_eq!(Cli::try_parse_from(vec!["fmn"]), Err(UsageError::MissingSubcommand));
    assert_eq!(Cli::try_parse_from(vec!["fmn", "erase", "x"]), Err(UsageError::UnknownSubcommand));
    assert_eq!(Cli::try_parse_from(vec!["fmn", "record"]), Err(UsageError::MissingArgument));
    assert_eq!(Cli::try_parse_from(vec!["fmn", "install", "vim"]), Err(UsageError::MissingArgument));
    assert_eq!(
        Cli::try_parse_from(vec!["fmn", "record", "a", "b"]),
        Err(UsageError::UnexpectedArgument)
    );
    assert_eq!(
        Cli::try_parse_from(vec!["fmn", "install", "a", "b", "c"]),
        Err(UsageError::UnexpectedArgument)
    );
    assert_eq!(Cli::try_parse_from(vec!["fmn", "record", "-x"]), Err(UsageError::UnknownOption));
    assert_eq!(Cli::try_parse_from(vec!["fmn", "--version"]), Err(UsageError::UnknownOption));
    assert_eq!(Cli::try_parse_from(vec!["fmn", "-x", "--help"]), Err(UsageError::UnknownOption));
    assert_eq!(Cli::try_parse_from(vec!["-odd-name", "record", "x"]).is_ok(), true);
}

#[test]
fn command_words_are_recognised() {
    assert_eq!(CliCommand::parse("track"), Ok(CliCommand::Track));
    assert_eq!(CliCommand::parse("list"), Ok(CliCommand::List));
    assert_eq!("help".parse::<CliCommand>(), Ok(CliCommand::Help));
    assert_eq!(CliCommand::parse("erase"), Err("Cannot parse command `erase`".to_string()));
    assert_eq!(CliCommand::parse(""), Err("Cannot parse command ``".to_string()));
    assert_eq!(CliOption::parse("--help"), Ok(CliOption::Help));
}

#[test]
fn words_behind_the_command_are_its_arguments() {
    let cli = WordCli::parse(words(&["fmn", "track", "vim", "apt", "an editor"])).unwrap();
    assert_eq!(cli.command(), CliCommand::Track);
    assert_eq!(cli.options().len(), 0);
    assert_eq!(cli.args(), &words(&["vim", "apt", "an editor"]));
    let bare = WordCli::parse(words(&["fmn", "list"])).unwrap();
    assert_eq!(bare.command(), CliCommand::List);
    assert_eq!(bare.args().len(), 0);
}

#[test]
fn command_line_without_command_is_turned_away() {
    assert_eq!(WordCli::parse(words(&[])), Err(CliError::NoCommand));
    assert_eq!(WordCli::parse(words(&["fmn"])), Err(CliError::NoCommand));
    assert_eq!(
        WordCli::parse(words(&["fmn", "erase", "x"])),
        Err(CliError::UnknownCommand("erase".to_string()))
    );
}

#[test]
fn command_words_are_read_through_from_str() {
    assert_eq!("track".parse::<CliCommand>(), Ok(CliCommand::Track));
    assert_eq!("list".parse::<CliCommand>(), Ok(CliCommand::List));
    assert_eq!("erase".parse::<CliCommand>(), Err("Cannot parse command `erase`".to_string()));
    assert_eq!("Track".parse::<CliCommand>(), Err("Cannot parse command `Track`".to_string()));
}

#[test]
fn usage_text_can_be_asked_for() {
    assert_eq!(Cli::try_parse_from(vec!["fmn", "--help"]), Err(UsageError::HelpRequested));
    assert_eq!(Cli::try_parse_from(vec!["fmn", "-h"]), Err(UsageError::HelpRequested));
    assert_eq!(Cli::try_parse_from(vec!["fmn", "help"]), Err(UsageError::HelpRequested));
    assert_eq!(Cli::try_parse_from(vec!["fmn", "help", "record"]), Err(UsageError::HelpRequested));
    assert_eq!(Cli::try_parse_from(vec!["fmn", "record", "--help"]), Err(UsageError::HelpRequested));
    assert_eq!(Cli::try_parse_from(vec!["fmn", "install", "vim", "-h"]), Err(UsageError::HelpRequested));
    assert_eq!(
        Cli::try_parse_from(vec!["fmn", "record", "help"]),
        Ok(Cli { command: Commands::Record { name: "help".into() } })
    );
}
