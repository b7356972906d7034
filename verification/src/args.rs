//! The command line with subcommands: `record` and `install`.
use vstd::prelude::*;
use crate::text::same_text;

verus! {

/// What the command line asks for.
#[derive(Debug, PartialEq, Eq)]
pub enum Commands {
    Record { name: String },
    Install { name: String, source: String },
}

/// A command line, taken apart.
#[derive(Debug, PartialEq, Eq)]
pub struct Cli {
    pub command: Commands,
}

/// Why a command line was turned away.
#[derive(Debug, Clone, Copy, PartialEq, Eq, Structural)]
pub enum UsageError {
    /// No word follows the program's name.
    MissingSubcommand,
    /// The word after the program's name is no subcommand.
    UnknownSubcommand,
    /// The subcommand needs more words than were given.
    MissingArgument,
    /// More words were given than the subcommand takes.
    UnexpectedArgument,
    /// A word begins with a dash and is neither `-h` nor `--help`: no other
    /// option is known here.
    UnknownOption,
    /// The command line asks for the usage text, with `-h`, `--help` or the
    /// word `help` in place of a subcommand.
    HelpRequested,
}

/// What a [`Commands`] stands for.
pub enum Request {
    Record { name: Seq<char> },
    Install { name: Seq<char>, source: Seq<char> },
}

impl View for Commands {
    type V = Request;

    open spec fn view(&self) -> Request {
        match self {
            Commands::Record { name } => Request::Record { name: name@ },
            Commands::Install { name, source } => Request::Install {
                name: name@,
                source: source@,
            },
        }
    }
}

/// Whether a word begins with a dash.
pub open spec fn is_option(word: Seq<char>) -> bool {
    word.len() > 0 && word[0] == '-'
}

/// Whether a word is one of the two options that ask for the usage text.
pub open spec fn asks_for_help(word: Seq<char>) -> bool {
    word == "--help"@ || word == "-h"@
}

/// Where the first word that begins with a dash stands among the first `n`
/// words, the program's name not counted.
pub open spec fn first_option(words: Seq<Seq<char>>, n: int) -> Option<int>
    decreases n,
{
    if n <= 1 {
        None
    } else {
        match first_option(words, n - 1) {
            Some(i) => Some(i),
            None => if is_option(words[n - 1]) {
                Some(n - 1)
            } else {
                None
            },
        }
    }
}

/// A position that was found among the first `n` words is the one found
/// among more.
pub proof fn lemma_first_option_stays(words: Seq<Seq<char>>, n: int, m: int)
    requires
        n <= m,
        first_option(words, n) is Some,
    ensures
        first_option(words, m) == first_option(words, n),
    decreases m - n,
{
    if n < m {
        lemma_first_option_stays(words, n, m - 1);
    }
}

/// What a command line asks for. The first word is the program's name. Then
/// comes `record` with one name, or `install` with a name and a source, or
/// `help`. The first word behind the program's name that begins with a dash
/// decides before anything else: `-h` and `--help` ask for the usage text,
/// and no other option is known.
pub open spec fn request_in(words: Seq<Seq<char>>) -> Result<Request, UsageError> {
    if first_option(words, words.len() as int) is Some {
        if asks_for_help(words[first_option(words, words.len() as int)->0]) {
            Err(UsageError::HelpRequested)
        } else {
            Err(UsageError::UnknownOption)
        }
    } else if words.len() < 2 {
        Err(UsageError::MissingSubcommand)
    } else if words[1] == "help"@ {
        Err(UsageError::HelpRequested)
    } else if words[1] == "record"@ {
        if words.len() < 3 {
            Err(UsageError::MissingArgument)
        } else if words.len() > 3 {
            Err(UsageError::UnexpectedArgument)
        } else {
            Ok(Request::Record { name: words[2] })
        }
    } else if words[1] == "install"@ {
        if words.len() < 4 {
            Err(UsageError::MissingArgument)
        } else if words.len() > 4 {
            Err(UsageError::UnexpectedArgument)
        } else {
            Ok(Request::Install { name: words[2], source: words[3] })
        }
    } else {
        Err(UsageError::UnknownSubcommand)
    }
}

/// The texts of a vector of words.
pub open spec fn words_of(words: Seq<&str>) -> Seq<Seq<char>> {
    words.map_values(|w: &str| w@)
}

/// Whether a word begins with a dash.
fn begins_with_dash(word: &str) -> (out: bool)
    ensures
        out == is_option(word@),
{
    word.unicode_len() > 0 && word.get_char(0) == '-'
}

impl Cli {
    /// Takes a command line apart, or says why it cannot be.
    pub fn try_parse_from(words: Vec<&str>) -> (out: Result<Cli, UsageError>)
        ensures
            match request_in(words_of(words@)) {
                Ok(request) => out is Ok && out->Ok_0.command@ == request,
                Err(e) => out == Err::<Cli, UsageError>(e),
            },
    {
        let ghost texts = words_of(words@);
        let mut i: usize = 1;
        while i < words.len()
            invariant
                1 <= i,
                i <= words.len() || words.len() == 0,
                texts == words_of(words@),
                first_option(texts, i as int) is None,
            decreases words.len() - i,
        {
            assert(texts[i as int] == words@[i as int]@);
            if begins_with_dash(words[i]) {
                proof {
                    lemma_first_option_stays(texts, i + 1, words.len() as int);
                }
                if same_text(words[i], "--help") || same_text(words[i], "-h") {
                    return Err(UsageError::HelpRequested);
                }
                return Err(UsageError::UnknownOption);
            }
            i += 1;
        }
        if words.len() < 2 {
            return Err(UsageError::MissingSubcommand);
        }
        assert(texts[1] == words@[1]@);
        if same_text(words[1], "help") {
            return Err(UsageError::HelpRequested);
        }
        if same_text(words[1], "record") {
            if words.len() < 3 {
                return Err(UsageError::MissingArgument);
            }
            if words.len() > 3 {
                return Err(UsageError::UnexpectedArgument);
            }
            assert(texts[2] == words@[2]@);
            Ok(Cli { command: Commands::Record { name: words[2].to_owned() } })
        } else if same_text(words[1], "install") {
            if words.len() < 4 {
                return Err(UsageError::MissingArgument);
            }
            if words.len() > 4 {
                return Err(UsageError::UnexpectedArgument);
            }
            assert(texts[2] == words@[2]@);
            assert(texts[3] == words@[3]@);
            Ok(
                Cli {
                    command: Commands::Install {
                        name: words[2].to_owned(),
                        source: words[3].to_owned(),
                    },
                },
            )
        } else {
            Err(UsageError::UnknownSubcommand)
        }
    }

    /// Takes a command line apart. The words must be a command line: where
    /// they are not, use `try_parse_from`.
    pub fn parse_from(words: Vec<&str>) -> (out: Cli)
        requires
            request_in(words_of(words@)) is Ok,
        ensures
            out.command@ == request_in(words_of(words@))->Ok_0,
    {
        match Cli::try_parse_from(words) {
            Ok(cli) => cli,
            Err(_) => vstd::pervasive::unreached(),
        }
    }
}

} // verus!
