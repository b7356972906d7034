//! The tracker over the flat record: what a command line asks for is carried
//! out, and what there is to say comes back as a report.
use vstd::prelude::*;
use crate::cli::{Cli, CliCommand, HELP};
use crate::document::toml_document;
use crate::error::{StorageError, TrackError};
use crate::manager::{configuration_of, ManagerCommands, ManagerConfigs};
use crate::rows::opt_text;
use crate::simpledata::{
    insert_refusal, next_simple_id, shown_all, simple_rows, try_clear_packages, try_create_table,
    try_insert, try_list_all, LongDisplayableSimpleDataVec, SimplePackageData, SimpleRow,
    SimpleTable,
};

verus! {

/// What came of running a command line.
#[derive(Debug, PartialEq, Eq)]
pub enum RunReport {
    /// `track` stored a row.
    Stored,
    /// `track` came with fewer than two arguments.
    TooFewArguments,
    /// `track` could not store the row; the cause is given.
    InsertFailed(TrackError),
    /// `list` read the rows; they are given as text.
    Listed(String),
    /// `list` could not read the rows; the cause is given.
    ListFailed(TrackError),
    /// `help`: the help text.
    Help(String),
}

/// The tracker: its table and its configuration. Neither is replaced once
/// the tracker is made.
pub struct SimpleApp {
    table: SimpleTable,
    config: ManagerConfigs,
}

/// Another name for the tracker.
pub type SimpleProgram = SimpleApp;

/// The optional text at a position of the arguments.
pub open spec fn word_at(words: Seq<String>, at: int) -> Option<Seq<char>> {
    if 0 <= at < words.len() {
        Some(words[at]@)
    } else {
        None
    }
}

/// The row that `track` stores for these arguments. They come in the order
/// source, package, version, time of installation, description; the last
/// three may be missing. The record has no place for a version: the third
/// argument is not kept.
pub open spec fn row_from(words: Seq<String>) -> SimpleRow {
    SimpleRow {
        id: 0,
        name: words[1]@,
        source: words[0]@,
        description: word_at(words, 4),
        installation: word_at(words, 3),
    }
}

/// An owned copy of the word at a position, if there is one.
fn word(words: &Vec<String>, at: usize) -> (out: Option<String>)
    ensures
        opt_text(out) == word_at(words@, at as int),
{
    if at < words.len() {
        Some(words[at].clone())
    } else {
        None
    }
}

impl SimpleApp {
    /// The rows of the table.
    pub closed spec fn rows(&self) -> Seq<SimpleRow> {
        self.table@
    }

    /// Whether the table has been created.
    pub closed spec fn table_created(&self) -> bool {
        self.table.created()
    }

    /// The configuration.
    pub closed spec fn managers(&self) -> Seq<(Seq<char>, ManagerCommands)> {
        self.config@
    }

    /// Makes the tracker from the text of a configuration and a table. The
    /// table is created where it does not exist. A text that is no
    /// configuration is refused with the reason.
    pub fn new(config_str: &str, table: SimpleTable) -> (out: Result<SimpleApp, TrackError>)
        ensures
            match configuration_of(toml_document(config_str@)) {
                Ok(managers) => out is Ok && out->Ok_0.managers() == managers
                    && out->Ok_0.table_created() && out->Ok_0.rows() == table@,
                Err(e) => out is Err && out->Err_0 == TrackError::Config(e),
            },
    {
        let config = match ManagerConfigs::from_text(config_str) {
            Ok(config) => config,
            Err(e) => {
                return Err(TrackError::Config(e));
            },
        };
        let mut table = table;
        let _ = try_create_table(&mut table);
        Ok(SimpleApp { table, config })
    }

    /// The configuration.
    pub fn config(&self) -> (out: &ManagerConfigs)
        ensures
            out@ == self.managers(),
    {
        &self.config
    }

    /// Deletes every row.
    pub fn clear_packages_table(&mut self) -> (out: Result<(), TrackError>)
        ensures
            final(self).managers() == old(self).managers(),
            final(self).table_created() == old(self).table_created(),
            old(self).table_created() ==> out is Ok && final(self).rows().len() == 0,
            !old(self).table_created() ==> final(self).rows() == old(self).rows() && out == Err::<
                (),
                TrackError,
            >(TrackError::Storage(StorageError::SchemaMissing)),
    {
        match try_clear_packages(&mut self.table) {
            Ok(_) => Ok(()),
            Err(e) => Err(e),
        }
    }

    /// All rows, in the order of insertion.
    pub fn list_simple_data(&self) -> (out: Result<Vec<SimplePackageData>, TrackError>)
        ensures
            self.rows().len() <= usize::MAX,
            self.table_created() ==> out is Ok && simple_rows(out->Ok_0@) == self.rows(),
            !self.table_created() ==> out == Err::<Vec<SimplePackageData>, TrackError>(
                TrackError::Storage(StorageError::SchemaMissing),
            ),
    {
        try_list_all(&self.table)
    }

    /// Creates the table where it does not exist.
    pub fn init_db(&mut self) -> (out: Result<(), TrackError>)
        ensures
            out is Ok,
            final(self).table_created(),
            final(self).rows() == old(self).rows(),
            final(self).managers() == old(self).managers(),
    {
        try_create_table(&mut self.table)
    }

    /// Stores one row and answers how many rows were written: one. The row
    /// gets an id that no row of the table has.
    pub fn insert_package(&mut self, package: SimplePackageData) -> (out: Result<
        usize,
        TrackError,
    >)
        ensures
            final(self).managers() == old(self).managers(),
            final(self).table_created() == old(self).table_created(),
            match insert_refusal(old(self).table_created(), old(self).rows()) {
                Some(cause) => final(self).rows() == old(self).rows() && out == Err::<
                    usize,
                    TrackError,
                >(cause),
                None => out == Ok::<usize, TrackError>(1) && final(self).rows() == old(self).rows().push(SimpleRow { id: next_simple_id(old(self).rows()), ..package@ })
                    && forall|i: int|
                    0 <= i < old(self).rows().len() ==> (#[trigger] old(self).rows()[i]).id
                        != next_simple_id(old(self).rows()),
            },
    {
        try_insert(&mut self.table, package)
    }

    /// Carries out what the command line asks for. `track` needs a source
    /// and a package, in this order; a version, the time of installation and
    /// a description may follow. `list` gives every row as text; `help` gives
    /// the help text.
    pub fn run(&mut self, cli: Cli) -> (out: RunReport)
        ensures
            final(self).managers() == old(self).managers(),
            final(self).table_created() == old(self).table_created(),
            cli.spec_command() is Track && cli.spec_args().len() < 2 ==> out
                == RunReport::TooFewArguments && final(self).rows() == old(self).rows(),
            cli.spec_command() is Track && cli.spec_args().len() >= 2 ==> (match insert_refusal(
                old(self).table_created(),
                old(self).rows(),
            ) {
                Some(cause) => final(self).rows() == old(self).rows() && out
                    == RunReport::InsertFailed(cause),
                None => out == RunReport::Stored && final(self).rows() == old(self).rows().push(
                    SimpleRow {
                        id: next_simple_id(old(self).rows()),
                        ..row_from(cli.spec_args())
                    },
                ),
            }),
            cli.spec_command() is List ==> final(self).rows() == old(self).rows(),
            cli.spec_command() is List && old(self).table_created() ==> (match out {
                RunReport::Listed(text) => text@ == shown_all(
                    old(self).rows(),
                    old(self).rows().len() as int,
                ),
                _ => false,
            }),
            cli.spec_command() is List && !old(self).table_created() ==> out
                == RunReport::ListFailed(TrackError::Storage(StorageError::SchemaMissing)),
            cli.spec_command() is Help ==> final(self).rows() == old(self).rows() && (match out {
                RunReport::Help(text) => text@ == HELP@,
                _ => false,
            }),
    {
        match cli.command() {
            CliCommand::Track => {
                let words = cli.args();
                if words.len() < 2 {
                    return RunReport::TooFewArguments;
                }
                let package = SimplePackageData::new(
                    words[1].clone(),
                    words[0].clone(),
                    word(words, 4),
                    word(words, 3),
                );
                match self.insert_package(package) {
                    Ok(_) => RunReport::Stored,
                    Err(cause) => RunReport::InsertFailed(cause),
                }
            },
            CliCommand::List => match self.list_simple_data() {
                Ok(rows) => RunReport::Listed(
                    LongDisplayableSimpleDataVec::from(&rows).to_display_string(),
                ),
                Err(cause) => RunReport::ListFailed(cause),
            },
            CliCommand::Help => RunReport::Help(HELP.to_owned()),
        }
    }
}

} // verus!
