//! The failures that the tracker reports, as one enumeration.
use vstd::prelude::*;

verus! {

/// Which of a manager's three commands is meant.
#[derive(Debug, Clone, Copy, PartialEq, Eq, Structural)]
pub enum ActionSlot {
    Install,
    Upgrade,
    Remove,
}

/// Why a configuration text was rejected.
#[derive(Debug, Clone, Copy, PartialEq, Eq, Structural)]
pub enum ConfigError {
    /// The text is not a well-formed document.
    Syntax,
    /// The document has no `manager` table.
    MissingManagers,
    /// The manager at this position is not a table.
    ManagerNotTable(usize),
    /// The manager at this position lacks the given command.
    MissingAction(usize, ActionSlot),
    /// The given command of the manager at this position is neither a string
    /// nor a table with a string `template`.
    MalformedAction(usize, ActionSlot),
}

/// The uniqueness rule that an insert would have broken.
#[derive(Debug, Clone, Copy, PartialEq, Eq, Structural)]
pub enum DuplicateError {
    /// A package with this name and source exists; its id is given.
    Package(i64),
    /// The package already has this version; the version's id is given.
    Version(i64),
}

/// Why the store could not carry out an operation.
#[derive(Debug, Clone, Copy, PartialEq, Eq, Structural)]
pub enum StorageError {
    /// The tables have not been created.
    SchemaMissing,
    /// The row refers to a package that does not exist.
    UnknownPackage,
    /// The row refers to a version that does not exist.
    UnknownVersion,
    /// The table has used its last row id.
    RowIdsExhausted,
    /// A transaction is already open.
    TransactionOpen,
    /// No transaction is open.
    NoTransaction,
    /// The rows handed over break a rule of the schema.
    Corrupt,
    /// The file of the store could not be opened, read or written. The
    /// library keeps no file and never reports this; whoever keeps one does.
    Unavailable,
}

/// Why a value was turned away before it reached the store.
#[derive(Debug, Clone, Copy, PartialEq, Eq, Structural)]
pub enum ValidationError {
    /// The action is neither `install` nor `uninstall`.
    UnsupportedAction,
    /// The instant lies outside the calendar's range.
    TimestampOutOfRange,
}

/// Every failure of the tracker.
#[derive(Debug, Clone, Copy, PartialEq, Eq, Structural)]
pub enum TrackError {
    Config(ConfigError),
    Duplicate(DuplicateError),
    Storage(StorageError),
    Validation(ValidationError),
}

/// One line that says what is wrong with a configuration.
pub open spec fn config_error_text(error: ConfigError) -> Seq<char> {
    match error {
        ConfigError::Syntax => "the configuration is not a TOML document"@,
        ConfigError::MissingManagers => "the configuration has no `manager` table"@,
        ConfigError::ManagerNotTable(_) => "a package manager is not a table"@,
        ConfigError::MissingAction(_, ActionSlot::Install) => "a package manager lacks `install`"@,
        ConfigError::MissingAction(_, ActionSlot::Upgrade) => "a package manager lacks `upgrade`"@,
        ConfigError::MissingAction(_, ActionSlot::Remove) => "a package manager lacks `remove`"@,
        ConfigError::MalformedAction(_, _) =>
            "a command is neither a string nor a table with a string `template`"@,
    }
}

/// One line that says which rule an insert would have broken.
pub open spec fn duplicate_error_text(error: DuplicateError) -> Seq<char> {
    match error {
        DuplicateError::Package(_) => "the package is tracked already"@,
        DuplicateError::Version(_) => "the package has this version already"@,
    }
}

/// One line that says why the store could not carry out an operation.
pub open spec fn storage_error_text(error: StorageError) -> Seq<char> {
    match error {
        StorageError::SchemaMissing => "the tables have not been created"@,
        StorageError::UnknownPackage => "no package has this id"@,
        StorageError::UnknownVersion => "no version has this id"@,
        StorageError::RowIdsExhausted => "the table has used its last row id"@,
        StorageError::TransactionOpen => "a transaction is open already"@,
        StorageError::NoTransaction => "no transaction is open"@,
        StorageError::Corrupt => "the rows break the rules of the schema"@,
        StorageError::Unavailable => "the store cannot be opened, read or written"@,
    }
}

/// One line that says why a value was turned away.
pub open spec fn validation_error_text(error: ValidationError) -> Seq<char> {
    match error {
        ValidationError::UnsupportedAction => "the action is neither `install` nor `uninstall`"@,
        ValidationError::TimestampOutOfRange => "the instant is outside the calendar"@,
    }
}

/// One line that says what went wrong.
pub open spec fn error_text(error: TrackError) -> Seq<char> {
    match error {
        TrackError::Config(e) => config_error_text(e),
        TrackError::Duplicate(e) => duplicate_error_text(e),
        TrackError::Storage(e) => storage_error_text(e),
        TrackError::Validation(e) => validation_error_text(e),
    }
}

impl ConfigError {
    /// One line that says what is wrong with the configuration.
    pub fn describe(&self) -> (out: String)
        ensures
            out@ == config_error_text(*self),
    {
        match self {
            ConfigError::Syntax => "the configuration is not a TOML document".to_owned(),
            ConfigError::MissingManagers => "the configuration has no `manager` table".to_owned(),
            ConfigError::ManagerNotTable(_) => "a package manager is not a table".to_owned(),
            ConfigError::MissingAction(_, ActionSlot::Install) =>
                "a package manager lacks `install`".to_owned(),
            ConfigError::MissingAction(_, ActionSlot::Upgrade) =>
                "a package manager lacks `upgrade`".to_owned(),
            ConfigError::MissingAction(_, ActionSlot::Remove) =>
                "a package manager lacks `remove`".to_owned(),
            ConfigError::MalformedAction(_, _) =>
                "a command is neither a string nor a table with a string `template`".to_owned(),
        }
    }
}

impl TrackError {
    /// One line that says what went wrong.
    pub fn describe(&self) -> (out: String)
        ensures
            out@ == error_text(*self),
    {
        match self {
            TrackError::Config(e) => e.describe(),
            TrackError::Duplicate(DuplicateError::Package(_)) =>
                "the package is tracked already".to_owned(),
            TrackError::Duplicate(DuplicateError::Version(_)) =>
                "the package has this version already".to_owned(),
            TrackError::Storage(StorageError::SchemaMissing) =>
                "the tables have not been created".to_owned(),
            TrackError::Storage(StorageError::UnknownPackage) => "no package has this id".to_owned(),
            TrackError::Storage(StorageError::UnknownVersion) => "no version has this id".to_owned(),
            TrackError::Storage(StorageError::RowIdsExhausted) =>
                "the table has used its last row id".to_owned(),
            TrackError::Storage(StorageError::TransactionOpen) =>
                "a transaction is open already".to_owned(),
            TrackError::Storage(StorageError::NoTransaction) => "no transaction is open".to_owned(),
            TrackError::Storage(StorageError::Corrupt) =>
                "the rows break the rules of the schema".to_owned(),
            TrackError::Storage(StorageError::Unavailable) =>
                "the store cannot be opened, read or written".to_owned(),
            TrackError::Validation(ValidationError::UnsupportedAction) =>
                "the action is neither `install` nor `uninstall`".to_owned(),
            TrackError::Validation(ValidationError::TimestampOutOfRange) =>
                "the instant is outside the calendar".to_owned(),
        }
    }
}

} // verus!
