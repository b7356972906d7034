//! The tracker over the relational store: its store and its configuration,
//! made once and handed to whoever tracks or lists.
use vstd::prelude::*;
use crate::document::toml_document;
use crate::error::{ActionSlot, TrackError};
use crate::listing::{get_all_package_data, PackageData};
use crate::manager::{configuration_of, resolved, ManagerCommands, ManagerConfigs};
use crate::models::init_db;
use crate::repository::Repository;
use crate::rows::{opt_str_text, opt_text, views};
use crate::store::Store;
use crate::tracker::{track_outcome, track_package};

verus! {

/// The tracker.
pub struct FMN {
    repository: Repository,
    config: ManagerConfigs,
}

/// The characters of an optional string, as those of an optional slice.
fn as_slice(text: &Option<String>) -> (out: Option<&str>)
    ensures
        opt_str_text(out) == opt_text(*text),
{
    match text {
        Some(t) => Some(t.as_str()),
        None => None,
    }
}

impl FMN {
    /// The rows of the store.
    pub closed spec fn store(&self) -> Store {
        self.repository@
    }

    /// The configuration.
    pub closed spec fn managers(&self) -> Seq<(Seq<char>, ManagerCommands)> {
        self.config@
    }

    /// The store is sound, its tables exist, and no transaction is open.
    pub closed spec fn wf(&self) -> bool {
        &&& self.repository.wf()
        &&& self.repository.ready()
        &&& !self.repository.in_transaction()
    }

    /// What `wf` says of the rows.
    pub proof fn lemma_wf(&self)
        requires
            self.wf(),
        ensures
            self.store().consistent(),
    {
        self.repository.lemma_wf();
    }

    /// Makes the tracker from the text of a configuration and a store. The
    /// tables are created where they do not exist; a transaction that the
    /// store came with is rolled back. A text that is no configuration is
    /// refused.
    pub fn init(config_text: &str, repository: Repository) -> (out: Result<FMN, TrackError>)
        requires
            repository.wf(),
        ensures
            match configuration_of(toml_document(config_text@)) {
                Ok(managers) => out is Ok && out->Ok_0.wf() && out->Ok_0.managers() == managers
                    && out->Ok_0.store() == (if repository.in_transaction() {
                    repository.savepoint()
                } else {
                    repository@
                }),
                Err(e) => out == Err::<FMN, TrackError>(TrackError::Config(e)),
            },
    {
        let config = match ManagerConfigs::from_text(config_text) {
            Ok(config) => config,
            Err(e) => {
                return Err(TrackError::Config(e));
            },
        };
        let mut repository = repository;
        if repository.is_in_transaction() {
            let _ = repository.rollback();
        }
        let _ = init_db(&mut repository);
        Ok(FMN { repository, config })
    }

    /// The store.
    pub fn repository(&self) -> (out: &Repository)
        ensures
            out@ == self.store(),
            self.wf() ==> out.wf() && out.ready() && !out.in_transaction(),
    {
        &self.repository
    }

    /// The configuration.
    pub fn config(&self) -> (out: &ManagerConfigs)
        ensures
            out@ == self.managers(),
    {
        &self.config
    }

    /// Tracks that `version` of `package` was installed by `manager` at
    /// `install_time`: the package and the version are found or created, and
    /// the log gets one more `install`. On any failure the rows are as they
    /// were.
    pub fn track(
        &mut self,
        manager: String,
        package: String,
        version: String,
        install_time: String,
        description: Option<String>,
    ) -> (out: Result<(), TrackError>)
        requires
            old(self).wf(),
        ensures
            final(self).wf(),
            final(self).managers() == old(self).managers(),
            out == track_outcome(true, false, old(self).store(), manager@, package@, version@),
            out is Ok ==> final(self).store() == old(self).store().after_track(
                manager@,
                package@,
                version@,
                install_time@,
                opt_text(description),
            ),
            out is Err ==> final(self).store() == old(self).store(),
    {
        match track_package(
            &mut self.repository,
            manager.as_str(),
            package.as_str(),
            version.as_str(),
            install_time.as_str(),
            as_slice(&description),
        ) {
            Ok(_) => Ok(()),
            Err(e) => Err(e),
        }
    }

    /// One row for each package, ordered by package name.
    pub fn list_all(&self) -> (out: Result<Vec<PackageData>, TrackError>)
        requires
            self.wf(),
        ensures
            out is Ok && views(out->Ok_0@) == self.store().listing(),
    {
        get_all_package_data(&self.repository)
    }

    /// The command line for an action of a manager on a package; nothing
    /// where the configuration does not know the manager.
    pub fn command_line(&self, manager: &str, slot: ActionSlot, package_name: &str) -> (out:
        Option<String>)
        ensures
            match resolved(self.managers(), manager@, slot, package_name@) {
                Some(line) => out is Some && out->0@ == line,
                None => out is None,
            },
    {
        self.config.resolve(manager, slot, package_name)
    }
}

} // verus!
