//! The one use case that writes: to track that a version of a package was
//! installed. Package, version and installation are written together or not
//! at all.
use vstd::prelude::*;
use crate::error::{DuplicateError, TrackError, StorageError};
use crate::models::{insert_package, insert_package_version, log_installation};
use crate::repository::Repository;
use crate::rows::opt_str_text;
use crate::store::{install_text, Store};

verus! {

/// What one tracked installation wrote.
#[derive(Debug, Clone, Copy, PartialEq, Eq, Structural)]
pub struct TrackReceipt {
    /// The package that the installation belongs to.
    pub package_id: i64,
    /// Whether the package was created for it.
    pub package_created: bool,
    /// The version that was installed.
    pub version_id: i64,
    /// Whether the version was created for it.
    pub version_created: bool,
    /// The new row in the log.
    pub installation_id: i64,
}

impl Store {
    /// The store with this package in it: as it is where the package is
    /// there, with the package added where it is not.
    pub open spec fn package_resolved(
        self,
        name: Seq<char>,
        source: Seq<char>,
        description: Option<Seq<char>>,
    ) -> Store {
        if self.package_at(name, source) is Some {
            self
        } else {
            self.with_package(name, source, description)
        }
    }

    /// The id under which `package_resolved` holds the package.
    pub open spec fn package_id_for(self, name: Seq<char>, source: Seq<char>) -> int {
        match self.package_at(name, source) {
            Some(i) => self.packages[i].id,
            None => self.next_package_id(),
        }
    }

    /// The store with this version of the package in it.
    pub open spec fn version_resolved(self, package_id: int, version: Seq<char>) -> Store {
        if self.version_at(package_id, version) is Some {
            self
        } else {
            self.with_version(package_id, version)
        }
    }

    /// The id under which `version_resolved` holds the version.
    pub open spec fn version_id_for(self, package_id: int, version: Seq<char>) -> int {
        match self.version_at(package_id, version) {
            Some(i) => self.versions[i].id,
            None => self.next_version_id(),
        }
    }

    /// The store after an installation has been tracked: the package and the
    /// version are there, each created where it was missing, and the log has
    /// one more `install`.
    pub open spec fn after_track(
        self,
        source: Seq<char>,
        package: Seq<char>,
        version: Seq<char>,
        timestamp: Seq<char>,
        description: Option<Seq<char>>,
    ) -> Store {
        let with_package = self.package_resolved(package, source, description);
        let package_id = self.package_id_for(package, source);
        let with_version = with_package.version_resolved(package_id, version);
        let version_id = with_package.version_id_for(package_id, version);
        with_version.with_installation(version_id, install_text(), timestamp)
    }

    /// What tracking wrote, on the inputs on which tracking succeeds.
    pub open spec fn receipt(
        self,
        source: Seq<char>,
        package: Seq<char>,
        version: Seq<char>,
    ) -> TrackReceipt {
        let package_id = self.package_id_for(package, source);
        TrackReceipt {
            package_id: package_id as i64,
            package_created: self.package_at(package, source) is None,
            version_id: self.version_id_for(package_id, version) as i64,
            version_created: self.version_at(package_id, version) is None,
            installation_id: self.next_installation_id() as i64,
        }
    }
}

/// Whether tracking succeeds on a store with these rows, and the error where
/// it does not.
pub open spec fn track_outcome(
    ready: bool,
    in_transaction: bool,
    store: Store,
    source: Seq<char>,
    package: Seq<char>,
    version: Seq<char>,
) -> Result<(), TrackError> {
    if !ready {
        Err(TrackError::Storage(StorageError::SchemaMissing))
    } else if in_transaction {
        Err(TrackError::Storage(StorageError::TransactionOpen))
    } else if store.package_at(package, source) is None && store.next_package_id() > i64::MAX {
        Err(TrackError::Storage(StorageError::RowIdsExhausted))
    } else if store.version_at(store.package_id_for(package, source), version) is None
        && store.next_version_id() > i64::MAX {
        Err(TrackError::Storage(StorageError::RowIdsExhausted))
    } else if store.next_installation_id() > i64::MAX {
        Err(TrackError::Storage(StorageError::RowIdsExhausted))
    } else {
        Ok(())
    }
}

/// Ends the open transaction by putting the savepoint back, and hands the
/// error on.
fn give_up(repo: &mut Repository, error: TrackError) -> (out: Result<TrackReceipt, TrackError>)
    requires
        old(repo).wf(),
        old(repo).in_transaction(),
    ensures
        final(repo).wf(),
        final(repo)@ == old(repo).savepoint(),
        final(repo).ready() == old(repo).ready(),
        !final(repo).in_transaction(),
        out == Err::<TrackReceipt, TrackError>(error),
{
    let _ = repo.rollback();
    Err(error)
}

/// Tracks that `version` of `package` from `source` was installed at
/// `timestamp`: finds or creates the package, finds or creates the version
/// under it, and appends an `install` to the log. The three writes are one
/// transaction: on any failure the rows are as they were.
pub fn track_package(
    repo: &mut Repository,
    source: &str,
    package: &str,
    version: &str,
    timestamp: &str,
    description: Option<&str>,
) -> (out: Result<TrackReceipt, TrackError>)
    requires
        old(repo).wf(),
    ensures
        final(repo).wf(),
        final(repo).frame_kept(old(repo)),
        out is Ok <==> track_outcome(
            old(repo).ready(),
            old(repo).in_transaction(),
            old(repo)@,
            source@,
            package@,
            version@,
        ) is Ok,
        out is Err ==> final(repo)@ == old(repo)@ && Err::<(), TrackError>(out->Err_0)
            == track_outcome(
            old(repo).ready(),
            old(repo).in_transaction(),
            old(repo)@,
            source@,
            package@,
            version@,
        ),
        out is Ok ==> final(repo)@ == old(repo)@.after_track(
            source@,
            package@,
            version@,
            timestamp@,
            opt_str_text(description),
        ) && out->Ok_0 == old(repo)@.receipt(source@, package@, version@),
{
    let ghost start = repo@;
    match repo.begin() {
        Err(e) => {
            return Err(e);
        },
        Ok(_) => {},
    }
    proof {
        repo.lemma_wf();
        repo.lemma_ids_fit();
        start.lemma_package_at(package@, source@);
    }
    let (package_id, package_created) = match insert_package(repo, package, source, description) {
        Ok(id) => (id, true),
        Err(TrackError::Duplicate(DuplicateError::Package(id))) => (id, false),
        Err(e) => {
            return give_up(repo, e);
        },
    };
    let ghost middle = repo@;
    proof {
        assert(middle == start.package_resolved(package@, source@, opt_str_text(description)));
        assert(package_id == start.package_id_for(package@, source@));
        if package_created {
            assert(middle.packages[start.packages.len() as int].id == package_id);
        }
        assert(middle.has_package(package_id as int));
        repo.lemma_wf();
        repo.lemma_ids_fit();
        middle.lemma_version_at(package_id as int, version@);
        start.lemma_version_at(package_id as int, version@);
    }
    let (version_id, version_created) = match insert_package_version(repo, package_id, version) {
        Ok(id) => (id, true),
        Err(TrackError::Duplicate(DuplicateError::Version(id))) => (id, false),
        Err(e) => {
            return give_up(repo, e);
        },
    };
    let ghost late = repo@;
    proof {
        assert(late == middle.version_resolved(package_id as int, version@));
        assert(version_id == middle.version_id_for(package_id as int, version@));
        if version_created {
            assert(late.versions[middle.versions.len() as int].id == version_id);
        }
        assert(late.has_version(version_id as int));
        reveal_strlit("install");
        assert("install"@ =~= install_text());
    }
    let installation_id = match log_installation(repo, version_id, "install", timestamp) {
        Ok(id) => id,
        Err(e) => {
            return give_up(repo, e);
        },
    };
    let _ = repo.commit();
    Ok(TrackReceipt { package_id, package_created, version_id, version_created, installation_id })
}

} // verus!
