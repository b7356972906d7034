//! The repository: the rows of the store, whether its tables exist, and the
//! rows to go back to while a transaction is open.
use vstd::prelude::*;
use crate::error::{StorageError, TrackError};
use crate::models::is_supported_action;
use crate::rows::{
    check_id, check_ids, check_keys, copy_rows, copy_rows_from, holds_id, views, Installation, Package, PackageTag,
    PackageVersion, Tag,
};
use crate::store::{empty_store, is_action, Store};

verus! {

/// The five tables.
pub struct Tables {
    packages: Vec<Package>,
    versions: Vec<PackageVersion>,
    installations: Vec<Installation>,
    tags: Vec<Tag>,
    package_tags: Vec<PackageTag>,
}

impl View for Tables {
    type V = Store;

    closed spec fn view(&self) -> Store {
        Store {
            packages: views(self.packages@),
            versions: views(self.versions@),
            installations: views(self.installations@),
            tags: views(self.tags@),
            package_tags: views(self.package_tags@),
        }
    }
}

impl Tables {
    /// Tables without rows.
    pub fn new() -> (out: Tables)
        ensures
            out@ == empty_store(),
    {
        let out = Tables {
            packages: Vec::new(),
            versions: Vec::new(),
            installations: Vec::new(),
            tags: Vec::new(),
            package_tags: Vec::new(),
        };
        proof {
            assert(out@.packages =~= Seq::empty());
            assert(out@.versions =~= Seq::empty());
            assert(out@.installations =~= Seq::empty());
            assert(out@.tags =~= Seq::empty());
            assert(out@.package_tags =~= Seq::empty());
        }
        out
    }

    /// A copy of the tables, row for row.
    pub fn duplicate(&self) -> (out: Tables)
        ensures
            out@ == self@,
    {
        Tables {
            packages: copy_rows(&self.packages),
            versions: copy_rows(&self.versions),
            installations: copy_rows(&self.installations),
            tags: copy_rows(&self.tags),
            package_tags: copy_rows(&self.package_tags),
        }
    }
}

impl Tables {
    /// Whether every reference from one table into another names a row that
    /// is there.
    fn check_references(&self) -> (out: bool)
        ensures
            out == self@.references_hold(),
    {
        let ghost store = self@;
        proof {
            store.lemma_rules_by_table();
        }
        let mut i: usize = 0;
        while i < self.versions.len()
            invariant
                i <= self.versions.len(),
                store == self@,
                forall|id: int| store.has_package(id) <==> holds_id::<Package>(store.packages, id),
                forall|a: int|
                    0 <= a < i ==> store.has_package((#[trigger] store.versions[a]).package_id),
            decreases self.versions.len() - i,
        {
            assert(store.versions[i as int] == self.versions@[i as int]@);
            if !check_id(&self.packages, self.versions[i].package_id) {
                return false;
            }
            i += 1;
        }
        i = 0;
        while i < self.installations.len()
            invariant
                i <= self.installations.len(),
                store == self@,
                forall|id: int|
                    store.has_version(id) <==> holds_id::<PackageVersion>(store.versions, id),
                forall|a: int|
                    0 <= a < store.versions.len() ==> store.has_package(
                        (#[trigger] store.versions[a]).package_id,
                    ),
                forall|a: int|
                    0 <= a < i ==> store.has_version(
                        (#[trigger] store.installations[a]).version_id,
                    ),
            decreases self.installations.len() - i,
        {
            assert(store.installations[i as int] == self.installations@[i as int]@);
            if !check_id(&self.versions, self.installations[i].version_id) {
                return false;
            }
            i += 1;
        }
        i = 0;
        while i < self.package_tags.len()
            invariant
                i <= self.package_tags.len(),
                store == self@,
                forall|a: int|
                    0 <= a < store.versions.len() ==> store.has_package(
                        (#[trigger] store.versions[a]).package_id,
                    ),
                forall|id: int| store.has_package(id) <==> holds_id::<Package>(store.packages, id),
                forall|id: int| store.has_tag(id) <==> holds_id::<Tag>(store.tags, id),
                forall|a: int|
                    0 <= a < store.installations.len() ==> store.has_version(
                        (#[trigger] store.installations[a]).version_id,
                    ),
                forall|a: int|
                    0 <= a < i ==> store.has_package(
                        (#[trigger] store.package_tags[a]).package_id,
                    ) && store.has_tag(store.package_tags[a].tag_id),
            decreases self.package_tags.len() - i,
        {
            assert(store.package_tags[i as int] == self.package_tags@[i as int]@);
            if !check_id(&self.packages, self.package_tags[i].package_id) {
                return false;
            }
            if !check_id(&self.tags, self.package_tags[i].tag_id) {
                return false;
            }
            i += 1;
        }
        true
    }

    /// Whether every installation carries an accepted action.
    fn check_actions(&self) -> (out: bool)
        ensures
            out == self@.actions_valid(),
    {
        let ghost store = self@;
        let mut i: usize = 0;
        while i < self.installations.len()
            invariant
                i <= self.installations.len(),
                store == self@,
                forall|a: int| 0 <= a < i ==> is_action((#[trigger] store.installations[a]).action),
            decreases self.installations.len() - i,
        {
            assert(store.installations[i as int] == self.installations@[i as int]@);
            if !is_supported_action(self.installations[i].action.as_str()) {
                return false;
            }
            i += 1;
        }
        true
    }

    /// Whether the rows obey the schema.
    pub fn check(&self) -> (out: bool)
        ensures
            out == self@.consistent(),
    {
        let ids = check_ids(&self.packages) && check_ids(&self.versions) && check_ids(
            &self.installations,
        ) && check_ids(&self.tags);
        let keys = check_keys(&self.packages) && check_keys(&self.versions) && check_keys(
            &self.tags,
        ) && check_keys(&self.package_tags);
        proof {
            self@.lemma_rules_by_table();
        }
        ids && keys && self.check_references() && self.check_actions()
    }
}

/// The store of the tracker.
pub struct Repository {
    ready: bool,
    tables: Tables,
    saved: Option<Tables>,
}

impl View for Repository {
    type V = Store;

    /// The rows as they stand.
    closed spec fn view(&self) -> Store {
        self.tables@
    }
}

impl Repository {
    /// Whether the tables have been created.
    pub closed spec fn ready(&self) -> bool {
        self.ready
    }

    /// Whether a transaction is open.
    pub closed spec fn in_transaction(&self) -> bool {
        self.saved is Some
    }

    /// The rows as they stood when the open transaction began.
    pub closed spec fn savepoint(&self) -> Store {
        self.saved->0@
    }

    /// The rows obey the schema, and so do the rows of the savepoint.
    pub closed spec fn wf(&self) -> bool {
        &&& self.tables@.consistent()
        &&& self.saved is Some ==> self.saved->0@.consistent()
        &&& !self.ready ==> self.tables@ == empty_store() && self.saved is None
    }

    /// What `wf` says of the rows.
    pub proof fn lemma_wf(&self)
        requires
            self.wf(),
        ensures
            self@.consistent(),
            self.in_transaction() ==> self.savepoint().consistent(),
            !self.ready() ==> self@ == empty_store() && !self.in_transaction(),
    {
    }

    /// Whether `self` differs from `before` in its rows at most: the tables
    /// exist as before, and a transaction is open as before, with the same
    /// savepoint.
    pub open spec fn frame_kept(&self, before: &Repository) -> bool {
        &&& self.ready() == before.ready()
        &&& self.in_transaction() == before.in_transaction()
        &&& self.in_transaction() ==> self.savepoint() == before.savepoint()
    }

    /// The ids of the rows are machine integers.
    pub proof fn lemma_ids_fit(&self)
        ensures
            self@.ids_fit(),
    {
    }

    /// A store without tables.
    pub fn new() -> (out: Repository)
        ensures
            out.wf(),
            !out.ready(),
            !out.in_transaction(),
            out@ == empty_store(),
    {
        Repository { ready: false, tables: Tables::new(), saved: None }
    }

    /// The packages, in the order of insertion.
    pub fn packages(&self) -> (out: &Vec<Package>)
        ensures
            views(out@) == self@.packages,
    {
        &self.tables.packages
    }

    /// The versions, in the order of insertion.
    pub fn versions(&self) -> (out: &Vec<PackageVersion>)
        ensures
            views(out@) == self@.versions,
    {
        &self.tables.versions
    }

    /// The installations, in the order of insertion.
    pub fn installations(&self) -> (out: &Vec<Installation>)
        ensures
            views(out@) == self@.installations,
    {
        &self.tables.installations
    }

    /// The tags, in the order of insertion.
    pub fn tags(&self) -> (out: &Vec<Tag>)
        ensures
            views(out@) == self@.tags,
    {
        &self.tables.tags
    }

    /// The attachments of tags to packages, in the order of insertion.
    pub fn package_tags(&self) -> (out: &Vec<PackageTag>)
        ensures
            views(out@) == self@.package_tags,
    {
        &self.tables.package_tags
    }

    /// Creates the tables.
    pub(crate) fn create_tables(&mut self)
        requires
            old(self).wf(),
        ensures
            final(self).wf(),
            final(self).ready(),
            final(self)@ == old(self)@,
            final(self).in_transaction() == old(self).in_transaction(),
            final(self).in_transaction() ==> final(self).savepoint() == old(self).savepoint(),
    {
        self.ready = true;
    }

    /// Appends a row to the packages.
    pub(crate) fn push_package(&mut self, row: Package)
        requires
            old(self).wf(),
            old(self).ready(),
            (Store { packages: old(self)@.packages.push(row@), ..old(self)@ }).consistent(),
        ensures
            final(self).wf(),
            final(self).frame_kept(old(self)),
            final(self)@ == (Store { packages: old(self)@.packages.push(row@), ..old(self)@ }),
    {
        let ghost before = self@;
        self.tables.packages.push(row);
        proof {
            assert(self@.packages =~= before.packages.push(row@));
        }
    }

    /// Appends a row to the versions.
    pub(crate) fn push_version(&mut self, row: PackageVersion)
        requires
            old(self).wf(),
            old(self).ready(),
            (Store { versions: old(self)@.versions.push(row@), ..old(self)@ }).consistent(),
        ensures
            final(self).wf(),
            final(self).frame_kept(old(self)),
            final(self)@ == (Store { versions: old(self)@.versions.push(row@), ..old(self)@ }),
    {
        let ghost before = self@;
        self.tables.versions.push(row);
        proof {
            assert(self@.versions =~= before.versions.push(row@));
        }
    }

    /// Appends a row to the installations.
    pub(crate) fn push_installation(&mut self, row: Installation)
        requires
            old(self).wf(),
            old(self).ready(),
            (Store {
                installations: old(self)@.installations.push(row@),
                ..old(self)@
            }).consistent(),
        ensures
            final(self).wf(),
            final(self).frame_kept(old(self)),
            final(self)@ == (Store {
                installations: old(self)@.installations.push(row@),
                ..old(self)@
            }),
    {
        let ghost before = self@;
        self.tables.installations.push(row);
        proof {
            assert(self@.installations =~= before.installations.push(row@));
        }
    }

    /// Appends a row to the tags.
    pub(crate) fn push_tag(&mut self, row: Tag)
        requires
            old(self).wf(),
            old(self).ready(),
            (Store { tags: old(self)@.tags.push(row@), ..old(self)@ }).consistent(),
        ensures
            final(self).wf(),
            final(self).frame_kept(old(self)),
            final(self)@ == (Store { tags: old(self)@.tags.push(row@), ..old(self)@ }),
    {
        let ghost before = self@;
        self.tables.tags.push(row);
        proof {
            assert(self@.tags =~= before.tags.push(row@));
        }
    }

    /// Appends a row to the attachments.
    pub(crate) fn push_package_tag(&mut self, row: PackageTag)
        requires
            old(self).wf(),
            old(self).ready(),
            (Store {
                package_tags: old(self)@.package_tags.push(row@),
                ..old(self)@
            }).consistent(),
        ensures
            final(self).wf(),
            final(self).frame_kept(old(self)),
            final(self)@ == (Store {
                package_tags: old(self)@.package_tags.push(row@),
                ..old(self)@
            }),
    {
        let ghost before = self@;
        self.tables.package_tags.push(row);
        proof {
            assert(self@.package_tags =~= before.package_tags.push(row@));
        }
    }

    /// Drops every row but the tags.
    pub(crate) fn drop_package_rows(&mut self)
        requires
            old(self).wf(),
            old(self).ready(),
        ensures
            final(self).wf(),
            final(self).frame_kept(old(self)),
            final(self)@ == old(self)@.cleared(),
    {
        let ghost before = self@;
        proof {
            before.lemma_cleared();
        }
        self.tables.packages = Vec::new();
        self.tables.versions = Vec::new();
        self.tables.installations = Vec::new();
        self.tables.package_tags = Vec::new();
        proof {
            assert(self@.packages =~= before.cleared().packages);
            assert(self@.versions =~= before.cleared().versions);
            assert(self@.installations =~= before.cleared().installations);
            assert(self@.package_tags =~= before.cleared().package_tags);
        }
    }

    /// Whether a transaction is open.
    pub fn is_in_transaction(&self) -> (out: bool)
        ensures
            out == self.in_transaction(),
    {
        self.saved.is_some()
    }

    /// Opens a transaction: the rows as they stand become the savepoint.
    /// Fails, and changes nothing, where the tables are missing or a
    /// transaction is open already.
    pub fn begin(&mut self) -> (out: Result<(), TrackError>)
        requires
            old(self).wf(),
        ensures
            final(self).wf(),
            final(self)@ == old(self)@,
            final(self).ready() == old(self).ready(),
            !old(self).ready() ==> out == Err::<(), TrackError>(
                TrackError::Storage(StorageError::SchemaMissing),
            ),
            old(self).ready() && old(self).in_transaction() ==> out == Err::<(), TrackError>(
                TrackError::Storage(StorageError::TransactionOpen),
            ),
            old(self).ready() && !old(self).in_transaction() ==> out is Ok,
            out is Ok ==> final(self).in_transaction() && final(self).savepoint() == old(self)@,
            out is Err ==> final(self).frame_kept(old(self)),
    {
        if !self.ready {
            return Err(TrackError::Storage(StorageError::SchemaMissing));
        }
        if self.saved.is_some() {
            return Err(TrackError::Storage(StorageError::TransactionOpen));
        }
        self.saved = Some(self.tables.duplicate());
        Ok(())
    }

    /// Closes the open transaction and keeps the rows as they stand. Fails,
    /// and changes nothing, where no transaction is open.
    pub fn commit(&mut self) -> (out: Result<(), TrackError>)
        requires
            old(self).wf(),
        ensures
            final(self).wf(),
            final(self)@ == old(self)@,
            final(self).ready() == old(self).ready(),
            !final(self).in_transaction(),
            old(self).in_transaction() ==> out is Ok,
            !old(self).in_transaction() ==> out == Err::<(), TrackError>(
                TrackError::Storage(StorageError::NoTransaction),
            ),
    {
        if self.saved.is_none() {
            return Err(TrackError::Storage(StorageError::NoTransaction));
        }
        self.saved = None;
        Ok(())
    }

    /// Closes the open transaction and puts the rows of the savepoint back.
    /// Fails, and changes nothing, where no transaction is open.
    pub fn rollback(&mut self) -> (out: Result<(), TrackError>)
        requires
            old(self).wf(),
        ensures
            final(self).wf(),
            final(self).ready() == old(self).ready(),
            !final(self).in_transaction(),
            old(self).in_transaction() ==> out is Ok && final(self)@ == old(self).savepoint(),
            !old(self).in_transaction() ==> final(self)@ == old(self)@ && out == Err::<
                (),
                TrackError,
            >(TrackError::Storage(StorageError::NoTransaction)),
    {
        match self.saved.take() {
            Some(rows) => {
                self.tables = rows;
                Ok(())
            },
            None => Err(TrackError::Storage(StorageError::NoTransaction)),
        }
    }

    /// The store that holds these rows, as they were read from where they
    /// are kept. Rows that break a rule of the schema are refused.
    pub fn from_tables(
        packages: Vec<Package>,
        versions: Vec<PackageVersion>,
        installations: Vec<Installation>,
        tags: Vec<Tag>,
        package_tags: Vec<PackageTag>,
    ) -> (out: Result<Repository, TrackError>)
        ensures
            ({
                let store = Store {
                    packages: views(packages@),
                    versions: views(versions@),
                    installations: views(installations@),
                    tags: views(tags@),
                    package_tags: views(package_tags@),
                };
                &&& store.consistent() ==> out is Ok && out->Ok_0@ == store && out->Ok_0.wf()
                    && out->Ok_0.ready() && !out->Ok_0.in_transaction()
                &&& !store.consistent() ==> out is Err && out->Err_0 == TrackError::Storage(
                    StorageError::Corrupt,
                )
            }),
    {
        let tables = Tables { packages, versions, installations, tags, package_tags };
        if tables.check() {
            Ok(Repository { ready: true, tables, saved: None })
        } else {
            Err(TrackError::Storage(StorageError::Corrupt))
        }
    }

    /// Whether the tables have been created.
    pub fn is_ready(&self) -> (out: bool)
        ensures
            out == self.ready(),
    {
        self.ready
    }
}

/// How many rows each table held at some moment.
#[derive(Debug, Clone, Copy, PartialEq, Eq, Structural)]
pub struct Marks {
    pub packages: usize,
    pub versions: usize,
    pub installations: usize,
    pub tags: usize,
    pub package_tags: usize,
}

/// The rows that the tables have gained since some moment, for whoever keeps
/// a copy of the store elsewhere.
#[derive(Debug, PartialEq, Eq)]
pub struct Changes {
    pub packages: Vec<Package>,
    pub versions: Vec<PackageVersion>,
    pub installations: Vec<Installation>,
    pub tags: Vec<Tag>,
    pub package_tags: Vec<PackageTag>,
}

/// A mark, or the length of the table where the table has shrunk below it.
pub open spec fn mark_within(mark: usize, len: nat) -> int {
    if mark <= len {
        mark as int
    } else {
        len as int
    }
}

impl Repository {
    /// How many rows each table holds.
    pub fn marks(&self) -> (out: Marks)
        ensures
            out.packages == self@.packages.len(),
            out.versions == self@.versions.len(),
            out.installations == self@.installations.len(),
            out.tags == self@.tags.len(),
            out.package_tags == self@.package_tags.len(),
    {
        Marks {
            packages: self.tables.packages.len(),
            versions: self.tables.versions.len(),
            installations: self.tables.installations.len(),
            tags: self.tables.tags.len(),
            package_tags: self.tables.package_tags.len(),
        }
    }

    /// The rows behind the marks: those that each table has gained since the
    /// marks were taken, in the order of insertion.
    pub fn written_since(&self, marks: &Marks) -> (out: Changes)
        ensures
            views(out.packages@) == self@.packages.skip(
                mark_within(marks.packages, self@.packages.len()),
            ),
            views(out.versions@) == self@.versions.skip(
                mark_within(marks.versions, self@.versions.len()),
            ),
            views(out.installations@) == self@.installations.skip(
                mark_within(marks.installations, self@.installations.len()),
            ),
            views(out.tags@) == self@.tags.skip(mark_within(marks.tags, self@.tags.len())),
            views(out.package_tags@) == self@.package_tags.skip(
                mark_within(marks.package_tags, self@.package_tags.len()),
            ),
    {
        Changes {
            packages: copy_rows_from(&self.tables.packages, marks.packages),
            versions: copy_rows_from(&self.tables.versions, marks.versions),
            installations: copy_rows_from(&self.tables.installations, marks.installations),
            tags: copy_rows_from(&self.tables.tags, marks.tags),
            package_tags: copy_rows_from(&self.tables.package_tags, marks.package_tags),
        }
    }
}

/// Whether `begun` is `repo` with a transaction opened on it.
pub open spec fn begun_from(begun: Repository, repo: Repository) -> bool {
    &&& begun.wf()
    &&& begun.ready()
    &&& begun.in_transaction()
    &&& begun@ == repo@
    &&& begun.savepoint() == repo@
}

/// Runs `work` as one transaction: opens it, hands the store to `work`, and
/// commits where `work` succeeds. Where `work` fails, the rows go back to
/// what they were, and the failure is handed on. `work` must leave the
/// transaction open.
pub fn with_transaction<T, F: FnOnce(Repository) -> (Repository, Result<T, TrackError>)>(
    repo: Repository,
    work: F,
) -> (out: (Repository, Result<T, TrackError>))
    requires
        repo.wf(),
        forall|begun: Repository| begun_from(begun, repo) ==> work.requires((begun,)),
        forall|begun: Repository, done: (Repository, Result<T, TrackError>)|
            begun_from(begun, repo) && work.ensures((begun,), done) ==> done.0.wf()
                && done.0.ready() && done.0.in_transaction() && done.0.savepoint() == repo@,
    ensures
        out.0.wf(),
        out.0.ready() == repo.ready(),
        !repo.ready() ==> out.0@ == repo@ && out.0.frame_kept(&repo) && out.1 == Err::<
            T,
            TrackError,
        >(TrackError::Storage(StorageError::SchemaMissing)),
        repo.ready() && repo.in_transaction() ==> out.0@ == repo@ && out.0.frame_kept(&repo)
            && out.1 == Err::<T, TrackError>(TrackError::Storage(StorageError::TransactionOpen)),
        repo.ready() && !repo.in_transaction() ==> !out.0.in_transaction() && exists|
            begun: Repository,
            done: (Repository, Result<T, TrackError>),
        |
            #![trigger work.ensures((begun,), done)]
            begun_from(begun, repo) && work.ensures((begun,), done) && out.1 == done.1 && out.0@
                == (if done.1 is Ok {
                done.0@
            } else {
                repo@
            }),
{
    let mut begun = repo;
    match begun.begin() {
        Err(e) => {
            return (begun, Err(e));
        },
        Ok(_) => {},
    }
    let ghost handed = begun;
    assert(begun_from(begun, repo));
    let (mut done, result) = work(begun);
    assert(work.ensures((handed,), (done, result)));
    match result {
        Ok(value) => {
            let _ = done.commit();
            (done, Ok(value))
        },
        Err(e) => {
            let _ = done.rollback();
            (done, Err(e))
        },
    }
}

} // verus!
