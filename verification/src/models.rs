//! Writes to the store. Each one checks the rules of the schema first and
//! leaves the rows untouched where it fails.
use vstd::prelude::*;
use crate::clock::{utc_text, Timestamp};
use crate::error::{DuplicateError, StorageError, TrackError, ValidationError};
use crate::repository::Repository;
use crate::rows::{
    check_id, next_row_id, opt_str_text, own_opt, views, Installation, Package, PackageTag, PackageVersion, Tag,
};
use crate::store::{install_text, is_action, uninstall_text, Store};
use crate::text::same_text;

verus! {

/// Creates the tables where they do not exist yet. Rows that are there stay.
pub fn init_db(repo: &mut Repository) -> (out: Result<(), TrackError>)
    requires
        old(repo).wf(),
    ensures
        out is Ok,
        final(repo).wf(),
        final(repo).ready(),
        final(repo)@ == old(repo)@,
        final(repo).in_transaction() == old(repo).in_transaction(),
        final(repo).in_transaction() ==> final(repo).savepoint() == old(repo).savepoint(),
{
    repo.create_tables();
    Ok(())
}

/// The id of the package with this name and source, if the store has one.
pub fn find_package(repo: &Repository, package_name: &str, source: &str) -> (out: Option<i64>)
    ensures
        match repo@.package_at(package_name@, source@) {
            Some(i) => out == Some(repo@.packages[i].id as i64),
            None => out is None,
        },
{
    let rows = repo.packages();
    let mut i: usize = 0;
    while i < rows.len()
        invariant
            i <= rows.len(),
            repo@.packages == views(rows@),
            forall|j: int|
                0 <= j < i ==> !((#[trigger] repo@.packages[j]).name == package_name@
                    && repo@.packages[j].source == source@),
        decreases rows.len() - i,
    {
        let row = &rows[i];
        assert(repo@.packages[i as int] == row@);
        if same_text(row.package_name.as_str(), package_name) && same_text(
            row.source.as_str(),
            source,
        ) {
            proof {
                repo@.lemma_package_at(package_name@, source@);
            }
            return Some(row.package_id);
        }
        i += 1;
    }
    proof {
        repo@.lemma_package_at(package_name@, source@);
    }
    None
}

/// What `insert_package` answers on a store with these rows.
pub open spec fn insert_package_outcome(
    ready: bool,
    store: Store,
    package_name: Seq<char>,
    source: Seq<char>,
) -> Result<i64, TrackError> {
    if !ready {
        Err(TrackError::Storage(StorageError::SchemaMissing))
    } else if store.package_at(package_name, source) is Some {
        Err(
            TrackError::Duplicate(
                DuplicateError::Package(
                    store.packages[store.package_at(package_name, source)->0].id as i64,
                ),
            ),
        )
    } else if store.next_package_id() > i64::MAX {
        Err(TrackError::Storage(StorageError::RowIdsExhausted))
    } else {
        Ok(store.next_package_id() as i64)
    }
}

/// Adds a package and returns its id. A package with the same name and
/// source is a duplicate: the error carries the id of the one that is there.
pub fn insert_package(
    repo: &mut Repository,
    package_name: &str,
    source: &str,
    description: Option<&str>,
) -> (out: Result<i64, TrackError>)
    requires
        old(repo).wf(),
    ensures
        final(repo).wf(),
        final(repo).frame_kept(old(repo)),
        out == insert_package_outcome(old(repo).ready(), old(repo)@, package_name@, source@),
        out is Ok ==> final(repo)@ == old(repo)@.with_package(
            package_name@,
            source@,
            opt_str_text(description),
        ),
        out is Err ==> final(repo)@ == old(repo)@,
{
    if !repo.is_ready() {
        return Err(TrackError::Storage(StorageError::SchemaMissing));
    }
    match find_package(repo, package_name, source) {
        Some(id) => {
            return Err(TrackError::Duplicate(DuplicateError::Package(id)));
        },
        None => {},
    }
    let id = match next_row_id(repo.packages()) {
        Some(id) => id,
        None => {
            return Err(TrackError::Storage(StorageError::RowIdsExhausted));
        },
    };
    let row = Package {
        package_id: id,
        package_name: package_name.to_owned(),
        source: source.to_owned(),
        description: own_opt(description),
    };
    proof {
        repo.lemma_wf();
        repo@.lemma_with_package(package_name@, source@, opt_str_text(description));
    }
    repo.push_package(row);
    Ok(id)
}

/// Whether a package has this id.
pub fn has_package_id(repo: &Repository, package_id: i64) -> (out: bool)
    ensures
        out == repo@.has_package(package_id as int),
{
    proof {
        repo@.lemma_rules_by_table();
    }
    check_id(repo.packages(), package_id)
}

/// Whether a version has this id.
pub fn has_version_id(repo: &Repository, version_id: i64) -> (out: bool)
    ensures
        out == repo@.has_version(version_id as int),
{
    proof {
        repo@.lemma_rules_by_table();
    }
    check_id(repo.versions(), version_id)
}

/// The id of this version of this package, if the store has it.
pub fn find_version(repo: &Repository, package_id: i64, version: &str) -> (out: Option<i64>)
    ensures
        match repo@.version_at(package_id as int, version@) {
            Some(i) => out == Some(repo@.versions[i].id as i64),
            None => out is None,
        },
{
    let rows = repo.versions();
    let mut i: usize = 0;
    while i < rows.len()
        invariant
            i <= rows.len(),
            repo@.versions == views(rows@),
            forall|j: int|
                0 <= j < i ==> !((#[trigger] repo@.versions[j]).package_id == package_id
                    && repo@.versions[j].version == version@),
        decreases rows.len() - i,
    {
        let row = &rows[i];
        assert(repo@.versions[i as int] == row@);
        if row.package_id == package_id && same_text(row.version.as_str(), version) {
            proof {
                repo@.lemma_version_at(package_id as int, version@);
            }
            return Some(row.version_id);
        }
        i += 1;
    }
    proof {
        repo@.lemma_version_at(package_id as int, version@);
    }
    None
}

/// The id of the tag with this name, if the store has one.
pub fn find_tag(repo: &Repository, tag_name: &str) -> (out: Option<i64>)
    ensures
        match repo@.tag_at(tag_name@) {
            Some(i) => out == Some(repo@.tags[i].id as i64),
            None => out is None,
        },
{
    let rows = repo.tags();
    let mut i: usize = 0;
    while i < rows.len()
        invariant
            i <= rows.len(),
            repo@.tags == views(rows@),
            forall|j: int| 0 <= j < i ==> (#[trigger] repo@.tags[j]).name != tag_name@,
        decreases rows.len() - i,
    {
        let row = &rows[i];
        assert(repo@.tags[i as int] == row@);
        if same_text(row.tag_name.as_str(), tag_name) {
            proof {
                repo@.lemma_tag_at(tag_name@);
            }
            return Some(row.tag_id);
        }
        i += 1;
    }
    proof {
        repo@.lemma_tag_at(tag_name@);
    }
    None
}

/// Whether this tag is attached to this package.
pub fn is_attached(repo: &Repository, package_id: i64, tag_id: i64) -> (out: bool)
    ensures
        out == repo@.attachment_at(package_id as int, tag_id as int) is Some,
{
    let rows = repo.package_tags();
    let mut i: usize = 0;
    while i < rows.len()
        invariant
            i <= rows.len(),
            repo@.package_tags == views(rows@),
            forall|j: int|
                0 <= j < i ==> !((#[trigger] repo@.package_tags[j]).package_id == package_id
                    && repo@.package_tags[j].tag_id == tag_id),
        decreases rows.len() - i,
    {
        let row = &rows[i];
        assert(repo@.package_tags[i as int] == row@);
        if row.package_id == package_id && row.tag_id == tag_id {
            proof {
                repo@.lemma_attachment_at(package_id as int, tag_id as int);
            }
            return true;
        }
        i += 1;
    }
    proof {
        repo@.lemma_attachment_at(package_id as int, tag_id as int);
    }
    false
}

/// What `insert_package_version` answers on a store with these rows.
pub open spec fn insert_version_outcome(
    ready: bool,
    store: Store,
    package_id: int,
    version: Seq<char>,
) -> Result<i64, TrackError> {
    if !ready {
        Err(TrackError::Storage(StorageError::SchemaMissing))
    } else if !store.has_package(package_id) {
        Err(TrackError::Storage(StorageError::UnknownPackage))
    } else if store.version_at(package_id, version) is Some {
        Err(
            TrackError::Duplicate(
                DuplicateError::Version(
                    store.versions[store.version_at(package_id, version)->0].id as i64,
                ),
            ),
        )
    } else if store.next_version_id() > i64::MAX {
        Err(TrackError::Storage(StorageError::RowIdsExhausted))
    } else {
        Ok(store.next_version_id() as i64)
    }
}

/// Adds a version to a package and returns the version's id. The package
/// must be there. A version that the package has already is a duplicate: the
/// error carries the id of the one that is there.
pub fn insert_package_version(repo: &mut Repository, package_id: i64, version: &str) -> (out:
    Result<i64, TrackError>)
    requires
        old(repo).wf(),
    ensures
        final(repo).wf(),
        final(repo).frame_kept(old(repo)),
        out == insert_version_outcome(
            old(repo).ready(),
            old(repo)@,
            package_id as int,
            version@,
        ),
        out is Ok ==> final(repo)@ == old(repo)@.with_version(package_id as int, version@),
        out is Err ==> final(repo)@ == old(repo)@,
{
    if !repo.is_ready() {
        return Err(TrackError::Storage(StorageError::SchemaMissing));
    }
    if !has_package_id(repo, package_id) {
        return Err(TrackError::Storage(StorageError::UnknownPackage));
    }
    match find_version(repo, package_id, version) {
        Some(id) => {
            return Err(TrackError::Duplicate(DuplicateError::Version(id)));
        },
        None => {},
    }
    let id = match next_row_id(repo.versions()) {
        Some(id) => id,
        None => {
            return Err(TrackError::Storage(StorageError::RowIdsExhausted));
        },
    };
    let row = PackageVersion { version_id: id, package_id, version: version.to_owned() };
    proof {
        repo.lemma_wf();
        repo@.lemma_with_version(package_id as int, version@);
    }
    repo.push_version(row);
    Ok(id)
}

/// Whether `action` is one of the two that the store accepts.
pub fn is_supported_action(action: &str) -> (out: bool)
    ensures
        out == is_action(action@),
{
    proof {
        reveal_strlit("install");
        reveal_strlit("uninstall");
        assert("install"@ =~= install_text());
        assert("uninstall"@ =~= uninstall_text());
    }
    same_text(action, "install") || same_text(action, "uninstall")
}

/// What `log_installation` answers on a store with these rows.
pub open spec fn log_installation_outcome(
    ready: bool,
    store: Store,
    version_id: int,
    action: Seq<char>,
) -> Result<i64, TrackError> {
    if !is_action(action) {
        Err(TrackError::Validation(ValidationError::UnsupportedAction))
    } else if !ready {
        Err(TrackError::Storage(StorageError::SchemaMissing))
    } else if !store.has_version(version_id) {
        Err(TrackError::Storage(StorageError::UnknownVersion))
    } else if store.next_installation_id() > i64::MAX {
        Err(TrackError::Storage(StorageError::RowIdsExhausted))
    } else {
        Ok(store.next_installation_id() as i64)
    }
}

/// Logs an action on a version at an instant that is given as text, and
/// returns the id of the new row. No row is ever replaced: the log only grows.
pub fn log_installation(
    repo: &mut Repository,
    version_id: i64,
    action: &str,
    timestamp: &str,
) -> (out: Result<i64, TrackError>)
    requires
        old(repo).wf(),
    ensures
        final(repo).wf(),
        final(repo).frame_kept(old(repo)),
        out == log_installation_outcome(
            old(repo).ready(),
            old(repo)@,
            version_id as int,
            action@,
        ),
        out is Ok ==> final(repo)@ == old(repo)@.with_installation(
            version_id as int,
            action@,
            timestamp@,
        ),
        out is Err ==> final(repo)@ == old(repo)@,
{
    if !is_supported_action(action) {
        return Err(TrackError::Validation(ValidationError::UnsupportedAction));
    }
    if !repo.is_ready() {
        return Err(TrackError::Storage(StorageError::SchemaMissing));
    }
    if !has_version_id(repo, version_id) {
        return Err(TrackError::Storage(StorageError::UnknownVersion));
    }
    let id = match next_row_id(repo.installations()) {
        Some(id) => id,
        None => {
            return Err(TrackError::Storage(StorageError::RowIdsExhausted));
        },
    };
    let row = Installation {
        installation_id: id,
        version_id,
        action: action.to_owned(),
        timestamp: timestamp.to_owned(),
    };
    proof {
        repo.lemma_wf();
        repo@.lemma_with_installation(version_id as int, action@, timestamp@);
    }
    repo.push_installation(row);
    Ok(id)
}

/// What `insert_installation` answers on a store with these rows.
pub open spec fn insert_installation_outcome(
    ready: bool,
    store: Store,
    version_id: int,
    action: Seq<char>,
    timestamp: Timestamp,
) -> Result<(), TrackError> {
    if utc_text(timestamp.seconds, timestamp.nanos) is None {
        Err(TrackError::Validation(ValidationError::TimestampOutOfRange))
    } else {
        match log_installation_outcome(ready, store, version_id, action) {
            Ok(_) => Ok(()),
            Err(e) => Err(e),
        }
    }
}

/// Logs an action on a version at an instant. The store keeps the instant as
/// the text that the calendar gives for it.
pub fn insert_installation(
    repo: &mut Repository,
    version_id: i64,
    action: &str,
    timestamp: Timestamp,
) -> (out: Result<(), TrackError>)
    requires
        old(repo).wf(),
    ensures
        final(repo).wf(),
        final(repo).frame_kept(old(repo)),
        out == insert_installation_outcome(
            old(repo).ready(),
            old(repo)@,
            version_id as int,
            action@,
            timestamp,
        ),
        out is Ok ==> final(repo)@ == old(repo)@.with_installation(
            version_id as int,
            action@,
            utc_text(timestamp.seconds, timestamp.nanos)->0,
        ),
        out is Err ==> final(repo)@ == old(repo)@,
{
    match timestamp.to_text() {
        None => Err(TrackError::Validation(ValidationError::TimestampOutOfRange)),
        Some(text) => match log_installation(repo, version_id, action, text.as_str()) {
            Ok(_) => Ok(()),
            Err(e) => Err(e),
        },
    }
}

/// The store after `tag_name` has been attached to a package: the tag is
/// created where no tag has the name, and nothing changes where the package
/// carries the tag already.
pub open spec fn attached(store: Store, package_id: int, tag_name: Seq<char>) -> Store {
    match store.tag_at(tag_name) {
        Some(i) => if store.attachment_at(package_id, store.tags[i].id) is Some {
            store
        } else {
            store.with_attachment(package_id, store.tags[i].id)
        },
        None => store.with_tag(tag_name).with_attachment(package_id, store.next_tag_id()),
    }
}

/// What `attach_tag` answers on a store with these rows.
pub open spec fn attach_tag_outcome(
    ready: bool,
    store: Store,
    package_id: int,
    tag_name: Seq<char>,
) -> Result<(), TrackError> {
    if !ready {
        Err(TrackError::Storage(StorageError::SchemaMissing))
    } else if !store.has_package(package_id) {
        Err(TrackError::Storage(StorageError::UnknownPackage))
    } else if store.tag_at(tag_name) is None && store.next_tag_id() > i64::MAX {
        Err(TrackError::Storage(StorageError::RowIdsExhausted))
    } else {
        Ok(())
    }
}

/// Attaches a tag to a package. The tag is created where it is new. To attach
/// a tag twice is no error and changes nothing.
pub fn attach_tag(repo: &mut Repository, package_id: i64, tag_name: &str) -> (out: Result<
    (),
    TrackError,
>)
    requires
        old(repo).wf(),
    ensures
        final(repo).wf(),
        final(repo).frame_kept(old(repo)),
        out == attach_tag_outcome(old(repo).ready(), old(repo)@, package_id as int, tag_name@),
        out is Ok ==> final(repo)@ == attached(old(repo)@, package_id as int, tag_name@),
        out is Err ==> final(repo)@ == old(repo)@,
{
    if !repo.is_ready() {
        return Err(TrackError::Storage(StorageError::SchemaMissing));
    }
    if !has_package_id(repo, package_id) {
        return Err(TrackError::Storage(StorageError::UnknownPackage));
    }
    let ghost before = repo@;
    proof {
        repo.lemma_wf();
        repo.lemma_ids_fit();
        before.lemma_tag_at(tag_name@);
    }
    match find_tag(repo, tag_name) {
        Some(tag_id) => {
            if !is_attached(repo, package_id, tag_id) {
                proof {
                    let i = before.tag_at(tag_name@)->0;
                    assert(before.tags[i].id == tag_id);
                    before.lemma_with_attachment(package_id as int, tag_id as int);
                }
                repo.push_package_tag(PackageTag { package_id, tag_id });
            }
            Ok(())
        },
        None => {
            let tag_id = match next_row_id(repo.tags()) {
                Some(id) => id,
                None => {
                    return Err(TrackError::Storage(StorageError::RowIdsExhausted));
                },
            };
            proof {
                before.lemma_with_tag(tag_name@);
            }
            repo.push_tag(Tag { tag_id, tag_name: tag_name.to_owned() });
            proof {
                let middle = before.with_tag(tag_name@);
                assert(repo@ == middle);
                before.lemma_attachment_none(package_id as int, tag_id as int);
                middle.lemma_with_attachment(package_id as int, tag_id as int);
            }
            repo.push_package_tag(PackageTag { package_id, tag_id });
            Ok(())
        },
    }
}

/// Deletes every package and all that hangs on one: its versions, their
/// installations, and the attachments of tags. The tags themselves stay.
pub fn clear_packages_table(repo: &mut Repository) -> (out: Result<(), TrackError>)
    requires
        old(repo).wf(),
    ensures
        final(repo).wf(),
        final(repo).frame_kept(old(repo)),
        old(repo).ready() ==> out is Ok && final(repo)@ == old(repo)@.cleared(),
        !old(repo).ready() ==> final(repo)@ == old(repo)@ && out == Err::<(), TrackError>(
            TrackError::Storage(StorageError::SchemaMissing),
        ),
{
    if !repo.is_ready() {
        return Err(TrackError::Storage(StorageError::SchemaMissing));
    }
    repo.drop_package_rows();
    Ok(())
}

} // verus!
