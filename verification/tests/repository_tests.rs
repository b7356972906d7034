use forget_me_not::clock::Timestamp;
use forget_me_not::error::{DuplicateError, StorageError, TrackError, ValidationError};
use forget_me_not::listing::{get_all_package_data, get_all_packages, PackageData};
use forget_me_not::models::{
    attach_tag, clear_packages_table, find_package, find_tag, find_version, init_db,
    insert_installation, insert_package, insert_package_version, log_installation,
};
use forget_me_not::repository::{with_transaction, Repository};
use forget_me_not::rows::{Installation, Package, PackageTag, PackageVersion, Tag};

const T1: &str = "2025-08-15 10:00:00 UTC";
const T2: &str = "2025-08-16 10:00:00 UTC";
const T3: &str = "2025-08-17 10:00:00 UTC";

fn ready() -> Repository {
    let mut repo = Repository::new();
    assert_eq!(init_db(&mut repo), Ok(()));
    repo
}

fn listing(repo: &Repository) -> Vec<PackageData> {
    get_all_package_data(repo).unwrap()
}

fn tokens(column: &str) -> Vec<&str> {
    if column.is_empty() {
        Vec::new()
    } else {
        column.split(',').collect()
    }
}

#[test]
fn nothing_works_before_the_tables_exist() {
    let mut repo = Repository::new();
    let missing = TrackError::Storage(StorageError::SchemaMissing);
    assert_eq!(repo.is_ready(), false);
    assert_eq!(insert_package(&mut repo, "vim", "apt", None), Err(missing));
    assert_eq!(insert_package_version(&mut repo, 1, "9.0"), Err(missing));
    assert_eq!(log_installation(&mut repo, 1, "install", T1), Err(missing));
    assert_eq!(attach_tag(&mut repo, 1, "editor"), Err(missing));
    assert_eq!(clear_packages_table(&mut repo), Err(missing));
    assert_eq!(get_all_package_data(&repo), Err(missing));
    assert_eq!(get_all_packages(&repo), Err(missing));
    assert_eq!(repo.begin(), Err(missing));
}

#[test]
fn creating_the_tables_twice_keeps_the_rows() {
    let mut repo = ready();
    assert_eq!(insert_package(&mut repo, "vim", "apt", Some("an editor")), Ok(1));
    assert_eq!(init_db(&mut repo), Ok(()));
    assert_eq!(repo.is_ready(), true);
    assert_eq!(
        get_all_packages(&repo).unwrap(),
        vec![Package {
            package_id: 1,
            package_name: "vim".to_string(),
            source: "apt".to_string(),
            description: Some("an editor".to_string()),
        }]
    );
}

#[test]
fn same_name_and_source_twice_is_a_duplicate() {
    let mut repo = ready();
    assert_eq!(insert_package(&mut repo, "firefox", "apt", None), Ok(1));
    assert_eq!(
        insert_package(&mut repo, "firefox", "apt", Some("again")),
        Err(TrackError::Duplicate(DuplicateError::Package(1)))
    );
    assert_eq!(repo.packages().len(), 1);
    assert_eq!(repo.packages()[0].description, None);
}

#[test]
fn same_name_from_another_source_is_another_package() {
    let mut repo = ready();
    assert_eq!(insert_package(&mut repo, "firefox", "apt", None), Ok(1));
    assert_eq!(insert_package(&mut repo, "firefox", "flatpak", None), Ok(2));
    assert_eq!(insert_package(&mut repo, "Firefox", "apt", None), Ok(3));
    assert_eq!(find_package(&repo, "firefox", "flatpak"), Some(2));
    assert_eq!(find_package(&repo, "firefox", "brew"), None);
}

#[test]
fn versions_are_unique_within_their_package() {
    let mut repo = ready();
    let vim = insert_package(&mut repo, "vim", "apt", None).unwrap();
    let nano = insert_package(&mut repo, "nano", "apt", None).unwrap();
    assert_eq!(insert_package_version(&mut repo, vim, "9.0"), Ok(1));
    assert_eq!(insert_package_version(&mut repo, nano, "9.0"), Ok(2));
    assert_eq!(
        insert_package_version(&mut repo, vim, "9.0"),
        Err(TrackError::Duplicate(DuplicateError::Version(1)))
    );
    assert_eq!(insert_package_version(&mut repo, vim, "9.1"), Ok(3));
    assert_eq!(repo.versions().len(), 3);
    assert_eq!(find_version(&repo, nano, "9.0"), Some(2));
    assert_eq!(find_version(&repo, nano, "9.1"), None);
}

#[test]
fn version_of_unknown_package_is_refused() {
    let mut repo = ready();
    assert_eq!(
        insert_package_version(&mut repo, 7, "1.0"),
        Err(TrackError::Storage(StorageError::UnknownPackage))
    );
    assert_eq!(repo.versions().len(), 0);
}

#[test]
fn installation_needs_a_known_version_and_a_supported_action() {
    let mut repo = ready();
    let vim = insert_package(&mut repo, "vim", "apt", None).unwrap();
    let version = insert_package_version(&mut repo, vim, "9.0").unwrap();
    assert_eq!(
        log_installation(&mut repo, version + 1, "install", T1),
        Err(TrackError::Storage(StorageError::UnknownVersion))
    );
    assert_eq!(
        log_installation(&mut repo, version, "upgrade", T1),
        Err(TrackError::Validation(ValidationError::UnsupportedAction))
    );
    assert_eq!(
        log_installation(&mut repo, version, "Install", T1),
        Err(TrackError::Validation(ValidationError::UnsupportedAction))
    );
    assert_eq!(repo.installations().len(), 0);
    assert_eq!(log_installation(&mut repo, version, "install", T1), Ok(1));
    assert_eq!(log_installation(&mut repo, version, "uninstall", T2), Ok(2));
    assert_eq!(log_installation(&mut repo, version, "install", T1), Ok(3));
    assert_eq!(
        repo.installations()[1],
        Installation {
            installation_id: 2,
            version_id: version,
            action: "uninstall".to_string(),
            timestamp: T2.to_string(),
        }
    );
}

#[test]
fn installation_keeps_the_instant_as_text() {
    let mut repo = ready();
    let vim = insert_package(&mut repo, "vim", "apt", None).unwrap();
    let version = insert_package_version(&mut repo, vim, "9.0").unwrap();
    assert_eq!(
        insert_installation(&mut repo, version, "install", Timestamp::new(1431648000, 0)),
        Ok(())
    );
    assert_eq!(repo.installations()[0].timestamp, "2015-05-15 00:00:00 UTC");
    assert_eq!(
        insert_installation(&mut repo, version, "install", Timestamp::new(i64::MAX, 0)),
        Err(TrackError::Validation(ValidationError::TimestampOutOfRange))
    );
    assert_eq!(
        insert_installation(&mut repo, version, "purge", Timestamp::new(0, 0)),
        Err(TrackError::Validation(ValidationError::UnsupportedAction))
    );
    assert_eq!(repo.installations().len(), 1);
}

#[test]
fn instants_are_written_as_chrono_writes_them() {
    assert_eq!(Timestamp::new(0, 0).to_text(), Some("1970-01-01 00:00:00 UTC".to_string()));
    assert_eq!(
        Timestamp::new(1755252000, 500_000_000).to_text(),
        Some("2025-08-15 10:00:00.500 UTC".to_string())
    );
    assert_eq!(Timestamp::new(-1, 0).to_text(), Some("1969-12-31 23:59:59 UTC".to_string()));
    assert_eq!(Timestamp::new(i64::MIN, 0).to_text(), None);
    assert_eq!(Timestamp::new(0, 2_000_000_000).to_text(), None);
}

#[test]
fn attaching_a_tag_twice_changes_nothing() {
    let mut repo = ready();
    let vim = insert_package(&mut repo, "vim", "apt", None).unwrap();
    let nano = insert_package(&mut repo, "nano", "apt", None).unwrap();
    assert_eq!(attach_tag(&mut repo, vim, "editor"), Ok(()));
    assert_eq!(attach_tag(&mut repo, vim, "editor"), Ok(()));
    assert_eq!(attach_tag(&mut repo, nano, "editor"), Ok(()));
    assert_eq!(attach_tag(&mut repo, vim, "cli"), Ok(()));
    assert_eq!(
        repo.tags(),
        &vec![
            Tag { tag_id: 1, tag_name: "editor".to_string() },
            Tag { tag_id: 2, tag_name: "cli".to_string() }
        ]
    );
    assert_eq!(
        repo.package_tags(),
        &vec![
            PackageTag { package_id: vim, tag_id: 1 },
            PackageTag { package_id: nano, tag_id: 1 },
            PackageTag { package_id: vim, tag_id: 2 },
        ]
    );
    assert_eq!(find_tag(&repo, "cli"), Some(2));
    assert_eq!(
        attach_tag(&mut repo, 99, "ghost"),
        Err(TrackError::Storage(StorageError::UnknownPackage))
    );
    assert_eq!(find_tag(&repo, "ghost"), None);
}

#[test]
fn listing_names_each_version_and_action_once() {
    let mut repo = ready();
    let p = insert_package(&mut repo, "firefox", "apt", Some("a browser")).unwrap();
    let v10 = insert_package_version(&mut repo, p, "1.0").unwrap();
    let v11 = insert_package_version(&mut repo, p, "1.1").unwrap();
    log_installation(&mut repo, v10, "install", T1).unwrap();
    log_installation(&mut repo, v11, "install", T2).unwrap();
    log_installation(&mut repo, v10, "uninstall", T3).unwrap();
    let rows = listing(&repo);
    assert_eq!(rows.len(), 1);
    assert_eq!(tokens(&rows[0].version), vec!["1.0", "1.1"]);
    let (actions, instants) = rows[0].installation.split_once(':').unwrap();
    assert_eq!(tokens(actions), vec!["install", "uninstall"]);
    assert_eq!(instants, format!("{},{},{}", T1, T2, T3));
    assert_eq!(
        rows[0],
        PackageData {
            package_name: "firefox".to_string(),
            source: "apt".to_string(),
            description: Some("a browser".to_string()),
            version: "1.0,1.1".to_string(),
            installation: format!("install,uninstall:{},{},{}", T1, T2, T3),
            tag: None,
        }
    );
}

#[test]
fn listing_is_ordered_by_package_name() {
    let mut repo = ready();
    for name in ["vim", "Zsh", "curl", "vim", "ab", "a", "älter", "b"] {
        let source = if repo.packages().iter().any(|p| p.package_name == name) { "brew" } else { "apt" };
        insert_package(&mut repo, name, source, None).unwrap();
    }
    let rows = listing(&repo);
    let names: Vec<&str> = rows.iter().map(|r| r.package_name.as_str()).collect();
    assert_eq!(names, vec!["Zsh", "a", "ab", "b", "curl", "vim", "vim", "älter"]);
    let mut sorted = names.clone();
    sorted.sort();
    assert_eq!(names, sorted);
    assert_eq!(rows[5].source, "apt");
    assert_eq!(rows[6].source, "brew");
}

#[test]
fn listing_shows_packages_without_versions_or_installations() {
    let mut repo = ready();
    let vim = insert_package(&mut repo, "vim", "apt", None).unwrap();
    let nano = insert_package(&mut repo, "nano", "apt", None).unwrap();
    insert_package_version(&mut repo, nano, "7.2").unwrap();
    attach_tag(&mut repo, vim, "editor").unwrap();
    attach_tag(&mut repo, vim, "modal").unwrap();
    let rows = listing(&repo);
    assert_eq!(
        rows,
        vec![
            PackageData {
                package_name: "nano".to_string(),
                source: "apt".to_string(),
                description: None,
                version: "7.2".to_string(),
                installation: ":".to_string(),
                tag: None,
            },
            PackageData {
                package_name: "vim".to_string(),
                source: "apt".to_string(),
                description: None,
                version: "".to_string(),
                installation: ":".to_string(),
                tag: Some("editor,modal".to_string()),
            },
        ]
    );
}

#[test]
fn listing_keeps_packages_apart() {
    let mut repo = ready();
    let a = insert_package(&mut repo, "a", "apt", None).unwrap();
    let b = insert_package(&mut repo, "b", "apt", None).unwrap();
    let a1 = insert_package_version(&mut repo, a, "1").unwrap();
    let b1 = insert_package_version(&mut repo, b, "1").unwrap();
    let b2 = insert_package_version(&mut repo, b, "2").unwrap();
    log_installation(&mut repo, a1, "install", T1).unwrap();
    log_installation(&mut repo, b1, "install", T1).unwrap();
    log_installation(&mut repo, b2, "install", T1).unwrap();
    log_installation(&mut repo, b1, "uninstall", T2).unwrap();
    let rows = listing(&repo);
    assert_eq!(rows[0].version, "1");
    assert_eq!(rows[0].installation, format!("install:{}", T1));
    assert_eq!(rows[1].version, "1,2");
    assert_eq!(rows[1].installation, format!("install,uninstall:{},{}", T1, T2));
}

#[test]
fn clearing_deletes_packages_and_what_hangs_on_them() {
    let mut repo = ready();
    let vim = insert_package(&mut repo, "vim", "apt", None).unwrap();
    let version = insert_package_version(&mut repo, vim, "9.0").unwrap();
    log_installation(&mut repo, version, "install", T1).unwrap();
    attach_tag(&mut repo, vim, "editor").unwrap();
    assert_eq!(clear_packages_table(&mut repo), Ok(()));
    assert_eq!(repo.packages().len(), 0);
    assert_eq!(repo.versions().len(), 0);
    assert_eq!(repo.installations().len(), 0);
    assert_eq!(repo.package_tags().len(), 0);
    assert_eq!(repo.tags().len(), 1);
    assert_eq!(listing(&repo), Vec::<PackageData>::new());
    assert_eq!(insert_package(&mut repo, "nano", "apt", None), Ok(1));
}

#[test]
fn rollback_puts_the_rows_back() {
    let mut repo = ready();
    insert_package(&mut repo, "vim", "apt", None).unwrap();
    assert_eq!(repo.commit(), Err(TrackError::Storage(StorageError::NoTransaction)));
    assert_eq!(repo.rollback(), Err(TrackError::Storage(StorageError::NoTransaction)));
    assert_eq!(repo.begin(), Ok(()));
    assert_eq!(repo.is_in_transaction(), true);
    assert_eq!(repo.begin(), Err(TrackError::Storage(StorageError::TransactionOpen)));
    let nano = insert_package(&mut repo, "nano", "apt", None).unwrap();
    insert_package_version(&mut repo, nano, "7.2").unwrap();
    clear_packages_table(&mut repo).unwrap();
    assert_eq!(repo.packages().len(), 0);
    assert_eq!(repo.rollback(), Ok(()));
    assert_eq!(repo.is_in_transaction(), false);
    assert_eq!(repo.packages().len(), 1);
    assert_eq!(repo.packages()[0].package_name, "vim");
    assert_eq!(repo.versions().len(), 0);
}

#[test]
fn commit_keeps_the_rows() {
    let mut repo = ready();
    assert_eq!(repo.begin(), Ok(()));
    insert_package(&mut repo, "vim", "apt", None).unwrap();
    assert_eq!(repo.commit(), Ok(()));
    assert_eq!(repo.is_in_transaction(), false);
    assert_eq!(repo.packages().len(), 1);
}

#[test]
fn failed_installation_in_a_transaction_leaves_no_package_and_no_version() {
    let repo = ready();
    let (repo, result) = with_transaction(repo, |mut r: Repository| {
        let package = insert_package(&mut r, "firefox", "apt", None).unwrap();
        let version = insert_package_version(&mut r, package, "128.0.0").unwrap();
        let logged = log_installation(&mut r, version, "purge", T1);
        (r, logged)
    });
    assert_eq!(result, Err(TrackError::Validation(ValidationError::UnsupportedAction)));
    assert_eq!(repo.is_in_transaction(), false);
    assert_eq!(repo.packages().len(), 0);
    assert_eq!(repo.versions().len(), 0);
    assert_eq!(repo.installations().len(), 0);
    assert_eq!(listing(&repo), Vec::<PackageData>::new());
}

#[test]
fn failed_installation_outside_a_transaction_leaves_package_and_version() {
    let mut repo = ready();
    let package = insert_package(&mut repo, "firefox", "apt", None).unwrap();
    let version = insert_package_version(&mut repo, package, "128.0.0").unwrap();
    assert_eq!(
        log_installation(&mut repo, version, "purge", T1),
        Err(TrackError::Validation(ValidationError::UnsupportedAction))
    );
    let rows = listing(&repo);
    assert_eq!(rows.len(), 1);
    assert_eq!(rows[0].version, "128.0.0");
    assert_eq!(rows[0].installation, ":");
}

#[test]
fn successful_transaction_is_committed() {
    let repo = ready();
    let (repo, result) = with_transaction(repo, |mut r: Repository| {
        let package = insert_package(&mut r, "firefox", "apt", None);
        (r, package)
    });
    assert_eq!(result, Ok(1));
    assert_eq!(repo.is_in_transaction(), false);
    assert_eq!(repo.packages().len(), 1);
}

#[test]
fn transaction_cannot_be_opened_twice_or_without_tables() {
    let closed = Repository::new();
    let (closed, result) = with_transaction(closed, |r: Repository| (r, Ok(1)));
    assert_eq!(result, Err(TrackError::Storage(StorageError::SchemaMissing)));
    assert_eq!(closed.is_ready(), false);
    let mut open = ready();
    open.begin().unwrap();
    let (open, result) = with_transaction(open, |r: Repository| (r, Ok(1)));
    assert_eq!(result, Err(TrackError::Storage(StorageError::TransactionOpen)));
    assert_eq!(open.is_in_transaction(), true);
}

#[test]
fn rows_that_obey_the_schema_are_loaded() {
    let repo = Repository::from_tables(
        vec![Package {
            package_id: 4,
            package_name: "vim".to_string(),
            source: "apt".to_string(),
            description: None,
        }],
        vec![PackageVersion { version_id: 2, package_id: 4, version: "9.0".to_string() }],
        vec![Installation {
            installation_id: 9,
            version_id: 2,
            action: "install".to_string(),
            timestamp: T1.to_string(),
        }],
        vec![Tag { tag_id: 1, tag_name: "editor".to_string() }],
        vec![PackageTag { package_id: 4, tag_id: 1 }],
    );
    let mut repo = repo.ok().unwrap();
    assert_eq!(repo.is_ready(), true);
    assert_eq!(insert_package(&mut repo, "nano", "apt", None), Ok(5));
    assert_eq!(listing(&repo)[1].installation, format!("install:{}", T1));
    assert_eq!(listing(&repo)[1].tag, Some("editor".to_string()));
}

fn package(id: i64, name: &str, source: &str) -> Package {
    Package { package_id: id, package_name: name.to_string(), source: source.to_string(), description: None }
}

fn corrupt(
    packages: Vec<Package>,
    versions: Vec<PackageVersion>,
    installations: Vec<Installation>,
    tags: Vec<Tag>,
    package_tags: Vec<PackageTag>,
) -> bool {
    match Repository::from_tables(packages, versions, installations, tags, package_tags) {
        Ok(_) => false,
        Err(e) => e == TrackError::Storage(StorageError::Corrupt),
    }
}

#[test]
fn rows_that_break_the_schema_are_refused() {
    let version = |id: i64, package_id: i64, v: &str| PackageVersion {
        version_id: id,
        package_id,
        version: v.to_string(),
    };
    let installation = |id: i64, version_id: i64, action: &str| Installation {
        installation_id: id,
        version_id,
        action: action.to_string(),
        timestamp: T1.to_string(),
    };
    let tag = |id: i64, name: &str| Tag { tag_id: id, tag_name: name.to_string() };
    assert!(!corrupt(vec![], vec![], vec![], vec![], vec![]));
    assert!(corrupt(vec![package(1, "a", "apt"), package(2, "a", "apt")], vec![], vec![], vec![], vec![]));
    assert!(corrupt(vec![package(2, "a", "apt"), package(1, "b", "apt")], vec![], vec![], vec![], vec![]));
    assert!(corrupt(vec![package(1, "a", "apt"), package(1, "b", "apt")], vec![], vec![], vec![], vec![]));
    assert!(corrupt(vec![package(0, "a", "apt")], vec![], vec![], vec![], vec![]));
    assert!(corrupt(vec![package(1, "a", "apt")], vec![version(1, 2, "1")], vec![], vec![], vec![]));
    assert!(corrupt(
        vec![package(1, "a", "apt")],
        vec![version(1, 1, "1"), version(2, 1, "1")],
        vec![],
        vec![],
        vec![]
    ));
    assert!(corrupt(
        vec![package(1, "a", "apt")],
        vec![version(1, 1, "1")],
        vec![installation(1, 2, "install")],
        vec![],
        vec![]
    ));
    assert!(corrupt(
        vec![package(1, "a", "apt")],
        vec![version(1, 1, "1")],
        vec![installation(1, 1, "upgrade")],
        vec![],
        vec![]
    ));
    assert!(corrupt(vec![], vec![], vec![], vec![tag(1, "x"), tag(2, "x")], vec![]));
    assert!(corrupt(
        vec![package(1, "a", "apt")],
        vec![],
        vec![],
        vec![tag(1, "x")],
        vec![PackageTag { package_id: 1, tag_id: 2 }]
    ));
    assert!(corrupt(
        vec![package(1, "a", "apt")],
        vec![],
        vec![],
        vec![tag(1, "x")],
        vec![PackageTag { package_id: 1, tag_id: 1 }, PackageTag { package_id: 1, tag_id: 1 }]
    ));
    assert!(!corrupt(
        vec![package(1, "a", "apt"), package(5, "a", "brew")],
        vec![version(1, 5, "1"), version(2, 1, "1")],
        vec![installation(3, 2, "uninstall")],
        vec![tag(1, "x")],
        vec![PackageTag { package_id: 5, tag_id: 1 }]
    ));
}

#[test]
fn ids_stop_at_the_last_one() {
    let mut repo = Repository::from_tables(
        vec![package(i64::MAX, "a", "apt")],
        vec![PackageVersion { version_id: i64::MAX, package_id: i64::MAX, version: "1".to_string() }],
        vec![Installation {
            installation_id: i64::MAX,
            version_id: i64::MAX,
            action: "install".to_string(),
            timestamp: T1.to_string(),
        }],
        vec![Tag { tag_id: i64::MAX, tag_name: "x".to_string() }],
        vec![],
    )
    .ok()
    .unwrap();
    let full = TrackError::Storage(StorageError::RowIdsExhausted);
    assert_eq!(insert_package(&mut repo, "b", "apt", None), Err(full));
    assert_eq!(insert_package_version(&mut repo, i64::MAX, "2"), Err(full));
    assert_eq!(log_installation(&mut repo, i64::MAX, "install", T2), Err(full));
    assert_eq!(attach_tag(&mut repo, i64::MAX, "y"), Err(full));
    assert_eq!(attach_tag(&mut repo, i64::MAX, "x"), Ok(()));
    assert_eq!(repo.packages().len(), 1);
    assert_eq!(repo.tags().len(), 1);
    assert_eq!(repo.package_tags().len(), 1);
}

#[test]
fn errors_say_what_went_wrong() {
    assert_eq!(
        TrackError::Duplicate(DuplicateError::Package(3)).describe(),
        "the package is tracked already"
    );
    assert_eq!(
        TrackError::Duplicate(DuplicateError::Version(3)).describe(),
        "the package has this version already"
    );
    assert_eq!(
        TrackError::Storage(StorageError::SchemaMissing).describe(),
        "the tables have not been created"
    );
    assert_eq!(
        TrackError::Validation(ValidationError::UnsupportedAction).describe(),
        "the action is neither `install` nor `uninstall`"
    );
    assert_eq!(
        TrackError::Config(forget_me_not::error::ConfigError::MissingManagers).describe(),
        "the configuration has no `manager` table"
    );
}

#[test]
fn rows_written_since_a_mark_are_handed_out() {
    let mut repo = ready();
    let vim = insert_package(&mut repo, "vim", "apt", None).unwrap();
    insert_package_version(&mut repo, vim, "9.0").unwrap();
    let marks = repo.marks();
    assert_eq!(marks.packages, 1);
    assert_eq!(marks.versions, 1);
    assert_eq!(marks.installations, 0);
    let nano = insert_package(&mut repo, "nano", "apt", None).unwrap();
    let v = insert_package_version(&mut repo, vim, "9.1").unwrap();
    log_installation(&mut repo, v, "install", T1).unwrap();
    attach_tag(&mut repo, nano, "editor").unwrap();
    let changes = repo.written_since(&marks);
    assert_eq!(changes.packages, vec![package(2, "nano", "apt")]);
    assert_eq!(
        changes.versions,
        vec![PackageVersion { version_id: 2, package_id: vim, version: "9.1".to_string() }]
    );
    assert_eq!(changes.installations.len(), 1);
    assert_eq!(changes.tags, vec![Tag { tag_id: 1, tag_name: "editor".to_string() }]);
    assert_eq!(changes.package_tags, vec![PackageTag { package_id: nano, tag_id: 1 }]);
    clear_packages_table(&mut repo).unwrap();
    let after_clear = repo.written_since(&marks);
    assert_eq!(after_clear.packages.len(), 0);
    assert_eq!(after_clear.tags.len(), 1);
    let nothing = repo.written_since(&repo.marks());
    assert_eq!(nothing.tags.len(), 0);
}

#[test]
fn every_storage_error_has_its_line() {
    let line = |e: StorageError| TrackError::Storage(e).describe();
    assert_eq!(line(StorageError::UnknownPackage), "no package has this id");
    assert_eq!(line(StorageError::UnknownVersion), "no version has this id");
    assert_eq!(line(StorageError::RowIdsExhausted), "the table has used its last row id");
    assert_eq!(line(StorageError::TransactionOpen), "a transaction is open already");
    assert_eq!(line(StorageError::NoTransaction), "no transaction is open");
    assert_eq!(line(StorageError::Corrupt), "the rows break the rules of the schema");
    assert_eq!(line(StorageError::Unavailable), "the store cannot be opened, read or written");
    assert_eq!(
        TrackError::Validation(ValidationError::TimestampOutOfRange).describe(),
        "the instant is outside the calendar"
    );
}
