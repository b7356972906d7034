use forget_me_not::cli::{Cli, HELP};
use forget_me_not::clock::Timestamp;
use forget_me_not::error::{ConfigError, StorageError, TrackError};
use forget_me_not::data::{
    index_by_id, normalize_unix_path, DataBase, FlexibleVersion, RecordData, SemanticVersion,
};
use forget_me_not::db::{
    add_package, create_table, query_all, query_package, remove_data, update_package,
    InstalledPackages, InstalledTable,
};
use forget_me_not::schema::{
    schema_sql, CREATE_TABLE_INSTALLATIONS, CREATE_TABLE_PACKAGES, CREATE_TABLE_PACKAGE_TAGS,
    CREATE_TABLE_PACKAGE_VERSION, CREATE_TABLE_TAGS,
};
use forget_me_not::service::Manager;
use forget_me_not::simple_app::{RunReport, SimpleApp};
use forget_me_not::simpledata::{
    try_clear_packages, try_create_table, try_delete_package_name, try_insert, try_list_all,
    LongDisplayableSimpleDataVec, SimplePackageData, SimpleTable,
};
use forget_me_not::todo::Todo;

fn record(id: u32, name: &str) -> RecordData {
    RecordData {
        id,
        name: name.to_string(),
        version: Some(FlexibleVersion::parse("1.21.0")),
        installation_date: Some(Timestamp::new(1768609043, 283758000)),
        location: Some(normalize_unix_path("/a/b/c")),
        source: Some("org.wonderland".to_string()),
        tags: vec!["wtf".to_string(), "rusty".to_string()],
        description: None,
    }
}

#[test]
fn db_test() {
    let mut table = InstalledTable::new();
    create_table(&mut table).unwrap();

    add_package(
        &mut table,
        "flatpak".to_string(),
        "org.mozilla.Firefox".to_string(),
        "128.0.0".to_string(),
        "2025-08-15".to_string(),
    )
    .unwrap();

    assert_eq!(
        query_all(&table),
        vec![InstalledPackages {
            manager: "flatpak".to_string(),
            package: "org.mozilla.Firefox".to_string(),
            version: Some("128.0.0".to_string()),
            install_date: "2025-08-15".to_string(),
        }]
    );

    let res = remove_data(&mut table, "org.mozilla.Firefox".to_string());
    assert_eq!(res, true);
    assert_eq!(query_all(&table), vec![]);
}

#[test]
fn installed_table_is_changed_row_by_row() {
    let mut table = InstalledTable::new();
    assert_eq!(
        add_package(&mut table, "apt".into(), "vim".into(), "9".into(), "d".into()),
        Err(TrackError::Storage(StorageError::SchemaMissing))
    );
    assert_eq!(remove_data(&mut table, "vim".into()), false);
    assert_eq!(update_package(&mut table, "vim".into(), "9".into(), "d".into()), false);
    create_table(&mut table).unwrap();
    assert_eq!(table.is_created(), true);
    for (manager, package) in [("apt", "vim"), ("apt", "nano"), ("brew", "vim")] {
        add_package(&mut table, manager.into(), package.into(), "1".into(), "jan".into()).unwrap();
    }
    assert_eq!(query_package(&table, "vim".into()), true);
    assert_eq!(query_package(&table, "emacs".into()), false);
    assert_eq!(update_package(&mut table, "emacs".into(), "2".into(), "feb".into()), false);
    assert_eq!(update_package(&mut table, "vim".into(), "2".into(), "feb".into()), true);
    let rows = query_all(&table);
    assert_eq!(rows[0].version, Some("2".to_string()));
    assert_eq!(rows[0].install_date, "feb");
    assert_eq!(rows[1].version, Some("1".to_string()));
    assert_eq!(rows[2].version, Some("2".to_string()));
    assert_eq!(rows[2].manager, "brew");
    assert_eq!(remove_data(&mut table, "vim".into()), true);
    assert_eq!(remove_data(&mut table, "vim".into()), false);
    let left = query_all(&table);
    assert_eq!(left.len(), 1);
    assert_eq!(left[0].package, "nano");
}

#[test]
fn versions_are_semantic_where_they_can_be() {
    assert_eq!(
        FlexibleVersion::parse("1.21.0"),
        FlexibleVersion::Sematic(SemanticVersion {
            major: 1,
            minor: 21,
            patch: 0,
            pre: "".to_string(),
            build: "".to_string(),
        })
    );
    assert_eq!(
        FlexibleVersion::parse("2.0.1-rc.1+build.5"),
        FlexibleVersion::Sematic(SemanticVersion {
            major: 2,
            minor: 0,
            patch: 1,
            pre: "rc.1".to_string(),
            build: "build.5".to_string(),
        })
    );
    assert_eq!(FlexibleVersion::parse("1.0"), FlexibleVersion::Raw("1.0".to_string()));
    assert_eq!(FlexibleVersion::parse("1.0.01"), FlexibleVersion::Raw("1.0.01".to_string()));
    assert_eq!(FlexibleVersion::parse("rolling"), FlexibleVersion::Raw("rolling".to_string()));
    assert_eq!(FlexibleVersion::from_parts("x", None), FlexibleVersion::Raw("x".to_string()));
}

#[test]
fn paths_are_written_with_slashes() {
    assert_eq!(normalize_unix_path("C:\\Users\\me\\a.db"), "C:/Users/me/a.db");
    assert_eq!(normalize_unix_path("/a/b/c"), "/a/b/c");
    assert_eq!(normalize_unix_path("\\\\"), "//");
    assert_eq!(normalize_unix_path("ä\\ö"), "ä/ö");
    assert_eq!(normalize_unix_path(""), "");
}

#[test]
fn records_stand_under_their_ids() {
    let all = vec![record(3, "a"), record(1, "b"), record(3, "c")];
    let db = DataBase::from_vec(all.clone());
    assert_eq!(db.data.len(), 2);
    assert_eq!(db.data[&3].name, "c");
    assert_eq!(db.data[&1].name, "b");
    let manager = Manager::from_vec(all.clone());
    assert_eq!(manager.get(3), Some(&record(3, "c")));
    assert_eq!(manager.get(2), None);
    assert_eq!(Manager::new().get(3), None);
    assert_eq!(index_by_id(vec![]).len(), 0);
    assert_eq!(record(1, "x").validate(), Ok(()));
}

#[test]
fn todo_is_set_without_date_and_tag() {
    let now = Timestamp::new(1755252000, 0);
    let todo = Todo::new_now(now, "title".to_string(), "content".to_string());
    assert_eq!(
        todo,
        Todo {
            set_date: now,
            todo_date: None,
            tag: "".to_string(),
            title: "title".to_string(),
            content: "content".to_string(),
        }
    );
}

#[test]
fn schema_is_written_word_for_word() {
    assert_eq!(
        CREATE_TABLE_PACKAGES,
        r#"CREATE TABLE IF NOT EXISTS Packages (
    package_id INTEGER PRIMARY KEY,
    package_name TEXT NOT NULL,
    source TEXT NOT NULL,
    description TEXT,
    UNIQUE (package_name, source)
);"#
    );
    assert_eq!(
        CREATE_TABLE_PACKAGE_VERSION,
        r#"CREATE TABLE IF NOT EXISTS PackageVersions (
    version_id INTEGER PRIMARY KEY,
    package_id INTEGER NOT NULL,
    version TEXT NOT NULL,
    FOREIGN KEY (package_id) REFERENCES Packages(package_id),
    UNIQUE (package_id, version)
);"#
    );
    assert_eq!(
        CREATE_TABLE_INSTALLATIONS,
        r#"CREATE TABLE IF NOT EXISTS Installations (
    installation_id INTEGER PRIMARY KEY,
    version_id INTEGER NOT NULL,
    action TEXT NOT NULL CHECK(action IN ('install', 'uninstall')),
    timestamp TEXT NOT NULL,
    FOREIGN KEY (version_id) REFERENCES PackageVersions(version_id)
);"#
    );
    assert_eq!(
        CREATE_TABLE_TAGS,
        r#"CREATE TABLE IF NOT EXISTS Tags (
    tag_id INTEGER PRIMARY KEY,
    tag_name TEXT NOT NULL UNIQUE
);"#
    );
    assert_eq!(
        CREATE_TABLE_PACKAGE_TAGS,
        r#"CREATE TABLE IF NOT EXISTS PackageTags (
    package_id INTEGER NOT NULL,
    tag_id INTEGER NOT NULL,
    FOREIGN KEY (package_id) REFERENCES Packages(package_id),
    FOREIGN KEY (tag_id) REFERENCES Tags(tag_id),
    PRIMARY KEY (package_id, tag_id)
);"#
    );
    assert_eq!(
        schema_sql(),
        [
            CREATE_TABLE_PACKAGES,
            CREATE_TABLE_INSTALLATIONS,
            CREATE_TABLE_PACKAGE_TAGS,
            CREATE_TABLE_PACKAGE_VERSION,
            CREATE_TABLE_TAGS,
        ]
        .join("\n")
    );
}

fn simple(name: &str, source: &str) -> SimplePackageData {
    SimplePackageData::new(name.to_string(), source.to_string(), None, None)
}

#[test]
fn simple_row_is_new_with_id_zero() {
    let row = SimplePackageData::new(
        "vim".to_string(),
        "apt".to_string(),
        Some("an editor".to_string()),
        Some("today".to_string()),
    );
    assert_eq!(
        row,
        SimplePackageData {
            id: 0,
            name: "vim".to_string(),
            source: "apt".to_string(),
            description: Some("an editor".to_string()),
            installation: Some("today".to_string()),
        }
    );
    assert_eq!(
        row.to_display_string(),
        "name: vim\nsource: apt\ndescription: an editor\ninstallation: today"
    );
    assert_eq!(
        simple("nano", "brew").to_display_string(),
        "name: nano\nsource: brew\ndescription: None\ninstallation: None"
    );
}

#[test]
fn simple_rows_are_shown_at_length() {
    let rows = vec![simple("vim", "apt"), simple("nano", "brew")];
    assert_eq!(
        LongDisplayableSimpleDataVec::from(&rows).to_display_string(),
        "name: vim\nsource: apt\ndescription: None\ninstallation: None\n\nname: nano\nsource: brew\ndescription: None\ninstallation: None\n\n"
    );
    assert_eq!(LongDisplayableSimpleDataVec::from(&vec![]).to_display_string(), "");
}

#[test]
fn simple_table_stores_lists_and_deletes() {
    let mut table = SimpleTable::new();
    let missing = Err(TrackError::Storage(StorageError::SchemaMissing));
    assert_eq!(try_insert(&mut table, simple("vim", "apt")), missing);
    assert_eq!(try_list_all(&table).err(), Some(TrackError::Storage(StorageError::SchemaMissing)));
    assert_eq!(try_clear_packages(&mut table), missing);
    assert_eq!(try_delete_package_name(&mut table, "vim"), missing);
    assert_eq!(try_create_table(&mut table), Ok(()));
    let mut with_id = simple("vim", "apt");
    with_id.id = 40;
    assert_eq!(try_insert(&mut table, with_id), Ok(1));
    assert_eq!(try_insert(&mut table, simple("nano", "apt")), Ok(1));
    assert_eq!(try_insert(&mut table, simple("vim", "brew")), Ok(1));
    assert_eq!(try_create_table(&mut table), Ok(()));
    let rows = try_list_all(&table).unwrap();
    assert_eq!(rows.iter().map(|r| r.id).collect::<Vec<i64>>(), vec![1, 2, 3]);
    assert_eq!(rows[2].source, "brew");
    assert_eq!(try_delete_package_name(&mut table, "emacs"), Ok(0));
    assert_eq!(try_delete_package_name(&mut table, "vim"), Ok(2));
    let left = try_list_all(&table).unwrap();
    assert_eq!(left.len(), 1);
    assert_eq!(left[0].name, "nano");
    assert_eq!(left[0].id, 2);
    assert_eq!(try_insert(&mut table, simple("curl", "apt")), Ok(1));
    assert_eq!(try_list_all(&table).unwrap()[1].id, 3);
    assert_eq!(try_clear_packages(&mut table), Ok(2));
    assert_eq!(try_list_all(&table).unwrap().len(), 0);
    assert_eq!(try_insert(&mut table, simple("curl", "apt")), Ok(1));
    assert_eq!(try_list_all(&table).unwrap()[0].id, 1);
}

fn words(list: &[&str]) -> Vec<String> {
    list.iter().map(|w| w.to_string()).collect()
}

const CONFIG: &str = "[manager.apt]\ninstall = \"install\"\nupgrade = \"upgrade\"\nremove = \"remove\"";

#[test]
fn simple_app_carries_out_the_command_line() {
    let mut app = SimpleApp::new(CONFIG, SimpleTable::new()).ok().unwrap();
    assert_eq!(app.config().config_of("apt").is_some(), true);
    let track =
        Cli::parse(words(&["fmn", "track", "apt", "vim", "9.0", "today", "an editor"])).unwrap();
    assert_eq!(app.run(track), RunReport::Stored);
    let short = Cli::parse(words(&["fmn", "track", "brew", "nano"])).unwrap();
    assert_eq!(app.run(short), RunReport::Stored);
    let too_short = Cli::parse(words(&["fmn", "track", "nano"])).unwrap();
    assert_eq!(app.run(too_short), RunReport::TooFewArguments);
    assert_eq!(
        app.list_simple_data().unwrap(),
        vec![
            SimplePackageData {
                id: 1,
                name: "vim".to_string(),
                source: "apt".to_string(),
                description: Some("an editor".to_string()),
                installation: Some("today".to_string()),
            },
            SimplePackageData {
                id: 2,
                name: "nano".to_string(),
                source: "brew".to_string(),
                description: None,
                installation: None,
            },
        ]
    );
    let list = Cli::parse(words(&["fmn", "list"])).unwrap();
    assert_eq!(
        app.run(list),
        RunReport::Listed(
            "name: vim\nsource: apt\ndescription: an editor\ninstallation: today\n\nname: nano\nsource: brew\ndescription: None\ninstallation: None\n\n"
                .to_string()
        )
    );
    let help = Cli::parse(words(&["fmn", "help"])).unwrap();
    assert_eq!(app.run(help), RunReport::Help(HELP.to_string()));
    assert_eq!(app.clear_packages_table(), Ok(()));
    assert_eq!(app.list_simple_data().unwrap().len(), 0);
    assert_eq!(app.init_db(), Ok(()));
    assert_eq!(app.insert_package(SimplePackageData::new("a".into(), "b".into(), None, None)), Ok(1));
}

#[test]
fn track_takes_the_source_before_the_package() {
    let mut app = SimpleApp::new(CONFIG, SimpleTable::new()).ok().unwrap();
    let track = Cli::parse(words(&["fmn", "track", "apt", "firefox", "128.0.0"])).unwrap();
    assert_eq!(app.run(track), RunReport::Stored);
    assert_eq!(
        app.list_simple_data().unwrap(),
        vec![SimplePackageData {
            id: 1,
            name: "firefox".to_string(),
            source: "apt".to_string(),
            description: None,
            installation: None,
        }]
    );
    let timed = Cli::parse(words(&["fmn", "track", "apt", "curl", "8.0", "2025-08-15"])).unwrap();
    assert_eq!(app.run(timed), RunReport::Stored);
    let rows = app.list_simple_data().unwrap();
    assert_eq!(rows[1].installation, Some("2025-08-15".to_string()));
    assert_eq!(rows[1].description, None);
}

#[test]
fn new_row_gets_an_id_that_no_row_has() {
    let row = |id: i64, name: &str| SimplePackageData {
        id,
        name: name.to_string(),
        source: "apt".to_string(),
        description: None,
        installation: None,
    };
    let mut table = SimpleTable::from_rows(vec![row(2, "a"), row(1, "b")]);
    assert_eq!(try_insert(&mut table, row(42, "c")), Ok(1));
    assert_eq!(try_insert(&mut table, row(42, "c")), Ok(1));
    let ids: Vec<i64> = try_list_all(&table).unwrap().iter().map(|r| r.id).collect();
    assert_eq!(ids, vec![2, 1, 3, 4]);
    let mut low = SimpleTable::from_rows(vec![row(-7, "a"), row(-9, "b")]);
    assert_eq!(try_insert(&mut low, row(0, "c")), Ok(1));
    assert_eq!(try_list_all(&low).unwrap()[2].id, -6);
    let mut full = SimpleTable::from_rows(vec![row(i64::MAX, "a"), row(5, "b")]);
    assert_eq!(
        try_insert(&mut full, row(0, "c")),
        Err(TrackError::Storage(StorageError::RowIdsExhausted))
    );
    assert_eq!(try_list_all(&full).unwrap().len(), 2);
}

#[test]
fn simple_app_reports_what_failed() {
    let row = SimplePackageData {
        id: i64::MAX,
        name: "a".to_string(),
        source: "apt".to_string(),
        description: None,
        installation: None,
    };
    let mut app = SimpleApp::new(CONFIG, SimpleTable::from_rows(vec![row])).ok().unwrap();
    let track = Cli::parse(words(&["fmn", "track", "apt", "vim"])).unwrap();
    assert_eq!(
        app.run(track),
        RunReport::InsertFailed(TrackError::Storage(StorageError::RowIdsExhausted))
    );
    assert_eq!(app.list_simple_data().unwrap().len(), 1);
}

#[test]
fn simple_app_refuses_a_broken_configuration() {
    assert_eq!(
        SimpleApp::new("[manager", SimpleTable::new()).err(),
        Some(TrackError::Config(ConfigError::Syntax))
    );
    assert_eq!(
        SimpleApp::new("[manager.apt]\ninstall = 1", SimpleTable::new()).err(),
        Some(TrackError::Config(ConfigError::MalformedAction(
            0,
            forget_me_not::error::ActionSlot::Install
        )))
    );
}

#[test]
fn help_text_is_kept() {
    assert_eq!(
        HELP,
        "Forget-me-not, a universal package recorder.\nusage: fmn <command> <option> [<args>]\n
    command:\n. "
    );
}

#[test]
fn data_manager_starts_with_nothing_staged() {
    let manager = forget_me_not::data::DataManager::new(Err("path does not exist".to_string()));
    assert_eq!(manager.db.err(), Some("path does not exist".to_string()));
    assert_eq!(manager.staged.data.len(), 0);
    let read = forget_me_not::data::DataManager::new(Ok(DataBase::from_vec(vec![record(1, "a")])));
    assert_eq!(read.db.unwrap().data.len(), 1);
}
