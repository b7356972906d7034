use forget_me_not::error::{ActionSlot, ConfigError, StorageError, TrackError};
use forget_me_not::fmn::FMN;
use forget_me_not::listing::get_all_package_data;
use forget_me_not::models::{init_db, insert_package};
use forget_me_not::repository::Repository;
use forget_me_not::rows::{Installation, Package, PackageVersion};
use forget_me_not::tracker::{track_package, TrackReceipt};

const CONFIG: &str = "[manager.apt]\ninstall = \"install\"\nupgrade = { template = \"upgrade -y {package_name}\" }\nremove = \"remove\"";
const T0: &str = "2025-08-15 10:00:00 UTC";
const T1: &str = "2025-09-01 08:30:00 UTC";

fn ready() -> Repository {
    let mut repo = Repository::new();
    init_db(&mut repo).unwrap();
    repo
}

#[test]
fn tracking_two_versions_gives_one_row_with_both() {
    let mut repo = ready();
    track_package(&mut repo, "apt", "firefox", "128.0.0", T0, None).unwrap();
    track_package(&mut repo, "apt", "firefox", "129.0.0", T1, None).unwrap();
    let rows = get_all_package_data(&repo).unwrap();
    assert_eq!(rows.len(), 1);
    assert_eq!(rows[0].package_name, "firefox");
    assert_eq!(rows[0].source, "apt");
    assert_eq!(rows[0].description, None);
    assert_eq!(rows[0].version, "128.0.0,129.0.0");
    assert_eq!(rows[0].installation, format!("install:{},{}", T0, T1));
    assert_eq!(rows[0].tag, None);
}

#[test]
fn tracking_the_same_version_twice_reuses_the_version() {
    let mut repo = ready();
    let first = track_package(&mut repo, "apt", "firefox", "128.0.0", T0, Some("a browser"));
    let second = track_package(&mut repo, "apt", "firefox", "128.0.0", T1, Some("ignored"));
    assert_eq!(
        first,
        Ok(TrackReceipt {
            package_id: 1,
            package_created: true,
            version_id: 1,
            version_created: true,
            installation_id: 1,
        })
    );
    assert_eq!(
        second,
        Ok(TrackReceipt {
            package_id: 1,
            package_created: false,
            version_id: 1,
            version_created: false,
            installation_id: 2,
        })
    );
    assert_eq!(
        repo.packages(),
        &vec![Package {
            package_id: 1,
            package_name: "firefox".to_string(),
            source: "apt".to_string(),
            description: Some("a browser".to_string()),
        }]
    );
    assert_eq!(
        repo.versions(),
        &vec![PackageVersion { version_id: 1, package_id: 1, version: "128.0.0".to_string() }]
    );
    assert_eq!(
        repo.installations(),
        &vec![
            Installation {
                installation_id: 1,
                version_id: 1,
                action: "install".to_string(),
                timestamp: T0.to_string(),
            },
            Installation {
                installation_id: 2,
                version_id: 1,
                action: "install".to_string(),
                timestamp: T1.to_string(),
            },
        ]
    );
}

#[test]
fn tracking_finds_a_package_that_was_inserted_before() {
    let mut repo = ready();
    insert_package(&mut repo, "curl", "apt", None).unwrap();
    insert_package(&mut repo, "firefox", "apt", None).unwrap();
    let receipt = track_package(&mut repo, "apt", "firefox", "1", T0, None).unwrap();
    assert_eq!(receipt.package_id, 2);
    assert_eq!(receipt.package_created, false);
    assert_eq!(receipt.version_created, true);
    let other = track_package(&mut repo, "flatpak", "firefox", "1", T0, None).unwrap();
    assert_eq!(other.package_id, 3);
    assert_eq!(other.version_id, 2);
    assert_eq!(repo.packages().len(), 3);
}

#[test]
fn tracking_fails_as_a_whole() {
    let mut closed = Repository::new();
    assert_eq!(
        track_package(&mut closed, "apt", "firefox", "1", T0, None),
        Err(TrackError::Storage(StorageError::SchemaMissing))
    );
    let mut open = ready();
    open.begin().unwrap();
    assert_eq!(
        track_package(&mut open, "apt", "firefox", "1", T0, None),
        Err(TrackError::Storage(StorageError::TransactionOpen))
    );
    assert_eq!(open.is_in_transaction(), true);
    assert_eq!(open.packages().len(), 0);
}

#[test]
fn tracking_that_cannot_log_leaves_no_package_behind() {
    let mut repo = Repository::from_tables(
        vec![Package {
            package_id: 1,
            package_name: "old".to_string(),
            source: "apt".to_string(),
            description: None,
        }],
        vec![PackageVersion { version_id: 1, package_id: 1, version: "1".to_string() }],
        vec![Installation {
            installation_id: i64::MAX,
            version_id: 1,
            action: "install".to_string(),
            timestamp: T0.to_string(),
        }],
        vec![],
        vec![],
    )
    .ok()
    .unwrap();
    assert_eq!(
        track_package(&mut repo, "apt", "firefox", "128.0.0", T1, None),
        Err(TrackError::Storage(StorageError::RowIdsExhausted))
    );
    assert_eq!(repo.is_in_transaction(), false);
    assert_eq!(repo.packages().len(), 1);
    assert_eq!(repo.versions().len(), 1);
    assert_eq!(repo.installations().len(), 1);
    let rows = get_all_package_data(&repo).unwrap();
    assert_eq!(rows.len(), 1);
    assert_eq!(rows[0].package_name, "old");
}

#[test]
fn tracker_is_made_from_configuration_and_store() {
    let mut fmn = FMN::init(CONFIG, Repository::new()).ok().unwrap();
    assert_eq!(fmn.repository().is_ready(), true);
    assert_eq!(
        fmn.track("apt".into(), "firefox".into(), "128.0.0".into(), T0.into(), None),
        Ok(())
    );
    assert_eq!(
        fmn.track("apt".into(), "firefox".into(), "129.0.0".into(), T1.into(), Some("x".into())),
        Ok(())
    );
    let rows = fmn.list_all().unwrap();
    assert_eq!(rows.len(), 1);
    assert_eq!(rows[0].version, "128.0.0,129.0.0");
    assert_eq!(rows[0].installation, format!("install:{},{}", T0, T1));
    assert_eq!(
        fmn.command_line("apt", ActionSlot::Upgrade, "firefox"),
        Some("upgrade -y firefox".to_string())
    );
    assert_eq!(fmn.command_line("apt", ActionSlot::Remove, "firefox"), Some("remove firefox".to_string()));
    assert_eq!(fmn.command_line("dnf", ActionSlot::Install, "firefox"), None);
    assert_eq!(fmn.config().config_of("apt").is_some(), true);
}

#[test]
fn tracker_refuses_a_broken_configuration() {
    let made = FMN::init("[manager.apt]\ninstall = \"install\"", Repository::new());
    assert_eq!(
        made.err(),
        Some(TrackError::Config(ConfigError::MissingAction(0, ActionSlot::Upgrade)))
    );
}

#[test]
fn tracker_rolls_back_a_transaction_that_was_left_open() {
    let mut repo = ready();
    insert_package(&mut repo, "kept", "apt", None).unwrap();
    repo.begin().unwrap();
    insert_package(&mut repo, "dropped", "apt", None).unwrap();
    let fmn = FMN::init(CONFIG, repo).ok().unwrap();
    assert_eq!(fmn.repository().packages().len(), 1);
    assert_eq!(fmn.repository().is_in_transaction(), false);
}
