//! The schema of the store as SQL: the five tables, word for word, and the
//! statements that write and read them.
use vstd::prelude::*;

verus! {

/// Packages: the id is the key; name and source together occur once.
pub const CREATE_TABLE_PACKAGES: &'static str =
    "CREATE TABLE IF NOT EXISTS Packages (\n    package_id INTEGER PRIMARY KEY,\n    package_name TEXT NOT NULL,\n    source TEXT NOT NULL,\n    description TEXT,\n    UNIQUE (package_name, source)\n);";

/// Versions: each belongs to a package, which has it once.
pub const CREATE_TABLE_PACKAGE_VERSION: &'static str =
    "CREATE TABLE IF NOT EXISTS PackageVersions (\n    version_id INTEGER PRIMARY KEY,\n    package_id INTEGER NOT NULL,\n    version TEXT NOT NULL,\n    FOREIGN KEY (package_id) REFERENCES Packages(package_id),\n    UNIQUE (package_id, version)\n);";

/// Installations: each belongs to a version and carries one of two actions.
pub const CREATE_TABLE_INSTALLATIONS: &'static str =
    "CREATE TABLE IF NOT EXISTS Installations (\n    installation_id INTEGER PRIMARY KEY,\n    version_id INTEGER NOT NULL,\n    action TEXT NOT NULL CHECK(action IN ('install', 'uninstall')),\n    timestamp TEXT NOT NULL,\n    FOREIGN KEY (version_id) REFERENCES PackageVersions(version_id)\n);";

/// Tags: each name occurs once.
pub const CREATE_TABLE_TAGS: &'static str =
    "CREATE TABLE IF NOT EXISTS Tags (\n    tag_id INTEGER PRIMARY KEY,\n    tag_name TEXT NOT NULL UNIQUE\n);";

/// Attachments of tags to packages: each pair occurs once.
pub const CREATE_TABLE_PACKAGE_TAGS: &'static str =
    "CREATE TABLE IF NOT EXISTS PackageTags (\n    package_id INTEGER NOT NULL,\n    tag_id INTEGER NOT NULL,\n    FOREIGN KEY (package_id) REFERENCES Packages(package_id),\n    FOREIGN KEY (tag_id) REFERENCES Tags(tag_id),\n    PRIMARY KEY (package_id, tag_id)\n);";

/// The statement that stores a package.
pub const INSERT_PACKAGE: &'static str =
    "INSERT INTO Packages (package_id, package_name, source, description) VALUES (?1, ?2, ?3, ?4)";

/// The statement that stores a version.
pub const INSERT_PACKAGE_VERSION: &'static str =
    "INSERT INTO PackageVersions (version_id, package_id, version) VALUES (?1, ?2, ?3)";

/// The statement that stores an installation.
pub const INSERT_INSTALLATION: &'static str =
    "INSERT INTO Installations (installation_id, version_id, action, timestamp) VALUES (?1, ?2, ?3, ?4)";

/// The statement that stores a tag.
pub const INSERT_TAG: &'static str = "INSERT INTO Tags (tag_id, tag_name) VALUES (?1, ?2)";

/// The statement that stores the attachment of a tag to a package.
pub const INSERT_PACKAGE_TAG: &'static str =
    "INSERT INTO PackageTags (package_id, tag_id) VALUES (?1, ?2)";

/// The statements that create the five tables, one after the other with a
/// line break between.
pub open spec fn schema_text() -> Seq<char> {
    CREATE_TABLE_PACKAGES@ + "\n"@ + CREATE_TABLE_INSTALLATIONS@ + "\n"@
        + CREATE_TABLE_PACKAGE_TAGS@ + "\n"@ + CREATE_TABLE_PACKAGE_VERSION@ + "\n"@
        + CREATE_TABLE_TAGS@
}

/// The statements that create the five tables where they do not exist.
pub fn schema_sql() -> (out: String)
    ensures
        out@ == schema_text(),
{
    let mut out = CREATE_TABLE_PACKAGES.to_owned();
    out.append("\n");
    out.append(CREATE_TABLE_INSTALLATIONS);
    out.append("\n");
    out.append(CREATE_TABLE_PACKAGE_TAGS);
    out.append("\n");
    out.append(CREATE_TABLE_PACKAGE_VERSION);
    out.append("\n");
    out.append(CREATE_TABLE_TAGS);
    out
}

} // verus!
