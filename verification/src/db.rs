//! The first record of installed packages: one table, one row for each
//! package, with the manager that installed it.
use vstd::prelude::*;
use crate::error::{StorageError, TrackError};
use crate::text::same_text;

verus! {

/// The name of the tracker's directory among the user's data.
pub const APP_DIR_NAME: &'static str = "forget-me-not";

/// The name of the store's file in that directory.
pub const DB_NAME: &'static str = "todos.db";

/// One installed package.
#[derive(Debug, PartialEq, Eq)]
pub struct InstalledPackages {
    pub manager: String,
    pub package: String,
    pub version: Option<String>,
    pub install_date: String,
}

/// What an [`InstalledPackages`] stands for.
pub struct InstalledRow {
    pub manager: Seq<char>,
    pub package: Seq<char>,
    pub version: Seq<char>,
    pub install_date: Seq<char>,
}

/// A row as it is stored: the version is always there.
struct StoredRow {
    manager: String,
    package: String,
    version: String,
    install_date: String,
}

impl View for StoredRow {
    type V = InstalledRow;

    closed spec fn view(&self) -> InstalledRow {
        InstalledRow {
            manager: self.manager@,
            package: self.package@,
            version: self.version@,
            install_date: self.install_date@,
        }
    }
}

/// The table of installed packages.
pub struct InstalledTable {
    created: bool,
    rows: Vec<StoredRow>,
}

impl View for InstalledTable {
    type V = Seq<InstalledRow>;

    closed spec fn view(&self) -> Seq<InstalledRow> {
        self.rows@.map_values(|r: StoredRow| r@)
    }
}

/// Whether a row that is handed out shows a stored row.
pub open spec fn shows(out: InstalledPackages, row: InstalledRow) -> bool {
    &&& out.manager@ == row.manager
    &&& out.package@ == row.package
    &&& out.version matches Some(v) && v@ == row.version
    &&& out.install_date@ == row.install_date
}

/// The rows among the first `n` whose package is not `package`.
pub open spec fn without_package(rows: Seq<InstalledRow>, package: Seq<char>, n: int) -> Seq<
    InstalledRow,
>
    decreases n,
{
    if n <= 0 {
        Seq::empty()
    } else if rows[n - 1].package == package {
        without_package(rows, package, n - 1)
    } else {
        without_package(rows, package, n - 1).push(rows[n - 1])
    }
}

/// Whether a row has this package.
pub open spec fn has_package_row(rows: Seq<InstalledRow>, package: Seq<char>) -> bool {
    exists|i: int| 0 <= i < rows.len() && (#[trigger] rows[i]).package == package
}

/// A row with a new version and date where its package is `package`; the
/// row as it is where not.
pub open spec fn updated_row(
    row: InstalledRow,
    package: Seq<char>,
    version: Seq<char>,
    date: Seq<char>,
) -> InstalledRow {
    if row.package == package {
        InstalledRow { version, install_date: date, ..row }
    } else {
        row
    }
}

impl InstalledTable {
    /// Whether the table has been created.
    pub closed spec fn created(&self) -> bool {
        self.created
    }

    /// A store in which the table has not been created.
    pub fn new() -> (out: InstalledTable)
        ensures
            !out.created(),
            out@.len() == 0,
    {
        InstalledTable { created: false, rows: Vec::new() }
    }

    /// Whether the table has been created.
    pub fn is_created(&self) -> (out: bool)
        ensures
            out == self.created(),
    {
        self.created
    }
}

/// Creates the table where it does not exist. Rows that are there stay.
pub fn create_table(table: &mut InstalledTable) -> (out: Result<(), TrackError>)
    ensures
        out is Ok,
        final(table).created(),
        final(table)@ == old(table)@,
{
    table.created = true;
    Ok(())
}

/// Adds a row. Fails, and changes nothing, where the table is missing.
pub fn add_package(
    table: &mut InstalledTable,
    manager: String,
    package: String,
    version: String,
    install_date: String,
) -> (out: Result<(), TrackError>)
    ensures
        final(table).created() == old(table).created(),
        old(table).created() ==> out is Ok && final(table)@ == old(table)@.push(
            InstalledRow {
                manager: manager@,
                package: package@,
                version: version@,
                install_date: install_date@,
            },
        ),
        !old(table).created() ==> final(table)@ == old(table)@ && out == Err::<(), TrackError>(
            TrackError::Storage(StorageError::SchemaMissing),
        ),
{
    if !table.created {
        return Err(TrackError::Storage(StorageError::SchemaMissing));
    }
    let ghost before = table@;
    let row = StoredRow { manager, package, version, install_date };
    table.rows.push(row);
    proof {
        assert(table@ =~= before.push(row@));
    }
    Ok(())
}

/// All rows, in the order of insertion. The table must exist.
pub fn query_all(table: &InstalledTable) -> (out: Vec<InstalledPackages>)
    requires
        table.created(),
    ensures
        out@.len() == table@.len(),
        forall|i: int| 0 <= i < out@.len() ==> shows(#[trigger] out@[i], table@[i]),
{
    let mut out: Vec<InstalledPackages> = Vec::new();
    let mut i: usize = 0;
    while i < table.rows.len()
        invariant
            i <= table.rows.len(),
            out@.len() == i,
            forall|j: int| 0 <= j < i ==> shows(#[trigger] out@[j], table@[j]),
        decreases table.rows.len() - i,
    {
        let row = &table.rows[i];
        out.push(
            InstalledPackages {
                manager: row.manager.clone(),
                package: row.package.clone(),
                version: Some(row.version.clone()),
                install_date: row.install_date.clone(),
            },
        );
        i += 1;
    }
    out
}

/// Whether a row has this package. The table must exist.
pub fn query_package(table: &InstalledTable, package: String) -> (out: bool)
    requires
        table.created(),
    ensures
        out == has_package_row(table@, package@),
{
    let mut i: usize = 0;
    while i < table.rows.len()
        invariant
            i <= table.rows.len(),
            forall|j: int| 0 <= j < i ==> (#[trigger] table@[j]).package != package@,
        decreases table.rows.len() - i,
    {
        if same_text(table.rows[i].package.as_str(), package.as_str()) {
            assert(table@[i as int].package == package@);
            return true;
        }
        i += 1;
    }
    false
}

/// Deletes the rows of a package and answers whether there was one. Where
/// the table is missing nothing is deleted.
pub fn remove_data(table: &mut InstalledTable, package: String) -> (out: bool)
    ensures
        final(table).created() == old(table).created(),
        old(table).created() ==> final(table)@ == without_package(
            old(table)@,
            package@,
            old(table)@.len() as int,
        ) && out == (final(table)@.len() < old(table)@.len()),
        !old(table).created() ==> final(table)@ == old(table)@ && !out,
{
    if !table.created {
        return false;
    }
    let ghost before = table@;
    let mut kept: Vec<StoredRow> = Vec::new();
    let mut dropped = false;
    let mut rest: Vec<StoredRow> = Vec::new();
    std::mem::swap(&mut rest, &mut table.rows);
    let ghost all = rest@;
    for row in it: rest
        invariant
            it.seq() == all,
            before == all.map_values(|r: StoredRow| r@),
            kept@.map_values(|r: StoredRow| r@) == without_package(
                before,
                package@,
                it.index() as int,
            ),
            kept@.len() <= it.index(),
            dropped == (kept@.len() < it.index()),
    {
        let ghost so_far = kept@.map_values(|r: StoredRow| r@);
        if same_text(row.package.as_str(), package.as_str()) {
            dropped = true;
        } else {
            kept.push(row);
            proof {
                assert(kept@.map_values(|r: StoredRow| r@) =~= so_far.push(row@));
            }
        }
    }
    table.rows = kept;
    dropped
}

/// Gives the rows of a package a new version and date, and answers whether
/// there was one. Where the table is missing nothing changes.
pub fn update_package(table: &mut InstalledTable, package: String, version: String, date: String) -> (out:
    bool)
    ensures
        final(table).created() == old(table).created(),
        final(table)@.len() == old(table)@.len(),
        old(table).created() ==> out == has_package_row(old(table)@, package@) && forall|i: int|
            0 <= i < old(table)@.len() ==> #[trigger] final(table)@[i] == updated_row(
                old(table)@[i],
                package@,
                version@,
                date@,
            ),
        !old(table).created() ==> final(table)@ == old(table)@ && !out,
{
    if !table.created {
        return false;
    }
    let ghost before = table@;
    let mut changed = false;
    let mut done: Vec<StoredRow> = Vec::new();
    let mut rest: Vec<StoredRow> = Vec::new();
    std::mem::swap(&mut rest, &mut table.rows);
    let ghost all = rest@;
    for row in it: rest
        invariant
            it.seq() == all,
            before == all.map_values(|r: StoredRow| r@),
            done@.len() == it.index(),
            forall|j: int|
                0 <= j < it.index() ==> (#[trigger] done@[j])@ == updated_row(
                    before[j],
                    package@,
                    version@,
                    date@,
                ),
            changed == has_package_row(before.take(it.index() as int), package@),
    {
        let ghost k = it.index() as int;
        let hit = same_text(row.package.as_str(), package.as_str());
        proof {
            let shorter = before.take(k);
            let longer = before.take(k + 1);
            if has_package_row(shorter, package@) {
                let w = choose|w: int| 0 <= w < shorter.len() && (#[trigger] shorter[w]).package == package@;
                assert(longer[w].package == package@);
            }
            if hit {
                assert(longer[k].package == package@);
            }
            if has_package_row(longer, package@) && !hit {
                let w = choose|w: int| 0 <= w < longer.len() && (#[trigger] longer[w]).package == package@;
                assert(shorter[w].package == package@);
            }
        }
        if hit {
            changed = true;
            done.push(
                StoredRow {
                    manager: row.manager,
                    package: row.package,
                    version: version.clone(),
                    install_date: date.clone(),
                },
            );
        } else {
            done.push(row);
        }
    }
    proof {
        assert(before.take(before.len() as int) =~= before);
    }
    table.rows = done;
    changed
}

} // verus!
