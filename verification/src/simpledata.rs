//! The flat record of packages: one table, one row for each package that was
//! tracked, with what is known of it as text.
use vstd::prelude::*;
use crate::error::{StorageError, TrackError};
use crate::rows::{copy_opt, opt_text};
use crate::text::same_text;

verus! {

/// One tracked package.
#[derive(Debug, PartialEq, Eq)]
pub struct SimplePackageData {
    pub id: i64,
    pub name: String,
    pub source: String,
    pub description: Option<String>,
    pub installation: Option<String>,
}

/// What a [`SimplePackageData`] stands for.
pub struct SimpleRow {
    pub id: int,
    pub name: Seq<char>,
    pub source: Seq<char>,
    pub description: Option<Seq<char>>,
    pub installation: Option<Seq<char>>,
}

impl View for SimplePackageData {
    type V = SimpleRow;

    open spec fn view(&self) -> SimpleRow {
        SimpleRow {
            id: self.id as int,
            name: self.name@,
            source: self.source@,
            description: opt_text(self.description),
            installation: opt_text(self.installation),
        }
    }
}

/// The text of an optional value: the value, or the word `None`.
pub open spec fn or_none(value: Option<Seq<char>>) -> Seq<char> {
    match value {
        Some(text) => text,
        None => "None"@,
    }
}

/// The four lines that show a row: name, source, description, installation.
pub open spec fn shown(row: SimpleRow) -> Seq<char> {
    "name: "@ + row.name + "\nsource: "@ + row.source + "\ndescription: "@ + or_none(
        row.description,
    ) + "\ninstallation: "@ + or_none(row.installation)
}

/// The rows of a table, each shown and followed by an empty line.
pub open spec fn shown_all(rows: Seq<SimpleRow>, n: int) -> Seq<char>
    decreases n,
{
    if n <= 0 {
        Seq::empty()
    } else {
        shown_all(rows, n - 1) + shown(rows[n - 1]) + "\n\n"@
    }
}

impl SimplePackageData {
    /// A row that has not been stored yet: its id is 0.
    pub fn new(
        name: String,
        source: String,
        description: Option<String>,
        installation: Option<String>,
    ) -> (out: SimplePackageData)
        ensures
            out@ == (SimpleRow {
                id: 0,
                name: name@,
                source: source@,
                description: opt_text(description),
                installation: opt_text(installation),
            }),
    {
        SimplePackageData { id: 0, name, source, description, installation }
    }

    /// A copy of this row.
    pub fn duplicate(&self) -> (out: SimplePackageData)
        ensures
            out@ == self@,
    {
        SimplePackageData {
            id: self.id,
            name: self.name.clone(),
            source: self.source.clone(),
            description: copy_opt(&self.description),
            installation: copy_opt(&self.installation),
        }
    }

    /// The row as four lines of text.
    pub fn to_display_string(&self) -> (out: String)
        ensures
            out@ == shown(self@),
    {
        let mut out = "name: ".to_owned();
        out.append(self.name.as_str());
        out.append("\nsource: ");
        out.append(self.source.as_str());
        out.append("\ndescription: ");
        match &self.description {
            Some(text) => out.append(text.as_str()),
            None => out.append("None"),
        }
        out.append("\ninstallation: ");
        match &self.installation {
            Some(text) => out.append(text.as_str()),
            None => out.append("None"),
        }
        out
    }
}

/// What each row of a vector stands for.
pub open spec fn simple_rows(rows: Seq<SimplePackageData>) -> Seq<SimpleRow> {
    rows.map_values(|r: SimplePackageData| r@)
}

/// A list of rows, to be shown at length.
#[derive(Debug)]
pub struct LongDisplayableSimpleDataVec<'a>(pub &'a Vec<SimplePackageData>);

impl<'a> LongDisplayableSimpleDataVec<'a> {
    /// The list of these rows.
    pub fn from(value: &'a Vec<SimplePackageData>) -> (out: LongDisplayableSimpleDataVec<'a>)
        ensures
            out.0 == value,
    {
        LongDisplayableSimpleDataVec(value)
    }

    /// Every row as four lines of text, each row followed by an empty line.
    pub fn to_display_string(&self) -> (out: String)
        ensures
            out@ == shown_all(simple_rows(self.0@), self.0@.len() as int),
    {
        let mut out = String::new();
        let mut i: usize = 0;
        while i < self.0.len()
            invariant
                i <= self.0.len(),
                out@ == shown_all(simple_rows(self.0@), i as int),
            decreases self.0.len() - i,
        {
            let item = self.0[i].to_display_string();
            out.append(item.as_str());
            out.append("\n\n");
            i += 1;
            proof {
                assert(out@ =~= shown_all(simple_rows(self.0@), i - 1) + shown(
                    simple_rows(self.0@)[i - 1],
                ) + "\n\n"@);
            }
        }
        out
    }
}

/// The table of the flat record.
pub struct SimpleTable {
    created: bool,
    rows: Vec<SimplePackageData>,
}

impl View for SimpleTable {
    type V = Seq<SimpleRow>;

    closed spec fn view(&self) -> Seq<SimpleRow> {
        simple_rows(self.rows@)
    }
}

/// The largest id among the first `n` rows; the id of the first row where
/// `n` is not positive.
pub open spec fn largest_id(rows: Seq<SimpleRow>, n: int) -> int
    decreases n,
{
    if n <= 1 {
        rows[0].id
    } else if rows[n - 1].id > largest_id(rows, n - 1) {
        rows[n - 1].id
    } else {
        largest_id(rows, n - 1)
    }
}

/// The id that a table gives to its next row: 1 in a table without rows,
/// else one more than the largest id in the table.
pub open spec fn next_simple_id(rows: Seq<SimpleRow>) -> int {
    if rows.len() == 0 {
        1
    } else {
        largest_id(rows, rows.len() as int) + 1
    }
}

/// No row among the first `n` has an id above `largest_id`, and one of them
/// has it.
pub proof fn lemma_largest_id(rows: Seq<SimpleRow>, n: int)
    requires
        1 <= n <= rows.len(),
    ensures
        forall|i: int| 0 <= i < n ==> (#[trigger] rows[i]).id <= largest_id(rows, n),
        exists|i: int| 0 <= i < n && (#[trigger] rows[i]).id == largest_id(rows, n),
    decreases n,
{
    if n > 1 {
        lemma_largest_id(rows, n - 1);
        let i = choose|i: int| 0 <= i < n - 1 && (#[trigger] rows[i]).id == largest_id(rows, n - 1);
        if rows[n - 1].id > largest_id(rows, n - 1) {
            assert(rows[n - 1].id == largest_id(rows, n));
        } else {
            assert(rows[i].id == largest_id(rows, n));
        }
    } else {
        assert(rows[0].id == largest_id(rows, n));
    }
}

/// The id that the next row gets is the id of no row that is there.
pub proof fn lemma_next_simple_id_fresh(rows: Seq<SimpleRow>)
    ensures
        forall|i: int| 0 <= i < rows.len() ==> (#[trigger] rows[i]).id < next_simple_id(rows),
{
    if rows.len() > 0 {
        lemma_largest_id(rows, rows.len() as int);
    }
}

/// The rows whose name is not `name`, among the first `n`.
pub open spec fn without_name(rows: Seq<SimpleRow>, name: Seq<char>, n: int) -> Seq<SimpleRow>
    decreases n,
{
    if n <= 0 {
        Seq::empty()
    } else if rows[n - 1].name == name {
        without_name(rows, name, n - 1)
    } else {
        without_name(rows, name, n - 1).push(rows[n - 1])
    }
}

/// Why a row cannot be stored, where it cannot: the table is missing, or it
/// has used its last row id.
pub open spec fn insert_refusal(created: bool, rows: Seq<SimpleRow>) -> Option<TrackError> {
    if !created {
        Some(TrackError::Storage(StorageError::SchemaMissing))
    } else if next_simple_id(rows) > i64::MAX {
        Some(TrackError::Storage(StorageError::RowIdsExhausted))
    } else {
        None
    }
}

impl SimpleTable {
    /// Whether the table has been created.
    pub closed spec fn created(&self) -> bool {
        self.created
    }

    /// The table with these rows, as they were read from where they are
    /// kept.
    pub fn from_rows(rows: Vec<SimplePackageData>) -> (out: SimpleTable)
        ensures
            out.created(),
            out@ == simple_rows(rows@),
    {
        SimpleTable { created: true, rows }
    }

    /// A store in which the table has not been created.
    pub fn new() -> (out: SimpleTable)
        ensures
            !out.created(),
            out@ == Seq::<SimpleRow>::empty(),
    {
        let out = SimpleTable { created: false, rows: Vec::new() };
        proof {
            assert(out@ =~= Seq::<SimpleRow>::empty());
        }
        out
    }
}

/// The largest id in a table that has a row.
fn largest(rows: &Vec<SimplePackageData>) -> (out: i64)
    requires
        rows@.len() > 0,
    ensures
        out == largest_id(simple_rows(rows@), rows@.len() as int),
{
    let ghost table = simple_rows(rows@);
    let mut out = rows[0].id;
    let mut i: usize = 1;
    while i < rows.len()
        invariant
            1 <= i <= rows.len(),
            table == simple_rows(rows@),
            out == largest_id(table, i as int),
        decreases rows.len() - i,
    {
        assert(table[i as int] == rows@[i as int]@);
        if rows[i].id > out {
            out = rows[i].id;
        }
        i += 1;
    }
    out
}

/// Creates the table where it does not exist. Rows that are there stay.
pub fn try_create_table(table: &mut SimpleTable) -> (out: Result<(), TrackError>)
    ensures
        out is Ok,
        final(table).created(),
        final(table)@ == old(table)@,
{
    if !table.created {
        table.created = true;
    }
    Ok(())
}

/// All rows, in the order of insertion.
pub fn try_list_all(table: &SimpleTable) -> (out: Result<Vec<SimplePackageData>, TrackError>)
    ensures
        table@.len() <= usize::MAX,
        table.created() ==> out is Ok && simple_rows(out->Ok_0@) == table@,
        !table.created() ==> out == Err::<Vec<SimplePackageData>, TrackError>(
            TrackError::Storage(StorageError::SchemaMissing),
        ),
{
    assert(table@.len() == table.rows.len());
    if !table.created {
        return Err(TrackError::Storage(StorageError::SchemaMissing));
    }
    let mut out: Vec<SimplePackageData> = Vec::new();
    let mut i: usize = 0;
    while i < table.rows.len()
        invariant
            i <= table.rows.len(),
            out@.len() == i,
            forall|j: int| 0 <= j < i ==> out@[j]@ == table.rows@[j]@,
        decreases table.rows.len() - i,
    {
        out.push(table.rows[i].duplicate());
        i += 1;
    }
    proof {
        assert(simple_rows(out@) =~= table@);
    }
    Ok(out)
}

/// Stores one row and answers how many rows were written: one. The id that
/// the row came with is ignored: the table gives the row one more than the
/// largest id that it holds, which is the id of no row that is there. Every
/// earlier row stays as it is.
pub fn try_insert(table: &mut SimpleTable, simple_package: SimplePackageData) -> (out: Result<
    usize,
    TrackError,
>)
    ensures
        final(table).created() == old(table).created(),
        match insert_refusal(old(table).created(), old(table)@) {
            Some(cause) => final(table)@ == old(table)@ && out == Err::<usize, TrackError>(cause),
            None => out == Ok::<usize, TrackError>(1) && final(table)@ == old(table)@.push(
                SimpleRow { id: next_simple_id(old(table)@), ..simple_package@ },
            ) && forall|i: int|
                0 <= i < old(table)@.len() ==> (#[trigger] old(table)@[i]).id != next_simple_id(
                    old(table)@,
                ),
        },
{
    if !table.created {
        return Err(TrackError::Storage(StorageError::SchemaMissing));
    }
    let id: i64 = if table.rows.len() == 0 {
        1
    } else {
        let top = largest(&table.rows);
        if top == i64::MAX {
            return Err(TrackError::Storage(StorageError::RowIdsExhausted));
        }
        top + 1
    };
    let ghost before = table@;
    proof {
        lemma_next_simple_id_fresh(before);
    }
    let mut row = simple_package;
    row.id = id;
    table.rows.push(row);
    proof {
        assert(table@ =~= before.push(SimpleRow { id: id as int, ..simple_package@ }));
    }
    Ok(1)
}

/// Deletes every row and answers how many there were.
pub fn try_clear_packages(table: &mut SimpleTable) -> (out: Result<usize, TrackError>)
    ensures
        old(table)@.len() <= usize::MAX,
        final(table).created() == old(table).created(),
        !old(table).created() ==> final(table)@ == old(table)@ && out == Err::<usize, TrackError>(
            TrackError::Storage(StorageError::SchemaMissing),
        ),
        old(table).created() ==> out == Ok::<usize, TrackError>(old(table)@.len() as usize)
            && final(table)@.len() == 0,
{
    assert(table@.len() == table.rows.len());
    if !table.created {
        return Err(TrackError::Storage(StorageError::SchemaMissing));
    }
    let n = table.rows.len();
    table.rows = Vec::new();
    Ok(n)
}

/// Deletes the rows of the packages with this name and answers how many
/// there were. The other rows keep their order.
pub fn try_delete_package_name(table: &mut SimpleTable, package_name: &str) -> (out: Result<
    usize,
    TrackError,
>)
    ensures
        old(table)@.len() <= usize::MAX,
        final(table).created() == old(table).created(),
        !old(table).created() ==> final(table)@ == old(table)@ && out == Err::<usize, TrackError>(
            TrackError::Storage(StorageError::SchemaMissing),
        ),
        old(table).created() ==> final(table)@ == without_name(
            old(table)@,
            package_name@,
            old(table)@.len() as int,
        ) && final(table)@.len() <= old(table)@.len() && out == Ok::<usize, TrackError>(
            (old(table)@.len() - final(table)@.len()) as usize,
        ),
{
    assert(table@.len() == table.rows.len());
    if !table.created {
        return Err(TrackError::Storage(StorageError::SchemaMissing));
    }
    let ghost before = table@;
    let mut kept: Vec<SimplePackageData> = Vec::new();
    let mut dropped: usize = 0;
    let mut i: usize = 0;
    while i < table.rows.len()
        invariant
            i <= table.rows.len(),
            before == simple_rows(table.rows@),
            simple_rows(kept@) == without_name(before, package_name@, i as int),
            kept@.len() + dropped == i,
        decreases table.rows.len() - i,
    {
        let ghost so_far = simple_rows(kept@);
        if same_text(table.rows[i].name.as_str(), package_name) {
            dropped += 1;
        } else {
            kept.push(table.rows[i].duplicate());
            proof {
                assert(simple_rows(kept@) =~= so_far.push(before[i as int]));
            }
        }
        i += 1;
    }
    table.rows = kept;
    Ok(dropped)
}

} // verus!
