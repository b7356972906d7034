//! The five kinds of row that the store holds, and what each stands for.
use vstd::prelude::*;
use crate::text::same_text;

verus! {

/// A package, known by its name and the source it came from.
#[derive(Debug, PartialEq, Eq)]
pub struct Package {
    pub package_id: i64,
    pub package_name: String,
    pub source: String,
    pub description: Option<String>,
}

/// One version of one package.
#[derive(Debug, PartialEq, Eq)]
pub struct PackageVersion {
    pub version_id: i64,
    pub package_id: i64,
    pub version: String,
}

/// One logged action on one version of a package.
#[derive(Debug, PartialEq, Eq)]
pub struct Installation {
    pub installation_id: i64,
    pub version_id: i64,
    pub action: String,
    pub timestamp: String,
}

/// A tag, known by its name.
#[derive(Debug, PartialEq, Eq)]
pub struct Tag {
    pub tag_id: i64,
    pub tag_name: String,
}

/// The attachment of one tag to one package.
#[derive(Debug, PartialEq, Eq)]
pub struct PackageTag {
    pub package_id: i64,
    pub tag_id: i64,
}

/// What a [`Package`] stands for.
pub struct PackageRow {
    pub id: int,
    pub name: Seq<char>,
    pub source: Seq<char>,
    pub description: Option<Seq<char>>,
}

/// What a [`PackageVersion`] stands for.
pub struct VersionRow {
    pub id: int,
    pub package_id: int,
    pub version: Seq<char>,
}

/// What an [`Installation`] stands for.
pub struct InstallationRow {
    pub id: int,
    pub version_id: int,
    pub action: Seq<char>,
    pub timestamp: Seq<char>,
}

/// What a [`Tag`] stands for.
pub struct TagRow {
    pub id: int,
    pub name: Seq<char>,
}

/// What a [`PackageTag`] stands for.
pub struct PackageTagRow {
    pub package_id: int,
    pub tag_id: int,
}

/// The characters of an optional string.
pub open spec fn opt_text(s: Option<String>) -> Option<Seq<char>> {
    match s {
        Some(t) => Some(t@),
        None => None,
    }
}

/// The characters of an optional string slice.
pub open spec fn opt_str_text(s: Option<&str>) -> Option<Seq<char>> {
    match s {
        Some(t) => Some(t@),
        None => None,
    }
}

/// An owned copy of an optional string.
pub fn copy_opt(s: &Option<String>) -> (out: Option<String>)
    ensures
        opt_text(out) == opt_text(*s),
{
    match s {
        Some(t) => Some(t.clone()),
        None => None,
    }
}

/// An owned copy of an optional string slice.
pub fn own_opt(s: Option<&str>) -> (out: Option<String>)
    ensures
        opt_text(out) == opt_str_text(s),
{
    match s {
        Some(t) => Some(t.to_owned()),
        None => None,
    }
}

impl View for Package {
    type V = PackageRow;

    open spec fn view(&self) -> PackageRow {
        PackageRow {
            id: self.package_id as int,
            name: self.package_name@,
            source: self.source@,
            description: opt_text(self.description),
        }
    }
}

impl View for PackageVersion {
    type V = VersionRow;

    open spec fn view(&self) -> VersionRow {
        VersionRow {
            id: self.version_id as int,
            package_id: self.package_id as int,
            version: self.version@,
        }
    }
}

impl View for Installation {
    type V = InstallationRow;

    open spec fn view(&self) -> InstallationRow {
        InstallationRow {
            id: self.installation_id as int,
            version_id: self.version_id as int,
            action: self.action@,
            timestamp: self.timestamp@,
        }
    }
}

impl View for Tag {
    type V = TagRow;

    open spec fn view(&self) -> TagRow {
        TagRow { id: self.tag_id as int, name: self.tag_name@ }
    }
}

impl View for PackageTag {
    type V = PackageTagRow;

    open spec fn view(&self) -> PackageTagRow {
        PackageTagRow { package_id: self.package_id as int, tag_id: self.tag_id as int }
    }
}

/// A row of the store: it stands for a value, and can be copied.
pub trait Row: View + Sized {
    /// A copy of this row.
    fn duplicate(&self) -> (out: Self)
        ensures
            out@ == self@,
    ;
}

/// What each row of a table stands for.
pub open spec fn views<R: View>(rows: Seq<R>) -> Seq<R::V> {
    rows.map_values(|r: R| r@)
}

/// A copy of a table, row for row.
pub fn copy_rows<R: Row>(rows: &Vec<R>) -> (out: Vec<R>)
    ensures
        views(out@) == views(rows@),
{
    let mut out: Vec<R> = Vec::new();
    let mut i: usize = 0;
    while i < rows.len()
        invariant
            i <= rows.len(),
            out@.len() == i,
            forall|j: int| 0 <= j < i ==> out@[j]@ == rows@[j]@,
        decreases rows.len() - i,
    {
        out.push(rows[i].duplicate());
        i += 1;
    }
    proof {
        assert(views(out@) =~= views(rows@));
    }
    out
}

/// A copy of the rows of a table from position `from` on.
pub fn copy_rows_from<R: Row>(rows: &Vec<R>, from: usize) -> (out: Vec<R>)
    ensures
        views(out@) == views(rows@).skip(
            if from <= rows@.len() {
                from as int
            } else {
                rows@.len() as int
            },
        ),
{
    let mut out: Vec<R> = Vec::new();
    let start = if from <= rows.len() {
        from
    } else {
        rows.len()
    };
    let mut i: usize = start;
    while i < rows.len()
        invariant
            start <= i <= rows.len(),
            out@.len() == i - start,
            forall|j: int| 0 <= j < i - start ==> out@[j]@ == rows@[start + j]@,
        decreases rows.len() - i,
    {
        out.push(rows[i].duplicate());
        i += 1;
    }
    proof {
        assert(views(out@) =~= views(rows@).skip(start as int));
    }
    out
}

impl Row for Package {
    fn duplicate(&self) -> (out: Package) {
        Package {
            package_id: self.package_id,
            package_name: self.package_name.clone(),
            source: self.source.clone(),
            description: copy_opt(&self.description),
        }
    }
}

impl Row for PackageVersion {
    fn duplicate(&self) -> (out: PackageVersion) {
        PackageVersion {
            version_id: self.version_id,
            package_id: self.package_id,
            version: self.version.clone(),
        }
    }
}

impl Row for Installation {
    fn duplicate(&self) -> (out: Installation) {
        Installation {
            installation_id: self.installation_id,
            version_id: self.version_id,
            action: self.action.clone(),
            timestamp: self.timestamp.clone(),
        }
    }
}

impl Row for Tag {
    fn duplicate(&self) -> (out: Tag) {
        Tag { tag_id: self.tag_id, tag_name: self.tag_name.clone() }
    }
}

impl Row for PackageTag {
    fn duplicate(&self) -> (out: PackageTag) {
        PackageTag { package_id: self.package_id, tag_id: self.tag_id }
    }
}

/// A row with an id of its own.
pub trait Identified: Row {
    /// The id of what the row stands for.
    spec fn id_of(row: Self::V) -> int;

    /// The id of the row.
    fn row_id(&self) -> (out: i64)
        ensures
            out == Self::id_of(self@),
    ;
}

/// A row with a key that no other row of its table may share.
pub trait Keyed: Row {
    /// Whether two rows have the same key.
    spec fn same_key(a: Self::V, b: Self::V) -> bool;

    /// Whether this row and another have the same key.
    fn shares_key(&self, other: &Self) -> (out: bool)
        ensures
            out == Self::same_key(self@, other@),
    ;
}

impl Identified for Package {
    open spec fn id_of(row: PackageRow) -> int {
        row.id
    }

    fn row_id(&self) -> (out: i64) {
        self.package_id
    }
}

impl Identified for PackageVersion {
    open spec fn id_of(row: VersionRow) -> int {
        row.id
    }

    fn row_id(&self) -> (out: i64) {
        self.version_id
    }
}

impl Identified for Installation {
    open spec fn id_of(row: InstallationRow) -> int {
        row.id
    }

    fn row_id(&self) -> (out: i64) {
        self.installation_id
    }
}

impl Identified for Tag {
    open spec fn id_of(row: TagRow) -> int {
        row.id
    }

    fn row_id(&self) -> (out: i64) {
        self.tag_id
    }
}

impl Keyed for Package {
    open spec fn same_key(a: PackageRow, b: PackageRow) -> bool {
        a.name == b.name && a.source == b.source
    }

    fn shares_key(&self, other: &Package) -> (out: bool) {
        same_text(self.package_name.as_str(), other.package_name.as_str()) && same_text(
            self.source.as_str(),
            other.source.as_str(),
        )
    }
}

impl Keyed for PackageVersion {
    open spec fn same_key(a: VersionRow, b: VersionRow) -> bool {
        a.package_id == b.package_id && a.version == b.version
    }

    fn shares_key(&self, other: &PackageVersion) -> (out: bool) {
        self.package_id == other.package_id && same_text(
            self.version.as_str(),
            other.version.as_str(),
        )
    }
}

impl Keyed for Tag {
    open spec fn same_key(a: TagRow, b: TagRow) -> bool {
        a.name == b.name
    }

    fn shares_key(&self, other: &Tag) -> (out: bool) {
        same_text(self.tag_name.as_str(), other.tag_name.as_str())
    }
}

impl Keyed for PackageTag {
    open spec fn same_key(a: PackageTagRow, b: PackageTagRow) -> bool {
        a.package_id == b.package_id && a.tag_id == b.tag_id
    }

    fn shares_key(&self, other: &PackageTag) -> (out: bool) {
        self.package_id == other.package_id && self.tag_id == other.tag_id
    }
}

/// Whether the ids are positive and grow along the table.
pub open spec fn ids_rise<R: Identified>(rows: Seq<R::V>) -> bool {
    &&& forall|i: int| 0 <= i < rows.len() ==> 1 <= R::id_of(#[trigger] rows[i])
    &&& forall|i: int, j: int|
        0 <= i < j < rows.len() ==> R::id_of(#[trigger] rows[i]) < R::id_of(#[trigger] rows[j])
}

/// Whether no two rows of the table share a key.
pub open spec fn keys_differ<R: Keyed>(rows: Seq<R::V>) -> bool {
    forall|i: int, j: int|
        0 <= i < j < rows.len() ==> !R::same_key(#[trigger] rows[i], #[trigger] rows[j])
}

/// Whether a row of the table has this id.
pub open spec fn holds_id<R: Identified>(rows: Seq<R::V>, id: int) -> bool {
    exists|k: int| 0 <= k < rows.len() && R::id_of(#[trigger] rows[k]) == id
}

/// The id that the next row of the table gets: one more than the last.
pub open spec fn next_id_of<R: Identified>(rows: Seq<R::V>) -> int {
    if rows.len() == 0 {
        1
    } else {
        R::id_of(rows.last()) + 1
    }
}

/// The id that the next row of the table gets, unless the table has used the
/// last id that there is.
pub fn next_row_id<R: Identified>(rows: &Vec<R>) -> (out: Option<i64>)
    ensures
        match out {
            Some(id) => id == next_id_of::<R>(views(rows@)),
            None => next_id_of::<R>(views(rows@)) > i64::MAX,
        },
{
    let n = rows.len();
    if n == 0 {
        Some(1)
    } else {
        assert(views(rows@).last() == rows@[n - 1]@);
        let last = rows[n - 1].row_id();
        if last == i64::MAX {
            None
        } else {
            Some(last + 1)
        }
    }
}

/// Whether the ids are positive and grow along the table.
pub fn check_ids<R: Identified>(rows: &Vec<R>) -> (out: bool)
    ensures
        out == ids_rise::<R>(views(rows@)),
{
    let ghost table = views(rows@);
    let mut i: usize = 0;
    while i < rows.len()
        invariant
            i <= rows.len(),
            table == views(rows@),
            forall|a: int| 0 <= a < i ==> 1 <= R::id_of(#[trigger] table[a]),
            forall|a: int, b: int|
                0 <= a < b < i ==> R::id_of(#[trigger] table[a]) < R::id_of(#[trigger] table[b]),
        decreases rows.len() - i,
    {
        assert(table[i as int] == rows@[i as int]@);
        if rows[i].row_id() < 1 {
            return false;
        }
        if i > 0 {
            assert(table[i - 1] == rows@[i - 1]@);
            if rows[i - 1].row_id() >= rows[i].row_id() {
                return false;
            }
            assert forall|a: int| 0 <= a < i implies R::id_of(#[trigger] table[a]) < R::id_of(
                table[i as int],
            ) by {
                if a < i - 1 {
                    assert(R::id_of(table[a]) < R::id_of(table[i - 1]));
                }
            }
        }
        i += 1;
    }
    true
}

/// Whether no two rows of the table share a key.
pub fn check_keys<R: Keyed>(rows: &Vec<R>) -> (out: bool)
    ensures
        out == keys_differ::<R>(views(rows@)),
{
    let ghost table = views(rows@);
    let mut j: usize = 0;
    while j < rows.len()
        invariant
            j <= rows.len(),
            table == views(rows@),
            forall|a: int, b: int|
                0 <= a < b < j ==> !R::same_key(#[trigger] table[a], #[trigger] table[b]),
        decreases rows.len() - j,
    {
        let mut i: usize = 0;
        while i < j
            invariant
                i <= j < rows.len(),
                table == views(rows@),
                forall|a: int| 0 <= a < i ==> !R::same_key(#[trigger] table[a], table[j as int]),
            decreases j - i,
        {
            assert(table[i as int] == rows@[i as int]@);
            assert(table[j as int] == rows@[j as int]@);
            if rows[i].shares_key(&rows[j]) {
                return false;
            }
            i += 1;
        }
        j += 1;
    }
    true
}

/// Whether a row of the table has this id.
pub fn check_id<R: Identified>(rows: &Vec<R>, id: i64) -> (out: bool)
    ensures
        out == holds_id::<R>(views(rows@), id as int),
{
    let ghost table = views(rows@);
    let mut i: usize = 0;
    while i < rows.len()
        invariant
            i <= rows.len(),
            table == views(rows@),
            forall|a: int| 0 <= a < i ==> R::id_of(#[trigger] table[a]) != id,
        decreases rows.len() - i,
    {
        assert(table[i as int] == rows@[i as int]@);
        if rows[i].row_id() == id {
            return true;
        }
        i += 1;
    }
    false
}

} // verus!
