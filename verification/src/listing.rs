//! Reads from the store: the packages as they are, and the view that gathers
//! what is known of each package into one row.
use vstd::prelude::*;
use crate::error::{StorageError, TrackError};
use crate::repository::Repository;
use crate::rows::{copy_opt, copy_rows, opt_text, views, Package};
use crate::store::Store;
use crate::text::{
    chars_le, chars_of, collect, join, join_tokens, push_distinct, text_le, texts,
};

verus! {

/// All that is known of one package, gathered into one row. Where a package
/// has several versions, actions, instants or tags, each column holds them
/// once each, with commas between.
#[derive(Debug, PartialEq, Eq)]
pub struct PackageData {
    pub package_name: String,
    pub source: String,
    pub description: Option<String>,
    pub version: String,
    pub installation: String,
    pub tag: Option<String>,
}

/// What a [`PackageData`] stands for.
pub struct PackageSummary {
    pub package_name: Seq<char>,
    pub source: Seq<char>,
    pub description: Option<Seq<char>>,
    pub version: Seq<char>,
    pub installation: Seq<char>,
    pub tag: Option<Seq<char>>,
}

impl View for PackageData {
    type V = PackageSummary;

    open spec fn view(&self) -> PackageSummary {
        PackageSummary {
            package_name: self.package_name@,
            source: self.source@,
            description: opt_text(self.description),
            version: self.version@,
            installation: self.installation@,
            tag: opt_text(self.tag),
        }
    }
}

/// The order with `k` put in: behind every position whose name comes no later
/// than the name at `k`, before the rest.
pub open spec fn placed(order: Seq<int>, k: int, names: Seq<Seq<char>>) -> Seq<int>
    decreases order.len(),
{
    if order.len() == 0 {
        seq![k]
    } else if text_le(names[order.last()], names[k]) {
        order.push(k)
    } else {
        placed(order.drop_last(), k, names).push(order.last())
    }
}

/// The first `n` positions of `names`, ordered by name; positions with the
/// same name keep their order.
pub open spec fn name_order(names: Seq<Seq<char>>, n: int) -> Seq<int>
    decreases n,
{
    if n <= 0 {
        Seq::empty()
    } else {
        placed(name_order(names, n - 1), n - 1, names)
    }
}

/// Where `pos` parts the positions whose names come no later than the name at
/// `k` from the rest, `placed` puts `k` at `pos`.
pub proof fn lemma_placed(order: Seq<int>, k: int, names: Seq<Seq<char>>, pos: int)
    requires
        0 <= pos <= order.len(),
        pos > 0 ==> text_le(names[order[pos - 1]], names[k]),
        forall|j: int| pos <= j < order.len() ==> !text_le(names[#[trigger] order[j]], names[k]),
    ensures
        placed(order, k, names) == order.insert(pos, k),
    decreases order.len(),
{
    if order.len() == 0 {
        assert(order.insert(pos, k) =~= seq![k]);
    } else if pos == order.len() {
        assert(order.insert(pos, k) =~= order.push(k));
    } else {
        let last = order.last();
        assert(!text_le(names[order[order.len() - 1]], names[k]));
        let shorter = order.drop_last();
        assert forall|j: int| pos <= j < shorter.len() implies !text_le(
            names[#[trigger] shorter[j]],
            names[k],
        ) by {
            assert(shorter[j] == order[j]);
        }
        lemma_placed(shorter, k, names, pos);
        assert(shorter.insert(pos, k).push(last) =~= order.insert(pos, k));
    }
}

impl Store {
    /// The names of the packages.
    pub open spec fn package_names(self) -> Seq<Seq<char>> {
        Seq::new(self.packages.len(), |i: int| self.packages[i].name)
    }

    /// The package that a version belongs to.
    pub open spec fn owner_of_version(self, version_id: int) -> Option<int> {
        match self.version_by_id(version_id) {
            Some(i) => Some(self.versions[i].package_id),
            None => None,
        }
    }

    /// The name of a tag; no text where no tag has this id.
    pub open spec fn tag_name_of(self, tag_id: int) -> Seq<char> {
        match self.tag_by_id(tag_id) {
            Some(i) => self.tags[i].name,
            None => Seq::empty(),
        }
    }

    /// The versions of a package, each once.
    pub open spec fn version_tokens(self, package_id: int) -> Seq<Seq<char>> {
        collect(
            self.versions.len() as int,
            |i: int| self.versions[i].package_id == package_id,
            |i: int| self.versions[i].version,
        )
    }

    /// The actions logged on the versions of a package, each once.
    pub open spec fn action_tokens(self, package_id: int) -> Seq<Seq<char>> {
        collect(
            self.installations.len() as int,
            |i: int| self.owner_of_version(self.installations[i].version_id) == Some(package_id),
            |i: int| self.installations[i].action,
        )
    }

    /// The instants logged on the versions of a package, each once.
    pub open spec fn timestamp_tokens(self, package_id: int) -> Seq<Seq<char>> {
        collect(
            self.installations.len() as int,
            |i: int| self.owner_of_version(self.installations[i].version_id) == Some(package_id),
            |i: int| self.installations[i].timestamp,
        )
    }

    /// The names of the tags attached to a package, each once.
    pub open spec fn tag_tokens(self, package_id: int) -> Seq<Seq<char>> {
        collect(
            self.package_tags.len() as int,
            |i: int| self.package_tags[i].package_id == package_id,
            |i: int| self.tag_name_of(self.package_tags[i].tag_id),
        )
    }

    /// The row that gathers what is known of the package at position `k`:
    /// its versions with commas between; its actions, a colon, its instants;
    /// its tags, or none where it has none.
    pub open spec fn summary(self, k: int) -> PackageSummary {
        let p = self.packages[k];
        PackageSummary {
            package_name: p.name,
            source: p.source,
            description: p.description,
            version: join(self.version_tokens(p.id), seq![',']),
            installation: join(self.action_tokens(p.id), seq![',']) + seq![':'] + join(
                self.timestamp_tokens(p.id),
                seq![','],
            ),
            tag: if self.tag_tokens(p.id).len() == 0 {
                None
            } else {
                Some(join(self.tag_tokens(p.id), seq![',']))
            },
        }
    }

    /// One row for each package, ordered by package name.
    pub open spec fn listing(self) -> Seq<PackageSummary> {
        let order = name_order(self.package_names(), self.packages.len() as int);
        Seq::new(order.len(), |i: int| self.summary(order[i]))
    }
}

/// The positions of a vector of positions, as integers.
pub open spec fn ints(v: Seq<usize>) -> Seq<int> {
    v.map_values(|x: usize| x as int)
}

/// The positions of the packages, ordered by package name.
pub fn order_by_name(rows: &Vec<Package>) -> (out: Vec<usize>)
    ensures
        out@.len() == rows@.len(),
        forall|i: int| 0 <= i < out@.len() ==> out@[i] < rows@.len(),
        ints(out@) == name_order(
            Seq::new(rows@.len(), |i: int| rows@[i].package_name@),
            rows@.len() as int,
        ),
{
    let ghost names = Seq::new(rows@.len(), |i: int| rows@[i].package_name@);
    let mut letters: Vec<Vec<char>> = Vec::new();
    let mut k: usize = 0;
    while k < rows.len()
        invariant
            k <= rows.len(),
            letters@.len() == k,
            names == Seq::new(rows@.len(), |i: int| rows@[i].package_name@),
            forall|j: int| 0 <= j < k ==> (#[trigger] letters@[j])@ == names[j],
        decreases rows.len() - k,
    {
        letters.push(chars_of(rows[k].package_name.as_str()));
        k += 1;
    }
    let mut out: Vec<usize> = Vec::new();
    k = 0;
    proof {
        assert(ints(out@) =~= name_order(names, 0));
    }
    while k < rows.len()
        invariant
            k <= rows.len(),
            letters@.len() == rows@.len(),
            names.len() == rows@.len(),
            forall|j: int| 0 <= j < letters@.len() ==> (#[trigger] letters@[j])@ == names[j],
            out@.len() == k,
            forall|i: int| 0 <= i < out@.len() ==> out@[i] < k,
            ints(out@) == name_order(names, k as int),
        decreases rows.len() - k,
    {
        let mut pos: usize = out.len();
        while pos > 0 && !chars_le(&letters[out[pos - 1]], &letters[k])
            invariant
                pos <= out@.len(),
                k < rows@.len(),
                out@.len() == k,
                letters@.len() == rows@.len(),
                names.len() == rows@.len(),
                forall|j: int| 0 <= j < letters@.len() ==> (#[trigger] letters@[j])@ == names[j],
                forall|i: int| 0 <= i < out@.len() ==> out@[i] < k,
                forall|j: int|
                    pos <= j < out@.len() ==> !text_le(
                        names[#[trigger] ints(out@)[j]],
                        names[k as int],
                    ),
            decreases pos,
        {
            proof {
                assert(ints(out@)[pos - 1] == out@[pos - 1]);
            }
            pos -= 1;
        }
        proof {
            if pos > 0 {
                assert(ints(out@)[pos - 1] == out@[pos - 1]);
            }
            lemma_placed(ints(out@), k as int, names, pos as int);
        }
        let ghost before = ints(out@);
        out.insert(pos, k);
        proof {
            assert(ints(out@) =~= before.insert(pos as int, k as int));
        }
        k += 1;
    }
    out
}

/// The package that a version belongs to.
pub fn version_owner(repo: &Repository, version_id: i64) -> (out: Option<i64>)
    ensures
        match repo@.owner_of_version(version_id as int) {
            Some(p) => out == Some(p as i64) && p == out->0,
            None => out is None,
        },
{
    let rows = repo.versions();
    let mut i: usize = 0;
    while i < rows.len()
        invariant
            i <= rows.len(),
            repo@.versions == views(rows@),
            forall|j: int| 0 <= j < i ==> (#[trigger] repo@.versions[j]).id != version_id,
        decreases rows.len() - i,
    {
        assert(repo@.versions[i as int] == rows@[i as int]@);
        if rows[i].version_id == version_id {
            proof {
                repo@.lemma_version_by_id(version_id as int);
            }
            return Some(rows[i].package_id);
        }
        i += 1;
    }
    proof {
        repo@.lemma_version_by_id(version_id as int);
    }
    None
}

/// The name of a tag; no text where no tag has this id.
pub fn tag_name(repo: &Repository, tag_id: i64) -> (out: String)
    ensures
        out@ == repo@.tag_name_of(tag_id as int),
{
    let rows = repo.tags();
    let mut i: usize = 0;
    while i < rows.len()
        invariant
            i <= rows.len(),
            repo@.tags == views(rows@),
            forall|j: int| 0 <= j < i ==> (#[trigger] repo@.tags[j]).id != tag_id,
        decreases rows.len() - i,
    {
        assert(repo@.tags[i as int] == rows@[i as int]@);
        if rows[i].tag_id == tag_id {
            proof {
                repo@.lemma_tag_by_id(tag_id as int);
            }
            return rows[i].tag_name.clone();
        }
        i += 1;
    }
    proof {
        repo@.lemma_tag_by_id(tag_id as int);
    }
    String::new()
}

/// The versions of a package, each once.
pub fn version_tokens(repo: &Repository, package_id: i64) -> (out: Vec<String>)
    ensures
        texts(out@) == repo@.version_tokens(package_id as int),
{
    let rows = repo.versions();
    let ghost store = repo@;
    let ghost belongs = |i: int| store.versions[i].package_id == package_id as int;
    let ghost token = |i: int| store.versions[i].version;
    let mut out: Vec<String> = Vec::new();
    let mut i: usize = 0;
    proof {
        assert(texts(out@) =~= collect(0, belongs, token));
    }
    while i < rows.len()
        invariant
            i <= rows.len(),
            store == repo@,
            store.versions == views(rows@),
            belongs == |i: int| store.versions[i].package_id == package_id as int,
            token == |i: int| store.versions[i].version,
            texts(out@) == collect(i as int, belongs, token),
        decreases rows.len() - i,
    {
        assert(store.versions[i as int] == rows@[i as int]@);
        if rows[i].package_id == package_id {
            push_distinct(&mut out, rows[i].version.as_str());
        }
        i += 1;
    }
    out
}

/// The actions logged on the versions of a package, each once; or, where
/// `instants` is set, the instants.
pub fn installation_tokens(repo: &Repository, package_id: i64, instants: bool) -> (out: Vec<
    String,
>)
    ensures
        texts(out@) == (if instants {
            repo@.timestamp_tokens(package_id as int)
        } else {
            repo@.action_tokens(package_id as int)
        }),
{
    let rows = repo.installations();
    let ghost store = repo@;
    let ghost belongs = |i: int|
        store.owner_of_version(store.installations[i].version_id) == Some(package_id as int);
    let ghost actions = |i: int| store.installations[i].action;
    let ghost stamps = |i: int| store.installations[i].timestamp;
    let ghost token = if instants {
        stamps
    } else {
        actions
    };
    let mut out: Vec<String> = Vec::new();
    let mut i: usize = 0;
    proof {
        assert(texts(out@) =~= collect(0, belongs, token));
    }
    while i < rows.len()
        invariant
            i <= rows.len(),
            store == repo@,
            store.installations == views(rows@),
            belongs == |i: int|
                store.owner_of_version(store.installations[i].version_id) == Some(
                    package_id as int,
                ),
            actions == |i: int| store.installations[i].action,
            stamps == |i: int| store.installations[i].timestamp,
            token == (if instants {
                stamps
            } else {
                actions
            }),
            texts(out@) == collect(i as int, belongs, token),
        decreases rows.len() - i,
    {
        assert(store.installations[i as int] == rows@[i as int]@);
        let owner = version_owner(repo, rows[i].version_id);
        let mine = match owner {
            Some(p) => p == package_id,
            None => false,
        };
        assert(mine == belongs(i as int));
        if mine {
            if instants {
                push_distinct(&mut out, rows[i].timestamp.as_str());
            } else {
                push_distinct(&mut out, rows[i].action.as_str());
            }
        }
        i += 1;
    }
    out
}

/// The names of the tags attached to a package, each once.
pub fn tag_tokens(repo: &Repository, package_id: i64) -> (out: Vec<String>)
    ensures
        texts(out@) == repo@.tag_tokens(package_id as int),
{
    let rows = repo.package_tags();
    let ghost store = repo@;
    let ghost belongs = |i: int| store.package_tags[i].package_id == package_id as int;
    let ghost token = |i: int| store.tag_name_of(store.package_tags[i].tag_id);
    let mut out: Vec<String> = Vec::new();
    let mut i: usize = 0;
    proof {
        assert(texts(out@) =~= collect(0, belongs, token));
    }
    while i < rows.len()
        invariant
            i <= rows.len(),
            store == repo@,
            store.package_tags == views(rows@),
            belongs == |i: int| store.package_tags[i].package_id == package_id as int,
            token == |i: int| store.tag_name_of(store.package_tags[i].tag_id),
            texts(out@) == collect(i as int, belongs, token),
        decreases rows.len() - i,
    {
        assert(store.package_tags[i as int] == rows@[i as int]@);
        if rows[i].package_id == package_id {
            let name = tag_name(repo, rows[i].tag_id);
            push_distinct(&mut out, name.as_str());
        }
        i += 1;
    }
    out
}

/// The row that gathers what is known of the package at position `k`.
pub fn summarize(repo: &Repository, k: usize) -> (out: PackageData)
    requires
        k < repo@.packages.len(),
    ensures
        out@ == repo@.summary(k as int),
{
    proof {
        reveal_strlit(",");
        reveal_strlit(":");
        assert(","@ =~= seq![',']);
        assert(":"@ =~= seq![':']);
    }
    let rows = repo.packages();
    let row = &rows[k];
    assert(repo@.packages[k as int] == row@);
    let id = row.package_id;
    let versions = version_tokens(repo, id);
    let actions = installation_tokens(repo, id, false);
    let stamps = installation_tokens(repo, id, true);
    let tags = tag_tokens(repo, id);
    let mut installation = join_tokens(&actions, ",");
    installation.append(":");
    let joined = join_tokens(&stamps, ",");
    installation.append(joined.as_str());
    let tag = if tags.len() == 0 {
        None
    } else {
        Some(join_tokens(&tags, ","))
    };
    assert(texts(tags@).len() == tags@.len());
    PackageData {
        package_name: row.package_name.clone(),
        source: row.source.clone(),
        description: copy_opt(&row.description),
        version: join_tokens(&versions, ","),
        installation,
        tag,
    }
}

/// One row for each package, ordered by package name, with the versions,
/// actions, instants and tags of the package gathered into its row. A value
/// that the package has several times over, through several versions or
/// installations, stands in its column once.
pub fn get_all_package_data(repo: &Repository) -> (out: Result<Vec<PackageData>, TrackError>)
    ensures
        repo.ready() ==> out is Ok && views(out->Ok_0@) == repo@.listing(),
        !repo.ready() ==> out == Err::<Vec<PackageData>, TrackError>(
            TrackError::Storage(StorageError::SchemaMissing),
        ),
{
    if !repo.is_ready() {
        return Err(TrackError::Storage(StorageError::SchemaMissing));
    }
    let rows = repo.packages();
    let order = order_by_name(rows);
    let ghost names = Seq::new(rows@.len(), |i: int| rows@[i].package_name@);
    proof {
        assert(names =~= repo@.package_names());
    }
    let mut out: Vec<PackageData> = Vec::new();
    let mut i: usize = 0;
    while i < order.len()
        invariant
            i <= order.len(),
            order@.len() == rows@.len(),
            repo@.packages == views(rows@),
            forall|j: int| 0 <= j < order@.len() ==> order@[j] < rows@.len(),
            ints(order@) == name_order(repo@.package_names(), repo@.packages.len() as int),
            out@.len() == i,
            forall|j: int| 0 <= j < i ==> (#[trigger] out@[j])@ == repo@.summary(order@[j] as int),
        decreases order.len() - i,
    {
        let row = summarize(repo, order[i]);
        out.push(row);
        i += 1;
    }
    proof {
        assert forall|j: int| 0 <= j < order@.len() implies ints(order@)[j] == order@[j] by {}
        assert(views(out@) =~= repo@.listing());
    }
    Ok(out)
}

/// The packages as they stand, in the order of insertion.
pub fn get_all_packages(repo: &Repository) -> (out: Result<Vec<Package>, TrackError>)
    ensures
        repo.ready() ==> out is Ok && views(out->Ok_0@) == repo@.packages,
        !repo.ready() ==> out == Err::<Vec<Package>, TrackError>(
            TrackError::Storage(StorageError::SchemaMissing),
        ),
{
    if !repo.is_ready() {
        return Err(TrackError::Storage(StorageError::SchemaMissing));
    }
    Ok(copy_rows(repo.packages()))
}

} // verus!
