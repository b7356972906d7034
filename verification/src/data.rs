//! Records of installed software, kept under their ids.
use std::collections::HashMap;
use vstd::prelude::*;
use crate::clock::Timestamp;

verus! {

broadcast use vstd::std_specs::hash::group_hash_axioms;

/// A version as three numbers and two labels.
#[derive(Debug, Clone, PartialEq, Eq)]
pub struct SemanticVersion {
    pub major: u64,
    pub minor: u64,
    pub patch: u64,
    /// The pre-release label; empty where there is none.
    pub pre: String,
    /// The build label; empty where there is none.
    pub build: String,
}

/// What a text says when read as a semantic version: the three numbers, the
/// pre-release label and the build label; nothing where the text is no
/// semantic version.
pub uninterp spec fn semver_of(text: Seq<char>) -> Option<(u64, u64, u64, Seq<char>, Seq<char>)>;

/// `semver::Error`: why a text is no semantic version. Nothing is known of
/// what is inside one.
#[verifier::external_type_specification]
#[verifier::external_body]
pub struct ExSemverError(semver::Error);

/// Calls `semver::Version::parse` and copies the five parts of the version
/// that it gives. The result depends on the text alone; the contract gives it
/// its name, and says that an error comes exactly where the text is no
/// version.
#[verifier::external_body]
fn read_semver(text: &str) -> (out: Result<SemanticVersion, semver::Error>)
    ensures
        match out {
            Ok(v) => semver_of(text@) == Some((v.major, v.minor, v.patch, v.pre@, v.build@)),
            Err(_) => semver_of(text@) is None,
        },
{
    match semver::Version::parse(text) {
        Ok(v) => Ok(
            SemanticVersion {
                major: v.major,
                minor: v.minor,
                patch: v.patch,
                pre: v.pre.as_str().to_owned(),
                build: v.build.as_str().to_owned(),
            },
        ),
        Err(e) => Err(e),
    }
}

/// A version: semantic where the text can be read so, else the text as it
/// is.
#[derive(Debug, Clone, PartialEq, Eq)]
pub enum FlexibleVersion {
    Sematic(SemanticVersion),
    Raw(String),
}

/// The version that stands for a text, given what the text says when read as
/// a semantic version.
pub open spec fn flexible(
    text: Seq<char>,
    read: Option<(u64, u64, u64, Seq<char>, Seq<char>)>,
    out: FlexibleVersion,
) -> bool {
    match read {
        Some(parts) => out matches FlexibleVersion::Sematic(v) && (
        v.major,
        v.minor,
        v.patch,
        v.pre@,
        v.build@,
    ) == parts,
        None => out matches FlexibleVersion::Raw(raw) && raw@ == text,
    }
}

impl FlexibleVersion {
    /// The version for a text and for what reading it as a semantic version
    /// gave.
    pub fn from_parts(s: &str, read: Option<SemanticVersion>) -> (out: FlexibleVersion)
        ensures
            match read {
                Some(v) => out == FlexibleVersion::Sematic(v),
                None => out matches FlexibleVersion::Raw(raw) && raw@ == s@,
            },
    {
        match read {
            Some(v) => FlexibleVersion::Sematic(v),
            None => FlexibleVersion::Raw(s.to_owned()),
        }
    }

    /// The version that a text stands for.
    pub fn parse(s: &str) -> (out: FlexibleVersion)
        ensures
            flexible(s@, semver_of(s@), out),
    {
        match read_semver(s) {
            Ok(v) => FlexibleVersion::from_parts(s, Some(v)),
            Err(_) => FlexibleVersion::from_parts(s, None),
        }
    }
}

/// `path` with every backslash turned into a slash.
pub open spec fn unix_path(path: Seq<char>) -> Seq<char> {
    path.map_values(
        |c: char|
            if c == '\\' {
                '/'
            } else {
                c
            },
    )
}

/// `path` with every backslash turned into a slash.
pub fn normalize_unix_path(path: &str) -> (out: String)
    ensures
        out@ == unix_path(path@),
{
    proof {
        reveal_strlit("/");
        assert("/"@ =~= seq!['/']);
    }
    let n = path.unicode_len();
    let mut out = String::new();
    let mut done: usize = 0;
    let mut at: usize = 0;
    assert(out@ =~= unix_path(path@.subrange(0, 0)));
    while at < n
        invariant
            n == path@.len(),
            done <= at <= n,
            "/"@ == seq!['/'],
            out@ == unix_path(path@.subrange(0, done as int)),
            forall|j: int| done <= j < at ==> path@[j] != '\\',
        decreases n - at,
    {
        if path.get_char(at) == '\\' {
            let ghost before = out@;
            out.append(path.substring_char(done, at));
            out.append("/");
            at += 1;
            proof {
                assert(out@ == before + path@.subrange(done as int, at - 1) + seq!['/']);
                assert(out@ =~= unix_path(path@.subrange(0, at as int)));
            }
            done = at;
        } else {
            at += 1;
        }
    }
    let ghost before = out@;
    out.append(path.substring_char(done, n));
    proof {
        assert(out@ == before + path@.subrange(done as int, n as int));
        assert(out@ =~= unix_path(path@));
    }
    out
}

/// One record.
#[derive(Debug, Clone, PartialEq, Eq)]
pub struct RecordData {
    pub id: u32,
    pub name: String,
    pub version: Option<FlexibleVersion>,
    pub installation_date: Option<Timestamp>,
    /// Where the software lies, with slashes between the parts of the path.
    pub location: Option<String>,
    pub source: Option<String>,
    pub tags: Vec<String>,
    pub description: Option<String>,
}

impl RecordData {
    /// Whether the record may be stored. Every record may.
    pub fn validate(&self) -> (out: Result<(), ()>)
        ensures
            out is Ok,
    {
        Ok(())
    }
}

/// The first `n` records under their ids. Where two share an id, the later
/// one stands.
pub open spec fn by_id(records: Seq<RecordData>, n: int) -> Map<u32, RecordData>
    decreases n,
{
    if n <= 0 {
        Map::empty()
    } else {
        by_id(records, n - 1).insert(records[n - 1].id, records[n - 1])
    }
}

/// The records under their ids.
pub fn index_by_id(data: Vec<RecordData>) -> (out: HashMap<u32, RecordData>)
    ensures
        out@ == by_id(data@, data@.len() as int),
{
    let mut map: HashMap<u32, RecordData> = HashMap::new();
    let ghost all = data@;
    for record in it: data
        invariant
            it.seq() == all,
            map@ == by_id(all, it.index() as int),
    {
        map.insert(record.id, record);
    }
    map
}

/// The records of a database, each under its id.
#[derive(Debug, Default)]
pub struct DataBase {
    pub data: HashMap<u32, RecordData>,
}

impl DataBase {
    /// The database of these records. Where two share an id, the later one
    /// stands.
    pub fn from_vec(data: Vec<RecordData>) -> (out: DataBase)
        ensures
            out.data@ == by_id(data@, data@.len() as int),
    {
        DataBase { data: index_by_id(data) }
    }
}

/// The records that were read from where they are kept, or why they could
/// not be read; and the records that wait to be written.
#[derive(Debug)]
pub struct DataManager {
    pub db: Result<DataBase, String>,
    pub staged: DataBase,
}

impl DataManager {
    /// The manager of what was read. Nothing waits to be written.
    pub fn new(read: Result<DataBase, String>) -> (out: DataManager)
        ensures
            out.db == read,
            out.staged.data@ == Map::<u32, RecordData>::empty(),
    {
        DataManager { db: read, staged: DataBase { data: HashMap::new() } }
    }
}

} // verus!
