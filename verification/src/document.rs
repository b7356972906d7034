//! A configuration document as a tree of tables and strings, and the reader
//! that makes one from text.
use vstd::prelude::*;
use crate::text::same_text;

verus! {

/// A value of a document. Only strings and tables matter to a configuration;
/// every other kind of value is `Other`.
#[derive(Debug, PartialEq, Eq)]
pub enum Node {
    Text(String),
    Table(Vec<Entry>),
    Other,
}

/// A key of a table and the value under it.
#[derive(Debug, PartialEq, Eq)]
pub struct Entry {
    pub key: String,
    pub value: Node,
}

/// Where the first entry with this key stands among the first `n`.
pub open spec fn key_position(entries: Seq<Entry>, key: Seq<char>, n: int) -> Option<int>
    decreases n,
{
    if n <= 0 {
        None
    } else {
        match key_position(entries, key, n - 1) {
            Some(i) => Some(i),
            None => if entries[n - 1].key@ == key {
                Some(n - 1)
            } else {
                None
            },
        }
    }
}

/// The value under `key`: that of the first entry with this key.
pub open spec fn value_under(entries: Seq<Entry>, key: Seq<char>) -> Option<Node> {
    match key_position(entries, key, entries.len() as int) {
        Some(i) => Some(entries[i].value),
        None => None,
    }
}

/// A position that was found among the first `n` entries is the one found
/// among more.
pub proof fn lemma_position_stays(entries: Seq<Entry>, key: Seq<char>, n: int, m: int)
    requires
        n <= m,
        key_position(entries, key, n) is Some,
    ensures
        key_position(entries, key, m) == key_position(entries, key, n),
    decreases m - n,
{
    if n < m {
        lemma_position_stays(entries, key, n, m - 1);
    }
}

/// The value under `key`, if the table has the key.
pub fn lookup<'a>(entries: &'a Vec<Entry>, key: &str) -> (out: Option<&'a Node>)
    ensures
        match value_under(entries@, key@) {
            Some(node) => out == Some(&node),
            None => out is None,
        },
{
    let mut i: usize = 0;
    while i < entries.len()
        invariant
            i <= entries.len(),
            key_position(entries@, key@, i as int) is None,
        decreases entries.len() - i,
    {
        if same_text(entries[i].key.as_str(), key) {
            proof {
                lemma_position_stays(entries@, key@, i + 1, entries.len() as int);
            }
            return Some(&entries[i].value);
        }
        i += 1;
    }
    None
}

/// `toml::Value`: a value as the parser hands it out. Nothing is known of
/// what is inside one.
#[verifier::external_type_specification]
#[verifier::external_body]
pub struct ExTomlValue(toml::Value);

/// `toml::de::Error`: why the parser turned a text away. Nothing is known of
/// what is inside one.
#[verifier::external_type_specification]
#[verifier::external_body]
pub struct ExTomlError(toml::de::Error);

/// What the text says, read as TOML: its root table, or nothing where the
/// text is no TOML document.
pub uninterp spec fn toml_value(text: Seq<char>) -> Option<toml::Value>;

/// What a value of the parser holds, as a tree: a string is `Text`, a table
/// is `Table` with its entries in the order of their keys, anything else is
/// `Other`.
pub uninterp spec fn value_tree(value: toml::Value) -> Node;

/// The document that a text holds, as a tree.
pub open spec fn toml_document(text: Seq<char>) -> Option<Node> {
    match toml_value(text) {
        Some(value) => Some(value_tree(value)),
        None => None,
    }
}

/// Parses the text with `toml::Table::from_str` and hands the root table
/// back as a `toml::Value`. The result depends on the text alone; the
/// contract gives it its name, and says that an error comes exactly where the
/// text is no document.
#[verifier::external_body]
fn read_toml(text: &str) -> (out: Result<toml::Value, toml::de::Error>)
    ensures
        match out {
            Ok(value) => toml_value(text@) == Some(value),
            Err(_) => toml_value(text@) is None,
        },
{
    match text.parse::<toml::Table>() {
        Ok(table) => Ok(toml::Value::Table(table)),
        Err(error) => Err(error),
    }
}

/// Turns a `toml::Value` into a tree, variant by variant: a string becomes
/// `Text`, a table becomes `Table` with its entries in the order in which
/// `toml::Table::iter` gives them, anything else becomes `Other`. The result
/// depends on the value alone; the contract gives it its name.
#[verifier::external_body]
fn tree_of(value: &toml::Value) -> (out: Node)
    ensures
        out == value_tree(*value),
{
    match value {
        toml::Value::String(text) => Node::Text(text.clone()),
        toml::Value::Table(table) => Node::Table(
            table.iter().map(|(key, value)| Entry { key: key.clone(), value: tree_of(value) }).collect(),
        ),
        toml::Value::Integer(_)
        | toml::Value::Float(_)
        | toml::Value::Boolean(_)
        | toml::Value::Datetime(_)
        | toml::Value::Array(_) => Node::Other,
    }
}

/// The document that the text holds, or nothing where the text is no
/// document.
pub fn parse_document(text: &str) -> (out: Option<Node>)
    ensures
        out == toml_document(text@),
{
    match read_toml(text) {
        Ok(value) => Some(tree_of(&value)),
        Err(_) => None,
    }
}

} // verus!
