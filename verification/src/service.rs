//! The records in memory, and what can be asked of them.
use std::collections::HashMap;
use vstd::prelude::*;
use crate::data::{by_id, index_by_id, RecordData};

verus! {

broadcast use vstd::std_specs::hash::group_hash_axioms;

/// What can be asked of the records.
#[derive(Debug, Clone)]
pub enum Command {
    /// Add a record.
    Record(RecordData),
    /// Remove the record with this id.
    Remove(u32),
}

/// The records, each under its id.
#[derive(Debug, Default, Clone)]
pub struct Manager {
    index: HashMap<u32, RecordData>,
}

impl View for Manager {
    type V = Map<u32, RecordData>;

    closed spec fn view(&self) -> Map<u32, RecordData> {
        self.index@
    }
}

impl Manager {
    /// A manager without records.
    pub fn new() -> (out: Manager)
        ensures
            out@ == Map::<u32, RecordData>::empty(),
    {
        Manager { index: HashMap::new() }
    }

    /// The manager of these records. Where two share an id, the later one
    /// stands.
    pub fn from_vec(data: Vec<RecordData>) -> (out: Manager)
        ensures
            out@ == by_id(data@, data@.len() as int),
    {
        Manager { index: index_by_id(data) }
    }

    /// The record with this id, if there is one.
    pub fn get(&self, id: u32) -> (out: Option<&RecordData>)
        ensures
            match out {
                Some(record) => self@.contains_key(id) && *record == self@[id],
                None => !self@.contains_key(id),
            },
    {
        self.index.get(&id)
    }
}

} // verus!
