//! Things to do, each with the instant at which it was set.
use vstd::prelude::*;
use crate::clock::Timestamp;

verus! {

/// A thing to do.
#[derive(Debug, PartialEq, Eq)]
pub struct Todo {
    pub set_date: Timestamp,
    pub todo_date: Option<Timestamp>,
    pub tag: String,
    pub title: String,
    pub content: String,
}

impl Todo {
    /// A thing to do that was set at `now`: it has no date by which it is to
    /// be done, and no tag.
    pub fn new_now(now: Timestamp, title: String, content: String) -> (out: Todo)
        ensures
            out.set_date == now,
            out.todo_date is None,
            out.tag@ == Seq::<char>::empty(),
            out.title == title,
            out.content == content,
    {
        Todo { set_date: now, todo_date: None, tag: String::new(), title, content }
    }
}

} // verus!
