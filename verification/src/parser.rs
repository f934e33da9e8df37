//! Reading from a text, as a trait.

use vstd::prelude::*;
use crate::grammar::{document, record_at};
pub use crate::tasks::ParserState;
use crate::tasks::{list_read, TaskError, TaskErrorView, TaskItem, TaskItemView, TaskList};
use crate::text::{chars_of, sanitize_chars, sanitized};

verus! {

/// Something that can be read from a text.
pub trait Parser<T, E> {
    fn parse(&mut self, content: String) -> Result<T, E>;
}

/// What reading one task returned, as plain values.
pub open spec fn item_read(r: Result<TaskItem, TaskError>) -> Result<TaskItemView, TaskErrorView> {
    match r {
        Ok(item) => Ok(item@),
        Err(e) => Err(e@),
    }
}

/// The first record of a raw text: the record at the head of its cleaned
/// form.
pub open spec fn first_record(text: Seq<char>) -> Result<TaskItemView, TaskErrorView> {
    match record_at(sanitized(text), 0) {
        Ok((item, _)) => Ok(item),
        Err(e) => Err(e),
    }
}

impl Parser<TaskItem, TaskError> for TaskItem {
    /// Reads the first record of `content`; what follows it is not looked
    /// at. `self` takes no part.
    fn parse(&mut self, content: String) -> (r: Result<TaskItem, TaskError>)
        ensures
            item_read(r) == first_record(content@),
            *final(self) == *old(self),
    {
        let chars = chars_of(content.as_str());
        let clean = sanitize_chars(chars.as_slice());
        match TaskItem::scan_record(clean.as_slice(), 0) {
            Ok((item, _)) => Ok(item),
            Err(e) => Err(e),
        }
    }
}

impl Parser<TaskList, TaskError> for TaskList {
    /// Reads every record of `content`. `self` takes no part.
    fn parse(&mut self, content: String) -> (r: Result<TaskList, TaskError>)
        ensures
            list_read(r) == document(content@),
            *final(self) == *old(self),
    {
        TaskList::deserialize(content)
    }
}

} // verus!
