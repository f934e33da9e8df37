//! A walk over a list of tasks.

use vstd::prelude::*;
use crate::tasks::{TaskItem, TaskItemView, TaskList};

verus! {

/// A walk over the tasks of a list, from the first to the last. The list
/// is borrowed, so it stays as it was for as long as the walk lasts.
pub struct TaskIter<'iter> {
    pub list: &'iter TaskList,
    pub idx: usize,
}

impl<'iter> TaskIter<'iter> {
    /// The tasks that the walk has still to give, in order.
    pub open spec fn remaining(&self) -> Seq<TaskItemView> {
        if self.idx <= self.list@.len() {
            self.list@.skip(self.idx as int)
        } else {
            Seq::empty()
        }
    }

    /// A walk that begins at the first task of `list`.
    pub fn new(list: &'iter TaskList) -> (iter: Self)
        ensures
            iter.list == list,
            iter.idx == 0,
            iter.remaining() == list@,
    {
        assert(list@.skip(0) =~= list@);
        Self { list, idx: 0 }
    }

    /// A copy of the next task, or `None` once every task was given.
    pub fn next(&mut self) -> (r: Option<TaskItem>)
        ensures
            final(self).list == old(self).list,
            match r {
                Some(item) => {
                    &&& old(self).remaining().len() > 0
                    &&& item@ == old(self).remaining()[0]
                    &&& final(self).remaining() == old(self).remaining().skip(1)
                    &&& final(self).idx == old(self).idx + 1
                },
                None => old(self).remaining().len() == 0 && final(self).idx == old(self).idx,
            },
    {
        match self.list.get(self.idx) {
            Some(item) => {
                let item = item.clone();
                assert(self.list@.skip(self.idx as int).skip(1) =~= self.list@.skip(
                    self.idx as int + 1,
                ));
                assert(self.idx < self.list.list.len());
                self.idx += 1;
                Some(item)
            },
            None => None,
        }
    }
}

} // verus!
