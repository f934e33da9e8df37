//! The list of tasks on the screen: what it holds, and what keys and the
//! mouse do to it.

use vstd::prelude::*;
use vstd::string::*;
use crate::lines::{bounds_view, line_bounds, split_lines};
use crate::tasks::{shown, without, TaskItem, TaskItemView, TaskList};
use crate::text::chars_of;

verus! {

/// A key as the list of tasks tells keys apart.
#[derive(Clone, Copy, Debug, PartialEq, Eq, Structural)]
pub enum SelectionKey {
    Char(char),
    Esc,
    Enter,
    Other,
}

/// What the list of tasks on the screen holds: the names that are shown,
/// how wide the frame around them is, the row that is picked, if any, with
/// the task in it as it is shown, the tasks themselves, and the name that
/// is being typed for a new task.
#[derive(Debug)]
pub struct TaskSelectionState {
    pub selection: Vec<String>,
    pub border_width: usize,
    pub selected: Option<usize>,
    pub selected_item: String,
    pub list: TaskList,
    pub buffer: String,
    pub creating_item: bool,
}

/// A `TaskSelectionState` as a plain value.
pub ghost struct TaskSelectionView {
    pub selection: Seq<Seq<char>>,
    pub border_width: usize,
    pub selected: Option<usize>,
    pub selected_item: Seq<char>,
    pub list: Seq<TaskItemView>,
    pub buffer: Seq<char>,
    pub creating_item: bool,
}

impl View for TaskSelectionState {
    type V = TaskSelectionView;

    open spec fn view(&self) -> TaskSelectionView {
        TaskSelectionView {
            selection: self.selection@.map_values(|name: String| name@),
            border_width: self.border_width,
            selected: self.selected,
            selected_item: self.selected_item@,
            list: self.list@,
            buffer: self.buffer@,
            creating_item: self.creating_item,
        }
    }
}

/// The names of `items`, in order.
pub open spec fn names_of(items: Seq<TaskItemView>) -> Seq<Seq<char>> {
    items.map_values(|item: TaskItemView| item.name)
}

/// The length of the longest of the first `upto` names; 0 if there is
/// none.
pub open spec fn widest(items: Seq<TaskItemView>, upto: int) -> nat
    decreases upto,
{
    if upto <= 0 {
        0
    } else if items[upto - 1].name.len() > widest(items, upto - 1) {
        items[upto - 1].name.len()
    } else {
        widest(items, upto - 1)
    }
}

/// How wide the frame around names of width `width` is: 9 columns wider,
/// as far as the machine can count.
pub open spec fn frame_width(width: nat) -> usize {
    if width + 9 > usize::MAX {
        usize::MAX
    } else {
        (width + 9) as usize
    }
}

/// The list of tasks as it is first shown.
pub open spec fn first_shown(items: Seq<TaskItemView>) -> TaskSelectionView {
    TaskSelectionView {
        selection: names_of(items),
        border_width: frame_width(widest(items, items.len() as int)),
        selected: None,
        selected_item: Seq::empty(),
        list: items,
        buffer: Seq::empty(),
        creating_item: false,
    }
}

/// The row before `row`; the first row has itself before it.
pub open spec fn row_before(row: usize) -> usize {
    if row > 0 {
        (row - 1) as usize
    } else {
        0
    }
}

/// The list of tasks after the key that deletes.
///
/// With no task or no row picked, only what is shown of the picked task is
/// emptied. Otherwise the picked row leaves the names and the tasks, unless
/// it lies more than one row behind the names. The row before it is then
/// picked and its name shown, if there is such a row.
pub open spec fn deleted(v: TaskSelectionView) -> TaskSelectionView {
    if v.list.len() == 0 || v.selected is None {
        TaskSelectionView { selected_item: Seq::empty(), ..v }
    } else {
        let row = v.selected->0;
        if row_before(row) > v.selection.len() {
            v
        } else {
            let names = without(v.selection, row as int);
            let tasks = without(v.list, row as int);
            let before = row_before(row);
            if before < names.len() {
                TaskSelectionView {
                    selection: names,
                    list: tasks,
                    selected_item: names[before as int],
                    selected: Some(before),
                    ..v
                }
            } else {
                TaskSelectionView { selection: names, list: tasks, ..v }
            }
        }
    }
}

/// The list of tasks after the key that confirms: while a name is being
/// typed, a task of that name, not done and with no text, is added at the
/// end, and typing is over.
pub open spec fn confirmed(v: TaskSelectionView) -> TaskSelectionView {
    if v.creating_item {
        TaskSelectionView {
            list: v.list.push(TaskItemView { name: v.buffer, status: false, data: Seq::empty() }),
            selection: v.selection.push(v.buffer),
            buffer: Seq::empty(),
            creating_item: false,
            ..v
        }
    } else {
        v
    }
}

/// The list of tasks after a key.
///
/// `x` deletes, `c` begins the typing of a name, `j` and `k` do nothing,
/// escape ends the typing and forgets what was typed, enter confirms it.
/// Any other character is added to the name while one is being typed.
pub open spec fn keyed(v: TaskSelectionView, key: SelectionKey) -> TaskSelectionView {
    match key {
        SelectionKey::Char(ch) => if ch == 'x' {
            deleted(v)
        } else if ch == 'c' {
            TaskSelectionView { creating_item: true, ..v }
        } else if ch == 'j' || ch == 'k' {
            v
        } else if v.creating_item {
            TaskSelectionView { buffer: v.buffer.push(ch), ..v }
        } else {
            v
        },
        SelectionKey::Esc => TaskSelectionView { creating_item: false, buffer: Seq::empty(), ..v },
        SelectionKey::Enter => confirmed(v),
        SelectionKey::Other => v,
    }
}

/// How many rows the names of the first `upto` tasks take: a name takes as
/// many rows as it has lines.
pub open spec fn rows_before(items: Seq<TaskItemView>, upto: int) -> int
    decreases upto,
{
    if upto <= 0 {
        0
    } else {
        rows_before(items, upto - 1) + line_bounds(items[upto - 1].name).len()
    }
}

/// The list of tasks after a press at column `x` and row `y`, and whether
/// the press is to be made known.
///
/// Row 0 is the frame, so row `y` stands for the task at `y - 1`; a press
/// on no task changes nothing. The row that the press picks is the number
/// of rows that the names before that task take. Where that row is picked
/// already, it is let go, and nothing is made known. Otherwise the task at
/// that row is picked and shown, if there is one and `x` is not right of
/// its name, and the press is made known in any case.
pub open spec fn clicked(v: TaskSelectionView, x: usize, y: usize) -> (TaskSelectionView, bool) {
    if 1 <= y <= v.list.len() {
        let row = rows_before(v.list, y - 1);
        if v.selected is Some && v.selected->0 == row {
            (TaskSelectionView { selected: None, ..v }, false)
        } else if row < v.list.len() && x <= v.list[row].name.len() {
            (
                TaskSelectionView {
                    selected: Some(row as usize),
                    selected_item: shown(v.list[row]),
                    ..v
                },
                true,
            )
        } else {
            (v, true)
        }
    } else {
        (v, false)
    }
}

/// The rows before a task are at least as many as those before an earlier
/// task.
proof fn lemma_rows_before_grow(items: Seq<TaskItemView>, i: int, j: int)
    requires
        i <= j,
    ensures
        0 <= rows_before(items, i) <= rows_before(items, j),
    decreases j,
{
    if j > 0 {
        if i < j {
            lemma_rows_before_grow(items, i, j - 1);
        } else {
            lemma_rows_before_grow(items, i - 1, j - 1);
        }
    }
}

impl TaskSelectionState {
    /// The list of tasks as it is first shown: see `first_shown`.
    pub fn new(list: TaskList) -> (state: Self)
        ensures
            state@ == first_shown(list@),
    {
        let mut names: Vec<String> = Vec::new();
        let mut width: usize = 0;
        let mut i: usize = 0;
        while i < list.list.len()
            invariant
                i <= list.list@.len(),
                names@.len() == i,
                forall|k: int| 0 <= k < i ==> names@[k]@ == list@[k].name,
                width == widest(list@, i as int),
            decreases list.list@.len() - i,
        {
            let name = list.list[i].name();
            let length = name.unicode_len();
            if length > width {
                width = length;
            }
            names.push(name.to_owned());
            i += 1;
        }
        let state = TaskSelectionState {
            selection: names,
            border_width: width.saturating_add(9),
            selected: None,
            selected_item: String::new(),
            list,
            buffer: String::new(),
            creating_item: false,
        };
        assert(state@.selection =~= names_of(list@));
        state
    }

    /// Takes the key that deletes: see `deleted`.
    fn delete(&mut self)
        ensures
            final(self)@ == deleted(old(self)@),
    {
        let row = match self.selected {
            Some(row) if !self.list.is_empty() => row,
            _ => {
                self.selected_item = String::new();
                return ;
            },
        };
        let before = if row > 0 {
            row - 1
        } else {
            0
        };
        if before > self.selection.len() {
            return ;
        }
        let ghost names = self@.selection;
        if row < self.selection.len() {
            self.selection.remove(row);
            assert(self@.selection =~= names.remove(row as int));
        }
        self.list.remove(row);
        if before < self.selection.len() {
            self.selected_item = self.selection[before].clone();
            self.selected = Some(before);
        }
    }

    /// Takes the key that confirms: see `confirmed`.
    fn confirm(&mut self)
        ensures
            final(self)@ == confirmed(old(self)@),
    {
        if self.creating_item {
            let ghost names = self@.selection;
            self.list.push(TaskItem::new(self.buffer.clone(), String::new(), false));
            self.selection.push(self.buffer.clone());
            assert(self@.selection =~= names.push(self.buffer@));
            self.buffer = String::new();
            self.creating_item = false;
        }
    }

    /// Takes a key: see `keyed`.
    pub fn on_key(&mut self, key: SelectionKey)
        ensures
            final(self)@ == keyed(old(self)@, key),
    {
        match key {
            SelectionKey::Char(ch) => {
                if ch == 'x' {
                    self.delete();
                } else if ch == 'c' {
                    self.creating_item = true;
                } else if ch == 'j' || ch == 'k' {
                } else if self.creating_item {
                    self.buffer.push(ch);
                }
            },
            SelectionKey::Esc => {
                self.creating_item = false;
                self.buffer = String::new();
            },
            SelectionKey::Enter => {
                self.confirm();
            },
            SelectionKey::Other => {},
        }
    }

    /// Takes a press of the left button at column `x` and row `y`: see
    /// `clicked`. The result tells whether the press is to be made known.
    pub fn on_mouse(&mut self, x: usize, y: usize) -> (publish: bool)
        ensures
            (final(self)@, publish) == clicked(old(self)@, x, y),
    {
        if y < 1 || y > self.list.len() {
            return false;
        }
        let mut row: usize = 0;
        let mut beyond = false;
        let mut i: usize = 0;
        while i < y - 1
            invariant
                1 <= y <= self.list@.len(),
                i <= y - 1,
                *self == *old(self),
                !beyond ==> row == rows_before(self@.list, i as int),
                beyond ==> rows_before(self@.list, i as int) > usize::MAX,
            decreases y - 1 - i,
        {
            let name = chars_of(self.list.list[i].name());
            let marks = split_lines(name.as_slice());
            let rows = marks.len();
            assert(bounds_view(marks@).len() == rows);
            proof {
                lemma_rows_before_grow(self@.list, i as int, i + 1);
            }
            if !beyond {
                match row.checked_add(rows) {
                    Some(sum) => {
                        row = sum;
                    },
                    None => {
                        beyond = true;
                    },
                }
            }
            i += 1;
        }
        if beyond {
            return true;
        }
        if self.selected == Some(row) {
            self.selected = None;
            return false;
        }
        if row < self.list.len() {
            let task = &self.list.list[row];
            if x <= task.name().unicode_len() {
                self.selected_item = task.to_string();
                self.selected = Some(row);
            }
        }
        true
    }
}

} // verus!
