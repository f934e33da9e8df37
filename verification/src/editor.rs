//! The editor of one task: what it holds, and what keys, the mouse and
//! messages do to it.

use vstd::prelude::*;
use vstd::string::*;
use crate::lines::{
    bounds_view, lemma_line_bounds, line_bounds, marks_of, split_lines, trim_part, trimmed_part,
    white_marks,
};
use crate::scan::{lemma_position_of, position_of};
use crate::tasks::{TaskError, TaskErrorView};
use crate::text::{chars_of, string_of};

verus! {

/// The field of a task that is being edited.
#[derive(Clone, Copy, Debug, PartialEq, Eq, Structural)]
pub enum EditingState {
    Name,
    Status,
    Data,
}

/// The way in which the cursor moves.
#[derive(Clone, Copy, Debug, PartialEq, Eq, Structural)]
pub enum Direction {
    Left,
    Right,
}

/// A key as the editor tells keys apart.
#[derive(Clone, Copy, Debug, PartialEq, Eq, Structural)]
pub enum EditorKey {
    Char(char),
    Backspace,
    Left,
    Right,
    Other,
}

/// What the editor of one task holds: the task's three fields as they are
/// shown, the field that is being edited, if any, and the cursor in it.
#[derive(Debug)]
pub struct TaskEditorState {
    pub is_selected: bool,
    pub name: String,
    pub status: bool,
    pub data: String,
    pub idx: usize,
    pub selected: Option<EditingState>,
}

/// A `TaskEditorState` as a plain value.
pub ghost struct TaskEditorView {
    pub is_selected: bool,
    pub name: Seq<char>,
    pub status: bool,
    pub data: Seq<char>,
    pub idx: usize,
    pub selected: Option<EditingState>,
}

impl View for TaskEditorState {
    type V = TaskEditorView;

    open spec fn view(&self) -> TaskEditorView {
        TaskEditorView {
            is_selected: self.is_selected,
            name: self.name@,
            status: self.status,
            data: self.data@,
            idx: self.idx,
            selected: self.selected,
        }
    }
}

/// An editor that shows nothing and edits nothing, with its cursor at
/// `idx`.
pub open spec fn blank_editor(idx: usize) -> TaskEditorView {
    TaskEditorView {
        is_selected: false,
        name: Seq::empty(),
        status: false,
        data: Seq::empty(),
        idx,
        selected: None,
    }
}

/// The text that is being edited: the name or the free text. The status is
/// no text.
pub open spec fn edited_text(v: TaskEditorView) -> Option<Seq<char>> {
    match v.selected {
        Some(EditingState::Name) => Some(v.name),
        Some(EditingState::Data) => Some(v.data),
        _ => None,
    }
}

/// `v` with `text` in the place of the text that is being edited, and the
/// cursor at `idx`.
pub open spec fn with_edited_text(v: TaskEditorView, text: Seq<char>, idx: usize) -> TaskEditorView {
    match v.selected {
        Some(EditingState::Name) => TaskEditorView { name: text, idx, ..v },
        Some(EditingState::Data) => TaskEditorView { data: text, idx, ..v },
        _ => v,
    }
}

/// The editor after `ch` was typed at `at`: `ch` stands at `at` in the
/// edited text, and the cursor is one further. Nothing changes where no
/// text is being edited, where `at` lies behind the end of the text, or
/// where the cursor cannot go further.
pub open spec fn pushed(v: TaskEditorView, at: usize, ch: char) -> TaskEditorView {
    match edited_text(v) {
        Some(text) if at <= text.len() && v.idx < usize::MAX => with_edited_text(
            v,
            text.insert(at as int, ch),
            (v.idx + 1) as usize,
        ),
        _ => v,
    }
}

/// The editor after the character at `at` was deleted: the edited text is
/// without it, and the cursor is one back. Nothing changes where the cursor
/// is at the head, where no text is being edited, or where `at` is not in
/// the text.
pub open spec fn removed(v: TaskEditorView, at: usize) -> TaskEditorView {
    match edited_text(v) {
        Some(text) if v.idx > 0 && at < text.len() => with_edited_text(
            v,
            text.remove(at as int),
            (v.idx - 1) as usize,
        ),
        _ => v,
    }
}

/// The editor after the cursor was asked to move. It moves left down to
/// the head of the text, and right up to the last character but no
/// further. It does not move in the status or where nothing is edited.
pub open spec fn moved(v: TaskEditorView, direction: Direction) -> TaskEditorView {
    match edited_text(v) {
        Some(text) => match direction {
            Direction::Left => if v.idx > 0 {
                TaskEditorView { idx: (v.idx - 1) as usize, ..v }
            } else {
                v
            },
            Direction::Right => if v.idx + 1 < text.len() {
                TaskEditorView { idx: (v.idx + 1) as usize, ..v }
            } else {
                v
            },
        },
        None => v,
    }
}

/// The editor after a mouse event at column `x` and row `y`.
///
/// An event left of column 12 without the left button down changes
/// nothing. Any other picks the field by its row: rows 2 and 3 are the
/// name, rows 5 and 6 the status, rows 8 and 9 the free text. The cursor
/// goes behind the end of the text; in the status it goes behind the word
/// that is shown.
pub open spec fn clicked(v: TaskEditorView, x: u16, y: u16, left_down: bool) -> TaskEditorView {
    if x < 12 && !left_down {
        v
    } else if 2 <= y < 4 {
        TaskEditorView { selected: Some(EditingState::Name), idx: v.name.len() as usize, ..v }
    } else if 5 <= y < 7 {
        TaskEditorView {
            selected: Some(EditingState::Status),
            idx: if v.status {
                4
            } else {
                5
            },
            ..v
        }
    } else if 8 <= y < 10 {
        TaskEditorView { selected: Some(EditingState::Data), idx: v.data.len() as usize, ..v }
    } else {
        v
    }
}

/// The editor after a key. In a text, a character is typed at the cursor,
/// backspace deletes the character before the cursor, and the arrows move
/// the cursor. In the status and where nothing is edited no key changes
/// the editor.
pub open spec fn keyed(v: TaskEditorView, key: EditorKey) -> TaskEditorView {
    match edited_text(v) {
        Some(_) => match key {
            EditorKey::Char(ch) => pushed(v, v.idx, ch),
            EditorKey::Backspace => removed(
                v,
                if v.idx > 0 {
                    (v.idx - 1) as usize
                } else {
                    0
                },
            ),
            EditorKey::Left => moved(v, Direction::Left),
            EditorKey::Right => moved(v, Direction::Right),
            EditorKey::Other => v,
        },
        None => v,
    }
}

/// Whether a key asks for the status to be switched: `t`, while the status
/// is being edited.
pub open spec fn asks_toggle(v: TaskEditorView, key: EditorKey) -> bool {
    v.selected == Some(EditingState::Status) && key == EditorKey::Char('t')
}

/// The lines of `content` from the third up to the one before `upto`, each
/// without the characters at its ends that `white` marks, one after the
/// other. `bounds` tells where the lines stand.
pub open spec fn joined_lines(
    content: Seq<char>,
    white: Seq<bool>,
    bounds: Seq<(int, int)>,
    upto: int,
) -> Seq<char>
    decreases upto,
{
    if upto <= 2 {
        Seq::empty()
    } else {
        joined_lines(content, white, bounds, upto - 1) + trimmed_part(
            content,
            white,
            bounds[upto - 1].0,
            bounds[upto - 1].1,
        )
    }
}

/// The failure of a second line that is neither `true` nor `false`.
pub open spec fn status_line_failure() -> TaskErrorView {
    TaskErrorView::ParseError("Incorrect status"@)
}

/// The editor that shows the task written in `content`, line by line,
/// where `white` marks the white space of `content`.
///
/// The first line is the name, the second the status, and the lines after
/// it the free text. Name and free text lose the marked characters at the
/// ends of their lines; the status line is `true` or `false` to the letter.
pub open spec fn editor_of_marked(content: Seq<char>, white: Seq<bool>) -> Result<
    TaskEditorView,
    TaskErrorView,
> {
    let bounds = line_bounds(content);
    let second = if bounds.len() >= 2 {
        content.subrange(bounds[1].0, bounds[1].1)
    } else {
        Seq::empty()
    };
    if bounds.len() >= 2 && second != "true"@ && second != "false"@ {
        Err(status_line_failure())
    } else {
        Ok(
            TaskEditorView {
                name: if bounds.len() >= 1 {
                    trimmed_part(content, white, bounds[0].0, bounds[0].1)
                } else {
                    Seq::empty()
                },
                status: bounds.len() >= 2 && second == "true"@,
                data: joined_lines(content, white, bounds, bounds.len() as int),
                ..blank_editor(0)
            },
        )
    }
}

/// The editor that shows the task written in `content`: see
/// `editor_of_marked`, with Unicode white space as what is marked.
pub open spec fn editor_of(content: Seq<char>) -> Result<TaskEditorView, TaskErrorView> {
    editor_of_marked(content, marks_of(content))
}

/// How the character at `i` of a free text is shown. A backslash is shown
/// as a space, and an `n` as a line break once a backslash stands anywhere
/// before it.
pub open spec fn shown_char(data: Seq<char>, i: int) -> char {
    if data[i] == '\\' {
        ' '
    } else if data[i] == 'n' && position_of(data, '\\', 0) < i {
        '\n'
    } else {
        data[i]
    }
}

/// How a free text is shown, character by character.
pub open spec fn shown_data(data: Seq<char>) -> Seq<char> {
    Seq::new(data.len(), |i: int| shown_char(data, i))
}

/// The editor once it shows `task`: it has the name and the status of the
/// task, and its free text as it is shown. What is being edited, and where,
/// stays.
pub open spec fn showing(v: TaskEditorView, task: TaskEditorView) -> TaskEditorView {
    TaskEditorView {
        is_selected: true,
        name: task.name,
        status: task.status,
        data: shown_data(task.data),
        ..v
    }
}

/// The editor after it was sent `message`: where the message holds a task,
/// the editor shows it; where it does not, the editor stays as it was.
pub open spec fn received(v: TaskEditorView, message: Seq<char>) -> TaskEditorView {
    match editor_of(message) {
        Ok(task) => showing(v, task),
        Err(_) => v,
    }
}

/// What `parse` returned, as plain values.
pub open spec fn editor_read(r: Result<TaskEditorState, TaskError>) -> Result<
    TaskEditorView,
    TaskErrorView,
> {
    match r {
        Ok(editor) => Ok(editor@),
        Err(e) => Err(e@),
    }
}

impl Default for TaskEditorState {
    fn default() -> (editor: Self)
        ensures
            editor@ == blank_editor(0),
    {
        TaskEditorState {
            is_selected: false,
            name: String::new(),
            status: false,
            data: String::new(),
            idx: 0,
            selected: None,
        }
    }
}

/// `text` with `ch` put in at `at`.
fn insert_char(text: &str, at: usize, ch: char) -> (out: Option<String>)
    ensures
        out matches Some(s) ==> at <= text@.len() && s@ == text@.insert(at as int, ch),
        out is None ==> at > text@.len(),
{
    let mut chars = chars_of(text);
    if at > chars.len() {
        return None;
    }
    chars.insert(at, ch);
    Some(string_of(chars.as_slice(), 0, chars.len()))
}

/// `text` without the character at `at`.
fn remove_char(text: &str, at: usize) -> (out: Option<String>)
    ensures
        out matches Some(s) ==> at < text@.len() && s@ == text@.remove(at as int),
        out is None ==> at >= text@.len(),
{
    let mut chars = chars_of(text);
    if at >= chars.len() {
        return None;
    }
    chars.remove(at);
    Some(string_of(chars.as_slice(), 0, chars.len()))
}

/// Shows a free text: see `shown_data`.
pub fn show_data(data: &str) -> (out: String)
    ensures
        out@ == shown_data(data@),
{
    let chars = chars_of(data);
    let mut out: Vec<char> = Vec::new();
    let mut seen = false;
    let mut i: usize = 0;
    proof {
        lemma_position_of(chars@, '\\', 0);
    }
    while i < chars.len()
        invariant
            i <= chars@.len(),
            seen == (position_of(chars@, '\\', 0) < i),
            out@.len() == i,
            forall|k: int| 0 <= k < i ==> out@[k] == shown_char(chars@, k),
        decreases chars@.len() - i,
    {
        proof {
            lemma_position_of(chars@, '\\', 0);
        }
        let c = chars[i];
        if c == '\\' {
            seen = true;
            out.push(' ');
        } else if c == 'n' && seen {
            out.push('\n');
        } else {
            out.push(c);
        }
        i += 1;
    }
    assert(out@ =~= shown_data(chars@));
    string_of(out.as_slice(), 0, out.len())
}

impl TaskEditorState {
    /// An editor that shows nothing yet, with its cursor as far in as
    /// `content` is long.
    pub fn new(content: String) -> (editor: Self)
        ensures
            editor@ == blank_editor(content@.len() as usize),
    {
        TaskEditorState {
            is_selected: false,
            name: String::new(),
            status: false,
            data: String::new(),
            idx: content.as_str().unicode_len(),
            selected: None,
        }
    }

    /// Types `ch` at `idx`: see `pushed`.
    pub fn push(&mut self, idx: usize, ch: char)
        ensures
            final(self)@ == pushed(old(self)@, idx, ch),
    {
        if self.idx == usize::MAX {
            return ;
        }
        match self.selected {
            Some(EditingState::Name) => {
                if let Some(name) = insert_char(self.name.as_str(), idx, ch) {
                    self.name = name;
                    self.idx += 1;
                }
            },
            Some(EditingState::Data) => {
                if let Some(data) = insert_char(self.data.as_str(), idx, ch) {
                    self.data = data;
                    self.idx += 1;
                }
            },
            _ => {},
        }
    }

    /// Deletes the character at `idx`: see `removed`.
    pub fn remove(&mut self, idx: usize)
        ensures
            final(self)@ == removed(old(self)@, idx),
    {
        if self.idx == 0 {
            return ;
        }
        match self.selected {
            Some(EditingState::Name) => {
                if let Some(name) = remove_char(self.name.as_str(), idx) {
                    self.name = name;
                    self.idx -= 1;
                }
            },
            Some(EditingState::Data) => {
                if let Some(data) = remove_char(self.data.as_str(), idx) {
                    self.data = data;
                    self.idx -= 1;
                }
            },
            _ => {},
        }
    }

    /// Moves the cursor: see `moved`.
    pub fn move_direction(&mut self, direction: Direction)
        ensures
            final(self)@ == moved(old(self)@, direction),
    {
        let length = match self.selected {
            Some(EditingState::Name) => self.name.as_str().unicode_len(),
            Some(EditingState::Data) => self.data.as_str().unicode_len(),
            _ => {
                return ;
            },
        };
        match direction {
            Direction::Left => {
                if self.idx > 0 {
                    self.idx -= 1;
                }
            },
            Direction::Right => {
                if length > 0 && self.idx < length - 1 {
                    self.idx += 1;
                }
            },
        }
    }

    /// Takes a mouse event at column `x` and row `y`: see `clicked`.
    pub fn on_mouse(&mut self, x: u16, y: u16, left_down: bool)
        ensures
            final(self)@ == clicked(old(self)@, x, y, left_down),
    {
        if x < 12 && !left_down {
            return ;
        }
        if 2 <= y && y < 4 {
            self.selected = Some(EditingState::Name);
            self.idx = self.name.as_str().unicode_len();
        }
        if 5 <= y && y < 7 {
            self.selected = Some(EditingState::Status);
            self.idx = if self.status {
                4
            } else {
                5
            };
        }
        if 8 <= y && y < 10 {
            self.selected = Some(EditingState::Data);
            self.idx = self.data.as_str().unicode_len();
        }
    }

    /// Takes a key: see `keyed`. The result tells whether the key asks for
    /// the status to be switched, which is left to the caller.
    pub fn on_key(&mut self, key: EditorKey) -> (toggle: bool)
        ensures
            final(self)@ == keyed(old(self)@, key),
            toggle == asks_toggle(old(self)@, key),
    {
        match self.selected {
            None => false,
            Some(EditingState::Status) => {
                match key {
                    EditorKey::Char(ch) => ch == 't',
                    _ => false,
                }
            },
            Some(_) => {
                match key {
                    EditorKey::Char(ch) => self.push(self.idx, ch),
                    EditorKey::Backspace => self.remove(
                        if self.idx > 0 {
                            self.idx - 1
                        } else {
                            0
                        },
                    ),
                    EditorKey::Left => self.move_direction(Direction::Left),
                    EditorKey::Right => self.move_direction(Direction::Right),
                    EditorKey::Other => {},
                }
                false
            },
        }
    }

    /// Reads the task written in `content`, where `white` marks the white
    /// space of `content`: see `editor_of_marked`.
    pub fn parse_marked(content: &[char], white: &[bool]) -> (r: Result<
        TaskEditorState,
        TaskError,
    >)
        ensures
            editor_read(r) == editor_of_marked(content@, white@),
    {
        let marks = split_lines(content);
        let ghost bounds = line_bounds(content@);
        proof {
            lemma_line_bounds(content@, 0);
        }
        let mut editor = TaskEditorState::default();
        if marks.len() >= 1 {
            assert(bounds[0] == bounds_view(marks@)[0]);
            let name = trim_part(content, white, marks[0].0, marks[0].1);
            editor.name = string_of(name.as_slice(), 0, name.len());
        }
        if marks.len() >= 2 {
            assert(bounds[1] == bounds_view(marks@)[1]);
            let line = string_of(content, marks[1].0, marks[1].1);
            if line == "true".to_owned() {
                editor.status = true;
            } else if line == "false".to_owned() {
                editor.status = false;
            } else {
                return Err(TaskError::ParseError("Incorrect status".to_owned()));
            }
        }
        let mut data: Vec<char> = Vec::new();
        let mut k: usize = 2;
        while k < marks.len()
            invariant
                2 <= k,
                k <= marks@.len() || k == 2,
                bounds == line_bounds(content@),
                bounds_view(marks@) == bounds,
                forall|j: int|
                    0 <= j < bounds.len() ==> 0 <= (#[trigger] bounds[j]).0 <= bounds[j].1
                        <= content@.len(),
                data@ == joined_lines(content@, white@, bounds, k as int),
            decreases marks@.len() - k,
        {
            assert(bounds[k as int] == bounds_view(marks@)[k as int]);
            let mut line = trim_part(content, white, marks[k].0, marks[k].1);
            data.append(&mut line);
            k += 1;
        }
        editor.data = string_of(data.as_slice(), 0, data.len());
        proof {
            let want = editor_of_marked(content@, white@);
            assert(want is Ok);
            assert(editor@.name == want->Ok_0.name);
            assert(editor@.data == want->Ok_0.data);
        }
        Ok(editor)
    }

    /// Reads the task written in `content`: see `editor_of`. `self` takes
    /// no part.
    pub fn parse(&mut self, content: String) -> (r: Result<TaskEditorState, TaskError>)
        ensures
            editor_read(r) == editor_of(content@),
            *final(self) == *old(self),
    {
        let chars = chars_of(content.as_str());
        let white = white_marks(chars.as_slice());
        Self::parse_marked(chars.as_slice(), white.as_slice())
    }

    /// Shows `task`: see `showing`.
    pub fn show(&mut self, task: TaskEditorState)
        ensures
            final(self)@ == showing(old(self)@, task@),
    {
        self.is_selected = true;
        self.data = show_data(task.data.as_str());
        self.name = task.name;
        self.status = task.status;
    }

    /// Takes a message: see `received`.
    pub fn receive(&mut self, message: String)
        ensures
            final(self)@ == received(old(self)@, message@),
    {
        if let Ok(task) = self.parse(message) {
            self.show(task);
        }
    }
}

} // verus!
