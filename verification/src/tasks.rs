//! The task, the list of tasks, and the reading and writing of both.

use vstd::prelude::*;
use vstd::string::*;
use crate::grammar::{
    data_at, document, document_text, ends_at, lemma_record_advances, lemma_words, name_at,
    record_at, record_text, records_at, status_at, status_word,
};
use crate::iterator::TaskIter;
use crate::scan::{
    find_char, find_closing_quote, find_token, has_token_at, lemma_before_blanks,
    lemma_closing_quote, lemma_past_blanks, lemma_position_of, lemma_position_of_token,
    past_blanks, skip_blanks, trim_end,
};
use crate::text::{chars_of, sanitize_chars, sanitized, string_of};

verus! {

/// Why a text could not be loaded or read.
#[derive(Debug)]
pub enum TaskError {
    /// The file at this path could not be read.
    NoFile(String),
    /// There was nothing to read.
    NoData,
    /// The text is not in the format; the message says where it went wrong.
    ParseError(String),
}

/// A `TaskError` as a plain value.
pub ghost enum TaskErrorView {
    NoFile(Seq<char>),
    NoData,
    ParseError(Seq<char>),
}

impl View for TaskError {
    type V = TaskErrorView;

    open spec fn view(&self) -> TaskErrorView {
        match self {
            TaskError::NoFile(path) => TaskErrorView::NoFile(path@),
            TaskError::NoData => TaskErrorView::NoData,
            TaskError::ParseError(message) => TaskErrorView::ParseError(message@),
        }
    }
}

/// How a failure reads to a person.
pub open spec fn error_text(error: TaskErrorView) -> Seq<char> {
    match error {
        TaskErrorView::ParseError(message) => "Failed to parse: "@ + message,
        TaskErrorView::NoFile(path) => "ENOFILE: "@ + path,
        TaskErrorView::NoData => "No data to parse"@,
    }
}

impl TaskError {
    /// The failure in words.
    pub fn to_string(&self) -> (text: String)
        ensures
            text@ == error_text(self@),
    {
        match self {
            TaskError::ParseError(message) => {
                let mut text = "Failed to parse: ".to_owned();
                text.append(message.as_str());
                text
            },
            TaskError::NoFile(path) => {
                let mut text = "ENOFILE: ".to_owned();
                text.append(path.as_str());
                text
            },
            TaskError::NoData => "No data to parse".to_owned(),
        }
    }
}

/// What loading the file at `path` gave, where `read` is the text of the
/// file, or nothing if the file could not be read: the text, or the failure
/// that names the file.
pub open spec fn loaded(path: Seq<char>, read: Option<Seq<char>>) -> Result<
    Seq<char>,
    TaskErrorView,
> {
    match read {
        Some(text) => Ok(text),
        None => Err(TaskErrorView::NoFile(path)),
    }
}

/// What `load` returned, as plain values.
pub open spec fn text_read(r: Result<String, TaskError>) -> Result<Seq<char>, TaskErrorView> {
    match r {
        Ok(text) => Ok(text@),
        Err(e) => Err(e@),
    }
}

/// Tells a file that could not be read from a text that cannot be parsed:
/// see `loaded`. The caller reads the file and hands over what it got.
pub fn load(path: &str, read: Option<String>) -> (r: Result<String, TaskError>)
    ensures
        text_read(r) == loaded(
            path@,
            match read {
                Some(text) => Some(text@),
                None => None,
            },
        ),
{
    match read {
        Some(text) => Ok(text),
        None => Err(TaskError::NoFile(path.to_owned())),
    }
}

impl PartialEq for TaskError {
    fn eq(&self, other: &Self) -> (r: bool) {
        match (self, other) {
            (TaskError::NoFile(a), TaskError::NoFile(b)) => *a == *b,
            (TaskError::NoData, TaskError::NoData) => true,
            (TaskError::ParseError(a), TaskError::ParseError(b)) => *a == *b,
            _ => false,
        }
    }
}

impl Eq for TaskError {

}

impl vstd::std_specs::cmp::PartialEqSpecImpl for TaskError {
    open spec fn obeys_eq_spec() -> bool {
        true
    }

    open spec fn eq_spec(&self, other: &Self) -> bool {
        self@ == other@
    }
}

/// The part of a record that the reader is at.
#[derive(Debug, Clone, Copy, PartialEq, Eq, Structural)]
pub enum ParserState {
    Name,
    Status,
    Data,
}

/// Where reading goes on after a record.
#[derive(Debug, PartialEq, Eq, Structural)]
pub enum ParserOffset {
    /// More text follows, from this position.
    Offset(usize),
    /// The record was the last one.
    Eof,
}

/// The name of a task, as read from a header.
#[derive(Debug)]
pub struct TaskName {
    pub name: String,
}

impl TaskName {
    /// A name that holds `name`.
    pub fn new(name: String) -> (r: Self)
        ensures
            r.name == name,
    {
        Self { name }
    }
}

/// The free text of a task, as read from between its quotes.
#[derive(Debug)]
pub struct TaskData {
    pub data: String,
}

impl TaskData {
    /// A free text that holds `data`.
    pub fn new(data: String) -> (r: Self)
        ensures
            r.data == data,
    {
        Self { data }
    }
}

/// Whether a task is done, as read from its status line.
#[derive(Debug)]
pub struct TaskStatus {
    pub status: bool,
}

impl TaskStatus {
    /// A status that holds `status`.
    pub fn new(status: bool) -> (r: Self)
        ensures
            r.status == status,
    {
        Self { status }
    }

    /// The status as it is written: `true` or `false`.
    pub fn to_string(&self) -> (text: String)
        ensures
            text@ == status_word(self.status),
    {
        if self.status {
            "true".to_owned()
        } else {
            "false".to_owned()
        }
    }
}

/// A task as a plain value.
pub ghost struct TaskItemView {
    pub name: Seq<char>,
    pub status: bool,
    pub data: Seq<char>,
}

/// One task: a name, whether it is done, and a free text.
#[derive(Debug)]
pub struct TaskItem {
    name: String,
    status: bool,
    data: String,
}

impl View for TaskItem {
    type V = TaskItemView;

    closed spec fn view(&self) -> TaskItemView {
        TaskItemView { name: self.name@, status: self.status, data: self.data@ }
    }
}

impl Default for TaskItem {
    fn default() -> (item: Self)
        ensures
            item@ == (TaskItemView { name: Seq::empty(), status: false, data: Seq::empty() }),
    {
        TaskItem { name: String::new(), status: false, data: String::new() }
    }
}

impl Clone for TaskItem {
    fn clone(&self) -> (item: Self)
        ensures
            item@ == self@,
    {
        TaskItem { name: self.name.clone(), status: self.status, data: self.data.clone() }
    }
}

/// How a task is shown: the name in brackets, the status and the free
/// text, each on a line of its own.
pub open spec fn shown(item: TaskItemView) -> Seq<char> {
    "["@ + item.name + "]\n"@ + status_word(item.status) + "\n"@ + item.data + "\n"@
}

/// How a list of tasks is shown: one task after the other.
pub open spec fn shown_list(items: Seq<TaskItemView>) -> Seq<char>
    decreases items.len(),
{
    if items.len() == 0 {
        Seq::empty()
    } else {
        shown_list(items.drop_last()) + shown(items.last())
    }
}

impl TaskItem {
    /// The task as it is shown.
    pub fn to_string(&self) -> (text: String)
        ensures
            text@ == shown(self@),
    {
        let mut text = "[".to_owned();
        text.append(self.name.as_str());
        text.append("]\n");
        text.append(
            if self.status {
                "true"
            } else {
                "false"
            },
        );
        text.append("\n");
        text.append(self.data.as_str());
        text.append("\n");
        text
    }

    /// A task with this name, free text and status.
    pub fn new(name: String, data: String, status: bool) -> (item: Self)
        ensures
            item@ == (TaskItemView { name: name@, status, data: data@ }),
    {
        Self { name, data, status }
    }

    /// The name.
    pub fn name(&self) -> (name: &str)
        ensures
            name@ == self@.name,
    {
        self.name.as_str()
    }

    /// The free text.
    pub fn data(&self) -> (data: &str)
        ensures
            data@ == self@.data,
    {
        self.data.as_str()
    }

    /// Whether the task is done.
    pub fn status(&self) -> (status: bool)
        ensures
            status == self@.status,
    {
        self.status
    }

    /// Puts `name` in the place of the name.
    pub fn set_name(&mut self, name: String)
        ensures
            final(self)@ == (TaskItemView { name: name@, ..old(self)@ }),
    {
        self.name = name
    }

    /// Puts `data` in the place of the free text.
    pub fn set_data(&mut self, data: String)
        ensures
            final(self)@ == (TaskItemView { data: data@, ..old(self)@ }),
    {
        self.data = data
    }

    /// Puts `status` in the place of the status.
    pub fn set_status(&mut self, status: bool)
        ensures
            final(self)@ == (TaskItemView { status, ..old(self)@ }),
    {
        self.status = status
    }

    /// Reads one record from `source`, beginning at the character `offset`.
    ///
    /// On success the record comes with the place where the next one
    /// begins, or with `Eof` when only white space is left. Nothing can be
    /// read at or after the end of `source`: that is `NoData`.
    pub fn parse(source: &str, offset: usize) -> (r: Result<(TaskItem, ParserOffset), TaskError>)
        ensures
            record_read(r) == record_from(source@, offset as int),
    {
        let chars = chars_of(source);
        Self::scan_record(chars.as_slice(), offset)
    }

    /// Reads the name at the head of `source`.
    pub fn parse_name(source: &str) -> (r: Result<(TaskName, usize), TaskError>)
        ensures
            name_read(r) == name_at(source@, 0),
    {
        let chars = chars_of(source);
        Self::scan_name(chars.as_slice(), 0)
    }

    /// Reads the status at the head of `source`.
    pub fn parse_status(source: &str) -> (r: Result<(TaskStatus, usize), TaskError>)
        ensures
            status_read(r) == status_at(source@, 0),
    {
        let chars = chars_of(source);
        Self::scan_status(chars.as_slice(), 0)
    }

    /// Reads the payload at the head of `source`.
    pub fn parse_data(source: &str) -> (r: Result<(TaskData, usize), TaskError>)
        ensures
            data_read(r) == data_at(source@, 0),
    {
        let chars = chars_of(source);
        Self::scan_data(chars.as_slice(), 0)
    }

    /// Reads one record from `s`, beginning at `from`: the name, then the
    /// status, then the payload, each where the part before it ended.
    pub fn scan_record(s: &[char], from: usize) -> (r: Result<(TaskItem, ParserOffset), TaskError>)
        ensures
            record_read(r) == record_from(s@, from as int),
    {
        if from >= s.len() {
            return Err(TaskError::NoData);
        }
        let mut state = ParserState::Name;
        let mut at: usize = from;
        let mut item = TaskItem::default();
        loop
            invariant
                record_at(s@, from as int) == resumed(s@, state, at as int, item@),
            decreases rank(state),
        {
            match state {
                ParserState::Name => {
                    match Self::scan_name(s, at) {
                        Ok((name, next)) => {
                            item.set_name(name.name);
                            at = next;
                            state = ParserState::Status;
                        },
                        Err(e) => {
                            return Err(e);
                        },
                    }
                },
                ParserState::Status => {
                    match Self::scan_status(s, at) {
                        Ok((status, next)) => {
                            item.set_status(status.status);
                            at = next;
                            state = ParserState::Data;
                        },
                        Err(e) => {
                            return Err(e);
                        },
                    }
                },
                ParserState::Data => {
                    match Self::scan_data(s, at) {
                        Ok((data, next)) => {
                            item.set_data(data.data);
                            proof {
                                lemma_record_advances(s@, from as int);
                            }
                            if skip_blanks(s, next, s.len()) >= s.len() {
                                return Ok((item, ParserOffset::Eof));
                            }
                            return Ok((item, ParserOffset::Offset(next)));
                        },
                        Err(e) => {
                            return Err(e);
                        },
                    }
                },
            }
        }
    }

    /// Reads a name from `s`, beginning at `from`.
    pub fn scan_name(s: &[char], from: usize) -> (r: Result<(TaskName, usize), TaskError>)
        ensures
            name_read(r) == name_at(s@, from as int),
    {
        let open = find_char(s, '[', from);
        if open >= s.len() {
            return Err(TaskError::ParseError("failed to find name".to_owned()));
        }
        let close = find_char(s, ']', open + 1);
        if close >= s.len() {
            return Err(TaskError::ParseError("failed to find name".to_owned()));
        }
        proof {
            lemma_position_of(s@, ']', open + 1);
            lemma_past_blanks(s@, open + 1, close as int);
            lemma_before_blanks(s@, past_blanks(s@, open + 1, close as int), close as int);
        }
        let first = skip_blanks(s, open + 1, close);
        let end = trim_end(s, first, close);
        Ok((TaskName::new(string_of(s, first, end)), close + 1))
    }

    /// Reads a status from `s`, beginning at `from`.
    pub fn scan_status(s: &[char], from: usize) -> (r: Result<(TaskStatus, usize), TaskError>)
        ensures
            status_read(r) == status_at(s@, from as int),
    {
        let keyword = chars_of("status");
        let yes = chars_of("true");
        let no = chars_of("false");
        proof {
            lemma_words();
        }
        let key = find_token(s, keyword.as_slice(), from);
        if key >= s.len() {
            return Err(TaskError::ParseError("failed to find status".to_owned()));
        }
        proof {
            lemma_position_of_token(s@, keyword@, from as int);
        }
        let equals = find_char(s, '=', key + keyword.len());
        if equals >= s.len() {
            return Err(TaskError::ParseError("failed to find status".to_owned()));
        }
        let value = skip_blanks(s, equals + 1, s.len());
        if value >= s.len() {
            return Err(TaskError::ParseError("failed to find status".to_owned()));
        }
        if has_token_at(s, yes.as_slice(), value) {
            Ok((TaskStatus::new(true), value + yes.len()))
        } else if has_token_at(s, no.as_slice(), value) {
            Ok((TaskStatus::new(false), value + no.len()))
        } else {
            Err(TaskError::ParseError("expected 'true' or 'false'".to_owned()))
        }
    }

    /// Reads a payload from `s`, beginning at `from`.
    pub fn scan_data(s: &[char], from: usize) -> (r: Result<(TaskData, usize), TaskError>)
        ensures
            data_read(r) == data_at(s@, from as int),
    {
        let keyword = chars_of("data");
        proof {
            lemma_words();
        }
        let key = find_token(s, keyword.as_slice(), from);
        if key >= s.len() {
            return Err(TaskError::ParseError("failed to parse data".to_owned()));
        }
        proof {
            lemma_position_of_token(s@, keyword@, from as int);
        }
        let equals = find_char(s, '=', key + keyword.len());
        if equals >= s.len() {
            return Err(TaskError::ParseError("failed to parse data".to_owned()));
        }
        let open = find_char(s, '"', equals + 1);
        if open >= s.len() {
            return Err(TaskError::ParseError("failed to parse data".to_owned()));
        }
        let close = find_closing_quote(s, open + 1);
        if close >= s.len() {
            return Err(TaskError::ParseError("failed to parse data".to_owned()));
        }
        proof {
            lemma_closing_quote(s@, open + 1);
        }
        Ok((TaskData::new(string_of(s, open + 1, close)), close + 1))
    }
}

/// What `parse_name` and `scan_name` returned, as plain values.
pub open spec fn name_read(r: Result<(TaskName, usize), TaskError>) -> Result<
    (Seq<char>, int),
    TaskErrorView,
> {
    match r {
        Ok((name, next)) => Ok((name.name@, next as int)),
        Err(e) => Err(e@),
    }
}

/// What `parse_status` and `scan_status` returned, as plain values.
pub open spec fn status_read(r: Result<(TaskStatus, usize), TaskError>) -> Result<
    (bool, int),
    TaskErrorView,
> {
    match r {
        Ok((status, next)) => Ok((status.status, next as int)),
        Err(e) => Err(e@),
    }
}

/// What `parse_data` and `scan_data` returned, as plain values.
pub open spec fn data_read(r: Result<(TaskData, usize), TaskError>) -> Result<
    (Seq<char>, int),
    TaskErrorView,
> {
    match r {
        Ok((data, next)) => Ok((data.data@, next as int)),
        Err(e) => Err(e@),
    }
}

/// What `parse` and `scan_record` returned, as plain values.
pub open spec fn record_read(r: Result<(TaskItem, ParserOffset), TaskError>) -> Result<
    (TaskItemView, ParserOffset),
    TaskErrorView,
> {
    match r {
        Ok((item, offset)) => Ok((item@, offset)),
        Err(e) => Err(e@),
    }
}

/// The record at `from` in `s`, and where reading goes on after it: at the
/// position behind the record, or nowhere when only white space is left.
pub open spec fn record_from(s: Seq<char>, from: int) -> Result<
    (TaskItemView, ParserOffset),
    TaskErrorView,
> {
    match record_at(s, from) {
        Ok((item, next)) => Ok(
            (
                item,
                if ends_at(s, next) {
                    ParserOffset::Eof
                } else {
                    ParserOffset::Offset(next as usize)
                },
            ),
        ),
        Err(e) => Err(e),
    }
}

/// How many parts of a record are still to be read in `state`.
pub open spec fn rank(state: ParserState) -> nat {
    match state {
        ParserState::Name => 2,
        ParserState::Status => 1,
        ParserState::Data => 0,
    }
}

/// The record that reading ends with when it goes on in `state` at `at`,
/// with the parts read so far held in `partial`.
pub open spec fn resumed(s: Seq<char>, state: ParserState, at: int, partial: TaskItemView) -> Result<
    (TaskItemView, int),
    TaskErrorView,
> {
    match state {
        ParserState::Name => match name_at(s, at) {
            Err(e) => Err(e),
            Ok((name, next)) => resumed_status(s, next, TaskItemView { name, ..partial }),
        },
        ParserState::Status => resumed_status(s, at, partial),
        ParserState::Data => resumed_data(s, at, partial),
    }
}

/// `resumed` in the state `Status`.
pub open spec fn resumed_status(s: Seq<char>, at: int, partial: TaskItemView) -> Result<
    (TaskItemView, int),
    TaskErrorView,
> {
    match status_at(s, at) {
        Err(e) => Err(e),
        Ok((status, next)) => resumed_data(s, next, TaskItemView { status, ..partial }),
    }
}

/// `resumed` in the state `Data`.
pub open spec fn resumed_data(s: Seq<char>, at: int, partial: TaskItemView) -> Result<
    (TaskItemView, int),
    TaskErrorView,
> {
    match data_at(s, at) {
        Err(e) => Err(e),
        Ok((data, next)) => Ok((TaskItemView { data, ..partial }, next)),
    }
}

/// An ordered list of tasks. Tasks keep the order in which they were added,
/// and two of them may have the same name.
#[derive(Debug)]
pub struct TaskList {
    pub list: Vec<TaskItem>,
}

impl View for TaskList {
    type V = Seq<TaskItemView>;

    open spec fn view(&self) -> Seq<TaskItemView> {
        self.list@.map_values(|item: TaskItem| item@)
    }
}

impl Default for TaskList {
    fn default() -> (list: Self)
        ensures
            list@ == Seq::<TaskItemView>::empty(),
    {
        let list = TaskList { list: Vec::new() };
        assert(list@ =~= Seq::<TaskItemView>::empty());
        list
    }
}

impl Clone for TaskList {
    fn clone(&self) -> (list: Self)
        ensures
            list@ == self@,
    {
        let mut list: Vec<TaskItem> = Vec::new();
        let mut i: usize = 0;
        while i < self.list.len()
            invariant
                i <= self.list@.len(),
                list@.len() == i,
                forall|k: int| 0 <= k < i ==> list@[k]@ == self.list@[k]@,
            decreases self.list@.len() - i,
        {
            list.push(self.list[i].clone());
            i += 1;
        }
        let list = TaskList { list };
        assert(list@ =~= self@);
        list
    }
}

/// `s` without what stands at `at`, if anything stands there.
pub open spec fn without<A>(s: Seq<A>, at: int) -> Seq<A> {
    if 0 <= at < s.len() {
        s.remove(at)
    } else {
        s
    }
}

/// `s` with `value` in the place of what stands at `at`, if anything stands
/// there.
pub open spec fn replaced<A>(s: Seq<A>, at: int, value: A) -> Seq<A> {
    if 0 <= at < s.len() {
        s.update(at, value)
    } else {
        s
    }
}

/// Taking out the task that was added last gives the list as it was
/// before, and nothing can be taken out of the empty list. So a task that
/// is added to the empty list and taken out again leaves the list empty,
/// and so does whatever is taken out after that.
pub proof fn lemma_push_then_remove(items: Seq<TaskItemView>, item: TaskItemView, at: int)
    ensures
        without(items.push(item), items.len() as int) == items,
        without(Seq::<TaskItemView>::empty(), at) == Seq::<TaskItemView>::empty(),
{
    assert(items.push(item).remove(items.len() as int) =~= items);
}

/// `found` with `first` put before its records.
pub open spec fn preceded_by(
    first: Seq<TaskItemView>,
    found: Result<Seq<TaskItemView>, TaskErrorView>,
) -> Result<Seq<TaskItemView>, TaskErrorView> {
    match found {
        Ok(rest) => Ok(first + rest),
        Err(e) => Err(e),
    }
}

/// What `parse` and `deserialize` returned, as plain values.
pub open spec fn list_read(r: Result<TaskList, TaskError>) -> Result<
    Seq<TaskItemView>,
    TaskErrorView,
> {
    match r {
        Ok(list) => Ok(list@),
        Err(e) => Err(e@),
    }
}

impl TaskList {
    /// A list with no task in it.
    pub fn new() -> (list: Self)
        ensures
            list@ == Seq::<TaskItemView>::empty(),
    {
        TaskList::default()
    }

    /// Reads a whole text: cleans it, then reads record after record until
    /// the text ends. The result holds every record in the order of the
    /// text, or the failure of the first record that could not be read, and
    /// then nothing of what was read before it. `self` takes no part.
    pub fn parse(&mut self, content: String) -> (r: Result<TaskList, TaskError>)
        ensures
            list_read(r) == document(content@),
            *final(self) == *old(self),
    {
        let chars = chars_of(content.as_str());
        let clean = sanitize_chars(chars.as_slice());
        let mut offset: usize = 0;
        let mut list = TaskList::default();
        loop
            invariant
                clean@ == sanitized(content@),
                records_at(clean@, 0) == preceded_by(list@, records_at(clean@, offset as int)),
            decreases clean@.len() - offset,
        {
            proof {
                lemma_record_advances(clean@, offset as int);
            }
            let ghost before = list@;
            let ghost found = record_at(clean@, offset as int);
            let ghost bound = clean.len();
            match TaskItem::scan_record(clean.as_slice(), offset) {
                Ok((item, next)) => {
                    list.push(item);
                    assert(list@ =~= before.push(item@));
                    match next {
                        ParserOffset::Offset(new_offset) => {
                            assert(found is Ok);
                            assert(new_offset == found->Ok_0.1);
                            assert forall|rest: Seq<TaskItemView>|
                                before + (seq![item@] + rest) == #[trigger] (list@ + rest) by {
                                assert(before + (seq![item@] + rest) =~= list@ + rest);
                            }
                            offset = new_offset;
                        },
                        ParserOffset::Eof => {
                            assert(before + seq![item@] =~= list@);
                            return Ok(list);
                        },
                    }
                },
                Err(error) => {
                    return Err(error);
                },
            }
        }
    }

    /// Reads a whole text into a list. See `parse`.
    ///
    /// A text that is empty once cleaned is refused with `NoData`: it does
    /// not give an empty list.
    pub fn deserialize(source: String) -> (r: Result<Self, TaskError>)
        ensures
            list_read(r) == document(source@),
    {
        TaskList::default().parse(source)
    }

    /// Writes the list as text: for each task, in order, a header line with
    /// the name in brackets, a status line and a data line.
    pub fn serialize(&self) -> (out: String)
        ensures
            out@ == document_text(self@),
    {
        let mut out = String::new();
        let mut i: usize = 0;
        while i < self.list.len()
            invariant
                i <= self.list@.len(),
                out@ == document_text(self@.take(i as int)),
            decreases self.list@.len() - i,
        {
            let item = &self.list[i];
            let ghost so_far = out@;
            out.append("[");
            out.append(item.name());
            out.append("]\nstatus = ");
            out.append(
                if item.status() {
                    "true"
                } else {
                    "false"
                },
            );
            out.append("\ndata = \"");
            out.append(item.data());
            out.append("\"\n");
            proof {
                let upto = self@.take(i + 1);
                assert(upto.drop_last() =~= self@.take(i as int));
                assert(upto.last() == item@);
                assert(out@ =~= so_far + record_text(item@));
            }
            i += 1;
        }
        assert(self@.take(self.list@.len() as int) =~= self@);
        out
    }

    /// The list as it is shown.
    pub fn to_string(&self) -> (text: String)
        ensures
            text@ == shown_list(self@),
    {
        let mut text = String::new();
        let mut i: usize = 0;
        while i < self.list.len()
            invariant
                i <= self.list@.len(),
                text@ == shown_list(self@.take(i as int)),
            decreases self.list@.len() - i,
        {
            let shown_item = self.list[i].to_string();
            text.append(shown_item.as_str());
            proof {
                let upto = self@.take(i + 1);
                assert(upto.drop_last() =~= self@.take(i as int));
                assert(upto.last() == self.list@[i as int]@);
            }
            i += 1;
        }
        assert(self@.take(self.list@.len() as int) =~= self@);
        text
    }

    /// A walk over the tasks, from the first on.
    pub fn iter(&self) -> (iter: TaskIter<'_>)
        ensures
            iter.list == self,
            iter.idx == 0,
            iter.remaining() == self@,
    {
        TaskIter::new(self)
    }

    /// How many tasks the list holds.
    pub fn len(&self) -> (n: usize)
        ensures
            n == self@.len(),
    {
        self.list.len()
    }

    /// Whether the list holds no task.
    pub fn is_empty(&self) -> (r: bool)
        ensures
            r == (self@.len() == 0),
    {
        self.list.len() == 0
    }

    /// The task at `idx`, if there is one.
    pub fn get(&self, idx: usize) -> (r: Option<&TaskItem>)
        ensures
            match r {
                Some(item) => idx < self@.len() && item@ == self@[idx as int],
                None => idx >= self@.len(),
            },
    {
        if idx < self.list.len() {
            Some(&self.list[idx])
        } else {
            None
        }
    }

    /// The task at `idx`, to be changed in place, if there is one. What the
    /// caller leaves in it stands at `idx` afterwards; the other tasks stay.
    pub fn get_mut(&mut self, idx: usize) -> (r: Option<&mut TaskItem>)
        ensures
            match r {
                Some(item) => idx < old(self)@.len() && item@ == old(self)@[idx as int]
                    && final(self)@ == old(self)@.update(idx as int, final(item)@),
                None => idx >= old(self)@.len() && final(self)@ == old(self)@,
            },
    {
        if idx < self.list.len() {
            Some(&mut self.list[idx])
        } else {
            None
        }
    }

    /// Adds `item` at the end.
    pub fn push(&mut self, item: TaskItem)
        ensures
            final(self)@ == old(self)@.push(item@),
    {
        self.list.push(item);
        assert(self@ =~= old(self)@.push(item@));
    }

    /// Puts `task` in the place of the task at `idx`. Where there is no
    /// task at `idx`, the list stays as it is.
    pub fn set(&mut self, idx: usize, task: TaskItem)
        ensures
            final(self)@ == replaced(old(self)@, idx as int, task@),
    {
        if idx < self.list.len() {
            self.list.set(idx, task);
            assert(self@ =~= old(self)@.update(idx as int, task@));
        }
    }

    /// Takes out the task at `idx`; the tasks after it move down by one.
    /// Where there is no task at `idx`, the list stays as it is.
    pub fn remove(&mut self, idx: usize)
        ensures
            final(self)@ == without(old(self)@, idx as int),
    {
        if idx < self.list.len() {
            self.list.remove(idx);
            assert(self@ =~= old(self)@.remove(idx as int));
        }
    }
}

} // verus!
