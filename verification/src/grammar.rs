//! What a text holds, and how a list of tasks is written.
//!
//! One record of the text is three lines:
//!
//! ```text
//! [name]
//! status = true
//! data = "free text"
//! ```

use vstd::prelude::*;
use crate::scan::{
    before_blanks, closing_quote, lemma_closing_quote, lemma_past_blanks, lemma_position_of,
    lemma_position_of_token, past_blanks, position_of, position_of_token, token_at,
};
use crate::tasks::{TaskErrorView, TaskItemView};
use crate::text::{is_clean, sanitized};

verus! {

/// The word that opens the status line.
pub open spec fn status_keyword() -> Seq<char> {
    "status"@
}

/// The word that opens the data line.
pub open spec fn data_keyword() -> Seq<char> {
    "data"@
}

/// How a status is written.
pub open spec fn status_word(status: bool) -> Seq<char> {
    if status {
        "true"@
    } else {
        "false"@
    }
}

/// The words of the format, letter by letter.
pub proof fn lemma_words()
    ensures
        status_keyword() =~= seq!['s', 't', 'a', 't', 'u', 's'],
        data_keyword() =~= seq!['d', 'a', 't', 'a'],
        status_word(true) =~= seq!['t', 'r', 'u', 'e'],
        status_word(false) =~= seq!['f', 'a', 'l', 's', 'e'],
{
    reveal_strlit("status");
    reveal_strlit("data");
    reveal_strlit("true");
    reveal_strlit("false");
}

/// The failure of a text with no `[` ... `]` pair left in it.
pub open spec fn name_failure() -> TaskErrorView {
    TaskErrorView::ParseError("failed to find name"@)
}

/// The failure of a text that ends before a status was read.
pub open spec fn status_failure() -> TaskErrorView {
    TaskErrorView::ParseError("failed to find status"@)
}

/// The failure of a status that is neither `true` nor `false`.
pub open spec fn truth_failure() -> TaskErrorView {
    TaskErrorView::ParseError("expected 'true' or 'false'"@)
}

/// The failure of a text that ends before a quoted payload was closed.
pub open spec fn data_failure() -> TaskErrorView {
    TaskErrorView::ParseError("failed to parse data"@)
}

/// The name read from `s` at `from`, with the position after it.
///
/// The header opens at the first `[` and closes at the first `]` after
/// that; whatever stands before the `[` is passed over. The name is what
/// stands between the two, without the white space at either end.
pub open spec fn name_at(s: Seq<char>, from: int) -> Result<(Seq<char>, int), TaskErrorView> {
    let open = position_of(s, '[', from);
    let close = position_of(s, ']', open + 1);
    if open >= s.len() || close >= s.len() {
        Err(name_failure())
    } else {
        let first = past_blanks(s, open + 1, close);
        let end = before_blanks(s, first, close);
        Ok((s.subrange(first, end), close + 1))
    }
}

/// The status read from `s` at `from`, with the position after it.
///
/// The word `status` is looked for, then `=` after it, then, past any white
/// space, `true` or `false`. A text that ends first has no status; any other
/// word in the place of the value is refused.
pub open spec fn status_at(s: Seq<char>, from: int) -> Result<(bool, int), TaskErrorView> {
    let key = position_of_token(s, status_keyword(), from);
    let equals = position_of(s, '=', key + status_keyword().len());
    let value = past_blanks(s, equals + 1, s.len() as int);
    if key >= s.len() || equals >= s.len() || value >= s.len() {
        Err(status_failure())
    } else if token_at(s, status_word(true), value) {
        Ok((true, value + status_word(true).len()))
    } else if token_at(s, status_word(false), value) {
        Ok((false, value + status_word(false).len()))
    } else {
        Err(truth_failure())
    }
}

/// The payload read from `s` at `from`, with the position after it.
///
/// The word `data` is looked for, then `=` after it, then the first double
/// quote, which opens the payload. The payload runs up to the closing quote
/// and is taken as it stands: a backslash keeps its place, and so does the
/// character that it escapes.
pub open spec fn data_at(s: Seq<char>, from: int) -> Result<(Seq<char>, int), TaskErrorView> {
    let key = position_of_token(s, data_keyword(), from);
    let equals = position_of(s, '=', key + data_keyword().len());
    let open = position_of(s, '"', equals + 1);
    let close = closing_quote(s, open + 1);
    if key >= s.len() || equals >= s.len() || open >= s.len() || close >= s.len() {
        Err(data_failure())
    } else {
        Ok((s.subrange(open + 1, close), close + 1))
    }
}

/// The record read from `s` at `from`, with the position after it: a name,
/// then a status, then a payload, each read where the one before ended.
/// Nothing can be read at the end of the text.
pub open spec fn record_at(s: Seq<char>, from: int) -> Result<(TaskItemView, int), TaskErrorView> {
    if from >= s.len() {
        Err(TaskErrorView::NoData)
    } else {
        match name_at(s, from) {
            Err(e) => Err(e),
            Ok((name, after_name)) => match status_at(s, after_name) {
                Err(e) => Err(e),
                Ok((status, after_status)) => match data_at(s, after_status) {
                    Err(e) => Err(e),
                    Ok((data, after_data)) => Ok(
                        (TaskItemView { name, status, data }, after_data),
                    ),
                },
            },
        }
    }
}

/// A record that was read ends after the place where reading began, and
/// within the text.
pub proof fn lemma_record_advances(s: Seq<char>, from: int)
    ensures
        match record_at(s, from) {
            Ok((_, next)) => from < next <= s.len(),
            Err(_) => true,
        },
{
    lemma_words();
    lemma_position_of(s, '[', from);
    let open = position_of(s, '[', from);
    lemma_position_of(s, ']', open + 1);
    let after_name = position_of(s, ']', open + 1) + 1;
    lemma_position_of_token(s, status_keyword(), after_name);
    let key = position_of_token(s, status_keyword(), after_name);
    lemma_position_of(s, '=', key + status_keyword().len());
    let equals = position_of(s, '=', key + status_keyword().len());
    lemma_past_blanks(s, equals + 1, s.len() as int);
    let value = past_blanks(s, equals + 1, s.len() as int);
    match status_at(s, after_name) {
        Ok((_, after_status)) => {
            assert(value < after_status <= s.len());
            lemma_position_of_token(s, data_keyword(), after_status);
            let word = position_of_token(s, data_keyword(), after_status);
            lemma_position_of(s, '=', word + data_keyword().len());
            let sign = position_of(s, '=', word + data_keyword().len());
            lemma_position_of(s, '"', sign + 1);
            let quote = position_of(s, '"', sign + 1);
            lemma_closing_quote(s, quote + 1);
        },
        Err(_) => {},
    }
}

#[via_fn]
proof fn records_at_advances(s: Seq<char>, from: int) {
    lemma_record_advances(s, from);
}

/// Whether nothing but white space is left in `s` from `at` on.
pub open spec fn ends_at(s: Seq<char>, at: int) -> bool {
    past_blanks(s, at, s.len() as int) >= s.len()
}

/// The records read from `s` at `from`, one after the other, up to the one
/// after which the text ends. One record that cannot be read fails them all.
pub open spec fn records_at(s: Seq<char>, from: int) -> Result<Seq<TaskItemView>, TaskErrorView>
    decreases s.len() - from,
    via records_at_advances
{
    match record_at(s, from) {
        Err(e) => Err(e),
        Ok((item, next)) => if ends_at(s, next) {
            Ok(seq![item])
        } else {
            match records_at(s, next) {
                Err(e) => Err(e),
                Ok(rest) => Ok(seq![item] + rest),
            }
        },
    }
}

/// What a raw text holds: the records of its cleaned form. A text that is
/// empty once cleaned holds no data.
pub open spec fn document(text: Seq<char>) -> Result<Seq<TaskItemView>, TaskErrorView> {
    records_at(sanitized(text), 0)
}

/// How one record is written: three lines.
pub open spec fn record_text(item: TaskItemView) -> Seq<char> {
    "["@ + item.name + "]\nstatus = "@ + status_word(item.status) + "\ndata = \""@ + item.data
        + "\"\n"@
}

/// How a list of records is written: one record after the other.
pub open spec fn document_text(items: Seq<TaskItemView>) -> Seq<char>
    decreases items.len(),
{
    if items.len() == 0 {
        Seq::empty()
    } else {
        document_text(items.drop_last()) + record_text(items.last())
    }
}

/// Whether the backslashes and double quotes of `s` are in order from `from`
/// on: every double quote is escaped, and no escaping backslash is the last
/// character.
pub open spec fn well_escaped(s: Seq<char>, from: int) -> bool
    decreases s.len() - from,
{
    if from >= s.len() {
        true
    } else if s[from] == '"' {
        false
    } else if s[from] == '\\' {
        from + 1 < s.len() && well_escaped(s, from + 2)
    } else {
        well_escaped(s, from + 1)
    }
}

/// A name that a header gives back as it was written: clean, without `]`,
/// and with no space at either end.
pub open spec fn is_name(name: Seq<char>) -> bool {
    &&& is_clean(name)
    &&& forall|i: int| 0 <= i < name.len() ==> name[i] != ']'
    &&& name.len() > 0 ==> name[0] != ' ' && name.last() != ' '
}

/// A payload that a data line gives back as it was written: clean, and
/// with its backslashes and double quotes in order.
pub open spec fn is_payload(data: Seq<char>) -> bool {
    is_clean(data) && well_escaped(data, 0)
}

/// A record that can be written and read back unchanged.
pub open spec fn is_storable(item: TaskItemView) -> bool {
    is_name(item.name) && is_payload(item.data)
}

} // verus!
