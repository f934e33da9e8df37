//! What is written is read back: the proof.

use vstd::prelude::*;
use crate::grammar::{
    data_at, data_keyword, document, document_text, ends_at, is_storable, lemma_words, name_at,
    record_at, record_text, records_at, status_at, status_keyword, status_word, well_escaped,
};
use crate::scan::{
    before_blanks, closing_quote, lemma_position_of_is, past_blanks, position_of,
    position_of_token, token_at,
};
use crate::tasks::TaskItemView;
use crate::text::{
    is_blank, is_clean, keeps, lemma_sanitized_clean, lemma_sanitized_concat,
    sanitized, sanitized_upto,
};

verus! {

/// What is left of a written record once it is cleaned: the three lines
/// without their line breaks.
pub open spec fn cleaned_record_text(item: TaskItemView) -> Seq<char> {
    "["@ + item.name + "]status = "@ + status_word(item.status) + "data = \""@ + item.data
        + "\""@
}

/// What is left of a written list once it is cleaned.
pub open spec fn cleaned_document_text(items: Seq<TaskItemView>) -> Seq<char>
    decreases items.len(),
{
    if items.len() == 0 {
        Seq::empty()
    } else {
        cleaned_document_text(items.drop_last()) + cleaned_record_text(items.last())
    }
}

/// Whether the cleaned text of `item` stands in `s` at `from`.
pub open spec fn holds_record(s: Seq<char>, from: int, item: TaskItemView) -> bool {
    let close = from + 1 + item.name.len();
    let key = close + 1;
    let value = key + 9;
    let word = value + status_word(item.status).len();
    let quote = word + 7;
    let end = quote + 1 + item.data.len();
    &&& 0 <= from
    &&& end < s.len()
    &&& s[from] == '['
    &&& s.subrange(from + 1, close) == item.name
    &&& s[close] == ']'
    &&& token_at(s, status_keyword(), key)
    &&& s[key + 6] == ' '
    &&& s[key + 7] == '='
    &&& s[key + 8] == ' '
    &&& token_at(s, status_word(item.status), value)
    &&& token_at(s, data_keyword(), word)
    &&& s[word + 4] == ' '
    &&& s[word + 5] == '='
    &&& s[word + 6] == ' '
    &&& s[quote] == '"'
    &&& s.subrange(quote + 1, end) == item.data
    &&& s[end] == '"'
}

/// The pieces of the format that are not words, letter by letter.
proof fn lemma_marks()
    ensures
        "["@ =~= seq!['['],
        "\""@ =~= seq!['"'],
        "]status = "@ =~= seq![']', 's', 't', 'a', 't', 'u', 's', ' ', '=', ' '],
        "data = \""@ =~= seq!['d', 'a', 't', 'a', ' ', '=', ' ', '"'],
        "]\nstatus = "@ =~= seq![']', '\n', 's', 't', 'a', 't', 'u', 's', ' ', '=', ' '],
        "\ndata = \""@ =~= seq!['\n', 'd', 'a', 't', 'a', ' ', '=', ' ', '"'],
        "\"\n"@ =~= seq!['"', '\n'],
{
    reveal_strlit("[");
    reveal_strlit("\"");
    reveal_strlit("]status = ");
    reveal_strlit("data = \"");
    reveal_strlit("]\nstatus = ");
    reveal_strlit("\ndata = \"");
    reveal_strlit("\"\n");
}

/// A visible character is no white space.
proof fn lemma_clean_is_not_blank(s: Seq<char>, i: int)
    requires
        0 <= i < s.len(),
        keeps(s, i),
        s[i] != ' ',
    ensures
        !is_blank(s[i]),
{
}

/// The quote that closes a payload is found behind it.
proof fn lemma_payload_closes(s: Seq<char>, start: int, data: Seq<char>, i: int)
    requires
        0 <= start,
        start + data.len() < s.len(),
        s.subrange(start, start + data.len()) == data,
        s[start + data.len()] == '"',
        0 <= i <= data.len(),
        well_escaped(data, i),
    ensures
        closing_quote(s, start + i) == start + data.len(),
    decreases data.len() - i,
{
    if i < data.len() {
        assert(s[start + i] == s.subrange(start, start + data.len())[i]);
        if data[i] == '\\' {
            lemma_payload_closes(s, start, data, i + 2);
        } else {
            lemma_payload_closes(s, start, data, i + 1);
        }
    }
}

/// A storable record whose cleaned text stands in `s` at `from` is read
/// there as it was written, up to the end of that text.
pub proof fn lemma_record_read_back(s: Seq<char>, from: int, item: TaskItemView)
    requires
        holds_record(s, from, item),
        is_storable(item),
    ensures
        record_at(s, from) == Ok::<(TaskItemView, int), crate::tasks::TaskErrorView>(
            (item, from + cleaned_record_text(item).len()),
        ),
        cleaned_record_text(item).len() == item.name.len() + status_word(item.status).len()
            + item.data.len() + 20,
{
    lemma_words();
    lemma_marks();
    let close = from + 1 + item.name.len();
    let key = close + 1;
    let value = key + 9;
    let word = value + status_word(item.status).len();
    let quote = word + 7;
    let end = quote + 1 + item.data.len();
    lemma_name_read_back(s, from, item);
    lemma_status_read_back(s, from, item);
    assert(position_of_token(s, data_keyword(), word) == word);
    lemma_position_of_is(s, '=', word + 4, word + 5);
    lemma_position_of_is(s, '"', word + 6, word + 7);
    lemma_payload_closes(s, quote + 1, item.data, 0);
    assert(data_at(s, word) == Ok::<(Seq<char>, int), crate::tasks::TaskErrorView>(
        (item.data, end + 1),
    ));
}

proof fn lemma_name_read_back(s: Seq<char>, from: int, item: TaskItemView)
    requires
        holds_record(s, from, item),
        is_storable(item),
    ensures
        name_at(s, from) == Ok::<(Seq<char>, int), crate::tasks::TaskErrorView>(
            (item.name, from + item.name.len() + 2),
        ),
{
    let name = item.name;
    let close = from + 1 + name.len();
    assert forall|j: int| from + 1 <= j < close implies s[j] != ']' by {
        assert(s[j] == s.subrange(from + 1, close)[j - (from + 1)]);
    }
    lemma_position_of_is(s, ']', from + 1, close);
    assert(position_of(s, '[', from) == from);
    if name.len() > 0 {
        assert(s[from + 1] == s.subrange(from + 1, close)[0]);
        assert(s[close - 1] == s.subrange(from + 1, close)[name.len() - 1]);
        lemma_clean_is_not_blank(name, 0);
        lemma_clean_is_not_blank(name, name.len() - 1);
    }
    assert(past_blanks(s, from + 1, close) == from + 1);
    assert(before_blanks(s, from + 1, close) == close);
}

proof fn lemma_status_read_back(s: Seq<char>, from: int, item: TaskItemView)
    requires
        holds_record(s, from, item),
    ensures
        status_at(s, from + item.name.len() + 2) == Ok::<(bool, int), crate::tasks::TaskErrorView>(
            (item.status, from + item.name.len() + 11 + status_word(item.status).len()),
        ),
{
    lemma_words();
    let key = from + item.name.len() + 2;
    let value = key + 9;
    assert(position_of_token(s, status_keyword(), key) == key);
    lemma_position_of_is(s, '=', key + 6, key + 7);
    let written = status_word(item.status);
    assert(s[value] == s.subrange(value, value + written.len())[0]);
    assert(!is_blank(s[value]));
    assert(is_blank(s[key + 8]));
    assert(past_blanks(s, value, s.len() as int) == value);
    assert(past_blanks(s, key + 8, s.len() as int) == value);
    if !item.status {
        let yes = status_word(true);
        if token_at(s, yes, value) {
            assert(s[value] == s.subrange(value, value + yes.len())[0]);
        }
    }
}

/// Where the cleaned text of a record stands, its parts stand in order.
proof fn lemma_layout(s: Seq<char>, from: int, item: TaskItemView)
    requires
        0 <= from,
        from + cleaned_record_text(item).len() <= s.len(),
        s.subrange(from, from + cleaned_record_text(item).len()) == cleaned_record_text(item),
    ensures
        holds_record(s, from, item),
{
    lemma_words();
    lemma_marks();
    let text = cleaned_record_text(item);
    let written = status_word(item.status);
    let close = from + 1 + item.name.len();
    let key = close + 1;
    let value = key + 9;
    let word = value + written.len();
    let quote = word + 7;
    let end = quote + 1 + item.data.len();
    assert forall|k: int| 0 <= k < text.len() implies #[trigger] s[from + k] == text[k] by {
        assert(s.subrange(from, from + text.len())[k] == s[from + k]);
    }
    assert(s[from] == s[from + 0]);
    assert(s.subrange(from + 1, close) =~= item.name) by {
        assert forall|k: int| 0 <= k < item.name.len() implies s.subrange(from + 1, close)[k]
            == item.name[k] by {
            assert(s[from + (1 + k)] == text[1 + k]);
        }
    }
    assert(s[close] == s[from + (close - from)]);
    assert(s.subrange(key, key + 6) =~= status_keyword()) by {
        assert forall|k: int| 0 <= k < 6 implies s.subrange(key, key + 6)[k] == status_keyword()[k] by {
            assert(s[from + (key - from + k)] == text[key - from + k]);
        }
    }
    assert(s[key + 6] == s[from + (key + 6 - from)]);
    assert(s[key + 7] == s[from + (key + 7 - from)]);
    assert(s[key + 8] == s[from + (key + 8 - from)]);
    assert(s.subrange(value, word) =~= written) by {
        assert forall|k: int| 0 <= k < written.len() implies s.subrange(value, word)[k]
            == written[k] by {
            assert(s[from + (value - from + k)] == text[value - from + k]);
        }
    }
    assert(s.subrange(word, word + 4) =~= data_keyword()) by {
        assert forall|k: int| 0 <= k < 4 implies s.subrange(word, word + 4)[k] == data_keyword()[k] by {
            assert(s[from + (word - from + k)] == text[word - from + k]);
        }
    }
    assert(s[word + 4] == s[from + (word + 4 - from)]);
    assert(s[word + 5] == s[from + (word + 5 - from)]);
    assert(s[word + 6] == s[from + (word + 6 - from)]);
    assert(s[quote] == s[from + (quote - from)]);
    assert(s.subrange(quote + 1, end) =~= item.data) by {
        assert forall|k: int| 0 <= k < item.data.len() implies s.subrange(quote + 1, end)[k]
            == item.data[k] by {
            assert(s[from + (quote + 1 - from + k)] == text[quote + 1 - from + k]);
        }
    }
    assert(s[end] == s[from + (end - from)]);
}

/// The cleaned text of a list begins with that of its first record.
proof fn lemma_cleaned_document_text_first(items: Seq<TaskItemView>)
    requires
        items.len() > 0,
    ensures
        cleaned_document_text(items) == cleaned_record_text(items[0]) + cleaned_document_text(
            items.skip(1),
        ),
    decreases items.len(),
{
    let init = items.drop_last();
    if init.len() == 0 {
        assert(items.skip(1) =~= Seq::<TaskItemView>::empty());
        assert(cleaned_document_text(init) + cleaned_record_text(items.last())
            =~= cleaned_record_text(items[0]) + cleaned_document_text(items.skip(1)));
    } else {
        lemma_cleaned_document_text_first(init);
        assert(init.skip(1) =~= items.skip(1).drop_last());
        assert(items.skip(1).last() == items.last());
        assert((cleaned_record_text(items[0]) + cleaned_document_text(init.skip(1)))
            + cleaned_record_text(items.last()) =~= cleaned_record_text(items[0]) + (
        cleaned_document_text(init.skip(1)) + cleaned_record_text(items.last())));
    }
}

/// Storable records whose cleaned text fills `s` from `from` to its end
/// are read there as they were written.
proof fn lemma_records_read_back(s: Seq<char>, from: int, items: Seq<TaskItemView>)
    requires
        0 <= from <= s.len(),
        items.len() > 0,
        forall|i: int| 0 <= i < items.len() ==> is_storable(#[trigger] items[i]),
        s.subrange(from, s.len() as int) == cleaned_document_text(items),
    ensures
        records_at(s, from) == Ok::<Seq<TaskItemView>, crate::tasks::TaskErrorView>(items),
    decreases items.len(),
{
    lemma_marks();
    let first = items[0];
    let rest = items.skip(1);
    let head = cleaned_record_text(first);
    let tail = cleaned_document_text(rest);
    let next = from + head.len();
    lemma_cleaned_document_text_first(items);
    assert(s.subrange(from, s.len() as int).len() == s.len() - from);
    assert((head + tail).len() == head.len() + tail.len());
    assert(s.len() - from == head.len() + tail.len());
    assert(s.subrange(from, next) =~= head) by {
        assert forall|k: int| 0 <= k < head.len() implies s.subrange(from, next)[k] == head[k] by {
            assert(s.subrange(from, s.len() as int)[k] == (head + tail)[k]);
        }
    }
    lemma_layout(s, from, first);
    lemma_record_read_back(s, from, first);
    if rest.len() == 0 {
        assert(next == s.len());
        assert(ends_at(s, next));
        assert(seq![first] =~= items);
    } else {
        lemma_cleaned_document_text_first(rest);
        assert(s[next] == s.subrange(from, s.len() as int)[head.len() as int]);
        assert(s[next] == '[');
        assert(!ends_at(s, next));
        assert(s.subrange(next, s.len() as int) =~= tail) by {
            assert forall|k: int| 0 <= k < tail.len() implies s.subrange(next, s.len() as int)[k]
                == tail[k] by {
                assert(s.subrange(from, s.len() as int)[head.len() + k] == (head + tail)[head.len()
                    + k]);
            }
        }
        assert forall|i: int| 0 <= i < rest.len() implies is_storable(#[trigger] rest[i]) by {
            assert(rest[i] == items[i + 1]);
        }
        lemma_records_read_back(s, next, rest);
        assert(seq![first] + rest =~= items);
    }
}

/// Two clean texts make a clean text, unless a space at the end of the
/// first meets a space at the head of the second.
proof fn lemma_clean_concat(a: Seq<char>, b: Seq<char>)
    requires
        is_clean(a),
        is_clean(b),
        a.len() == 0 || b.len() == 0 || a.last() != ' ' || b[0] != ' ',
    ensures
        is_clean(a + b),
{
    assert forall|i: int| 0 <= i < (a + b).len() implies keeps(a + b, i) by {
        if i < a.len() {
            assert(keeps(a, i));
            if i > 0 {
                assert((a + b)[i - 1] == a[i - 1]);
            }
        } else {
            assert(keeps(b, i - a.len()));
            assert((a + b)[i] == b[i - a.len()]);
            if i > a.len() {
                assert((a + b)[i - 1] == b[i - 1 - a.len()]);
            } else if a.len() > 0 {
                assert((a + b)[i - 1] == a.last());
            }
        }
    }
}

/// Cleaning a text and then a line break after it gives the cleaned text.
proof fn lemma_sanitized_line(a: Seq<char>)
    ensures
        sanitized(a + seq!['\n']) == sanitized(a),
{
    let line_break = seq!['\n'];
    lemma_sanitized_concat(a, line_break);
    assert(!keeps(line_break, 0));
    assert(sanitized_upto(line_break, 0) =~= Seq::<char>::empty());
    assert(sanitized(line_break) =~= Seq::<char>::empty());
    assert(sanitized(a) + Seq::<char>::empty() =~= sanitized(a));
}

/// Cleaning the text of a storable record takes out its line breaks and
/// nothing else.
proof fn lemma_record_text_cleaned(item: TaskItemView)
    requires
        is_storable(item),
    ensures
        sanitized(record_text(item)) == cleaned_record_text(item),
        record_text(item).len() > 0,
        record_text(item)[0] == '[',
{
    lemma_words();
    lemma_marks();
    let written = status_word(item.status);
    let header = seq!['['] + item.name + seq![']'];
    let status = seq!['s', 't', 'a', 't', 'u', 's', ' ', '=', ' '] + written;
    let data = seq!['d', 'a', 't', 'a', ' ', '=', ' ', '"'] + item.data + seq!['"'];
    let line_break = seq!['\n'];
    assert(is_clean(header)) by {
        let open = seq!['['];
        let close = seq![']'];
        assert(is_clean(open));
        assert(is_clean(close));
        lemma_clean_concat(open, item.name);
        lemma_clean_concat(open + item.name, close);
    }
    assert(is_clean(status)) by {
        let key = seq!['s', 't', 'a', 't', 'u', 's', ' ', '=', ' '];
        assert(is_clean(key)) by {
            assert forall|i: int| 0 <= i < key.len() implies keeps(key, i) by {
                lemma_nine(i);
            }
        }
        assert(is_clean(written)) by {
            assert forall|i: int| 0 <= i < written.len() implies keeps(written, i) by {
                lemma_nine(i);
            }
        }
        lemma_clean_concat(key, written);
    }
    assert(is_clean(data)) by {
        let key = seq!['d', 'a', 't', 'a', ' ', '=', ' ', '"'];
        let close = seq!['"'];
        assert(is_clean(key)) by {
            assert forall|i: int| 0 <= i < key.len() implies keeps(key, i) by {
                lemma_nine(i);
            }
        }
        assert(is_clean(close));
        lemma_clean_concat(key, item.data);
        lemma_clean_concat(key + item.data, close);
    }
    let first = header + line_break;
    let second = first + status + line_break;
    let third = second + data + line_break;
    assert(record_text(item) =~= third);
    lemma_sanitized_line(header);
    lemma_sanitized_concat(first, status);
    lemma_sanitized_line(first + status);
    lemma_sanitized_concat(second, data);
    lemma_sanitized_line(second + data);
    lemma_sanitized_clean(header);
    lemma_sanitized_clean(status);
    lemma_sanitized_clean(data);
    assert(header + status + data =~= cleaned_record_text(item));
}

/// A position among the first nine is one of them.
proof fn lemma_nine(i: int)
    requires
        0 <= i < 9,
    ensures
        i == 0 || i == 1 || i == 2 || i == 3 || i == 4 || i == 5 || i == 6 || i == 7 || i == 8,
{
}

/// Cleaning the text of storable records takes out its line breaks and
/// nothing else.
proof fn lemma_document_text_cleaned(items: Seq<TaskItemView>)
    requires
        forall|i: int| 0 <= i < items.len() ==> is_storable(#[trigger] items[i]),
    ensures
        sanitized(document_text(items)) == cleaned_document_text(items),
    decreases items.len(),
{
    if items.len() == 0 {
        assert(sanitized(Seq::<char>::empty()) =~= Seq::<char>::empty());
    } else {
        let init = items.drop_last();
        assert forall|i: int| 0 <= i < init.len() implies is_storable(#[trigger] init[i]) by {
            assert(init[i] == items[i]);
        }
        lemma_document_text_cleaned(init);
        lemma_record_text_cleaned(items.last());
        lemma_sanitized_concat(document_text(init), record_text(items.last()));
    }
}

/// Writing a list and reading the text back gives the list again.
///
/// This holds of every list with at least one record in which each record
/// is storable: its name is clean, holds no `]` and neither begins nor ends
/// with a space, and its payload is clean with every double quote escaped.
/// The text of the empty list is empty, and the empty text holds no data.
pub proof fn lemma_round_trip(items: Seq<TaskItemView>)
    requires
        items.len() > 0,
        forall|i: int| 0 <= i < items.len() ==> is_storable(#[trigger] items[i]),
    ensures
        document(document_text(items)) == Ok::<Seq<TaskItemView>, crate::tasks::TaskErrorView>(
            items,
        ),
{
    lemma_document_text_cleaned(items);
    let cleaned = cleaned_document_text(items);
    assert(cleaned.subrange(0, cleaned.len() as int) =~= cleaned);
    lemma_records_read_back(cleaned, 0, items);
}

/// A backslash and an `n` after it in the payload of a storable record are
/// read back as these two characters, and what is read back holds no line
/// break.
pub proof fn lemma_escaped_break_stays(items: Seq<TaskItemView>, k: int, i: int)
    requires
        items.len() > 0,
        forall|j: int| 0 <= j < items.len() ==> is_storable(#[trigger] items[j]),
        0 <= k < items.len(),
        0 <= i,
        i + 1 < items[k].data.len(),
        items[k].data[i] == '\\',
        items[k].data[i + 1] == 'n',
    ensures
        document(document_text(items)) is Ok,
        document(document_text(items))->Ok_0[k].data.len() == items[k].data.len(),
        document(document_text(items))->Ok_0[k].data[i] == '\\',
        document(document_text(items))->Ok_0[k].data[i + 1] == 'n',
        forall|j: int|
            0 <= j < items[k].data.len() ==> document(document_text(items))->Ok_0[k].data[j]
                != '\n',
{
    lemma_round_trip(items);
    assert(is_storable(items[k]));
    assert forall|j: int| 0 <= j < items[k].data.len() implies items[k].data[j] != '\n' by {
        assert(keeps(items[k].data, j));
    }
}

/// The empty text holds no data, and the empty list is written as the
/// empty text.
pub proof fn lemma_empty_text_holds_no_data()
    ensures
        document(Seq::empty()) == Err::<Seq<TaskItemView>, crate::tasks::TaskErrorView>(
            crate::tasks::TaskErrorView::NoData,
        ),
        document_text(Seq::empty()) == Seq::<char>::empty(),
{
    assert(sanitized(Seq::<char>::empty()) =~= Seq::<char>::empty());
}

} // verus!
