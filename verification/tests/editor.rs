use tasks_core::editor::{show_data, Direction, EditingState, EditorKey, TaskEditorState};
use tasks_core::tasks::{TaskError, TaskItem};

fn editing(field: EditingState, name: &str, data: &str, idx: usize) -> TaskEditorState {
    TaskEditorState {
        is_selected: true,
        name: name.to_string(),
        status: false,
        data: data.to_string(),
        idx,
        selected: Some(field),
    }
}

fn snapshot(e: &TaskEditorState) -> (bool, String, bool, String, usize, Option<EditingState>) {
    (e.is_selected, e.name.clone(), e.status, e.data.clone(), e.idx, e.selected)
}

#[test]
fn new_editor_is_blank() {
    let e = TaskEditorState::new(String::new());
    assert_eq!(snapshot(&e), (false, String::new(), false, String::new(), 0, None));
    let e = TaskEditorState::new("abc".to_string());
    assert_eq!(snapshot(&e), (false, String::new(), false, String::new(), 3, None));
    let e = TaskEditorState::default();
    assert_eq!(snapshot(&e), (false, String::new(), false, String::new(), 0, None));
}

#[test]
fn push_puts_the_character_in() {
    let mut e = editing(EditingState::Name, "ac", "xy", 1);
    e.push(1, 'b');
    assert_eq!((e.name.as_str(), e.data.as_str(), e.idx), ("abc", "xy", 2));
    e.push(3, 'd');
    assert_eq!((e.name.as_str(), e.idx), ("abcd", 3));
    e.push(0, '_');
    assert_eq!((e.name.as_str(), e.idx), ("_abcd", 4));
    let mut e = editing(EditingState::Data, "ac", "xy", 2);
    e.push(2, 'z');
    assert_eq!((e.name.as_str(), e.data.as_str(), e.idx), ("ac", "xyz", 3));
}

#[test]
fn push_behind_the_end_changes_nothing() {
    let mut e = editing(EditingState::Name, "ab", "", 2);
    e.push(3, 'c');
    assert_eq!((e.name.as_str(), e.idx), ("ab", 2));
}

#[test]
fn push_counts_characters_not_bytes() {
    let mut e = editing(EditingState::Name, "\u{e9}t", "", 1);
    e.push(1, '-');
    assert_eq!((e.name.as_str(), e.idx), ("\u{e9}-t", 2));
}

#[test]
fn push_outside_a_text_changes_nothing() {
    let mut e = editing(EditingState::Status, "ab", "cd", 4);
    e.push(0, 'x');
    assert_eq!(snapshot(&e), snapshot(&editing(EditingState::Status, "ab", "cd", 4)));
    let mut e = TaskEditorState::new(String::new());
    e.push(0, 'x');
    assert_eq!(snapshot(&e), snapshot(&TaskEditorState::new(String::new())));
}

#[test]
fn push_with_the_cursor_at_its_limit_changes_nothing() {
    let mut e = editing(EditingState::Name, "ab", "", usize::MAX);
    e.push(1, 'x');
    assert_eq!((e.name.as_str(), e.idx), ("ab", usize::MAX));
}

#[test]
fn remove_takes_the_character_out() {
    let mut e = editing(EditingState::Name, "abc", "xyz", 2);
    e.remove(1);
    assert_eq!((e.name.as_str(), e.data.as_str(), e.idx), ("ac", "xyz", 1));
    let mut e = editing(EditingState::Data, "abc", "xyz", 3);
    e.remove(2);
    assert_eq!((e.name.as_str(), e.data.as_str(), e.idx), ("abc", "xy", 2));
}

#[test]
fn remove_changes_nothing_where_it_cannot() {
    let mut e = editing(EditingState::Name, "abc", "", 0);
    e.remove(1);
    assert_eq!((e.name.as_str(), e.idx), ("abc", 0));
    let mut e = editing(EditingState::Name, "abc", "", 3);
    e.remove(3);
    assert_eq!((e.name.as_str(), e.idx), ("abc", 3));
    let mut e = editing(EditingState::Status, "abc", "xyz", 3);
    e.remove(1);
    assert_eq!((e.name.as_str(), e.data.as_str(), e.idx), ("abc", "xyz", 3));
    let mut e = TaskEditorState::new("abc".to_string());
    e.remove(0);
    assert_eq!(e.idx, 3);
}

#[test]
fn cursor_moves_left_down_to_the_head() {
    let mut e = editing(EditingState::Name, "abc", "", 2);
    e.move_direction(Direction::Left);
    assert_eq!(e.idx, 1);
    e.move_direction(Direction::Left);
    assert_eq!(e.idx, 0);
    e.move_direction(Direction::Left);
    assert_eq!(e.idx, 0);
}

#[test]
fn cursor_moves_right_up_to_the_last_character() {
    let mut e = editing(EditingState::Data, "", "abc", 0);
    e.move_direction(Direction::Right);
    assert_eq!(e.idx, 1);
    e.move_direction(Direction::Right);
    assert_eq!(e.idx, 2);
    e.move_direction(Direction::Right);
    assert_eq!(e.idx, 2);
    let mut e = editing(EditingState::Name, "", "abc", 0);
    e.move_direction(Direction::Right);
    assert_eq!(e.idx, 0);
}

#[test]
fn cursor_does_not_move_outside_a_text() {
    let mut e = editing(EditingState::Status, "abc", "abc", 1);
    e.move_direction(Direction::Left);
    assert_eq!(e.idx, 1);
    e.move_direction(Direction::Right);
    assert_eq!(e.idx, 1);
    let mut e = TaskEditorState::new("ab".to_string());
    e.move_direction(Direction::Left);
    assert_eq!(e.idx, 2);
}

#[test]
fn mouse_picks_the_field_by_its_row() {
    let mut e = editing(EditingState::Data, "name", "some data", 0);
    e.on_mouse(20, 2, false);
    assert_eq!((e.selected, e.idx), (Some(EditingState::Name), 4));
    e.on_mouse(20, 6, false);
    assert_eq!((e.selected, e.idx), (Some(EditingState::Status), 5));
    e.status = true;
    e.on_mouse(20, 5, false);
    assert_eq!((e.selected, e.idx), (Some(EditingState::Status), 4));
    e.on_mouse(20, 9, false);
    assert_eq!((e.selected, e.idx), (Some(EditingState::Data), 9));
    e.on_mouse(20, 3, false);
    assert_eq!((e.selected, e.idx), (Some(EditingState::Name), 4));
    e.on_mouse(20, 8, false);
    assert_eq!((e.selected, e.idx), (Some(EditingState::Data), 9));
}

#[test]
fn mouse_between_the_fields_changes_nothing() {
    for y in [0, 1, 4, 7, 10, 11, 500] {
        let mut e = editing(EditingState::Name, "name", "data", 1);
        e.on_mouse(20, y, true);
        assert_eq!((e.selected, e.idx), (Some(EditingState::Name), 1), "row {y}");
    }
}

#[test]
fn mouse_left_of_the_fields_needs_the_button() {
    let mut e = editing(EditingState::Name, "name", "data", 1);
    e.on_mouse(11, 8, false);
    assert_eq!((e.selected, e.idx), (Some(EditingState::Name), 1));
    e.on_mouse(11, 8, true);
    assert_eq!((e.selected, e.idx), (Some(EditingState::Data), 4));
    e.on_mouse(12, 2, false);
    assert_eq!((e.selected, e.idx), (Some(EditingState::Name), 4));
}

#[test]
fn keys_edit_the_text() {
    let mut e = editing(EditingState::Name, "ab", "", 2);
    assert!(!e.on_key(EditorKey::Char('c')));
    assert_eq!((e.name.as_str(), e.idx), ("abc", 3));
    assert!(!e.on_key(EditorKey::Char('t')));
    assert_eq!((e.name.as_str(), e.idx), ("abct", 4));
    assert!(!e.on_key(EditorKey::Backspace));
    assert_eq!((e.name.as_str(), e.idx), ("abc", 3));
    assert!(!e.on_key(EditorKey::Left));
    assert_eq!(e.idx, 2);
    assert!(!e.on_key(EditorKey::Backspace));
    assert_eq!((e.name.as_str(), e.idx), ("ac", 1));
    assert!(!e.on_key(EditorKey::Right));
    assert_eq!(e.idx, 1);
    assert!(!e.on_key(EditorKey::Other));
    assert_eq!((e.name.as_str(), e.idx), ("ac", 1));
    assert!(!e.on_key(EditorKey::Left));
    assert!(!e.on_key(EditorKey::Backspace));
    assert_eq!((e.name.as_str(), e.idx), ("ac", 0));
}

#[test]
fn key_t_on_the_status_asks_for_the_switch() {
    let mut e = editing(EditingState::Status, "ab", "cd", 5);
    assert!(e.on_key(EditorKey::Char('t')));
    assert!(!e.on_key(EditorKey::Char('x')));
    assert!(!e.on_key(EditorKey::Backspace));
    assert!(!e.on_key(EditorKey::Left));
    assert_eq!(snapshot(&e), snapshot(&editing(EditingState::Status, "ab", "cd", 5)));
}

#[test]
fn keys_without_a_field_do_nothing() {
    let mut e = TaskEditorState::new(String::new());
    assert!(!e.on_key(EditorKey::Char('t')));
    assert!(!e.on_key(EditorKey::Char('a')));
    assert_eq!(snapshot(&e), snapshot(&TaskEditorState::new(String::new())));
}

#[test]
fn parse_reads_a_task_line_by_line() {
    let mut e = TaskEditorState::default();
    let read = e.parse("[a task]\ntrue\nsome text\n".to_string()).unwrap();
    assert_eq!(
        snapshot(&read),
        (false, "[a task]".to_string(), true, "some text".to_string(), 0, None)
    );
    let read = e.parse("  name \r\nfalse\r\n one \n\n two\t\nthree".to_string()).unwrap();
    assert_eq!(
        snapshot(&read),
        (false, "name".to_string(), false, "onetwothree".to_string(), 0, None)
    );
    assert_eq!(snapshot(&e), snapshot(&TaskEditorState::default()));
}

#[test]
fn parse_reads_what_a_task_shows() {
    let task = TaskItem::new("n".to_string(), "d".to_string(), true);
    let read = TaskEditorState::default().parse(task.to_string()).unwrap();
    assert_eq!((read.name.as_str(), read.status, read.data.as_str()), ("[n]", true, "d"));
}

#[test]
fn parse_of_short_texts() {
    let mut e = TaskEditorState::default();
    let read = e.parse(String::new()).unwrap();
    assert_eq!(snapshot(&read), snapshot(&TaskEditorState::default()));
    let read = e.parse("only a name".to_string()).unwrap();
    assert_eq!((read.name.as_str(), read.status, read.data.as_str()), ("only a name", false, ""));
    let read = e.parse("\n".to_string()).unwrap();
    assert_eq!((read.name.as_str(), read.status, read.data.as_str()), ("", false, ""));
    let read = e.parse("name\ntrue".to_string()).unwrap();
    assert_eq!((read.name.as_str(), read.status, read.data.as_str()), ("name", true, ""));
}

#[test]
fn parse_trims_unicode_white_space() {
    let read = TaskEditorState::default()
        .parse("\u{a0}\u{2003}name\u{3000}\ntrue\n\u{b}data\u{c}".to_string())
        .unwrap();
    assert_eq!((read.name.as_str(), read.data.as_str()), ("name", "data"));
}

#[test]
fn parse_refuses_another_status() {
    let mut e = TaskEditorState::default();
    for text in ["name\nmaybe\n", "name\n true\n", "name\ntrue \n", "name\n\n", "name\nTrue", "name\ntrue\r"] {
        assert_eq!(
            e.parse(text.to_string()).unwrap_err(),
            TaskError::ParseError("Incorrect status".to_string()),
            "{text:?}"
        );
    }
}

#[test]
fn show_data_turns_escapes_into_breaks() {
    assert_eq!(show_data(""), "");
    assert_eq!(show_data("banana"), "banana");
    assert_eq!(show_data("one\\ntwo"), "one \ntwo");
    assert_eq!(show_data("n\\n"), "n \n");
    assert_eq!(show_data("a\\\\b"), "a  b");
    assert_eq!(show_data("no\\nnuns"), "no \n\nu\ns");
    assert_eq!(show_data("a\\tb and n"), "a tb a\nd \n");
}

#[test]
fn receive_shows_the_task() {
    let mut e = editing(EditingState::Data, "old", "old data", 3);
    e.is_selected = false;
    e.receive("[new]\ntrue\nline one\\nline two\n".to_string());
    assert_eq!(
        snapshot(&e),
        (
            true,
            "[new]".to_string(),
            true,
            "line one \nli\ne two".to_string(),
            3,
            Some(EditingState::Data)
        )
    );
}

#[test]
fn receive_of_a_bad_message_changes_nothing() {
    let mut e = editing(EditingState::Name, "old", "old data", 1);
    e.is_selected = false;
    e.receive("[new]\nperhaps\ndata\n".to_string());
    assert_eq!(
        snapshot(&e),
        (false, "old".to_string(), false, "old data".to_string(), 1, Some(EditingState::Name))
    );
}

#[test]
fn parse_marked_cuts_what_is_marked() {
    let chars: Vec<char> = "_name_\ntrue\n_a_b_\n__\nc".chars().collect();
    let white: Vec<bool> = chars.iter().map(|c| *c == '_').collect();
    let read = TaskEditorState::parse_marked(&chars, &white).unwrap();
    assert_eq!(
        snapshot(&read),
        (false, "name".to_string(), true, "a_bc".to_string(), 0, None)
    );
    let read = TaskEditorState::parse_marked(&chars, &[]).unwrap();
    assert_eq!(
        snapshot(&read),
        (false, "_name_".to_string(), true, "_a_b___c".to_string(), 0, None)
    );
    let chars: Vec<char> = "name\n_true".chars().collect();
    let white: Vec<bool> = chars.iter().map(|c| *c == '_').collect();
    assert_eq!(
        TaskEditorState::parse_marked(&chars, &white).unwrap_err(),
        TaskError::ParseError("Incorrect status".to_string())
    );
}

#[test]
fn show_takes_over_the_task() {
    let mut e = editing(EditingState::Name, "old", "old data", 2);
    e.is_selected = false;
    let mut task = TaskEditorState::new("ignored".to_string());
    task.name = "[new]".to_string();
    task.status = true;
    task.data = "a\\nb".to_string();
    task.selected = Some(EditingState::Data);
    e.show(task);
    assert_eq!(
        snapshot(&e),
        (true, "[new]".to_string(), true, "a \nb".to_string(), 2, Some(EditingState::Name))
    );
}
