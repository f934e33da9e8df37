use tasks_core::selection::{SelectionKey, TaskSelectionState};
use tasks_core::tasks::{TaskItem, TaskList};

fn list_of(names: &[&str]) -> TaskList {
    let mut list = TaskList::new();
    for name in names {
        list.push(TaskItem::new(name.to_string(), format!("data of {name}"), false));
    }
    list
}

fn names(list: &TaskList) -> Vec<String> {
    list.list.iter().map(|item| item.name().to_string()).collect()
}

#[test]
fn new_state_shows_the_names() {
    let state = TaskSelectionState::new(list_of(&["a", "long name", "bc"]));
    assert_eq!(state.selection, vec!["a", "long name", "bc"]);
    assert_eq!(state.border_width, 18);
    assert_eq!(state.selected, None);
    assert_eq!(state.selected_item, "");
    assert_eq!(names(&state.list), vec!["a", "long name", "bc"]);
    assert_eq!(state.buffer, "");
    assert!(!state.creating_item);
}

#[test]
fn new_state_of_no_task() {
    let state = TaskSelectionState::new(TaskList::new());
    assert!(state.selection.is_empty());
    assert_eq!(state.border_width, 9);
    assert!(state.list.is_empty());
}

#[test]
fn frame_width_counts_characters() {
    let state = TaskSelectionState::new(list_of(&["\u{e9}\u{e9}", "a"]));
    assert_eq!(state.border_width, 11);
}

#[test]
fn typing_a_new_task() {
    let mut state = TaskSelectionState::new(list_of(&["a"]));
    state.on_key(SelectionKey::Char('n'));
    assert_eq!(state.buffer, "");
    state.on_key(SelectionKey::Char('c'));
    assert!(state.creating_item);
    for ch in "new: jack".chars() {
        state.on_key(SelectionKey::Char(ch));
    }
    assert_eq!(state.buffer, "new: a");
    state.on_key(SelectionKey::Other);
    assert_eq!(state.buffer, "new: a");
    state.on_key(SelectionKey::Enter);
    assert_eq!(state.buffer, "");
    assert!(!state.creating_item);
    assert_eq!(state.selection, vec!["a", "new: a"]);
    assert_eq!(names(&state.list), vec!["a", "new: a"]);
    let added = state.list.get(1).unwrap();
    assert_eq!((added.data(), added.status()), ("", false));
}

#[test]
fn escape_forgets_what_was_typed() {
    let mut state = TaskSelectionState::new(list_of(&["a"]));
    state.on_key(SelectionKey::Char('c'));
    state.on_key(SelectionKey::Char('z'));
    state.on_key(SelectionKey::Esc);
    assert_eq!(state.buffer, "");
    assert!(!state.creating_item);
    state.on_key(SelectionKey::Enter);
    assert_eq!(state.selection, vec!["a"]);
    assert_eq!(state.list.len(), 1);
}

#[test]
fn enter_without_typing_adds_nothing() {
    let mut state = TaskSelectionState::new(list_of(&["a"]));
    state.on_key(SelectionKey::Enter);
    assert_eq!(state.selection, vec!["a"]);
    assert_eq!(state.list.len(), 1);
}

#[test]
fn delete_takes_out_the_picked_row() {
    let mut state = TaskSelectionState::new(list_of(&["a", "b", "c"]));
    state.selected = Some(1);
    state.selected_item = "shown".to_string();
    state.on_key(SelectionKey::Char('x'));
    assert_eq!(state.selection, vec!["a", "c"]);
    assert_eq!(names(&state.list), vec!["a", "c"]);
    assert_eq!(state.selected, Some(0));
    assert_eq!(state.selected_item, "a");
    state.on_key(SelectionKey::Char('x'));
    assert_eq!(state.selection, vec!["c"]);
    assert_eq!(names(&state.list), vec!["c"]);
    assert_eq!(state.selected, Some(0));
    assert_eq!(state.selected_item, "c");
    state.on_key(SelectionKey::Char('x'));
    assert!(state.selection.is_empty());
    assert!(state.list.is_empty());
    assert_eq!(state.selected, Some(0));
    assert_eq!(state.selected_item, "c");
    state.on_key(SelectionKey::Char('x'));
    assert_eq!(state.selected, Some(0));
    assert_eq!(state.selected_item, "");
}

#[test]
fn delete_without_a_picked_row_empties_what_is_shown() {
    let mut state = TaskSelectionState::new(list_of(&["a", "b"]));
    state.selected_item = "shown".to_string();
    state.on_key(SelectionKey::Char('x'));
    assert_eq!(state.selected_item, "");
    assert_eq!(state.selection, vec!["a", "b"]);
    assert_eq!(state.list.len(), 2);
}

#[test]
fn delete_of_a_row_behind_the_names() {
    let mut state = TaskSelectionState::new(list_of(&["a", "b"]));
    state.selected = Some(2);
    state.on_key(SelectionKey::Char('x'));
    assert_eq!(state.selection, vec!["a", "b"]);
    assert_eq!(state.list.len(), 2);
    assert_eq!(state.selected, Some(1));
    assert_eq!(state.selected_item, "b");
    state.selected = Some(3);
    state.selected_item = "kept".to_string();
    state.on_key(SelectionKey::Char('x'));
    assert_eq!(state.selection, vec!["a", "b"]);
    assert_eq!(state.selected, Some(3));
    assert_eq!(state.selected_item, "kept");
    state.selected = Some(4);
    state.on_key(SelectionKey::Char('x'));
    assert_eq!(state.selection, vec!["a", "b"]);
    assert_eq!(state.selected, Some(4));
    assert_eq!(state.selected_item, "kept");
}

#[test]
fn keys_j_and_k_do_nothing() {
    let mut state = TaskSelectionState::new(list_of(&["a"]));
    state.on_key(SelectionKey::Char('c'));
    state.on_key(SelectionKey::Char('j'));
    state.on_key(SelectionKey::Char('k'));
    assert_eq!(state.buffer, "");
    assert!(state.creating_item);
}

#[test]
fn press_picks_and_lets_go() {
    let mut state = TaskSelectionState::new(list_of(&["ab", "cd", "ef"]));
    assert!(state.on_mouse(1, 2));
    assert_eq!(state.selected, Some(1));
    assert_eq!(state.selected_item, "[cd]\nfalse\ndata of cd\n");
    assert!(!state.on_mouse(1, 2));
    assert_eq!(state.selected, None);
    assert_eq!(state.selected_item, "[cd]\nfalse\ndata of cd\n");
    assert!(state.on_mouse(2, 1));
    assert_eq!(state.selected, Some(0));
    assert_eq!(state.selected_item, "[ab]\nfalse\ndata of ab\n");
    assert!(state.on_mouse(0, 3));
    assert_eq!(state.selected, Some(2));
}

#[test]
fn press_right_of_the_name_is_made_known_only() {
    let mut state = TaskSelectionState::new(list_of(&["ab", "cd"]));
    assert!(state.on_mouse(3, 1));
    assert_eq!(state.selected, None);
    assert_eq!(state.selected_item, "");
}

#[test]
fn press_on_no_task_does_nothing() {
    let mut state = TaskSelectionState::new(list_of(&["ab", "cd"]));
    state.selected = Some(1);
    assert!(!state.on_mouse(0, 0));
    assert!(!state.on_mouse(0, 3));
    assert!(!state.on_mouse(0, usize::MAX));
    assert_eq!(state.selected, Some(1));
}

#[test]
fn rows_follow_the_lines_of_the_names() {
    let mut state = TaskSelectionState::new(list_of(&["two\nlines", "", "x", "y"]));
    assert!(state.on_mouse(0, 2));
    assert_eq!(state.selected, Some(2));
    assert_eq!(state.selected_item, "[x]\nfalse\ndata of x\n");
    assert!(!state.on_mouse(0, 3));
    assert_eq!(state.selected, None);
    assert!(state.on_mouse(0, 3));
    assert_eq!(state.selected, Some(2));
    assert!(!state.on_mouse(0, 2));
    assert_eq!(state.selected, None);
    assert!(state.on_mouse(0, 4));
    assert_eq!(state.selected, Some(3));
    assert!(state.on_mouse(0, 1));
    assert_eq!(state.selected, Some(0));
}

#[test]
fn press_on_a_row_behind_the_tasks() {
    let mut state = TaskSelectionState::new(list_of(&["a\nb\nc", "d"]));
    assert!(state.on_mouse(0, 2));
    assert_eq!(state.selected, None);
}
