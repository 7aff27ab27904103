//! Text input editing tests.

use j9s::input::{EditKey, InputResult, KeyInput, TextInput};

fn key(code: EditKey) -> KeyInput {
    KeyInput::plain(code)
}

fn ctrl_key(code: EditKey) -> KeyInput {
    KeyInput::control(code)
}

#[test]
fn test_basic_input() {
    let mut input = TextInput::new();
    assert!(input.is_empty());

    input.handle_key(key(EditKey::Char('h')));
    input.handle_key(key(EditKey::Char('i')));
    assert_eq!(input.value(), "hi");
}

#[test]
fn test_submit() {
    let mut input = TextInput::new();
    input.handle_key(key(EditKey::Char('t')));
    input.handle_key(key(EditKey::Char('e')));
    input.handle_key(key(EditKey::Char('s')));
    input.handle_key(key(EditKey::Char('t')));

    let result = input.handle_key(key(EditKey::Enter));
    assert_eq!(result, InputResult::Submitted("test".to_string()));
}

#[test]
fn test_cancel() {
    let mut input = TextInput::new();
    input.handle_key(key(EditKey::Char('x')));

    let result = input.handle_key(key(EditKey::Escape));
    assert_eq!(result, InputResult::Cancelled);
}

#[test]
fn test_backspace() {
    let mut input = TextInput::new();
    input.handle_key(key(EditKey::Char('a')));
    input.handle_key(key(EditKey::Char('b')));
    input.handle_key(key(EditKey::Char('c')));
    input.handle_key(key(EditKey::Backspace));
    assert_eq!(input.value(), "ab");
}

#[test]
fn test_cursor_movement() {
    let mut input = TextInput::new();
    input.handle_key(key(EditKey::Char('a')));
    input.handle_key(key(EditKey::Char('c')));
    input.handle_key(key(EditKey::Left));
    input.handle_key(key(EditKey::Char('b')));
    assert_eq!(input.value(), "abc");
}

#[test]
fn test_ctrl_u_clear_before_cursor() {
    let mut input = TextInput::new();
    for c in "hello world".chars() {
        input.handle_key(key(EditKey::Char(c)));
    }
    input.handle_key(key(EditKey::Left));
    input.handle_key(key(EditKey::Left));
    input.handle_key(key(EditKey::Left));
    input.handle_key(key(EditKey::Left));
    input.handle_key(key(EditKey::Left));
    input.handle_key(ctrl_key(EditKey::Char('u')));
    assert_eq!(input.value(), "world");
}

#[test]
fn test_ctrl_w_deletes_word() {
    let mut input = TextInput::new();
    for c in "hello world".chars() {
        input.handle_key(key(EditKey::Char(c)));
    }
    input.handle_key(ctrl_key(EditKey::Char('w')));
    assert_eq!(input.value(), "hello ");
}

#[test]
fn test_ctrl_w_trims_any_whitespace() {
    let mut input = TextInput::new();
    for c in "a b\tc ".chars() {
        input.handle_key(key(EditKey::Char(c)));
    }
    // Trailing whitespace (the space) is skipped, the word scan stops at
    // the previous space; the tab is part of the deleted word.
    input.handle_key(ctrl_key(EditKey::Char('w')));
    assert_eq!(input.value(), "a ");
}

#[test]
fn test_delete_at_cursor() {
    let mut input = TextInput::new();
    for c in "abc".chars() {
        input.handle_key(key(EditKey::Char(c)));
    }
    input.handle_key(ctrl_key(EditKey::Char('a')));
    input.handle_key(key(EditKey::Delete));
    assert_eq!(input.value(), "bc");
    assert_eq!(input.cursor_position(), 0);
}
