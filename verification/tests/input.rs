use rugby_stats::input::{KeyCode, KeyEvent, TextInput};

fn key(code: KeyCode) -> KeyEvent {
    KeyEvent { code }
}

fn type_text(t: &mut TextInput, s: &str) {
    for c in s.chars() {
        let k = key(KeyCode::Char(c));
        assert!(t.accepts(&k));
        assert_eq!(t.handle_key(k), None);
    }
}

#[test]
fn new_prompt_is_closed_and_empty() {
    let t = TextInput::new();
    assert!(!t.active);
    assert!(!t.is_active());
    assert_eq!(t.buffer, "");
    assert_eq!(t.prompt, "");
}

#[test]
fn start_opens_an_empty_prompt() {
    let mut t = TextInput::new();
    t.start("Minute? ");
    type_text(&mut t, "12");
    t.start("Name: ");
    assert!(t.active);
    assert_eq!(t.prompt, "Name: ");
    assert_eq!(t.buffer, "");
}

#[test]
fn typing_then_enter_submits_the_line() {
    let mut t = TextInput::new();
    t.start("Name: ");
    type_text(&mut t, "Smith");
    assert_eq!(t.buffer, "Smith");
    assert_eq!(t.handle_key(key(KeyCode::Enter)), Some("Smith".to_string()));
    assert!(!t.active);
}

#[test]
fn escape_closes_without_submitting() {
    let mut t = TextInput::new();
    t.start("Name: ");
    type_text(&mut t, "ab");
    assert_eq!(t.handle_key(key(KeyCode::Esc)), None);
    assert!(!t.active);
    assert_eq!(t.buffer, "ab");
}

#[test]
fn closed_prompt_ignores_keys() {
    let mut t = TextInput::new();
    assert_eq!(t.handle_key(key(KeyCode::Char('x'))), None);
    assert_eq!(t.handle_key(key(KeyCode::Enter)), None);
    assert_eq!(t.buffer, "");
}

#[test]
fn editing_keys_move_and_delete() {
    let mut t = TextInput::new();
    t.start("> ");
    type_text(&mut t, "abc");
    t.handle_key(key(KeyCode::Left));
    t.handle_key(key(KeyCode::Backspace));
    assert_eq!(t.buffer, "ac");
    type_text(&mut t, "X");
    assert_eq!(t.buffer, "aXc");
    t.handle_key(key(KeyCode::Home));
    t.handle_key(key(KeyCode::Delete));
    assert_eq!(t.buffer, "Xc");
    t.handle_key(key(KeyCode::Backspace));
    assert_eq!(t.buffer, "Xc");
    t.handle_key(key(KeyCode::End));
    type_text(&mut t, "!");
    assert_eq!(t.buffer, "Xc!");
    t.handle_key(key(KeyCode::Delete));
    assert_eq!(t.buffer, "Xc!");
    t.handle_key(key(KeyCode::Other));
    assert_eq!(t.handle_key(key(KeyCode::Enter)), Some("Xc!".to_string()));
}

#[test]
fn right_does_not_move_the_cursor_forward() {
    let mut t = TextInput::new();
    t.start("> ");
    type_text(&mut t, "ab");
    t.handle_key(key(KeyCode::Home));
    t.handle_key(key(KeyCode::Right));
    type_text(&mut t, "X");
    assert_eq!(t.buffer, "Xab");
}

#[test]
fn cursor_counts_bytes() {
    let mut t = TextInput::new();
    t.start("> ");
    type_text(&mut t, "é");
    // the cursor moved one byte into a two-byte character
    assert_eq!(t.cursor_pos, 1);
    assert!(!t.accepts(&key(KeyCode::Char('x'))));
    assert!(!t.accepts(&key(KeyCode::Delete)));
    assert!(t.accepts(&key(KeyCode::Backspace)));
    t.handle_key(key(KeyCode::End));
    assert!(t.accepts(&key(KeyCode::Char('x'))));
    type_text(&mut t, "x");
    assert_eq!(t.buffer, "éx");
    t.handle_key(key(KeyCode::Home));
    assert!(t.accepts(&key(KeyCode::Delete)));
    t.handle_key(key(KeyCode::Delete));
    assert_eq!(t.buffer, "x");
}

#[test]
fn ascii_editing_never_fails() {
    let mut t = TextInput::new();
    t.start("> ");
    let keys = [
        KeyCode::Char('a'), KeyCode::Left, KeyCode::Delete, KeyCode::Backspace, KeyCode::Char('b'),
        KeyCode::Char('c'), KeyCode::Home, KeyCode::Char('d'), KeyCode::Right, KeyCode::Delete,
        KeyCode::End, KeyCode::Backspace, KeyCode::Char(' '), KeyCode::Left, KeyCode::Left,
        KeyCode::Backspace, KeyCode::Tab, KeyCode::Other,
    ];
    for k in keys.iter() {
        let e = key(*k);
        assert!(t.accepts(&e));
        t.handle_key(e);
        assert!(t.buffer.is_ascii());
    }
    assert_eq!(t.buffer, "d ");
}
