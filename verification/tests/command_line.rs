use qbar::command::{
    clear_output, help_line, help_lines, help_pieces, history_output, history_text, missing_text, not_found_text, usage, CommandLine,
    Emphasis,
    CommandLineSignal, KeyCode, KeyEvent, KeyModifiers,
};

fn key(code: KeyCode) -> KeyEvent {
    KeyEvent { code, modifiers: KeyModifiers::empty() }
}

fn ctrl(c: char) -> KeyEvent {
    KeyEvent { code: KeyCode::Char(c), modifiers: KeyModifiers::control() }
}

fn type_str(cl: &mut CommandLine, s: &str) {
    for c in s.chars() {
        cl.insert(c);
    }
}

#[test]
fn new_command_line_is_empty() {
    let cl = CommandLine::new();
    assert_eq!(cl.prompt, "q❯ ");
    assert_eq!(cl.current(), "");
    assert_eq!(cl.cursor_column(), 3);
}

#[test]
fn with_prompt_keeps_prompt() {
    let cl = CommandLine::with_prompt("> ");
    assert_eq!(cl.prompt, "> ");
    assert_eq!(cl.current(), "");
}

#[test]
fn insert_and_remove() {
    let mut cl = CommandLine::with_prompt("> ");
    type_str(&mut cl, "helo");
    assert_eq!(cl.current(), "helo");
    cl.action_left();
    cl.insert('l');
    assert_eq!(cl.current(), "hello");
    assert_eq!(cl.cursor_column(), 2 + 4);
    assert_eq!(cl.remove(), Some('l'));
    assert_eq!(cl.current(), "helo");
    cl.action_control_a();
    assert_eq!(cl.remove(), None);
    assert_eq!(cl.current(), "helo");
    cl.action_control_e();
    assert_eq!(cl.remove(), Some('o'));
    assert_eq!(cl.current(), "hel");
}

#[test]
fn insert_then_remove_restores_line() {
    let mut cl = CommandLine::new();
    type_str(&mut cl, "abc");
    cl.action_left();
    cl.insert('x');
    assert_eq!(cl.current(), "abxc");
    assert_eq!(cl.remove(), Some('x'));
    assert_eq!(cl.current(), "abc");
    assert_eq!(cl.cursor_column(), 3 + 2);
}

#[test]
fn insert_and_remove_read_the_cursor_as_a_byte_offset() {
    let mut cl = CommandLine::new();
    cl.insert('a');
    cl.action_control_a();
    cl.insert('é');
    assert_eq!(cl.current(), "éa");
    cl.action_control_e();
    // The cursor is 2, the end of the line in characters; byte 2 is where
    // 'a' starts, so the new character goes before it.
    assert!(cl.can_insert());
    cl.insert('x');
    assert_eq!(cl.current(), "éxa");
    assert_eq!(cl.remove(), Some('x'));
    assert_eq!(cl.current(), "éa");
}

#[test]
fn insert_and_remove_inside_a_character_are_refused() {
    let mut cl = CommandLine::new();
    cl.insert('é');
    assert_eq!(cl.current(), "é");
    // Byte 1 lies inside 'é'.
    assert!(!cl.can_insert());
    cl.action_left();
    cl.insert('ü');
    assert_eq!(cl.current(), "üé");
    assert!(!cl.can_insert());
    assert!(cl.can_remove());
    assert_eq!(cl.remove(), Some('ü'));
    assert_eq!(cl.current(), "é");
    cl.action_left();
    cl.insert('é');
    assert_eq!(cl.current(), "éé");
    cl.action_control_e();
    // The cursor is 2; byte 1 lies inside the first 'é'.
    assert!(!cl.can_remove());
}

#[test]
fn cursor_stays_in_line() {
    let mut cl = CommandLine::new();
    cl.action_left();
    assert_eq!(cl.cursor_column(), 3);
    type_str(&mut cl, "ab");
    cl.action_right();
    assert_eq!(cl.cursor_column(), 5);
    cl.action_left();
    cl.action_left();
    cl.action_left();
    assert_eq!(cl.cursor_column(), 3);
    cl.action_right();
    assert_eq!(cl.cursor_column(), 4);
    cl.action_tab();
    assert_eq!(cl.cursor_column(), 4);
    assert_eq!(cl.current(), "ab");
}

#[test]
fn save_current_parses_and_records() {
    let mut cl = CommandLine::new();
    type_str(&mut cl, "  hash   some data  ");
    assert_eq!(cl.save_current(), ("hash", "some data"));
    assert_eq!(cl.current(), "");
    type_str(&mut cl, "history");
    assert_eq!(cl.save_current(), ("history", ""));
    assert_eq!(cl.history().len(), 1);
    assert_eq!(cl.history()[0], "  hash   some data  ");
}

#[test]
fn save_empty_line_does_nothing() {
    let mut cl = CommandLine::new();
    assert_eq!(cl.save_current(), ("", ""));
    assert_eq!(cl.current(), "");
}

#[test]
fn save_whitespace_line() {
    let mut cl = CommandLine::new();
    type_str(&mut cl, "   ");
    assert_eq!(cl.save_current(), ("", ""));
    assert_eq!(cl.current(), "");
}

#[test]
fn repeated_command_saved_once() {
    let mut cl = CommandLine::new();
    type_str(&mut cl, "clear");
    cl.save_current();
    type_str(&mut cl, "clear");
    assert_eq!(cl.save_current(), ("clear", ""));
    type_str(&mut cl, "help");
    cl.save_current();
    // history hides the most recent saved entry and the edited line
    assert_eq!(cl.history().len(), 1);
    assert_eq!(cl.history()[0], "clear");
}

#[test]
fn up_and_down_walk_history() {
    let mut cl = CommandLine::new();
    type_str(&mut cl, "one");
    cl.save_current();
    type_str(&mut cl, "two");
    cl.save_current();
    cl.action_up();
    assert_eq!(cl.current(), "two");
    cl.action_up();
    assert_eq!(cl.current(), "one");
    cl.action_up();
    assert_eq!(cl.current(), "one");
    cl.action_down();
    assert_eq!(cl.current(), "two");
    cl.action_down();
    assert_eq!(cl.current(), "");
    cl.action_down();
    assert_eq!(cl.current(), "");
}

#[test]
fn editing_recalled_entry_copies_it() {
    let mut cl = CommandLine::new();
    type_str(&mut cl, "one");
    cl.save_current();
    cl.action_up();
    cl.insert('s');
    assert_eq!(cl.current(), "ones");
    cl.action_up();
    assert_eq!(cl.current(), "one");
}

#[test]
fn recalled_entry_saved_again() {
    let mut cl = CommandLine::new();
    type_str(&mut cl, "one");
    cl.save_current();
    type_str(&mut cl, "two");
    cl.save_current();
    cl.action_up();
    cl.action_up();
    assert_eq!(cl.save_current(), ("one", ""));
    cl.action_up();
    assert_eq!(cl.current(), "one");
    cl.action_up();
    assert_eq!(cl.current(), "two");
}

#[test]
fn reset_current_empties_line() {
    let mut cl = CommandLine::new();
    type_str(&mut cl, "abc");
    cl.reset_current();
    assert_eq!(cl.current(), "");
    assert_eq!(cl.cursor_column(), 3);
}

#[test]
fn clear_forgets_history() {
    let mut cl = CommandLine::with_prompt("$ ");
    type_str(&mut cl, "one");
    cl.save_current();
    cl.clear();
    assert_eq!(cl.current(), "");
    assert_eq!(cl.prompt, "$ ");
    cl.action_up();
    assert_eq!(cl.current(), "");
}

#[test]
fn update_handles_keys() {
    let mut cl = CommandLine::new();
    for c in "help me".chars() {
        assert_eq!(cl.update(key(KeyCode::Char(c))), None);
    }
    assert_eq!(cl.update(key(KeyCode::Left)), None);
    assert_eq!(cl.update(key(KeyCode::Backspace)), None);
    assert_eq!(cl.current(), "help e");
    assert_eq!(cl.update(key(KeyCode::Right)), None);
    assert_eq!(cl.update(ctrl('a')), Some(CommandLineSignal::Control('a')));
    assert_eq!(cl.cursor_column(), 3);
    assert_eq!(cl.update(ctrl('e')), Some(CommandLineSignal::Control('e')));
    assert_eq!(cl.cursor_column(), 3 + 6);
    assert_eq!(cl.update(ctrl('x')), Some(CommandLineSignal::Control('x')));
    let shifted = KeyEvent {
        code: KeyCode::Char('Z'),
        modifiers: KeyModifiers { shift: true, control: false, alt: false },
    };
    assert_eq!(cl.update(shifted), None);
    assert_eq!(cl.current(), "help e");
    assert_eq!(cl.update(key(KeyCode::Home)), None);
    assert_eq!(
        cl.update(key(KeyCode::Enter)),
        Some(CommandLineSignal::Enter { command: "help", args: "e" })
    );
    assert_eq!(cl.current(), "");
}

#[test]
fn update_control_c_resets_line() {
    let mut cl = CommandLine::new();
    cl.update(key(KeyCode::Char('a')));
    assert_eq!(cl.update(ctrl('c')), Some(CommandLineSignal::Control('c')));
    assert_eq!(cl.current(), "");
    cl.update(key(KeyCode::Char('b')));
    assert_eq!(cl.update(ctrl('l')), Some(CommandLineSignal::Control('l')));
    assert_eq!(cl.current(), "");
}

#[test]
fn update_up_down() {
    let mut cl = CommandLine::new();
    cl.update(key(KeyCode::Char('x')));
    cl.update(key(KeyCode::Enter));
    assert_eq!(cl.update(key(KeyCode::Up)), None);
    assert_eq!(cl.current(), "x");
    assert_eq!(cl.update(key(KeyCode::Down)), None);
    assert_eq!(cl.current(), "");
}

#[test]
fn help_text_lines() {
    assert_eq!(help_line("clear", "Clear terminal screen"), "    clear       Clear terminal screen");
    assert_eq!(help_line("a_very_long_name", "d"), "    a_very_long_named");
    let lines = help_lines();
    assert_eq!(lines.len(), 3);
    assert_eq!(lines[1], "    history     Print command history");
    assert_eq!(lines[2], "    hash        Compute hash of <data>");
}

#[test]
fn usage_lookup() {
    assert_eq!(usage("clear"), Some("usage: clear"));
    assert_eq!(usage("history"), Some("usage: history"));
    assert_eq!(usage("hash"), Some("usage: hash <data>"));
    assert_eq!(usage("exit"), None);
}

#[test]
fn report_texts() {
    assert_eq!(missing_text("foo", "bar"), "[ERROR] missing command: foo bar");
    assert_eq!(not_found_text("foo"), "[ERROR] command not found: foo");
    let h = vec!["a".to_string(), "b c".to_string()];
    assert_eq!(history_text(&h), "a\r\nb c");
    assert_eq!(history_text(&[]), "");
}

#[test]
fn help_output_pieces() {
    let p = help_pieces("");
    let shown: Vec<(Emphasis, &str)> = p.iter().map(|x| (x.emphasis, x.text.as_str())).collect();
    assert_eq!(
        shown,
        vec![
            (Emphasis::Plain, "\r\n"),
            (Emphasis::Bold, "qbar"),
            (Emphasis::Plain, " | "),
            (Emphasis::Italic, "the rational proof assistant"),
            (
                Emphasis::Plain,
                "\n\r\nCommands:\r\n    clear       Clear terminal screen\r\n    history     Print command history\r\n    hash        Compute hash of <data>\r\n\r\n"
            ),
        ]
    );
    let p = help_pieces("hash");
    assert_eq!(p.len(), 1);
    assert_eq!(p[0].emphasis, Emphasis::Plain);
    assert_eq!(p[0].text, "usage: hash <data>\n\r\n");
    let p = help_pieces("foo");
    assert_eq!(p.len(), 1);
    assert_eq!(p[0].text, "[ERROR] command not found: foo\r\n\r\n");
}

#[test]
fn clear_and_history_outputs() {
    assert_eq!(clear_output(""), None);
    assert_eq!(clear_output("x"), Some("usage: clear\n\r\n".to_string()));
    let h = vec!["a".to_string(), "b c".to_string()];
    assert_eq!(history_output(&h, ""), "a\r\nb c\n\r\n");
    assert_eq!(history_output(&h, "x"), "usage: history\n\r\n");
    assert_eq!(history_output(&[], ""), "");
}
