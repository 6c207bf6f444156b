use qbar::command::{KeyCode, KeyEvent, KeyModifiers};
use qbar::shell::{control_action, dispatch, startup, Command, ControlAction, ExitStatus, Startup};
use qbar::term::{newlines_text, yn_prompt_step, YNPromptState, NEWLINE_STR};

fn key(code: KeyCode) -> KeyEvent {
    KeyEvent { code, modifiers: KeyModifiers::empty() }
}

fn ctrl(c: char) -> KeyEvent {
    KeyEvent { code: KeyCode::Char(c), modifiers: KeyModifiers::control() }
}

#[test]
fn exit_status_codes() {
    assert_eq!(ExitStatus::Success.report(), 0);
    assert_eq!(ExitStatus::Failure.report(), 1);
    assert_eq!(ExitStatus::FalseStart.report(), 2);
    assert_eq!(ExitStatus::InvalidInitialEnvironment.report(), 3);
    assert_eq!(ExitStatus::TerminalFailure.report(), 4);
}

#[test]
fn startup_choices() {
    assert_eq!(startup(None), Startup::RunShell);
    assert_eq!(startup(Some("--help")), Startup::HelpAndExit);
    assert_eq!(startup(Some("-h")), Startup::Exit);
}

#[test]
fn control_actions() {
    assert_eq!(control_action('d'), ControlAction::Exit);
    assert_eq!(control_action('c'), ControlAction::Interrupt);
    assert_eq!(control_action('l'), ControlAction::ClearScreen);
    assert_eq!(control_action('a'), ControlAction::Ignore);
}

#[test]
fn command_dispatch() {
    assert_eq!(dispatch(""), Command::Empty);
    assert_eq!(dispatch("exit"), Command::Exit);
    assert_eq!(dispatch("quit"), Command::Exit);
    assert_eq!(dispatch("clear"), Command::Clear);
    assert_eq!(dispatch("help"), Command::Help);
    assert_eq!(dispatch("?"), Command::Help);
    assert_eq!(dispatch("history"), Command::History);
    assert_eq!(dispatch("hash"), Command::Hash);
    assert_eq!(dispatch("hashes"), Command::Missing);
}

#[test]
fn newline_text() {
    assert_eq!(NEWLINE_STR, "\r\n");
    assert_eq!(newlines_text(0), "");
    assert_eq!(newlines_text(1), "\r\n");
    assert_eq!(newlines_text(3), "\n\n\r\n");
}

#[test]
fn yn_from_bool() {
    assert_eq!(YNPromptState::from(true), YNPromptState::Yes);
    assert_eq!(YNPromptState::from(false), YNPromptState::No);
}

#[test]
fn yn_prompt_answers() {
    let mut b = String::new();
    assert_eq!(yn_prompt_step(&mut b, key(KeyCode::Enter), true), Some(YNPromptState::Yes));
    assert_eq!(yn_prompt_step(&mut b, key(KeyCode::Enter), false), Some(YNPromptState::No));
    for c in "YeS".chars() {
        assert_eq!(yn_prompt_step(&mut b, key(KeyCode::Char(c)), false), None);
    }
    assert_eq!(b, "YeS");
    assert_eq!(yn_prompt_step(&mut b, key(KeyCode::Enter), false), Some(YNPromptState::Yes));
    let mut b = String::from("N");
    assert_eq!(yn_prompt_step(&mut b, key(KeyCode::Enter), true), Some(YNPromptState::No));
    let mut b = String::from("no");
    assert_eq!(yn_prompt_step(&mut b, key(KeyCode::Enter), true), Some(YNPromptState::No));
    let mut b = String::from("y");
    assert_eq!(yn_prompt_step(&mut b, key(KeyCode::Enter), false), Some(YNPromptState::Yes));
}

#[test]
fn yn_prompt_editing() {
    let mut b = String::from("maybe");
    assert_eq!(yn_prompt_step(&mut b, key(KeyCode::Enter), true), None);
    assert_eq!(b, "");
    let mut b = String::from("yess");
    assert_eq!(yn_prompt_step(&mut b, key(KeyCode::Backspace), true), None);
    assert_eq!(b, "yes");
    let mut e = String::new();
    assert_eq!(yn_prompt_step(&mut e, key(KeyCode::Backspace), true), None);
    assert_eq!(e, "");
    assert_eq!(yn_prompt_step(&mut b, key(KeyCode::Left), true), None);
    assert_eq!(b, "yes");
}

#[test]
fn yn_prompt_controls() {
    let mut b = String::from("y");
    assert_eq!(yn_prompt_step(&mut b, ctrl('c'), true), Some(YNPromptState::ControlC));
    assert_eq!(yn_prompt_step(&mut b, ctrl('d'), true), Some(YNPromptState::ControlD));
    assert_eq!(yn_prompt_step(&mut b, ctrl('x'), true), None);
    assert_eq!(b, "y");
}
