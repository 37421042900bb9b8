//! Tests for keyboard input translation: control characters, modifiers,
//! escape sequences for cursor and function keys.

use warp_foss::ui::input::InputHandler;
use warp_foss::ui::input::ModifierState;
use warp_foss::ui::input::TerminalInput;

#[test]
fn test_input_handler_creation() {
    let handler = InputHandler::new();
    assert!(!handler.modifiers().shift);
    assert!(!handler.modifiers().ctrl);
    assert!(!handler.modifiers().alt);
    assert!(!handler.modifiers().super_key);
}

#[test]
fn test_terminal_input_to_bytes() {
    let char_input = TerminalInput::Char('a');
    assert_eq!(char_input.to_bytes(), vec![b'a']);

    let escape_input = TerminalInput::Escape("\x1b[A".to_string());
    assert_eq!(escape_input.to_bytes(), vec![0x1b, b'[', b'A']);

    let none_input = TerminalInput::NoOutput;
    assert!(none_input.to_bytes().is_empty());
}

#[test]
fn test_ctrl_char_conversion() {
    let handler = InputHandler::new();

    assert_eq!(handler.ctrl_char('a'), Some('\x01'));
    assert_eq!(handler.ctrl_char('z'), Some('\x1a'));
    assert_eq!(handler.ctrl_char('A'), Some('\x01'));
    assert_eq!(handler.ctrl_char('['), Some('\x1b'));
}

#[test]
fn test_modifier_state() {
    let mut state = ModifierState::new();
    assert!(!state.any_pressed());

    state.shift = true;
    assert!(state.any_pressed());
    assert_eq!(state.as_escape_modifier(), 1);

    state.alt = true;
    assert_eq!(state.as_escape_modifier(), 3);

    state.ctrl = true;
    assert_eq!(state.as_escape_modifier(), 7);
}

#[test]
fn test_handle_character_plain_and_ctrl() {
    let mut handler = InputHandler::new();
    assert_eq!(handler.handle_character("x"), TerminalInput::Char('x'));
    assert_eq!(handler.handle_character(""), TerminalInput::NoOutput);

    let mut mods = ModifierState::new();
    mods.ctrl = true;
    handler.set_modifiers(mods);
    assert_eq!(handler.handle_character("c"), TerminalInput::Char('\x03'));
}

#[test]
fn test_handle_character_alt_prefix() {
    let mut handler = InputHandler::new();
    let mut mods = ModifierState::new();
    mods.alt = true;
    handler.set_modifiers(mods);
    assert_eq!(
        handler.handle_character("f"),
        TerminalInput::Escape("\x1bf".to_string())
    );
}

#[test]
fn test_apply_modifiers() {
    let mut handler = InputHandler::new();
    // No modifiers: the base sequence is used as is
    assert_eq!(
        handler.apply_modifiers("\x1b[A", "\x1b[1", 'A'),
        TerminalInput::Escape("\x1b[A".to_string())
    );
    // Shift held: modifier number 2
    let mut mods = ModifierState::new();
    mods.shift = true;
    handler.set_modifiers(mods);
    assert_eq!(
        handler.apply_modifiers("\x1b[A", "\x1b[1", 'A'),
        TerminalInput::Escape("\x1b[1;2A".to_string())
    );
}

#[test]
fn test_f_keys_unmodified() {
    let handler = InputHandler::new();
    assert_eq!(handler.f_key(1), TerminalInput::Escape("\x1bOP".to_string()));
    assert_eq!(handler.f_key(4), TerminalInput::Escape("\x1bOS".to_string()));
    assert_eq!(handler.f_key(5), TerminalInput::Escape("\x1b[15~".to_string()));
    assert_eq!(handler.f_key(12), TerminalInput::Escape("\x1b[24~".to_string()));
    assert_eq!(handler.f_key(13), TerminalInput::NoOutput);
}

#[test]
fn test_f_keys_with_modifiers() {
    let mut handler = InputHandler::new();
    let mut mods = ModifierState::new();
    mods.ctrl = true;
    handler.set_modifiers(mods);
    // Ctrl is bit 4, so the modifier argument is 5
    assert_eq!(
        handler.f_key(1),
        TerminalInput::Escape("\x1b[1;5P".to_string())
    );
    assert_eq!(
        handler.f_key(5),
        TerminalInput::Escape("\x1b[15;5~".to_string())
    );
}

#[test]
fn test_to_bytes_multibyte_char() {
    let input = TerminalInput::Char('é');
    assert_eq!(input.to_bytes(), "é".as_bytes().to_vec());
    assert!(input.has_output());
    assert!(!TerminalInput::NoOutput.has_output());
}
