//! Keyboard input handling for the terminal emulator.
//!
//! Converts keyboard events into the byte sequences a terminal expects. The
//! windowing toolkit's key events are translated by the embedding layer into
//! the plain characters and key numbers these functions take.

use vstd::prelude::*;

use crate::util::char_from_u32;
use crate::util::encode_char;
use crate::util::push_char;
use crate::util::push_str_onto;

verus! {

/// Represents a key sequence to be sent to the terminal
#[derive(Debug, Clone, PartialEq, Eq)]
pub enum TerminalInput {
    /// Regular character input
    Char(char),
    /// Escape sequence (e.g., arrow keys, function keys)
    Escape(String),
    /// No output (modifier only, etc.)
    NoOutput,
}

impl TerminalInput {
    /// Convert the terminal input to bytes for sending to the PTY.
    pub fn to_bytes(&self) -> (r: Vec<u8>)
        ensures
            self is Char ==> r@ == vstd::utf8::encode_scalar(self->Char_0 as u32),
            self is Escape ==> r@ == vstd::utf8::encode_utf8(self->Escape_0@),
            self is NoOutput ==> r@ == Seq::<u8>::empty(),
    {
        match self {
            TerminalInput::Char(c) => encode_char(*c),
            TerminalInput::Escape(s) => s.as_str().as_bytes_vec(),
            TerminalInput::NoOutput => {
                let v = Vec::new();
                proof {
                    assert(v@ =~= Seq::<u8>::empty());
                }
                v
            },
        }
    }

    /// Check if this input represents actual data to send
    pub fn has_output(&self) -> (r: bool)
        ensures
            r == !(self is NoOutput),
    {
        match self {
            TerminalInput::NoOutput => false,
            _ => true,
        }
    }
}

/// Tracks the state of keyboard modifiers
#[derive(Debug, Clone, Copy, PartialEq, Eq, Structural)]
pub struct ModifierState {
    pub shift: bool,
    pub ctrl: bool,
    pub alt: bool,
    pub super_key: bool,
}

impl Default for ModifierState {
    fn default() -> (r: Self)
        ensures
            r == (ModifierState { shift: false, ctrl: false, alt: false, super_key: false }),
    {
        ModifierState { shift: false, ctrl: false, alt: false, super_key: false }
    }
}

/// The modifier number carried in escape sequences: a bit for each held
/// modifier (shift 1, alt 2, ctrl 4, super 8).
pub open spec fn spec_escape_modifier(m: ModifierState) -> int {
    (if m.shift {
        1int
    } else {
        0int
    }) + (if m.alt {
        2int
    } else {
        0int
    }) + (if m.ctrl {
        4int
    } else {
        0int
    }) + (if m.super_key {
        8int
    } else {
        0int
    })
}

impl ModifierState {
    /// Creates a new modifier state with all modifiers released
    pub fn new() -> (r: Self)
        ensures
            r == (ModifierState { shift: false, ctrl: false, alt: false, super_key: false }),
    {
        Self::default()
    }

    /// Returns the modifier number for escape sequences.
    /// Bit positions: Shift(1), Alt(2), Ctrl(4), Super(8).
    pub fn as_escape_modifier(&self) -> (r: u8)
        ensures
            r == spec_escape_modifier(*self),
    {
        let mut modifier: u8 = 0;
        if self.shift {
            modifier = modifier + 1;
        }
        if self.alt {
            modifier = modifier + 2;
        }
        if self.ctrl {
            modifier = modifier + 4;
        }
        if self.super_key {
            modifier = modifier + 8;
        }
        modifier
    }

    /// Check if any modifier is pressed
    pub fn any_pressed(&self) -> (r: bool)
        ensures
            r == (self.shift || self.ctrl || self.alt || self.super_key),
    {
        self.shift || self.ctrl || self.alt || self.super_key
    }
}

/// The decimal digits of a small escape-sequence argument (modifier numbers
/// reach 16, function-key codes 24).
pub open spec fn spec_mod_digits(v: u8) -> Seq<char>
    recommends
        v <= 29,
{
    if v < 10 {
        seq![(48 + v) as char]
    } else if v < 20 {
        seq!['1', (48 + (v - 10)) as char]
    } else {
        seq!['2', (48 + (v - 20)) as char]
    }
}

/// Appends the decimal digits of a modifier argument.
fn push_mod_digits(out: &mut String, v: u8)
    requires
        v <= 29,
    ensures
        final(out)@ == old(out)@ + spec_mod_digits(v),
{
    let ones: u8 = v % 10;
    if v >= 20 {
        push_char(out, '2');
    } else if v >= 10 {
        push_char(out, '1');
    }
    let d = char_from_u32(48 + (ones as u32));
    match d {
        Some(c) => {
            proof {
                vstd::utf8::char_u32_cast(c, (48 + (ones as u32)) as u32);
            }
            push_char(out, c);
        },
        Option::None => {},
    }
    proof {
        assert(final(out)@ =~= old(out)@ + spec_mod_digits(v));
    }
}

/// The control character a key combination `Ctrl + c` produces, if any:
/// letters map to 0x01..0x1A, some digits and symbols to other C0 codes.
pub open spec fn spec_ctrl_char(c: char) -> Option<char> {
    let lower = if 'A' <= c <= 'Z' {
        ((c as u32) + 32) as u32
    } else {
        c as u32
    };
    if 97 <= lower <= 122 {
        // 'a'..='z' map to 0x01..=0x1A
        Some(((lower - 96) as u32) as char)
    } else if c == '2' {
        Some('\u{0}')
    } else if c == '3' {
        Some('\u{1b}')
    } else if c == '4' {
        Some('\u{1c}')
    } else if c == '5' {
        Some('\u{1d}')
    } else if c == '6' {
        Some('\u{1e}')
    } else if c == '7' {
        Some('\u{1f}')
    } else if c == '8' {
        Some('\u{7f}')
    } else if c == '[' {
        Some('\u{1b}')
    } else if c == '\\' {
        Some('\u{1c}')
    } else if c == ']' {
        Some('\u{1d}')
    } else if c == '^' {
        Some('\u{1e}')
    } else if c == '_' {
        Some('\u{1f}')
    } else {
        None
    }
}

/// Handles keyboard input conversion for terminal emulation
pub struct InputHandler {
    /// Current state of modifier keys
    modifiers: ModifierState,
}

impl InputHandler {
    /// Creates a new input handler
    pub fn new() -> (r: Self)
        ensures
            r.spec_modifiers() == (ModifierState {
                shift: false,
                ctrl: false,
                alt: false,
                super_key: false,
            }),
    {
        InputHandler { modifiers: ModifierState::new() }
    }

    /// The current modifier state.
    pub closed spec fn spec_modifiers(&self) -> ModifierState {
        self.modifiers
    }

    /// Get the current modifier state.
    pub fn modifiers(&self) -> (r: ModifierState)
        ensures
            r == self.spec_modifiers(),
    {
        self.modifiers
    }

    /// Replace the modifier state (driven by the embedding layer's key
    /// events).
    pub fn set_modifiers(&mut self, m: ModifierState)
        ensures
            final(self).spec_modifiers() == m,
    {
        self.modifiers = m;
    }

    /// Convert a character to its Ctrl equivalent
    pub fn ctrl_char(&self, c: char) -> (r: Option<char>)
        ensures
            r == spec_ctrl_char(c),
    {
        let code: u32 = c as u32;
        let lower: u32 = if c >= 'A' && c <= 'Z' {
            code + 32
        } else {
            code
        };
        if lower >= 97 && lower <= 122 {
            // Ctrl+A through Ctrl+Z map to 0x01 through 0x1A
            let r = char_from_u32(lower - 96);
            proof {
                assert(r is Some);
                vstd::utf8::char_u32_cast(r->0, (lower - 96) as u32);
            }
            r
        } else if c == '2' {
            Some('\u{0}')
        } else if c == '3' {
            Some('\u{1b}')
        } else if c == '4' {
            Some('\u{1c}')
        } else if c == '5' {
            Some('\u{1d}')
        } else if c == '6' {
            Some('\u{1e}')
        } else if c == '7' {
            Some('\u{1f}')
        } else if c == '8' {
            Some('\u{7f}')
        } else if c == '[' {
            Some('\u{1b}')
        } else if c == '\\' {
            Some('\u{1c}')
        } else if c == ']' {
            Some('\u{1d}')
        } else if c == '^' {
            Some('\u{1e}')
        } else if c == '_' {
            Some('\u{1f}')
        } else {
            None
        }
    }

    /// Handle regular character input with modifiers: Ctrl combinations map
    /// to control codes, Alt prefixes the text with ESC, anything else is
    /// the character itself.
    pub fn handle_character(&mut self, ch: &str) -> (r: TerminalInput)
        ensures
            *final(self) == *old(self),
            ch@.len() == 0 ==> r is NoOutput,
            ch@.len() > 0 && old(self).spec_modifiers().ctrl && spec_ctrl_char(ch@[0]) is Some ==> r
                == TerminalInput::Char(spec_ctrl_char(ch@[0])->0),
            ch@.len() > 0 && !(old(self).spec_modifiers().ctrl && spec_ctrl_char(ch@[0]) is Some)
                && old(self).spec_modifiers().alt ==> r is Escape && r->Escape_0@ == seq!['\u{1b}']
                + ch@,
            ch@.len() > 0 && !(old(self).spec_modifiers().ctrl && spec_ctrl_char(ch@[0]) is Some)
                && !old(self).spec_modifiers().alt ==> r == TerminalInput::Char(ch@[0]),
    {
        if ch.unicode_len() == 0 {
            return TerminalInput::NoOutput;
        }
        let first_char = ch.get_char(0);

        // Handle Ctrl+letter combinations
        if self.modifiers.ctrl {
            let ctrl = self.ctrl_char(first_char);
            match ctrl {
                Some(ctrl_char) => {
                    return TerminalInput::Char(ctrl_char);
                },
                Option::None => {},
            }
        }
        // Handle Alt prefix: Alt+key sends ESC followed by the text
        if self.modifiers.alt {
            let mut s = String::new();
            push_char(&mut s, '\u{1b}');
            push_str_onto(&mut s, ch);
            proof {
                assert(s@ =~= seq!['\u{1b}'] + ch@);
            }
            return TerminalInput::Escape(s);
        }
        // Regular character
        TerminalInput::Char(first_char)
    }

    /// Apply the held modifiers to a cursor-key escape sequence: the plain
    /// sequence when nothing is held, the `CSI prefix ; modifier suffix`
    /// form otherwise.
    pub fn apply_modifiers(&self, base: &str, prefix: &str, suffix: char) -> (r: TerminalInput)
        ensures
            r is Escape,
            !(self.spec_modifiers().shift || self.spec_modifiers().ctrl || self.spec_modifiers().alt
                || self.spec_modifiers().super_key) ==> r->Escape_0@ == base@,
            (self.spec_modifiers().shift || self.spec_modifiers().ctrl || self.spec_modifiers().alt
                || self.spec_modifiers().super_key) ==> r->Escape_0@ == prefix@ + seq![';']
                + spec_mod_digits((spec_escape_modifier(self.spec_modifiers()) + 1) as u8) + seq![
                suffix,
            ],
    {
        if !self.modifiers.any_pressed() {
            return TerminalInput::Escape(base.to_owned());
        }
        let modifier = self.modifiers.as_escape_modifier();
        let mut s = String::new();
        push_str_onto(&mut s, prefix);
        push_char(&mut s, ';');
        push_mod_digits(&mut s, modifier + 1);
        push_char(&mut s, suffix);
        proof {
            assert(s@ =~= prefix@ + seq![';'] + spec_mod_digits(
                (spec_escape_modifier(self.spec_modifiers()) + 1) as u8,
            ) + seq![suffix]);
        }
        TerminalInput::Escape(s)
    }

    /// Generate a function key escape sequence with modifiers: F1-F4 use SS3
    /// sequences when unmodified, F5-F12 use CSI tilde sequences; key
    /// numbers outside 1..=12 produce nothing.
    pub fn f_key(&self, num: u8) -> (r: TerminalInput)
        ensures
            1 <= num <= 12 ==> r is Escape && r->Escape_0@ == spec_f_key_seq(
                num,
                spec_escape_modifier(self.spec_modifiers()),
            ),
            !(1 <= num <= 12) ==> r is NoOutput,
    {
        if num == 0 || num > 12 {
            return TerminalInput::NoOutput;
        }
        let modifier = self.modifiers.as_escape_modifier();
        let mut s = String::new();
        push_char(&mut s, '\u{1b}');
        if num <= 4 {
            let letter = if num == 1 {
                'P'
            } else if num == 2 {
                'Q'
            } else if num == 3 {
                'R'
            } else {
                'S'
            };
            if modifier > 0 {
                push_char(&mut s, '[');
                push_char(&mut s, '1');
                push_char(&mut s, ';');
                push_mod_digits(&mut s, modifier + 1);
                push_char(&mut s, letter);
            } else {
                push_char(&mut s, 'O');
                push_char(&mut s, letter);
            }
        } else {
            let code: u8 = if num == 5 {
                15
            } else if num == 6 {
                17
            } else if num == 7 {
                18
            } else if num == 8 {
                19
            } else if num == 9 {
                20
            } else if num == 10 {
                21
            } else if num == 11 {
                23
            } else {
                24
            };
            push_char(&mut s, '[');
            push_mod_digits(&mut s, code);
            if modifier > 0 {
                push_char(&mut s, ';');
                push_mod_digits(&mut s, modifier + 1);
            }
            push_char(&mut s, '~');
        }
        proof {
            assert(s@ =~= spec_f_key_seq(num, spec_escape_modifier(self.spec_modifiers())));
        }
        TerminalInput::Escape(s)
    }
}

/// The SS3 final letter of F1 through F4.
pub open spec fn spec_fkey_letter(num: u8) -> char {
    if num == 1 {
        'P'
    } else if num == 2 {
        'Q'
    } else if num == 3 {
        'R'
    } else {
        'S'
    }
}

/// The CSI code number of F5 through F12.
pub open spec fn spec_fkey_code(num: u8) -> u8 {
    if num == 5 {
        15
    } else if num == 6 {
        17
    } else if num == 7 {
        18
    } else if num == 8 {
        19
    } else if num == 9 {
        20
    } else if num == 10 {
        21
    } else if num == 11 {
        23
    } else {
        24
    }
}

/// The full escape sequence of a function key under a modifier mask.
pub open spec fn spec_f_key_seq(num: u8, modifier: int) -> Seq<char>
    recommends
        1 <= num <= 12,
        0 <= modifier <= 15,
{
    if num <= 4 {
        if modifier > 0 {
            seq!['\u{1b}', '[', '1', ';'] + spec_mod_digits((modifier + 1) as u8) + seq![
                spec_fkey_letter(num),
            ]
        } else {
            seq!['\u{1b}', 'O', spec_fkey_letter(num)]
        }
    } else {
        if modifier > 0 {
            seq!['\u{1b}', '['] + spec_mod_digits(spec_fkey_code(num)) + seq![';']
                + spec_mod_digits((modifier + 1) as u8) + seq!['~']
        } else {
            seq!['\u{1b}', '['] + spec_mod_digits(spec_fkey_code(num)) + seq!['~']
        }
    }
}

impl Default for InputHandler {
    fn default() -> (r: Self)
        ensures
            r.spec_modifiers() == (ModifierState {
                shift: false,
                ctrl: false,
                alt: false,
                super_key: false,
            }),
    {
        Self::new()
    }
}

} // verus!
