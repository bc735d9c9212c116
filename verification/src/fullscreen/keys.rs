//! The keys that the full screen knows.
use vstd::prelude::*;

use crate::keys::{KeyCode, KeyPress};
use crate::text;

verus! {

/// A key that means something on the full screen.
#[derive(Clone, Copy, Debug, PartialEq, Eq, Structural)]
pub enum KeyEvent {
    Char(char),
    Enter,
    Esc,
    Backspace,
    Delete,
    Left,
    Right,
    Up,
    Down,
    PageUp,
    PageDown,
    Home,
    End,
    Tab,
    CtrlC,
    CtrlL,
}

/// What a key means: nothing when it is let go; the named keys whatever is held beside them;
/// control with `c` or `l` in either case; any other character that is no control character, where
/// nothing but shift is held.
pub open spec fn key_meaning(press: KeyPress) -> Option<KeyEvent> {
    if press.released {
        None
    } else {
        match press.code {
            KeyCode::Enter => Some(KeyEvent::Enter),
            KeyCode::Esc => Some(KeyEvent::Esc),
            KeyCode::Backspace => Some(KeyEvent::Backspace),
            KeyCode::Delete => Some(KeyEvent::Delete),
            KeyCode::Left => Some(KeyEvent::Left),
            KeyCode::Right => Some(KeyEvent::Right),
            KeyCode::Up => Some(KeyEvent::Up),
            KeyCode::Down => Some(KeyEvent::Down),
            KeyCode::PageUp => Some(KeyEvent::PageUp),
            KeyCode::PageDown => Some(KeyEvent::PageDown),
            KeyCode::Home => Some(KeyEvent::Home),
            KeyCode::End => Some(KeyEvent::End),
            KeyCode::Tab | KeyCode::BackTab => Some(KeyEvent::Tab),
            KeyCode::Char(ch) => if press.control && text::lower_char(ch) == 'c' {
                Some(KeyEvent::CtrlC)
            } else if press.control && text::lower_char(ch) == 'l' {
                Some(KeyEvent::CtrlL)
            } else if !press.control && !press.alt && !press.held && !text::is_control_char(ch) {
                Some(KeyEvent::Char(ch))
            } else {
                None
            },
            KeyCode::Other => None,
        }
    }
}

/// What a key means.
pub fn map_key_event(press: KeyPress) -> (event: Option<KeyEvent>)
    ensures
        event == key_meaning(press),
{
    if press.released {
        return None;
    }
    match press.code {
        KeyCode::Enter => Some(KeyEvent::Enter),
        KeyCode::Esc => Some(KeyEvent::Esc),
        KeyCode::Backspace => Some(KeyEvent::Backspace),
        KeyCode::Delete => Some(KeyEvent::Delete),
        KeyCode::Left => Some(KeyEvent::Left),
        KeyCode::Right => Some(KeyEvent::Right),
        KeyCode::Up => Some(KeyEvent::Up),
        KeyCode::Down => Some(KeyEvent::Down),
        KeyCode::PageUp => Some(KeyEvent::PageUp),
        KeyCode::PageDown => Some(KeyEvent::PageDown),
        KeyCode::Home => Some(KeyEvent::Home),
        KeyCode::End => Some(KeyEvent::End),
        KeyCode::Tab | KeyCode::BackTab => Some(KeyEvent::Tab),
        KeyCode::Char(ch) => {
            if press.control && (ch == 'c' || ch == 'C') {
                Some(KeyEvent::CtrlC)
            } else if press.control && (ch == 'l' || ch == 'L') {
                Some(KeyEvent::CtrlL)
            } else if !press.control && !press.alt && !press.held && !ch.is_control() {
                Some(KeyEvent::Char(ch))
            } else {
                None
            }
        },
        KeyCode::Other => None,
    }
}

/// A key that is let go means nothing. A character means itself unless it is held, or pressed with
/// control or alt, or is no character to show; with control, `c` and `l` have a meaning of their own.
pub proof fn law_a_character_means_itself(press: KeyPress, ch: char)
    requires
        press.code == KeyCode::Char(ch),
    ensures
        press.released ==> key_meaning(press) is None,
        !press.released && press.control && (ch == 'c' || ch == 'C') ==> key_meaning(press) == Some(
            KeyEvent::CtrlC,
        ),
        !press.released && press.control && (ch == 'l' || ch == 'L') ==> key_meaning(press) == Some(
            KeyEvent::CtrlL,
        ),
        press.control && ch != 'c' && ch != 'C' && ch != 'l' && ch != 'L' ==> key_meaning(press)
            is None,
        !press.control ==> (key_meaning(press) == Some(KeyEvent::Char(ch)) <==> !press.released
            && !press.alt && !press.held && !text::is_control_char(ch)),
        !press.control && key_meaning(press) != Some(KeyEvent::Char(ch)) ==> key_meaning(press)
            is None,
{
}

/// Every other key keeps its meaning whatever is pressed with it; there are no two for one meaning but
/// the tabulator's two directions.
pub proof fn law_keys_keep_their_meaning(press: KeyPress, other: KeyPress)
    requires
        !press.released && !other.released,
        !(press.code is Char) && !(other.code is Char),
    ensures
        press.code == KeyCode::Enter <==> key_meaning(press) == Some(KeyEvent::Enter),
        press.code == KeyCode::Esc <==> key_meaning(press) == Some(KeyEvent::Esc),
        press.code == KeyCode::Backspace <==> key_meaning(press) == Some(KeyEvent::Backspace),
        press.code == KeyCode::Delete <==> key_meaning(press) == Some(KeyEvent::Delete),
        press.code == KeyCode::Left <==> key_meaning(press) == Some(KeyEvent::Left),
        press.code == KeyCode::Right <==> key_meaning(press) == Some(KeyEvent::Right),
        press.code == KeyCode::Up <==> key_meaning(press) == Some(KeyEvent::Up),
        press.code == KeyCode::Down <==> key_meaning(press) == Some(KeyEvent::Down),
        press.code == KeyCode::PageUp <==> key_meaning(press) == Some(KeyEvent::PageUp),
        press.code == KeyCode::PageDown <==> key_meaning(press) == Some(KeyEvent::PageDown),
        press.code == KeyCode::Home <==> key_meaning(press) == Some(KeyEvent::Home),
        press.code == KeyCode::End <==> key_meaning(press) == Some(KeyEvent::End),
        press.code == KeyCode::Tab || press.code == KeyCode::BackTab <==> key_meaning(press) == Some(
            KeyEvent::Tab,
        ),
        press.code == KeyCode::Other <==> key_meaning(press) is None,
        press.code == other.code ==> key_meaning(press) == key_meaning(other),
{
}

} // verus!
