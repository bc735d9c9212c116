//! Keys as the terminal reports them.
use vstd::prelude::*;

verus! {

/// A key.
#[derive(Clone, Copy, Debug, PartialEq, Eq, Structural)]
pub enum KeyCode {
    Char(char),
    Enter,
    Esc,
    Backspace,
    Delete,
    Left,
    Right,
    Up,
    Down,
    PageUp,
    PageDown,
    Home,
    End,
    Tab,
    BackTab,
    Other,
}

/// A key with what was held beside it. `held` is any modifier but the three that have a name here.
#[derive(Clone, Copy, Debug, PartialEq, Eq, Structural)]
pub struct KeyPress {
    pub code: KeyCode,
    pub control: bool,
    pub alt: bool,
    pub shift: bool,
    pub held: bool,
    pub released: bool,
}

/// A key with nothing held beside it.
#[verifier::allow_in_spec]
pub fn bare(code: KeyCode) -> KeyPress
    returns
        (KeyPress { code, control: false, alt: false, shift: false, held: false, released: false }),
{
    KeyPress { code, control: false, alt: false, shift: false, held: false, released: false }
}

} // verus!
