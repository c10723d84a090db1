//! Keyboard input: the handler interface and the mapping from Linux key codes to characters.
use vstd::prelude::*;

verus! {

/// A source of key presses.
pub trait InputHandler {
    /// Prepares the source.
    fn init(&mut self) -> Result<(), String>;

    /// A key pressed since the last poll, if any; never blocks.
    fn poll(&mut self) -> Result<Option<char>, String>;

    /// Restores what `init` changed.
    fn cleanup(&mut self) -> Result<(), String>;
}

pub const KEY_Q: u16 = 16;

pub const KEY_W: u16 = 17;

pub const KEY_E: u16 = 18;

pub const KEY_R: u16 = 19;

pub const KEY_T: u16 = 20;

pub const KEY_Y: u16 = 21;

pub const KEY_U: u16 = 22;

pub const KEY_I: u16 = 23;

pub const KEY_O: u16 = 24;

pub const KEY_P: u16 = 25;

pub const KEY_A: u16 = 30;

pub const KEY_S: u16 = 31;

pub const KEY_D: u16 = 32;

pub const KEY_F: u16 = 33;

pub const KEY_G: u16 = 34;

pub const KEY_H: u16 = 35;

pub const KEY_J: u16 = 36;

pub const KEY_K: u16 = 37;

pub const KEY_L: u16 = 38;

pub const KEY_Z: u16 = 44;

pub const KEY_X: u16 = 45;

pub const KEY_C: u16 = 46;

pub const KEY_V: u16 = 47;

pub const KEY_B: u16 = 48;

pub const KEY_N: u16 = 49;

pub const KEY_M: u16 = 50;

pub const KEY_SPACE: u16 = 57;

pub const KEY_ENTER: u16 = 28;

/// The character of a key: the 26 letters in lower case, space and enter.
pub open spec fn key_char(code: u16) -> Option<char> {
    if code == KEY_Q {
        Some('q')
    } else if code == KEY_W {
        Some('w')
    } else if code == KEY_E {
        Some('e')
    } else if code == KEY_R {
        Some('r')
    } else if code == KEY_T {
        Some('t')
    } else if code == KEY_Y {
        Some('y')
    } else if code == KEY_U {
        Some('u')
    } else if code == KEY_I {
        Some('i')
    } else if code == KEY_O {
        Some('o')
    } else if code == KEY_P {
        Some('p')
    } else if code == KEY_A {
        Some('a')
    } else if code == KEY_S {
        Some('s')
    } else if code == KEY_D {
        Some('d')
    } else if code == KEY_F {
        Some('f')
    } else if code == KEY_G {
        Some('g')
    } else if code == KEY_H {
        Some('h')
    } else if code == KEY_J {
        Some('j')
    } else if code == KEY_K {
        Some('k')
    } else if code == KEY_L {
        Some('l')
    } else if code == KEY_Z {
        Some('z')
    } else if code == KEY_X {
        Some('x')
    } else if code == KEY_C {
        Some('c')
    } else if code == KEY_V {
        Some('v')
    } else if code == KEY_B {
        Some('b')
    } else if code == KEY_N {
        Some('n')
    } else if code == KEY_M {
        Some('m')
    } else if code == KEY_SPACE {
        Some(' ')
    } else if code == KEY_ENTER {
        Some('\n')
    } else {
        None
    }
}

pub fn key_to_char(code: u16) -> (r: Option<char>)
    ensures
        r == key_char(code),
{
    match code {
        KEY_Q => Some('q'),
        KEY_W => Some('w'),
        KEY_E => Some('e'),
        KEY_R => Some('r'),
        KEY_T => Some('t'),
        KEY_Y => Some('y'),
        KEY_U => Some('u'),
        KEY_I => Some('i'),
        KEY_O => Some('o'),
        KEY_P => Some('p'),
        KEY_A => Some('a'),
        KEY_S => Some('s'),
        KEY_D => Some('d'),
        KEY_F => Some('f'),
        KEY_G => Some('g'),
        KEY_H => Some('h'),
        KEY_J => Some('j'),
        KEY_K => Some('k'),
        KEY_L => Some('l'),
        KEY_Z => Some('z'),
        KEY_X => Some('x'),
        KEY_C => Some('c'),
        KEY_V => Some('v'),
        KEY_B => Some('b'),
        KEY_N => Some('n'),
        KEY_M => Some('m'),
        KEY_SPACE => Some(' '),
        KEY_ENTER => Some('\n'),
        _ => None,
    }
}

/// The character of a key event: only a press (value 1) of a mapped key gives one.
pub fn key_event_char(code: u16, value: i32) -> (r: Option<char>)
    ensures
        value == 1 ==> r == key_char(code),
        value != 1 ==> r is None,
{
    if value == 1 {
        key_to_char(code)
    } else {
        None
    }
}

} // verus!
