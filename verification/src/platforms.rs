//! What a platform hands to the system: key presses and the request to quit.

use vstd::prelude::*;

verus! {

#[derive(Debug)]
pub enum Keycode {
    Temp,
}

#[derive(Debug)]
pub struct Keymod {
    pub shift: bool,
    pub ctrl: bool,
    pub caps: bool,
}

#[derive(Debug)]
pub enum Event {
    KeyDown { repeat: bool, char: Option<char>, keycode: Keycode, keymod: Keymod },
    Quit,
}

} // verus!
