//! The list of windows on the screen, in the order they are drawn.

use vstd::prelude::*;
use crate::compositor::Window;

verus! {

/// Puts a window on top of the others.
pub fn add_window(windows: &mut Vec<Window>, win: Window)
    ensures
        final(windows)@ == old(windows)@.push(win),
{
    windows.push(win);
}

} // verus!
