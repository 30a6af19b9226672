//! The decision of which synthetic keyboard events to post.
//!
//! Posting itself goes through the platform's event API, which the
//! application layer calls with the strokes decided here.

use vstd::prelude::*;

use crate::keycodes::KEY_NONE;

verus! {

/// One synthetic keyboard event: a key going down or coming up.
#[derive(Clone, Copy, Debug, PartialEq, Eq)]
pub struct KeyStroke {
    /// Platform virtual key code.
    pub code: u16,
    /// `true` for a key press, `false` for a release.
    pub down: bool,
}

/// The keyboard event to post for a key code, or `None` when the code is
/// `KEY_NONE` ("no key assigned"), for which nothing is posted.
pub fn key_stroke(keycode: u16, down: bool) -> (r: Option<KeyStroke>)
    ensures
        r is None <==> keycode == KEY_NONE,
        r matches Some(k) ==> k.code == keycode && k.down == down,
{
    if keycode == KEY_NONE {
        None
    } else {
        Some(KeyStroke { code: keycode, down })
    }
}

} // verus!
