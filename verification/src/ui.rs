//! What the renderer shows around a pane: its title line and whether the
//! cursor is drawn.

use vstd::prelude::*;
use crate::app::Mode;
use crate::text::{decimal, push_char, push_decimal, push_str};

verus! {

/// The title of a pane's border: ` <name> `, then `(zoom) ` in the zoomed
/// view, then `(scroll: <n>) ` for the focused pane in scroll mode or
/// `(scrolled: <n>) ` for a pane scrolled back.
pub open spec fn pane_title_spec(name: Seq<char>, zoomed: bool, focused: bool, mode: Mode, scroll: usize) -> Seq<char> {
    let base = seq![' '] + name + seq![' '];
    let z = if zoomed {
        base + "(zoom) "@
    } else {
        base
    };
    if focused && mode == Mode::Scroll {
        z + "(scroll: "@ + decimal(scroll as nat) + ") "@
    } else if scroll > 0 {
        z + "(scrolled: "@ + decimal(scroll as nat) + ") "@
    } else {
        z
    }
}

/// The title of a pane's border.
pub fn pane_title(name: &str, zoomed: bool, focused: bool, mode: Mode, scroll: usize) -> (r: String)
    ensures
        r@ == pane_title_spec(name@, zoomed, focused, mode, scroll),
{
    let mut t = String::new();
    push_char(&mut t, ' ');
    push_str(&mut t, name);
    push_char(&mut t, ' ');
    if zoomed {
        push_str(&mut t, "(zoom) ");
    }
    if focused && mode == Mode::Scroll {
        push_str(&mut t, "(scroll: ");
        push_decimal(&mut t, scroll as u64);
        push_str(&mut t, ") ");
    } else if scroll > 0 {
        push_str(&mut t, "(scrolled: ");
        push_decimal(&mut t, scroll as u64);
        push_str(&mut t, ") ");
    }
    t
}

/// Whether the terminal cursor is drawn in a pane: only in the focused pane,
/// in normal mode, at the live (unscrolled) view.
pub fn shows_cursor(focused: bool, mode: Mode, scroll: usize) -> (r: bool)
    ensures
        r == (focused && mode == Mode::Normal && scroll == 0),
{
    focused && mode == Mode::Normal && scroll == 0
}

} // verus!
