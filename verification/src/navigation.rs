//! Moving the cursor over the wrapped grid of cards.
//!
//! The cards are laid out row by row, `columns` to a row, so the card above
//! index `i` is `i - columns` and the one below is `i + columns`.

use vstd::prelude::*;

verus! {

/// One key press that the grid answers.
#[derive(Clone, Copy, Debug, PartialEq, Eq, Structural)]
pub enum Signal {
    Up,
    Down,
    Left,
    Right,
    Open,
}

/// Where the cursor stands after `signal`, starting at `index` in a grid
/// of `len` cards with `columns` cards to a row. A move that would leave
/// the grid is not made.
pub open spec fn moved(index: int, signal: Signal, len: int, columns: int) -> int {
    match signal {
        Signal::Up => if index >= columns {
            index - columns
        } else {
            index
        },
        Signal::Down => if index + columns < len {
            index + columns
        } else {
            index
        },
        Signal::Left => if index > 0 {
            index - 1
        } else {
            index
        },
        Signal::Right => if index + 1 < len {
            index + 1
        } else {
            index
        },
        Signal::Open => index,
    }
}

/// The signal that is served when several keys are down at once: the first
/// of up, down, left, right, open.
pub open spec fn first_pressed(up: bool, down: bool, left: bool, right: bool, open: bool) -> Option<
    Signal,
> {
    if up {
        Some(Signal::Up)
    } else if down {
        Some(Signal::Down)
    } else if left {
        Some(Signal::Left)
    } else if right {
        Some(Signal::Right)
    } else if open {
        Some(Signal::Open)
    } else {
        None
    }
}

/// The cursor after one frame: a cursor that exists answers the signal; a
/// missing one is put on the first card, if there is a card, and the signal
/// is not served.
pub open spec fn cursor_after(
    cursor: Option<int>,
    signal: Option<Signal>,
    len: int,
    columns: int,
) -> Option<int> {
    match cursor {
        Some(index) => match signal {
            Some(s) => Some(moved(index, s, len, columns)),
            None => Some(index),
        },
        None => if len > 0 {
            Some(0)
        } else {
            None
        },
    }
}

/// A cursor inside the grid stays inside it.
pub proof fn lemma_moved_in_grid(index: int, signal: Signal, len: int, columns: int)
    requires
        0 <= index < len,
        0 <= columns,
    ensures
        0 <= moved(index, signal, len, columns) < len,
{
}

/// Whether the card that is the `count`-th to be laid out is the last of
/// its row.
pub fn ends_row(count: usize, columns: usize) -> (last: bool)
    requires
        columns > 0,
    ensures
        last == (count as int % columns as int == 0),
{
    count % columns == 0
}

/// Picks the signal to serve from the keys that are down.
pub fn first_signal(up: bool, down: bool, left: bool, right: bool, open: bool) -> (s: Option<
    Signal,
>)
    ensures
        s == first_pressed(up, down, left, right, open),
{
    if up {
        Some(Signal::Up)
    } else if down {
        Some(Signal::Down)
    } else if left {
        Some(Signal::Left)
    } else if right {
        Some(Signal::Right)
    } else if open {
        Some(Signal::Open)
    } else {
        None
    }
}

/// Moves the cursor at `index` by `signal`.
pub fn move_cursor(index: usize, signal: Signal, len: usize, columns: usize) -> (next: usize)
    ensures
        next == moved(index as int, signal, len as int, columns as int),
        index < len ==> next < len,
{
    match signal {
        Signal::Up => if index >= columns {
            index - columns
        } else {
            index
        },
        Signal::Down => match index.checked_add(columns) {
            Some(below) => if below < len {
                below
            } else {
                index
            },
            None => index,
        },
        Signal::Left => if index > 0 {
            index - 1
        } else {
            index
        },
        Signal::Right => if index < usize::MAX && index + 1 < len {
            index + 1
        } else {
            index
        },
        Signal::Open => index,
    }
}

} // verus!
