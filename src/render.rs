use vstd::prelude::*;
use crate::board::{DiscColor, Masu};

verus! {

/// The background a cell is drawn on.
#[derive(Clone, Copy, Debug, PartialEq, Eq, Structural)]
pub enum Background {
    /// The cell under the cursor: the terminal's own background.
    Cursor,
    /// Cells whose coordinates sum to an even number.
    Dark,
    /// Cells whose coordinates sum to an odd number.
    Light,
}

/// The background of the cell at `(x, y)`: highlighted under the cursor,
/// else a checkerboard shade.
pub open spec fn background_of(x: int, y: int, cursor: (usize, usize)) -> Background {
    if x == cursor.0 && y == cursor.1 {
        Background::Cursor
    } else if (x + y) % 2 == 0 {
        Background::Dark
    } else {
        Background::Light
    }
}

/// Chooses the background of the cell at `(x, y)`.
pub fn cell_background(x: usize, y: usize, cursor: &(usize, usize)) -> (r: Background)
    requires
        x < 8,
        y < 8,
    ensures
        r == background_of(x as int, y as int, *cursor),
{
    if x == cursor.0 && y == cursor.1 {
        Background::Cursor
    } else if (x + y) % 2 == 0 {
        Background::Dark
    } else {
        Background::Light
    }
}

/// The two-column text drawn for a cell.
pub fn masu_glyph(masu: Masu) -> (r: &'static str)
    ensures
        masu is Empty ==> r@ == seq![' ', ' '],
        masu == Masu::Putted(DiscColor::Black) ==> r@ == seq!['\u{26ab}'],
        masu == Masu::Putted(DiscColor::White) ==> r@ == seq!['\u{26aa}'],
{
    proof {
        reveal_strlit("  ");
        reveal_strlit("\u{26ab}");
        reveal_strlit("\u{26aa}");
    }
    match masu {
        Masu::Empty => "  ",
        Masu::Putted(DiscColor::Black) => "\u{26ab}",
        Masu::Putted(DiscColor::White) => "\u{26aa}",
    }
}

/// The line that names the active colour.
pub fn turn_message(color: DiscColor) -> (r: &'static str)
    ensures
        color is Black ==> r@ == seq!['\u{9ed2}', '\u{306e}', '\u{30bf}', '\u{30fc}', '\u{30f3}', '\u{3067}', '\u{3059}'],
        color is White ==> r@ == seq!['\u{767d}', '\u{306e}', '\u{30bf}', '\u{30fc}', '\u{30f3}', '\u{3067}', '\u{3059}'],
{
    proof {
        reveal_strlit("\u{9ed2}\u{306e}\u{30bf}\u{30fc}\u{30f3}\u{3067}\u{3059}");
        reveal_strlit("\u{767d}\u{306e}\u{30bf}\u{30fc}\u{30f3}\u{3067}\u{3059}");
    }
    match color {
        DiscColor::Black => "\u{9ed2}\u{306e}\u{30bf}\u{30fc}\u{30f3}\u{3067}\u{3059}",
        DiscColor::White => "\u{767d}\u{306e}\u{30bf}\u{30fc}\u{30f3}\u{3067}\u{3059}",
    }
}

} // verus!
