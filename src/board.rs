use vstd::prelude::*;

verus! {

/// The colour of a disc.
#[derive(Clone, Copy, Debug, PartialEq, Eq, Structural)]
pub enum DiscColor {
    Black,
    White,
}

/// One cell of the board: empty, or holding a disc of some colour.
#[derive(Clone, Copy, Debug, PartialEq, Eq, Structural)]
pub enum Masu {
    Empty,
    Putted(DiscColor),
}

/// The 8x8 board, row-major: `field[y][x]` is the cell in column `x`, row `y`.
pub type Field = [[Masu; 8]; 8];

/// Both coordinates lie on the board.
pub open spec fn on_board(x: int, y: int) -> bool {
    0 <= x < 8 && 0 <= y < 8
}

/// The cell in column `x`, row `y`.
pub open spec fn cell(f: Field, x: int, y: int) -> Masu {
    f[y][x]
}

/// The opponent of colour `c`.
pub open spec fn other(c: DiscColor) -> DiscColor {
    match c {
        DiscColor::Black => DiscColor::White,
        DiscColor::White => DiscColor::Black,
    }
}

/// The starting position: Black on the main diagonal of the centre square,
/// White on its anti-diagonal, everything else empty.
pub open spec fn initial_cell(x: int, y: int) -> Masu {
    if (x == 3 && y == 3) || (x == 4 && y == 4) {
        Masu::Putted(DiscColor::Black)
    } else if (x == 4 && y == 3) || (x == 3 && y == 4) {
        Masu::Putted(DiscColor::White)
    } else {
        Masu::Empty
    }
}

/// Returns the opponent of `color`.
pub fn get_another_color(color: DiscColor) -> (r: DiscColor)
    ensures
        r == other(color),
        r != color,
{
    match color {
        DiscColor::Black => DiscColor::White,
        DiscColor::White => DiscColor::Black,
    }
}

/// Swapping colours twice gives back the colour one started from.
pub proof fn lemma_other_involution(c: DiscColor)
    ensures
        other(other(c)) == c,
{
}

/// Clears the board and sets up the four centre discs.
pub fn init_field(field: &mut Field)
    ensures
        forall|x: int, y: int|
            on_board(x, y) ==> #[trigger] cell(*final(field), x, y) == initial_cell(x, y),
{
    *field = [[Masu::Empty; 8]; 8];
    field[3][3] = Masu::Putted(DiscColor::Black);
    field[4][4] = Masu::Putted(DiscColor::Black);
    field[3][4] = Masu::Putted(DiscColor::White);
    field[4][3] = Masu::Putted(DiscColor::White);
}

} // verus!
