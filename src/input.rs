use vstd::prelude::*;
use crate::board::{cell, on_board, other, DiscColor, Field, Masu, get_another_color};
use crate::capture::{
    auto_reverse, captured_cell, check_putable, dir_x, dir_y, flips_through, is_direction, legal_move,
    run_cells, terminator,
};

verus! {

/// One input event, as the game understands it.
#[derive(Clone, Copy, Debug, PartialEq, Eq, Structural)]
pub enum Key {
    /// Leave the game.
    Quit,
    /// Hand the turn to the other player.
    Pass,
    Up,
    Down,
    Left,
    Right,
    /// Place a disc of the active colour at the cursor.
    Confirm,
    /// Any other event; it changes nothing.
    Other,
}

/// Where the cursor stands after `key`: one step in the key's direction,
/// or where it was if that step would leave the board.
pub open spec fn moved_cursor(key: Key, cur: (usize, usize)) -> (usize, usize) {
    match key {
        Key::Up => if cur.1 > 0 {
            (cur.0, (cur.1 - 1) as usize)
        } else {
            cur
        },
        Key::Down => if cur.1 < 7 {
            (cur.0, (cur.1 + 1) as usize)
        } else {
            cur
        },
        Key::Left => if cur.0 > 0 {
            ((cur.0 - 1) as usize, cur.1)
        } else {
            cur
        },
        Key::Right => if cur.0 < 7 {
            ((cur.0 + 1) as usize, cur.1)
        } else {
            cur
        },
        _ => cur,
    }
}

/// The cursor stands on the edge that `key` would step across.
pub open spec fn at_edge(key: Key, cur: (usize, usize)) -> bool {
    ||| key is Up && cur.1 == 0
    ||| key is Down && cur.1 == 7
    ||| key is Left && cur.0 == 0
    ||| key is Right && cur.0 == 7
}

/// The cell at `(x, y)` after a disc of colour `c` is placed at `p` and its
/// captures are flipped.
pub open spec fn placed_cell(f: Field, p: (usize, usize), c: DiscColor, x: int, y: int) -> Masu {
    if x == p.0 && y == p.1 {
        Masu::Putted(c)
    } else {
        captured_cell(f, p, c, x, y)
    }
}

/// A movement key keeps the cursor on the board. At the edge it crosses,
/// the cursor stays put; elsewhere exactly one coordinate moves by one.
pub proof fn lemma_cursor_step(key: Key, cur: (usize, usize))
    requires
        cur.0 < 8,
        cur.1 < 8,
        key is Up || key is Down || key is Left || key is Right,
    ensures
        moved_cursor(key, cur).0 < 8,
        moved_cursor(key, cur).1 < 8,
        at_edge(key, cur) ==> moved_cursor(key, cur) == cur,
        !at_edge(key, cur) ==> {
            let n = moved_cursor(key, cur);
            ||| n.0 == cur.0 && (n.1 == cur.1 + 1 || n.1 + 1 == cur.1)
            ||| n.1 == cur.1 && (n.0 == cur.0 + 1 || n.0 + 1 == cur.0)
        },
{
}

/// The scan from `p` never looks at `p` itself, so boards that differ only
/// there give the same walk.
proof fn lemma_terminator_ignores_origin(
    f1: Field,
    f2: Field,
    px: int,
    py: int,
    dx: int,
    dy: int,
    c: DiscColor,
    i: int,
)
    requires
        i >= 1,
        is_direction(dx, dy),
        forall|x: int, y: int|
            on_board(x, y) && !(x == px && y == py) ==> #[trigger] cell(f1, x, y) == cell(f2, x, y),
    ensures
        terminator(f1, px, py, dx, dy, c, i) == terminator(f2, px, py, dx, dy, c, i),
    decreases 8 - i,
{
    if i < 8 {
        assert(!(dx * i == 0 && dy * i == 0)) by (nonlinear_arith)
            requires
                i >= 1,
                !(dx == 0 && dy == 0),
        ;
        assert(cell(f1, px + dx * i, py + dy * i) == cell(f2, px + dx * i, py + dy * i) || !on_board(
            px + dx * i,
            py + dy * i,
        ));
        lemma_terminator_ignores_origin(f1, f2, px, py, dx, dy, c, i + 1);
    }
}

/// Boards that differ only at `p` give the same flips from `p`.
proof fn lemma_flips_ignore_origin(f1: Field, f2: Field, p: (usize, usize), c: DiscColor, n: nat)
    requires
        n <= 8,
        forall|x: int, y: int|
            on_board(x, y) && !(x == p.0 && y == p.1) ==> #[trigger] cell(f1, x, y) == cell(f2, x, y),
    ensures
        flips_through(f1, p, c, n) == flips_through(f2, p, c, n),
    decreases n,
{
    if n > 0 {
        lemma_flips_ignore_origin(f1, f2, p, c, (n - 1) as nat);
        lemma_terminator_ignores_origin(f1, f2, p.0 as int, p.1 as int, dir_x(n - 1), dir_y(n - 1), c, 1);
        assert(run_cells(f1, p, c, dir_x(n - 1), dir_y(n - 1)) =~= run_cells(
            f2,
            p,
            c,
            dir_x(n - 1),
            dir_y(n - 1),
        ));
    }
}

/// Applies one input event to the game state: the board, the cursor, the
/// quit flag and the active colour. Illegal placements are ignored.
pub fn input(
    key: Key,
    field: &mut Field,
    cursor: &mut (usize, usize),
    end: &mut bool,
    turn_color: &mut DiscColor,
)
    requires
        old(cursor).0 < 8,
        old(cursor).1 < 8,
    ensures
        *final(cursor) == moved_cursor(key, *old(cursor)),
        final(cursor).0 < 8,
        final(cursor).1 < 8,
        *final(end) == (*old(end) || key is Quit),
        key is Confirm && legal_move(*old(field), *old(cursor), *old(turn_color)) ==> {
            &&& forall|x: int, y: int|
                on_board(x, y) ==> #[trigger] cell(*final(field), x, y) == placed_cell(
                    *old(field),
                    *old(cursor),
                    *old(turn_color),
                    x,
                    y,
                )
            &&& *final(turn_color) == other(*old(turn_color))
        },
        !(key is Confirm && legal_move(*old(field), *old(cursor), *old(turn_color))) ==> {
            &&& *final(field) == *old(field)
            &&& *final(turn_color) == if key is Pass {
                other(*old(turn_color))
            } else {
                *old(turn_color)
            }
        },
{
    match key {
        Key::Quit => *end = true,
        Key::Pass => *turn_color = get_another_color(*turn_color),
        Key::Up => {
            if cursor.1 > 0 {
                cursor.1 -= 1;
            }
        },
        Key::Down => {
            if cursor.1 < 7 {
                cursor.1 += 1;
            }
        },
        Key::Left => {
            if cursor.0 > 0 {
                cursor.0 -= 1;
            }
        },
        Key::Right => {
            if cursor.0 < 7 {
                cursor.0 += 1;
            }
        },
        Key::Confirm => {
            if check_putable(field, cursor, *turn_color) {
                let ghost before = *field;
                field[cursor.1][cursor.0] = Masu::Putted(*turn_color);
                let ghost placed = *field;
                proof {
                    lemma_flips_ignore_origin(before, placed, *cursor, *turn_color, 8);
                }
                auto_reverse(field, *cursor, *turn_color);
                *turn_color = get_another_color(*turn_color);
            }
        },
        Key::Other => {},
    }
}

} // verus!
