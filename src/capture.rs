use vstd::prelude::*;
use crate::board::{cell, on_board, other, DiscColor, Field, Masu};

verus! {

/// Column step of the `k`-th of the eight scan directions.
pub open spec fn dir_x(k: int) -> int {
    if k <= 2 {
        -1
    } else if k <= 4 {
        0
    } else {
        1
    }
}

/// Row step of the `k`-th of the eight scan directions.
pub open spec fn dir_y(k: int) -> int {
    if k == 0 || k == 3 || k == 5 {
        -1
    } else if k == 1 || k == 6 {
        0
    } else {
        1
    }
}

/// A unit step in one of the eight compass directions.
pub open spec fn is_direction(dx: int, dy: int) -> bool {
    -1 <= dx <= 1 && -1 <= dy <= 1 && !(dx == 0 && dy == 0)
}

/// Walking from `(px, py)` in direction `(dx, dy)`, starting at step `i`:
/// the step at which a disc of colour `c` is met after an unbroken line of
/// opposing discs, or 0 if the walk first meets an empty cell or the edge.
pub open spec fn terminator(f: Field, px: int, py: int, dx: int, dy: int, c: DiscColor, i: int) -> int
    decreases 8 - i,
{
    if i < 1 || i >= 8 {
        0
    } else {
        let x = px + dx * i;
        let y = py + dy * i;
        if !on_board(x, y) {
            0
        } else {
            match cell(f, x, y) {
                Masu::Empty => 0,
                Masu::Putted(k) => if k == c {
                    i
                } else {
                    terminator(f, px, py, dx, dy, c, i + 1)
                },
            }
        }
    }
}

/// How many opposing discs a disc of colour `c` at `p` captures in
/// direction `(dx, dy)`.
pub open spec fn run_len(f: Field, p: (usize, usize), c: DiscColor, dx: int, dy: int) -> nat {
    let t = terminator(f, p.0 as int, p.1 as int, dx, dy, c, 1);
    if t == 0 {
        0
    } else {
        (t - 1) as nat
    }
}

/// The cells captured in direction `(dx, dy)`, nearest first.
pub open spec fn run_cells(f: Field, p: (usize, usize), c: DiscColor, dx: int, dy: int) -> Seq<(usize, usize)> {
    Seq::new(
        run_len(f, p, c, dx, dy),
        |j: int| ((p.0 + dx * (j + 1)) as usize, (p.1 + dy * (j + 1)) as usize),
    )
}

/// The cells captured in the first `n` scan directions, in direction order.
pub open spec fn flips_through(f: Field, p: (usize, usize), c: DiscColor, n: nat) -> Seq<(usize, usize)>
    decreases n,
{
    if n == 0 {
        Seq::empty()
    } else {
        flips_through(f, p, c, (n - 1) as nat) + run_cells(f, p, c, dir_x(n - 1), dir_y(n - 1))
    }
}

/// Every cell that a disc of colour `c` placed at `p` flips.
pub open spec fn flips(f: Field, p: (usize, usize), c: DiscColor) -> Seq<(usize, usize)> {
    flips_through(f, p, c, 8)
}

/// A walk that succeeds ends on a disc of its own colour, on the board, and
/// every cell it crossed before that holds an opposing disc.
proof fn lemma_terminator_shape(f: Field, px: int, py: int, dx: int, dy: int, c: DiscColor, i: int)
    requires
        i >= 1,
        terminator(f, px, py, dx, dy, c, i) != 0,
    ensures
        ({
            let t = terminator(f, px, py, dx, dy, c, i);
            &&& i <= t < 8
            &&& on_board(px + dx * t, py + dy * t)
            &&& cell(f, px + dx * t, py + dy * t) == Masu::Putted(c)
            &&& forall|m: int|
                i <= m < t ==> on_board(px + dx * m, py + dy * m) && #[trigger] cell(
                    f,
                    px + dx * m,
                    py + dy * m,
                ) == Masu::Putted(other(c))
        }),
    decreases 8 - i,
{
    let x = px + dx * i;
    let y = py + dy * i;
    if let Masu::Putted(k) = cell(f, x, y) {
        if k != c {
            lemma_terminator_shape(f, px, py, dx, dy, c, i + 1);
            match c {
                DiscColor::Black => assert(k == DiscColor::White),
                DiscColor::White => assert(k == DiscColor::Black),
            }
        }
    }
}

/// A capture run is bounded by the nearest disc of the mover's colour:
/// the `run_len` cells after `p` all hold opposing discs, and the cell
/// right after them holds a disc of colour `c`. A direction that captures
/// nothing has no such run.
pub proof fn lemma_run_is_bounded_by_nearest_terminator(
    f: Field,
    p: (usize, usize),
    c: DiscColor,
    dx: int,
    dy: int,
)
    requires
        run_len(f, p, c, dx, dy) > 0,
    ensures
        ({
            let n = run_len(f, p, c, dx, dy) as int;
            &&& forall|m: int|
                1 <= m <= n ==> on_board(p.0 + dx * m, p.1 + dy * m) && #[trigger] cell(
                    f,
                    p.0 + dx * m,
                    p.1 + dy * m,
                ) == Masu::Putted(other(c))
            &&& on_board(p.0 + dx * (n + 1), p.1 + dy * (n + 1))
            &&& cell(f, p.0 + dx * (n + 1), p.1 + dy * (n + 1)) == Masu::Putted(c)
        }),
{
    lemma_terminator_shape(f, p.0 as int, p.1 as int, dx, dy, c, 1);
}

/// A direction whose first cell is empty or off the board captures nothing,
/// whatever lies beyond it.
pub proof fn lemma_blocked_direction_captures_nothing(
    f: Field,
    p: (usize, usize),
    c: DiscColor,
    dx: int,
    dy: int,
)
    requires
        !on_board(p.0 + dx, p.1 + dy) || cell(f, p.0 + dx, p.1 + dy) == Masu::Empty,
    ensures
        run_len(f, p, c, dx, dy) == 0,
        run_cells(f, p, c, dx, dy).len() == 0,
{
    assert(dx * 1 == dx && dy * 1 == dy);
}

/// Every cell of a capture run lies on the board.
proof fn lemma_run_cells_on_board(f: Field, p: (usize, usize), c: DiscColor, dx: int, dy: int)
    ensures
        forall|j: int|
            0 <= j < run_cells(f, p, c, dx, dy).len() ==> {
                let q = #[trigger] run_cells(f, p, c, dx, dy)[j];
                q.0 < 8 && q.1 < 8 && q.0 == p.0 + dx * (j + 1) && q.1 == p.1 + dy * (j + 1)
            },
{
    if run_len(f, p, c, dx, dy) > 0 {
        lemma_run_is_bounded_by_nearest_terminator(f, p, c, dx, dy);
        assert forall|j: int| 0 <= j < run_cells(f, p, c, dx, dy).len() implies {
            let q = #[trigger] run_cells(f, p, c, dx, dy)[j];
            q.0 < 8 && q.1 < 8 && q.0 == p.0 + dx * (j + 1) && q.1 == p.1 + dy * (j + 1)
        } by {
            let m = j + 1;
            assert(on_board(p.0 + dx * m, p.1 + dy * m) && cell(f, p.0 + dx * m, p.1 + dy * m)
                == Masu::Putted(other(c)));
        }
    }
}

/// Every flipped cell lies on the board.
proof fn lemma_flips_through_on_board(f: Field, p: (usize, usize), c: DiscColor, n: nat)
    ensures
        forall|j: int|
            0 <= j < flips_through(f, p, c, n).len() ==> (#[trigger] flips_through(f, p, c, n)[j]).0 < 8
                && flips_through(f, p, c, n)[j].1 < 8,
    decreases n,
{
    if n > 0 {
        lemma_flips_through_on_board(f, p, c, (n - 1) as nat);
        lemma_run_cells_on_board(f, p, c, dir_x(n - 1), dir_y(n - 1));
        let a = flips_through(f, p, c, (n - 1) as nat);
        let b = run_cells(f, p, c, dir_x(n - 1), dir_y(n - 1));
        assert forall|j: int| 0 <= j < (a + b).len() implies (#[trigger] (a + b)[j]).0 < 8 && (a
            + b)[j].1 < 8 by {
            if j >= a.len() {
                assert((a + b)[j] == b[j - a.len()]);
            }
        }
    }
}

/// Some of the first `n` directions capture exactly when the flip list
/// gathered from them is not empty.
proof fn lemma_flips_through_nonempty(f: Field, p: (usize, usize), c: DiscColor, n: nat)
    requires
        n <= 8,
    ensures
        flips_through(f, p, c, n).len() > 0 <==> exists|k: int|
            0 <= k < n && #[trigger] run_len(f, p, c, dir_x(k), dir_y(k)) > 0,
    decreases n,
{
    if n > 0 {
        lemma_flips_through_nonempty(f, p, c, (n - 1) as nat);
        if run_len(f, p, c, dir_x(n - 1), dir_y(n - 1)) > 0 {
            assert(run_len(f, p, c, dir_x(n - 1), dir_y(n - 1)) > 0);
        }
    }
}

/// The `k`-th scan direction.
fn direction(k: usize) -> (d: (i64, i64))
    requires
        k < 8,
    ensures
        d.0 == dir_x(k as int),
        d.1 == dir_y(k as int),
{
    match k {
        0 => (-1, -1),
        1 => (-1, 0),
        2 => (-1, 1),
        3 => (0, -1),
        4 => (0, 1),
        5 => (1, -1),
        6 => (1, 0),
        _ => (1, 1),
    }
}

/// Length of the run of opposing discs that a disc of colour `color` at
/// `point` captures in direction `(dx, dy)`.
pub fn capture_run(field: &Field, point: &(usize, usize), color: DiscColor, dx: i64, dy: i64) -> (n: usize)
    requires
        point.0 < 8,
        point.1 < 8,
        is_direction(dx as int, dy as int),
    ensures
        n == run_len(*field, *point, color, dx as int, dy as int),
        n < 8,
{
    let mut i: i64 = 1;
    loop
        invariant
            1 <= i <= 8,
            point.0 < 8,
            point.1 < 8,
            is_direction(dx as int, dy as int),
            terminator(*field, point.0 as int, point.1 as int, dx as int, dy as int, color, 1)
                == terminator(*field, point.0 as int, point.1 as int, dx as int, dy as int, color, i as int),
        decreases 8 - i,
    {
        if i >= 8 {
            return 0;
        }
        assert(-8 <= dx * i <= 8 && -8 <= dy * i <= 8) by (nonlinear_arith)
            requires
                -1 <= dx <= 1,
                -1 <= dy <= 1,
                1 <= i < 8,
        ;
        let x = point.0 as i64 + dx * i;
        let y = point.1 as i64 + dy * i;
        if x < 0 || x > 7 || y < 0 || y > 7 {
            return 0;
        }
        match field[y as usize][x as usize] {
            Masu::Empty => {
                return 0;
            },
            Masu::Putted(k) => {
                if k == color {
                    return (i - 1) as usize;
                }
            },
        }
        i += 1;
    }
}

/// Every cell that a disc of colour `color` placed at `point` would flip:
/// for each of the eight directions in turn, the opposing discs between
/// `point` and the nearest disc of `color`, nearest first. The board is only
/// read, so the answer depends on the board, point and colour alone.
pub fn get_reversable_masu(field: &Field, point: &(usize, usize), color: DiscColor) -> (r: Vec<(usize, usize)>)
    requires
        point.0 < 8,
        point.1 < 8,
    ensures
        r@ == flips(*field, *point, color),
{
    let mut result: Vec<(usize, usize)> = Vec::new();
    let mut k: usize = 0;
    while k < 8
        invariant
            k <= 8,
            point.0 < 8,
            point.1 < 8,
            result@ == flips_through(*field, *point, color, k as nat),
        decreases 8 - k,
    {
        let (dx, dy) = direction(k);
        let n = capture_run(field, point, color, dx, dy);
        let ghost before = result@;
        let ghost run = run_cells(*field, *point, color, dx as int, dy as int);
        let mut j: i64 = 1;
        while j <= n as i64
            invariant
                1 <= j <= n + 1,
                n < 8,
                point.0 < 8,
                point.1 < 8,
                -1 <= dx <= 1,
                -1 <= dy <= 1,
                run.len() == n,
                run == run_cells(*field, *point, color, dx as int, dy as int),
                result@ == before + run.take(j - 1),
            decreases n + 1 - j,
        {
            assert(-8 <= dx * j <= 8 && -8 <= dy * j <= 8) by (nonlinear_arith)
                requires
                    -1 <= dx <= 1,
                    -1 <= dy <= 1,
                    1 <= j <= 8,
            ;
            let x = point.0 as i64 + dx * j;
            let y = point.1 as i64 + dy * j;
            result.push((x as usize, y as usize));
            assert(run.take(j as int) =~= run.take(j - 1).push(run[j - 1]));
            j += 1;
        }
        assert(run.take(n as int) =~= run);
        k += 1;
    }
    result
}

/// A disc of colour `c` may be placed at `p`: the cell is empty and at
/// least one direction captures.
pub open spec fn legal_move(f: Field, p: (usize, usize), c: DiscColor) -> bool {
    &&& cell(f, p.0 as int, p.1 as int) == Masu::Empty
    &&& exists|k: int| 0 <= k < 8 && #[trigger] run_len(f, p, c, dir_x(k), dir_y(k)) > 0
}

/// The cell at `(x, y)` once the captures of colour `c` at `p` are flipped.
pub open spec fn captured_cell(f: Field, p: (usize, usize), c: DiscColor, x: int, y: int) -> Masu {
    if flips(f, p, c).contains((x as usize, y as usize)) {
        Masu::Putted(c)
    } else {
        cell(f, x, y)
    }
}

/// Whether a disc of colour `turn_color` may be placed at `point`.
pub fn check_putable(field: &Field, point: &(usize, usize), turn_color: DiscColor) -> (r: bool)
    requires
        point.0 < 8,
        point.1 < 8,
    ensures
        r == legal_move(*field, *point, turn_color),
        cell(*field, point.0 as int, point.1 as int) != Masu::Empty ==> !r,
{
    if field[point.1][point.0] != Masu::Empty {
        return false;
    }
    proof {
        lemma_flips_through_nonempty(*field, *point, turn_color, 8);
    }
    if get_reversable_masu(field, point, turn_color).len() == 0 {
        return false;
    }
    return true;
}

/// Flips to `turn_color` every disc that a disc of that colour at `point`
/// captures; every other cell keeps its value.
pub fn auto_reverse(field: &mut Field, point: (usize, usize), turn_color: DiscColor)
    requires
        point.0 < 8,
        point.1 < 8,
    ensures
        forall|x: int, y: int|
            on_board(x, y) ==> #[trigger] cell(*final(field), x, y) == captured_cell(
                *old(field),
                point,
                turn_color,
                x,
                y,
            ),
{
    let ghost start = *field;
    let targets = get_reversable_masu(field, &point, turn_color);
    proof {
        lemma_flips_through_on_board(start, point, turn_color, 8);
    }
    let mut i: usize = 0;
    while i < targets.len()
        invariant
            i <= targets.len(),
            targets@ == flips(start, point, turn_color),
            forall|j: int| 0 <= j < targets@.len() ==> (#[trigger] targets@[j]).0 < 8 && targets@[j].1 < 8,
            forall|x: int, y: int|
                on_board(x, y) ==> #[trigger] cell(*field, x, y) == if targets@.take(i as int).contains(
                    (x as usize, y as usize),
                ) {
                    Masu::Putted(turn_color)
                } else {
                    cell(start, x, y)
                },
        decreases targets.len() - i,
    {
        let (x, y) = targets[i];
        let ghost prev = *field;
        field[y][x] = Masu::Putted(turn_color);
        proof {
            let done = targets@.take(i as int);
            assert(targets@.take(i + 1) =~= done.push((x, y)));
            assert forall|a: int, b: int| on_board(a, b) implies #[trigger] cell(*field, a, b) == if done.push((x, y)).contains(
                (a as usize, b as usize),
            ) {
                Masu::Putted(turn_color)
            } else {
                cell(start, a, b)
            } by {
                vstd::seq_lib::lemma_seq_contains_after_push(done, (x, y), (a as usize, b as usize));
                if a != x || b != y {
                    assert(cell(*field, a, b) == cell(prev, a, b));
                }
            }
        }
        i += 1;
    }
    assert(targets@.take(targets@.len() as int) =~= targets@);
}

} // verus!
