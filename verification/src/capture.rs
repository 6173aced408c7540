//! What placing a piece captures, as mathematics.
//!
//! From the cell a piece is placed on, eight rays lead away. Along a ray the
//! run is the longest stretch of cells, starting next to the placed piece, that
//! all hold the other colour. The run is captured where the cell right after
//! it is on the board and holds the placed colour. Every ray is judged on the
//! board as it was before the piece was placed.

use crate::board::{is_square, on_board, with_cell, Cell, Grid};
use crate::coordinates::Coordinates;
use crate::piece::Piece;
use crate::Direction;
use vstd::prelude::*;

verus! {

/// The row and the column reached `k` steps from `origin` in direction `dir`.
/// Either may fall off the board.
pub open spec fn ray(origin: Coordinates, dir: Direction, k: int) -> (int, int) {
    (origin.row + dir.delta(k).0, origin.col + dir.delta(k).1)
}

/// Whether the row and column name a cell of the board that holds `piece`.
pub open spec fn holds(grid: Grid, at: (int, int), piece: Piece) -> bool {
    on_board(grid, at.0, at.1) && grid[at.0][at.1] == Cell::Occupied(piece)
}

/// How many cells in a row hold the colour opposite to `piece`, counted from
/// the cell `k` steps away and going outwards. No ray from a cell of the board
/// has a cell of the board as many steps away as the board has rows, so the
/// count stops there at the latest.
pub open spec fn run_from(
    grid: Grid,
    origin: Coordinates,
    dir: Direction,
    piece: Piece,
    k: nat,
) -> nat
    decreases grid.len() - k,
{
    if k < grid.len() && holds(grid, ray(origin, dir, k as int), piece.opposite()) {
        1 + run_from(grid, origin, dir, piece, k + 1)
    } else {
        0
    }
}

/// The length of the run in direction `dir`.
pub open spec fn run_length(grid: Grid, origin: Coordinates, dir: Direction, piece: Piece) -> nat {
    run_from(grid, origin, dir, piece, 1)
}

/// Whether the run in direction `dir` is captured: it is not empty, and the
/// cell right after it is on the board and holds `piece`.
pub open spec fn anchored(grid: Grid, origin: Coordinates, dir: Direction, piece: Piece) -> bool {
    run_length(grid, origin, dir, piece) > 0 && holds(
        grid,
        ray(origin, dir, (run_length(grid, origin, dir, piece) + 1) as int),
        piece,
    )
}

/// How many cells are captured in direction `dir`: the whole run where it is
/// captured, none where it is not.
pub open spec fn captured_count(
    grid: Grid,
    origin: Coordinates,
    dir: Direction,
    piece: Piece,
) -> nat {
    if anchored(grid, origin, dir, piece) {
        run_length(grid, origin, dir, piece)
    } else {
        0
    }
}

/// The first `n` cells of the ray in direction `dir`, nearest first.
pub open spec fn ray_cells(origin: Coordinates, dir: Direction, n: nat) -> Seq<Coordinates> {
    Seq::new(
        n,
        |i: int|
            Coordinates {
                row: ray(origin, dir, i + 1).0 as usize,
                col: ray(origin, dir, i + 1).1 as usize,
            },
    )
}

/// The cells captured in direction `dir`, nearest first.
pub open spec fn captured_in(
    grid: Grid,
    origin: Coordinates,
    dir: Direction,
    piece: Piece,
) -> Seq<Coordinates> {
    ray_cells(origin, dir, captured_count(grid, origin, dir, piece))
}

/// Whether the cell in the given row and column is one of the first `n` cells
/// of the ray in direction `dir`.
pub open spec fn on_ray_within(
    origin: Coordinates,
    dir: Direction,
    n: int,
    row: int,
    col: int,
) -> bool {
    exists|k: int| 1 <= k <= n && #[trigger] ray(origin, dir, k) == (row, col)
}

/// The grid with the first `n` cells of the ray in direction `dir` holding
/// `piece`, and every other cell as it was.
pub open spec fn turned_along(
    grid: Grid,
    origin: Coordinates,
    dir: Direction,
    piece: Piece,
    n: int,
) -> Grid {
    Seq::new(
        grid.len(),
        |row: int|
            Seq::new(
                grid.len(),
                |col: int|
                    if on_ray_within(origin, dir, n, row, col) {
                        Cell::Occupied(piece)
                    } else {
                        grid[row][col]
                    },
            ),
    )
}

/// Whether the cell in the given row and column is captured in one of the
/// first `n` directions of `Direction::every()`.
pub open spec fn captured_within(
    grid: Grid,
    origin: Coordinates,
    piece: Piece,
    n: int,
    row: int,
    col: int,
) -> bool {
    exists|dir: Direction, k: int|
        dir.ordinal() < n && 1 <= k <= captured_count(grid, origin, dir, piece) && #[trigger] ray(
            origin,
            dir,
            k,
        ) == (row, col)
}

/// Whether the cell in the given row and column is captured when `piece` is
/// placed on `origin`.
pub open spec fn is_captured(
    grid: Grid,
    origin: Coordinates,
    piece: Piece,
    row: int,
    col: int,
) -> bool {
    captured_within(grid, origin, piece, 8, row, col)
}

/// The grid after the captures in the first `n` directions: each captured
/// cell holds `piece`, every other cell is as it was.
pub open spec fn turned(grid: Grid, origin: Coordinates, piece: Piece, n: int) -> Grid {
    Seq::new(
        grid.len(),
        |row: int|
            Seq::new(
                grid.len(),
                |col: int|
                    if captured_within(grid, origin, piece, n, row, col) {
                        Cell::Occupied(piece)
                    } else {
                        grid[row][col]
                    },
            ),
    )
}

/// The grid after `piece` has been placed on `origin`: the cell itself and
/// every captured cell hold `piece`, every other cell is as it was.
pub open spec fn placed(grid: Grid, origin: Coordinates, piece: Piece) -> Grid {
    Seq::new(
        grid.len(),
        |row: int|
            Seq::new(
                grid.len(),
                |col: int|
                    if (row == origin.row && col == origin.col) || is_captured(
                        grid,
                        origin,
                        piece,
                        row,
                        col,
                    ) {
                        Cell::Occupied(piece)
                    } else {
                        grid[row][col]
                    },
            ),
    )
}

/// The cells captured in the first `n` directions of `Direction::every()`,
/// direction after direction and nearest first within each.
pub open spec fn flips_within(grid: Grid, origin: Coordinates, piece: Piece, n: nat) -> Seq<
    Coordinates,
>
    decreases n,
{
    if n == 0 || n > 8 {
        Seq::empty()
    } else {
        flips_within(grid, origin, piece, (n - 1) as nat) + captured_in(
            grid,
            origin,
            Direction::every()[n - 1],
            piece,
        )
    }
}

/// All the cells captured when `piece` is placed on `origin`.
pub open spec fn flips(grid: Grid, origin: Coordinates, piece: Piece) -> Seq<Coordinates> {
    flips_within(grid, origin, piece, 8)
}

/// Two rays from one cell never meet: a cell lies on one ray at most, and at
/// one distance only.
pub proof fn rays_are_disjoint(origin: Coordinates, d1: Direction, k1: int, d2: Direction, k2: int)
    requires
        k1 >= 1,
        k2 >= 1,
        ray(origin, d1, k1) == ray(origin, d2, k2),
    ensures
        d1 == d2,
        k1 == k2,
{
}

/// A ray does not come back to the cell it starts from.
pub proof fn ray_leaves_origin(origin: Coordinates, dir: Direction, k: int)
    requires
        k >= 1,
    ensures
        ray(origin, dir, k) != (origin.row as int, origin.col as int),
{
}

/// From a cell of the board, a cell of the board lies fewer steps away than
/// the board has rows.
pub proof fn ray_on_board_is_short(grid: Grid, origin: Coordinates, dir: Direction, k: int)
    requires
        on_board(grid, origin.row as int, origin.col as int),
        k >= 1,
        on_board(grid, ray(origin, dir, k).0, ray(origin, dir, k).1),
    ensures
        k < grid.len(),
{
}

/// The run counted from `k` covers exactly the next cells that hold the other
/// colour: all of them do, and the one after them does not.
pub proof fn run_from_is_maximal(
    grid: Grid,
    origin: Coordinates,
    dir: Direction,
    piece: Piece,
    k: nat,
)
    requires
        on_board(grid, origin.row as int, origin.col as int),
        k >= 1,
    ensures
        forall|j: int|
            k <= j < k + run_from(grid, origin, dir, piece, k) ==> holds(
                grid,
                #[trigger] ray(origin, dir, j),
                piece.opposite(),
            ),
        !holds(
            grid,
            ray(origin, dir, (k + run_from(grid, origin, dir, piece, k)) as int),
            piece.opposite(),
        ),
    decreases grid.len() - k,
{
    if k < grid.len() && holds(grid, ray(origin, dir, k as int), piece.opposite()) {
        run_from_is_maximal(grid, origin, dir, piece, k + 1);
    } else if holds(grid, ray(origin, dir, k as int), piece.opposite()) {
        ray_on_board_is_short(grid, origin, dir, k as int);
    }
}

/// Two grids of one size that agree along a ray have the same run on it.
pub proof fn run_from_reads_the_ray(
    g1: Grid,
    g2: Grid,
    origin: Coordinates,
    dir: Direction,
    piece: Piece,
    k: nat,
)
    requires
        g1.len() == g2.len(),
        k >= 1,
        forall|j: int|
            j >= 1 && on_board(g1, #[trigger] ray(origin, dir, j).0, ray(origin, dir, j).1)
                ==> g1[ray(origin, dir, j).0][ray(origin, dir, j).1] == g2[ray(
                origin,
                dir,
                j,
            ).0][ray(origin, dir, j).1],
    ensures
        run_from(g1, origin, dir, piece, k) == run_from(g2, origin, dir, piece, k),
    decreases g1.len() - k,
{
    if k < g1.len() {
        let at = ray(origin, dir, k as int);
        assert(holds(g1, at, piece.opposite()) == holds(g2, at, piece.opposite()));
        if holds(g1, at, piece.opposite()) {
            run_from_reads_the_ray(g1, g2, origin, dir, piece, k + 1);
        }
    }
}

/// Two grids of one size that agree along a ray capture the same cells on
/// it.
pub proof fn captured_count_reads_the_ray(
    g1: Grid,
    g2: Grid,
    origin: Coordinates,
    dir: Direction,
    piece: Piece,
)
    requires
        g1.len() == g2.len(),
        forall|j: int|
            j >= 1 && on_board(g1, #[trigger] ray(origin, dir, j).0, ray(origin, dir, j).1)
                ==> g1[ray(origin, dir, j).0][ray(origin, dir, j).1] == g2[ray(
                origin,
                dir,
                j,
            ).0][ray(origin, dir, j).1],
    ensures
        captured_count(g1, origin, dir, piece) == captured_count(g2, origin, dir, piece),
{
    run_from_reads_the_ray(g1, g2, origin, dir, piece, 1);
    let n = run_length(g1, origin, dir, piece);
    let at = ray(origin, dir, (n + 1) as int);
    assert(holds(g1, at, piece) == holds(g2, at, piece));
}

/// Turning over none of a ray's cells leaves the grid as it was.
pub proof fn turning_nothing_changes_nothing(
    grid: Grid,
    origin: Coordinates,
    dir: Direction,
    piece: Piece,
)
    requires
        is_square(grid),
    ensures
        turned_along(grid, origin, dir, piece, 0) == grid,
{
    let same = turned_along(grid, origin, dir, piece, 0);
    assert forall|row: int| 0 <= row < grid.len() implies #[trigger] same[row] == grid[row] by {
        assert(same[row] =~= grid[row]);
    }
    assert(same =~= grid);
}

/// Turning over the cell `n + 1` steps away, after the first `n` cells of the
/// ray, gives the grid with the first `n + 1` cells turned over; and that cell
/// is none of the first `n`, so it still holds what it held at the start.
pub proof fn turning_the_next_cell(
    grid: Grid,
    origin: Coordinates,
    dir: Direction,
    piece: Piece,
    n: int,
)
    requires
        is_square(grid),
        n >= 0,
        on_board(grid, ray(origin, dir, n + 1).0, ray(origin, dir, n + 1).1),
    ensures
        !on_ray_within(origin, dir, n, ray(origin, dir, n + 1).0, ray(origin, dir, n + 1).1),
        with_cell(
            turned_along(grid, origin, dir, piece, n),
            ray(origin, dir, n + 1).0,
            ray(origin, dir, n + 1).1,
            Cell::Occupied(piece),
        ) == turned_along(grid, origin, dir, piece, n + 1),
{
    let at = ray(origin, dir, n + 1);
    if on_ray_within(origin, dir, n, at.0, at.1) {
        let j = choose|j: int| 1 <= j <= n && #[trigger] ray(origin, dir, j) == at;
        rays_are_disjoint(origin, dir, j, dir, n + 1);
    }
    let after = with_cell(
        turned_along(grid, origin, dir, piece, n),
        at.0,
        at.1,
        Cell::Occupied(piece),
    );
    let expected = turned_along(grid, origin, dir, piece, n + 1);
    assert forall|row: int| 0 <= row < grid.len() implies #[trigger] after[row]
        == expected[row] by {
        assert forall|col: int| 0 <= col < grid.len() implies #[trigger] after[row][col]
            == expected[row][col] by {
            if (row, col) == at {
                assert(on_ray_within(origin, dir, n + 1, row, col));
            } else if on_ray_within(origin, dir, n + 1, row, col) {
                let j = choose|j: int|
                    1 <= j <= n + 1 && #[trigger] ray(origin, dir, j) == (row, col);
                assert(1 <= j <= n && ray(origin, dir, j) == (row, col));
            } else if on_ray_within(origin, dir, n, row, col) {
                let j = choose|j: int| 1 <= j <= n && #[trigger] ray(origin, dir, j) == (row, col);
                assert(1 <= j <= n + 1 && ray(origin, dir, j) == (row, col));
            }
        }
        assert(after[row] =~= expected[row]);
    }
    assert(after =~= expected);
}

/// After the captures of the first `n` directions, the ray of the next
/// direction still reads as it did at the start: what it captures is what it
/// captured then.
pub proof fn next_direction_reads_the_first_grid(
    grid: Grid,
    origin: Coordinates,
    piece: Piece,
    n: int,
    dir: Direction,
)
    requires
        is_square(grid),
        dir.ordinal() == n,
    ensures
        captured_count(turned(grid, origin, piece, n), origin, dir, piece) == captured_count(
            grid,
            origin,
            dir,
            piece,
        ),
{
    let now = turned(grid, origin, piece, n);
    assert forall|j: int|
        j >= 1 && on_board(now, #[trigger] ray(origin, dir, j).0, ray(origin, dir, j).1)
            implies now[ray(origin, dir, j).0][ray(origin, dir, j).1] == grid[ray(
        origin,
        dir,
        j,
    ).0][ray(origin, dir, j).1] by {
        let at = ray(origin, dir, j);
        if captured_within(grid, origin, piece, n, at.0, at.1) {
            let (d, k) = choose|d: Direction, k: int|
                d.ordinal() < n && 1 <= k <= captured_count(grid, origin, d, piece)
                    && #[trigger] ray(origin, d, k) == at;
            rays_are_disjoint(origin, d, k, dir, j);
        }
    }
    captured_count_reads_the_ray(now, grid, origin, dir, piece);
}

/// Turning over what one more direction captures leads from the grid after
/// `n` directions to the grid after `n + 1`.
pub proof fn next_direction_turns_its_run(
    grid: Grid,
    origin: Coordinates,
    piece: Piece,
    n: int,
    dir: Direction,
)
    requires
        is_square(grid),
        0 <= n < 8,
        dir.ordinal() == n,
        dir == Direction::every()[n],
    ensures
        turned_along(
            turned(grid, origin, piece, n),
            origin,
            dir,
            piece,
            captured_count(grid, origin, dir, piece) as int,
        ) == turned(grid, origin, piece, n + 1),
        flips_within(grid, origin, piece, n as nat) + captured_in(grid, origin, dir, piece)
            == flips_within(grid, origin, piece, (n + 1) as nat),
{
    let count = captured_count(grid, origin, dir, piece) as int;
    let now = turned(grid, origin, piece, n);
    let after = turned_along(now, origin, dir, piece, count);
    let expected = turned(grid, origin, piece, n + 1);
    assert forall|row: int| 0 <= row < grid.len() implies #[trigger] after[row]
        == expected[row] by {
        assert forall|col: int| 0 <= col < grid.len() implies #[trigger] after[row][col]
            == expected[row][col] by {
            if on_ray_within(origin, dir, count, row, col) {
                let k = choose|k: int|
                    1 <= k <= count && #[trigger] ray(origin, dir, k) == (row, col);
                assert(dir.ordinal() < n + 1 && 1 <= k <= captured_count(grid, origin, dir, piece)
                    && ray(origin, dir, k) == (row, col));
                assert(captured_within(grid, origin, piece, n + 1, row, col));
            } else if captured_within(grid, origin, piece, n, row, col) {
                let (d, k) = choose|d: Direction, k: int|
                    d.ordinal() < n && 1 <= k <= captured_count(grid, origin, d, piece)
                        && #[trigger] ray(origin, d, k) == (row, col);
                assert(d.ordinal() < n + 1 && 1 <= k <= captured_count(grid, origin, d, piece)
                    && ray(origin, d, k) == (row, col));
                assert(captured_within(grid, origin, piece, n + 1, row, col));
            } else if captured_within(grid, origin, piece, n + 1, row, col) {
                let (d, k) = choose|d: Direction, k: int|
                    d.ordinal() < n + 1 && 1 <= k <= captured_count(grid, origin, d, piece)
                        && #[trigger] ray(origin, d, k) == (row, col);
                if d.ordinal() < n {
                    assert(captured_within(grid, origin, piece, n, row, col));
                } else {
                    Direction::every_is_complete(d);
                    Direction::every_is_complete(dir);
                    assert(d == dir);
                    assert(on_ray_within(origin, dir, count, row, col));
                }
            }
        }
        assert(after[row] =~= expected[row]);
    }
    assert(after =~= expected);
}

/// Every captured cell is on the board, held the other colour before the
/// piece was placed, and is not the cell the piece is placed on.
pub proof fn captured_cells_held_the_other_colour(
    grid: Grid,
    origin: Coordinates,
    dir: Direction,
    piece: Piece,
    k: int,
)
    requires
        on_board(grid, origin.row as int, origin.col as int),
        1 <= k <= captured_count(grid, origin, dir, piece),
    ensures
        holds(grid, ray(origin, dir, k), piece.opposite()),
        ray(origin, dir, k) != (origin.row as int, origin.col as int),
{
    run_from_is_maximal(grid, origin, dir, piece, 1);
    ray_leaves_origin(origin, dir, k);
}

/// A run that ends at an empty cell or at the edge of the board is not
/// captured: where the cell after the run does not hold the placed colour,
/// nothing is captured in that direction.
pub proof fn unanchored_run_captures_nothing(
    grid: Grid,
    origin: Coordinates,
    dir: Direction,
    piece: Piece,
)
    requires
        !holds(grid, ray(origin, dir, (run_length(grid, origin, dir, piece) + 1) as int), piece),
    ensures
        captured_count(grid, origin, dir, piece) == 0,
        captured_in(grid, origin, dir, piece) =~= Seq::<Coordinates>::empty(),
{
}

/// One piece of the other colour next to the placed piece, followed by a cell
/// that is empty or off the board, is a run of one that nothing anchors: it
/// is not captured.
pub proof fn lone_neighbour_is_not_captured(
    grid: Grid,
    origin: Coordinates,
    dir: Direction,
    piece: Piece,
)
    requires
        on_board(grid, origin.row as int, origin.col as int),
        holds(grid, ray(origin, dir, 1), piece.opposite()),
        !on_board(grid, ray(origin, dir, 2).0, ray(origin, dir, 2).1) || grid[ray(
            origin,
            dir,
            2,
        ).0][ray(origin, dir, 2).1] == Cell::Empty,
    ensures
        run_length(grid, origin, dir, piece) == 1,
        captured_count(grid, origin, dir, piece) == 0,
{
    ray_on_board_is_short(grid, origin, dir, 1);
    assert(run_from(grid, origin, dir, piece, 2) == 0);
    assert(run_from(grid, origin, dir, piece, 1) == 1 + run_from(grid, origin, dir, piece, 2));
}

/// Where no direction captures anything, placing a piece changes the cell it
/// is placed on and nothing else, and reports no captured cell.
pub proof fn placing_without_capture_changes_one_cell(
    grid: Grid,
    origin: Coordinates,
    piece: Piece,
)
    requires
        is_square(grid),
        on_board(grid, origin.row as int, origin.col as int),
        forall|dir: Direction| #[trigger] captured_count(grid, origin, dir, piece) == 0,
    ensures
        placed(grid, origin, piece) == with_cell(
            grid,
            origin.row as int,
            origin.col as int,
            Cell::Occupied(piece),
        ),
        flips(grid, origin, piece) == Seq::<Coordinates>::empty(),
{
    let after = placed(grid, origin, piece);
    let expected = with_cell(
        grid,
        origin.row as int,
        origin.col as int,
        Cell::Occupied(piece),
    );
    assert forall|row: int| 0 <= row < grid.len() implies #[trigger] after[row]
        == expected[row] by {
        assert(after[row] =~= expected[row]);
    }
    assert(after =~= expected);
    no_capture_no_flips(grid, origin, piece, 8);
}

/// Where no direction captures anything, no cell is reported.
proof fn no_capture_no_flips(grid: Grid, origin: Coordinates, piece: Piece, n: nat)
    requires
        n <= 8,
        forall|dir: Direction| #[trigger] captured_count(grid, origin, dir, piece) == 0,
    ensures
        flips_within(grid, origin, piece, n) == Seq::<Coordinates>::empty(),
    decreases n,
{
    if n > 0 {
        no_capture_no_flips(grid, origin, piece, (n - 1) as nat);
        let dir = Direction::every()[n - 1];
        assert(captured_count(grid, origin, dir, piece) == 0);
        assert(flips_within(grid, origin, piece, n) =~= Seq::<Coordinates>::empty());
    }
}

/// The cells reported as captured in the first `n` directions are the cells
/// that are captured in them.
proof fn flips_within_are_the_captured_cells(
    grid: Grid,
    origin: Coordinates,
    piece: Piece,
    n: nat,
    cell: Coordinates,
)
    requires
        on_board(grid, origin.row as int, origin.col as int),
        grid.len() <= usize::MAX,
        n <= 8,
    ensures
        flips_within(grid, origin, piece, n).contains(cell) <==> captured_within(
            grid,
            origin,
            piece,
            n as int,
            cell.row as int,
            cell.col as int,
        ),
    decreases n,
{
    if n > 0 {
        flips_within_are_the_captured_cells(grid, origin, piece, (n - 1) as nat, cell);
        let dir = Direction::every()[n - 1];
        Direction::every_is_complete(dir);
        let head = flips_within(grid, origin, piece, (n - 1) as nat);
        let run = captured_in(grid, origin, dir, piece);
        let all = flips_within(grid, origin, piece, n);
        assert(all == head + run);
        if all.contains(cell) {
            let i = choose|i: int| 0 <= i < all.len() && all[i] == cell;
            if i < head.len() {
                assert(head[i] == cell);
                assert(head.contains(cell));
                let (d, k) = choose|d: Direction, k: int|
                    d.ordinal() < n - 1 && 1 <= k <= captured_count(grid, origin, d, piece)
                        && #[trigger] ray(origin, d, k) == (cell.row as int, cell.col as int);
                assert(d.ordinal() < n && 1 <= k <= captured_count(grid, origin, d, piece) && ray(
                    origin,
                    d,
                    k,
                ) == (cell.row as int, cell.col as int));
            } else {
                let k = i - head.len() + 1;
                assert(run[k - 1] == cell);
                captured_cells_held_the_other_colour(grid, origin, dir, piece, k);
                assert(dir.ordinal() < n && 1 <= k <= captured_count(grid, origin, dir, piece)
                    && ray(origin, dir, k) == (cell.row as int, cell.col as int));
            }
        }
        if captured_within(grid, origin, piece, n as int, cell.row as int, cell.col as int) {
            let (d, k) = choose|d: Direction, k: int|
                d.ordinal() < n && 1 <= k <= captured_count(grid, origin, d, piece)
                    && #[trigger] ray(origin, d, k) == (cell.row as int, cell.col as int);
            if d.ordinal() < n - 1 {
                assert(captured_within(
                    grid,
                    origin,
                    piece,
                    n - 1,
                    cell.row as int,
                    cell.col as int,
                ));
                let i = choose|i: int| 0 <= i < head.len() && head[i] == cell;
                assert(all[i] == cell);
            } else {
                Direction::every_is_complete(d);
                assert(d == dir);
                assert(run[k - 1] == cell);
                assert(all[head.len() + k - 1] == cell);
            }
        }
    }
}

/// The cells reported as captured are exactly the cells that are captured:
/// a cell stands in the report if and only if placing the piece turns it
/// over.
pub proof fn flips_are_the_captured_cells(
    grid: Grid,
    origin: Coordinates,
    piece: Piece,
    cell: Coordinates,
)
    requires
        on_board(grid, origin.row as int, origin.col as int),
        grid.len() <= usize::MAX,
    ensures
        flips(grid, origin, piece).contains(cell) <==> is_captured(
            grid,
            origin,
            piece,
            cell.row as int,
            cell.col as int,
        ),
{
    flips_within_are_the_captured_cells(grid, origin, piece, 8, cell);
}

/// Placing a piece never takes a piece off the board and never changes an
/// empty cell other than the one played on: every cell that changes held the
/// other colour and holds the placed colour afterwards.
pub proof fn placing_only_turns_the_other_colour(
    grid: Grid,
    origin: Coordinates,
    piece: Piece,
    row: int,
    col: int,
)
    requires
        is_square(grid),
        on_board(grid, origin.row as int, origin.col as int),
        on_board(grid, row, col),
        (row, col) != (origin.row as int, origin.col as int),
    ensures
        placed(grid, origin, piece)[row][col] != grid[row][col] ==> grid[row][col]
            == Cell::Occupied(piece.opposite()) && placed(grid, origin, piece)[row][col]
            == Cell::Occupied(piece),
{
    if is_captured(grid, origin, piece, row, col) {
        let (dir, k) = choose|dir: Direction, k: int|
            dir.ordinal() < 8 && 1 <= k <= captured_count(grid, origin, dir, piece)
                && #[trigger] ray(origin, dir, k) == (row, col);
        captured_cells_held_the_other_colour(grid, origin, dir, piece, k);
    }
}

} // verus!
