//! The view of one cell of a board: reading it, turning its piece over, and
//! placing a piece on it with all that the placement captures.

use crate::board::{is_square, on_board, with_cell, Cell, Grid, Matrix};
use crate::capture::{
    captured_count, captured_in, flips, flips_within, holds, next_direction_reads_the_first_grid,
    next_direction_turns_its_run, placed, ray, ray_cells, ray_on_board_is_short, run_from,
    run_from_is_maximal, run_length, turned, turned_along, turning_nothing_changes_nothing,
    turning_the_next_cell,
};
use crate::coordinates::{Coordinates, CoordinatesWalker, Coords};
use crate::piece::Piece;
use crate::walker::{Walkable, Walker};
use crate::{Dir, Direction};
use std::ops::Not;
use vstd::prelude::*;

verus! {

/// Why a cell was not played on.
#[derive(Clone, Copy, Debug, PartialEq, Eq, Structural)]
pub enum PositionError {
    /// The cell is empty, so there is no piece to turn over.
    FlipError,
    /// The cell holds a piece already.
    PositionAlreadyOccupied,
}

impl PositionError {
    /// The text of this error's message, the same for both errors.
    pub open spec fn message(self) -> Seq<char> {
        "position could not be flipped"@
    }

    /// The message of this error.
    pub fn to_string(&self) -> (message: String)
        ensures
            message@ == self.message(),
    {
        "position could not be flipped".to_owned()
    }
}

/// A cell of a board of a given size, and a direction to leave it in. Its
/// steps stay on the board.
#[derive(Debug, Clone, Copy)]
pub struct PositionWalker {
    pub origin: Coords,
    pub size: usize,
    pub dir: Dir,
}

impl Walker for PositionWalker {
    type WItem = Coordinates;

    /// The cell `length` steps away, where it is a cell of the board: its
    /// row and its column are neither negative nor as large as the size.
    open spec fn step(&self, length: usize) -> Option<Coordinates> {
        match self.origin.moved(self.dir, length as int) {
            Some(coords) => if coords.row < self.size && coords.col < self.size {
                Some(coords)
            } else {
                None
            },
            None => None,
        }
    }

    fn walk(&self, length: usize) -> (item: Option<Coordinates>) {
        match CoordinatesWalker(self.origin, self.dir).walk(length) {
            Some(coords) => {
                if self.size > coords.row && self.size > coords.col {
                    Some(coords)
                } else {
                    None
                }
            },
            None => None,
        }
    }
}

/// A step of a position's walker gives a cell exactly where the ray reaches
/// a cell of the board, and gives that cell.
pub proof fn walker_follows_the_ray(grid: Grid, origin: Coords, dir: Dir, length: usize)
    requires
        grid.len() <= usize::MAX,
    ensures
        ({
            let walker = PositionWalker { origin, size: grid.len() as usize, dir };
            let at = ray(origin, dir, length as int);
            if on_board(grid, at.0, at.1) {
                walker.step(length) == Some(Coordinates { row: at.0 as usize, col: at.1 as usize })
            } else {
                walker.step(length) is None
            }
        }),
{
}

impl<'a> Walkable for Position<'a> {
    type WItem = Coordinates;

    type W = PositionWalker;

    open spec fn walker_of(&self, dir: Dir) -> PositionWalker {
        PositionWalker { origin: self.coords, size: self.matrix@.len() as usize, dir }
    }

    fn walker(&self, dir: Dir) -> (w: PositionWalker) {
        PositionWalker { origin: self.coords, size: self.matrix.size(), dir }
    }
}

/// Turns the piece on one cell of the storage over to the other colour, and
/// says whether there was a piece to turn. An empty cell stays empty.
fn turn_over(matrix: &mut Matrix, coords: Coords) -> (turned: bool)
    requires
        old(matrix).wf(),
        on_board(old(matrix)@, coords.row as int, coords.col as int),
    ensures
        final(matrix).wf(),
        match old(matrix)@[coords.row as int][coords.col as int] {
            Cell::Occupied(piece) => turned && final(matrix)@ == with_cell(
                old(matrix)@,
                coords.row as int,
                coords.col as int,
                Cell::Occupied(piece.opposite()),
            ),
            Cell::Empty => !turned && *final(matrix) == *old(matrix),
        },
{
    match matrix.read(coords).piece() {
        Some(piece) => {
            matrix.write(coords, Cell::Occupied(piece.not()));
            true
        },
        None => false,
    }
}

/// The view of one cell of a board. It holds the board's storage for as long
/// as it lives, so that whatever is done through it is done to the board.
#[derive(Debug)]
pub struct Position<'a> {
    pub matrix: &'a mut Matrix,
    pub coords: Coords,
}

impl<'a> Position<'a> {
    /// The board as this view sees it now.
    pub open spec fn grid(&self) -> Grid {
        self.matrix@
    }

    /// Whether the view is sound: the storage is, and the coordinates name one
    /// of its cells.
    pub open spec fn wf(&self) -> bool {
        self.matrix.wf() && on_board(self.matrix@, self.coords.row as int, self.coords.col as int)
    }

    /// What the viewed cell holds.
    pub open spec fn cell(&self) -> Cell {
        self.matrix@[self.coords.row as int][self.coords.col as int]
    }

    /// The view of the cell of `matrix` at `coords`, which must name one of
    /// its cells.
    pub fn new(matrix: &'a mut Matrix, coords: Coords) -> (position: Self)
        requires
            old(matrix).wf(),
            on_board(old(matrix)@, coords.row as int, coords.col as int),
        ensures
            position.wf(),
            position.coords == coords,
            position.grid() == old(matrix)@,
            *position.matrix == *old(matrix),
            *final(position.matrix) == *final(matrix),
    {
        Position { matrix, coords }
    }

    /// The piece on the viewed cell, if there is one.
    pub fn piece(&self) -> (piece: Option<Piece>)
        requires
            self.wf(),
        ensures
            piece == self.cell().content(),
    {
        self.matrix.read(self.coords).piece()
    }

    /// Whether the viewed cell holds a piece.
    pub fn occupied(&self) -> (occupied: bool)
        requires
            self.wf(),
        ensures
            occupied == (self.cell() != Cell::Empty),
    {
        self.piece().is_some()
    }

    /// Turns the piece on the viewed cell over to the other colour, and
    /// leaves every other cell as it was. An empty cell is refused, and the
    /// board is then left as it was.
    pub fn flip(self) -> (r: Result<Self, PositionError>)
        requires
            self.wf(),
        ensures
            match r {
                Ok(position) => {
                    &&& self.cell() matches Cell::Occupied(piece)
                    &&& position.wf()
                    &&& position.coords == self.coords
                    &&& position.grid() == with_cell(
                        self.grid(),
                        self.coords.row as int,
                        self.coords.col as int,
                        Cell::Occupied(piece.opposite()),
                    )
                    &&& *final(position.matrix) == *final(self.matrix)
                },
                Err(e) => {
                    &&& self.cell() == Cell::Empty
                    &&& e == PositionError::FlipError
                    &&& *final(self.matrix) == *old(self.matrix)
                },
            },
    {
        let mut this = self;
        if turn_over(this.matrix, this.coords) {
            Ok(this)
        } else {
            Err(PositionError::FlipError)
        }
    }

    /// Resolves one direction: finds the run of the other colour that starts
    /// next to the viewed cell, and turns it over to `piece` where a cell of
    /// `piece` follows it. Returns the cells it turned over, nearest first.
    pub fn solve_dir(&mut self, piece: Piece, dir: Dir) -> (run: Vec<Coords>)
        requires
            old(self).wf(),
        ensures
            final(self).wf(),
            final(self).coords == old(self).coords,
            *final(final(self).matrix) == *final(old(self).matrix),
            run@ == captured_in(old(self).grid(), old(self).coords, dir, piece),
            final(self).grid() == turned_along(
                old(self).grid(),
                old(self).coords,
                dir,
                piece,
                captured_count(old(self).grid(), old(self).coords, dir, piece) as int,
            ),
    {
        let ghost grid = self.grid();
        let ghost origin = self.coords;
        let walker = self.walker(dir);
        let size = self.matrix.size();
        let other = piece.not();
        let mut run: Vec<Coords> = Vec::new();
        let mut anchor = false;
        let mut k: usize = 1;
        proof {
            self.matrix.grid_is_square();
            assert(run@ =~= ray_cells(origin, dir, 0));
        }
        loop
            invariant_except_break
                1 <= k <= size,
                run@ == ray_cells(origin, dir, (k - 1) as nat),
                run_length(grid, origin, dir, piece) == (k - 1) + run_from(
                    grid,
                    origin,
                    dir,
                    piece,
                    k as nat,
                ),
            invariant
                self.wf(),
                self.grid() == grid,
                self.coords == origin,
                size == grid.len(),
                other == piece.opposite(),
                walker == (PositionWalker { origin, size, dir }),
                *final(self.matrix) == *final(old(self).matrix),
            ensures
                run@ == ray_cells(origin, dir, run_length(grid, origin, dir, piece)),
                anchor == holds(
                    grid,
                    ray(origin, dir, (run_length(grid, origin, dir, piece) + 1) as int),
                    piece,
                ),
            decreases size - k,
        {
            proof {
                walker_follows_the_ray(grid, origin, dir, k);
            }
            match walker.walk(k) {
                Some(coords) => {
                    proof {
                        ray_on_board_is_short(grid, origin, dir, k as int);
                    }
                    let cell = self.matrix.read(coords);
                    if cell == Cell::Occupied(other) {
                        proof {
                            assert(run@.push(coords) =~= ray_cells(origin, dir, k as nat));
                        }
                        run.push(coords);
                        k += 1;
                    } else {
                        anchor = cell == Cell::Occupied(piece);
                        break ;
                    }
                },
                None => {
                    anchor = false;
                    break ;
                },
            }
        }
        proof {
            turning_nothing_changes_nothing(grid, origin, dir, piece);
        }
        if !anchor || run.len() == 0 {
            proof {
                assert(ray_cells(origin, dir, 0) =~= Seq::<Coords>::empty());
            }
            return Vec::new();
        }
        let ghost count = run_length(grid, origin, dir, piece);
        proof {
            run_from_is_maximal(grid, origin, dir, piece, 1);
        }
        let mut i: usize = 0;
        while i < run.len()
            invariant
                i <= run.len() == count,
                grid.len() <= usize::MAX,
                count == run_length(grid, origin, dir, piece),
                run@ == ray_cells(origin, dir, count),
                self.matrix.wf(),
                self.coords == origin,
                on_board(grid, origin.row as int, origin.col as int),
                is_square(grid),
                self.grid() == turned_along(grid, origin, dir, piece, i as int),
                forall|j: int|
                    1 <= j <= count ==> holds(
                        grid,
                        #[trigger] ray(origin, dir, j),
                        piece.opposite(),
                    ),
                *final(self.matrix) == *final(old(self).matrix),
            decreases run.len() - i,
        {
            let coords = run[i];
            proof {
                let at = ray(origin, dir, i + 1);
                assert(holds(grid, at, piece.opposite()));
                assert(coords == ray_cells(origin, dir, count)[i as int]);
                assert(coords.row == at.0 && coords.col == at.1);
                turning_the_next_cell(grid, origin, dir, piece, i as int);
            }
            turn_over(self.matrix, coords);
            i += 1;
        }
        run
    }

    /// Resolves all eight directions, each one as `solve_dir` does and each
    /// one judged on the board as it was before the first. Returns the cells
    /// that were turned over, direction after direction.
    pub fn solve(&mut self, piece: Piece) -> (turned_over: Vec<Coords>)
        requires
            old(self).wf(),
        ensures
            final(self).wf(),
            final(self).coords == old(self).coords,
            *final(final(self).matrix) == *final(old(self).matrix),
            turned_over@ == flips(old(self).grid(), old(self).coords, piece),
            final(self).grid() == turned(old(self).grid(), old(self).coords, piece, 8),
    {
        let ghost grid = self.grid();
        let ghost origin = self.coords;
        let dirs = Direction::all();
        let mut turned_over: Vec<Coords> = Vec::new();
        let mut i: usize = 0;
        proof {
            self.matrix.grid_is_square();
            assert(self.grid() =~= turned(grid, origin, piece, 0)) by {
                assert forall|row: int| 0 <= row < grid.len() implies #[trigger] grid[row]
                    =~= turned(grid, origin, piece, 0)[row] by {}
            }
        }
        while i < 8
            invariant
                i <= 8,
                dirs@ == Direction::every(),
                self.wf(),
                self.coords == origin,
                on_board(grid, origin.row as int, origin.col as int),
                is_square(grid),
                self.grid() == turned(grid, origin, piece, i as int),
                turned_over@ == flips_within(grid, origin, piece, i as nat),
                *final(self.matrix) == *final(old(self).matrix),
            decreases 8 - i,
        {
            let dir = dirs[i];
            proof {
                Direction::every_is_complete(dir);
                next_direction_reads_the_first_grid(grid, origin, piece, i as int, dir);
            }
            let mut run = self.solve_dir(piece, dir);
            turned_over.append(&mut run);
            proof {
                next_direction_turns_its_run(grid, origin, piece, i as int, dir);
            }
            i += 1;
        }
        turned_over
    }

    /// Places `piece` on the viewed cell and turns over what the placement
    /// captures, in every direction and all judged on the board as it was
    /// before. Returns the view together with the captured cells, direction
    /// after direction and nearest first. A cell that holds a piece already
    /// is refused, and the board is then left as it was. A placement that
    /// captures nothing is accepted.
    pub fn capture(self, piece: Piece) -> (r: Result<(Self, Vec<Coords>), PositionError>)
        requires
            self.wf(),
        ensures
            match r {
                Ok((position, turned_over)) => {
                    &&& self.cell() == Cell::Empty
                    &&& position.wf()
                    &&& position.coords == self.coords
                    &&& position.grid() == placed(self.grid(), self.coords, piece)
                    &&& turned_over@ == flips(self.grid(), self.coords, piece)
                    &&& *final(position.matrix) == *final(self.matrix)
                },
                Err(e) => {
                    &&& self.cell() != Cell::Empty
                    &&& e == PositionError::PositionAlreadyOccupied
                    &&& *final(self.matrix) == *old(self.matrix)
                },
            },
    {
        if self.occupied() {
            return Err(PositionError::PositionAlreadyOccupied);
        }
        let ghost grid = self.grid();
        let ghost origin = self.coords;
        let mut this = self;
        let turned_over = this.solve(piece);
        this.matrix.write(this.coords, Cell::Occupied(piece));
        proof {
            let after = this.grid();
            let expected = placed(grid, origin, piece);
            assert forall|row: int| 0 <= row < grid.len() implies #[trigger] after[row]
                == expected[row] by {
                assert(after[row] =~= expected[row]);
            }
            assert(after =~= expected);
        }
        Ok((this, turned_over))
    }

    /// Places `piece` on the viewed cell, as `capture` does, and returns the
    /// view.
    pub fn place(self, piece: Piece) -> (r: Result<Self, PositionError>)
        requires
            self.wf(),
        ensures
            match r {
                Ok(position) => {
                    &&& self.cell() == Cell::Empty
                    &&& position.wf()
                    &&& position.coords == self.coords
                    &&& position.grid() == placed(self.grid(), self.coords, piece)
                    &&& *final(position.matrix) == *final(self.matrix)
                },
                Err(e) => {
                    &&& self.cell() != Cell::Empty
                    &&& e == PositionError::PositionAlreadyOccupied
                    &&& *final(self.matrix) == *old(self.matrix)
                },
            },
    {
        match self.capture(piece) {
            Ok((position, _)) => Ok(position),
            Err(e) => Err(e),
        }
    }
}

} // verus!
