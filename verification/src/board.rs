//! The square board: what a cell holds, the storage of the cells, and the
//! board with its four starting pieces.

use crate::coordinates::{Coordinates, CoordinatesError, Coords};
use crate::notation::decimal;
use crate::piece::Piece;
use crate::position::Position;
use crate::text::push_decimal;
use vstd::prelude::*;
use vstd::string::StringExecFns;

verus! {

/// The character that stands for an empty cell in a serialized board.
pub const EMPTY_POSITION: char = ' ';

/// What a cell of the board holds.
#[derive(Debug, Clone, Copy, PartialEq, Eq, Structural)]
pub enum Cell {
    Empty,
    Occupied(Piece),
}

/// The board as mathematics: its rows from top to bottom, each row the cells
/// from left to right.
pub type Grid = Seq<Seq<Cell>>;

/// Whether a grid has as many cells in each row as it has rows.
pub open spec fn is_square(grid: Grid) -> bool {
    forall|row: int| 0 <= row < grid.len() ==> (#[trigger] grid[row]).len() == grid.len()
}

/// Whether a row and a column name a cell of the grid.
pub open spec fn on_board(grid: Grid, row: int, col: int) -> bool {
    0 <= row < grid.len() && 0 <= col < grid.len()
}

/// The grid of the given size with every cell empty.
pub open spec fn blank(size: nat) -> Grid {
    Seq::new(size, |row: int| Seq::new(size, |col: int| Cell::Empty))
}

/// The grid with one cell replaced.
pub open spec fn with_cell(grid: Grid, row: int, col: int, cell: Cell) -> Grid {
    grid.update(row, grid[row].update(col, cell))
}

/// The grid a game starts from: two pieces of each colour round the centre,
/// blue on the falling diagonal and red on the rising one, and nothing else.
pub open spec fn opening(size: nat) -> Grid {
    let half = (size / 2) as int;
    with_cell(
        with_cell(
            with_cell(
                with_cell(blank(size), half, half, Cell::Occupied(Piece::Blue)),
                half - 1,
                half - 1,
                Cell::Occupied(Piece::Blue),
            ),
            half - 1,
            half,
            Cell::Occupied(Piece::Red),
        ),
        half,
        half - 1,
        Cell::Occupied(Piece::Red),
    )
}

/// Whether a board may have this size: more than four, and even.
pub open spec fn valid_size(size: usize) -> bool {
    size > 4 && size % 2 == 0
}

impl Cell {
    /// The character that stands for this cell in a serialized board: a space
    /// for an empty cell, the colour's letter for a piece.
    pub open spec fn symbol(self) -> char {
        match self {
            Cell::Empty => ' ',
            Cell::Occupied(piece) => piece.letter(),
        }
    }

    /// The piece on this cell, if there is one.
    pub open spec fn content(self) -> Option<Piece> {
        match self {
            Cell::Empty => None,
            Cell::Occupied(piece) => Some(piece),
        }
    }

    /// The piece on this cell, if there is one.
    pub fn piece(self) -> (piece: Option<Piece>)
        ensures
            piece == self.content(),
    {
        match self {
            Cell::Empty => None,
            Cell::Occupied(piece) => Some(piece),
        }
    }

    /// The character that stands for this cell in a serialized board.
    pub fn to_char(self) -> (c: char)
        ensures
            c == self.symbol(),
    {
        match self {
            Cell::Empty => EMPTY_POSITION,
            Cell::Occupied(Piece::Blue) => 'B',
            Cell::Occupied(Piece::Red) => 'R',
        }
    }

    /// The cell that a character of a serialized board stands for. A
    /// character that stands for none is refused, with that character as the
    /// error's text.
    pub fn from_char(c: char) -> (r: Result<Cell, CoordinatesError>)
        ensures
            match r {
                Ok(cell) => cell.symbol() == c,
                Err(e) => c != ' ' && c != 'B' && c != 'R' && e.refused() == seq![c],
            },
    {
        if c == EMPTY_POSITION {
            Ok(Cell::Empty)
        } else if c == 'B' {
            Ok(Cell::Occupied(Piece::Blue))
        } else if c == 'R' {
            Ok(Cell::Occupied(Piece::Red))
        } else {
            let mut text = String::new();
            text.push(c);
            proof {
                assert(text@ =~= seq![c]);
            }
            Err(CoordinatesError::ParseError(text))
        }
    }
}

/// The storage of a board's cells: one flat run of cells, row after row.
#[derive(Debug)]
pub struct Matrix {
    size: usize,
    cells: Vec<Cell>,
}

impl View for Matrix {
    type V = Grid;

    closed spec fn view(&self) -> Grid {
        Seq::new(
            self.size as nat,
            |row: int| Seq::new(self.size as nat, |col: int| self.cells@[row * self.size + col]),
        )
    }
}

/// A cell's place in the flat run of cells falls inside the run.
proof fn index_in_range(size: int, row: int, col: int)
    requires
        0 <= row < size,
        0 <= col < size,
    ensures
        0 <= row * size + col < size * size,
{
    assert(row * size + col < size * size) by (nonlinear_arith)
        requires
            0 <= row < size,
            0 <= col < size,
    ;
    assert(0 <= row * size) by (nonlinear_arith)
        requires
            0 <= row,
            0 <= size,
    ;
}

/// Two cells have the same place in the flat run only if they are the same
/// cell.
proof fn index_is_injective(size: int, row: int, col: int, other_row: int, other_col: int)
    requires
        0 <= row < size,
        0 <= col < size,
        0 <= other_row < size,
        0 <= other_col < size,
        row * size + col == other_row * size + other_col,
    ensures
        row == other_row,
        col == other_col,
{
    if row < other_row {
        assert((row + 1) * size <= other_row * size) by (nonlinear_arith)
            requires
                row + 1 <= other_row,
                0 <= size,
        ;
        assert((row + 1) * size == row * size + size) by (nonlinear_arith);
    } else if other_row < row {
        assert((other_row + 1) * size <= row * size) by (nonlinear_arith)
            requires
                other_row + 1 <= row,
                0 <= size,
        ;
        assert((other_row + 1) * size == other_row * size + size) by (nonlinear_arith);
    }
}

impl Matrix {
    /// Whether the storage holds exactly the cells of a square.
    pub closed spec fn wf(&self) -> bool {
        self.cells.len() == self.size * self.size
    }

    /// The grid of a matrix has as many cells in each row as it has rows.
    pub proof fn grid_is_square(&self)
        ensures
            is_square(self@),
    {
    }

    /// The number of rows, which is also the number of columns.
    pub fn size(&self) -> (size: usize)
        ensures
            size == self@.len(),
    {
        self.size
    }

    /// A matrix of `size` rows and `size` columns, every cell empty. The
    /// number of cells has to fit in a `usize`.
    pub fn new(size: usize) -> (matrix: Self)
        requires
            size * size <= usize::MAX,
        ensures
            matrix.wf(),
            matrix@ == blank(size as nat),
    {
        let count: usize = size * size;
        let mut cells: Vec<Cell> = Vec::new();
        let mut i: usize = 0;
        while i < count
            invariant
                i <= count,
                cells.len() == i,
                forall|j: int| 0 <= j < i ==> cells@[j] == Cell::Empty,
            decreases count - i,
        {
            cells.push(Cell::Empty);
            i += 1;
        }
        let matrix = Matrix { size, cells };
        proof {
            assert forall|row: int| 0 <= row < size implies #[trigger] matrix@[row] == blank(
                size as nat,
            )[row] by {
                assert forall|col: int| 0 <= col < size implies #[trigger] matrix@[row][col]
                    == Cell::Empty by {
                    index_in_range(size as int, row, col);
                }
                assert(matrix@[row] =~= blank(size as nat)[row]);
            }
            assert(matrix@ =~= blank(size as nat));
        }
        matrix
    }

    /// Puts `cell` at `coords`, which must name a cell of this matrix, and
    /// leaves every other cell as it was.
    pub fn write(&mut self, coords: Coords, cell: Cell)
        requires
            old(self).wf(),
            on_board(old(self)@, coords.row as int, coords.col as int),
        ensures
            final(self).wf(),
            final(self)@ == with_cell(old(self)@, coords.row as int, coords.col as int, cell),
    {
        let size = self.size;
        proof {
            index_in_range(size as int, coords.row as int, coords.col as int);
        }
        let index = size * coords.row + coords.col;
        assert(index == coords.row * size + coords.col) by (nonlinear_arith)
            requires
                index == size * coords.row + coords.col,
        ;
        self.cells.set(index, cell);
        proof {
            let before = old(self)@;
            let after = self@;
            let expected = with_cell(before, coords.row as int, coords.col as int, cell);
            assert forall|row: int| 0 <= row < size implies #[trigger] after[row]
                == expected[row] by {
                assert forall|col: int| 0 <= col < size implies #[trigger] after[row][col]
                    == expected[row][col] by {
                    index_in_range(size as int, row, col);
                    if row * size + col == index {
                        index_is_injective(
                            size as int,
                            row,
                            col,
                            coords.row as int,
                            coords.col as int,
                        );
                    }
                }
                assert(after[row] =~= expected[row]);
            }
            assert(after =~= expected);
        }
    }

    /// What the cell at `coords` holds; `coords` must name a cell of this
    /// matrix.
    pub fn read(&self, coords: Coords) -> (cell: Cell)
        requires
            self.wf(),
            on_board(self@, coords.row as int, coords.col as int),
        ensures
            cell == self@[coords.row as int][coords.col as int],
    {
        let size = self.size;
        proof {
            index_in_range(size as int, coords.row as int, coords.col as int);
        }
        let index = size * coords.row + coords.col;
        assert(index == coords.row * size + coords.col) by (nonlinear_arith)
            requires
                index == size * coords.row + coords.col,
        ;
        self.cells[index]
    }
}

/// Why a board was not made, or a cell of it not handed out.
#[derive(Debug, Clone, Copy, PartialEq, Eq, Structural)]
pub enum BoardError {
    /// The coordinates name no cell of the board.
    InvalidPosition(Coords),
    /// The size is not more than four, or not even.
    InvalidBoardSize(usize),
}

impl BoardError {
    /// The text of this error's message.
    pub open spec fn message(self) -> Seq<char> {
        match self {
            BoardError::InvalidPosition(coords) => "Invalid position: "@ + coords.text(),
            BoardError::InvalidBoardSize(size) => "Invalid board size: "@ + decimal(size as nat)
                + ". The size must be a number greater than 4 and even."@,
        }
    }

    /// The message of this error.
    pub fn to_string(&self) -> (message: String)
        ensures
            message@ == self.message(),
    {
        match self {
            BoardError::InvalidPosition(coords) => {
                let mut message = "Invalid position: ".to_owned();
                let text = coords.to_string();
                message.append(text.as_str());
                message
            },
            BoardError::InvalidBoardSize(size) => {
                let mut message = "Invalid board size: ".to_owned();
                push_decimal(&mut message, *size as u128);
                message.append(". The size must be a number greater than 4 and even.");
                message
            },
        }
    }
}

/// A board of the game: a square of cells whose size is even and more than
/// four.
#[derive(Debug)]
pub struct Board {
    size: usize,
    matrix: Matrix,
}

impl View for Board {
    type V = Grid;

    closed spec fn view(&self) -> Grid {
        self.matrix@
    }
}

/// The characters of one row of a serialized board: one per cell, and a line
/// feed.
pub open spec fn row_text(row: Seq<Cell>) -> Seq<char> {
    Seq::new(row.len(), |col: int| row[col].symbol()).push('\n')
}

/// The characters of the first `rows` rows of a serialized board.
pub open spec fn rows_text(grid: Grid, rows: nat) -> Seq<char>
    decreases rows,
{
    if rows == 0 {
        Seq::empty()
    } else {
        rows_text(grid, (rows - 1) as nat) + row_text(grid[rows - 1])
    }
}

impl Board {
    /// Whether the board is sound: its storage holds a square of a size that
    /// a board may have.
    pub closed spec fn wf(&self) -> bool {
        &&& self.matrix.wf()
        &&& self.matrix@.len() == self.size
        &&& valid_size(self.size)
    }

    /// The grid of a sound board is a square of a valid size.
    pub proof fn grid_is_square(&self)
        requires
            self.wf(),
        ensures
            is_square(self@),
            self@.len() > 4,
            self@.len() % 2 == 0,
            self@.len() <= usize::MAX,
    {
        self.matrix.grid_is_square();
    }

    /// A board of the given size at the start of a game. A size of four or
    /// less, or an odd size, is refused. The number of cells has to fit in a
    /// `usize`.
    pub fn new(size: usize) -> (r: Result<Board, BoardError>)
        requires
            size * size <= usize::MAX,
        ensures
            match r {
                Ok(board) => valid_size(size) && board.wf() && board@ == opening(size as nat),
                Err(e) => !valid_size(size) && e == BoardError::InvalidBoardSize(size),
            },
    {
        if size <= 4 || (size % 2 == 1) {
            return Err(BoardError::InvalidBoardSize(size));
        }
        let mut data = Matrix::new(size);
        let half = size / 2;
        data.write(Coords::new(half, half), Cell::Occupied(Piece::Blue));
        data.write(Coords::new(half - 1, half - 1), Cell::Occupied(Piece::Blue));
        data.write(Coords::new(half - 1, half), Cell::Occupied(Piece::Red));
        data.write(Coords::new(half, half - 1), Cell::Occupied(Piece::Red));
        Ok(Board { size, matrix: data })
    }

    /// The number of rows, which is also the number of columns.
    pub fn size(&self) -> (size: usize)
        requires
            self.wf(),
        ensures
            size == self@.len(),
    {
        self.size
    }

    /// The cell view at `coords`, through which the cell can be read and
    /// played on. Coordinates whose row or column is not less than the size
    /// are refused. While the view lives the board is reached through it
    /// alone; what the view leaves behind is the board afterwards, and the
    /// board is sound afterwards exactly when the view leaves sound storage of
    /// the same size, as all its operations do.
    pub fn get(&mut self, coords: Coords) -> (r: Result<Position<'_>, BoardError>)
        requires
            old(self).wf(),
        ensures
            match r {
                Ok(position) => {
                    &&& on_board(old(self)@, coords.row as int, coords.col as int)
                    &&& position.wf()
                    &&& position.coords == coords
                    &&& position.grid() == old(self)@
                    &&& final(self)@ == final(position.matrix)@
                    &&& final(self).wf() <==> {
                        &&& final(position.matrix).wf()
                        &&& final(position.matrix)@.len() == old(self)@.len()
                    }
                },
                Err(e) => {
                    &&& !on_board(old(self)@, coords.row as int, coords.col as int)
                    &&& e == BoardError::InvalidPosition(coords)
                    &&& *final(self) == *old(self)
                },
            },
    {
        if self.size > coords.row && self.size > coords.col {
            return Ok(Position::new(&mut self.matrix, coords));
        }
        Err(BoardError::InvalidPosition(coords))
    }

    /// What the cell at `coords` holds, or the error of `get`.
    pub fn cell(&self, coords: Coords) -> (r: Result<Cell, BoardError>)
        requires
            self.wf(),
        ensures
            match r {
                Ok(cell) => on_board(self@, coords.row as int, coords.col as int) && cell
                    == self@[coords.row as int][coords.col as int],
                Err(e) => !on_board(self@, coords.row as int, coords.col as int) && e
                    == BoardError::InvalidPosition(coords),
            },
    {
        if self.size > coords.row && self.size > coords.col {
            return Ok(self.matrix.read(coords));
        }
        Err(BoardError::InvalidPosition(coords))
    }

    /// The board serialized row by row: for each row one character per cell,
    /// a space for an empty cell and the colour's letter for a piece, and a
    /// line feed after the row.
    pub fn to_string(&self) -> (text: String)
        requires
            self.wf(),
        ensures
            text@ == rows_text(self@, self@.len()),
    {
        let mut text = String::new();
        let size = self.size;
        let mut row: usize = 0;
        while row < size
            invariant
                self.wf(),
                size == self@.len(),
                row <= size,
                text@ == rows_text(self@, row as nat),
            decreases size - row,
        {
            let ghost before = text@;
            let mut col: usize = 0;
            while col < size
                invariant
                    self.wf(),
                    size == self@.len(),
                    row < size,
                    col <= size,
                    text@ == before + Seq::new(col as nat, |c: int| self@[row as int][c].symbol()),
                decreases size - col,
            {
                let cell = self.matrix.read(Coords::new(row, col));
                let ghost so_far = text@;
                text.push(cell.to_char());
                proof {
                    assert(text@ =~= before + Seq::new(
                        (col + 1) as nat,
                        |c: int| self@[row as int][c].symbol(),
                    ));
                }
                col += 1;
            }
            text.push('\n');
            proof {
                self.matrix.grid_is_square();
                assert(self@[row as int].len() == size);
                assert(text@ =~= before + row_text(self@[row as int]));
            }
            row += 1;
        }
        text
    }
}

/// On the board a game starts from, the four cells round the centre hold
/// blue, blue, red and red, and every other cell is empty.
pub proof fn opening_layout(size: nat, row: int, col: int)
    requires
        size >= 2,
        0 <= row < size,
        0 <= col < size,
    ensures
        is_square(opening(size)),
        opening(size).len() == size,
        opening(size)[row][col] == {
            let half = (size / 2) as int;
            if (row == half && col == half) || (row == half - 1 && col == half - 1) {
                Cell::Occupied(Piece::Blue)
            } else if (row == half - 1 && col == half) || (row == half && col == half - 1) {
                Cell::Occupied(Piece::Red)
            } else {
                Cell::Empty
            }
        },
{
}

} // verus!
