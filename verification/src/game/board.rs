//! The playing board: a square grid of pieces stored row by row.

use vstd::prelude::*;
use vstd::string::StringExecFns;

verus! {

/// Length of one row or column of the square grid.
pub const BOARD_SIZE: usize = 3;

/// Number of squares on the board.
pub const BOARD_CELLS: usize = 9;

/// What a square holds.
#[derive(Copy, Clone, Debug, PartialEq, Eq, Structural, Default)]
pub enum Piece {
    #[default]
    Empty,
    Naught,
    Cross,
}

impl Piece {
    /// The character a piece is drawn with.
    pub open spec fn spec_symbol(self) -> char {
        match self {
            Piece::Naught => 'O',
            Piece::Cross => 'X',
            Piece::Empty => ' ',
        }
    }

    /// The piece as text: `O`, `X` or a blank.
    pub fn as_str(&self) -> (text: &'static str)
        ensures
            text@ == seq![self.spec_symbol()],
    {
        proof {
            reveal_strlit("O");
            reveal_strlit("X");
            reveal_strlit(" ");
        }
        let text = match self {
            Piece::Naught => "O",
            Piece::Cross => "X",
            Piece::Empty => " ",
        };
        assert(text@ =~= seq![self.spec_symbol()]);
        text
    }

    /// The character a piece is drawn with: `O`, `X` or a blank.
    pub fn symbol(&self) -> (c: char)
        ensures
            c == self.spec_symbol(),
    {
        match self {
            Piece::Naught => 'O',
            Piece::Cross => 'X',
            Piece::Empty => ' ',
        }
    }
}

/// Basic board structure, a 3x3 grid.
#[derive(Clone, Copy, Debug)]
pub struct Board(pub [Piece; 9]);

impl View for Board {
    type V = Seq<Piece>;

    open spec fn view(&self) -> Seq<Piece> {
        self.0@
    }
}

/// Index of the square in column `x` of row `y`.
pub open spec fn square_index(x: int, y: int) -> int {
    x + y * 3
}

/// The first row of the board as text, one piece per line.
pub open spec fn first_row_text(squares: Seq<Piece>) -> Seq<char> {
    seq![
        squares[0].spec_symbol(),
        '\n',
        squares[1].spec_symbol(),
        '\n',
        squares[2].spec_symbol(),
        '\n',
    ]
}

impl Board {
    /// The text that the board is shown as when it is logged: the pieces
    /// of the first row, each on a line of its own.
    pub fn to_text(&self) -> (text: String)
        ensures
            text@ == first_row_text(self@),
    {
        proof {
            reveal_strlit("\n");
        }
        let text = String::new().concat(self.0[0].as_str()).concat("\n").concat(
            self.0[1].as_str(),
        ).concat("\n").concat(self.0[2].as_str()).concat("\n");
        assert(text@ =~= first_row_text(self@));
        text
    }

    /// Create a new empty board.
    pub fn new() -> (board: Board)
        ensures
            board@.len() == 9,
            forall|i: int| 0 <= i < 9 ==> board@[i] == Piece::Empty,
    {
        Board([Piece::Empty; 9])
    }

    /// Get the piece in a particular square.
    pub fn get(&self, x: usize, y: usize) -> (piece: Piece)
        requires
            0 <= square_index(x as int, y as int) < 9,
        ensures
            piece == self@[square_index(x as int, y as int)],
    {
        self.0[x + y * BOARD_SIZE]
    }

    /// Set the piece in a particular square; every other square is unchanged.
    pub fn set(&mut self, x: usize, y: usize, piece: Piece)
        requires
            0 <= square_index(x as int, y as int) < 9,
        ensures
            final(self)@ == old(self)@.update(square_index(x as int, y as int), piece),
    {
        self.0[x + y * BOARD_SIZE] = piece;
    }
}

} // verus!
