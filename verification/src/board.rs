//! Squares, pieces, moves and the other plain values a game is made of.

use vstd::prelude::*;

verus! {

/// The side a piece belongs to, and the side whose turn it is.
#[derive(Clone, Copy, Debug, PartialEq, Eq, Structural)]
pub enum Color {
    White,
    Black,
}

impl Color {
    /// The other side.
    pub open spec fn spec_opposite(self) -> Color {
        match self {
            Color::White => Color::Black,
            Color::Black => Color::White,
        }
    }

    /// The other side.
    #[verifier::when_used_as_spec(spec_opposite)]
    pub fn opposite(self) -> (other: Color)
        ensures
            other == self.spec_opposite(),
    {
        match self {
            Color::White => Color::Black,
            Color::Black => Color::White,
        }
    }
}

/// What kind of piece stands on a square. A pawn carries a flag that is set
/// while it can be taken en passant, that is right after its double step.
#[derive(Clone, Copy, Debug, PartialEq, Eq, Structural)]
pub enum PieceTypes {
    Pawn(bool),
    Knight,
    Bishop,
    Rook,
    Queen,
    King,
}

/// A piece on the board.
#[derive(Clone, Copy, Debug, PartialEq, Eq, Structural)]
pub struct Piece {
    pub piece: PieceTypes,
    pub color: Color,
}

/// A column of the board, `A` being column 0.
#[derive(Clone, Copy, Debug, PartialEq, Eq, Structural)]
pub enum File {
    A,
    B,
    C,
    D,
    E,
    F,
    G,
    H,
}

/// A row of the board, `R1` being row 0, where White's pieces start.
#[derive(Clone, Copy, Debug, PartialEq, Eq, Structural)]
pub enum Rank {
    R1,
    R2,
    R3,
    R4,
    R5,
    R6,
    R7,
    R8,
}

impl File {
    /// The column's number, 0 to 7.
    pub open spec fn spec_index(self) -> int {
        match self {
            File::A => 0,
            File::B => 1,
            File::C => 2,
            File::D => 3,
            File::E => 4,
            File::F => 5,
            File::G => 6,
            File::H => 7,
        }
    }

    /// The column with the given number, if there is one.
    pub open spec fn spec_from_index(index: int) -> Option<File> {
        if index == 0 {
            Some(File::A)
        } else if index == 1 {
            Some(File::B)
        } else if index == 2 {
            Some(File::C)
        } else if index == 3 {
            Some(File::D)
        } else if index == 4 {
            Some(File::E)
        } else if index == 5 {
            Some(File::F)
        } else if index == 6 {
            Some(File::G)
        } else if index == 7 {
            Some(File::H)
        } else {
            None
        }
    }

    /// The column's number, 0 to 7.
    pub fn index(self) -> (index: usize)
        ensures
            index == self.spec_index(),
            index < 8,
    {
        match self {
            File::A => 0,
            File::B => 1,
            File::C => 2,
            File::D => 3,
            File::E => 4,
            File::F => 5,
            File::G => 6,
            File::H => 7,
        }
    }

    /// The column with the given number; `None` for a number above 7.
    pub fn from_index(index: usize) -> (file: Option<File>)
        ensures
            file == File::spec_from_index(index as int),
            file is Some <==> index < 8,
            file matches Some(f) ==> f.spec_index() == index,
    {
        match index {
            0 => Some(File::A),
            1 => Some(File::B),
            2 => Some(File::C),
            3 => Some(File::D),
            4 => Some(File::E),
            5 => Some(File::F),
            6 => Some(File::G),
            7 => Some(File::H),
            _ => None,
        }
    }
}

impl Rank {
    /// The row's number, 0 to 7.
    pub open spec fn spec_index(self) -> int {
        match self {
            Rank::R1 => 0,
            Rank::R2 => 1,
            Rank::R3 => 2,
            Rank::R4 => 3,
            Rank::R5 => 4,
            Rank::R6 => 5,
            Rank::R7 => 6,
            Rank::R8 => 7,
        }
    }

    /// The row with the given number, if there is one.
    pub open spec fn spec_from_index(index: int) -> Option<Rank> {
        if index == 0 {
            Some(Rank::R1)
        } else if index == 1 {
            Some(Rank::R2)
        } else if index == 2 {
            Some(Rank::R3)
        } else if index == 3 {
            Some(Rank::R4)
        } else if index == 4 {
            Some(Rank::R5)
        } else if index == 5 {
            Some(Rank::R6)
        } else if index == 6 {
            Some(Rank::R7)
        } else if index == 7 {
            Some(Rank::R8)
        } else {
            None
        }
    }

    /// The row's number, 0 to 7.
    pub fn index(self) -> (index: usize)
        ensures
            index == self.spec_index(),
            index < 8,
    {
        match self {
            Rank::R1 => 0,
            Rank::R2 => 1,
            Rank::R3 => 2,
            Rank::R4 => 3,
            Rank::R5 => 4,
            Rank::R6 => 5,
            Rank::R7 => 6,
            Rank::R8 => 7,
        }
    }

    /// The row with the given number; `None` for a number above 7.
    pub fn from_index(index: usize) -> (rank: Option<Rank>)
        ensures
            rank == Rank::spec_from_index(index as int),
            rank is Some <==> index < 8,
            rank matches Some(r) ==> r.spec_index() == index,
    {
        match index {
            0 => Some(Rank::R1),
            1 => Some(Rank::R2),
            2 => Some(Rank::R3),
            3 => Some(Rank::R4),
            4 => Some(Rank::R5),
            5 => Some(Rank::R6),
            6 => Some(Rank::R7),
            7 => Some(Rank::R8),
            _ => None,
        }
    }
}

/// Why a pair of coordinates names no square.
#[derive(Clone, Copy, Debug, PartialEq, Eq, Structural)]
pub enum SquareError {
    /// The column is not one of 0 to 7.
    FileOutOfRange,
    /// The column is fine, the row is not one of 0 to 7.
    RankOutOfRange,
}

/// One of the 64 squares.
#[derive(Clone, Copy, Debug, PartialEq, Eq, Structural)]
pub struct Square {
    pub file: File,
    pub rank: Rank,
}

impl Square {
    /// What `Square::new` answers for a pair of coordinates.
    pub open spec fn spec_new(file: int, rank: int) -> Result<Square, SquareError> {
        match File::spec_from_index(file) {
            None => Err(SquareError::FileOutOfRange),
            Some(f) => match Rank::spec_from_index(rank) {
                None => Err(SquareError::RankOutOfRange),
                Some(r) => Ok(Square { file: f, rank: r }),
            },
        }
    }

    /// The square in column `file` and row `rank`. Coordinates outside the
    /// board are refused, never clamped.
    pub fn new(file: usize, rank: usize) -> (square: Result<Square, SquareError>)
        ensures
            square == Square::spec_new(file as int, rank as int),
            square is Ok <==> file < 8 && rank < 8,
            square matches Ok(s) ==> s.file.spec_index() == file && s.rank.spec_index() == rank,
    {
        match File::from_index(file) {
            None => Err(SquareError::FileOutOfRange),
            Some(f) => match Rank::from_index(rank) {
                None => Err(SquareError::RankOutOfRange),
                Some(r) => Ok(Square { file: f, rank: r }),
            },
        }
    }

    /// The square's column number, 0 to 7.
    pub fn file_index(&self) -> (index: usize)
        ensures
            index == self.file.spec_index(),
            index < 8,
    {
        self.file.index()
    }

    /// The square's row number, 0 to 7.
    pub fn rank_index(&self) -> (index: usize)
        ensures
            index == self.rank.spec_index(),
            index < 8,
    {
        self.rank.index()
    }
}

/// A square is given back by its own coordinates.
pub proof fn lemma_square_from_own_coordinates(square: Square)
    ensures
        Square::spec_new(square.file.spec_index(), square.rank.spec_index()) == Ok::<
            Square,
            SquareError,
        >(square),
{
}

/// The wing on which a king castles.
#[derive(Clone, Copy, Debug, PartialEq, Eq, Structural)]
pub enum CastlingSide {
    KingSide,
    QueenSide,
}

/// A move as a player asks for it. A promotion is no part of the move: it
/// follows as a request of its own.
#[derive(Clone, Copy, Debug, PartialEq, Eq, Structural)]
pub enum Move {
    Normal { from: Square, to: Square },
    Castle { side: CastlingSide },
}

/// How the game stands: still going, or decided.
#[derive(Clone, Copy, Debug, PartialEq, Eq, Structural)]
pub enum GameOutcome {
    Ongoing,
    WhiteWins,
    BlackWins,
    Draw,
}

impl GameOutcome {
    /// The outcome in which `winner` has won.
    pub open spec fn spec_won_by(winner: Color) -> GameOutcome {
        match winner {
            Color::White => GameOutcome::WhiteWins,
            Color::Black => GameOutcome::BlackWins,
        }
    }

    /// The outcome in which `winner` has won.
    #[verifier::when_used_as_spec(spec_won_by)]
    pub fn won_by(winner: Color) -> (outcome: GameOutcome)
        ensures
            outcome == GameOutcome::spec_won_by(winner),
    {
        match winner {
            Color::White => GameOutcome::WhiteWins,
            Color::Black => GameOutcome::BlackWins,
        }
    }
}

/// The pieces on the 64 squares, `board[rank][file]`.
pub type Board = [[Option<Piece>; 8]; 8];

/// The board with no piece on it.
pub open spec fn spec_empty_board() -> Board {
    vstd::array::spec_array_fill_for_copy_type::<[Option<Piece>; 8], 8>(
        vstd::array::spec_array_fill_for_copy_type::<Option<Piece>, 8>(None),
    )
}

/// The board with no piece on it.
pub fn empty_board() -> (board: Board)
    ensures
        board == spec_empty_board(),
        forall|r: int, f: int| 0 <= r < 8 && 0 <= f < 8 ==> (#[trigger] board[r][f]) is None,
{
    let row: [Option<Piece>; 8] = [None; 8];
    [row; 8]
}

/// The square in row `rank` and column `file`, for numbers from 0 to 7.
pub open spec fn square_at(rank: int, file: int) -> Square {
    Square::spec_new(file, rank)->Ok_0
}

/// What stands on `at`.
pub open spec fn piece_at(board: Board, at: Square) -> Option<Piece> {
    board[at.rank.spec_index()][at.file.spec_index()]
}

/// The moves that start on one square, each on the square where it ends,
/// `squares[rank][file]`.
#[derive(Clone, Copy, Debug, PartialEq, Eq)]
pub struct BoardMove {
    pub squares: [[Option<Move>; 8]; 8],
}

impl BoardMove {
    /// The move that ends on `to`, if there is one.
    pub open spec fn spec_get(self, to: Square) -> Option<Move> {
        self.squares[to.rank.spec_index()][to.file.spec_index()]
    }

    /// The move that ends on `to`, if there is one.
    pub fn get(&self, to: Square) -> (mv: Option<Move>)
        ensures
            mv == self.spec_get(to),
    {
        self.squares[to.rank.index()][to.file.index()]
    }
}

/// The move of a list that is shown on the square `to`: the last one in the
/// list that ends there.
pub open spec fn placed(moves: Seq<Move>, to: Square) -> Option<Move>
    decreases moves.len(),
{
    if moves.len() == 0 {
        None
    } else {
        match moves.last() {
            Move::Normal { from, to: end } if end == to => Some(moves.last()),
            _ => placed(moves.drop_last(), to),
        }
    }
}

/// The castlings of a list of moves, in order.
pub open spec fn castlings_of(moves: Seq<Move>) -> Seq<Move>
    decreases moves.len(),
{
    if moves.len() == 0 {
        Seq::empty()
    } else {
        match moves.last() {
            Move::Castle { side } => castlings_of(moves.drop_last()).push(moves.last()),
            _ => castlings_of(moves.drop_last()),
        }
    }
}

impl BoardMove {
    /// The moves of `found` laid out for showing: each on the square where
    /// it ends, where of two that end on one square the later one stays, and
    /// the castlings apart, in order.
    pub fn lay_out(found: &Vec<Move>) -> (laid: (BoardMove, Vec<Move>))
        ensures
            forall|to: Square| laid.0.spec_get(to) == placed(found@, to),
            laid.1@ == castlings_of(found@),
    {
        let mut squares: [[Option<Move>; 8]; 8] = [[None; 8]; 8];
        let mut castlings: Vec<Move> = Vec::new();
        let mut i: usize = 0;
        assert(found@.take(0) =~= Seq::empty());
        while i < found.len()
            invariant
                i <= found.len(),
                forall|to: Square|
                    squares[to.rank.spec_index()][to.file.spec_index()] == placed(
                        found@.take(i as int),
                        to,
                    ),
                castlings@ == castlings_of(found@.take(i as int)),
            decreases found.len() - i,
        {
            let mv = found[i];
            let ghost before = squares;
            proof {
                assert(found@.take(i + 1).drop_last() =~= found@.take(i as int));
                assert(found@.take(i + 1).last() == mv);
            }
            match mv {
                Move::Normal { from, to } => {
                    let mut row = squares[to.rank.index()];
                    row[to.file.index()] = Some(mv);
                    squares[to.rank.index()] = row;
                    proof {
                        assert forall|other: Square|
                            squares[other.rank.spec_index()][other.file.spec_index()] == placed(
                                found@.take(i + 1),
                                other,
                            ) by {
                            if other == to {
                                assert(placed(found@.take(i + 1), other) == Some(mv));
                                assert(squares[to.rank.spec_index()] == row);
                            } else {
                                assert(placed(found@.take(i + 1), other) == placed(
                                    found@.take(i as int),
                                    other,
                                ));
                                assert(before[other.rank.spec_index()][other.file.spec_index()]
                                    == placed(found@.take(i as int), other));
                                if other.rank != to.rank {
                                    assert(other.rank.spec_index() != to.rank.spec_index());
                                } else {
                                    assert(other.file.spec_index() != to.file.spec_index());
                                }
                            }
                        }
                    }
                },
                Move::Castle { side } => {
                    castlings.push(mv);
                    proof {
                        assert forall|other: Square|
                            squares[other.rank.spec_index()][other.file.spec_index()] == placed(
                                found@.take(i + 1),
                                other,
                            ) by {
                            assert(placed(found@.take(i + 1), other) == placed(
                                found@.take(i as int),
                                other,
                            ));
                        }
                    }
                },
            }
            i += 1;
        }
        proof {
            assert(found@.take(i as int) =~= found@);
        }
        (BoardMove { squares }, castlings)
    }
}

/// Why a request was not carried out.
#[derive(Clone, Debug, PartialEq, Eq)]
pub enum MoveError {
    /// An earlier request still waits for the host's answer.
    Busy,
    /// It is the other side's turn.
    NotYourTurn,
    /// There is no connection in play.
    NotConnected,
    /// The game is decided.
    GameOver,
    /// The rules forbid it, for the reason given.
    Rejected(String),
}

impl MoveError {
    /// The error in words.
    pub open spec fn spec_describe(self) -> Seq<char> {
        match self {
            MoveError::Busy => "an earlier request still waits for the host's answer"@,
            MoveError::NotYourTurn => "it is the other side's turn"@,
            MoveError::NotConnected => "there is no connection in play"@,
            MoveError::GameOver => "the game is decided"@,
            MoveError::Rejected(reason) => reason@,
        }
    }

    /// The error in words, for showing to a player. A refusal by the rules
    /// is given in the words of the rules.
    pub fn describe(&self) -> (text: String)
        ensures
            text@ == self.spec_describe(),
    {
        match self {
            MoveError::Busy => "an earlier request still waits for the host's answer".to_owned(),
            MoveError::NotYourTurn => "it is the other side's turn".to_owned(),
            MoveError::NotConnected => "there is no connection in play".to_owned(),
            MoveError::GameOver => "the game is decided".to_owned(),
            MoveError::Rejected(reason) => reason.clone(),
        }
    }
}

/// What stands on `at`.
pub fn get_piece_at(board: &Board, at: Square) -> (piece: Option<Piece>)
    ensures
        piece == piece_at(*board, at),
{
    board[at.rank.index()][at.file.index()]
}

/// Whether a pawn stands on `at` on the first or the last row, where it
/// cannot stay a pawn.
pub open spec fn spec_promotion_due(board: Board, at: Square) -> bool {
    (at.rank == Rank::R1 || at.rank == Rank::R8) && (piece_at(board, at) matches Some(
        Piece { piece: PieceTypes::Pawn(_), color },
    ))
}

/// Whether a pawn stands on `at` on the first or the last row, so that the
/// player is to be asked what it becomes.
pub fn promotion_due(board: &Board, at: Square) -> (due: bool)
    ensures
        due == spec_promotion_due(*board, at),
{
    let on_edge = match at.rank {
        Rank::R1 => true,
        Rank::R8 => true,
        _ => false,
    };
    let is_pawn = match get_piece_at(board, at) {
        Some(Piece { piece: PieceTypes::Pawn(_), color }) => true,
        _ => false,
    };
    on_edge && is_pawn
}

/// Whether the list holds a castling on the wing `side`.
pub open spec fn can_castle(moves: Seq<Move>, side: CastlingSide) -> bool {
    moves.contains(Move::Castle { side })
}

/// On which wings the list holds a castling: king's wing first, queen's
/// wing second.
pub fn castling_wings(moves: &Vec<Move>) -> (wings: (bool, bool))
    ensures
        wings.0 == can_castle(moves@, CastlingSide::KingSide),
        wings.1 == can_castle(moves@, CastlingSide::QueenSide),
{
    let mut kingside = false;
    let mut queenside = false;
    let mut i: usize = 0;
    while i < moves.len()
        invariant
            i <= moves.len(),
            kingside == can_castle(moves@.take(i as int), CastlingSide::KingSide),
            queenside == can_castle(moves@.take(i as int), CastlingSide::QueenSide),
        decreases moves.len() - i,
    {
        let mv = moves[i];
        proof {
            let before = moves@.take(i as int);
            let after = moves@.take(i + 1);
            assert(after =~= before.push(mv));
            assert forall|side: CastlingSide|
                can_castle(after, side) == (can_castle(before, side) || mv == (Move::Castle {
                    side,
                })) by {
                let wanted = Move::Castle { side };
                if can_castle(before, side) {
                    let k = choose|k: int| 0 <= k < before.len() && before[k] == wanted;
                    assert(after[k] == wanted);
                }
                if mv == wanted {
                    assert(after[i as int] == wanted);
                }
                if can_castle(after, side) {
                    let k = choose|k: int| 0 <= k < after.len() && after[k] == wanted;
                    if k < i {
                        assert(before[k] == wanted);
                    }
                }
            }
        }
        match mv {
            Move::Castle { side: CastlingSide::KingSide } => {
                kingside = true;
            },
            Move::Castle { side: CastlingSide::QueenSide } => {
                queenside = true;
            },
            Move::Normal { from, to } => {},
        }
        i += 1;
    }
    proof {
        assert(moves@.take(i as int) =~= moves@);
    }
    (kingside, queenside)
}

} // verus!
