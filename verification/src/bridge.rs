//! What a board on screen needs from a game, whoever keeps it: a game played
//! at one table, the host's side of a connection, or the client's.

use vstd::prelude::*;
use crate::board::{Board, BoardMove, Color, Move, MoveError, Piece, PieceTypes, Square, piece_at};

verus! {

/// Whether the side to move stands in check.
#[derive(Debug, Clone, Copy, PartialEq, Eq, Structural)]
pub enum GameState {
    Normal,
    Check,
}

/// How far a connection has come.
#[derive(Debug, Clone, Copy, PartialEq, Eq, Structural)]
pub enum ProtocolState {
    NotConnected,
    Handshake,
    Play,
}

/// Why a session has ended.
#[derive(Debug, Clone, Copy, PartialEq, Eq, Structural)]
pub enum CloseReason {
    /// The peer has closed the connection.
    Disconnected,
    /// Bytes arrived that are no message.
    Malformed,
    /// A message arrived that has no place at this point of the exchange, or
    /// that names a square outside the board.
    ProtocolViolation,
}

/// A game as the board on screen sees it. It is driven by calling `update`
/// again and again; no call waits for anything.
pub trait ChessGame {
    /// The position that is shown.
    spec fn spec_board(&self) -> Board;

    /// The side that is taken to be on the move.
    spec fn spec_turn(&self) -> Color;

    /// Whether the side on the move is known to stand in check.
    spec fn spec_check(&self) -> bool;

    /// Takes at most one step with what has arrived since the last call.
    fn update(&mut self);

    /// The position that is shown, `board[rank][file]`.
    fn get_pieces(&self) -> (board: Board)
        ensures
            board == self.spec_board(),
    ;

    /// What stands on `at` in the position that is shown.
    fn get_piece(&self, at: Square) -> (piece: Option<Piece>)
        ensures
            piece == piece_at(self.spec_board(), at),
    ;

    /// `Check` where the side on the move is known to stand in check.
    fn get_state(&self) -> (state: GameState)
        ensures
            state == (if self.spec_check() {
                GameState::Check
            } else {
                GameState::Normal
            }),
    ;

    /// Whether the side on the move is known to stand in check.
    fn is_check(&self) -> (check: bool)
        ensures
            check == self.spec_check(),
    ;

    /// The side that is taken to be on the move.
    fn current_turn(&self) -> (turn: Color)
        ensures
            turn == self.spec_turn(),
    ;

    /// Asks for the pawn on `promotion_square` to become `piece`.
    fn promote(&mut self, promotion_square: Square, piece: PieceTypes);

    /// The moves that start on `at`, each on the square where it ends, and
    /// the castlings. Asking changes nothing on the board.
    fn possible_moves(&mut self, at: Square) -> (moves: Result<(BoardMove, Vec<Move>), MoveError>)
        ensures
            final(self).spec_board() == old(self).spec_board(),
            final(self).spec_turn() == old(self).spec_turn(),
            final(self).spec_check() == old(self).spec_check(),
    ;

    /// Asks for a move. A move that is refused changes nothing on the board.
    fn perform_move(&mut self, mv: Move) -> (done: Result<(), MoveError>)
        ensures
            done is Err ==> final(self).spec_board() == old(self).spec_board()
                && final(self).spec_turn() == old(self).spec_turn() && final(self).spec_check()
                == old(self).spec_check(),
    ;
}

/// Whether two verdicts of the rules are the same: the same new game, or a
/// refusal in the same words.
pub open spec fn same_verdict<G>(a: Result<G, String>, b: Result<G, String>) -> bool {
    match (a, b) {
        (Ok(x), Ok(y)) => x == y,
        (Err(x), Err(y)) => x@ == y@,
        _ => false,
    }
}

/// The rules of chess, as a session consults them. A value of the type is a
/// game at one moment: asking for a move gives a new value and leaves the old
/// one as it was.
///
/// The sessions are proved against this trait, not against any rules. What
/// they take on trust of an implementation is that each method answers as the
/// function of the same meaning says, that is, that the same question about
/// the same game always has the same answer. Nothing is assumed about what
/// the answers are: which moves are legal, or whose turn it is after a move.
pub trait RulesEngine: Sized {
    /// The position.
    spec fn board_of(&self) -> Board;

    /// The side on the move.
    spec fn turn_of(&self) -> Color;

    /// Whether the side on the move stands in check.
    spec fn check_of(&self) -> bool;

    /// The legal moves that start on `at`.
    spec fn moves_of(&self, at: Square) -> Vec<Move>;

    /// The game after `mv`, or why the move is refused.
    spec fn applied(&self, mv: Move) -> Result<Self, String>;

    /// The game after the pawn on `at` has become `piece`, or why not.
    spec fn promoted(&self, at: Square, piece: PieceTypes) -> Result<Self, String>;

    /// The position, `board[rank][file]`.
    fn board(&self) -> (board: Board)
        ensures
            board == self.board_of(),
    ;

    /// The side on the move.
    fn current_turn(&self) -> (turn: Color)
        ensures
            turn == self.turn_of(),
    ;

    /// Whether the side on the move stands in check.
    fn in_check(&self) -> (check: bool)
        ensures
            check == self.check_of(),
    ;

    /// The legal moves that start on `at`.
    fn legal_moves(&self, at: Square) -> (moves: Vec<Move>)
        ensures
            moves@ == self.moves_of(at)@,
    ;

    /// The game after `mv`, or, for a move that is not legal, the reason in
    /// words.
    fn apply(&self, mv: Move) -> (next: Result<Self, String>)
        ensures
            same_verdict(next, self.applied(mv)),
    ;

    /// The game after the pawn on `at` has become `piece`, or the reason in
    /// words why it cannot.
    fn promote(&self, at: Square, piece: PieceTypes) -> (next: Result<Self, String>)
        ensures
            same_verdict(next, self.promoted(at, piece)),
    ;
}

} // verus!
