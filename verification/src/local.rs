//! A game played at one table: no connection, just the rules.

use vstd::prelude::*;
use crate::board::{
    Board,
    BoardMove,
    Color,
    Move,
    MoveError,
    Piece,
    PieceTypes,
    Square,
    castlings_of,
    get_piece_at,
    placed,
};
use crate::bridge::{ChessGame, GameState, RulesEngine};

verus! {

/// A game that both players make their moves in, judged by the rules `E`.
pub struct LocalGame<E: RulesEngine> {
    game: E,
}

impl<E: RulesEngine> View for LocalGame<E> {
    type V = E;

    closed spec fn view(&self) -> E {
        self.game
    }
}

impl<E: RulesEngine> LocalGame<E> {
    /// A game that starts from `game`.
    pub fn new(game: E) -> (local: LocalGame<E>)
        ensures
            local@ == game,
    {
        LocalGame { game }
    }

    /// The game as it stands.
    pub fn game(&self) -> (game: &E)
        ensures
            *game == self@,
    {
        &self.game
    }
}

impl<E: RulesEngine> ChessGame for LocalGame<E> {
    open spec fn spec_board(&self) -> Board {
        self@.board_of()
    }

    open spec fn spec_turn(&self) -> Color {
        self@.turn_of()
    }

    open spec fn spec_check(&self) -> bool {
        self@.check_of()
    }

    /// Nothing arrives at a game without a connection: nothing happens.
    fn update(&mut self)
        ensures
            final(self)@ == old(self)@,
    {
    }

    fn get_pieces(&self) -> (board: Board) {
        self.game.board()
    }

    fn get_piece(&self, at: Square) -> (piece: Option<Piece>) {
        let board = self.game.board();
        get_piece_at(&board, at)
    }

    fn get_state(&self) -> (state: GameState) {
        if self.game.in_check() {
            GameState::Check
        } else {
            GameState::Normal
        }
    }

    fn is_check(&self) -> (check: bool) {
        self.game.in_check()
    }

    fn current_turn(&self) -> (turn: Color) {
        self.game.current_turn()
    }

    /// The promotion is carried out where the rules allow it; otherwise
    /// nothing changes.
    fn promote(&mut self, promotion_square: Square, piece: PieceTypes)
        ensures
            final(self)@ == (match old(self)@.promoted(promotion_square, piece) {
                Ok(next) => next,
                Err(_) => old(self)@,
            }),
    {
        match self.game.promote(promotion_square, piece) {
            Ok(next) => {
                self.game = next;
            },
            Err(_) => {},
        }
    }

    /// The legal moves that start on `at`, as the rules give them: each on
    /// the square where it ends, and the castlings apart.
    fn possible_moves(&mut self, at: Square) -> (moves: Result<(BoardMove, Vec<Move>), MoveError>)
        ensures
            final(self)@ == old(self)@,
            moves matches Ok((board_move, castlings)) && castlings@ == castlings_of(
                old(self)@.moves_of(at)@,
            ) && forall|to: Square| board_move.spec_get(to) == placed(old(self)@.moves_of(at)@, to),
    {
        let found = self.game.legal_moves(at);
        let laid = BoardMove::lay_out(&found);
        Ok(laid)
    }

    /// The move is made where the rules accept it. A move that they refuse
    /// changes nothing and is answered with `Rejected` and their reason.
    fn perform_move(&mut self, mv: Move) -> (done: Result<(), MoveError>)
        ensures
            done is Ok <==> old(self)@.applied(mv) is Ok,
            done is Ok ==> old(self)@.applied(mv) == Ok::<E, String>(final(self)@),
            done is Err ==> final(self)@ == old(self)@,
            done matches Err(why) ==> (why matches MoveError::Rejected(reason) && old(
                self,
            )@.applied(mv) matches Err(because) && reason@ == because@),
    {
        match self.game.apply(mv) {
            Ok(next) => {
                self.game = next;
                Ok(())
            },
            Err(reason) => Err(MoveError::Rejected(reason)),
        }
    }
}

} // verus!
