//! The client's side of a game: a mirror of what the host says, with a guess
//! at whose turn it is that every message from the host puts right.

use vstd::prelude::*;
use crate::board::{
    Board,
    BoardMove,
    Color,
    GameOutcome,
    Move,
    MoveError,
    Piece,
    PieceTypes,
    Square,
    empty_board,
    get_piece_at,
    lemma_square_from_own_coordinates,
    spec_empty_board,
    square_at,
};
use crate::bridge::{ChessGame, CloseReason, GameState, ProtocolState};
use crate::wire::{
    ClientHandshake,
    ClientMessage,
    ClientPacket,
    Feature,
    HostHandshake,
    HostHandshakeView,
    HostMessage,
    HostMessageView,
    HostPacket,
    HostPacketView,
    WireBoard,
    WireMove,
    all_moves_valid,
    board_from_wire,
    convert_move,
    has_feature,
    moves_from_wire,
    spec_board_from_wire,
    spec_convert_move,
    spec_moves_from_wire,
};

verus! {

/// What can reach a client from its connection.
#[derive(Clone, Debug, PartialEq, Eq)]
pub enum ClientEvent {
    /// A packet from the host.
    Packet(HostPacket),
    /// Bytes that are no packet.
    Malformed,
    /// The host has closed the connection.
    Disconnected,
}

/// An event as a mathematical value.
pub enum ClientEventView {
    Packet(HostPacketView),
    Malformed,
    Disconnected,
}

impl View for ClientEvent {
    type V = ClientEventView;

    open spec fn view(&self) -> ClientEventView {
        match *self {
            ClientEvent::Packet(packet) => ClientEventView::Packet(packet@),
            ClientEvent::Malformed => ClientEventView::Malformed,
            ClientEvent::Disconnected => ClientEventView::Disconnected,
        }
    }
}

/// A client's session as a mathematical value.
pub struct ClientModel {
    /// How far the connection has come.
    pub state: ProtocolState,
    /// Why the session has ended, if it has.
    pub closed: Option<CloseReason>,
    /// The colour that the host plays; the client plays the other.
    pub host_color: Color,
    /// The side that the client takes to be on the move.
    pub turn: Color,
    /// Whether a request of the client waits for the host's answer.
    pub awaiting: bool,
    /// The position as the host last gave it.
    pub board: Board,
    /// The legal moves as the host last gave them.
    pub moves: Seq<Move>,
    /// How the game stands.
    pub outcome: GameOutcome,
    /// What the host offers.
    pub features: Seq<Feature>,
    /// The host's reason for its last refusal, until the next position.
    pub rejection: Option<Seq<char>>,
    /// What has arrived and was not looked at yet, oldest first.
    pub inbox: Seq<ClientEventView>,
    /// What is to be sent, oldest first.
    pub outbox: Seq<ClientPacket>,
}

impl ClientModel {
    /// The colour that the client plays.
    pub open spec fn my_color(self) -> Color {
        self.host_color.spec_opposite()
    }

    /// A session right after the connection is made: the handshake lies
    /// ready to be sent, White is taken to move first.
    pub open spec fn connect(host_color: Color) -> ClientModel {
        ClientModel {
            state: ProtocolState::Handshake,
            closed: None,
            host_color,
            turn: Color::White,
            awaiting: false,
            board: spec_empty_board(),
            moves: Seq::empty(),
            outcome: GameOutcome::Ongoing,
            features: Seq::empty(),
            rejection: None,
            inbox: Seq::empty(),
            outbox: seq![
                ClientPacket::Handshake(ClientHandshake { requested_host_color: host_color }),
            ],
        }
    }

    /// The session with one more event waiting.
    pub open spec fn deliver(self, event: ClientEventView) -> ClientModel {
        ClientModel { inbox: self.inbox.push(event), ..self }
    }

    /// The session ended for the reason `why`.
    pub open spec fn end(self, why: CloseReason) -> ClientModel {
        ClientModel {
            state: ProtocolState::NotConnected,
            closed: Some(why),
            awaiting: false,
            ..self
        }
    }

    /// The session after the host's handshake.
    pub open spec fn on_handshake(self, handshake: HostHandshakeView) -> ClientModel {
        if self.state != ProtocolState::Handshake || !all_moves_valid(handshake.moves) {
            self.end(CloseReason::ProtocolViolation)
        } else {
            ClientModel {
                state: ProtocolState::Play,
                board: spec_board_from_wire(handshake.board),
                moves: spec_moves_from_wire(handshake.moves),
                outcome: handshake.outcome,
                features: handshake.features,
                ..self
            }
        }
    }

    /// The session after a new position from the host. Where a request was
    /// waiting, this is its acceptance and the turn stays with the host;
    /// else the host has moved and the turn comes to the client.
    pub open spec fn on_state(
        self,
        board: WireBoard,
        moves: Seq<WireMove>,
        outcome: GameOutcome,
    ) -> ClientModel {
        if !all_moves_valid(moves) {
            self.end(CloseReason::ProtocolViolation)
        } else {
            ClientModel {
                board: spec_board_from_wire(board),
                moves: spec_moves_from_wire(moves),
                outcome,
                awaiting: false,
                turn: if self.awaiting {
                    self.turn
                } else {
                    self.my_color()
                },
                rejection: None,
                ..self
            }
        }
    }

    /// The session after the host has refused a request: the turn is the
    /// client's again, and the position is the one the host sent along.
    pub open spec fn on_reject(
        self,
        board: WireBoard,
        moves: Seq<WireMove>,
        outcome: GameOutcome,
        reason: Seq<char>,
    ) -> ClientModel {
        if !all_moves_valid(moves) {
            self.end(CloseReason::ProtocolViolation)
        } else {
            ClientModel {
                board: spec_board_from_wire(board),
                moves: spec_moves_from_wire(moves),
                outcome,
                awaiting: false,
                turn: self.my_color(),
                rejection: Some(reason),
                ..self
            }
        }
    }

    /// The session after a message of the game.
    pub open spec fn on_message(self, message: HostMessageView) -> ClientModel {
        if self.state != ProtocolState::Play {
            self.end(CloseReason::ProtocolViolation)
        } else {
            match message {
                HostMessageView::State { board, moves, last_move, outcome } => self.on_state(
                    board,
                    moves,
                    outcome,
                ),
                HostMessageView::Reject { board, moves, outcome, reason } => self.on_reject(
                    board,
                    moves,
                    outcome,
                    reason,
                ),
                HostMessageView::Resigned { winner } => ClientModel {
                    outcome: GameOutcome::spec_won_by(winner),
                    awaiting: false,
                    ..self
                },
                HostMessageView::Draw => ClientModel {
                    outcome: GameOutcome::Draw,
                    awaiting: false,
                    ..self
                },
            }
        }
    }

    /// The session after one event. A session that has ended stays as it is.
    pub open spec fn step(self, event: ClientEventView) -> ClientModel {
        if self.closed is Some {
            self
        } else {
            match event {
                ClientEventView::Disconnected => self.end(CloseReason::Disconnected),
                ClientEventView::Malformed => self.end(CloseReason::Malformed),
                ClientEventView::Packet(HostPacketView::Handshake(handshake)) => self.on_handshake(
                    handshake,
                ),
                ClientEventView::Packet(HostPacketView::Message(message)) => self.on_message(
                    message,
                ),
            }
        }
    }

    /// The session after one call of `update`: the oldest waiting event, if
    /// there is one, is taken and acted on.
    pub open spec fn update(self) -> ClientModel {
        if self.inbox.len() == 0 {
            self
        } else {
            (ClientModel { inbox: self.inbox.drop_first(), ..self }).step(self.inbox[0])
        }
    }

    /// Why nothing can be asked of the host right now, if so.
    pub open spec fn request_refusal(self) -> Option<MoveError> {
        if self.closed is Some || self.state != ProtocolState::Play {
            Some(MoveError::NotConnected)
        } else if self.awaiting {
            Some(MoveError::Busy)
        } else if self.outcome != GameOutcome::Ongoing {
            Some(MoveError::GameOver)
        } else {
            None
        }
    }

    /// Why a move cannot be asked for right now, if so.
    pub open spec fn move_refusal(self) -> Option<MoveError> {
        if self.request_refusal() is Some {
            self.request_refusal()
        } else if self.turn != self.my_color() {
            Some(MoveError::NotYourTurn)
        } else {
            None
        }
    }

    /// The session after the player has asked for `mv`. Where the move can be
    /// asked for, it is put up for sending and the turn passes to the host;
    /// the position stays until the host answers.
    pub open spec fn perform_move(self, mv: Move) -> ClientModel {
        if self.move_refusal() is Some {
            self
        } else {
            ClientModel {
                awaiting: true,
                turn: self.host_color,
                outbox: self.outbox.push(
                    ClientPacket::Message(ClientMessage::Move(spec_convert_move(mv))),
                ),
                ..self
            }
        }
    }

    /// The session after the player has asked for a promotion.
    pub open spec fn request_promotion(self, at: Square, piece: PieceTypes) -> ClientModel {
        if self.request_refusal() is Some {
            self
        } else {
            ClientModel {
                awaiting: true,
                outbox: self.outbox.push(
                    ClientPacket::Message(
                        ClientMessage::Promote {
                            x: at.file.spec_index() as usize,
                            y: at.rank.spec_index() as usize,
                            piece,
                        },
                    ),
                ),
                ..self
            }
        }
    }

    /// Whether the game is on and not decided.
    pub open spec fn in_play(self) -> bool {
        self.closed is None && self.state == ProtocolState::Play && self.outcome
            == GameOutcome::Ongoing
    }

    /// The session after the player has said `message`, which is to resign or
    /// to offer a draw: it is put up for sending while the game is on.
    pub open spec fn say(self, message: ClientMessage) -> ClientModel {
        if self.in_play() {
            ClientModel { outbox: self.outbox.push(ClientPacket::Message(message)), ..self }
        } else {
            self
        }
    }

    /// The move from `at` to `to` that the player is offered, if any. With a
    /// host that sends the legal moves, it is offered when it is among them.
    /// With a host that does not, every move to another square is offered,
    /// and the host decides.
    pub open spec fn offered(self, at: Square, to: Square) -> Option<Move> {
        let mv = Move::Normal { from: at, to };
        if self.features.contains(Feature::PossibleMoveGeneration) {
            if self.moves.contains(mv) {
                Some(mv)
            } else {
                None
            }
        } else if to == at {
            None
        } else {
            Some(mv)
        }
    }
}

/// The client's side of a game.
pub struct ClientGame {
    state: ProtocolState,
    closed: Option<CloseReason>,
    host_color: Color,
    current_turn: Color,
    awaiting: bool,
    board: Board,
    joever: GameOutcome,
    moves: Vec<Move>,
    server_features: Vec<Feature>,
    rejection: Option<String>,
    inbox: Vec<ClientEvent>,
    outbox: Vec<ClientPacket>,
}

impl View for ClientGame {
    type V = ClientModel;

    closed spec fn view(&self) -> ClientModel {
        ClientModel {
            state: self.state,
            closed: self.closed,
            host_color: self.host_color,
            turn: self.current_turn,
            awaiting: self.awaiting,
            board: self.board,
            moves: self.moves@,
            outcome: self.joever,
            features: self.server_features@,
            rejection: match self.rejection {
                Some(reason) => Some(reason@),
                None => None,
            },
            inbox: self.inbox@.map_values(|event: ClientEvent| event@),
            outbox: self.outbox@,
        }
    }
}

/// Whether `mv` is in the list.
fn contains_move(moves: &Vec<Move>, mv: Move) -> (found: bool)
    ensures
        found == moves@.contains(mv),
{
    let mut i: usize = 0;
    while i < moves.len()
        invariant
            i <= moves.len(),
            forall|j: int| 0 <= j < i ==> moves@[j] != mv,
        decreases moves.len() - i,
    {
        if moves[i] == mv {
            return true;
        }
        i += 1;
    }
    false
}

impl ClientGame {
    /// A session for a connection that was just made. The handshake, which
    /// asks the host to play `host_color`, lies ready to be sent.
    pub fn connect(host_color: Color) -> (game: ClientGame)
        ensures
            game@ == ClientModel::connect(host_color),
    {
        let mut outbox: Vec<ClientPacket> = Vec::new();
        outbox.push(ClientPacket::Handshake(ClientHandshake { requested_host_color: host_color }));
        let game = ClientGame {
            state: ProtocolState::Handshake,
            closed: None,
            host_color,
            current_turn: Color::White,
            awaiting: false,
            board: empty_board(),
            joever: GameOutcome::Ongoing,
            moves: Vec::new(),
            server_features: Vec::new(),
            rejection: None,
            inbox: Vec::new(),
            outbox,
        };
        proof {
            assert(game@.inbox =~= Seq::empty());
            assert(game@.outbox =~= ClientModel::connect(host_color).outbox);
        }
        game
    }

    /// Hands the session an event from its connection, to be acted on by a
    /// later `update`.
    pub fn deliver(&mut self, event: ClientEvent)
        ensures
            final(self)@ == old(self)@.deliver(event@),
    {
        self.inbox.push(event);
        proof {
            assert(self@.inbox =~= old(self)@.inbox.push(event@));
        }
    }

    /// What is to be sent, oldest first. The session keeps none of it.
    pub fn take_outgoing(&mut self) -> (packets: Vec<ClientPacket>)
        ensures
            packets@ == old(self)@.outbox,
            final(self)@ == (ClientModel { outbox: Seq::empty(), ..old(self)@ }),
    {
        let mut packets: Vec<ClientPacket> = Vec::new();
        std::mem::swap(&mut packets, &mut self.outbox);
        packets
    }

    fn end(&mut self, why: CloseReason)
        ensures
            final(self)@ == old(self)@.end(why),
    {
        self.state = ProtocolState::NotConnected;
        self.closed = Some(why);
        self.awaiting = false;
    }

    fn set_board(&mut self, board: WireBoard)
        ensures
            final(self)@ == (ClientModel { board: spec_board_from_wire(board), ..old(self)@ }),
    {
        self.board = board_from_wire(board);
    }

    fn on_handshake(&mut self, handshake: HostHandshake)
        ensures
            final(self)@ == old(self)@.on_handshake(handshake@),
    {
        if self.state != ProtocolState::Handshake {
            self.end(CloseReason::ProtocolViolation);
            return ;
        }
        let HostHandshake { board, moves, outcome, features } = handshake;
        match moves_from_wire(&moves) {
            Err(_) => {
                self.end(CloseReason::ProtocolViolation);
            },
            Ok(list) => {
                self.set_board(board);
                self.joever = outcome;
                self.moves = list;
                self.server_features = features;
                self.state = ProtocolState::Play;
            },
        }
    }

    fn on_state(&mut self, board: WireBoard, moves: Vec<WireMove>, outcome: GameOutcome)
        ensures
            final(self)@ == old(self)@.on_state(board, moves@, outcome),
    {
        match moves_from_wire(&moves) {
            Err(_) => {
                self.end(CloseReason::ProtocolViolation);
            },
            Ok(list) => {
                self.set_board(board);
                self.moves = list;
                self.joever = outcome;
                if self.awaiting {
                    self.awaiting = false;
                } else {
                    self.current_turn = self.host_color.opposite();
                }
                self.rejection = None;
            },
        }
    }

    fn on_reject(
        &mut self,
        board: WireBoard,
        moves: Vec<WireMove>,
        outcome: GameOutcome,
        reason: String,
    )
        ensures
            final(self)@ == old(self)@.on_reject(board, moves@, outcome, reason@),
    {
        match moves_from_wire(&moves) {
            Err(_) => {
                self.end(CloseReason::ProtocolViolation);
            },
            Ok(list) => {
                self.set_board(board);
                self.moves = list;
                self.joever = outcome;
                self.awaiting = false;
                self.current_turn = self.host_color.opposite();
                self.rejection = Some(reason);
            },
        }
    }

    fn on_message(&mut self, message: HostMessage)
        ensures
            final(self)@ == old(self)@.on_message(message@),
    {
        if self.state != ProtocolState::Play {
            self.end(CloseReason::ProtocolViolation);
            return ;
        }
        match message {
            HostMessage::State { board, moves, last_move, outcome } => {
                self.on_state(board, moves, outcome);
            },
            HostMessage::Reject { board, moves, outcome, reason } => {
                self.on_reject(board, moves, outcome, reason);
            },
            HostMessage::Resigned { winner } => {
                self.joever = GameOutcome::won_by(winner);
                self.awaiting = false;
            },
            HostMessage::Draw => {
                self.joever = GameOutcome::Draw;
                self.awaiting = false;
            },
        }
    }

    /// Acts on one event. The host's handshake starts the game; a position
    /// replaces the one shown; a refusal gives the turn back; a closed
    /// connection, bytes that are no message, a message out of place or one
    /// that names a square outside the board end the session.
    pub fn step(&mut self, event: ClientEvent)
        ensures
            final(self)@ == old(self)@.step(event@),
    {
        if self.closed.is_some() {
            return ;
        }
        match event {
            ClientEvent::Disconnected => self.end(CloseReason::Disconnected),
            ClientEvent::Malformed => self.end(CloseReason::Malformed),
            ClientEvent::Packet(HostPacket::Handshake(handshake)) => self.on_handshake(handshake),
            ClientEvent::Packet(HostPacket::Message(message)) => self.on_message(message),
        }
    }

    /// Asks the host for a promotion. Like a move it then waits for the
    /// host's answer; unlike a move it does not pass the turn.
    pub fn request_promotion(&mut self, at: Square, piece: PieceTypes) -> (done: Result<
        (),
        MoveError,
    >)
        ensures
            final(self)@ == old(self)@.request_promotion(at, piece),
            done is Ok <==> old(self)@.request_refusal() is None,
            done matches Err(why) ==> old(self)@.request_refusal() == Some(why),
    {
        if self.closed.is_some() || self.state != ProtocolState::Play {
            return Err(MoveError::NotConnected);
        }
        if self.awaiting {
            return Err(MoveError::Busy);
        }
        if self.joever != GameOutcome::Ongoing {
            return Err(MoveError::GameOver);
        }
        self.outbox.push(
            ClientPacket::Message(
                ClientMessage::Promote { x: at.file_index(), y: at.rank_index(), piece },
            ),
        );
        self.awaiting = true;
        Ok(())
    }

    fn say(&mut self, message: ClientMessage)
        ensures
            final(self)@ == old(self)@.say(message),
    {
        if self.closed.is_none() && self.state == ProtocolState::Play && self.joever
            == GameOutcome::Ongoing {
            self.outbox.push(ClientPacket::Message(message));
        }
    }

    /// Gives the game up: while the game is on, the host is told so.
    pub fn resign(&mut self)
        ensures
            final(self)@ == old(self)@.say(ClientMessage::Resign),
    {
        self.say(ClientMessage::Resign);
    }

    /// Offers a draw: while the game is on, the host is told so.
    pub fn offer_draw(&mut self)
        ensures
            final(self)@ == old(self)@.say(ClientMessage::OfferDraw),
    {
        self.say(ClientMessage::OfferDraw);
    }

    /// How far the connection has come.
    pub fn get_protocol_state(&self) -> (state: ProtocolState)
        ensures
            state == self@.state,
    {
        self.state
    }

    /// Why the session has ended, if it has.
    pub fn closed_reason(&self) -> (why: Option<CloseReason>)
        ensures
            why == self@.closed,
    {
        self.closed
    }

    /// How the game stands.
    pub fn outcome(&self) -> (outcome: GameOutcome)
        ensures
            outcome == self@.outcome,
    {
        self.joever
    }

    /// The host's reason for its last refusal, until the next position.
    pub fn last_rejection(&self) -> (reason: Option<String>)
        ensures
            reason is Some <==> self@.rejection is Some,
            reason matches Some(text) ==> self@.rejection == Some(text@),
    {
        match &self.rejection {
            Some(text) => Some(text.clone()),
            None => None,
        }
    }

    /// Whether a request waits for the host's answer.
    pub fn is_awaiting(&self) -> (awaiting: bool)
        ensures
            awaiting == self@.awaiting,
    {
        self.awaiting
    }

    /// Whether a move can be asked for right now.
    pub fn can_play_right_now(&self) -> (free: bool)
        ensures
            free == (self@.move_refusal() is None),
    {
        self.closed.is_none() && self.state == ProtocolState::Play && !self.awaiting && self.joever
            == GameOutcome::Ongoing && self.current_turn == self.host_color.opposite()
    }

    /// Whether the host sends the legal moves.
    pub fn has_possible_moves(&self) -> (offered: bool)
        ensures
            offered == self@.features.contains(Feature::PossibleMoveGeneration),
    {
        has_feature(&self.server_features, Feature::PossibleMoveGeneration)
    }
}

impl ClientGame {
    /// The moves from `at` that the player is offered, each on the square
    /// where it ends.
    fn offered_moves(&self, at: Square) -> (board_move: BoardMove)
        ensures
            forall|to: Square| board_move.spec_get(to) == self@.offered(at, to),
    {
        let generated = has_feature(&self.server_features, Feature::PossibleMoveGeneration);
        let mut squares: [[Option<Move>; 8]; 8] = [[None; 8]; 8];
        let mut r: usize = 0;
        while r < 8
            invariant
                r <= 8,
                generated == self@.features.contains(Feature::PossibleMoveGeneration),
                forall|i: int, j: int|
                    0 <= i < r && 0 <= j < 8 ==> (#[trigger] squares[i][j]) == self@.offered(
                        at,
                        square_at(i, j),
                    ),
            decreases 8 - r,
        {
            let mut row: [Option<Move>; 8] = [None; 8];
            let mut f: usize = 0;
            while f < 8
                invariant
                    r < 8,
                    f <= 8,
                    generated == self@.features.contains(Feature::PossibleMoveGeneration),
                    forall|j: int|
                        0 <= j < f ==> (#[trigger] row[j]) == self@.offered(
                            at,
                            square_at(r as int, j),
                        ),
                decreases 8 - f,
            {
                if let Ok(to) = Square::new(f, r) {
                    let mv = Move::Normal { from: at, to };
                    let offered = if generated {
                        if contains_move(&self.moves, mv) {
                            Some(mv)
                        } else {
                            None
                        }
                    } else if to == at {
                        None
                    } else {
                        Some(mv)
                    };
                    row[f] = offered;
                }
                f += 1;
            }
            squares[r] = row;
            r += 1;
        }
        let board_move = BoardMove { squares };
        proof {
            assert forall|to: Square| board_move.spec_get(to) == self@.offered(at, to) by {
                lemma_square_from_own_coordinates(to);
                assert(squares[to.rank.spec_index()][to.file.spec_index()] == self@.offered(
                    at,
                    square_at(to.rank.spec_index(), to.file.spec_index()),
                ));
            }
        }
        board_move
    }
}

impl ChessGame for ClientGame {
    open spec fn spec_board(&self) -> Board {
        self@.board
    }

    open spec fn spec_turn(&self) -> Color {
        self@.turn
    }

    /// A client is not told of checks.
    open spec fn spec_check(&self) -> bool {
        false
    }

    /// Takes the oldest event that has arrived, if there is one, and acts on
    /// it as `step` does.
    fn update(&mut self)
        ensures
            final(self)@ == old(self)@.update(),
    {
        if self.inbox.len() == 0 {
            assert(self@.inbox.len() == 0);
            return ;
        }
        let event = self.inbox.remove(0);
        proof {
            assert(old(self)@.inbox[0] == event@);
            assert(self@.inbox =~= old(self)@.inbox.drop_first());
            assert(self@ == (ClientModel { inbox: old(self)@.inbox.drop_first(), ..old(self)@ }));
        }
        self.step(event);
    }

    fn get_pieces(&self) -> (board: Board) {
        self.board
    }

    fn get_piece(&self, at: Square) -> (piece: Option<Piece>) {
        get_piece_at(&self.board, at)
    }

    fn get_state(&self) -> (state: GameState) {
        GameState::Normal
    }

    fn is_check(&self) -> (check: bool) {
        false
    }

    fn current_turn(&self) -> (turn: Color) {
        self.current_turn
    }

    /// Asks the host for the promotion, if anything can be asked right now.
    fn promote(&mut self, promotion_square: Square, piece: PieceTypes)
        ensures
            final(self)@ == old(self)@.request_promotion(promotion_square, piece),
    {
        let _ = self.request_promotion(promotion_square, piece);
    }

    /// The moves from `at` that the player is offered. With a host that
    /// sends the legal moves these are the ones among them that start on
    /// `at`; with another host, the moves to every other square. Castlings
    /// are never offered here.
    fn possible_moves(&mut self, at: Square) -> (moves: Result<(BoardMove, Vec<Move>), MoveError>)
        ensures
            final(self)@ == old(self)@,
            moves is Ok <==> old(self)@.closed is None && old(self)@.state == ProtocolState::Play,
            moves matches Err(why) ==> why == MoveError::NotConnected,
            moves matches Ok((board_move, castlings)) ==> castlings@.len() == 0 && forall|
                to: Square,
            |
                board_move.spec_get(to) == old(self)@.offered(at, to),
    {
        if self.closed.is_some() || self.state != ProtocolState::Play {
            return Err(MoveError::NotConnected);
        }
        let board_move = self.offered_moves(at);
        Ok((board_move, Vec::new()))
    }

    /// Asks the host for a move. The move is put up for sending and the turn
    /// passes to the host at once; the position shown stays as it is until
    /// the host answers. Nothing is sent and nothing changes while the
    /// connection is not in play (`NotConnected`), while an earlier request
    /// waits for its answer (`Busy`), once the game is decided (`GameOver`),
    /// or while it is the host's turn (`NotYourTurn`).
    fn perform_move(&mut self, mv: Move) -> (done: Result<(), MoveError>)
        ensures
            final(self)@ == old(self)@.perform_move(mv),
            done is Ok <==> old(self)@.move_refusal() is None,
            done matches Err(why) ==> old(self)@.move_refusal() == Some(why),
    {
        if self.closed.is_some() || self.state != ProtocolState::Play {
            return Err(MoveError::NotConnected);
        }
        if self.awaiting {
            return Err(MoveError::Busy);
        }
        if self.joever != GameOutcome::Ongoing {
            return Err(MoveError::GameOver);
        }
        if self.current_turn != self.host_color.opposite() {
            return Err(MoveError::NotYourTurn);
        }
        self.outbox.push(ClientPacket::Message(ClientMessage::Move(convert_move(mv))));
        self.awaiting = true;
        self.current_turn = self.host_color;
        Ok(())
    }
}

/// Whether an event is a message of the game from the host: the only kind of
/// event that answers a request.
pub open spec fn is_answer(event: ClientEventView) -> bool {
    event matches ClientEventView::Packet(HostPacketView::Message(_))
}

/// The session after the events of a list, one after the other.
pub open spec fn after_events(session: ClientModel, events: Seq<ClientEventView>) -> ClientModel
    decreases events.len(),
{
    if events.len() == 0 {
        session
    } else {
        after_events(session, events.drop_last()).step(events.last())
    }
}

/// A request that waits keeps every other request back. In a session in
/// which a request waits for the host's answer, and until a message of the
/// game has come from the host, whatever else may happen to the session,
/// every move and every promotion is refused and nothing more is put up for
/// sending. The session goes on waiting, or it has ended.
pub proof fn lemma_waiting_refuses_until_answered(
    session: ClientModel,
    events: Seq<ClientEventView>,
    next: Move,
    at: Square,
    piece: PieceTypes,
)
    requires
        session.awaiting,
        forall|i: int| 0 <= i < events.len() ==> !is_answer(#[trigger] events[i]),
    ensures
        ({
            let later = after_events(session, events);
            &&& later.outbox == session.outbox
            &&& later.awaiting || later.closed is Some
            &&& later.move_refusal() is Some
            &&& later.request_refusal() is Some
            &&& later.perform_move(next) == later
            &&& later.request_promotion(at, piece) == later
        }),
    decreases events.len(),
{
    if events.len() > 0 {
        lemma_waiting_refuses_until_answered(session, events.drop_last(), next, at, piece);
        assert(!is_answer(events.last()));
    }
}

/// At most one move is under way. Once a move has been asked for, and until
/// a message of the game has come from the host, whatever else may happen
/// to the session, every further move and every promotion is refused and
/// nothing more is put up for sending. While the session lasts, the refusal
/// is `Busy`.
pub proof fn lemma_one_request_in_flight(
    session: ClientModel,
    mv: Move,
    events: Seq<ClientEventView>,
    next: Move,
    at: Square,
    piece: PieceTypes,
)
    requires
        session.move_refusal() is None,
        forall|i: int| 0 <= i < events.len() ==> !is_answer(#[trigger] events[i]),
    ensures
        ({
            let asked = session.perform_move(mv);
            let later = after_events(asked, events);
            &&& asked.awaiting
            &&& later.outbox == asked.outbox
            &&& later.move_refusal() is Some
            &&& later.request_refusal() is Some
            &&& later.perform_move(next) == later
            &&& later.request_promotion(at, piece) == later
            &&& later.closed is None ==> later.move_refusal() == Some(MoveError::Busy)
        }),
{
    let asked = session.perform_move(mv);
    lemma_waiting_refuses_until_answered(asked, events, next, at, piece);
    lemma_in_play_or_ended(asked, events);
}

/// Events that are no messages of the game leave a session in play in play,
/// or end it.
proof fn lemma_in_play_or_ended(session: ClientModel, events: Seq<ClientEventView>)
    requires
        session.closed is None,
        session.state == ProtocolState::Play,
        forall|i: int| 0 <= i < events.len() ==> !is_answer(#[trigger] events[i]),
    ensures
        ({
            let later = after_events(session, events);
            later.closed is None ==> later.state == ProtocolState::Play
        }),
    decreases events.len(),
{
    if events.len() > 0 {
        lemma_in_play_or_ended(session, events.drop_last());
        assert(!is_answer(events.last()));
    }
}

/// One accepted move as the client sees it: the position that the host sends
/// after it, and the move that the client asks for if the move is its own.
pub struct Round {
    pub mv: Move,
    pub board: WireBoard,
    pub moves: Seq<WireMove>,
    pub last_move: WireMove,
}

/// The session after one accepted move. On its own turn the client asks for
/// the move and the host's position answers it; on the host's turn the
/// position arrives unasked.
pub open spec fn after_round(session: ClientModel, round: Round) -> ClientModel {
    let position = ClientEventView::Packet(
        HostPacketView::Message(
            HostMessageView::State {
                board: round.board,
                moves: round.moves,
                last_move: round.last_move,
                outcome: GameOutcome::Ongoing,
            },
        ),
    );
    if session.turn == session.my_color() {
        session.perform_move(round.mv).step(position)
    } else {
        session.step(position)
    }
}

/// The session after the accepted moves of a list.
pub open spec fn after_rounds(session: ClientModel, rounds: Seq<Round>) -> ClientModel
    decreases rounds.len(),
{
    if rounds.len() == 0 {
        session
    } else {
        after_round(after_rounds(session, rounds.drop_last()), rounds.last())
    }
}

/// The turn alternates. From a session in play where White is to move and
/// nothing is under way, after any number of accepted moves, made in turn by
/// the two sides, the client takes White to be on the move if that number is
/// even and Black if it is odd.
pub proof fn lemma_client_turn_alternates(session: ClientModel, rounds: Seq<Round>)
    requires
        session.in_play(),
        !session.awaiting,
        session.turn == Color::White,
        forall|i: int| 0 <= i < rounds.len() ==> all_moves_valid((#[trigger] rounds[i]).moves),
    ensures
        ({
            let later = after_rounds(session, rounds);
            &&& later.in_play()
            &&& !later.awaiting
            &&& later.host_color == session.host_color
            &&& later.turn == (if rounds.len() % 2 == 0 {
                Color::White
            } else {
                Color::Black
            })
        }),
    decreases rounds.len(),
{
    if rounds.len() > 0 {
        lemma_client_turn_alternates(session, rounds.drop_last());
        assert(all_moves_valid(rounds.last().moves));
    }
}

} // verus!
