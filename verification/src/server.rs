//! The host's side of a game. The host holds the one game that counts, lets
//! the rules judge every move, and tells the client the position after every
//! change.

use vstd::prelude::*;
use crate::board::{
    Board,
    BoardMove,
    Color,
    GameOutcome,
    Move,
    MoveError,
    Piece,
    PieceTypes,
    Square,
    castlings_of,
    get_piece_at,
    placed,
    square_at,
};
use crate::bridge::{ChessGame, CloseReason, GameState, RulesEngine};
use crate::wire::{
    ClientMessage,
    ClientPacket,
    Feature,
    HostHandshake,
    HostHandshakeView,
    HostMessage,
    HostMessageView,
    HostPacket,
    HostPacketView,
    WireMove,
    convert_board,
    lemma_move_round_trip,
    move_from_wire,
    spec_convert_board,
    spec_convert_move,
    spec_move_from_wire,
    spec_moves_to_wire,
};
pub use crate::bridge::ProtocolState;
pub use crate::wire::convert_move;

verus! {

/// What can reach a host from its connection.
#[derive(Clone, Copy, Debug, PartialEq, Eq, Structural)]
pub enum HostEvent {
    /// A packet from the client.
    Packet(ClientPacket),
    /// Bytes that are no packet.
    Malformed,
    /// The client has closed the connection.
    Disconnected,
}

/// The square with the number `index`, counting up the first column, then
/// the second, and so on.
pub open spec fn square_of_index(index: int) -> Square {
    square_at(index % 8, index / 8)
}

/// The records of the legal moves that start on the first `count` squares,
/// square by square.
pub open spec fn moves_upto<E: RulesEngine>(game: E, count: nat) -> Seq<WireMove>
    decreases count,
{
    if count == 0 {
        Seq::empty()
    } else {
        moves_upto(game, (count - 1) as nat) + spec_moves_to_wire(
            game.moves_of(square_of_index(count - 1))@,
        )
    }
}

/// The records of all legal moves of a game.
pub open spec fn all_moves<E: RulesEngine>(game: E) -> Seq<WireMove> {
    moves_upto(game, 64)
}

/// What the host offers.
pub open spec fn host_features() -> Seq<Feature> {
    seq![Feature::PossibleMoveGeneration]
}

/// Why a request is refused once the game is decided.
pub open spec fn reason_decided() -> Seq<char> {
    "the game is decided"@
}

/// Why a request that names a square outside the board is refused.
pub open spec fn reason_no_square() -> Seq<char> {
    "no such square on the board"@
}

/// Why a move is refused while the other side is on the move.
pub open spec fn reason_not_your_turn() -> Seq<char> {
    "it is not your turn"@
}

/// Why a promotion is refused before any move was made.
pub open spec fn reason_no_move() -> Seq<char> {
    "no move has been made"@
}

/// A host's session as a mathematical value.
pub struct ServerModel<E> {
    /// The game that counts.
    pub game: E,
    /// How far the connection has come.
    pub state: ProtocolState,
    /// Why the session has ended, if it has.
    pub closed: Option<CloseReason>,
    /// The colour that the host plays; the client plays the other.
    pub host_color: Color,
    /// How the game stands.
    pub outcome: GameOutcome,
    /// The last move that was made.
    pub last_move: Option<WireMove>,
    /// Whether the client has offered a draw.
    pub draw_offered: bool,
    /// What has arrived and was not looked at yet, oldest first.
    pub inbox: Seq<HostEvent>,
    /// What is to be sent, oldest first.
    pub outbox: Seq<HostPacketView>,
}

impl<E: RulesEngine> ServerModel<E> {
    /// A session that waits for a client.
    pub open spec fn new(game: E) -> ServerModel<E> {
        ServerModel {
            game,
            state: ProtocolState::NotConnected,
            closed: None,
            host_color: Color::Black,
            outcome: GameOutcome::Ongoing,
            last_move: None,
            draw_offered: false,
            inbox: Seq::empty(),
            outbox: Seq::empty(),
        }
    }

    /// The colour that the client plays.
    pub open spec fn client_color(self) -> Color {
        self.host_color.spec_opposite()
    }

    /// Whether the game is on and not decided.
    pub open spec fn in_play(self) -> bool {
        self.closed is None && self.state == ProtocolState::Play && self.outcome
            == GameOutcome::Ongoing
    }

    /// The session with one more packet to be sent.
    pub open spec fn send(self, packet: HostPacketView) -> ServerModel<E> {
        ServerModel { outbox: self.outbox.push(packet), ..self }
    }

    /// The session with one more event waiting.
    pub open spec fn deliver(self, event: HostEvent) -> ServerModel<E> {
        ServerModel { inbox: self.inbox.push(event), ..self }
    }

    /// The session ended for the reason `why`.
    pub open spec fn end(self, why: CloseReason) -> ServerModel<E> {
        ServerModel { state: ProtocolState::NotConnected, closed: Some(why), ..self }
    }

    /// The session after a look at the listening socket: a client that has
    /// come in while the host waited for one is taken on.
    pub open spec fn try_accept_client(self, incoming: bool) -> ServerModel<E> {
        if incoming && self.closed is None && self.state == ProtocolState::NotConnected {
            ServerModel { state: ProtocolState::Handshake, ..self }
        } else {
            self
        }
    }

    /// The host's answer to the client's handshake.
    pub open spec fn handshake_packet(self) -> HostPacketView {
        HostPacketView::Handshake(
            HostHandshakeView {
                board: spec_convert_board(self.game.board_of()),
                moves: all_moves(self.game),
                outcome: self.outcome,
                features: host_features(),
            },
        )
    }

    /// The packet that tells the position and the last move. It is meant for
    /// a session in which a move was made.
    pub open spec fn state_packet(self) -> HostPacketView {
        HostPacketView::Message(
            HostMessageView::State {
                board: spec_convert_board(self.game.board_of()),
                moves: all_moves(self.game),
                last_move: self.last_move->Some_0,
                outcome: self.outcome,
            },
        )
    }

    /// The packet that refuses a request for the reason given, and tells the
    /// position as it stands.
    pub open spec fn reject_packet(self, reason: Seq<char>) -> HostPacketView {
        HostPacketView::Message(
            HostMessageView::Reject {
                board: spec_convert_board(self.game.board_of()),
                moves: all_moves(self.game),
                outcome: self.outcome,
                reason,
            },
        )
    }

    /// The session after a request was refused: the refusal is to be sent,
    /// and nothing else has changed.
    pub open spec fn reject(self, reason: Seq<char>) -> ServerModel<E> {
        self.send(self.reject_packet(reason))
    }

    /// The session after the position was put up for sending, which happens
    /// while a client is connected.
    pub open spec fn send_state(self) -> ServerModel<E> {
        if self.closed is None && self.state != ProtocolState::NotConnected {
            self.send(self.state_packet())
        } else {
            self
        }
    }

    /// The session after the rules have accepted a move: the new game is the
    /// one that counts, and the client is told the position.
    pub open spec fn commit(self, next: E, last_move: WireMove) -> ServerModel<E> {
        let moved = ServerModel { game: next, last_move: Some(last_move), ..self };
        moved.send(moved.state_packet())
    }

    /// Why the client's request for the move with the record `wire` is
    /// refused, if it is: the game is decided, the record names a square
    /// outside the board, the rules see the host on the move, or the rules
    /// forbid the move.
    pub open spec fn client_move_refusal(self, wire: WireMove) -> Option<Seq<char>> {
        if self.outcome != GameOutcome::Ongoing {
            Some(reason_decided())
        } else {
            match spec_move_from_wire(wire) {
                Err(_) => Some(reason_no_square()),
                Ok(mv) => if self.game.turn_of() != self.client_color() {
                    Some(reason_not_your_turn())
                } else {
                    match self.game.applied(mv) {
                        Err(reason) => Some(reason@),
                        Ok(_) => None,
                    }
                },
            }
        }
    }

    /// The session after the client has asked for a move.
    pub open spec fn on_client_move(self, wire: WireMove) -> ServerModel<E> {
        match self.client_move_refusal(wire) {
            Some(reason) => self.reject(reason),
            None => self.commit(self.game.applied(spec_move_from_wire(wire)->Ok_0)->Ok_0, wire),
        }
    }

    /// Why the client's request for a promotion is refused, if it is.
    pub open spec fn client_promotion_refusal(self, x: usize, y: usize, piece: PieceTypes) -> Option<
        Seq<char>,
    > {
        if self.outcome != GameOutcome::Ongoing {
            Some(reason_decided())
        } else if self.last_move is None {
            Some(reason_no_move())
        } else {
            match Square::spec_new(x as int, y as int) {
                Err(_) => Some(reason_no_square()),
                Ok(at) => match self.game.promoted(at, piece) {
                    Err(reason) => Some(reason@),
                    Ok(_) => None,
                },
            }
        }
    }

    /// The session after the client has asked for a promotion.
    pub open spec fn on_client_promote(self, x: usize, y: usize, piece: PieceTypes) -> ServerModel<
        E,
    > {
        match self.client_promotion_refusal(x, y, piece) {
            Some(reason) => self.reject(reason),
            None => {
                let next = self.game.promoted(Square::spec_new(x as int, y as int)->Ok_0, piece)->Ok_0;
                let promoted = ServerModel { game: next, ..self };
                promoted.send(promoted.state_packet())
            },
        }
    }

    /// The session after one side has given up while the game was on.
    pub open spec fn resigned_by(self, loser: Color) -> ServerModel<E> {
        let decided = ServerModel {
            outcome: GameOutcome::spec_won_by(loser.spec_opposite()),
            ..self
        };
        decided.send(
            HostPacketView::Message(HostMessageView::Resigned { winner: loser.spec_opposite() }),
        )
    }

    /// The session after a message of the game from the client.
    pub open spec fn on_message(self, message: ClientMessage) -> ServerModel<E> {
        match message {
            ClientMessage::Move(wire) => self.on_client_move(wire),
            ClientMessage::Promote { x, y, piece } => self.on_client_promote(x, y, piece),
            ClientMessage::Resign => if self.outcome == GameOutcome::Ongoing {
                self.resigned_by(self.client_color())
            } else {
                self
            },
            ClientMessage::OfferDraw => if self.outcome == GameOutcome::Ongoing {
                ServerModel { draw_offered: true, ..self }
            } else {
                self
            },
        }
    }

    /// The session after one event. A session that has ended, or that has no
    /// client, stays as it is.
    pub open spec fn step(self, event: HostEvent) -> ServerModel<E> {
        if self.closed is Some || self.state == ProtocolState::NotConnected {
            self
        } else {
            match event {
                HostEvent::Disconnected => self.end(CloseReason::Disconnected),
                HostEvent::Malformed => self.end(CloseReason::Malformed),
                HostEvent::Packet(ClientPacket::Handshake(handshake)) => if self.state
                    == ProtocolState::Handshake {
                    let colored = ServerModel {
                        host_color: handshake.requested_host_color,
                        state: ProtocolState::Play,
                        ..self
                    };
                    colored.send(colored.handshake_packet())
                } else {
                    self.end(CloseReason::ProtocolViolation)
                },
                HostEvent::Packet(ClientPacket::Message(message)) => if self.state
                    == ProtocolState::Play {
                    self.on_message(message)
                } else {
                    self.end(CloseReason::ProtocolViolation)
                },
            }
        }
    }

    /// The session after one call of `update`: the oldest waiting event, if
    /// there is one, is taken and acted on.
    pub open spec fn update(self) -> ServerModel<E> {
        if self.inbox.len() == 0 {
            self
        } else {
            (ServerModel { inbox: self.inbox.drop_first(), ..self }).step(self.inbox[0])
        }
    }

    /// Why the host's own move is not made, if it is not, but for the
    /// verdict of the rules.
    pub open spec fn own_move_refusal(self) -> Option<MoveError> {
        if self.closed is Some || self.state != ProtocolState::Play {
            Some(MoveError::NotConnected)
        } else if self.outcome != GameOutcome::Ongoing {
            Some(MoveError::GameOver)
        } else if self.game.turn_of() != self.host_color {
            Some(MoveError::NotYourTurn)
        } else {
            None
        }
    }

    /// Whether the host's own move `mv` is made.
    pub open spec fn own_move_accepted(self, mv: Move) -> bool {
        self.own_move_refusal() is None && self.game.applied(mv) is Ok
    }

    /// The session after the host has asked for its own move.
    pub open spec fn perform_move(self, mv: Move) -> ServerModel<E> {
        if self.own_move_accepted(mv) {
            self.commit(self.game.applied(mv)->Ok_0, spec_convert_move(mv))
        } else {
            self
        }
    }

    /// The session after the host has asked for its own promotion.
    pub open spec fn promote(self, at: Square, piece: PieceTypes) -> ServerModel<E> {
        if self.in_play() && self.game.promoted(at, piece) is Ok {
            let promoted = ServerModel { game: self.game.promoted(at, piece)->Ok_0, ..self };
            if self.last_move is Some {
                promoted.send(promoted.state_packet())
            } else {
                promoted
            }
        } else {
            self
        }
    }

    /// The session after the host has given up.
    pub open spec fn resign(self) -> ServerModel<E> {
        if self.in_play() {
            self.resigned_by(self.host_color)
        } else {
            self
        }
    }

    /// The session after the host has accepted the client's offer of a draw.
    pub open spec fn accept_draw(self) -> ServerModel<E> {
        if self.in_play() && self.draw_offered {
            (ServerModel { outcome: GameOutcome::Draw, ..self }).send(
                HostPacketView::Message(HostMessageView::Draw),
            )
        } else {
            self
        }
    }
}

/// The host's side of a game, with the rules `E` as judge.
pub struct ServerGame<E: RulesEngine> {
    game: E,
    protocol_state: ProtocolState,
    closed: Option<CloseReason>,
    host_color: Color,
    outcome: GameOutcome,
    last_move_made: Option<WireMove>,
    draw_offered: bool,
    inbox: Vec<HostEvent>,
    outbox: Vec<HostPacket>,
}

impl<E: RulesEngine> View for ServerGame<E> {
    type V = ServerModel<E>;

    closed spec fn view(&self) -> ServerModel<E> {
        ServerModel {
            game: self.game,
            state: self.protocol_state,
            closed: self.closed,
            host_color: self.host_color,
            outcome: self.outcome,
            last_move: self.last_move_made,
            draw_offered: self.draw_offered,
            inbox: self.inbox@,
            outbox: self.outbox@.map_values(|packet: HostPacket| packet@),
        }
    }
}

impl<E: RulesEngine> ServerGame<E> {
    /// A session that holds `game` and waits for a client.
    pub fn new(game: E) -> (server: ServerGame<E>)
        ensures
            server@ == ServerModel::new(game),
    {
        let server = ServerGame {
            game,
            protocol_state: ProtocolState::NotConnected,
            closed: None,
            host_color: Color::Black,
            outcome: GameOutcome::Ongoing,
            last_move_made: None,
            draw_offered: false,
            inbox: Vec::new(),
            outbox: Vec::new(),
        };
        proof {
            assert(server@.outbox =~= Seq::empty());
        }
        server
    }

    /// How far the connection has come.
    pub fn get_protocol_state(&self) -> (state: ProtocolState)
        ensures
            state == self@.state,
    {
        self.protocol_state
    }

    /// Why the session has ended, if it has.
    pub fn closed_reason(&self) -> (why: Option<CloseReason>)
        ensures
            why == self@.closed,
    {
        self.closed
    }

    /// How the game stands.
    pub fn outcome(&self) -> (outcome: GameOutcome)
        ensures
            outcome == self@.outcome,
    {
        self.outcome
    }

    /// The colour that the host plays.
    pub fn host_color(&self) -> (color: Color)
        ensures
            color == self@.host_color,
    {
        self.host_color
    }

    /// Whether the client has offered a draw.
    pub fn draw_offered(&self) -> (offered: bool)
        ensures
            offered == self@.draw_offered,
    {
        self.draw_offered
    }

    /// Takes on a client: `incoming` says whether one has come in. While the
    /// host waits for a client, one that has come in moves the session on to
    /// the handshake; otherwise nothing changes.
    pub fn try_accept_client(&mut self, incoming: bool)
        ensures
            final(self)@ == old(self)@.try_accept_client(incoming),
    {
        if incoming && self.closed.is_none() && self.protocol_state == ProtocolState::NotConnected {
            self.protocol_state = ProtocolState::Handshake;
        }
    }

    /// Hands the session an event from its connection, to be acted on by a
    /// later `update`.
    pub fn deliver(&mut self, event: HostEvent)
        ensures
            final(self)@ == old(self)@.deliver(event),
    {
        self.inbox.push(event);
    }

    /// What is to be sent, oldest first. The session keeps none of it.
    pub fn take_outgoing(&mut self) -> (packets: Vec<HostPacket>)
        ensures
            packets@.len() == old(self)@.outbox.len(),
            packets@.map_values(|packet: HostPacket| packet@) == old(self)@.outbox,
            final(self)@ == (ServerModel { outbox: Seq::empty(), ..old(self)@ }),
    {
        let mut packets: Vec<HostPacket> = Vec::new();
        std::mem::swap(&mut packets, &mut self.outbox);
        proof {
            assert(self@.outbox =~= Seq::empty());
        }
        packets
    }

    /// The records of all legal moves, as the rules give them square by
    /// square: up the first column, then the second, and so on.
    pub fn get_moves(&self) -> (moves: Vec<WireMove>)
        ensures
            moves@ == all_moves(self@.game),
    {
        let mut moves: Vec<WireMove> = Vec::new();
        let mut index: usize = 0;
        while index < 64
            invariant
                index <= 64,
                moves@ == moves_upto(self.game, index as nat),
            decreases 64 - index,
        {
            if let Ok(square) = Square::new(index / 8, index % 8) {
                assert(square == square_of_index(index as int));
                let found = self.game.legal_moves(square);
                let ghost before = moves@;
                let mut i: usize = 0;
                while i < found.len()
                    invariant
                        i <= found.len(),
                        moves@ == before + spec_moves_to_wire(found@.take(i as int)),
                    decreases found.len() - i,
                {
                    moves.push(convert_move(found[i]));
                    proof {
                        assert(found@.take(i + 1) =~= found@.take(i as int).push(found@[i as int]));
                        assert(before + spec_moves_to_wire(found@.take(i + 1)) =~= (before
                            + spec_moves_to_wire(found@.take(i as int))).push(
                            spec_convert_move(found@[i as int]),
                        ));
                    }
                    i += 1;
                }
                proof {
                    assert(found@.take(i as int) =~= found@);
                }
            }
            index += 1;
        }
        moves
    }

    fn send(&mut self, packet: HostPacket)
        ensures
            final(self)@ == old(self)@.send(packet@),
    {
        self.outbox.push(packet);
        proof {
            assert(self@.outbox =~= old(self)@.outbox.push(packet@));
        }
    }

    fn state_packet(&self) -> (packet: HostPacket)
        requires
            self@.last_move is Some,
        ensures
            packet@ == self@.state_packet(),
    {
        let last_move = match self.last_move_made {
            Some(mv) => mv,
            None => WireMove::Normal { start_x: 0, start_y: 0, end_x: 0, end_y: 0 },
        };
        HostPacket::Message(
            HostMessage::State {
                board: convert_board(self.game.board()),
                moves: self.get_moves(),
                last_move,
                outcome: self.outcome,
            },
        )
    }

    /// Puts the position and the last move up for sending, while a client is
    /// connected. A move must have been made.
    pub fn send_state(&mut self)
        requires
            old(self)@.last_move is Some,
        ensures
            final(self)@ == old(self)@.send_state(),
    {
        if self.closed.is_none() && self.protocol_state != ProtocolState::NotConnected {
            let packet = self.state_packet();
            self.send(packet);
        }
    }

    fn reject(&mut self, reason: String)
        ensures
            final(self)@ == old(self)@.reject(reason@),
    {
        let packet = HostPacket::Message(
            HostMessage::Reject {
                board: convert_board(self.game.board()),
                moves: self.get_moves(),
                outcome: self.outcome,
                reason,
            },
        );
        self.send(packet);
    }

    fn commit(&mut self, next: E, last_move: WireMove)
        ensures
            final(self)@ == old(self)@.commit(next, last_move),
    {
        self.game = next;
        self.last_move_made = Some(last_move);
        let packet = self.state_packet();
        self.send(packet);
    }

    fn end(&mut self, why: CloseReason)
        ensures
            final(self)@ == old(self)@.end(why),
    {
        self.protocol_state = ProtocolState::NotConnected;
        self.closed = Some(why);
    }

    /// Judges a move that the client asks for. A move that the rules accept
    /// becomes part of the game, and the client is told the new position.
    /// Any other is refused with a reason and changes nothing in the game:
    /// one asked for once the game is decided, one that names a square
    /// outside the board, one asked for while the rules see the host on the
    /// move, and one that the rules forbid.
    fn on_client_move(&mut self, wire: WireMove)
        ensures
            final(self)@ == old(self)@.on_client_move(wire),
    {
        if self.outcome != GameOutcome::Ongoing {
            self.reject("the game is decided".to_owned());
            return ;
        }
        match move_from_wire(wire) {
            Err(_) => {
                self.reject("no such square on the board".to_owned());
            },
            Ok(mv) => {
                if self.game.current_turn() != self.host_color.opposite() {
                    self.reject("it is not your turn".to_owned());
                    return ;
                }
                match self.game.apply(mv) {
                    Err(reason) => {
                        self.reject(reason);
                    },
                    Ok(next) => {
                        self.commit(next, wire);
                    },
                }
            },
        }
    }

    /// Judges a promotion that the client asks for: it is carried out and
    /// the client told the new position, or it is refused with a reason and
    /// changes nothing in the game.
    fn on_client_promote(&mut self, x: usize, y: usize, piece: PieceTypes)
        ensures
            final(self)@ == old(self)@.on_client_promote(x, y, piece),
    {
        if self.outcome != GameOutcome::Ongoing {
            self.reject("the game is decided".to_owned());
            return ;
        }
        if self.last_move_made.is_none() {
            self.reject("no move has been made".to_owned());
            return ;
        }
        match Square::new(x, y) {
            Err(_) => {
                self.reject("no such square on the board".to_owned());
            },
            Ok(at) => match self.game.promote(at, piece) {
                Err(reason) => {
                    self.reject(reason);
                },
                Ok(next) => {
                    self.game = next;
                    let packet = self.state_packet();
                    self.send(packet);
                },
            },
        }
    }

    fn resigned_by(&mut self, loser: Color)
        ensures
            final(self)@ == old(self)@.resigned_by(loser),
    {
        let winner = loser.opposite();
        self.outcome = GameOutcome::won_by(winner);
        self.send(HostPacket::Message(HostMessage::Resigned { winner }));
    }

    fn on_message(&mut self, message: ClientMessage)
        ensures
            final(self)@ == old(self)@.on_message(message),
    {
        match message {
            ClientMessage::Move(wire) => self.on_client_move(wire),
            ClientMessage::Promote { x, y, piece } => self.on_client_promote(x, y, piece),
            ClientMessage::Resign => {
                if self.outcome == GameOutcome::Ongoing {
                    let loser = self.host_color.opposite();
                    self.resigned_by(loser);
                }
            },
            ClientMessage::OfferDraw => {
                if self.outcome == GameOutcome::Ongoing {
                    self.draw_offered = true;
                }
            },
        }
    }

    /// Acts on one event. The client's handshake is answered with the
    /// position and starts the game; a move or a promotion is judged; a
    /// resignation decides the game; an offer of a draw is noted. A closed
    /// connection, bytes that are no message and a message out of place end
    /// the session.
    pub fn step(&mut self, event: HostEvent)
        ensures
            final(self)@ == old(self)@.step(event),
    {
        if self.closed.is_some() || self.protocol_state == ProtocolState::NotConnected {
            return ;
        }
        match event {
            HostEvent::Disconnected => self.end(CloseReason::Disconnected),
            HostEvent::Malformed => self.end(CloseReason::Malformed),
            HostEvent::Packet(ClientPacket::Handshake(handshake)) => {
                if self.protocol_state == ProtocolState::Handshake {
                    self.host_color = handshake.requested_host_color;
                    self.protocol_state = ProtocolState::Play;
                    let mut features: Vec<Feature> = Vec::new();
                    features.push(Feature::PossibleMoveGeneration);
                    let packet = HostPacket::Handshake(
                        HostHandshake {
                            board: convert_board(self.game.board()),
                            moves: self.get_moves(),
                            outcome: self.outcome,
                            features,
                        },
                    );
                    proof {
                        assert(features@ =~= host_features());
                    }
                    self.send(packet);
                } else {
                    self.end(CloseReason::ProtocolViolation);
                }
            },
            HostEvent::Packet(ClientPacket::Message(message)) => {
                if self.protocol_state == ProtocolState::Play {
                    self.on_message(message);
                } else {
                    self.end(CloseReason::ProtocolViolation);
                }
            },
        }
    }

    /// While the session waits for the client's handshake: takes the oldest
    /// event that has arrived, if there is one, and acts on it as `step`
    /// does. At any other time nothing happens.
    pub fn try_handshake(&mut self)
        ensures
            final(self)@ == (if old(self)@.state == ProtocolState::Handshake {
                old(self)@.update()
            } else {
                old(self)@
            }),
    {
        if self.protocol_state == ProtocolState::Handshake {
            self.update();
        }
    }

    /// The host gives the game up: while the game is on, the client has won
    /// and is told so.
    pub fn resign(&mut self)
        ensures
            final(self)@ == old(self)@.resign(),
    {
        if self.closed.is_none() && self.protocol_state == ProtocolState::Play && self.outcome
            == GameOutcome::Ongoing {
            let loser = self.host_color;
            self.resigned_by(loser);
        }
    }

    /// The host accepts the draw that the client has offered: while the game
    /// is on, it ends in a draw and the client is told so.
    pub fn accept_draw(&mut self)
        ensures
            final(self)@ == old(self)@.accept_draw(),
    {
        if self.closed.is_none() && self.protocol_state == ProtocolState::Play && self.outcome
            == GameOutcome::Ongoing && self.draw_offered {
            self.outcome = GameOutcome::Draw;
            self.send(HostPacket::Message(HostMessage::Draw));
        }
    }
}

impl<E: RulesEngine> ChessGame for ServerGame<E> {
    open spec fn spec_board(&self) -> Board {
        self@.game.board_of()
    }

    open spec fn spec_turn(&self) -> Color {
        self@.game.turn_of()
    }

    open spec fn spec_check(&self) -> bool {
        self@.game.check_of()
    }

    /// Takes the oldest event that has arrived, if there is one, and acts on
    /// it as `step` does.
    fn update(&mut self)
        ensures
            final(self)@ == old(self)@.update(),
    {
        if self.inbox.len() == 0 {
            return ;
        }
        let event = self.inbox.remove(0);
        proof {
            assert(self@.inbox =~= old(self)@.inbox.drop_first());
            assert(self@ == (ServerModel { inbox: old(self)@.inbox.drop_first(), ..old(self)@ }));
        }
        self.step(event);
    }

    fn get_pieces(&self) -> (board: Board) {
        self.game.board()
    }

    fn get_piece(&self, at: Square) -> (piece: Option<Piece>) {
        let board = self.game.board();
        get_piece_at(&board, at)
    }

    fn get_state(&self) -> (state: GameState) {
        if self.game.in_check() {
            GameState::Check
        } else {
            GameState::Normal
        }
    }

    fn is_check(&self) -> (check: bool) {
        self.game.in_check()
    }

    fn current_turn(&self) -> (turn: Color) {
        self.game.current_turn()
    }

    /// The host's own promotion. While the game is on and the rules allow
    /// it, it is carried out, and once a move was made the client is told
    /// the new position. Otherwise nothing changes.
    fn promote(&mut self, promotion_square: Square, piece: PieceTypes)
        ensures
            final(self)@ == old(self)@.promote(promotion_square, piece),
    {
        if self.closed.is_none() && self.protocol_state == ProtocolState::Play && self.outcome
            == GameOutcome::Ongoing {
            match self.game.promote(promotion_square, piece) {
                Err(_) => {},
                Ok(next) => {
                    self.game = next;
                    if self.last_move_made.is_some() {
                        let packet = self.state_packet();
                        self.send(packet);
                    }
                },
            }
        }
    }

    /// The legal moves that start on `at`, as the rules give them: each on
    /// the square where it ends, and the castlings apart.
    fn possible_moves(&mut self, at: Square) -> (moves: Result<(BoardMove, Vec<Move>), MoveError>)
        ensures
            final(self)@ == old(self)@,
            moves matches Ok((board_move, castlings)) && castlings@ == castlings_of(
                old(self)@.game.moves_of(at)@,
            ) && forall|to: Square|
                board_move.spec_get(to) == placed(old(self)@.game.moves_of(at)@, to),
    {
        let found = self.game.legal_moves(at);
        let laid = BoardMove::lay_out(&found);
        Ok(laid)
    }

    /// The host's own move. While the game is on, the rules see the host on
    /// the move and accept the move, it becomes part of the game and the
    /// client is told the new position. Otherwise nothing changes: with no
    /// connection in play the answer is `NotConnected`, once the game is
    /// decided `GameOver`, on the client's turn `NotYourTurn`, and for a
    /// move that the rules forbid `Rejected` with their reason.
    fn perform_move(&mut self, mv: Move) -> (done: Result<(), MoveError>)
        ensures
            final(self)@ == old(self)@.perform_move(mv),
            done is Ok <==> old(self)@.own_move_accepted(mv),
            done matches Err(why) ==> (match old(self)@.own_move_refusal() {
                Some(refusal) => why == refusal,
                None => why matches MoveError::Rejected(reason) && old(self)@.game.applied(mv)
                    matches Err(because) && reason@ == because@,
            }),
    {
        if self.closed.is_some() || self.protocol_state != ProtocolState::Play {
            return Err(MoveError::NotConnected);
        }
        if self.outcome != GameOutcome::Ongoing {
            return Err(MoveError::GameOver);
        }
        if self.game.current_turn() != self.host_color {
            return Err(MoveError::NotYourTurn);
        }
        match self.game.apply(mv) {
            Err(reason) => Err(MoveError::Rejected(reason)),
            Ok(next) => {
                self.commit(next, convert_move(mv));
                Ok(())
            },
        }
    }
}

/// A refused move leaves the game as it was. Whenever the host refuses a
/// move that the client asks for, whatever the reason, the game that counts,
/// with its position and the side on the move, how the game stands and the
/// last move are the same as before; all that has happened is that the
/// refusal, which tells the unchanged position, is to be sent.
pub proof fn lemma_rejection_changes_nothing<E: RulesEngine>(
    session: ServerModel<E>,
    wire: WireMove,
)
    requires
        session.client_move_refusal(wire) is Some,
    ensures
        ({
            let later = session.on_client_move(wire);
            let reason = session.client_move_refusal(wire)->Some_0;
            &&& later == (ServerModel {
                outbox: session.outbox.push(session.reject_packet(reason)),
                ..session
            })
            &&& later.game == session.game
            &&& later.game.board_of() == session.game.board_of()
            &&& later.game.turn_of() == session.game.turn_of()
            &&& later.outcome == session.outcome
            &&& later.last_move == session.last_move
            &&& later.state == session.state
        }),
{
}

/// The host's own move, when it is not made, changes nothing at all.
pub proof fn lemma_refused_own_move_changes_nothing<E: RulesEngine>(
    session: ServerModel<E>,
    mv: Move,
)
    requires
        !session.own_move_accepted(mv),
    ensures
        session.perform_move(mv) == session,
{
}

/// Whether the rules pass the turn with every move they accept.
pub open spec fn turn_passes<E: RulesEngine>() -> bool {
    forall|game: E, mv: Move|
        (#[trigger] game.applied(mv)) matches Ok(next) ==> next.turn_of()
            == game.turn_of().spec_opposite()
}

/// The session after the side that the rules see on the move has asked for
/// `mv`: the host itself, or the client over the wire.
pub open spec fn after_move<E: RulesEngine>(session: ServerModel<E>, mv: Move) -> ServerModel<E> {
    if session.game.turn_of() == session.host_color {
        session.perform_move(mv)
    } else {
        session.on_client_move(spec_convert_move(mv))
    }
}

/// The session after the moves of a list, each asked for by the side on the
/// move.
pub open spec fn after_moves<E: RulesEngine>(session: ServerModel<E>, moves: Seq<Move>) -> ServerModel<
    E,
>
    decreases moves.len(),
{
    if moves.len() == 0 {
        session
    } else {
        after_move(after_moves(session, moves.drop_last()), moves.last())
    }
}

/// Whether the rules accept each move of a list in the game that the moves
/// before it have led to.
pub open spec fn all_accepted<E: RulesEngine>(session: ServerModel<E>, moves: Seq<Move>) -> bool
    decreases moves.len(),
{
    moves.len() == 0 || (all_accepted(session, moves.drop_last()) && after_moves(
        session,
        moves.drop_last(),
    ).game.applied(moves.last()) is Ok)
}

/// The turn alternates. With rules that pass the turn with every move they
/// accept, from a session in play where White is to move, after any number
/// of accepted moves, each asked for by the side on the move, White is on
/// the move if that number is even and Black if it is odd; and every one of
/// these moves was put up for the client as the last move made.
pub proof fn lemma_host_turn_alternates<E: RulesEngine>(session: ServerModel<E>, moves: Seq<Move>)
    requires
        session.in_play(),
        session.game.turn_of() == Color::White,
        turn_passes::<E>(),
        all_accepted(session, moves),
    ensures
        ({
            let later = after_moves(session, moves);
            &&& later.in_play()
            &&& later.host_color == session.host_color
            &&& later.game.turn_of() == (if moves.len() % 2 == 0 {
                Color::White
            } else {
                Color::Black
            })
            &&& moves.len() > 0 ==> later.last_move == Some(spec_convert_move(moves.last()))
        }),
    decreases moves.len(),
{
    if moves.len() > 0 {
        lemma_host_turn_alternates(session, moves.drop_last());
        let before = after_moves(session, moves.drop_last());
        let mv = moves.last();
        lemma_move_round_trip(mv);
        assert(before.game.applied(mv) is Ok);
        if before.game.turn_of() == before.host_color {
            assert(before.own_move_accepted(mv));
        } else {
            assert(before.client_move_refusal(spec_convert_move(mv)) is None);
        }
    }
}

} // verus!
