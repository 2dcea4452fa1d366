use chess_net::board::{
    CastlingSide, Color, GameOutcome, Move, MoveError, Piece, PieceTypes, Square, empty_board,
};
use chess_net::bridge::{ChessGame, CloseReason, GameState, ProtocolState};
use chess_net::client::{ClientEvent, ClientGame};
use chess_net::wire::{
    ClientHandshake, ClientMessage, ClientPacket, Feature, HostHandshake, HostMessage, HostPacket,
    WireBoard, WireMove, WirePiece,
};

fn sq(file: usize, rank: usize) -> Square {
    Square::new(file, rank).unwrap()
}

fn normal(fx: usize, fy: usize, tx: usize, ty: usize) -> Move {
    Move::Normal { from: sq(fx, fy), to: sq(tx, ty) }
}

fn wire(fx: usize, fy: usize, tx: usize, ty: usize) -> WireMove {
    WireMove::Normal { start_x: fx, start_y: fy, end_x: tx, end_y: ty }
}

fn small_board() -> WireBoard {
    let mut board = [[WirePiece::Empty; 8]; 8];
    board[1][4] = WirePiece::WhitePawn;
    board[0][4] = WirePiece::WhiteKing;
    board[7][4] = WirePiece::BlackKing;
    board
}

fn handshake(features: Vec<Feature>) -> ClientEvent {
    ClientEvent::Packet(HostPacket::Handshake(HostHandshake {
        board: small_board(),
        moves: vec![wire(4, 1, 4, 2), wire(4, 1, 4, 3), wire(4, 0, 3, 0)],
        outcome: GameOutcome::Ongoing,
        features,
    }))
}

fn state(board: WireBoard, moves: Vec<WireMove>, last_move: WireMove) -> ClientEvent {
    ClientEvent::Packet(HostPacket::Message(HostMessage::State {
        board,
        moves,
        last_move,
        outcome: GameOutcome::Ongoing,
    }))
}

fn reject(board: WireBoard, moves: Vec<WireMove>, reason: &str) -> ClientEvent {
    ClientEvent::Packet(HostPacket::Message(HostMessage::Reject {
        board,
        moves,
        outcome: GameOutcome::Ongoing,
        reason: reason.to_string(),
    }))
}

fn playing(features: Vec<Feature>) -> ClientGame {
    let mut client = ClientGame::connect(Color::Black);
    client.take_outgoing();
    client.deliver(handshake(features));
    client.update();
    client
}

#[test]
fn connect_puts_up_the_handshake() {
    let mut client = ClientGame::connect(Color::Black);
    assert_eq!(client.get_protocol_state(), ProtocolState::Handshake);
    assert_eq!(client.closed_reason(), None);
    assert_eq!(client.current_turn(), Color::White);
    assert_eq!(client.get_pieces(), empty_board());
    assert_eq!(client.outcome(), GameOutcome::Ongoing);
    assert!(!client.has_possible_moves());
    assert!(!client.can_play_right_now());
    assert_eq!(
        client.take_outgoing(),
        vec![ClientPacket::Handshake(ClientHandshake { requested_host_color: Color::Black })]
    );
    assert_eq!(client.take_outgoing(), vec![]);
}

#[test]
fn nothing_happens_without_events() {
    let mut client = ClientGame::connect(Color::Black);
    client.update();
    client.update();
    assert_eq!(client.get_protocol_state(), ProtocolState::Handshake);
    assert_eq!(client.take_outgoing().len(), 1);
}

#[test]
fn handshake_starts_the_game() {
    let client = playing(vec![Feature::PossibleMoveGeneration]);
    assert_eq!(client.get_protocol_state(), ProtocolState::Play);
    assert!(client.has_possible_moves());
    assert!(client.can_play_right_now());
    assert_eq!(
        client.get_piece(sq(4, 1)),
        Some(Piece { piece: PieceTypes::Pawn(false), color: Color::White })
    );
    assert_eq!(
        client.get_piece(sq(4, 7)),
        Some(Piece { piece: PieceTypes::King, color: Color::Black })
    );
    assert_eq!(client.get_piece(sq(1, 4)), None);
    assert_eq!(client.get_pieces()[0][4], Some(Piece { piece: PieceTypes::King, color: Color::White }));
    assert_eq!(client.get_state(), GameState::Normal);
    assert!(!client.is_check());
}

#[test]
fn moves_before_the_game_are_not_connected() {
    let mut client = ClientGame::connect(Color::Black);
    assert_eq!(client.perform_move(normal(4, 1, 4, 3)), Err(MoveError::NotConnected));
    assert_eq!(client.possible_moves(sq(4, 1)), Err(MoveError::NotConnected));
    assert_eq!(
        client.request_promotion(sq(4, 7), PieceTypes::Queen),
        Err(MoveError::NotConnected)
    );
    assert_eq!(client.take_outgoing().len(), 1);
}

#[test]
fn possible_moves_filters_by_source() {
    let mut client = playing(vec![Feature::PossibleMoveGeneration]);
    let (board_move, castlings) = client.possible_moves(sq(4, 1)).unwrap();
    assert!(castlings.is_empty());
    for file in 0..8 {
        for rank in 0..8 {
            let to = sq(file, rank);
            let expected = if file == 4 && (rank == 2 || rank == 3) {
                Some(Move::Normal { from: sq(4, 1), to })
            } else {
                None
            };
            assert_eq!(board_move.get(to), expected);
        }
    }
    let (king_moves, _) = client.possible_moves(sq(4, 0)).unwrap();
    assert_eq!(king_moves.get(sq(3, 0)), Some(normal(4, 0, 3, 0)));
    assert_eq!(king_moves.get(sq(4, 2)), None);
    let (none, _) = client.possible_moves(sq(0, 0)).unwrap();
    for file in 0..8 {
        for rank in 0..8 {
            assert_eq!(none.get(sq(file, rank)), None);
        }
    }
}

#[test]
fn possible_moves_without_the_feature_offers_every_other_square() {
    let mut client = playing(vec![]);
    assert!(!client.has_possible_moves());
    let at = sq(2, 5);
    let (board_move, castlings) = client.possible_moves(at).unwrap();
    assert!(castlings.is_empty());
    let mut offered = 0;
    for file in 0..8 {
        for rank in 0..8 {
            let to = sq(file, rank);
            if to == at {
                assert_eq!(board_move.get(to), None);
            } else {
                assert_eq!(board_move.get(to), Some(Move::Normal { from: at, to }));
                offered += 1;
            }
        }
    }
    assert_eq!(offered, 63);
}

#[test]
fn perform_move_sends_and_passes_the_turn() {
    let mut client = playing(vec![Feature::PossibleMoveGeneration]);
    let before = client.get_pieces();
    assert_eq!(client.perform_move(normal(4, 1, 4, 3)), Ok(()));
    assert_eq!(client.current_turn(), Color::Black);
    assert!(client.is_awaiting());
    assert!(!client.can_play_right_now());
    assert_eq!(client.get_pieces(), before);
    assert_eq!(
        client.take_outgoing(),
        vec![ClientPacket::Message(ClientMessage::Move(wire(4, 1, 4, 3)))]
    );
}

#[test]
fn castling_goes_over_the_wire() {
    let mut client = playing(vec![]);
    assert_eq!(client.perform_move(Move::Castle { side: CastlingSide::KingSide }), Ok(()));
    assert_eq!(
        client.take_outgoing(),
        vec![ClientPacket::Message(ClientMessage::Move(WireMove::Castle {
            side: CastlingSide::KingSide
        }))]
    );
}

#[test]
fn second_move_before_the_answer_is_busy() {
    let mut client = playing(vec![Feature::PossibleMoveGeneration]);
    assert_eq!(client.perform_move(normal(4, 1, 4, 3)), Ok(()));
    assert_eq!(client.perform_move(normal(4, 1, 4, 2)), Err(MoveError::Busy));
    assert_eq!(client.perform_move(normal(4, 1, 4, 3)), Err(MoveError::Busy));
    assert_eq!(client.request_promotion(sq(4, 7), PieceTypes::Queen), Err(MoveError::Busy));
    assert_eq!(client.take_outgoing().len(), 1);
    assert_eq!(client.current_turn(), Color::Black);
    assert!(client.is_awaiting());
}

#[test]
fn accepted_move_keeps_the_turn_with_the_host() {
    let mut client = playing(vec![Feature::PossibleMoveGeneration]);
    client.perform_move(normal(4, 1, 4, 3)).unwrap();
    let mut board = small_board();
    board[1][4] = WirePiece::Empty;
    board[3][4] = WirePiece::WhitePawn;
    client.deliver(state(board, vec![wire(4, 7, 4, 6)], wire(4, 1, 4, 3)));
    client.update();
    assert!(!client.is_awaiting());
    assert_eq!(client.current_turn(), Color::Black);
    assert_eq!(client.get_piece(sq(4, 1)), None);
    assert_eq!(
        client.get_piece(sq(4, 3)),
        Some(Piece { piece: PieceTypes::Pawn(false), color: Color::White })
    );
    assert_eq!(client.perform_move(normal(4, 3, 4, 4)), Err(MoveError::NotYourTurn));
    assert!(client.take_outgoing().len() == 1);
    board[7][4] = WirePiece::Empty;
    board[6][4] = WirePiece::BlackKing;
    client.deliver(state(board, vec![wire(4, 3, 4, 4)], wire(4, 7, 4, 6)));
    client.update();
    assert_eq!(client.current_turn(), Color::White);
    assert!(client.can_play_right_now());
    assert_eq!(client.perform_move(normal(4, 3, 4, 4)), Ok(()));
}

#[test]
fn rejection_gives_the_turn_back() {
    let mut client = playing(vec![Feature::PossibleMoveGeneration]);
    let before = client.get_pieces();
    client.perform_move(normal(4, 1, 4, 5)).unwrap();
    assert_eq!(client.last_rejection(), None);
    client.deliver(reject(
        small_board(),
        vec![wire(4, 1, 4, 2), wire(4, 1, 4, 3)],
        "a pawn cannot go that far",
    ));
    client.update();
    assert_eq!(client.current_turn(), Color::White);
    assert!(!client.is_awaiting());
    assert!(client.can_play_right_now());
    assert_eq!(client.get_pieces(), before);
    assert_eq!(client.last_rejection(), Some("a pawn cannot go that far".to_string()));
    assert_eq!(client.get_protocol_state(), ProtocolState::Play);
    assert_eq!(client.perform_move(normal(4, 1, 4, 3)), Ok(()));
    client.deliver(state(small_board(), vec![], wire(4, 1, 4, 3)));
    client.update();
    assert_eq!(client.last_rejection(), None);
}

#[test]
fn rejection_resyncs_the_board() {
    let mut client = playing(vec![]);
    client.perform_move(normal(4, 1, 4, 3)).unwrap();
    let mut board = small_board();
    board[5][5] = WirePiece::BlackQueen;
    client.deliver(reject(board, vec![], "no"));
    client.update();
    assert_eq!(
        client.get_piece(sq(5, 5)),
        Some(Piece { piece: PieceTypes::Queen, color: Color::Black })
    );
}

#[test]
fn client_turn_alternates() {
    let mut client = playing(vec![]);
    let mut expected = Color::White;
    for n in 0..9 {
        assert_eq!(client.current_turn(), expected);
        if n % 2 == 0 {
            assert_eq!(client.perform_move(normal(4, 1, 4, 3)), Ok(()));
        }
        client.deliver(state(small_board(), vec![], wire(4, 1, 4, 3)));
        client.update();
        expected = expected.opposite();
    }
    assert_eq!(client.current_turn(), Color::Black);
}

#[test]
fn client_playing_black_waits_for_the_host() {
    let mut client = ClientGame::connect(Color::White);
    assert_eq!(
        client.take_outgoing(),
        vec![ClientPacket::Handshake(ClientHandshake { requested_host_color: Color::White })]
    );
    client.deliver(handshake(vec![]));
    client.update();
    assert_eq!(client.current_turn(), Color::White);
    assert!(!client.can_play_right_now());
    assert_eq!(client.perform_move(normal(4, 6, 4, 5)), Err(MoveError::NotYourTurn));
    client.deliver(state(small_board(), vec![], wire(4, 1, 4, 3)));
    client.update();
    assert_eq!(client.current_turn(), Color::Black);
    assert_eq!(client.perform_move(normal(4, 6, 4, 5)), Ok(()));
    assert_eq!(client.current_turn(), Color::White);
}

#[test]
fn update_takes_one_event_at_a_time_in_order() {
    let mut client = ClientGame::connect(Color::Black);
    client.deliver(handshake(vec![]));
    let mut board = small_board();
    board[3][3] = WirePiece::BlackRook;
    client.deliver(state(board, vec![], wire(0, 0, 3, 3)));
    client.deliver(ClientEvent::Disconnected);
    client.update();
    assert_eq!(client.get_protocol_state(), ProtocolState::Play);
    assert_eq!(client.get_piece(sq(3, 3)), None);
    client.update();
    assert_eq!(
        client.get_piece(sq(3, 3)),
        Some(Piece { piece: PieceTypes::Rook, color: Color::Black })
    );
    assert_eq!(client.closed_reason(), None);
    client.update();
    assert_eq!(client.closed_reason(), Some(CloseReason::Disconnected));
    assert_eq!(client.get_protocol_state(), ProtocolState::NotConnected);
}

#[test]
fn disconnection_ends_the_session() {
    let mut client = playing(vec![]);
    client.perform_move(normal(4, 1, 4, 3)).unwrap();
    client.step(ClientEvent::Disconnected);
    assert_eq!(client.closed_reason(), Some(CloseReason::Disconnected));
    assert_eq!(client.get_protocol_state(), ProtocolState::NotConnected);
    assert!(!client.is_awaiting());
    assert_eq!(client.perform_move(normal(4, 1, 4, 3)), Err(MoveError::NotConnected));
    client.step(handshake(vec![]));
    assert_eq!(client.closed_reason(), Some(CloseReason::Disconnected));
    assert_eq!(client.get_protocol_state(), ProtocolState::NotConnected);
}

#[test]
fn malformed_bytes_end_the_session() {
    let mut client = playing(vec![]);
    client.step(ClientEvent::Malformed);
    assert_eq!(client.closed_reason(), Some(CloseReason::Malformed));
    assert_eq!(client.possible_moves(sq(0, 0)), Err(MoveError::NotConnected));
}

#[test]
fn message_out_of_place_ends_the_session() {
    let mut early = ClientGame::connect(Color::Black);
    early.step(state(small_board(), vec![], wire(0, 0, 0, 1)));
    assert_eq!(early.closed_reason(), Some(CloseReason::ProtocolViolation));
    let mut late = playing(vec![]);
    late.step(handshake(vec![]));
    assert_eq!(late.closed_reason(), Some(CloseReason::ProtocolViolation));
}

#[test]
fn move_outside_the_board_ends_the_session() {
    let mut client = ClientGame::connect(Color::Black);
    client.step(ClientEvent::Packet(HostPacket::Handshake(HostHandshake {
        board: small_board(),
        moves: vec![wire(4, 1, 4, 2), wire(4, 1, 4, 8)],
        outcome: GameOutcome::Ongoing,
        features: vec![],
    })));
    assert_eq!(client.closed_reason(), Some(CloseReason::ProtocolViolation));
    let mut playing_client = playing(vec![]);
    playing_client.step(state(small_board(), vec![wire(8, 0, 0, 0)], wire(0, 0, 0, 1)));
    assert_eq!(playing_client.closed_reason(), Some(CloseReason::ProtocolViolation));
    let mut other = playing(vec![]);
    other.step(reject(small_board(), vec![wire(0, 0, 0, 64)], "no"));
    assert_eq!(other.closed_reason(), Some(CloseReason::ProtocolViolation));
}

#[test]
fn resignation_and_draw_decide_the_game() {
    let mut client = playing(vec![]);
    client.step(ClientEvent::Packet(HostPacket::Message(HostMessage::Resigned {
        winner: Color::White,
    })));
    assert_eq!(client.outcome(), GameOutcome::WhiteWins);
    assert_eq!(client.perform_move(normal(4, 1, 4, 3)), Err(MoveError::GameOver));
    assert!(!client.can_play_right_now());
    let mut other = playing(vec![]);
    other.perform_move(normal(4, 1, 4, 3)).unwrap();
    other.step(ClientEvent::Packet(HostPacket::Message(HostMessage::Draw)));
    assert_eq!(other.outcome(), GameOutcome::Draw);
    assert!(!other.is_awaiting());
    assert_eq!(
        other.request_promotion(sq(0, 7), PieceTypes::Queen),
        Err(MoveError::GameOver)
    );
}

#[test]
fn promotion_is_asked_of_the_host() {
    let mut client = playing(vec![]);
    assert_eq!(client.request_promotion(sq(3, 7), PieceTypes::Queen), Ok(()));
    assert!(client.is_awaiting());
    assert_eq!(client.current_turn(), Color::White);
    assert_eq!(
        client.take_outgoing(),
        vec![ClientPacket::Message(ClientMessage::Promote {
            x: 3,
            y: 7,
            piece: PieceTypes::Queen
        })]
    );
    client.promote(sq(3, 7), PieceTypes::Rook);
    assert_eq!(client.take_outgoing(), vec![]);
    client.step(state(small_board(), vec![], wire(3, 6, 3, 7)));
    assert!(!client.is_awaiting());
    client.promote(sq(3, 7), PieceTypes::Rook);
    assert_eq!(
        client.take_outgoing(),
        vec![ClientPacket::Message(ClientMessage::Promote {
            x: 3,
            y: 7,
            piece: PieceTypes::Rook
        })]
    );
}

#[test]
fn resign_and_offer_draw_are_sent_while_the_game_is_on() {
    let mut early = ClientGame::connect(Color::Black);
    early.take_outgoing();
    early.resign();
    early.offer_draw();
    assert_eq!(early.take_outgoing(), vec![]);
    let mut client = playing(vec![]);
    client.offer_draw();
    client.resign();
    assert_eq!(
        client.take_outgoing(),
        vec![
            ClientPacket::Message(ClientMessage::OfferDraw),
            ClientPacket::Message(ClientMessage::Resign)
        ]
    );
    client.step(ClientEvent::Packet(HostPacket::Message(HostMessage::Resigned {
        winner: Color::Black,
    })));
    assert_eq!(client.outcome(), GameOutcome::BlackWins);
    client.resign();
    assert_eq!(client.take_outgoing(), vec![]);
}
