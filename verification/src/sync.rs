//! How the two sides of a connection stay in step: what the host puts up
//! for sending is, once the client has acted on it, what the client shows.

use vstd::prelude::*;
use crate::board::Move;
use crate::bridge::{ProtocolState, RulesEngine};
use crate::client::{ClientEventView, ClientModel};
use crate::server::{HostEvent, ServerModel, all_moves, moves_upto, square_of_index};
use crate::wire::{
    ClientMessage,
    ClientPacket,
    all_moves_valid,
    lemma_board_round_trip,
    lemma_boards_agree,
    lemma_move_round_trip,
    lemma_wire_move_round_trip,
    spec_convert_move,
    spec_move_from_wire,
    spec_moves_from_wire,
    spec_moves_to_wire,
    without_flag,
};

verus! {

/// Whether the client shows the host's game: the host's position, but for
/// the en-passant flags of the pawns, the records of the host's legal moves,
/// and how the game stands.
pub open spec fn mirrors<E: RulesEngine>(client: ClientModel, host: ServerModel<E>) -> bool {
    &&& forall|r: int, f: int|
        0 <= r < 8 && 0 <= f < 8 ==> (#[trigger] client.board[r][f]) == without_flag(
            host.game.board_of()[r][f],
        )
    &&& spec_moves_to_wire(client.moves) == all_moves(host.game)
    &&& client.outcome == host.outcome
}

/// Every record that the host makes of its legal moves names a move.
pub proof fn lemma_host_moves_name_moves<E: RulesEngine>(game: E, count: nat)
    ensures
        all_moves_valid(moves_upto(game, count)),
        spec_moves_to_wire(spec_moves_from_wire(moves_upto(game, count))) == moves_upto(
            game,
            count,
        ),
    decreases count,
{
    let all = moves_upto(game, count);
    if count > 0 {
        lemma_host_moves_name_moves(game, (count - 1) as nat);
        let before = moves_upto(game, (count - 1) as nat);
        let found = game.moves_of(square_of_index(count - 1))@;
        assert forall|i: int| 0 <= i < all.len() implies (#[trigger] spec_move_from_wire(
            all[i],
        )) is Ok by {
            if i < before.len() {
                assert(all[i] == before[i]);
            } else {
                assert(all[i] == spec_convert_move(found[i - before.len()]));
                lemma_move_round_trip(found[i - before.len()]);
            }
        }
    }
    assert forall|i: int| 0 <= i < all.len() implies spec_moves_to_wire(
        spec_moves_from_wire(all),
    )[i] == all[i] by {
        lemma_wire_move_round_trip(all[i]);
    }
    assert(spec_moves_to_wire(spec_moves_from_wire(all)) =~= all);
}

/// The client mirrors the host after the host's handshake. A client that
/// waits for the handshake and is handed the one that the host has put up
/// is in play and shows the host's game.
pub proof fn lemma_handshake_mirrors<E: RulesEngine>(client: ClientModel, host: ServerModel<E>)
    requires
        client.closed is None,
        client.state == ProtocolState::Handshake,
    ensures
        ({
            let later = client.step(ClientEventView::Packet(host.handshake_packet()));
            &&& later.closed is None
            &&& later.state == ProtocolState::Play
            &&& mirrors(later, host)
            &&& later.turn == client.turn
        }),
{
    lemma_host_moves_name_moves(host.game, 64);
    lemma_board_round_trip(host.game.board_of());
}

/// The client mirrors the host after every position. A client in play that
/// is handed the position that the host has put up shows the host's game,
/// and no request of it waits any longer.
pub proof fn lemma_position_mirrors<E: RulesEngine>(client: ClientModel, host: ServerModel<E>)
    requires
        client.closed is None,
        client.state == ProtocolState::Play,
    ensures
        ({
            let later = client.step(ClientEventView::Packet(host.state_packet()));
            &&& later.closed is None
            &&& later.state == ProtocolState::Play
            &&& mirrors(later, host)
            &&& !later.awaiting
            &&& later.rejection is None
        }),
{
    lemma_host_moves_name_moves(host.game, 64);
    lemma_board_round_trip(host.game.board_of());
}

/// The client mirrors the host after every refusal. A client in play that
/// is handed the host's refusal shows the host's game, has the turn again,
/// and holds the host's reason.
pub proof fn lemma_refusal_mirrors<E: RulesEngine>(
    client: ClientModel,
    host: ServerModel<E>,
    reason: Seq<char>,
)
    requires
        client.closed is None,
        client.state == ProtocolState::Play,
    ensures
        ({
            let later = client.step(ClientEventView::Packet(host.reject_packet(reason)));
            &&& later.closed is None
            &&& later.state == ProtocolState::Play
            &&& mirrors(later, host)
            &&& !later.awaiting
            &&& later.turn == client.my_color()
            &&& later.rejection == Some(reason)
        }),
{
    lemma_host_moves_name_moves(host.game, 64);
    lemma_board_round_trip(host.game.board_of());
}

/// One move of the client, there and back. The client asks for a move, the
/// host judges it and answers, the client acts on the answer. Afterwards the
/// client shows the host's game and nothing waits. Where the host has
/// accepted the move, the client takes the host to be on the move. Where
/// the host has refused it, for whatever reason, the host's game is the one
/// it was, the client has the turn again, and, if the client showed the
/// host's game before, its board is the one it showed before the attempt.
pub proof fn lemma_move_there_and_back<E: RulesEngine>(
    client: ClientModel,
    host: ServerModel<E>,
    mv: Move,
)
    requires
        client.move_refusal() is None,
        host.closed is None,
        host.state == ProtocolState::Play,
        host.inbox.len() == 0,
        client.inbox.len() == 0,
    ensures
        ({
            let asked = client.perform_move(mv);
            let wire = spec_convert_move(mv);
            let judged = host.deliver(
                HostEvent::Packet(ClientPacket::Message(ClientMessage::Move(wire))),
            ).update();
            let answer = judged.outbox.last();
            let settled = asked.deliver(ClientEventView::Packet(answer)).update();
            &&& asked.outbox.last() == ClientPacket::Message(ClientMessage::Move(wire))
            &&& judged.outbox.len() == host.outbox.len() + 1
            &&& settled.closed is None
            &&& mirrors(settled, judged)
            &&& !settled.awaiting
            &&& host.client_move_refusal(wire) is None ==> settled.turn == client.host_color
                && judged.last_move == Some(wire) && judged.game == host.game.applied(mv)->Ok_0
            &&& host.client_move_refusal(wire) is Some ==> settled.turn == client.my_color()
                && judged.game == host.game && judged.outcome == host.outcome
                && settled.rejection == host.client_move_refusal(wire) && (mirrors(client, host)
                ==> settled.board == client.board)
        }),
{
    let asked = client.perform_move(mv);
    let wire = spec_convert_move(mv);
    lemma_move_round_trip(mv);
    let event = HostEvent::Packet(ClientPacket::Message(ClientMessage::Move(wire)));
    let delivered = host.deliver(event);
    assert(delivered.inbox.drop_first() =~= host.inbox);
    assert((ServerModel { inbox: delivered.inbox.drop_first(), ..delivered }) == host);
    let judged = delivered.update();
    assert(judged == host.on_client_move(wire));
    let answer = judged.outbox.last();
    let handed = asked.deliver(ClientEventView::Packet(answer));
    assert(handed.inbox.drop_first() =~= asked.inbox);
    assert((ClientModel { inbox: handed.inbox.drop_first(), ..handed }) == asked);
    assert(handed.update() == asked.step(ClientEventView::Packet(answer)));
    let settled = handed.update();
    match host.client_move_refusal(wire) {
        Some(reason) => {
            assert(answer == host.reject_packet(reason));
            assert(answer == judged.reject_packet(reason));
            lemma_refusal_mirrors(asked, judged, reason);
            if mirrors(client, host) {
                lemma_boards_agree(settled.board, client.board);
            }
        },
        None => {
            assert(answer == judged.state_packet());
            lemma_position_mirrors(asked, judged);
        },
    }
}

} // verus!
