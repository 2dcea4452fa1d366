//! The values that travel between host and client, and how the game's own
//! values are turned into them and back.

use vstd::prelude::*;
use crate::board::{Board, CastlingSide, Color, GameOutcome, Move, Piece, PieceTypes, Square};

verus! {

/// What stands on a square, as one tag. An empty square has a tag of its own.
#[derive(Clone, Copy, Debug, PartialEq, Eq, Structural)]
pub enum WirePiece {
    BlackPawn,
    BlackKnight,
    BlackBishop,
    BlackRook,
    BlackQueen,
    BlackKing,
    WhitePawn,
    WhiteKnight,
    WhiteBishop,
    WhiteRook,
    WhiteQueen,
    WhiteKing,
    Empty,
}

/// A move by the numbers of its squares, or a castling by its wing.
#[derive(Clone, Copy, Debug, PartialEq, Eq, Structural)]
pub enum WireMove {
    Normal { start_x: usize, start_y: usize, end_x: usize, end_y: usize },
    Castle { side: CastlingSide },
}

/// Why a received value names nothing on the board.
#[derive(Clone, Copy, Debug, PartialEq, Eq, Structural)]
pub enum WireError {
    /// A move starts outside the board.
    StartOutOfRange,
    /// A move starts on the board and ends outside it.
    EndOutOfRange,
}

/// The 64 tags of a position, `board[rank][file]`.
pub type WireBoard = [[WirePiece; 8]; 8];

/// The tag of a square's content. The en-passant flag of a pawn is dropped.
pub open spec fn spec_piece_to_wire(piece: Option<Piece>) -> WirePiece {
    match piece {
        None => WirePiece::Empty,
        Some(p) => match p.color {
            Color::White => match p.piece {
                PieceTypes::Pawn(_) => WirePiece::WhitePawn,
                PieceTypes::Knight => WirePiece::WhiteKnight,
                PieceTypes::Bishop => WirePiece::WhiteBishop,
                PieceTypes::Rook => WirePiece::WhiteRook,
                PieceTypes::Queen => WirePiece::WhiteQueen,
                PieceTypes::King => WirePiece::WhiteKing,
            },
            Color::Black => match p.piece {
                PieceTypes::Pawn(_) => WirePiece::BlackPawn,
                PieceTypes::Knight => WirePiece::BlackKnight,
                PieceTypes::Bishop => WirePiece::BlackBishop,
                PieceTypes::Rook => WirePiece::BlackRook,
                PieceTypes::Queen => WirePiece::BlackQueen,
                PieceTypes::King => WirePiece::BlackKing,
            },
        },
    }
}

/// The content of a square that a tag stands for. A pawn comes back with its
/// flag cleared.
pub open spec fn spec_piece_from_wire(tag: WirePiece) -> Option<Piece> {
    match tag {
        WirePiece::Empty => None,
        WirePiece::BlackPawn => Some(Piece { piece: PieceTypes::Pawn(false), color: Color::Black }),
        WirePiece::BlackKnight => Some(Piece { piece: PieceTypes::Knight, color: Color::Black }),
        WirePiece::BlackBishop => Some(Piece { piece: PieceTypes::Bishop, color: Color::Black }),
        WirePiece::BlackRook => Some(Piece { piece: PieceTypes::Rook, color: Color::Black }),
        WirePiece::BlackQueen => Some(Piece { piece: PieceTypes::Queen, color: Color::Black }),
        WirePiece::BlackKing => Some(Piece { piece: PieceTypes::King, color: Color::Black }),
        WirePiece::WhitePawn => Some(Piece { piece: PieceTypes::Pawn(false), color: Color::White }),
        WirePiece::WhiteKnight => Some(Piece { piece: PieceTypes::Knight, color: Color::White }),
        WirePiece::WhiteBishop => Some(Piece { piece: PieceTypes::Bishop, color: Color::White }),
        WirePiece::WhiteRook => Some(Piece { piece: PieceTypes::Rook, color: Color::White }),
        WirePiece::WhiteQueen => Some(Piece { piece: PieceTypes::Queen, color: Color::White }),
        WirePiece::WhiteKing => Some(Piece { piece: PieceTypes::King, color: Color::White }),
    }
}

/// A square's content with the en-passant flag of a pawn cleared: all that
/// the other side gets to see of it.
pub open spec fn without_flag(piece: Option<Piece>) -> Option<Piece> {
    match piece {
        Some(Piece { piece: PieceTypes::Pawn(_), color }) => Some(
            Piece { piece: PieceTypes::Pawn(false), color },
        ),
        other => other,
    }
}

/// The tag of a square's content.
pub fn piece_to_wire(piece: Option<Piece>) -> (tag: WirePiece)
    ensures
        tag == spec_piece_to_wire(piece),
{
    match piece {
        None => WirePiece::Empty,
        Some(p) => match p.color {
            Color::White => match p.piece {
                PieceTypes::Pawn(_) => WirePiece::WhitePawn,
                PieceTypes::Knight => WirePiece::WhiteKnight,
                PieceTypes::Bishop => WirePiece::WhiteBishop,
                PieceTypes::Rook => WirePiece::WhiteRook,
                PieceTypes::Queen => WirePiece::WhiteQueen,
                PieceTypes::King => WirePiece::WhiteKing,
            },
            Color::Black => match p.piece {
                PieceTypes::Pawn(_) => WirePiece::BlackPawn,
                PieceTypes::Knight => WirePiece::BlackKnight,
                PieceTypes::Bishop => WirePiece::BlackBishop,
                PieceTypes::Rook => WirePiece::BlackRook,
                PieceTypes::Queen => WirePiece::BlackQueen,
                PieceTypes::King => WirePiece::BlackKing,
            },
        },
    }
}

/// The content of a square that a tag stands for.
pub fn piece_from_wire(tag: WirePiece) -> (piece: Option<Piece>)
    ensures
        piece == spec_piece_from_wire(tag),
{
    match tag {
        WirePiece::Empty => None,
        WirePiece::BlackPawn => Some(Piece { piece: PieceTypes::Pawn(false), color: Color::Black }),
        WirePiece::BlackKnight => Some(Piece { piece: PieceTypes::Knight, color: Color::Black }),
        WirePiece::BlackBishop => Some(Piece { piece: PieceTypes::Bishop, color: Color::Black }),
        WirePiece::BlackRook => Some(Piece { piece: PieceTypes::Rook, color: Color::Black }),
        WirePiece::BlackQueen => Some(Piece { piece: PieceTypes::Queen, color: Color::Black }),
        WirePiece::BlackKing => Some(Piece { piece: PieceTypes::King, color: Color::Black }),
        WirePiece::WhitePawn => Some(Piece { piece: PieceTypes::Pawn(false), color: Color::White }),
        WirePiece::WhiteKnight => Some(Piece { piece: PieceTypes::Knight, color: Color::White }),
        WirePiece::WhiteBishop => Some(Piece { piece: PieceTypes::Bishop, color: Color::White }),
        WirePiece::WhiteRook => Some(Piece { piece: PieceTypes::Rook, color: Color::White }),
        WirePiece::WhiteQueen => Some(Piece { piece: PieceTypes::Queen, color: Color::White }),
        WirePiece::WhiteKing => Some(Piece { piece: PieceTypes::King, color: Color::White }),
    }
}

/// A square's content survives the way over the wire and back, but for the
/// en-passant flag of a pawn, which comes back cleared.
pub proof fn lemma_piece_round_trip(piece: Option<Piece>)
    ensures
        spec_piece_from_wire(spec_piece_to_wire(piece)) == without_flag(piece),
{
}

/// Every tag stands for a content whose tag it is: tags and flagless contents
/// correspond one to one.
pub proof fn lemma_tag_round_trip(tag: WirePiece)
    ensures
        spec_piece_to_wire(spec_piece_from_wire(tag)) == tag,
        without_flag(spec_piece_from_wire(tag)) == spec_piece_from_wire(tag),
{
}

/// Whether `wire` holds, square by square, the tags of `board`.
pub open spec fn is_wire_of(wire: WireBoard, board: Board) -> bool {
    forall|r: int, f: int|
        0 <= r < 8 && 0 <= f < 8 ==> (#[trigger] wire[r][f]) == spec_piece_to_wire(board[r][f])
}

/// Whether `board` holds, square by square, what the tags of `wire` stand for.
pub open spec fn is_board_of(board: Board, wire: WireBoard) -> bool {
    forall|r: int, f: int|
        0 <= r < 8 && 0 <= f < 8 ==> (#[trigger] board[r][f]) == spec_piece_from_wire(wire[r][f])
}

/// The tags of a position.
pub open spec fn spec_convert_board(board: Board) -> WireBoard {
    choose|wire: WireBoard| is_wire_of(wire, board)
}

/// The position that 64 tags stand for.
pub open spec fn spec_board_from_wire(wire: WireBoard) -> Board {
    choose|board: Board| is_board_of(board, wire)
}

/// The row that holds `g` of the first `n` entries of `row`, in place.
spec fn mapped_row<T, U: Copy>(row: [T; 8], g: spec_fn(T) -> U, fill: U, n: nat) -> [U; 8]
    decreases n,
{
    if n == 0 {
        vstd::array::spec_array_fill_for_copy_type::<U, 8>(fill)
    } else {
        vstd::array::spec_array_update(
            mapped_row(row, g, fill, (n - 1) as nat),
            n - 1,
            g(row[n - 1]),
        )
    }
}

proof fn lemma_mapped_row<T, U: Copy>(row: [T; 8], g: spec_fn(T) -> U, fill: U, n: nat)
    requires
        n <= 8,
    ensures
        forall|j: int| 0 <= j < n ==> (#[trigger] mapped_row(row, g, fill, n)[j]) == g(row[j]),
    decreases n,
{
    if n > 0 {
        lemma_mapped_row(row, g, fill, (n - 1) as nat);
        let before = mapped_row(row, g, fill, (n - 1) as nat);
        let after = mapped_row(row, g, fill, n);
        assert(after@ == before@.update(n - 1, g(row[n - 1])));
        assert forall|j: int| 0 <= j < n implies (#[trigger] after[j]) == g(row[j]) by {
            if j < n - 1 {
                assert(before[j] == g(row[j]));
            }
        }
    }
}

/// The grid that holds `g` of every entry of the first `n` rows of `grid`.
spec fn mapped_grid<T, U: Copy>(grid: [[T; 8]; 8], g: spec_fn(T) -> U, fill: U, n: nat) -> [[U;
    8]; 8]
    decreases n,
{
    if n == 0 {
        vstd::array::spec_array_fill_for_copy_type::<[U; 8], 8>(
            vstd::array::spec_array_fill_for_copy_type::<U, 8>(fill),
        )
    } else {
        vstd::array::spec_array_update(
            mapped_grid(grid, g, fill, (n - 1) as nat),
            n - 1,
            mapped_row(grid[n - 1], g, fill, 8),
        )
    }
}

proof fn lemma_mapped_grid<T, U: Copy>(grid: [[T; 8]; 8], g: spec_fn(T) -> U, fill: U, n: nat)
    requires
        n <= 8,
    ensures
        forall|i: int, j: int|
            0 <= i < n && 0 <= j < 8 ==> (#[trigger] mapped_grid(grid, g, fill, n)[i][j]) == g(
                grid[i][j],
            ),
    decreases n,
{
    if n > 0 {
        lemma_mapped_grid(grid, g, fill, (n - 1) as nat);
        let before = mapped_grid(grid, g, fill, (n - 1) as nat);
        let after = mapped_grid(grid, g, fill, n);
        let row = mapped_row(grid[n - 1], g, fill, 8);
        lemma_mapped_row(grid[n - 1], g, fill, 8);
        assert(after@ == before@.update(n - 1, row));
        assert forall|i: int, j: int| 0 <= i < n && 0 <= j < 8 implies (#[trigger] after[i][j])
            == g(grid[i][j]) by {
            if i < n - 1 {
                assert(after[i] == before[i]);
                assert(before[i][j] == g(grid[i][j]));
            } else {
                assert(after[i] == row);
                assert(row[j] == g(grid[n - 1][j]));
            }
        }
    }
}

/// Every position has its board of tags.
pub proof fn lemma_convert_board_exists(board: Board)
    ensures
        is_wire_of(spec_convert_board(board), board),
{
    let g = |p: Option<Piece>| spec_piece_to_wire(p);
    let witness = mapped_grid(board, g, WirePiece::Empty, 8);
    lemma_mapped_grid(board, g, WirePiece::Empty, 8);
    assert forall|r: int, f: int| 0 <= r < 8 && 0 <= f < 8 implies (#[trigger] witness[r][f])
        == spec_piece_to_wire(board[r][f]) by {
        assert(witness[r][f] == g(board[r][f]));
    }
    assert(is_wire_of(witness, board));
}

/// Every board of tags has its position.
pub proof fn lemma_board_from_wire_exists(wire: WireBoard)
    ensures
        is_board_of(spec_board_from_wire(wire), wire),
{
    let g = |t: WirePiece| spec_piece_from_wire(t);
    let witness = mapped_grid(wire, g, None, 8);
    lemma_mapped_grid(wire, g, None, 8);
    assert forall|r: int, f: int| 0 <= r < 8 && 0 <= f < 8 implies (#[trigger] witness[r][f])
        == spec_piece_from_wire(wire[r][f]) by {
        assert(witness[r][f] == g(wire[r][f]));
    }
    assert(is_board_of(witness, wire));
}

/// Two boards of tags that agree on every square are one board.
pub proof fn lemma_wire_boards_agree(a: WireBoard, b: WireBoard)
    requires
        forall|r: int, f: int| 0 <= r < 8 && 0 <= f < 8 ==> (#[trigger] a[r][f]) == b[r][f],
    ensures
        a == b,
{
    assert forall|r: int| 0 <= r < 8 implies a[r] == b[r] by {
        assert forall|f: int| 0 <= f < 8 implies a[r][f] == b[r][f] by {
            assert(a[r][f] == b[r][f]);
        }
        assert(a[r] =~= b[r]);
    }
    assert(a =~= b);
}

/// Two positions that agree on every square are one position.
pub proof fn lemma_boards_agree(a: Board, b: Board)
    requires
        forall|r: int, f: int| 0 <= r < 8 && 0 <= f < 8 ==> (#[trigger] a[r][f]) == b[r][f],
    ensures
        a == b,
{
    assert forall|r: int| 0 <= r < 8 implies a[r] == b[r] by {
        assert forall|f: int| 0 <= f < 8 implies a[r][f] == b[r][f] by {
            assert(a[r][f] == b[r][f]);
        }
        assert(a[r] =~= b[r]);
    }
    assert(a =~= b);
}

/// The tags of a position, square by square.
pub fn convert_board(board: Board) -> (wire: WireBoard)
    ensures
        is_wire_of(wire, board),
        wire == spec_convert_board(board),
{
    let mut wire: WireBoard = [[WirePiece::Empty; 8]; 8];
    let mut r: usize = 0;
    while r < 8
        invariant
            r <= 8,
            forall|i: int, f: int|
                0 <= i < r && 0 <= f < 8 ==> (#[trigger] wire[i][f]) == spec_piece_to_wire(
                    board[i][f],
                ),
        decreases 8 - r,
    {
        let mut row: [WirePiece; 8] = [WirePiece::Empty; 8];
        let mut f: usize = 0;
        while f < 8
            invariant
                r < 8,
                f <= 8,
                forall|j: int|
                    0 <= j < f ==> (#[trigger] row[j]) == spec_piece_to_wire(board[r as int][j]),
            decreases 8 - f,
        {
            row[f] = piece_to_wire(board[r][f]);
            f += 1;
        }
        wire[r] = row;
        r += 1;
    }
    proof {
        assert(is_wire_of(wire, board));
        lemma_wire_boards_agree(wire, spec_convert_board(board));
    }
    wire
}

/// The position that 64 tags stand for, square by square.
pub fn board_from_wire(wire: WireBoard) -> (board: Board)
    ensures
        is_board_of(board, wire),
        board == spec_board_from_wire(wire),
{
    let mut board: Board = [[None; 8]; 8];
    let mut r: usize = 0;
    while r < 8
        invariant
            r <= 8,
            forall|i: int, f: int|
                0 <= i < r && 0 <= f < 8 ==> (#[trigger] board[i][f]) == spec_piece_from_wire(
                    wire[i][f],
                ),
        decreases 8 - r,
    {
        let mut row: [Option<Piece>; 8] = [None; 8];
        let mut f: usize = 0;
        while f < 8
            invariant
                r < 8,
                f <= 8,
                forall|j: int|
                    0 <= j < f ==> (#[trigger] row[j]) == spec_piece_from_wire(wire[r as int][j]),
            decreases 8 - f,
        {
            row[f] = piece_from_wire(wire[r][f]);
            f += 1;
        }
        board[r] = row;
        r += 1;
    }
    proof {
        assert(is_board_of(board, wire));
        lemma_boards_agree(board, spec_board_from_wire(wire));
    }
    board
}

/// A position survives the way over the wire and back square by square, but
/// for the en-passant flags of its pawns, which come back cleared.
pub proof fn lemma_board_round_trip(board: Board)
    ensures
        forall|r: int, f: int|
            0 <= r < 8 && 0 <= f < 8 ==> (#[trigger] spec_board_from_wire(
                spec_convert_board(board),
            )[r][f]) == without_flag(board[r][f]),
{
    lemma_convert_board_exists(board);
    let wire = spec_convert_board(board);
    lemma_board_from_wire_exists(wire);
    let back = spec_board_from_wire(wire);
    assert forall|r: int, f: int| 0 <= r < 8 && 0 <= f < 8 implies (#[trigger] back[r][f])
        == without_flag(board[r][f]) by {
        assert(wire[r][f] == spec_piece_to_wire(board[r][f]));
        lemma_piece_round_trip(board[r][f]);
    }
}

/// Boards of tags survive the way into a position and back unchanged.
pub proof fn lemma_wire_board_round_trip(wire: WireBoard)
    ensures
        spec_convert_board(spec_board_from_wire(wire)) == wire,
{
    lemma_board_from_wire_exists(wire);
    let board = spec_board_from_wire(wire);
    lemma_convert_board_exists(board);
    let again = spec_convert_board(board);
    assert forall|r: int, f: int| 0 <= r < 8 && 0 <= f < 8 implies (#[trigger] again[r][f])
        == wire[r][f] by {
        assert(board[r][f] == spec_piece_from_wire(wire[r][f]));
        lemma_tag_round_trip(wire[r][f]);
    }
    lemma_wire_boards_agree(again, wire);
}

/// A move by the numbers of its squares.
pub open spec fn spec_convert_move(mv: Move) -> WireMove {
    match mv {
        Move::Normal { from, to } => WireMove::Normal {
            start_x: from.file.spec_index() as usize,
            start_y: from.rank.spec_index() as usize,
            end_x: to.file.spec_index() as usize,
            end_y: to.rank.spec_index() as usize,
        },
        Move::Castle { side } => WireMove::Castle { side },
    }
}

/// The move that a received record names, or why it names none.
pub open spec fn spec_move_from_wire(mv: WireMove) -> Result<Move, WireError> {
    match mv {
        WireMove::Normal { start_x, start_y, end_x, end_y } => match Square::spec_new(
            start_x as int,
            start_y as int,
        ) {
            Err(_) => Err(WireError::StartOutOfRange),
            Ok(from) => match Square::spec_new(end_x as int, end_y as int) {
                Err(_) => Err(WireError::EndOutOfRange),
                Ok(to) => Ok(Move::Normal { from, to }),
            },
        },
        WireMove::Castle { side } => Ok(Move::Castle { side }),
    }
}

/// A move by the numbers of its squares. A castling goes over the wire as
/// what it is.
pub fn convert_move(mv: Move) -> (wire: WireMove)
    ensures
        wire == spec_convert_move(mv),
{
    match mv {
        Move::Normal { from, to } => WireMove::Normal {
            start_x: from.file_index(),
            start_y: from.rank_index(),
            end_x: to.file_index(),
            end_y: to.rank_index(),
        },
        Move::Castle { side } => WireMove::Castle { side },
    }
}

/// The move that a received record names. A record with a square outside the
/// board is refused.
pub fn move_from_wire(mv: WireMove) -> (decoded: Result<Move, WireError>)
    ensures
        decoded == spec_move_from_wire(mv),
{
    match mv {
        WireMove::Normal { start_x, start_y, end_x, end_y } => match Square::new(start_x, start_y) {
            Err(_) => Err(WireError::StartOutOfRange),
            Ok(from) => match Square::new(end_x, end_y) {
                Err(_) => Err(WireError::EndOutOfRange),
                Ok(to) => Ok(Move::Normal { from, to }),
            },
        },
        WireMove::Castle { side } => Ok(Move::Castle { side }),
    }
}

/// Every move survives the way over the wire and back.
pub proof fn lemma_move_round_trip(mv: Move)
    ensures
        spec_move_from_wire(spec_convert_move(mv)) == Ok::<Move, WireError>(mv),
{
}

/// A record that names a move is the record of that move.
pub proof fn lemma_wire_move_round_trip(wire: WireMove)
    requires
        spec_move_from_wire(wire) is Ok,
    ensures
        spec_convert_move(spec_move_from_wire(wire)->Ok_0) == wire,
{
}

/// The records of a list of moves, in order.
pub open spec fn spec_moves_to_wire(moves: Seq<Move>) -> Seq<WireMove> {
    moves.map_values(|mv: Move| spec_convert_move(mv))
}

/// Whether every record of the list names a move.
pub open spec fn all_moves_valid(wire: Seq<WireMove>) -> bool {
    forall|i: int| 0 <= i < wire.len() ==> (#[trigger] spec_move_from_wire(wire[i])) is Ok
}

/// The moves that the records of a list name, in order. It is meant for a
/// list whose records all name one.
pub open spec fn spec_moves_from_wire(wire: Seq<WireMove>) -> Seq<Move> {
    wire.map_values(|mv: WireMove| spec_move_from_wire(mv)->Ok_0)
}

/// The records of a list of moves, in order.
pub fn moves_to_wire(moves: &Vec<Move>) -> (wire: Vec<WireMove>)
    ensures
        wire@ == spec_moves_to_wire(moves@),
{
    let mut wire: Vec<WireMove> = Vec::new();
    let mut i: usize = 0;
    while i < moves.len()
        invariant
            i <= moves.len(),
            wire@.len() == i,
            forall|j: int| 0 <= j < i ==> (#[trigger] wire@[j]) == spec_convert_move(moves@[j]),
        decreases moves.len() - i,
    {
        wire.push(convert_move(moves[i]));
        i += 1;
    }
    assert(wire@ =~= spec_moves_to_wire(moves@));
    wire
}

/// The moves that the records of a list name, in order. The list is refused
/// as a whole for its first record that names none.
pub fn moves_from_wire(wire: &Vec<WireMove>) -> (moves: Result<Vec<Move>, WireError>)
    ensures
        moves is Ok <==> all_moves_valid(wire@),
        moves matches Ok(list) ==> list@ == spec_moves_from_wire(wire@),
        moves matches Err(why) ==> exists|i: int|
            0 <= i < wire@.len() && (#[trigger] spec_move_from_wire(wire@[i])) == Err::<
                Move,
                WireError,
            >(why) && all_moves_valid(wire@.take(i)),
{
    let mut moves: Vec<Move> = Vec::new();
    let mut i: usize = 0;
    while i < wire.len()
        invariant
            i <= wire.len(),
            moves@.len() == i,
            all_moves_valid(wire@.take(i as int)),
            forall|j: int|
                0 <= j < i ==> (#[trigger] moves@[j]) == spec_move_from_wire(wire@[j])->Ok_0,
        decreases wire.len() - i,
    {
        match move_from_wire(wire[i]) {
            Err(why) => {
                proof {
                    assert(spec_move_from_wire(wire@[i as int]) == Err::<Move, WireError>(why));
                }
                return Err(why);
            },
            Ok(mv) => {
                moves.push(mv);
            },
        }
        proof {
            assert forall|j: int| 0 <= j < i + 1 implies (#[trigger] spec_move_from_wire(
                wire@.take(i + 1)[j],
            )) is Ok by {
                if j < i {
                    assert(wire@.take(i as int)[j] == wire@[j]);
                }
            }
        }
        i += 1;
    }
    proof {
        assert(wire@.take(i as int) =~= wire@);
        assert(moves@ =~= spec_moves_from_wire(wire@));
    }
    Ok(moves)
}

/// A list of moves survives the way over the wire and back.
pub proof fn lemma_moves_round_trip(moves: Seq<Move>)
    ensures
        all_moves_valid(spec_moves_to_wire(moves)),
        spec_moves_from_wire(spec_moves_to_wire(moves)) == moves,
{
    let wire = spec_moves_to_wire(moves);
    assert forall|i: int| 0 <= i < wire.len() implies (#[trigger] spec_move_from_wire(
        wire[i],
    )) is Ok by {
        lemma_move_round_trip(moves[i]);
    }
    assert forall|i: int| 0 <= i < moves.len() implies spec_moves_from_wire(wire)[i]
        == moves[i] by {
        lemma_move_round_trip(moves[i]);
    }
    assert(spec_moves_from_wire(wire) =~= moves);
}

/// What a host may offer beyond the bare exchange of moves.
#[derive(Clone, Copy, Debug, PartialEq, Eq, Structural)]
pub enum Feature {
    /// The host sends, with every position, the moves that are legal in it.
    PossibleMoveGeneration,
}

/// Whether the list of features holds `feature`.
pub fn has_feature(features: &Vec<Feature>, feature: Feature) -> (found: bool)
    ensures
        found == features@.contains(feature),
{
    let mut i: usize = 0;
    while i < features.len()
        invariant
            i <= features.len(),
            forall|j: int| 0 <= j < i ==> features@[j] != feature,
        decreases features.len() - i,
    {
        if features[i] == feature {
            return true;
        }
        i += 1;
    }
    false
}

/// The client's opening message: the colour it asks the host to play.
#[derive(Clone, Copy, Debug, PartialEq, Eq, Structural)]
pub struct ClientHandshake {
    pub requested_host_color: Color,
}

/// What a client sends once the game is on.
#[derive(Clone, Copy, Debug, PartialEq, Eq, Structural)]
pub enum ClientMessage {
    /// The client asks for a move.
    Move(WireMove),
    /// The client asks for the pawn on column `x`, row `y` to become `piece`.
    Promote { x: usize, y: usize, piece: PieceTypes },
    /// The client gives the game up.
    Resign,
    /// The client offers a draw.
    OfferDraw,
}

/// Anything a client sends.
#[derive(Clone, Copy, Debug, PartialEq, Eq, Structural)]
pub enum ClientPacket {
    Handshake(ClientHandshake),
    Message(ClientMessage),
}

/// The host's answer to the opening message: the position, the moves that are
/// legal in it, how the game stands and what the host offers.
#[derive(Clone, Debug, PartialEq, Eq)]
pub struct HostHandshake {
    pub board: WireBoard,
    pub moves: Vec<WireMove>,
    pub outcome: GameOutcome,
    pub features: Vec<Feature>,
}

/// What a host sends once the game is on.
#[derive(Clone, Debug, PartialEq, Eq)]
pub enum HostMessage {
    /// The position after a change, with the last move made.
    State { board: WireBoard, moves: Vec<WireMove>, last_move: WireMove, outcome: GameOutcome },
    /// A request was refused; the position is as it was.
    Reject { board: WireBoard, moves: Vec<WireMove>, outcome: GameOutcome, reason: String },
    /// A side gave up, so `winner` has won.
    Resigned { winner: Color },
    /// The game ended in a draw.
    Draw,
}

/// Anything a host sends.
#[derive(Clone, Debug, PartialEq, Eq)]
pub enum HostPacket {
    Handshake(HostHandshake),
    Message(HostMessage),
}

/// A host's handshake as a mathematical value.
pub struct HostHandshakeView {
    pub board: WireBoard,
    pub moves: Seq<WireMove>,
    pub outcome: GameOutcome,
    pub features: Seq<Feature>,
}

/// A host's message as a mathematical value.
pub enum HostMessageView {
    State { board: WireBoard, moves: Seq<WireMove>, last_move: WireMove, outcome: GameOutcome },
    Reject { board: WireBoard, moves: Seq<WireMove>, outcome: GameOutcome, reason: Seq<char> },
    Resigned { winner: Color },
    Draw,
}

/// A host's packet as a mathematical value.
pub enum HostPacketView {
    Handshake(HostHandshakeView),
    Message(HostMessageView),
}

impl View for HostHandshake {
    type V = HostHandshakeView;

    open spec fn view(&self) -> HostHandshakeView {
        HostHandshakeView {
            board: self.board,
            moves: self.moves@,
            outcome: self.outcome,
            features: self.features@,
        }
    }
}

impl View for HostMessage {
    type V = HostMessageView;

    open spec fn view(&self) -> HostMessageView {
        match *self {
            HostMessage::State { board, moves, last_move, outcome } => HostMessageView::State {
                board,
                moves: moves@,
                last_move,
                outcome,
            },
            HostMessage::Reject { board, moves, outcome, reason } => HostMessageView::Reject {
                board,
                moves: moves@,
                outcome,
                reason: reason@,
            },
            HostMessage::Resigned { winner } => HostMessageView::Resigned { winner },
            HostMessage::Draw => HostMessageView::Draw,
        }
    }
}

impl View for HostPacket {
    type V = HostPacketView;

    open spec fn view(&self) -> HostPacketView {
        match *self {
            HostPacket::Handshake(handshake) => HostPacketView::Handshake(handshake@),
            HostPacket::Message(message) => HostPacketView::Message(message@),
        }
    }
}

} // verus!
