//! The boundary to the chess-rules library.
//!
//! The `chess` crate supplies board representation, legal-move generation,
//! Zobrist hashing and game-status detection. A `chess::Board` is opaque to
//! the verifier, so every call into the crate goes through a small trusted
//! wrapper here, and what the engine's logic actually reads of a position
//! is mirrored into [`BoardFacts`], a structure of plain values that the
//! verified code works on.

use core::str::FromStr;
use vstd::prelude::*;

verus! {

#[verifier::external_type_specification]
#[verifier::external_body]
pub struct ExBoard(chess::Board);

/// A move, as source square, destination square (both `0..64`, file plus
/// eight times the rank) and promotion piece (`0` none, `1` knight,
/// `2` bishop, `3` rook, `4` queen).
#[derive(Debug, Clone, Copy, PartialEq, Eq, Structural, Hash)]
pub struct Move {
    pub source: u8,
    pub dest: u8,
    pub promo: u8,
}

impl Move {
    pub open spec fn wf(self) -> bool {
        self.source < 64 && self.dest < 64 && self.promo <= 4
    }

    pub fn new(source: u8, dest: u8, promo: u8) -> (r: Move)
        requires
            source < 64,
            dest < 64,
            promo <= 4,
        ensures
            r == (Move { source, dest, promo }),
            r.wf(),
    {
        Move { source, dest, promo }
    }
}

impl Default for Move {
    /// The null move used as a sentinel: both squares a1, no promotion.
    fn default() -> (r: Move)
        ensures
            r == (Move { source: 0u8, dest: 0u8, promo: 0u8 }),
            r.wf(),
    {
        Move { source: 0, dest: 0, promo: 0 }
    }
}

/// One square of the mirrored board: `0` for an empty square, else the
/// piece (`1` pawn … `6` king) plus `8` when the piece is black.
pub open spec fn valid_code(c: u8) -> bool {
    c == 0 || (1 <= c && c <= 6) || (9 <= c && c <= 14)
}

/// The piece on a coded square, `1` pawn … `6` king, `0` when empty.
pub open spec fn piece_of(c: u8) -> u8 {
    c % 8
}

/// Whether a nonzero square code holds a black piece.
pub open spec fn is_black_code(c: u8) -> bool {
    c >= 8
}

/// What the engine reads of a position, as plain values: the 64 square
/// codes, the side to move, the check flag, the game status (`0` ongoing,
/// `1` checkmate, `2` stalemate) and the Zobrist hash.
pub struct BoardFacts {
    pub grid: Vec<u8>,
    pub black_to_move: bool,
    pub in_check: bool,
    pub status: u8,
    pub hash: u64,
}

pub const STATUS_ONGOING: u8 = 0;

pub const STATUS_CHECKMATE: u8 = 1;

pub const STATUS_STALEMATE: u8 = 2;

/// Whether `f` is exactly what the wrappers read of `b`.
pub open spec fn facts_match(f: BoardFacts, b: chess::Board) -> bool {
    &&& f.grid@ == spec_board_grid(b)
    &&& f.black_to_move == spec_board_black(b)
    &&& f.in_check == spec_board_check(b)
    &&& f.status == spec_board_status(b)
    &&& f.hash == spec_board_hash(b)
}

impl BoardFacts {
    pub open spec fn wf(self) -> bool {
        &&& self.grid@.len() == 64
        &&& forall|i: int| 0 <= i < 64 ==> valid_code(#[trigger] self.grid@[i])
        &&& self.status <= 2
    }

    /// Mirror a board into plain values.
    pub fn extract(b: &chess::Board) -> (r: BoardFacts)
        ensures
            r.wf(),
            facts_match(r, *b),
    {
        BoardFacts {
            grid: board_grid(b),
            black_to_move: board_black_to_move(b),
            in_check: board_in_check(b),
            status: board_status_code(b),
            hash: board_hash(b),
        }
    }

    /// An exact copy.
    pub fn duplicate(&self) -> (r: BoardFacts)
        ensures
            r.grid@ == self.grid@,
            r.black_to_move == self.black_to_move,
            r.in_check == self.in_check,
            r.status == self.status,
            r.hash == self.hash,
    {
        let mut grid: Vec<u8> = Vec::new();
        let mut i: usize = 0;
        while i < self.grid.len()
            invariant
                i <= self.grid@.len(),
                grid@ == self.grid@.take(i as int),
            decreases self.grid@.len() - i,
        {
            grid.push(self.grid[i]);
            i = i + 1;
            assert(grid@ =~= self.grid@.take(i as int));
        }
        assert(grid@ =~= self.grid@);
        BoardFacts {
            grid,
            black_to_move: self.black_to_move,
            in_check: self.in_check,
            status: self.status,
            hash: self.hash,
        }
    }
}

/// The square codes of a position, a function of the board alone.
pub uninterp spec fn spec_board_grid(b: chess::Board) -> Seq<u8>;

/// Relies on `chess::Board::piece_on` and `chess::Board::color_on`: reads
/// what stands on each of the 64 squares, encoded as [`valid_code`] says.
#[verifier::external_body]
fn board_grid(b: &chess::Board) -> (g: Vec<u8>)
    ensures
        g@ == spec_board_grid(*b),
        g@.len() == 64,
        forall|i: int| 0 <= i < 64 ==> valid_code(#[trigger] g@[i]),
{
    let mut g = Vec::with_capacity(64);
    for i in 0..64u8 {
        let sq = chess::Square::make_square(chess::Rank::from_index((i >> 3) as usize), chess::File::from_index((i & 7) as usize));
        g.push(match b.piece_on(sq) {
            None => 0u8,
            Some(p) => p.to_index() as u8 + 1 + if b.color_on(sq) == Some(chess::Color::Black) { 8 } else { 0 },
        });
    }
    g
}

/// Whether black is to move, a function of the board alone.
pub uninterp spec fn spec_board_black(b: chess::Board) -> bool;

/// Relies on `chess::Board::side_to_move`.
#[verifier::external_body]
fn board_black_to_move(b: &chess::Board) -> (r: bool)
    ensures
        r == spec_board_black(*b),
{
    b.side_to_move() == chess::Color::Black
}

/// Whether the side to move is in check, a function of the board alone.
pub uninterp spec fn spec_board_check(b: chess::Board) -> bool;

/// Relies on `chess::Board::checkers`: whether the side to move is in check.
#[verifier::external_body]
fn board_in_check(b: &chess::Board) -> (r: bool)
    ensures
        r == spec_board_check(*b),
{
    *b.checkers() != chess::EMPTY
}

/// The game status of a position, a function of the board alone.
pub uninterp spec fn spec_board_status(b: chess::Board) -> u8;

/// Relies on `chess::Board::status`: `0` while legal moves remain, else
/// `1` (checkmate) when in check and `2` (stalemate) when not.
#[verifier::external_body]
fn board_status_code(b: &chess::Board) -> (r: u8)
    ensures
        r == spec_board_status(*b),
        r <= 2,
{
    match b.status() {
        chess::BoardStatus::Ongoing => 0,
        chess::BoardStatus::Checkmate => 1,
        chess::BoardStatus::Stalemate => 2,
    }
}

/// The Zobrist hash of a position, a function of the board alone.
pub uninterp spec fn spec_board_hash(b: chess::Board) -> u64;

/// Relies on `chess::Board::get_hash`: the position's 64-bit Zobrist hash.
#[verifier::external_body]
fn board_hash(b: &chess::Board) -> (r: u64)
    ensures
        r == spec_board_hash(*b),
{
    b.get_hash()
}

/// Relies on `chess::Board` being `Copy`: hands back the same position.
#[verifier::external_body]
pub fn board_copy(b: &chess::Board) -> (r: chess::Board)
    ensures
        r == *b,
{
    *b
}

/// Relies on `chess::Board::default`: the standard starting position.
#[verifier::external_body]
pub fn board_start() -> chess::Board {
    chess::Board::default()
}

/// What the rules library parses a FEN text into: a position, or nothing
/// when the text does not describe a legal one. A function of the text
/// alone.
pub uninterp spec fn spec_parsed_fen(s: Seq<char>) -> Option<chess::Board>;

/// Relies on `chess::Board`'s `FromStr`: parses a FEN board description,
/// `None` when the text is not a legal position.
#[verifier::external_body]
pub fn board_from_fen(s: &str) -> (r: Option<chess::Board>)
    ensures
        r == spec_parsed_fen(s@),
{
    chess::Board::from_str(s).ok()
}

/// The legal moves of a position in generation order, a function of the
/// board alone.
pub uninterp spec fn spec_board_moves(b: chess::Board) -> Seq<Move>;

/// Relies on `chess::MoveGen::new_legal`: yields exactly the legal moves
/// of the position, converted one for one into this crate's encoding.
#[verifier::external_body]
pub fn board_legal_moves(b: &chess::Board) -> (r: Vec<Move>)
    ensures
        r@ == spec_board_moves(*b),
        forall|i: int| 0 <= i < r@.len() ==> (#[trigger] r@[i]).wf(),
{
    chess::MoveGen::new_legal(b)
        .map(|m| Move {
            source: m.get_source().to_index() as u8,
            dest: m.get_dest().to_index() as u8,
            promo: match m.get_promotion() {
                Some(chess::Piece::Knight) => 1, Some(chess::Piece::Bishop) => 2,
                Some(chess::Piece::Rook) => 3, Some(chess::Piece::Queen) => 4, _ => 0,
            },
        })
        .collect()
}

/// The rules library's move application: the successor position when the
/// move is legal, nothing otherwise. A function of position and move
/// alone.
pub uninterp spec fn spec_applied(b: chess::Board, m: Move) -> Option<chess::Board>;

/// Whether the rules library accepts `m` as legal in `b`.
pub open spec fn spec_apply_ok(b: chess::Board, m: Move) -> bool {
    spec_applied(b, m) is Some
}

/// Relies on `chess::Board::legal` and `chess::Board::make_move_new`: the
/// position after `m` when `m` is legal in `b`, and `None` otherwise (the
/// crate's move application is only defined on legal moves).
#[verifier::external_body]
pub fn board_apply(b: &chess::Board, m: &Move) -> (r: Option<chess::Board>)
    ensures
        r == spec_applied(*b, *m),
{
    let p = match m.promo {
        1 => Some(chess::Piece::Knight), 2 => Some(chess::Piece::Bishop),
        3 => Some(chess::Piece::Rook), 4 => Some(chess::Piece::Queen), _ => None,
    };
    let s = chess::Square::make_square(chess::Rank::from_index((m.source >> 3) as usize), chess::File::from_index((m.source & 7) as usize));
    let d = chess::Square::make_square(chess::Rank::from_index((m.dest >> 3) as usize), chess::File::from_index((m.dest & 7) as usize));
    let cm = chess::ChessMove::new(s, d, p);
    if b.legal(cm) { Some(b.make_move_new(cm)) } else { None }
}

/// The position with the turn passed, a function of the board alone.
pub uninterp spec fn spec_nulled(b: chess::Board) -> chess::Board;

/// Relies on `chess::Board::null_move`: the position with only the side
/// to move flipped, or `None` exactly when the side to move is in check
/// (the source tests its checker set, the same state `board_in_check`
/// reads).
#[verifier::external_body]
pub fn board_null_move(b: &chess::Board) -> (r: Option<chess::Board>)
    ensures
        r == if spec_board_check(*b) {
            Option::<chess::Board>::None
        } else {
            Option::Some(spec_nulled(*b))
        },
{
    b.null_move()
}

} // verus!
