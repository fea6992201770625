//! A game in progress: the board, the fifty-move counter and a bounded
//! ring of past position hashes for threefold-repetition detection.

use vstd::pervasive::VecAdditionalExecFns;
use vstd::prelude::*;
use vstd::string::StringSliceAdditionalSpecFns;

use crate::board::{
    board_apply, board_copy, board_from_fen, board_legal_moves, board_null_move, board_start,
    facts_match, piece_of, spec_applied, spec_apply_ok, spec_board_black, spec_parsed_fen,
    BoardFacts, Move,
};
use crate::score::{dec_str, push_char, push_dec};

verus! {

/// How many past hashes the ring can hold. Repetition detection is only
/// guaranteed within this many half-moves.
pub const HASH_HISTORY_LEN: usize = 128;

/// A ring of up to 128 past Zobrist hashes, plus the count of every hash
/// ever pushed. Writes past the capacity wrap around and overwrite the
/// oldest slots.
pub struct HashHistory {
    pub inner: Vec<u64>,
    pub len: u64,
}

/// How many occurrences of `v` the sequence holds.
pub open spec fn count_in(s: Seq<u64>, v: u64) -> nat
    decreases s.len(),
{
    if s.len() == 0 {
        0
    } else {
        count_in(s.drop_last(), v) + if s.last() == v { 1nat } else { 0nat }
    }
}

impl HashHistory {
    pub open spec fn wf(self) -> bool {
        self.inner@.len() == HASH_HISTORY_LEN
    }

    pub open spec fn spec_len(self) -> u64 {
        self.len
    }

    /// The slots that hold pushed hashes: all 128 once the ring has
    /// wrapped, else the first `len`.
    pub open spec fn live(self) -> Seq<u64> {
        if self.len < HASH_HISTORY_LEN {
            self.inner@.take(self.len as int)
        } else {
            self.inner@
        }
    }

    /// An empty history backed by zeroed slots.
    pub fn new() -> (r: HashHistory)
        ensures
            r.wf(),
            r.spec_len() == 0,
            r.live() == Seq::<u64>::empty(),
    {
        let mut inner: Vec<u64> = Vec::new();
        let mut i: usize = 0;
        while i < HASH_HISTORY_LEN
            invariant
                i <= HASH_HISTORY_LEN,
                inner@.len() == i,
            decreases HASH_HISTORY_LEN - i,
        {
            inner.push(0);
            i = i + 1;
        }
        let r = HashHistory { inner, len: 0 };
        assert(r.live() =~= Seq::<u64>::empty());
        r
    }

    /// A history primed with `len` pairwise distinct sentinel values, so
    /// that a position restored from a description with a nonzero move
    /// count does not see false repetitions in the zeroed slots.
    pub fn unqiue(len: u64) -> (r: HashHistory)
        ensures
            r.wf(),
            r.spec_len() == len,
            forall|i: int| 0 <= i < r.live().len() ==> r.live()[i] == i,
    {
        let mut inner: Vec<u64> = Vec::new();
        let mut i: usize = 0;
        while i < HASH_HISTORY_LEN
            invariant
                i <= HASH_HISTORY_LEN,
                inner@.len() == i,
                forall|k: int| 0 <= k < i ==> inner@[k] == k,
            decreases HASH_HISTORY_LEN - i,
        {
            inner.push(i as u64);
            i = i + 1;
        }
        HashHistory { inner, len }
    }

    /// The count of every hash ever pushed (not capped at the capacity).
    pub fn len(&self) -> (r: u64)
        ensures
            r == self.spec_len(),
    {
        self.len
    }

    /// Write `val` into the next ring slot. At the (unreachable) count
    /// limit the counter stops growing.
    pub fn push(&mut self, val: u64)
        requires
            old(self).wf(),
        ensures
            final(self).wf(),
            final(self).inner@ == old(self).inner@.update(
                (old(self).len % (HASH_HISTORY_LEN as u64)) as int,
                val,
            ),
            final(self).len == if old(self).len < u64::MAX {
                (old(self).len + 1) as u64
            } else {
                u64::MAX
            },
    {
        let idx = (self.len % (HASH_HISTORY_LEN as u64)) as usize;
        self.inner.set(idx, val);
        if self.len < u64::MAX {
            self.len = self.len + 1;
        }
    }

    /// Forget the most recent push; the slot itself keeps its value.
    pub fn delete_last(&mut self)
        requires
            old(self).wf(),
            old(self).len >= 1,
        ensures
            final(self).wf(),
            final(self).inner@ == old(self).inner@,
            final(self).len == old(self).len - 1,
    {
        self.len = self.len - 1;
    }

    /// The most recently pushed hash, `None` while empty.
    pub fn last(&self) -> (r: Option<u64>)
        requires
            self.wf(),
        ensures
            r == if self.len == 0 {
                Option::<u64>::None
            } else {
                Option::Some(self.inner@[(self.len - 1) % (HASH_HISTORY_LEN as int)])
            },
    {
        if self.len == 0 {
            return None;
        }
        let i = ((self.len - 1) % (HASH_HISTORY_LEN as u64)) as usize;
        Some(self.inner[i])
    }

    /// How many live slots hold `val`.
    pub fn count(&self, val: u64) -> (r: u64)
        requires
            self.wf(),
        ensures
            r == count_in(self.live(), val),
    {
        let window: usize = if self.len < HASH_HISTORY_LEN as u64 {
            self.len as usize
        } else {
            HASH_HISTORY_LEN
        };
        assert(self.live() =~= self.inner@.take(window as int));
        let mut r: u64 = 0;
        let mut i: usize = 0;
        while i < window
            invariant
                self.wf(),
                i <= window,
                window <= HASH_HISTORY_LEN,
                window as int == self.live().len(),
                self.live() == self.inner@.take(window as int),
                r == count_in(self.live().take(i as int), val),
                r <= i,
            decreases window - i,
        {
            proof {
                assert(self.live().take(i + 1).drop_last() =~= self.live().take(i as int));
                assert(self.live().take(i + 1).last() == self.inner@[i as int]);
            }
            if self.inner[i] == val {
                r = r + 1;
            }
            i = i + 1;
        }
        proof {
            assert(self.live().take(window as int) =~= self.live());
        }
        r
    }

    /// An exact copy.
    pub fn duplicate(&self) -> (r: HashHistory)
        requires
            self.wf(),
        ensures
            r.wf(),
            r.inner@ == self.inner@,
            r.len == self.len,
    {
        let mut inner: Vec<u64> = Vec::new();
        let mut i: usize = 0;
        while i < HASH_HISTORY_LEN
            invariant
                self.wf(),
                i <= HASH_HISTORY_LEN,
                inner@ == self.inner@.take(i as int),
            decreases HASH_HISTORY_LEN - i,
        {
            inner.push(self.inner[i]);
            i = i + 1;
            assert(inner@ =~= self.inner@.take(i as int));
        }
        assert(inner@ =~= self.inner@);
        HashHistory { inner, len: self.len }
    }
}

/// A position under play: the board itself (opaque to the verifier), the
/// mirrored [`BoardFacts`] the engine's logic reads, the count of
/// half-moves since the last pawn move or capture, and the hash ring.
pub struct Game {
    pub board: chess::Board,
    pub facts: BoardFacts,
    pub fifty_move_counter: u32,
    pub hash_history: HashHistory,
}

impl Game {
    pub open spec fn wf(self) -> bool {
        &&& self.facts.wf()
        &&& facts_match(self.facts, self.board)
        &&& self.hash_history.wf()
        &&& self.hash_history.spec_len() >= 1
    }

    pub open spec fn spec_fifty(self) -> u32 {
        self.fifty_move_counter
    }

    pub open spec fn spec_history(self) -> HashHistory {
        self.hash_history
    }

    pub open spec fn spec_facts(self) -> BoardFacts {
        self.facts
    }

    /// Whether the position is a declared draw: the latest hash occurs at
    /// least three times in the live ring, or the fifty-move counter has
    /// reached 100 half-moves.
    pub open spec fn spec_can_declare_draw(self) -> bool {
        ||| {
            &&& self.hash_history.spec_len() >= 1
            &&& count_in(
                self.hash_history.live(),
                self.hash_history.live()[
                    (self.hash_history.spec_len() - 1) % (HASH_HISTORY_LEN as int)
                ],
            ) >= 3
        }
        ||| self.fifty_move_counter >= 100
    }

    /// Wrap a board into a fresh game: counter zero, history holding the
    /// position's own hash.
    pub fn new(board: chess::Board) -> (r: Game)
        ensures
            r.wf(),
            r.spec_fifty() == 0,
            r.spec_history().spec_len() == 1,
    {
        let facts = BoardFacts::extract(&board);
        let mut hash_history = HashHistory::new();
        hash_history.push(facts.hash);
        Game { board, facts, fifty_move_counter: 0, hash_history }
    }

    /// The standard starting position.
    pub fn start() -> (r: Game)
        ensures
            r.wf(),
            r.spec_fifty() == 0,
            r.spec_history().spec_len() == 1,
    {
        Game::new(board_start())
    }

    /// The underlying board.
    pub fn board(&self) -> &chess::Board {
        &self.board
    }

    /// The mirrored plain-value reading of the position.
    pub fn facts(&self) -> (r: &BoardFacts)
        ensures
            r == self.spec_facts(),
    {
        &self.facts
    }

    /// The fifty-move counter.
    pub fn fifty(&self) -> (r: u32)
        ensures
            r == self.spec_fifty(),
    {
        self.fifty_move_counter
    }

    /// The count of hashes ever pushed to the history.
    pub fn history_len(&self) -> (r: u64)
        ensures
            r == self.spec_history().spec_len(),
    {
        self.hash_history.len()
    }

    /// Whether `m` lands on an occupied square.
    pub fn is_capture(&self, m: Move) -> (r: bool)
        requires
            self.wf(),
            m.wf(),
        ensures
            r == (self.spec_facts().grid@[m.dest as int] != 0),
    {
        self.facts.grid[m.dest as usize] != 0
    }

    /// Whether `m` is neither a capture nor a promotion.
    pub fn is_quiet(&self, m: Move) -> (r: bool)
        requires
            self.wf(),
            m.wf(),
        ensures
            r == (m.promo == 0 && self.spec_facts().grid@[m.dest as int] == 0),
    {
        m.promo == 0 && !self.is_capture(m)
    }

    /// The legal moves of the position.
    pub fn legal_moves(&self) -> (r: Vec<Move>)
        ensures
            r@ == crate::board::spec_board_moves(self.board),
            forall|i: int| 0 <= i < r@.len() ==> (#[trigger] r@[i]).wf(),
    {
        board_legal_moves(&self.board)
    }

    /// An exact copy of the game.
    pub fn duplicate(&self) -> (r: Game)
        requires
            self.wf(),
        ensures
            r.wf(),
            r.board == self.board,
            r.spec_fifty() == self.spec_fifty(),
            r.spec_history().spec_len() == self.spec_history().spec_len(),
            r.spec_history().live() == self.spec_history().live(),
            r.spec_facts().grid@ == self.spec_facts().grid@,
            r.spec_facts().black_to_move == self.spec_facts().black_to_move,
            r.spec_facts().in_check == self.spec_facts().in_check,
            r.spec_facts().status == self.spec_facts().status,
            r.spec_facts().hash == self.spec_facts().hash,
            r.spec_can_declare_draw() == self.spec_can_declare_draw(),
    {
        Game {
            board: board_copy(&self.board),
            facts: self.facts.duplicate(),
            fifty_move_counter: self.fifty_move_counter,
            hash_history: self.hash_history.duplicate(),
        }
    }

    /// Play `m`: a new game with the successor position, the counter
    /// reset on a pawn move or capture and incremented otherwise, and the
    /// new position's hash appended. `None` exactly when the rules
    /// library rejects `m` as illegal in this position.
    pub fn make_move(&self, m: Move) -> (r: Option<Game>)
        requires
            self.wf(),
            m.wf(),
        ensures
            (r is Some) == spec_apply_ok(self.board, m),
            match r {
                Option::Some(g) => {
                    &&& g.wf()
                    &&& g.board == spec_applied(self.board, m)->0
                    &&& g.spec_history().spec_len() as int == if self.spec_history().spec_len()
                        < u64::MAX {
                        self.spec_history().spec_len() + 1
                    } else {
                        u64::MAX as int
                    }
                    &&& g.spec_history().inner@ == self.spec_history().inner@.update(
                        (self.spec_history().spec_len() % (HASH_HISTORY_LEN as u64)) as int,
                        g.spec_facts().hash,
                    )
                    &&& g.spec_fifty() == if piece_of(self.spec_facts().grid@[m.source as int])
                        == 1 || self.spec_facts().grid@[m.dest as int] != 0 {
                        0u32
                    } else if self.spec_fifty() < u32::MAX {
                        (self.spec_fifty() + 1) as u32
                    } else {
                        u32::MAX
                    }
                },
                Option::None => true,
            },
    {
        let next = match board_apply(&self.board, &m) {
            Some(b) => b,
            None => { return None; },
        };
        let is_pawn = self.facts.grid[m.source as usize] % 8 == 1;
        let is_capture = self.facts.grid[m.dest as usize] != 0;
        let fifty_move_counter = if is_pawn || is_capture {
            0
        } else if self.fifty_move_counter < u32::MAX {
            self.fifty_move_counter + 1
        } else {
            u32::MAX
        };
        let facts = BoardFacts::extract(&next);
        let mut hash_history = self.hash_history.duplicate();
        hash_history.push(facts.hash);
        Some(Game { board: next, facts, fifty_move_counter, hash_history })
    }

    /// Pass the turn: a new game with only the side to move flipped, the
    /// counter incremented and the new hash appended. `None` exactly when
    /// the side to move is in check.
    pub fn make_null_move(&self) -> (r: Option<Game>)
        requires
            self.wf(),
        ensures
            (r is Some) == !self.spec_facts().in_check,
            match r {
                Option::Some(g) => {
                    &&& g.wf()
                    &&& g.board == crate::board::spec_nulled(self.board)
                    &&& g.spec_fifty() as int == if self.spec_fifty() < u32::MAX {
                        self.spec_fifty() + 1
                    } else {
                        u32::MAX as int
                    }
                    &&& g.spec_history().spec_len() as int == if self.spec_history().spec_len()
                        < u64::MAX {
                        self.spec_history().spec_len() + 1
                    } else {
                        u64::MAX as int
                    }
                    &&& g.spec_history().inner@ == self.spec_history().inner@.update(
                        (self.spec_history().spec_len() % (HASH_HISTORY_LEN as u64)) as int,
                        g.spec_facts().hash,
                    )
                },
                Option::None => true,
            },
    {
        if self.facts.in_check {
            return None;
        }
        let next = match board_null_move(&self.board) {
            Some(b) => b,
            None => { return None; },
        };
        let fifty_move_counter = if self.fifty_move_counter < u32::MAX {
            self.fifty_move_counter + 1
        } else {
            u32::MAX
        };
        let facts = BoardFacts::extract(&next);
        let mut hash_history = self.hash_history.duplicate();
        hash_history.push(facts.hash);
        Some(Game { board: next, facts, fifty_move_counter, hash_history })
    }

    /// Whether the position may be declared drawn: threefold repetition
    /// within the ring, or one hundred reversible half-moves.
    pub fn can_declare_draw(&self) -> (r: bool)
        requires
            self.wf(),
        ensures
            r == self.spec_can_declare_draw(),
    {
        if let Some(last) = self.hash_history.last() {
            proof {
                lemma_last_in_live(self.hash_history);
            }
            if self.hash_history.count(last) >= 3 {
                return true;
            }
        }
        self.fifty_move_counter >= 100
    }
}

/// Whether every byte is an ASCII decimal digit.
pub open spec fn all_digits(s: Seq<u8>) -> bool {
    forall|i: int| 0 <= i < s.len() ==> 0x30 <= #[trigger] s[i] <= 0x39
}

/// The number the decimal digits spell, most significant first.
pub open spec fn dec_value(s: Seq<u8>) -> int
    decreases s.len(),
{
    if s.len() == 0 {
        0
    } else {
        dec_value(s.drop_last()) * 10 + (s.last() - 0x30)
    }
}

/// A digit run spells a nonnegative number.
proof fn lemma_dec_nonneg(s: Seq<u8>)
    requires
        all_digits(s),
    ensures
        dec_value(s) >= 0,
    decreases s.len(),
{
    if s.len() > 0 {
        assert(all_digits(s.drop_last()));
        lemma_dec_nonneg(s.drop_last());
    }
}

/// A prefix of a digit run spells no more than the whole run.
proof fn lemma_dec_prefix(s: Seq<u8>, i: int)
    requires
        all_digits(s),
        0 <= i <= s.len(),
    ensures
        dec_value(s.take(i)) <= dec_value(s),
    decreases s.len() - i,
{
    if i < s.len() {
        lemma_dec_prefix(s, i + 1);
        assert(s.take(i + 1).drop_last() =~= s.take(i));
        assert(all_digits(s.take(i + 1)));
        lemma_dec_nonneg(s.take(i));
    } else {
        assert(s.take(i) =~= s);
    }
}

/// Whether a byte run is a parsable counter field: nonempty, all decimal
/// digits, and within the accepted range.
pub open spec fn spec_counter_ok(s: Seq<u8>) -> bool {
    s.len() >= 1 && all_digits(s) && dec_value(s) <= 0xffff_ffff
}

/// Parse a run of decimal digits as a number; `None` exactly when the run
/// is empty, holds a non-digit, or spells a value above `0xffff_ffff`.
fn parse_decimal(bytes: &[u8], start: usize, end: usize) -> (r: Option<u64>)
    requires
        start <= end <= bytes@.len(),
    ensures
        r == if spec_counter_ok(bytes@.subrange(start as int, end as int)) {
            Option::Some(dec_value(bytes@.subrange(start as int, end as int)) as u64)
        } else {
            Option::<u64>::None
        },
{
    let ghost whole = bytes@.subrange(start as int, end as int);
    if start >= end {
        return None;
    }
    let mut acc: u64 = 0;
    let mut i: usize = start;
    while i < end
        invariant
            start <= i <= end <= bytes@.len(),
            acc <= 0xffff_ffff,
            all_digits(bytes@.subrange(start as int, i as int)),
            acc == dec_value(bytes@.subrange(start as int, i as int)),
            whole == bytes@.subrange(start as int, end as int),
        decreases end - i,
    {
        let b = bytes[i];
        if b < 0x30 || b > 0x39 {
            proof {
                assert(whole[i - start] == bytes@[i as int]);
                assert(!all_digits(whole));
            }
            return None;
        }
        let next = acc * 10 + (b - 0x30) as u64;
        proof {
            assert(bytes@.subrange(start as int, i + 1).drop_last()
                =~= bytes@.subrange(start as int, i as int));
            assert(bytes@.subrange(start as int, i + 1).last() == bytes@[i as int]);
        }
        if next > 0xffff_ffff {
            proof {
                if all_digits(whole) {
                    lemma_dec_prefix(whole, i + 1 - start);
                    assert(whole.take(i + 1 - start) =~= bytes@.subrange(start as int, i + 1));
                }
            }
            return None;
        }
        acc = next;
        i = i + 1;
    }
    proof {
        assert(whole =~= bytes@.subrange(start as int, i as int));
    }
    Some(acc)
}

/// The index of the last space in `b`, or `-1` when none occurs.
pub open spec fn last_space(b: Seq<u8>) -> int
    decreases b.len(),
{
    if b.len() == 0 {
        -1
    } else if b.last() == 32 {
        b.len() - 1
    } else {
        last_space(b.drop_last())
    }
}

/// `last_space` is the largest index holding a space.
proof fn lemma_last_space(b: Seq<u8>)
    ensures
        -1 <= last_space(b) < b.len(),
        last_space(b) >= 0 ==> b[last_space(b)] == 32,
        forall|j: int| last_space(b) < j < b.len() ==> b[j] != 32,
    decreases b.len(),
{
    if b.len() > 0 && b.last() != 32 {
        lemma_last_space(b.drop_last());
        assert(forall|j: int| 0 <= j < b.len() - 1 ==> b.drop_last()[j] == b[j]);
    }
}

/// Where the counter fields of a FEN text sit: one past its last two
/// spaces, with the halfmove clock between them and the fullmove count
/// after the second.
pub open spec fn fen_counter_cut(b: Seq<u8>) -> (int, int) {
    let p2 = last_space(b);
    let p1 = last_space(b.take(p2));
    (p1, p2)
}

/// Whether the game accepts `b` as the byte form of a FEN text: two
/// space-separated trailing fields, both parsable counters, and a nonzero
/// fullmove count. (The position itself is judged by the rules library.)
pub open spec fn spec_fen_fields_ok(b: Seq<u8>) -> bool {
    let (p1, p2) = fen_counter_cut(b);
    &&& p2 >= 1
    &&& p1 >= 0
    &&& spec_counter_ok(b.subrange(p1 + 1, p2))
    &&& spec_counter_ok(b.subrange(p2 + 1, b.len() as int))
    &&& dec_value(b.subrange(p2 + 1, b.len() as int)) >= 1
}

/// A FEN string the game cannot use: not a position, or with counters
/// that are missing, malformed or out of range.
#[derive(Debug, Clone, Copy, PartialEq, Eq, Structural, Hash)]
pub struct ParseGameError;

impl Game {
    /// Restore a game from a FEN string: the board from the rules
    /// library, the halfmove clock from the second-to-last field, and a
    /// history primed with `2·fullmove − 1` (white to move) or
    /// `2·fullmove` (black to move) distinct sentinels. Fails exactly
    /// when the rules library rejects the position or the trailing
    /// counter fields are missing, malformed, out of range, or give a
    /// fullmove count of zero.
    pub fn from_fen(s: &str) -> (r: Result<Game, ParseGameError>)
        ensures
            (r is Ok) == (spec_fen_fields_ok(s.spec_bytes()) && spec_parsed_fen(s@) is Some),
            match r {
                Result::Ok(g) => {
                    let b = s.spec_bytes();
                    let (p1, p2) = fen_counter_cut(b);
                    let fullmove = dec_value(b.subrange(p2 + 1, b.len() as int));
                    &&& g.wf()
                    &&& g.board == spec_parsed_fen(s@)->0
                    &&& g.spec_fifty() as int == dec_value(b.subrange(p1 + 1, p2))
                    &&& g.spec_history().spec_len() as int == if spec_board_black(g.board) {
                        2 * fullmove
                    } else {
                        2 * fullmove - 1
                    }
                    &&& forall|i: int| 0 <= i < g.spec_history().live().len()
                        ==> g.spec_history().live()[i] == i
                },
                Result::Err(e) => true,
            },
    {
        let bytes = s.as_bytes();
        let n = bytes.len();
        proof {
            lemma_last_space(bytes@);
        }
        // the last two space-separated fields: halfmove clock, fullmove
        let mut i2 = n;
        while i2 > 0
            invariant
                i2 <= n == bytes@.len(),
                forall|j: int| i2 <= j < n ==> bytes@[j] != 32,
            ensures
                i2 <= n == bytes@.len(),
                forall|j: int| i2 <= j < n ==> bytes@[j] != 32,
                i2 > 0 ==> bytes@[i2 - 1] == 32,
            decreases i2,
        {
            if bytes[i2 - 1] == 32 {
                break;
            }
            i2 = i2 - 1;
        }
        if i2 == 0 {
            assert(last_space(bytes@) == -1);
            return Err(ParseGameError);
        }
        assert(last_space(bytes@) == i2 - 1);
        let ghost prefix = bytes@.take(i2 - 1);
        proof {
            lemma_last_space(prefix);
            assert(forall|j: int| 0 <= j < i2 - 1 ==> prefix[j] == bytes@[j]);
        }
        let mut i1 = i2 - 1;
        while i1 > 0
            invariant
                i1 <= i2 - 1 <= n == bytes@.len(),
                prefix == bytes@.take(i2 - 1),
                forall|j: int| i1 <= j < i2 - 1 ==> bytes@[j] != 32,
            ensures
                i1 <= i2 - 1 <= n == bytes@.len(),
                forall|j: int| i1 <= j < i2 - 1 ==> bytes@[j] != 32,
                i1 > 0 ==> bytes@[i1 - 1] == 32,
            decreases i1,
        {
            if bytes[i1 - 1] == 32 {
                break;
            }
            i1 = i1 - 1;
        }
        proof {
            assert(forall|j: int| i1 <= j < i2 - 1 ==> prefix[j] != 32);
        }
        if i1 == 0 {
            assert(last_space(prefix) == -1);
            return Err(ParseGameError);
        }
        assert(prefix[i1 - 1] == 32);
        assert(last_space(prefix) == i1 - 1);
        let halfmove = match parse_decimal(bytes, i1, i2 - 1) {
            Some(v) => v,
            None => { return Err(ParseGameError); },
        };
        let fullmove = match parse_decimal(bytes, i2, n) {
            Some(v) => v,
            None => { return Err(ParseGameError); },
        };
        proof {
            lemma_dec_nonneg(bytes@.subrange(i1 as int, i2 - 1));
            lemma_dec_nonneg(bytes@.subrange(i2 as int, n as int));
        }
        if fullmove == 0 {
            return Err(ParseGameError);
        }
        let board = match board_from_fen(s) {
            Some(b) => b,
            None => { return Err(ParseGameError); },
        };
        let facts = BoardFacts::extract(&board);
        let primed = if facts.black_to_move { 2 * fullmove } else { 2 * fullmove - 1 };
        let g = Game {
            board,
            facts,
            fifty_move_counter: halfmove as u32,
            hash_history: HashHistory::unqiue(primed),
        };
        assert(spec_fen_fields_ok(s.spec_bytes()));
        Ok(g)
    }

    /// The position as a FEN string, with this game's halfmove clock and
    /// the fullmove number its history implies.
    pub fn get_fen(&self) -> (r: String)
        requires
            self.wf(),
        ensures
            r@ == spec_fen_prefix(self.board) + seq![' '] + dec_str(self.spec_fifty() as nat)
                + seq![' '] + dec_str(((self.spec_history().spec_len() - 1) / 2 + 1) as nat),
    {
        let mut s = board_fen_prefix(&self.board);
        push_char(&mut s, ' ');
        push_dec(&mut s, self.fifty_move_counter as u64);
        push_char(&mut s, ' ');
        let len = self.hash_history.len();
        push_dec(&mut s, (len - 1) / 2 + 1);
        assert(s@ =~= spec_fen_prefix(self.board) + seq![' '] + dec_str(self.spec_fifty() as nat)
            + seq![' '] + dec_str(((self.spec_history().spec_len() - 1) / 2 + 1) as nat));
        s
    }
}

impl core::str::FromStr for Game {
    type Err = ParseGameError;

    /// Restore a game from a FEN string, as [`Game::from_fen`].
    fn from_str(s: &str) -> Result<Game, ParseGameError> {
        Game::from_fen(s)
    }
}

/// The FEN description of a position up to (not including) the counter
/// fields, a function of the board alone.
pub uninterp spec fn spec_fen_prefix(b: chess::Board) -> Seq<char>;

/// Relies on `chess::Board`'s `Display`: the FEN description of the
/// position without the final four characters, the crate's fixed
/// `" 0 1"` counter tail.
#[verifier::external_body]
fn board_fen_prefix(b: &chess::Board) -> (r: String)
    ensures
        r@ == spec_fen_prefix(*b),
{
    let s = b.to_string();
    s[..s.len() - 4].to_string()
}

/// The most recent slot is part of the live window.
proof fn lemma_last_in_live(h: HashHistory)
    requires
        h.wf(),
        h.spec_len() >= 1,
    ensures
        h.live()[(h.spec_len() - 1) % (HASH_HISTORY_LEN as int)]
            == h.inner@[(h.spec_len() - 1) % (HASH_HISTORY_LEN as int)],
        (h.spec_len() - 1) % (HASH_HISTORY_LEN as int) < h.live().len(),
{
    if h.spec_len() < HASH_HISTORY_LEN as u64 {
        assert((h.spec_len() - 1) % (HASH_HISTORY_LEN as int) == h.spec_len() - 1);
    }
}

} // verus!

