//! The static evaluation: tapered piece-square tables plus a rook-on-open-
//! file bonus and an unshielded-king penalty, blended by a game phase and
//! returned relative to the side to move.

use vstd::prelude::*;

use crate::board::{is_black_code, piece_of, valid_code, BoardFacts};
use crate::score::Eval;

verus! {

/// Midgame material value of a piece code `1` pawn … `6` king.
pub open spec fn spec_piece_value(p: u8) -> i16 {
    if p == 1 { 82 } else if p == 2 { 337 } else if p == 3 { 365 }
    else if p == 4 { 477 } else if p == 5 { 1025 } else { 0 }
}

/// Midgame material value, used by capture ordering and delta pruning.
pub fn piece_value(p: u8) -> (r: i16)
    ensures
        r == spec_piece_value(p),
{
    if p == 1 { 82 } else if p == 2 { 337 } else if p == 3 { 365 }
    else if p == 4 { 477 } else if p == 5 { 1025 } else { 0 }
}

/// Endgame material value of a piece code.
pub open spec fn spec_piece_value_end(p: u8) -> i16 {
    if p == 1 { 94 } else if p == 2 { 281 } else if p == 3 { 297 }
    else if p == 4 { 512 } else if p == 5 { 936 } else { 0 }
}

fn piece_value_end(p: u8) -> (r: i16)
    ensures
        r == spec_piece_value_end(p),
{
    if p == 1 { 94 } else if p == 2 { 281 } else if p == 3 { 297 }
    else if p == 4 { 512 } else if p == 5 { 936 } else { 0 }
}

/// Phase weight of a piece code: knights and bishops one, rooks two,
/// queens four; pawns, kings and empty squares nothing.
pub open spec fn spec_piece_phase(p: u8) -> u8 {
    if p == 2 || p == 3 { 1 } else if p == 4 { 2 } else if p == 5 { 4 } else { 0 }
}

fn piece_phase(p: u8) -> (r: u8)
    ensures
        r == spec_piece_phase(p),
{
    if p == 2 || p == 3 { 1 } else if p == 4 { 2 } else if p == 5 { 4 } else { 0 }
}

/// The piece-square-table slot of square `s` holding code `c`: black
/// mirrors the rank, and each piece owns a block of 64 slots.
pub open spec fn pst_index(s: int, c: u8) -> int {
    (if is_black_code(c) { s % 8 + (7 - s / 8) * 8 } else { s }) + (piece_of(c) - 1) * 64
}

/// Whether any pawn of either color stands on file `f`.
pub open spec fn file_has_pawn(grid: Seq<u8>, f: int) -> bool {
    exists|r: int| 0 <= r < 8 && piece_of(#[trigger] grid[r * 8 + f]) == 1
}

/// Whether squares `a` and `b` coincide or touch (a king move apart).
pub open spec fn adjacent_or_same(a: int, b: int) -> bool {
    &&& -1 <= a % 8 - b % 8 <= 1
    &&& -1 <= a / 8 - b / 8 <= 1
}

/// The square one step ahead of `s` for the given color, staying on the
/// board at the edge ranks.
pub open spec fn king_center(s: int, black: bool) -> int {
    if black {
        if s >= 8 { s - 8 } else { s }
    } else {
        if s < 56 { s + 8 } else { s }
    }
}

/// How many pawns of either color stand on or next to `center`, among
/// the first `n` squares.
pub open spec fn shield_pawns(grid: Seq<u8>, center: int, n: int) -> nat
    decreases n,
{
    if n <= 0 {
        0
    } else {
        shield_pawns(grid, center, n - 1) + if adjacent_or_same(center, n - 1) && piece_of(
            grid[n - 1],
        ) == 1 {
            1nat
        } else {
            0nat
        }
    }
}

/// How far the king's pawn shield falls short of three pawns.
pub open spec fn shield_deficit(grid: Seq<u8>, center: int) -> int {
    if shield_pawns(grid, center, 64) >= 3 {
        0
    } else {
        3 - shield_pawns(grid, center, 64)
    }
}

/// Tapered piece-square tables (one slot per piece and square, midgame
/// and endgame), a rook-on-open-file bonus and an unshielded-king
/// penalty. The engine reads these; a tuner may replace them wholesale.
pub struct EvalParams {
    pub pst_mid: Vec<i16>,
    pub pst_end: Vec<i16>,
    pub rook_open_file_bonus: i16,
    pub unshield_king_penalty: i16,
}

impl EvalParams {
    pub open spec fn wf(self) -> bool {
        self.pst_mid@.len() == 384 && self.pst_end@.len() == 384
    }

    /// Fresh tables holding each piece's bare material value on every
    /// square, a small rook bonus and a small king penalty.
    pub fn new_flat() -> (r: EvalParams)
        ensures
            r.wf(),
    {
        let mut pst_mid: Vec<i16> = Vec::new();
        let mut pst_end: Vec<i16> = Vec::new();
        let mut i: usize = 0;
        while i < 384
            invariant
                i <= 384,
                pst_mid@.len() == i,
                pst_end@.len() == i,
            decreases 384 - i,
        {
            let p = (i / 64) as u8 + 1;
            pst_mid.push(piece_value(p));
            pst_end.push(piece_value_end(p));
            i = i + 1;
        }
        EvalParams { pst_mid, pst_end, rook_open_file_bonus: 15, unshield_king_penalty: -20 }
    }
}

impl Default for EvalParams {
    fn default() -> (r: EvalParams)
        ensures
            r.wf(),
    {
        EvalParams::new_flat()
    }
}

/// What square `s` adds to the four accumulators, as
/// `(mid white, end white, mid black, end black)`.
pub open spec fn square_contrib(p: EvalParams, grid: Seq<u8>, s: int) -> (int, int, int, int) {
    let c = grid[s];
    if c == 0 {
        (0, 0, 0, 0)
    } else {
        let idx = pst_index(s, c);
        let bonus: int = if piece_of(c) == 4 && !file_has_pawn(grid, s % 8) {
            p.rook_open_file_bonus as int
        } else {
            0
        };
        let shield: int = if piece_of(c) == 6 {
            p.unshield_king_penalty as int * shield_deficit(grid, king_center(s, is_black_code(c)))
        } else {
            0
        };
        let mid = p.pst_mid@[idx] as int + bonus + shield;
        let end = p.pst_end@[idx] as int + bonus;
        if is_black_code(c) {
            (0, 0, mid, end)
        } else {
            (mid, end, 0, 0)
        }
    }
}

/// The four accumulators summed over the first `n` squares.
pub open spec fn acc(p: EvalParams, grid: Seq<u8>, n: int) -> (int, int, int, int)
    decreases n,
{
    if n <= 0 {
        (0, 0, 0, 0)
    } else {
        let a = acc(p, grid, n - 1);
        let c = square_contrib(p, grid, n - 1);
        (a.0 + c.0, a.1 + c.1, a.2 + c.2, a.3 + c.3)
    }
}

/// The phase weights summed over the first `n` squares.
pub open spec fn phase_sum(grid: Seq<u8>, n: int) -> int
    decreases n,
{
    if n <= 0 {
        0
    } else {
        phase_sum(grid, n - 1) + spec_piece_phase(piece_of(grid[n - 1]))
    }
}

pub open spec fn div_trunc_24(a: int) -> int {
    if a >= 0 {
        a / 24
    } else {
        -((-a) / 24)
    }
}

pub open spec fn clamp_cp(v: int) -> int {
    if v > 16383 {
        16383
    } else if v < -16383 {
        -16383
    } else {
        v
    }
}

/// The whole evaluation of a position, relative to the side to move:
/// accumulate both colors' midgame and endgame sums, take the differences
/// from the mover's side, blend them by the phase and clamp the result to
/// the centipawn range.
pub open spec fn spec_evaluate(p: EvalParams, f: BoardFacts) -> int {
    let a = acc(p, f.grid@, 64);
    let ph = phase_sum(f.grid@, 64);
    let phase = if ph > 24 { 24int } else { ph };
    let mg = if f.black_to_move { a.2 - a.0 } else { a.0 - a.2 };
    let eg = if f.black_to_move { a.3 - a.1 } else { a.1 - a.3 };
    clamp_cp(div_trunc_24(mg * phase + eg * (24 - phase)))
}

/// Whether any pawn of either color stands on file `f`.
fn has_pawn_on_file(facts: &BoardFacts, f: usize) -> (r: bool)
    requires
        facts.wf(),
        f < 8,
    ensures
        r == file_has_pawn(facts.grid@, f as int),
{
    let mut rank: usize = 0;
    while rank < 8
        invariant
            facts.wf(),
            f < 8,
            rank <= 8,
            forall|k: int| 0 <= k < rank ==> piece_of(#[trigger] facts.grid@[k * 8 + f]) != 1,
        decreases 8 - rank,
    {
        if facts.grid[rank * 8 + f] % 8 == 1 {
            assert(piece_of(facts.grid@[rank as int * 8 + f]) == 1);
            return true;
        }
        rank = rank + 1;
    }
    false
}

/// How many pawns of either color stand on or next to `center`.
fn count_shield_pawns(facts: &BoardFacts, center: usize) -> (r: u32)
    requires
        facts.wf(),
        center < 64,
    ensures
        r == shield_pawns(facts.grid@, center as int, 64),
        r <= 64,
{
    let mut r: u32 = 0;
    let mut s: usize = 0;
    while s < 64
        invariant
            facts.wf(),
            center < 64,
            s <= 64,
            r == shield_pawns(facts.grid@, center as int, s as int),
            r <= s,
        decreases 64 - s,
    {
        let fd = (center % 8) as i32 - (s % 8) as i32;
        let rd = (center / 8) as i32 - (s / 8) as i32;
        if -1 <= fd && fd <= 1 && -1 <= rd && rd <= 1 && facts.grid[s] % 8 == 1 {
            r = r + 1;
        }
        s = s + 1;
    }
    r
}

/// Game phase from the piece mix: `24` in the midgame down to `0` in a
/// pawn endgame.
pub fn game_phase(facts: &BoardFacts) -> (r: u8)
    requires
        facts.wf(),
    ensures
        r as int == if phase_sum(facts.grid@, 64) > 24 { 24int } else { phase_sum(facts.grid@, 64) },
{
    let mut ph: u32 = 0;
    let mut s: usize = 0;
    while s < 64
        invariant
            facts.wf(),
            s <= 64,
            ph == phase_sum(facts.grid@, s as int),
            ph <= 4 * s,
        decreases 64 - s,
    {
        ph = ph + piece_phase(facts.grid[s] % 8) as u32;
        s = s + 1;
    }
    if ph > 24 {
        24
    } else {
        ph as u8
    }
}

/// The square with the same file on the vertically mirrored rank.
pub open spec fn mirror_square(s: int) -> int {
    s % 8 + (7 - s / 8) * 8
}

/// The same piece in the other color.
pub open spec fn swap_code(c: u8) -> u8 {
    if c == 0 {
        0
    } else if c < 8 {
        (c + 8) as u8
    } else {
        (c - 8) as u8
    }
}

/// The position seen from the other side: ranks flipped, colors swapped.
pub open spec fn mirror_grid(g: Seq<u8>) -> Seq<u8> {
    Seq::new(64, |i: int| swap_code(g[mirror_square(i)]))
}

/// A generic sum of per-square weights over the first `n` squares.
pub open spec fn sum_to(w: spec_fn(int) -> int, n: int) -> int
    decreases n,
{
    if n <= 0 {
        0
    } else {
        sum_to(w, n - 1) + w(n - 1)
    }
}

/// The same sum over the half-open range `[a, b)`.
pub open spec fn sum_range(w: spec_fn(int) -> int, a: int, b: int) -> int
    decreases b - a,
{
    if b <= a {
        0
    } else {
        sum_range(w, a, b - 1) + w(b - 1)
    }
}

proof fn lemma_sum_to_is_range(w: spec_fn(int) -> int, n: int)
    requires
        n >= 0,
    ensures
        sum_to(w, n) == sum_range(w, 0, n),
    decreases n,
{
    if n > 0 {
        lemma_sum_to_is_range(w, n - 1);
    }
}

proof fn lemma_sum_range_concat(w: spec_fn(int) -> int, a: int, b: int, c: int)
    requires
        a <= b <= c,
    ensures
        sum_range(w, a, c) == sum_range(w, a, b) + sum_range(w, b, c),
    decreases c - b,
{
    if c > b {
        lemma_sum_range_concat(w, a, b, c - 1);
    }
}

proof fn lemma_mirror_index(k: int, j: int)
    requires
        0 <= k < 8,
        0 <= j < 8,
    ensures
        mirror_square(8 * k + j) == 8 * (7 - k) + j,
{
    assert((8 * k + j) % 8 == j && (8 * k + j) / 8 == k) by (nonlinear_arith)
        requires
            0 <= j < 8,
            0 <= k,
    ;
}

/// A square's file and mirrored rank.
proof fn lemma_square_coords(s: int)
    requires
        0 <= s < 64,
    ensures
        0 <= s % 8 < 8,
        0 <= s / 8 < 8,
        s == 8 * (s / 8) + s % 8,
        mirror_square(s) == 8 * (7 - s / 8) + s % 8,
        0 <= mirror_square(s) < 64,
        mirror_square(mirror_square(s)) == s,
{
    lemma_mirror_index(s / 8, s % 8);
    lemma_mirror_index(7 - s / 8, s % 8);
}

/// One rank of a sum whose weights are the mirror of another's equals the
/// mirrored rank of the other sum.
proof fn lemma_sum_rank_mirror(w: spec_fn(int) -> int, w2: spec_fn(int) -> int, k: int, j: int)
    requires
        0 <= k < 8,
        0 <= j <= 8,
        forall|i: int| 0 <= i < 64 ==> #[trigger] w2(i) == w(mirror_square(i)),
    ensures
        sum_range(w2, 8 * k, 8 * k + j) == sum_range(w, 8 * (7 - k), 8 * (7 - k) + j),
    decreases j,
{
    if j > 0 {
        lemma_sum_rank_mirror(w, w2, k, j - 1);
        lemma_mirror_index(k, j - 1);
        assert(w2(8 * k + (j - 1)) == w(8 * (7 - k) + (j - 1)));
    }
}

/// Summing a mirrored weighting over the whole board gives the same total.
proof fn lemma_sum_mirror(w: spec_fn(int) -> int, w2: spec_fn(int) -> int)
    requires
        forall|i: int| 0 <= i < 64 ==> #[trigger] w2(i) == w(mirror_square(i)),
    ensures
        sum_to(w2, 64) == sum_to(w, 64),
{
    lemma_sum_to_is_range(w, 64);
    lemma_sum_to_is_range(w2, 64);
    // each rank of w2 equals the mirrored rank of w
    lemma_sum_rank_mirror(w, w2, 0, 8);
    lemma_sum_rank_mirror(w, w2, 1, 8);
    lemma_sum_rank_mirror(w, w2, 2, 8);
    lemma_sum_rank_mirror(w, w2, 3, 8);
    lemma_sum_rank_mirror(w, w2, 4, 8);
    lemma_sum_rank_mirror(w, w2, 5, 8);
    lemma_sum_rank_mirror(w, w2, 6, 8);
    lemma_sum_rank_mirror(w, w2, 7, 8);
    // both totals split into the same eight rank sums
    lemma_sum_range_concat(w2, 0, 8, 16);
    lemma_sum_range_concat(w2, 0, 16, 24);
    lemma_sum_range_concat(w2, 0, 24, 32);
    lemma_sum_range_concat(w2, 0, 32, 40);
    lemma_sum_range_concat(w2, 0, 40, 48);
    lemma_sum_range_concat(w2, 0, 48, 56);
    lemma_sum_range_concat(w2, 0, 56, 64);
    lemma_sum_range_concat(w, 0, 8, 16);
    lemma_sum_range_concat(w, 0, 16, 24);
    lemma_sum_range_concat(w, 0, 24, 32);
    lemma_sum_range_concat(w, 0, 32, 40);
    lemma_sum_range_concat(w, 0, 40, 48);
    lemma_sum_range_concat(w, 0, 48, 56);
    lemma_sum_range_concat(w, 0, 56, 64);
}

/// The per-square phase weight of a grid.
pub open spec fn phase_weight(g: Seq<u8>) -> spec_fn(int) -> int {
    |i: int| spec_piece_phase(piece_of(g[i])) as int
}

proof fn lemma_phase_is_sum(g: Seq<u8>, n: int)
    requires
        n >= 0,
    ensures
        phase_sum(g, n) == sum_to(phase_weight(g), n),
    decreases n,
{
    if n > 0 {
        lemma_phase_is_sum(g, n - 1);
    }
}

/// The per-square accumulator components of a grid.
pub open spec fn contrib_weight(p: EvalParams, g: Seq<u8>, c: int) -> spec_fn(int) -> int {
    |i: int|
        if c == 0 {
            square_contrib(p, g, i).0
        } else if c == 1 {
            square_contrib(p, g, i).1
        } else if c == 2 {
            square_contrib(p, g, i).2
        } else {
            square_contrib(p, g, i).3
        }
}

proof fn lemma_acc_is_sum(p: EvalParams, g: Seq<u8>, n: int)
    requires
        n >= 0,
    ensures
        acc(p, g, n).0 == sum_to(contrib_weight(p, g, 0), n),
        acc(p, g, n).1 == sum_to(contrib_weight(p, g, 1), n),
        acc(p, g, n).2 == sum_to(contrib_weight(p, g, 2), n),
        acc(p, g, n).3 == sum_to(contrib_weight(p, g, 3), n),
    decreases n,
{
    if n > 0 {
        lemma_acc_is_sum(p, g, n - 1);
    }
}

/// The per-square pawn-shield weight around a center.
pub open spec fn shield_weight(g: Seq<u8>, center: int) -> spec_fn(int) -> int {
    |i: int|
        if adjacent_or_same(center, i) && piece_of(g[i]) == 1 {
            1int
        } else {
            0int
        }
}

proof fn lemma_shield_is_sum(g: Seq<u8>, center: int, n: int)
    requires
        n >= 0,
    ensures
        shield_pawns(g, center, n) as int == sum_to(shield_weight(g, center), n),
    decreases n,
{
    if n > 0 {
        lemma_shield_is_sum(g, center, n - 1);
    }
}

/// Mirroring both squares preserves adjacency.
proof fn lemma_adjacent_mirror(a: int, b: int)
    requires
        0 <= a < 64,
        0 <= b < 64,
    ensures
        adjacent_or_same(mirror_square(a), mirror_square(b)) == adjacent_or_same(a, b),
{
    lemma_square_coords(a);
    lemma_square_coords(b);
    lemma_mirror_index(7 - a / 8, a % 8);
    lemma_mirror_index(7 - b / 8, b % 8);
    assert(mirror_square(a) % 8 == a % 8 && mirror_square(a) / 8 == 7 - a / 8) by (nonlinear_arith)
        requires
            mirror_square(a) == 8 * (7 - a / 8) + a % 8,
            0 <= a % 8 < 8,
            0 <= a / 8 < 8,
    ;
    assert(mirror_square(b) % 8 == b % 8 && mirror_square(b) / 8 == 7 - b / 8) by (nonlinear_arith)
        requires
            mirror_square(b) == 8 * (7 - b / 8) + b % 8,
            0 <= b % 8 < 8,
            0 <= b / 8 < 8,
    ;
}

/// Swapping a piece's color leaves the piece itself.
proof fn lemma_swap_code_piece(c: u8)
    requires
        valid_code(c),
    ensures
        piece_of(swap_code(c)) == piece_of(c),
        valid_code(swap_code(c)),
        c != 0 ==> is_black_code(swap_code(c)) == !is_black_code(c),
{
}

/// The mirrored grid holds the same pawn shield around the mirrored center.
proof fn lemma_shield_mirror(g: Seq<u8>, center: int)
    requires
        g.len() == 64,
        forall|i: int| 0 <= i < 64 ==> valid_code(#[trigger] g[i]),
        0 <= center < 64,
    ensures
        shield_pawns(mirror_grid(g), mirror_square(center), 64) == shield_pawns(g, center, 64),
{
    let w = shield_weight(g, center);
    let w2 = shield_weight(mirror_grid(g), mirror_square(center));
    assert forall|i: int| 0 <= i < 64 implies #[trigger] w2(i) == w(mirror_square(i)) by {
        lemma_square_coords(i);
        lemma_square_coords(center);
        lemma_adjacent_mirror(center, mirror_square(i));
        lemma_swap_code_piece(g[mirror_square(i)]);
        assert(mirror_grid(g)[i] == swap_code(g[mirror_square(i)]));
    }
    lemma_shield_is_sum(g, center, 64);
    lemma_shield_is_sum(mirror_grid(g), mirror_square(center), 64);
    lemma_sum_mirror(w, w2);
}

/// The mirrored grid has pawns on exactly the same files.
proof fn lemma_file_pawn_mirror(g: Seq<u8>, f: int)
    requires
        g.len() == 64,
        forall|i: int| 0 <= i < 64 ==> valid_code(#[trigger] g[i]),
        0 <= f < 8,
    ensures
        file_has_pawn(mirror_grid(g), f) == file_has_pawn(g, f),
{
    if file_has_pawn(g, f) {
        let r = choose|r: int| 0 <= r < 8 && piece_of(#[trigger] g[r * 8 + f]) == 1;
        lemma_mirror_index(7 - r, f);
        lemma_swap_code_piece(g[r * 8 + f]);
        assert(mirror_grid(g)[(7 - r) * 8 + f] == swap_code(g[r * 8 + f]));
        assert(piece_of(mirror_grid(g)[(7 - r) * 8 + f]) == 1);
        assert(file_has_pawn(mirror_grid(g), f));
    }
    if file_has_pawn(mirror_grid(g), f) {
        let r = choose|r: int| 0 <= r < 8 && piece_of(#[trigger] mirror_grid(g)[r * 8 + f]) == 1;
        lemma_mirror_index(r, f);
        lemma_swap_code_piece(g[(7 - r) * 8 + f]);
        assert(mirror_grid(g)[r * 8 + f] == swap_code(g[(7 - r) * 8 + f]));
        assert(piece_of(g[(7 - r) * 8 + f]) == 1);
        assert(file_has_pawn(g, f));
    }
}

/// The forward king squares of mirrored kings mirror each other.
proof fn lemma_king_center_mirror(s: int, black: bool)
    requires
        0 <= s < 64,
    ensures
        king_center(s, black) == mirror_square(king_center(mirror_square(s), !black)),
{
    lemma_square_coords(s);
    let ms = mirror_square(s);
    lemma_square_coords(ms);
    if !black {
        // a white king at s, a black one at the mirror
        if s < 56 {
            assert(ms >= 8);
            lemma_mirror_index(7 - s / 8 - 1, s % 8);
            assert(ms - 8 == 8 * (7 - s / 8 - 1) + s % 8) by (nonlinear_arith)
                requires
                    ms == 8 * (7 - s / 8) + s % 8,
            ;
            assert(mirror_square(ms - 8) == 8 * (s / 8 + 1) + s % 8);
            assert(s + 8 == 8 * (s / 8 + 1) + s % 8) by (nonlinear_arith)
                requires
                    s == 8 * (s / 8) + s % 8,
            ;
        } else {
            assert(ms < 8);
        }
    } else {
        if s >= 8 {
            assert(ms < 56);
            lemma_mirror_index(7 - s / 8 + 1, s % 8);
            assert(ms + 8 == 8 * (7 - s / 8 + 1) + s % 8) by (nonlinear_arith)
                requires
                    ms == 8 * (7 - s / 8) + s % 8,
            ;
            assert(mirror_square(ms + 8) == 8 * (s / 8 - 1) + s % 8);
            assert(s - 8 == 8 * (s / 8 - 1) + s % 8) by (nonlinear_arith)
                requires
                    s == 8 * (s / 8) + s % 8,
            ;
        } else {
            assert(ms >= 56);
        }
    }
}

/// What a mirrored square adds to one color's accumulators is exactly
/// what the original square adds to the other color's.
proof fn lemma_contrib_mirror(p: EvalParams, g: Seq<u8>, s: int)
    requires
        p.wf(),
        g.len() == 64,
        forall|i: int| 0 <= i < 64 ==> valid_code(#[trigger] g[i]),
        0 <= s < 64,
    ensures
        square_contrib(p, mirror_grid(g), s).0 == square_contrib(p, g, mirror_square(s)).2,
        square_contrib(p, mirror_grid(g), s).1 == square_contrib(p, g, mirror_square(s)).3,
        square_contrib(p, mirror_grid(g), s).2 == square_contrib(p, g, mirror_square(s)).0,
        square_contrib(p, mirror_grid(g), s).3 == square_contrib(p, g, mirror_square(s)).1,
{
    lemma_square_coords(s);
    let ms = mirror_square(s);
    lemma_square_coords(ms);
    let c = g[ms];
    let c2 = mirror_grid(g)[s];
    assert(c2 == swap_code(c));
    if c != 0 {
        lemma_swap_code_piece(c);
        // the mirrored square reads the same table slot
        assert(pst_index(s, c2) == pst_index(ms, c));
        // open files mirror file by file
        assert(s % 8 == ms % 8);
        lemma_file_pawn_mirror(g, s % 8);
        // the pawn shield mirrors around the mirrored forward square
        if piece_of(c) == 6 {
            lemma_king_center_mirror(ms, is_black_code(c));
            let center = king_center(ms, is_black_code(c));
            assert(0 <= center < 64);
            lemma_square_coords(center);
            lemma_shield_mirror(g, center);
            assert(king_center(s, is_black_code(c2)) == mirror_square(center));
        }
    }
}

/// Law: the static evaluation is color-symmetric. A position seen from
/// the other side — ranks flipped, colors swapped, the other player to
/// move — evaluates to exactly the same score. This is the leaf case of
/// negamax symmetry: at depth zero the search stands pat on this value.
pub proof fn lemma_evaluate_mirror(p: EvalParams, f1: BoardFacts, f2: BoardFacts)
    requires
        p.wf(),
        f1.wf(),
        f2.grid@ == mirror_grid(f1.grid@),
        f2.black_to_move == !f1.black_to_move,
    ensures
        spec_evaluate(p, f2) == spec_evaluate(p, f1),
{
    let g = f1.grid@;
    let mg = mirror_grid(g);
    // the four accumulators swap colors
    lemma_acc_is_sum(p, g, 64);
    lemma_acc_is_sum(p, mg, 64);
    assert forall|i: int| 0 <= i < 64 implies #[trigger] (contrib_weight(p, mg, 0))(i) == (
    contrib_weight(p, g, 2))(mirror_square(i)) by {
        lemma_square_coords(i);
        lemma_contrib_mirror(p, g, i);
    }
    lemma_sum_mirror(contrib_weight(p, g, 2), contrib_weight(p, mg, 0));
    assert forall|i: int| 0 <= i < 64 implies #[trigger] (contrib_weight(p, mg, 1))(i) == (
    contrib_weight(p, g, 3))(mirror_square(i)) by {
        lemma_square_coords(i);
        lemma_contrib_mirror(p, g, i);
    }
    lemma_sum_mirror(contrib_weight(p, g, 3), contrib_weight(p, mg, 1));
    assert forall|i: int| 0 <= i < 64 implies #[trigger] (contrib_weight(p, mg, 2))(i) == (
    contrib_weight(p, g, 0))(mirror_square(i)) by {
        lemma_square_coords(i);
        lemma_contrib_mirror(p, g, i);
    }
    lemma_sum_mirror(contrib_weight(p, g, 0), contrib_weight(p, mg, 2));
    assert forall|i: int| 0 <= i < 64 implies #[trigger] (contrib_weight(p, mg, 3))(i) == (
    contrib_weight(p, g, 1))(mirror_square(i)) by {
        lemma_square_coords(i);
        lemma_contrib_mirror(p, g, i);
    }
    lemma_sum_mirror(contrib_weight(p, g, 1), contrib_weight(p, mg, 3));
    // the phase is untouched by the mirror
    lemma_phase_is_sum(g, 64);
    lemma_phase_is_sum(mg, 64);
    assert forall|i: int| 0 <= i < 64 implies #[trigger] (phase_weight(mg))(i) == (phase_weight(
        g,
    ))(mirror_square(i)) by {
        lemma_square_coords(i);
        lemma_swap_code_piece(g[mirror_square(i)]);
        assert(mg[i] == swap_code(g[mirror_square(i)]));
    }
    lemma_sum_mirror(phase_weight(g), phase_weight(mg));
}

impl EvalParams {
    /// Evaluate a position: the tapered piece-square sums from the side
    /// to move's standpoint, clamped to the centipawn range.
    pub fn evaluate_static(&self, facts: &BoardFacts) -> (r: Eval)
        requires
            self.wf(),
            facts.wf(),
        ensures
            r.0 as int == spec_evaluate(*self, *facts),
            -16383 <= r.0 <= 16383,
    {
        let mut mw: i64 = 0;
        let mut ew: i64 = 0;
        let mut mb: i64 = 0;
        let mut eb: i64 = 0;
        let mut s: usize = 0;
        while s < 64
            invariant
                self.wf(),
                facts.wf(),
                s <= 64,
                (mw as int, ew as int, mb as int, eb as int) == acc(*self, facts.grid@, s as int),
                -164000 * s <= mw <= 164000 * s,
                -164000 * s <= ew <= 164000 * s,
                -164000 * s <= mb <= 164000 * s,
                -164000 * s <= eb <= 164000 * s,
            decreases 64 - s,
        {
            let c = facts.grid[s];
            if c != 0 {
                assert(crate::board::valid_code(facts.grid@[s as int]));
                let pc = c % 8;
                assert(1 <= pc <= 6);
                let black = c >= 8;
                let sq_idx = if black { s % 8 + (7 - s / 8) * 8 } else { s };
                let idx = sq_idx + (pc - 1) as usize * 64;
                let mut mid = self.pst_mid[idx] as i64;
                let mut end = self.pst_end[idx] as i64;
                if pc == 4 && !has_pawn_on_file(facts, s % 8) {
                    mid = mid + self.rook_open_file_bonus as i64;
                    end = end + self.rook_open_file_bonus as i64;
                }
                if pc == 6 {
                    let center = if black {
                        if s >= 8 { s - 8 } else { s }
                    } else {
                        if s < 56 { s + 8 } else { s }
                    };
                    let pawns = count_shield_pawns(facts, center);
                    let deficit: i64 = if pawns >= 3 { 0 } else { 3 - pawns as i64 };
                    let pen: i64 = self.unshield_king_penalty as i64;
                    assert(-98304 <= pen * deficit <= 98304) by (nonlinear_arith)
                        requires
                            -32768 <= pen <= 32767,
                            0 <= deficit <= 3,
                    ;
                    mid = mid + pen * deficit;
                }
                assert(-164000 <= mid <= 164000);
                assert(-164000 <= end <= 164000);
                if black {
                    mb = mb + mid;
                    eb = eb + end;
                } else {
                    mw = mw + mid;
                    ew = ew + end;
                }
            }
            s = s + 1;
        }
        let phase = game_phase(facts) as i64;
        let mg: i64 = if facts.black_to_move { mb - mw } else { mw - mb };
        let eg: i64 = if facts.black_to_move { eb - ew } else { ew - eb };
        assert(0 <= phase <= 24);
        assert(-21000000 <= mg <= 21000000 && -21000000 <= eg <= 21000000);
        assert(-504000000 <= mg * phase <= 504000000) by (nonlinear_arith)
            requires -21000000 <= mg <= 21000000 && 0 <= phase <= 24;
        assert(-504000000 <= eg * (24 - phase) <= 504000000) by (nonlinear_arith)
            requires -21000000 <= eg <= 21000000 && 0 <= phase <= 24;
        let num: i64 = mg * phase + eg * (24 - phase);
        let q: i64 = if num >= 0 {
            ((num as u64) / 24) as i64
        } else {
            -((((-num) as u64) / 24) as i64)
        };
        let clamped: i64 = if q > 16383 { 16383 } else if q < -16383 { -16383 } else { q };
        Eval(clamped as i16)
    }
}

} // verus!
