//! Static exchange evaluation: the expected material balance of the
//! capture sequence a move starts, assuming both sides always recapture
//! with their least valuable attacker and may stand aside when a
//! recapture loses material.
//!
//! The whole computation works on the mirrored square grid: attack
//! geometry (with x-rays through pieces already traded off), least-
//! valuable-attacker selection, and the classic swap backward pass.

use vstd::pervasive::VecAdditionalExecFns;
use vstd::prelude::*;

use crate::board::{is_black_code, piece_of, Move};
use crate::game::Game;

verus! {

/// Exchange value of a piece code: material values, with the king worth
/// more than every possible sequence so it is never profitably given up.
pub open spec fn spec_see_value(p: u8) -> int {
    if p == 6 {
        10000
    } else {
        crate::eval::spec_piece_value(p) as int
    }
}

fn see_value(p: u8) -> (r: i32)
    ensures
        r == spec_see_value(p),
        0 <= r <= 10000,
{
    if p == 6 {
        10000
    } else {
        crate::eval::piece_value(p) as i32
    }
}

/// Whether every square strictly between the walker and the target,
/// stepping `(df, dr)` files and ranks at a time, is empty or already
/// traded off; the walk gives up at the board's edge or after `fuel`
/// steps.
pub open spec fn spec_ray_clear(
    grid: Seq<u8>,
    gone: Seq<bool>,
    f: int,
    r: int,
    df: int,
    dr: int,
    tf: int,
    tr: int,
    fuel: int,
) -> bool
    decreases fuel,
{
    if fuel <= 0 {
        false
    } else {
        let nf = f + df;
        let nr = r + dr;
        if !(0 <= nf < 8 && 0 <= nr < 8) {
            false
        } else if nf == tf && nr == tr {
            true
        } else if grid[nr * 8 + nf] != 0 && !gone[nr * 8 + nf] {
            false
        } else {
            spec_ray_clear(grid, gone, nf, nr, df, dr, tf, tr, fuel - 1)
        }
    }
}

fn ray_clear(
    grid: &Vec<u8>,
    gone: &Vec<bool>,
    f: i32,
    r: i32,
    df: i32,
    dr: i32,
    tf: i32,
    tr: i32,
    fuel: u8,
) -> (res: bool)
    requires
        grid@.len() == 64,
        gone@.len() == 64,
        0 <= f < 8,
        0 <= r < 8,
        -1 <= df <= 1,
        -1 <= dr <= 1,
        0 <= tf < 8,
        0 <= tr < 8,
    ensures
        res == spec_ray_clear(grid@, gone@, f as int, r as int, df as int, dr as int, tf as int,
            tr as int, fuel as int),
    decreases fuel,
{
    if fuel == 0 {
        return false;
    }
    let nf = f + df;
    let nr = r + dr;
    if !(0 <= nf && nf < 8 && 0 <= nr && nr < 8) {
        false
    } else if nf == tf && nr == tr {
        true
    } else {
        let sq = (nr * 8 + nf) as usize;
        if grid[sq] != 0 && !gone[sq] {
            false
        } else {
            ray_clear(grid, gone, nf, nr, df, dr, tf, tr, fuel - 1)
        }
    }
}

/// Whether the piece standing on `from` attacks `to`, counting pieces
/// already traded off (`gone`) as absent so that x-ray attackers behind
/// them come into play.
pub open spec fn spec_attacks(grid: Seq<u8>, gone: Seq<bool>, from: int, to: int) -> bool {
    let c = grid[from];
    let p = piece_of(c);
    let ff = from % 8;
    let fr = from / 8;
    let tf = to % 8;
    let tr = to / 8;
    let fd = tf - ff;
    let rd = tr - fr;
    if from == to || c == 0 {
        false
    } else if p == 1 {
        (if is_black_code(c) { rd == -1 } else { rd == 1 }) && (fd == 1 || fd == -1)
    } else if p == 2 {
        ((fd == 1 || fd == -1) && (rd == 2 || rd == -2)) || ((fd == 2 || fd == -2) && (rd == 1
            || rd == -1))
    } else if p == 6 {
        -1 <= fd <= 1 && -1 <= rd <= 1
    } else {
        let diag = fd == rd || fd == -rd;
        let straight = fd == 0 || rd == 0;
        let fits = if p == 3 {
            diag
        } else if p == 4 {
            straight
        } else {
            diag || straight
        };
        fits && spec_ray_clear(grid, gone, ff, fr, sign(fd), sign(rd), tf, tr, 8)
    }
}

pub open spec fn sign(x: int) -> int {
    if x > 0 {
        1
    } else if x < 0 {
        -1
    } else {
        0
    }
}

fn attacks(grid: &Vec<u8>, gone: &Vec<bool>, from: usize, to: usize) -> (res: bool)
    requires
        grid@.len() == 64,
        gone@.len() == 64,
        from < 64,
        to < 64,
    ensures
        res == spec_attacks(grid@, gone@, from as int, to as int),
{
    let c = grid[from];
    let p = c % 8;
    let ff = (from % 8) as i32;
    let fr = (from / 8) as i32;
    let tf = (to % 8) as i32;
    let tr = (to / 8) as i32;
    let fd = tf - ff;
    let rd = tr - fr;
    if from == to || c == 0 {
        false
    } else if p == 1 {
        (if c >= 8 { rd == -1 } else { rd == 1 }) && (fd == 1 || fd == -1)
    } else if p == 2 {
        ((fd == 1 || fd == -1) && (rd == 2 || rd == -2)) || ((fd == 2 || fd == -2) && (rd == 1
            || rd == -1))
    } else if p == 6 {
        -1 <= fd && fd <= 1 && -1 <= rd && rd <= 1
    } else {
        let diag = fd == rd || fd == -rd;
        let straight = fd == 0 || rd == 0;
        let fits = if p == 3 {
            diag
        } else if p == 4 {
            straight
        } else {
            diag || straight
        };
        let df = if fd > 0 { 1 } else if fd < 0 { -1 } else { 0 };
        let dr = if rd > 0 { 1 } else if rd < 0 { -1 } else { 0 };
        fits && ray_clear(grid, gone, ff, fr, df, dr, tf, tr, 8)
    }
}

/// Whether `j` holds a live attacker of `to` for the given side.
pub open spec fn spec_is_attacker(
    grid: Seq<u8>,
    gone: Seq<bool>,
    to: int,
    by_black: bool,
    j: int,
) -> bool {
    &&& grid[j] != 0
    &&& is_black_code(grid[j]) == by_black
    &&& !gone[j]
    &&& spec_attacks(grid, gone, j, to)
}

/// The least valuable live attacker of `to` for one side, if any.
fn least_attacker(grid: &Vec<u8>, gone: &Vec<bool>, to: usize, by_black: bool) -> (r: Option<
    usize,
>)
    requires
        grid@.len() == 64,
        gone@.len() == 64,
        to < 64,
    ensures
        match r {
            Option::Some(sq) => {
                &&& sq < 64
                &&& spec_is_attacker(grid@, gone@, to as int, by_black, sq as int)
                &&& forall|j: int|
                    0 <= j < 64 && spec_is_attacker(grid@, gone@, to as int, by_black, j)
                        ==> spec_see_value(piece_of(grid@[j])) >= spec_see_value(
                        piece_of(grid@[sq as int]),
                    )
            },
            Option::None => forall|j: int|
                0 <= j < 64 ==> !spec_is_attacker(grid@, gone@, to as int, by_black, j),
        },
{
    let mut best: Option<usize> = None;
    let mut best_value: i32 = 10001;
    let mut j: usize = 0;
    while j < 64
        invariant
            grid@.len() == 64,
            gone@.len() == 64,
            to < 64,
            j <= 64,
            match best {
                Option::Some(sq) => {
                    &&& sq < 64
                    &&& spec_is_attacker(grid@, gone@, to as int, by_black, sq as int)
                    &&& best_value == spec_see_value(piece_of(grid@[sq as int]))
                    &&& forall|k: int|
                        0 <= k < j && spec_is_attacker(grid@, gone@, to as int, by_black, k)
                            ==> spec_see_value(piece_of(grid@[k])) >= best_value
                },
                Option::None => {
                    &&& best_value == 10001
                    &&& forall|k: int|
                        0 <= k < j ==> !spec_is_attacker(grid@, gone@, to as int, by_black, k)
                },
            },
        decreases 64 - j,
    {
        let c = grid[j];
        if c != 0 && (c >= 8) == by_black && !gone[j] && attacks(grid, gone, j, to) {
            let v = see_value(c % 8);
            if v < best_value {
                best = Some(j);
                best_value = v;
            }
        }
        j = j + 1;
    }
    best
}

/// The static exchange evaluation of `m`: the least material the moving
/// side is guaranteed by the capture sequence on the destination square,
/// both sides always recapturing with their least valuable attacker and
/// stopping when continuing would lose material. Positive means the
/// capture wins material, negative that it loses some.
pub fn see(game: &Game, m: Move) -> (r: i32)
    requires
        game.wf(),
        m.wf(),
    ensures
        -11000 <= r <= 11000,
{
    let grid = &game.facts().grid;
    let mut gone: Vec<bool> = Vec::new();
    let mut i: usize = 0;
    while i < 64
        invariant
            i <= 64,
            gone@.len() == i,
        decreases 64 - i,
    {
        gone.push(false);
        i = i + 1;
    }

    let mut gains: Vec<i32> = Vec::new();
    gains.push(see_value(grid[m.dest as usize] % 8));
    let mut occupier = grid[m.source as usize] % 8;
    let mut side_black = grid[m.source as usize] < 8;
    gone.set(m.source as usize, true);

    let mut d: usize = 1;
    while d < 34
        invariant
            game.wf(),
            m.wf(),
            grid@.len() == 64,
            gone@.len() == 64,
            gains@.len() == d,
            1 <= d <= 34,
            occupier <= 7,
            forall|k: int| 0 <= k < gains@.len()
                ==> -11000 <= #[trigger] gains@[k] <= 11000,
        decreases 34 - d,
    {
        match least_attacker(grid, &gone, m.dest as usize, side_black) {
            None => { break; },
            Some(sq) => {
                let captured = see_value(occupier);
                gains.push(captured - gains[d - 1]);
                if gains[d] < -11000 {
                    gains.set(d, -11000);
                }
                if gains[d] > 11000 {
                    gains.set(d, 11000);
                }
                occupier = grid[sq] % 8;
                gone.set(sq, true);
                side_black = !side_black;
                d = d + 1;
            },
        }
    }

    // backward pass: each earlier side may stand aside instead of
    // continuing a losing sequence
    let mut j: usize = gains.len() - 1;
    while j >= 1
        invariant
            gains@.len() >= 1,
            j <= gains@.len() - 1,
            forall|k: int| 0 <= k < gains@.len()
                ==> -11000 <= #[trigger] gains@[k] <= 11000,
        decreases j,
    {
        let give_up = -gains[j];
        if give_up < gains[j - 1] {
            gains.set(j - 1, give_up);
        }
        j = j - 1;
    }
    gains[0]
}

} // verus!
