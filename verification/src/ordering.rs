//! Move-ordering state: the history table, the per-ply killer table, the
//! countermove table, and the scoring that sorts moves at a node.

use vstd::pervasive::VecAdditionalExecFns;
use vstd::prelude::*;

use crate::board::Move;
use crate::eval::spec_piece_value;
use crate::game::Game;
use crate::table::TransTableEntry;

verus! {

/// History scores are clamped to this magnitude so that a quiet move can
/// never outrank a killer or countermove.
pub const HISTORY_CAP: i64 = 30000;

/// The ordering score of a killer move; above every history score and
/// below every capture.
pub const KILLER_SCORE: i64 = 60000;

/// The ordering score of a countermove; between killers and history.
pub const COUNTERMOVE_SCORE: i64 = 50000;

/// The slot of a move in the 64×64 history table.
pub open spec fn history_index(m: Move) -> int {
    m.source as int * 64 + m.dest as int
}

/// A 64×64 table of quiet-move scores indexed by source and destination
/// square. Cut-offs feed bonuses in, siblings searched before them feed
/// penalties; values saturate at [`HISTORY_CAP`].
pub struct HistoryTable {
    pub scores: Vec<i64>,
}

pub open spec fn clamp_history(v: int) -> i64 {
    if v > HISTORY_CAP {
        HISTORY_CAP
    } else if v < -HISTORY_CAP {
        (-HISTORY_CAP) as i64
    } else {
        v as i64
    }
}

impl HistoryTable {
    pub open spec fn wf(self) -> bool {
        &&& self.scores@.len() == 4096
        &&& forall|i: int| 0 <= i < 4096
            ==> -HISTORY_CAP <= #[trigger] self.scores@[i] <= HISTORY_CAP
    }

    /// A zeroed table.
    pub fn new() -> (r: HistoryTable)
        ensures
            r.wf(),
            forall|i: int| 0 <= i < 4096 ==> r.scores@[i] == 0,
    {
        let mut scores: Vec<i64> = Vec::new();
        let mut i: usize = 0;
        while i < 4096
            invariant
                i <= 4096,
                scores@.len() == i,
                forall|k: int| 0 <= k < i ==> scores@[k] == 0,
            decreases 4096 - i,
        {
            scores.push(0);
            i = i + 1;
        }
        HistoryTable { scores }
    }

    /// The score of a move.
    pub fn get(&self, m: Move) -> (r: i64)
        requires
            self.wf(),
            m.wf(),
        ensures
            r == self.scores@[history_index(m)],
    {
        self.scores[m.source as usize * 64 + m.dest as usize]
    }

    /// Add `delta` to a move's score, saturating at the cap.
    pub fn update(&mut self, m: Move, delta: i64)
        requires
            old(self).wf(),
            m.wf(),
            -1000000 <= delta <= 1000000,
        ensures
            final(self).wf(),
            final(self).scores@ == old(self).scores@.update(
                history_index(m),
                clamp_history(old(self).scores@[history_index(m)] + delta),
            ),
    {
        let idx = m.source as usize * 64 + m.dest as usize;
        let v = self.scores[idx] + delta;
        let v = if v > HISTORY_CAP {
            HISTORY_CAP
        } else if v < -HISTORY_CAP {
            -HISTORY_CAP
        } else {
            v
        };
        self.scores.set(idx, v);
    }

    /// Reward a move that caused a cut-off at `depth` with the square of
    /// the depth.
    pub fn add_bonus(&mut self, m: Move, depth: u8)
        requires
            old(self).wf(),
            m.wf(),
        ensures
            final(self).wf(),
            final(self).scores@ == old(self).scores@.update(
                history_index(m),
                clamp_history(
                    old(self).scores@[history_index(m)] + depth as int * depth as int,
                ),
            ),
    {
        let d = depth as i64;
        assert(0 <= d * d <= 65025) by (nonlinear_arith)
            requires
                0 <= d <= 255,
        ;
        self.update(m, d * d);
    }
}

/// The recent quiet cut-off move of one ply.
#[derive(Debug, Clone, Copy, PartialEq, Eq, Structural, Hash)]
pub struct KillerEntry {
    pub slot: Move,
}

impl KillerEntry {
    /// An entry holding the sentinel move.
    pub fn new() -> (r: KillerEntry)
        ensures
            r.slot == (Move { source: 0u8, dest: 0u8, promo: 0u8 }),
    {
        KillerEntry { slot: Move { source: 0, dest: 0, promo: 0 } }
    }

    /// Whether the entry holds `m`.
    pub fn contains(&self, m: Move) -> (r: bool)
        ensures
            r == (self.slot == m),
    {
        self.slot == m
    }

    /// Remember `m` as the latest quiet cut-off move.
    pub fn push(&mut self, m: Move)
        ensures
            final(self).slot == m,
    {
        self.slot = m;
    }
}

/// One killer entry for each ply of the search (up to 256).
pub struct KillerTable {
    pub entries: Vec<KillerEntry>,
}

impl KillerTable {
    pub open spec fn wf(self) -> bool {
        self.entries@.len() == 256
    }

    /// A table of sentinel entries.
    pub fn new() -> (r: KillerTable)
        ensures
            r.wf(),
    {
        let mut entries: Vec<KillerEntry> = Vec::new();
        let mut i: usize = 0;
        while i < 256
            invariant
                i <= 256,
                entries@.len() == i,
            decreases 256 - i,
        {
            entries.push(KillerEntry::new());
            i = i + 1;
        }
        KillerTable { entries }
    }

    /// The entry of a ply.
    pub fn at(&self, ply: usize) -> (r: KillerEntry)
        requires
            self.wf(),
            ply < 256,
        ensures
            r == self.entries@[ply as int],
    {
        self.entries[ply]
    }

    /// Remember a quiet cut-off move at a ply.
    pub fn push_at(&mut self, ply: usize, m: Move)
        requires
            old(self).wf(),
            ply < 256,
        ensures
            final(self).wf(),
            final(self).entries@ == old(self).entries@.update(
                ply as int,
                KillerEntry { slot: m },
            ),
    {
        self.entries.set(ply, KillerEntry { slot: m });
    }
}

/// The slot of a preceding move in the countermove table.
pub open spec fn countermove_index(m: Move) -> int {
    (m.source as int * 64 + m.dest as int) * 5 + m.promo as int
}

/// For each possible preceding move, the move most recently seen to
/// refute it with a cut-off.
pub struct CountermoveTable {
    pub moves: Vec<Move>,
}

impl CountermoveTable {
    pub open spec fn wf(self) -> bool {
        &&& self.moves@.len() == 20480
        &&& forall|i: int| 0 <= i < 20480 ==> (#[trigger] self.moves@[i]).wf()
    }

    /// A table of sentinel moves.
    pub fn new() -> (r: CountermoveTable)
        ensures
            r.wf(),
    {
        let mut moves: Vec<Move> = Vec::new();
        let mut i: usize = 0;
        while i < 20480
            invariant
                i <= 20480,
                moves@.len() == i,
                forall|k: int| 0 <= k < i ==> (#[trigger] moves@[k]).wf(),
            decreases 20480 - i,
        {
            moves.push(Move { source: 0, dest: 0, promo: 0 });
            i = i + 1;
        }
        CountermoveTable { moves }
    }

    /// The remembered refutation of `prev`.
    pub fn get(&self, prev: Move) -> (r: Move)
        requires
            self.wf(),
            prev.wf(),
        ensures
            r == self.moves@[countermove_index(prev)],
            r.wf(),
    {
        self.moves[(prev.source as usize * 64 + prev.dest as usize) * 5 + prev.promo as usize]
    }

    /// Remember `m` as the refutation of `prev`.
    pub fn set(&mut self, prev: Move, m: Move)
        requires
            old(self).wf(),
            prev.wf(),
            m.wf(),
        ensures
            final(self).wf(),
            final(self).moves@ == old(self).moves@.update(countermove_index(prev), m),
    {
        let idx = (prev.source as usize * 64 + prev.dest as usize) * 5 + prev.promo as usize;
        self.moves.set(idx, m);
    }
}

/// Most-valuable-victim / least-valuable-aggressor: the victim's value
/// scaled by a queen's worth, minus the aggressor's value.
pub open spec fn spec_mvv_lva(grid: Seq<u8>, m: Move) -> int {
    spec_piece_value(crate::board::piece_of(grid[m.dest as int])) as int * 1025
        - spec_piece_value(crate::board::piece_of(grid[m.source as int])) as int
}

/// MVV/LVA capture score. Both squares of `m` must be occupied.
pub fn mvv_lva(game: &Game, m: Move) -> (r: i64)
    requires
        game.wf(),
        m.wf(),
        game.spec_facts().grid@[m.dest as int] != 0,
        game.spec_facts().grid@[m.source as int] != 0,
    ensures
        r == spec_mvv_lva(game.spec_facts().grid@, m),
{
    let victim = crate::eval::piece_value(game.facts().grid[m.dest as usize] % 8);
    let aggressor = crate::eval::piece_value(game.facts().grid[m.source as usize] % 8);
    assert(crate::board::valid_code(game.spec_facts().grid@[m.dest as int]));
    assert(crate::board::valid_code(game.spec_facts().grid@[m.source as int]));
    victim as i64 * 1025 - aggressor as i64
}

/// The ordering score of a move at a node, high to low: the remembered
/// best move of the transposition table, captures by MVV/LVA, the killer
/// of this ply, the countermove of the move that led here, and last the
/// history score.
pub open spec fn spec_move_score(
    grid: Seq<u8>,
    m: Move,
    tt: Option<TransTableEntry>,
    killer: KillerEntry,
    counter: Move,
    hist: Seq<i64>,
) -> int {
    if tt is Some && tt->0.next == m {
        i64::MAX as int
    } else if grid[m.dest as int] != 0 {
        spec_mvv_lva(grid, m)
    } else if killer.slot == m {
        KILLER_SCORE as int
    } else if counter == m {
        COUNTERMOVE_SCORE as int
    } else {
        hist[history_index(m)] as int
    }
}

/// Score `m` for the stable sort at a node.
pub fn move_score(
    game: &Game,
    m: Move,
    tt: &Option<TransTableEntry>,
    killer: KillerEntry,
    counter: Move,
    hist: &HistoryTable,
) -> (r: i64)
    requires
        game.wf(),
        m.wf(),
        hist.wf(),
    ensures
        r == spec_move_score(
            game.spec_facts().grid@,
            m,
            *tt,
            killer,
            counter,
            hist.scores@,
        ),
{
    let is_tt_move = match tt {
        Some(e) => e.next == m,
        None => false,
    };
    if is_tt_move {
        i64::MAX
    } else if game.is_capture(m) {
        let victim = crate::eval::piece_value(game.facts().grid[m.dest as usize] % 8);
        let aggressor = crate::eval::piece_value(game.facts().grid[m.source as usize] % 8);
        victim as i64 * 1025 - aggressor as i64
    } else if killer.contains(m) {
        KILLER_SCORE
    } else if counter == m {
        COUNTERMOVE_SCORE
    } else {
        hist.get(m)
    }
}

} // verus!
