//! Core of a chess-playing engine: a packed 16-bit evaluation score with
//! mate-distance semantics, a tapered piece-square evaluation, a game state
//! with fifty-move and repetition bookkeeping, a fixed-size transposition
//! table with a verify-hash integrity word, move-ordering state, and an
//! iterative-deepening alpha-beta search with the usual pruning and
//! reduction techniques.
//!
//! Legal-move generation, board representation and Zobrist hashing come
//! from the `chess` crate; every call into it goes through a small trusted
//! wrapper in [`board`], and all logic above those wrappers is verified.

use vstd::prelude::*;

pub mod board;
pub mod bound;
pub mod eval;
pub mod game;
pub mod ordering;
pub mod params;
pub mod score;
pub mod search;
pub mod see;
pub mod table;

pub use score::Eval;

use crate::eval::EvalParams;
use crate::game::Game;
use crate::ordering::{CountermoveTable, HistoryTable, KillerTable};
use crate::params::SearchParams;
use crate::table::{SharedHashTable, TransTable};

verus! {

#[verifier::external_type_specification]
#[verifier::external_body]
pub struct ExInstant(std::time::Instant);

/// Relies on `std::time::Instant::now`: the clock reading at the call.
#[verifier::external_body]
pub(crate) fn now_instant() -> std::time::Instant {
    std::time::Instant::now()
}

/// Relies on `std::time::Instant::elapsed`: the time since `t` was taken.
#[verifier::external_body]
fn instant_elapsed(t: &std::time::Instant) -> std::time::Duration {
    t.elapsed()
}

/// Relies on `std::time::Duration::as_millis`: the whole milliseconds.
#[verifier::external_body]
fn duration_as_millis(d: &std::time::Duration) -> u128 {
    d.as_millis()
}

/// A side's clock state: remaining time and increment, in milliseconds.
#[derive(Debug, Clone, Copy, PartialEq, Eq, Structural, Hash)]
pub struct TimeControl {
    pub time_left: u64,
    pub time_incr: u64,
}

impl Default for TimeControl {
    fn default() -> (r: TimeControl)
        ensures
            r.time_left == 0,
            r.time_incr == 0,
    {
        TimeControl { time_left: 0, time_incr: 0 }
    }
}

/// The soft budget of a clock: a fortieth of the remaining time, plus
/// most of the increment when time remains plentiful, floored by a small
/// minimum.
pub open spec fn spec_think_time(left: int, incr: int) -> int {
    let think = left / 40 + if left > 4 * incr { incr * 4 / 5 } else { 0 };
    let min_think = if left / 4 < 50 { left / 4 } else { 50 };
    if think > min_think { think } else { min_think }
}

/// The engine: the position under play, the transposition table shared by
/// every search, the move-ordering state, the tunable parameters, and the
/// time and node budgets of the current search.
pub struct Engine {
    pub game: Game,
    pub trans_table: TransTable,
    pub hist_table: HistoryTable,
    pub killers: KillerTable,
    pub countermoves: CountermoveTable,
    pub sparams: SearchParams,
    pub eval_params: EvalParams,
    /// Static evaluation of the position at each ply of the current line.
    pub evals: Vec<i16>,
    pub time_ref: std::time::Instant,
    pub time_soft_ms: u64,
    pub time_hard_ms: u64,
    pub can_time_out: bool,
    pub nodes_searched: u64,
    pub node_limit: u64,
    /// How many widenings the latest aspiration loop needed.
    pub asp_researches: u64,
}

impl Engine {
    pub open spec fn wf(self) -> bool {
        &&& self.game.wf()
        &&& self.trans_table.wf()
        &&& forall|i: int| 0 <= i < self.trans_table.cells@.len()
            ==> (#[trigger] self.trans_table.cells@[i]).value.next.wf()
        &&& self.hist_table.wf()
        &&& self.killers.wf()
        &&& self.countermoves.wf()
        &&& self.sparams.wf()
        &&& self.eval_params.wf()
        &&& self.evals@.len() == 256
    }

    /// A fresh engine on `game` with a transposition table of
    /// `hash_size_bytes / entry_size` cells (at least one).
    pub fn new(game: Game, hash_size_bytes: usize) -> (r: Engine)
        requires
            game.wf(),
        ensures
            r.wf(),
            r.game == game,
    {
        let trans_table = SharedHashTable::new(hash_size_bytes / SharedHashTable::entry_size());
        let mut evals: Vec<i16> = Vec::new();
        let mut i: usize = 0;
        while i < 256
            invariant
                i <= 256,
                evals@.len() == i,
            decreases 256 - i,
        {
            evals.push(0);
            i = i + 1;
        }
        Engine {
            game,
            trans_table,
            hist_table: HistoryTable::new(),
            killers: KillerTable::new(),
            countermoves: CountermoveTable::new(),
            sparams: SearchParams::default(),
            eval_params: EvalParams::default(),
            evals,
            time_ref: now_instant(),
            time_soft_ms: u64::MAX,
            time_hard_ms: u64::MAX,
            can_time_out: false,
            nodes_searched: 0,
            node_limit: u64::MAX,
            asp_researches: 0,
        }
    }

    /// Clear and re-allocate the transposition table: one zeroed cell per
    /// 24 bytes granted (at least one); nothing else of the engine moves.
    pub fn resize_hash(&mut self, hash_size_bytes: usize)
        requires
            old(self).wf(),
        ensures
            final(self).wf(),
            *final(self) == (Engine { trans_table: final(self).trans_table, ..*old(self) }),
            final(self).trans_table.cells@.len() as int == if hash_size_bytes / 24 >= 1 {
                hash_size_bytes as int / 24
            } else {
                1int
            },
            forall|i: int| 0 <= i < final(self).trans_table.cells@.len()
                ==> final(self).trans_table.cells@[i] == crate::table::spec_zero_cell(),
    {
        self.trans_table = SharedHashTable::new(hash_size_bytes / SharedHashTable::entry_size());
    }

    /// Budget thinking time from a clock: soft limit as
    /// [`spec_think_time`] says, hard limit three soft budgets but at
    /// most half the remaining time.
    pub fn reserve_time(&mut self, time_ctrl: TimeControl)
        requires
            time_ctrl.time_left < 0x1000_0000_0000,
            time_ctrl.time_incr < 0x1000_0000_0000,
        ensures
            final(self).time_soft_ms
                == spec_think_time(time_ctrl.time_left as int, time_ctrl.time_incr as int),
            final(self).time_hard_ms as int == {
                let soft = spec_think_time(time_ctrl.time_left as int, time_ctrl.time_incr as int);
                if 3 * soft < time_ctrl.time_left as int / 2 {
                    3 * soft
                } else {
                    time_ctrl.time_left as int / 2
                }
            },
            final(self).can_time_out,
            final(self).game == old(self).game,
            final(self).wf() == old(self).wf(),
    {
        let left = time_ctrl.time_left;
        let incr = time_ctrl.time_incr;
        let mut think_time = left / 40;
        if left > 4 * incr {
            think_time = think_time + incr * 4 / 5;
        }
        let quarter = left / 4;
        let min_think = if quarter < 50 { quarter } else { 50 };
        let soft = if think_time > min_think { think_time } else { min_think };
        let triple = 3 * soft;
        let half = left / 2;
        self.time_soft_ms = soft;
        self.time_hard_ms = if triple < half { triple } else { half };
        self.can_time_out = true;
    }

    /// Grant a fixed think time: soft and hard limit alike.
    pub fn allow_for(&mut self, millis: u64)
        ensures
            final(self).time_soft_ms == millis,
            final(self).time_hard_ms == millis,
            final(self).can_time_out == (millis != u64::MAX),
            final(self).game == old(self).game,
            final(self).wf() == old(self).wf(),
    {
        self.time_soft_ms = millis;
        self.time_hard_ms = millis;
        self.can_time_out = millis != u64::MAX;
    }

    /// Lift every time limit.
    pub fn infinite_time(&mut self)
        ensures
            final(self).time_soft_ms == u64::MAX,
            final(self).time_hard_ms == u64::MAX,
            !final(self).can_time_out,
            final(self).game == old(self).game,
            final(self).wf() == old(self).wf(),
    {
        self.time_soft_ms = u64::MAX;
        self.time_hard_ms = u64::MAX;
        self.can_time_out = false;
    }

    /// Budget from a clock, with `movetime`-style overrides left to the
    /// caller; `movestogo` is accepted for interface parity and the
    /// fortieth-of-clock division stands in for it.
    pub fn time_control(&mut self, _movestogo: Option<u64>, time_ctrl: TimeControl)
        requires
            time_ctrl.time_left < 0x1000_0000_0000,
            time_ctrl.time_incr < 0x1000_0000_0000,
        ensures
            final(self).can_time_out,
            final(self).game == old(self).game,
            final(self).wf() == old(self).wf(),
    {
        self.reserve_time(time_ctrl);
    }

    /// Milliseconds since the search started.
    pub fn elapsed(&self) -> u64 {
        let ms = duration_as_millis(&instant_elapsed(&self.time_ref));
        if ms > 0xffff_ffff_ffff_ffff {
            u64::MAX
        } else {
            ms as u64
        }
    }

    /// Whether the soft deadline has passed.
    pub fn soft_times_up(&self) -> (r: bool)
        ensures
            !self.can_time_out ==> !r,
    {
        self.can_time_out && self.elapsed() > self.time_soft_ms
    }

    /// Whether the hard deadline has passed.
    pub fn hard_times_up(&self) -> (r: bool)
        ensures
            !self.can_time_out ==> !r,
    {
        self.can_time_out && self.elapsed() > self.time_hard_ms
    }

    /// Whether the soft deadline has passed.
    pub fn times_up(&self) -> bool {
        self.soft_times_up()
    }

    /// Whether the running search must stop: the node budget is spent or
    /// the hard deadline has passed.
    pub fn abort(&self) -> (r: bool)
        ensures
            self.nodes_searched >= self.node_limit ==> r,
            !self.can_time_out && self.nodes_searched < self.node_limit ==> !r,
    {
        self.nodes_searched >= self.node_limit || self.hard_times_up()
    }

    /// Nodes searched by the last search.
    pub fn nodes(&self) -> (r: u64)
        ensures
            r == self.nodes_searched,
    {
        self.nodes_searched
    }

    /// Cells of the transposition table that pass their integrity check.
    pub fn tt_used(&self) -> (r: usize)
        requires
            self.wf(),
        ensures
            r == crate::table::spec_used_count(
                self.trans_table.view_cells(),
                self.trans_table.view_cells().len() as int,
            ),
            r <= self.trans_table.view_cells().len(),
    {
        self.trans_table.used_count()
    }

    /// Capacity of the transposition table in cells.
    pub fn tt_size(&self) -> (r: usize)
        requires
            self.wf(),
        ensures
            r == self.trans_table.view_cells().len(),
    {
        self.trans_table.size()
    }
}

} // verus!
