//! The search core: iterative deepening with aspiration windows around a
//! fail-soft principal-variation negamax, with transposition-table
//! cutoffs, reverse futility pruning, internal iterative reductions,
//! null-move pruning, futility and late-move pruning, late-move
//! reductions, and a quiescence search with delta pruning and a static
//! exchange evaluation gate at the leaves.

use vstd::prelude::*;

use crate::board::Move;
use crate::bound::Bound;
use crate::game::Game;
use crate::ordering::move_score;
use crate::score::{Eval, MIN_SCORE};
use crate::table::{
    flags_of, fx_hash_of, spec_encode, spec_get, spec_insert, spec_node_type, NodeType,
    TransTableEntry, TtCell,
};
use crate::Engine;

verus! {

/// Scores paired with moves for the stable ordering sort.
pub open spec fn sorted_desc(s: Seq<(Move, i64)>) -> bool {
    forall|i: int, j: int| 0 <= i < j < s.len() ==> (#[trigger] s[i]).1 >= (#[trigger] s[j]).1
}

/// Inserting anywhere adds one occurrence to the multiset.
proof fn lemma_insert_to_multiset(s: Seq<(Move, i64)>, k: int, x: (Move, i64))
    requires
        0 <= k <= s.len(),
    ensures
        s.insert(k, x).to_multiset() =~= s.to_multiset().insert(x),
    decreases s.len() - k,
{
    broadcast use vstd::seq_lib::group_to_multiset_ensures;

    if k == s.len() {
        assert(s.insert(k, x) =~= s.push(x));
    } else {
        let t = s.insert(k, x);
        assert(t.remove(k) =~= s);
        assert(t[k] == x);
        assert(t.remove(k).to_multiset() =~= t.to_multiset().remove(x));
        assert(t.to_multiset().contains(x));
        assert(t.to_multiset() =~= t.to_multiset().remove(x).insert(x));
    }
}

/// Sort scored moves by score, highest first; equal scores keep their
/// order. The result is a rearrangement of the input.
fn sort_moves(v: Vec<(Move, i64)>) -> (r: Vec<(Move, i64)>)
    requires
        forall|i: int| 0 <= i < v@.len() ==> (#[trigger] v@[i]).0.wf(),
    ensures
        r@.len() == v@.len(),
        sorted_desc(r@),
        r@.to_multiset() == v@.to_multiset(),
        forall|i: int| 0 <= i < r@.len() ==> (#[trigger] r@[i]).0.wf(),
        forall|i: int| 0 <= i < r@.len() ==> v@.contains(#[trigger] r@[i]),
    decreases v@.len(),
{
    proof {
        broadcast use vstd::seq_lib::group_to_multiset_ensures;
    }
    let mut out: Vec<(Move, i64)> = Vec::new();
    let n = v.len();
    let mut i: usize = 0;
    while i < n
        invariant
            n == v@.len(),
            i <= n,
            out@.len() == i,
            sorted_desc(out@),
            out@.to_multiset() == v@.take(i as int).to_multiset(),
            forall|k: int| 0 <= k < v@.len() ==> (#[trigger] v@[k]).0.wf(),
            forall|k: int| 0 <= k < out@.len() ==> (#[trigger] out@[k]).0.wf(),
            forall|k: int| 0 <= k < out@.len() ==> v@.contains(#[trigger] out@[k]),
        decreases n - i,
    {
        let x = v[i];
        // find the first slot whose score is below x's
        let mut k: usize = 0;
        while k < out.len()
            invariant
                k <= out@.len(),
                forall|j: int| 0 <= j < k ==> (#[trigger] out@[j]).1 >= x.1,
            ensures
                k <= out@.len(),
                forall|j: int| 0 <= j < k ==> (#[trigger] out@[j]).1 >= x.1,
                k < out@.len() ==> out@[k as int].1 < x.1,
            decreases out@.len() - k,
        {
            if out[k].1 < x.1 {
                break;
            }
            k = k + 1;
        }
        let ghost old_out = out@;
        out.insert(k, x);
        proof {
            broadcast use vstd::seq_lib::group_to_multiset_ensures;

            lemma_insert_to_multiset(old_out, k as int, x);
            assert(out@.to_multiset() =~= old_out.to_multiset().insert(x));
            assert(v@.take(i as int + 1) =~= v@.take(i as int).push(x));
            assert(v@.take(i as int).push(x).to_multiset()
                =~= v@.take(i as int).to_multiset().insert(x));
            assert(out@.to_multiset() =~= v@.take(i as int + 1).to_multiset());
            assert forall|a: int, b: int| 0 <= a < b < out@.len() implies (#[trigger] out@[a]).1
                >= (#[trigger] out@[b]).1 by {
                if b < k {
                    assert(out@[a] == old_out[a] && out@[b] == old_out[b]);
                } else if a > k {
                    assert(out@[a] == old_out[a - 1] && out@[b] == old_out[b - 1]);
                } else if a == k {
                    assert(out@[b] == old_out[b - 1]);
                } else if b == k {
                    assert(out@[a] == old_out[a]);
                } else {
                    assert(out@[a] == old_out[a] && out@[b] == old_out[b - 1]);
                }
            }
            assert forall|a: int| 0 <= a < out@.len() implies v@.contains(#[trigger] out@[a]) by {
                if a < k {
                    assert(out@[a] == old_out[a]);
                } else if a == k {
                    assert(out@[a] == v@[i as int]);
                } else {
                    assert(out@[a] == old_out[a - 1]);
                }
            }
        }
        i = i + 1;
    }
    proof {
        assert(v@.take(n as int) =~= v@);
    }
    out
}

/// The placeholder move that early exits hand back in place of a real one.
pub open spec fn sentinel_move() -> Move {
    Move { source: 0u8, dest: 0u8, promo: 0u8 }
}

/// Whether the remembered entry for `key` forces a cutoff at a non-PV
/// node searched to `depth` under `bound`: it is at least as deep, and
/// exact, or a lower bound at or above beta, or an upper bound below
/// alpha.
pub open spec fn spec_tt_cutoff(cells: Seq<TtCell>, key: u64, depth: u8, bound: Bound) -> bool {
    let t = spec_get(cells, key);
    &&& t is Some
    &&& t->0.depth >= depth
    &&& {
        let nt = spec_node_type(t->0);
        ||| nt == NodeType::Pv
        ||| (nt == NodeType::Cut && t->0.eval.0 >= bound.beta.0)
        ||| (nt == NodeType::All && t->0.eval.0 < bound.alpha.0)
    }
}

/// The table after remembering `(key, value)` under replace-if-not-deeper:
/// untouched when the slot's verified occupant is deeper, else the slot is
/// overwritten.
pub open spec fn spec_store(cells: Seq<TtCell>, key: u64, value: TransTableEntry) -> Seq<TtCell>
    recommends
        cells.len() >= 1,
{
    let c = cells[key as int % cells.len() as int];
    if c.verify == fx_hash_of(c.key, spec_encode(c.value)) && c.value.depth > value.depth {
        cells
    } else {
        spec_insert(cells, key, value)
    }
}

/// What a search call may change of the engine: the tables, the counters
/// and the killer state; never the position, the parameters or the budgets.
pub open spec fn search_frame(pre: Engine, post: Engine) -> bool {
    &&& post.wf()
    &&& post.game == pre.game
    &&& post.sparams == pre.sparams
    &&& post.eval_params == pre.eval_params
    &&& post.node_limit == pre.node_limit
    &&& post.time_ref == pre.time_ref
    &&& post.time_soft_ms == pre.time_soft_ms
    &&& post.time_hard_ms == pre.time_hard_ms
    &&& post.can_time_out == pre.can_time_out
    &&& post.asp_researches == pre.asp_researches
}

pub open spec fn spec_ilog2(n: int) -> int
    decreases n,
{
    if n <= 1 {
        0
    } else {
        1 + spec_ilog2(n / 2)
    }
}

/// Floor of the base-two logarithm.
fn ilog2(n: u16) -> (r: u16)
    ensures
        r == spec_ilog2(n as int),
        r as int <= n,
    decreases n,
{
    if n <= 1 {
        0
    } else {
        1 + ilog2(n / 2)
    }
}

/// The late-move reduction: one ply plus a logarithmic curve in the depth
/// and the move's rank, lowered when the line is improving, clamped to
/// `[1, depth - 1]`.
pub open spec fn spec_lmr(
    p: crate::params::SearchParams,
    depth: u8,
    idx: u16,
    improving: bool,
) -> int {
    let curve = 100 + p.lmr_const_x100 + spec_ilog2(depth as int) * spec_ilog2(idx as int + 1)
        * p.lmr_coeff_x100 * 48 / 100 - if improving {
        p.lmr_improv_x100 as int
    } else {
        0
    };
    let r = curve / 100;
    if r < 1 {
        1
    } else if r > depth - 1 {
        depth - 1
    } else {
        r
    }
}

impl Engine {
    /// The late-move reduction for a move of rank `idx` at `depth`.
    fn lmr_reduction(&self, depth: u8, idx: u16, improving: bool) -> (r: u8)
        requires
            self.sparams.wf(),
            depth >= 2,
            idx <= 1024,
        ensures
            r as int == spec_lmr(self.sparams, depth, idx, improving),
            1 <= r <= depth - 1,
    {
        let l2d = ilog2(depth as u16) as i64;
        let l2i = ilog2(idx + 1) as i64;
        assert(0 <= l2d * l2i <= 261375) by (nonlinear_arith)
            requires
                0 <= l2d <= 255,
                0 <= l2i <= 1025,
        ;
        let coeff = self.sparams.lmr_coeff_x100 as i64;
        assert(0 <= l2d * l2i * coeff <= 79000000) by (nonlinear_arith)
            requires
                0 <= l2d * l2i <= 261375,
                10 <= coeff <= 300,
        ;
        let curve: i64 = 100 + self.sparams.lmr_const_x100 as i64 + l2d * l2i
            * coeff * 48 / 100 - if improving {
            self.sparams.lmr_improv_x100 as i64
        } else {
            0
        };
        let r = curve / 100;
        let r = if r < 1 {
            1
        } else if r > depth as i64 - 1 {
            depth as i64 - 1
        } else {
            r
        };
        r as u8
    }

    /// Whether the line is improving: the static evaluation at this ply
    /// beats the one two plies up, or there is no such ancestor.
    pub fn is_improving(&self, ply: usize) -> (r: bool)
        requires
            self.wf(),
            ply < 256,
        ensures
            r == (ply < 2 || self.evals@[ply - 2] < self.evals@[ply as int]),
    {
        ply < 2 || self.evals[ply - 2] < self.evals[ply]
    }

    /// Whether the side to move still has a knight, bishop, rook or queen.
    fn has_major_material(&self, game: &Game) -> (r: bool)
        requires
            game.wf(),
        ensures
            r == exists|i: int|
                0 <= i < 64 && crate::board::is_black_code(#[trigger] game.spec_facts().grid@[i])
                    == game.spec_facts().black_to_move && 2 <= crate::board::piece_of(
                    game.spec_facts().grid@[i],
                ) <= 5,
    {
        let mut s: usize = 0;
        while s < 64
            invariant
                game.wf(),
                s <= 64,
                forall|i: int|
                    0 <= i < s ==> !(crate::board::is_black_code(
                        #[trigger] game.spec_facts().grid@[i],
                    ) == game.spec_facts().black_to_move && 2 <= crate::board::piece_of(
                        game.spec_facts().grid@[i],
                    ) <= 5),
            decreases 64 - s,
        {
            let c = game.facts().grid[s];
            let pc = c % 8;
            if (c >= 8) == game.facts().black_to_move && 2 <= pc && pc <= 5 {
                return true;
            }
            s = s + 1;
        }
        false
    }

    /// Count one node, holding at the counter's end.
    fn bump_nodes(&mut self)
        ensures
            *final(self) == (Engine {
                nodes_searched: final(self).nodes_searched,
                ..*old(self)
            }),
            final(self).nodes_searched as int == if old(self).nodes_searched < u64::MAX {
                old(self).nodes_searched + 1
            } else {
                u64::MAX as int
            },
    {
        if self.nodes_searched < u64::MAX {
            self.nodes_searched = self.nodes_searched + 1;
        }
    }

    /// Remember a finished node in the transposition table, replacing the
    /// occupant only when it is not deeper. Poisoned results and results
    /// after an abort are not stored.
    fn store_tt(&mut self, depth: u8, game: &Game, next: Move, eval: Eval, nt: NodeType)
        requires
            old(self).wf(),
            game.wf(),
            next.wf(),
        ensures
            search_frame(*old(self), *final(self)),
            *final(self) == (Engine { trans_table: final(self).trans_table, ..*old(self) }),
            nt == NodeType::Void || old(self).nodes_searched >= old(self).node_limit
                ==> final(self).trans_table.cells@ == old(self).trans_table.cells@,
            nt != NodeType::Void && !old(self).can_time_out && old(self).nodes_searched < old(
                self,
            ).node_limit ==> final(self).trans_table.cells@ == spec_store(
                old(self).trans_table.cells@,
                game.spec_facts().hash,
                TransTableEntry { eval, next, depth, flags: flags_of(nt) },
            ),
    {
        if nt == NodeType::Void {
            return;
        }
        if self.abort() {
            return;
        }
        let key = game.facts().hash;
        if let Some(occupant) = self.trans_table.get_place(key) {
            if occupant.depth > depth {
                return;
            }
        }
        let entry = TransTableEntry {
            eval,
            next,
            depth,
            flags: TransTableEntry::new_flags(nt),
        };
        let ghost pre = self.trans_table.cells@;
        self.trans_table.insert(key, entry);
        proof {
            assert forall|i: int| 0 <= i < self.trans_table.cells@.len() implies (
            #[trigger] self.trans_table.cells@[i]).value.next.wf() by {
                if i != key as int % pre.len() as int {
                    assert(self.trans_table.cells@[i] == pre[i]);
                }
            }
        }
    }

    /// The quiescence search, dropping the node type.
    fn quiescence_search(&mut self, game: &Game, bound: Bound, fuel: u8) -> (r: Eval)
        requires
            old(self).wf(),
            game.wf(),
        ensures
            search_frame(*old(self), *final(self)),
            !game.spec_facts().in_check ==> {
                let sp = crate::eval::spec_evaluate(old(self).eval_params, game.spec_facts());
                &&& (sp >= bound.beta.0 ==> r.0 == bound.beta.0)
                &&& (r.0 >= if sp < bound.beta.0 { sp } else { bound.beta.0 as int })
            },
        decreases fuel, 1int,
    {
        self._quiescence_search(game, bound, fuel).0
    }

    /// The quiescence search: stand pat on the static evaluation, then
    /// resolve captures (or every legal evasion while in check, with no
    /// stand pat and the floor `MIN_SCORE` when none exists), with
    /// big-delta and per-capture delta pruning. Fail-soft except that
    /// standing fail-high hands back the window's upper end unchanged.
    /// The node type reports a fail-high (`Cut`), a raised alpha (`Pv`),
    /// an upper bound (`All`), or a big-delta bail-out (`Void`).
    fn _quiescence_search(&mut self, game: &Game, bound: Bound, fuel: u8) -> (r: (Eval, NodeType))
        requires
            old(self).wf(),
            game.wf(),
        ensures
            search_frame(*old(self), *final(self)),
            !game.spec_facts().in_check ==> {
                let sp = crate::eval::spec_evaluate(old(self).eval_params, game.spec_facts());
                &&& (sp >= bound.beta.0 ==> r.0.0 == bound.beta.0 && r.1 == NodeType::Cut)
                &&& (r.0.0 >= if sp < bound.beta.0 { sp } else { bound.beta.0 as int })
                &&& (sp < bound.beta.0 && (r.1 == NodeType::All || r.1 == NodeType::Pv) ==> r.0.0
                    < bound.beta.0)
            },
            game.spec_facts().in_check && r.1 != NodeType::Cut ==> r.0.0 >= MIN_SCORE,
            game.spec_facts().in_check && crate::board::spec_board_moves(game.board).len() == 0
                ==> r.0.0 == MIN_SCORE,
            r.1 == NodeType::Cut ==> r.0.0 >= bound.beta.0,
            r.1 == NodeType::All ==> r.0.0 <= bound.alpha.0,
            r.1 == NodeType::Pv ==> r.0.0 > bound.alpha.0,
        decreases fuel, 0int,
    {
        self.bump_nodes();
        let in_check = game.facts().in_check;
        let mut window = bound;
        let mut best: Eval;
        let sp: Eval;
        if !in_check {
            let e = self.eval_params.evaluate_static(game.facts());
            if e.0 >= window.beta.0 {
                return (window.beta, NodeType::Cut);
            }
            if (e.0 as i32) + (self.sparams.dp_big_delta as i32) < (window.alpha.0 as i32) {
                return (window.alpha, NodeType::Void);
            }
            if e.0 > window.alpha.0 {
                window.alpha = e;
            }
            best = e;
            sp = e;
        } else {
            best = Eval(MIN_SCORE);
            sp = Eval(MIN_SCORE);
        }
        if fuel == 0 {
            let nt = if best.0 > bound.alpha.0 {
                NodeType::Pv
            } else {
                NodeType::All
            };
            return (best, nt);
        }
        let moves = game.legal_moves();
        let n = moves.len();
        let mut i: usize = 0;
        while i < n
            invariant
                self.wf(),
                search_frame(*old(self), *self),
                game.wf(),
                n == moves@.len(),
                i <= n,
                forall|k: int| 0 <= k < moves@.len() ==> (#[trigger] moves@[k]).wf(),
                window.beta == bound.beta,
                window.alpha.0 >= bound.alpha.0,
                best.0 >= sp.0,
                !game.spec_facts().in_check ==> sp.0 < bound.beta.0,
                !game.spec_facts().in_check ==> best.0 < bound.beta.0,
                game.spec_facts().in_check && moves@.len() == 0 ==> best.0 == MIN_SCORE,
                moves@ == crate::board::spec_board_moves(game.board),
                !game.spec_facts().in_check ==> sp.0 as int == crate::eval::spec_evaluate(
                    old(self).eval_params,
                    game.spec_facts(),
                ),
                in_check == game.spec_facts().in_check,
                fuel >= 1,
            decreases n - i,
        {
            let m = moves[i];
            let mut skip = false;
            if !in_check {
                if game.is_quiet(m) {
                    skip = true;
                } else {
                    // delta pruning: not even the best plausible gain can
                    // raise alpha
                    let vcode = game.facts().grid[m.dest as usize] % 8;
                    let victim = if vcode == 0 { 5 } else { vcode };
                    let gain = crate::eval::piece_value(victim) as i32;
                    if (sp.0 as i32) + gain + (self.sparams.dp_delta as i32)
                        < (window.alpha.0 as i32) {
                        skip = true;
                    }
                    // a capture the exchange evaluation calls losing is
                    // not worth resolving
                    if !skip && crate::see::see(game, m) < 0 {
                        skip = true;
                    }
                }
            }
            if !skip {
                match game.make_move(m) {
                    None => {},
                    Some(g2) => {
                        let e = self.quiescence_search(&g2, window.neg(), fuel - 1).neg();
                        if e.0 >= window.beta.0 {
                            return (e, NodeType::Cut);
                        }
                        if e.0 > best.0 {
                            best = e;
                            if e.0 > window.alpha.0 {
                                window.alpha = e;
                            }
                        }
                    },
                }
            }
            i = i + 1;
        }
        let nt = if best.0 > bound.alpha.0 {
            NodeType::Pv
        } else {
            NodeType::All
        };
        (best, nt)
    }

    /// A zero-window probe: does the position beat `beta`? Fail-soft.
    fn zw_search(&mut self, game: &Game, prev_move: Move, depth: u8, ply: usize, beta: Eval) -> (r:
        Eval)
        requires
            old(self).wf(),
            game.wf(),
            prev_move.wf(),
            depth as int + ply as int <= 255,
        ensures
            search_frame(*old(self), *final(self)),
        decreases depth, 2int,
    {
        let alpha = Eval(crate::bound::sat_sub(beta.0, 1));
        self.evaluate_search(game, prev_move, depth, ply, Bound::new(alpha, beta), false)
    }

    /// Search a node and remember the outcome in the transposition table
    /// under the replace-if-not-deeper policy.
    fn evaluate_search(
        &mut self,
        game: &Game,
        prev_move: Move,
        depth: u8,
        ply: usize,
        bound: Bound,
        is_pv: bool,
    ) -> (r: Eval)
        requires
            old(self).wf(),
            game.wf(),
            prev_move.wf(),
            depth as int + ply as int <= 255,
        ensures
            search_frame(*old(self), *final(self)),
        decreases depth, 1int,
    {
        let (next, eval, nt) = self._evaluate_search(game, prev_move, depth, ply, bound, is_pv, false);
        self.store_tt(depth, game, next, eval, nt);
        eval
    }

    /// One node of the fail-soft principal-variation search. Returns the
    /// best move found, its score, and the node type — `Void` for results
    /// that must not be stored or reported: declared draws, terminal
    /// positions, aborts, leaf hand-offs and pruning exits.
    ///
    /// The step order is fixed: draw detection, terminal status, abort,
    /// transposition-table probe, quiescence at depth zero, reverse
    /// futility pruning, internal iterative reduction, null-move pruning,
    /// the futility and late-move-pruning gates, then the ordered move
    /// loop with principal-variation re-searches and late-move reductions.
    #[verifier::rlimit(60)]
    pub fn _evaluate_search(
        &mut self,
        game: &Game,
        prev_move: Move,
        depth: u8,
        ply: usize,
        bound: Bound,
        is_pv: bool,
        is_root: bool,
    ) -> (r: (Move, Eval, NodeType))
        requires
            old(self).wf(),
            game.wf(),
            prev_move.wf(),
            depth as int + ply as int <= 255,
        ensures
            search_frame(*old(self), *final(self)),
            r.0.wf(),
            game.spec_can_declare_draw() ==> r == (sentinel_move(), Eval(0i16), NodeType::Void),
            !game.spec_can_declare_draw() && game.spec_facts().status
                == crate::board::STATUS_CHECKMATE ==> r == (
                sentinel_move(),
                Eval(i16::MIN),
                NodeType::Void,
            ),
            !game.spec_can_declare_draw() && game.spec_facts().status
                == crate::board::STATUS_STALEMATE ==> r == (
                sentinel_move(),
                Eval(0i16),
                NodeType::Void,
            ),
            old(self).nodes_searched >= old(self).node_limit ==> r.0 == sentinel_move() && r.2
                == NodeType::Void,
            depth == 0 ==> r.2 == NodeType::Void,
            !is_pv && !game.spec_can_declare_draw() && game.spec_facts().status
                == crate::board::STATUS_ONGOING && !old(self).can_time_out && old(
                self,
            ).nodes_searched < old(self).node_limit && spec_tt_cutoff(
                old(self).trans_table.cells@,
                game.spec_facts().hash,
                depth,
                bound,
            ) ==> {
                let t = spec_get(old(self).trans_table.cells@, game.spec_facts().hash);
                r == (t->0.next, t->0.eval, NodeType::Void)
            },
            r.2 == NodeType::Cut ==> r.1.0 as int >= bound.beta.0 - 1,
            r.2 == NodeType::All ==> r.1.0 as int <= bound.alpha.0 + 1,
            r.2 == NodeType::Pv ==> r.1.0 as int >= bound.alpha.0,
            is_pv ==> r.0 == sentinel_move() || crate::board::spec_board_moves(
                game.board,
            ).contains(r.0),
        decreases depth, 0int,
    {
        let sentinel = Move::new(0, 0, 0);

        // 1. a declared draw scores zero and is never stored
        if game.can_declare_draw() {
            return (sentinel, Eval(0), NodeType::Void);
        }

        // 2. terminal positions: mated-in-0 for the side to move, or
        // stalemate
        let status = game.facts().status;
        if status == crate::board::STATUS_CHECKMATE {
            return (sentinel, Eval(i16::MIN), NodeType::Void);
        }
        if status == crate::board::STATUS_STALEMATE {
            return (sentinel, Eval(0), NodeType::Void);
        }

        // 3. an aborted frame hands back a poisoned result
        if self.abort() {
            return (sentinel, Eval(0), NodeType::Void);
        }

        // 4. transposition-table probe and cutoff
        let tt = self.trans_table.get(game.facts().hash);
        if !is_pv {
            if let Some(trans) = &tt {
                let nt = trans.node_type();
                if trans.depth >= depth && (nt == NodeType::Pv || (nt == NodeType::Cut
                    && trans.eval.0 >= bound.beta.0) || (nt == NodeType::All && trans.eval.0
                    < bound.alpha.0)) {
                    proof {
                        let idx = game.spec_facts().hash as int
                            % self.trans_table.cells@.len() as int;
                        assert(self.trans_table.cells@[idx].value.next.wf());
                    }
                    return (trans.next, trans.eval, NodeType::Void);
                }
            }
        }

        // 5. leaves go to the quiescence search
        if depth == 0 {
            let q = self.quiescence_search(game, bound, 32);
            return (sentinel, q, NodeType::Void);
        }

        let in_check = game.facts().in_check;
        let stat = self.eval_params.evaluate_static(game.facts());
        self.evals.set(ply, stat.0);

        // 6. reverse futility pruning: a static evaluation so far above
        // beta that a shallow search cannot come back down
        if !is_pv && !in_check && depth <= self.sparams.rfp_ubound && !bound.beta.is_mate() {
            assert(0 <= (self.sparams.rfp_margin_coeff as i32) * (depth as i32) <= 51000)
                by (nonlinear_arith)
                requires
                    10 <= self.sparams.rfp_margin_coeff <= 200,
                    0 <= depth <= 255,
            ;
            let margin = (self.sparams.rfp_margin_coeff as i32) * (depth as i32);
            let lowered = (stat.0 as i32) - margin;
            if lowered >= bound.beta.0 as i32 {
                return (sentinel, Eval(lowered as i16), NodeType::Void);
            }
        }

        // 7. internal iterative reduction: no remembered move, so probe
        // shallowly first
        if !is_root && depth >= 4 && tt.is_none() {
            let low = self._evaluate_search(game, prev_move, depth / 4, ply, bound, is_pv, is_root);
            self.store_tt(depth / 4, game, low.0, low.1, low.2);
            if low.1.0 <= bound.alpha.0 {
                return (low.0, low.1, NodeType::Void);
            }
        }

        // 8. null-move pruning: hand the turn over; a still-high score
        // at reduced depth means the position is overwhelming
        if !is_pv && !in_check && depth >= 4 && self.has_major_material(game) {
            match game.make_null_move() {
                None => {},
                Some(nulled) => {
                    let red_raw = 3 + depth / 3;
                    let red = if red_raw > depth { depth } else { red_raw };
                    let zw_beta = Eval(crate::bound::sat_sub(1, bound.beta.0));
                    let e = self.zw_search(&nulled, prev_move, depth - red, ply + 1, zw_beta).neg();
                    if e.0 >= bound.beta.0 {
                        return (sentinel, e.incr_mate(), NodeType::Void);
                    }
                },
            }
        }

        // 9. futility gate: a hopeless static evaluation at shallow depth
        // lets quiet moves be skipped
        assert(0 <= (self.sparams.fp_margin_coeff as i32) * (depth as i32) <= 51000)
            by (nonlinear_arith)
            requires
                10 <= self.sparams.fp_margin_coeff <= 200,
                0 <= depth <= 255,
        ;
        let can_f_prune = !is_pv && !in_check && depth <= self.sparams.fp_ubound
            && !bound.alpha.is_mate() && (stat.0 as i32) + (self.sparams.fp_margin_coeff as i32)
            * (depth as i32) <= bound.alpha.0 as i32;

        // 10. late-move-pruning gate and threshold
        let can_lmp = !is_pv && !in_check;
        let dd = depth as usize;
        assert(0 <= dd * dd <= 65025) by (nonlinear_arith)
            requires
                0 <= dd <= 255,
        ;
        let sq: usize = dd * dd;
        let lmp_threshold: usize = 4 + 2 * sq;

        // 11. generate, score and order the moves
        let killer = self.killers.at(ply);
        let counter = self.countermoves.get(prev_move);
        let raw_moves = game.legal_moves();
        let ghost raw_view = raw_moves@;
        let mut scored: Vec<(Move, i64)> = Vec::new();
        let mut i: usize = 0;
        while i < raw_moves.len()
            invariant
                self.wf(),
                game.wf(),
                i <= raw_moves@.len(),
                raw_moves@ == raw_view,
                scored@.len() == i,
                forall|k: int| 0 <= k < raw_moves@.len() ==> (#[trigger] raw_moves@[k]).wf(),
                forall|k: int| 0 <= k < scored@.len() ==> (#[trigger] scored@[k]).0.wf(),
                forall|k: int| 0 <= k < scored@.len() ==> (#[trigger] scored@[k]).0
                    == raw_view[k],
            decreases raw_moves@.len() - i,
        {
            let m = raw_moves[i];
            let s = move_score(game, m, &tt, killer, counter, &self.hist_table);
            scored.push((m, s));
            i = i + 1;
        }
        let ghost scored_view = scored@;
        let moves = sort_moves(scored);

        // 12. the move loop
        let orig_alpha = bound.alpha;
        let mut alpha = bound.alpha;
        let mut best_move = sentinel;
        let mut best_eval = Eval(MIN_SCORE);
        let mut children_searched: usize = 0;
        let improving = self.is_improving(ply);
        let mut i: usize = 0;
        while i < moves.len()
            invariant
                search_frame(*old(self), *self),
                game.wf(),
                prev_move.wf(),
                depth as int + ply as int <= 255,
                1 <= depth,
                ply < 256,
                i <= moves@.len(),
                forall|k: int| 0 <= k < moves@.len() ==> (#[trigger] moves@[k]).0.wf(),
                best_move.wf(),
                children_searched <= i,
                !game.spec_can_declare_draw(),
                game.spec_facts().status == crate::board::STATUS_ONGOING,
                old(self).nodes_searched < old(self).node_limit,
                is_pv || !spec_tt_cutoff(
                    old(self).trans_table.cells@,
                    game.spec_facts().hash,
                    depth,
                    bound,
                ),
                raw_view == crate::board::spec_board_moves(game.board),
                scored_view.len() == raw_view.len(),
                forall|k: int| 0 <= k < scored_view.len() ==> (#[trigger] scored_view[k]).0
                    == raw_view[k],
                forall|k: int| 0 <= k < moves@.len() ==> scored_view.contains(
                    #[trigger] moves@[k],
                ),
                best_move == sentinel_move() || crate::board::spec_board_moves(
                    game.board,
                ).contains(best_move),
            decreases moves@.len() - i,
        {
            let m = moves[i].0;
            let quiet = game.is_quiet(m);

            // a. futility pruning of quiet moves after the first child
            // b. late-move pruning of quiet moves beyond the threshold
            let fp_skip = can_f_prune && children_searched > 0 && quiet;
            let lmp_skip = can_lmp && children_searched >= lmp_threshold && quiet;
            if !(fp_skip || lmp_skip) {
                match game.make_move(m) {
                    None => {},
                    Some(next_game) => {
                        // d/e. principal-variation search with late-move
                        // reductions
                        let can_reduce = depth >= 3 && !in_check && children_searched > 0;
                        let mut eval = Eval(MIN_SCORE);
                        let do_full: bool;
                        if can_reduce {
                            let rank: u16 = if i > 1024 { 1024 } else { i as u16 };
                            let red = self.lmr_reduction(depth, rank, improving);
                            eval = self.zw_search(
                                &next_game,
                                m,
                                depth - red,
                                ply + 1,
                                alpha.neg(),
                            ).neg();
                            do_full = alpha.0 < eval.0 && red > 1;
                        } else {
                            do_full = !is_pv || children_searched > 0;
                        }
                        if do_full {
                            eval = self.zw_search(&next_game, m, depth - 1, ply + 1, alpha.neg())
                                .neg();
                        }
                        if is_pv && (children_searched == 0 || alpha.0 < eval.0) {
                            let child_bound = Bound::new(alpha, bound.beta).neg();
                            eval = self.evaluate_search(
                                &next_game,
                                m,
                                depth - 1,
                                ply + 1,
                                child_bound,
                                true,
                            ).neg();
                        }

                        // f. an aborted child poisons the frame
                        if self.abort() {
                            return (best_move, best_eval.incr_mate(), NodeType::Void);
                        }
                        self.bump_nodes();

                        // g. keep the best child and raise alpha
                        if eval.0 > best_eval.0 || best_move == sentinel {
                            proof {
                                let p = moves@[i as int];
                                assert(scored_view.contains(p));
                                let j = choose|j: int|
                                    0 <= j < scored_view.len() && scored_view[j] == p;
                                assert(scored_view[j].0 == raw_view[j]);
                                assert(crate::board::spec_board_moves(game.board).contains(p.0));
                            }
                            best_move = m;
                            best_eval = eval;
                            if eval.0 > alpha.0 {
                                alpha = eval;
                            }
                        }

                        // h. beta cut-off: reward the quiet refutation,
                        // punish the quiet siblings tried before it
                        if eval.0 >= bound.beta.0 {
                            if !game.is_capture(m) {
                                assert(0 <= (self.sparams.hist_bonus_coeff as i64) * (depth as i64)
                                    <= 165750) by (nonlinear_arith)
                                    requires
                                        10 <= self.sparams.hist_bonus_coeff <= 650,
                                        0 <= depth <= 255,
                                ;
                                let bonus: i64 = (self.sparams.hist_bonus_coeff as i64)
                                    * (depth as i64) + self.sparams.hist_bonus_const as i64;
                                let mut j: usize = 0;
                                while j < i
                                    invariant
                                        search_frame(*old(self), *self),
                                        game.wf(),
                                        j <= i,
                                        i < moves@.len(),
                                        forall|k: int| 0 <= k < moves@.len()
                                            ==> (#[trigger] moves@[k]).0.wf(),
                                        -1000000 <= bonus <= 1000000,
                                    decreases i - j,
                                {
                                    let prior = moves[j].0;
                                    if game.is_quiet(prior) {
                                        self.hist_table.update(prior, -bonus);
                                    }
                                    j = j + 1;
                                }
                                self.hist_table.update(m, bonus);
                                self.killers.push_at(ply, m);
                                self.countermoves.set(prev_move, m);
                            }
                            return (best_move, best_eval.incr_mate(), NodeType::Cut);
                        }

                        children_searched = children_searched + 1;
                    },
                }
            }
            i = i + 1;
        }

        // 13. every move searched: exact if alpha rose, else an upper bound
        let nt = if best_eval.0 > orig_alpha.0 {
            NodeType::Pv
        } else {
            NodeType::All
        };
        (best_move, best_eval.incr_mate(), nt)
    }

    /// Search the engine's position to `depth` under `bound` and remember
    /// the result.
    pub fn root_search(&mut self, depth: u8, bound: Bound) -> (r: (Move, Eval, NodeType))
        requires
            old(self).wf(),
        ensures
            search_frame(*old(self), *final(self)),
            r.0.wf(),
            old(self).game.spec_can_declare_draw() ==> r == (
                sentinel_move(),
                Eval(0i16),
                NodeType::Void,
            ),
            !old(self).game.spec_can_declare_draw() && old(self).game.spec_facts().status
                == crate::board::STATUS_CHECKMATE ==> r == (
                sentinel_move(),
                Eval(i16::MIN),
                NodeType::Void,
            ),
            !old(self).game.spec_can_declare_draw() && old(self).game.spec_facts().status
                == crate::board::STATUS_STALEMATE ==> r == (
                sentinel_move(),
                Eval(0i16),
                NodeType::Void,
            ),
            r.2 == NodeType::Cut ==> r.1.0 as int >= bound.beta.0 - 1,
            r.2 == NodeType::All ==> r.1.0 as int <= bound.alpha.0 + 1,
            r.2 == NodeType::Pv ==> r.1.0 as int >= bound.alpha.0,
            r.0 == sentinel_move() || crate::board::spec_board_moves(
                old(self).game.board,
            ).contains(r.0),
    {
        let d = if depth > 255 { 255 } else { depth };
        let game = self.game.duplicate();
        let sentinel = Move::new(0, 0, 0);
        let (next, eval, nt) = self._evaluate_search(&game, sentinel, d, 0, bound, true, true);
        self.store_tt(d, &game, next, eval, nt);
        (next, eval, nt)
    }

    /// Search `depth` inside an aspiration window around `prev`: start a
    /// small window, and until the result is exact and lies inside, double
    /// the half-width on the failed side and search again; after sixteen
    /// widenings fall back to the full window. The widening count is left
    /// in `asp_researches`.
    pub fn root_aspiration(&mut self, depth: u8, prev: Eval) -> (r: (Move, Eval, NodeType))
        requires
            old(self).wf(),
        ensures
            final(self).wf(),
            final(self).game == old(self).game,
            final(self).sparams == old(self).sparams,
            final(self).eval_params == old(self).eval_params,
            final(self).node_limit == old(self).node_limit,
            final(self).time_ref == old(self).time_ref,
            final(self).time_soft_ms == old(self).time_soft_ms,
            final(self).time_hard_ms == old(self).time_hard_ms,
            final(self).can_time_out == old(self).can_time_out,
            r.0.wf(),
            final(self).asp_researches <= 16,
            old(self).game.spec_can_declare_draw() ==> r.0 == sentinel_move() && r.1.0 == 0,
            !old(self).game.spec_can_declare_draw() && old(self).game.spec_facts().status
                == crate::board::STATUS_CHECKMATE ==> r.0 == sentinel_move() && r.1.0 == i16::MIN,
            !old(self).game.spec_can_declare_draw() && old(self).game.spec_facts().status
                == crate::board::STATUS_STALEMATE ==> r.0 == sentinel_move() && r.1.0 == 0,
            r.0 == sentinel_move() || crate::board::spec_board_moves(
                old(self).game.board,
            ).contains(r.0),
    {
        let mut delta = self.sparams.asp_init_delta;
        let mut window = Bound::from_window(prev, delta, delta);
        self.asp_researches = 0;
        let mut tries: u8 = 0;
        while tries < 16
            invariant
                self.wf(),
                self.game == old(self).game,
                self.sparams == old(self).sparams,
                self.eval_params == old(self).eval_params,
                self.node_limit == old(self).node_limit,
                self.time_ref == old(self).time_ref,
                self.time_soft_ms == old(self).time_soft_ms,
                self.time_hard_ms == old(self).time_hard_ms,
                self.can_time_out == old(self).can_time_out,
                tries <= 16,
                self.asp_researches <= tries,
            decreases 16 - tries,
        {
            let r = self.root_search(depth, window);
            if self.abort() {
                return r;
            }
            let inside = window.alpha.0 < r.1.0 && r.1.0 < window.beta.0;
            if r.2 != NodeType::Void && inside {
                return r;
            }
            if self.asp_researches < u64::MAX {
                self.asp_researches = self.asp_researches + 1;
            }
            delta = if delta >= 1 && delta <= 16383 { 2 * delta } else { 32767 };
            if r.1.0 <= window.alpha.0 {
                window.widen_window_alpha(prev, delta);
            }
            if r.1.0 >= window.beta.0 {
                window.widen_window_beta(prev, delta);
            }
            tries = tries + 1;
        }
        self.root_search(depth, Bound::min_max())
    }

    /// Run an iterative-deepening search: depth one on the full window,
    /// then aspiration windows around the previous score up to
    /// `max_depth`, stopping at the soft deadline between iterations and
    /// discarding an iteration the hard deadline interrupted. Returns the
    /// best move, its score and the depth that produced it.
    pub fn best_move(&mut self, max_depth: u8) -> (r: (Move, Eval, u8))
        requires
            old(self).wf(),
        ensures
            final(self).wf(),
            final(self).game == old(self).game,
            r.0.wf(),
            1 <= r.2,
            old(self).game.spec_can_declare_draw() ==> r.0 == sentinel_move() && r.1.0 == 0,
            !old(self).game.spec_can_declare_draw() && old(self).game.spec_facts().status
                == crate::board::STATUS_CHECKMATE ==> r.0 == sentinel_move() && r.1.0 == i16::MIN,
            !old(self).game.spec_can_declare_draw() && old(self).game.spec_facts().status
                == crate::board::STATUS_STALEMATE ==> r.0 == sentinel_move() && r.1.0 == 0,
            r.0 == sentinel_move() || crate::board::spec_board_moves(
                old(self).game.board,
            ).contains(r.0),
    {
        self.time_ref = crate::now_instant();
        self.nodes_searched = 0;

        let cto = self.can_time_out;
        self.can_time_out = false;
        let first = self.root_search(1, Bound::min_max());
        self.can_time_out = cto;

        let mut best = (first.0, first.1, 1u8);
        if max_depth <= 1 || self.soft_times_up() {
            return best;
        }
        let mut depth: u16 = 2;
        while depth <= max_depth as u16
            invariant
                self.wf(),
                self.game == old(self).game,
                best.0.wf(),
                2 <= depth <= 256,
                1 <= best.2,
                old(self).game.spec_can_declare_draw() ==> best.0 == sentinel_move() && best.1.0
                    == 0,
                !old(self).game.spec_can_declare_draw() && old(self).game.spec_facts().status
                    == crate::board::STATUS_CHECKMATE ==> best.0 == sentinel_move() && best.1.0
                    == i16::MIN,
                !old(self).game.spec_can_declare_draw() && old(self).game.spec_facts().status
                    == crate::board::STATUS_STALEMATE ==> best.0 == sentinel_move() && best.1.0
                    == 0,
                best.0 == sentinel_move() || crate::board::spec_board_moves(
                    old(self).game.board,
                ).contains(best.0),
            decreases max_depth as int + 1 - depth,
        {
            let this = self.root_aspiration(depth as u8, best.1);
            if self.hard_times_up() || self.abort() {
                break;
            }
            best = (this.0, this.1, depth as u8);
            if self.soft_times_up() {
                break;
            }
            depth = depth + 1;
        }
        best
    }

    /// Reconstruct the principal variation by following best-move
    /// pointers through the transposition table, stopping at a missing
    /// or unverifiable entry, an illegal move, a repeated position or
    /// `max_len` moves.
    pub fn find_pv(&self, from: Move, max_len: usize) -> (r: Vec<Move>)
        requires
            self.wf(),
            from.wf(),
        ensures
            r@.len() <= max_len,
            forall|i: int| 0 <= i < r@.len() ==> (#[trigger] r@[i]).wf(),
            r@.len() > 0 ==> r@[0] == from,
            max_len >= 1 && crate::board::spec_apply_ok(self.game.board, from) ==> r@.len() >= 1,
    {
        let mut pv: Vec<Move> = Vec::new();
        let mut seen: Vec<u64> = Vec::new();
        let mut game = self.game.duplicate();
        let mut cur = from;
        while pv.len() < max_len
            invariant
                self.wf(),
                game.wf(),
                cur.wf(),
                pv@.len() <= max_len,
                forall|i: int| 0 <= i < pv@.len() ==> (#[trigger] pv@[i]).wf(),
                pv@.len() > 0 ==> pv@[0] == from,
                pv@.len() == 0 ==> cur == from && game.board == self.game.board,
            ensures
                pv@.len() <= max_len,
                forall|i: int| 0 <= i < pv@.len() ==> (#[trigger] pv@[i]).wf(),
                pv@.len() > 0 ==> pv@[0] == from,
                pv@.len() == 0 ==> pv@.len() >= max_len || !crate::board::spec_apply_ok(
                    self.game.board,
                    from,
                ),
            decreases max_len - pv@.len(),
        {
            let next_game = match game.make_move(cur) {
                None => { break; },
                Some(g) => g,
            };
            pv.push(cur);
            let h = next_game.facts().hash;
            let mut repeated = false;
            let mut i: usize = 0;
            while i < seen.len()
                invariant
                    i <= seen@.len(),
                decreases seen@.len() - i,
            {
                if seen[i] == h {
                    repeated = true;
                }
                i = i + 1;
            }
            if repeated {
                break;
            }
            seen.push(h);
            match self.trans_table.get(h) {
                None => { break; },
                Some(e) => {
                    proof {
                        let idx = h as int % self.trans_table.cells@.len() as int;
                        assert(self.trans_table.cells@[idx].value.next.wf());
                    }
                    cur = e.next;
                },
            }
            game = next_game;
        }
        pv
    }
}

} // verus!
