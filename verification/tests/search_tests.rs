use std::str::FromStr;

use dysprosium::board::Move;
use dysprosium::bound::Bound;
use dysprosium::game::Game;
use dysprosium::score::{Eval, MAX_SCORE};
use dysprosium::table::NodeType;
use dysprosium::Engine;

const MB: usize = 1024 * 1024;

#[test]
fn mate_in_one_is_found() {
    // white mates with Qd8, the king covering the escape squares
    let game = Game::from_str("k7/8/1K6/8/8/8/8/3Q4 w - - 0 1").unwrap();
    let mut engine = Engine::new(game, MB);
    let (best, eval, _) = engine.root_search(2, Bound::min_max());
    assert!(eval.0 >= MAX_SCORE - 2);
    assert_eq!(best, Move::new(3, 59, 0));
}

#[test]
fn mate_score_survives_deepening() {
    let game = Game::from_str("k7/8/1K6/8/8/8/8/3Q4 w - - 0 1").unwrap();
    let mut engine = Engine::new(game, MB);
    let (best, eval, depth) = engine.best_move(4);
    assert!(depth >= 1);
    assert!(eval.is_positive_mate());
    assert_eq!(best, Move::new(3, 59, 0));
}

#[test]
fn stalemate_scores_zero() {
    // black to move has no legal move and is not in check
    let game = Game::from_str("7k/5Q2/6K1/8/8/8/8/8 b - - 0 1").unwrap();
    let mut engine = Engine::new(game, MB);
    let (best, eval, nt) = engine.root_search(3, Bound::min_max());
    assert_eq!(eval.0, 0);
    assert_eq!(nt, NodeType::Void);
    assert_eq!(best, Move::new(0, 0, 0));
}

#[test]
fn declared_draw_scores_zero() {
    let mut g = Game::start();
    let cycle = [
        Move::new(6, 21, 0),
        Move::new(62, 45, 0),
        Move::new(21, 6, 0),
        Move::new(45, 62, 0),
    ];
    for i in 0..8 {
        g = g.make_move(cycle[i % 4]).unwrap();
    }
    assert!(g.can_declare_draw());
    let mut engine = Engine::new(g, MB);
    let (best, eval, nt) = engine.root_search(5, Bound::min_max());
    assert_eq!(eval.0, 0);
    assert_eq!(nt, NodeType::Void);
    assert_eq!(best, Move::new(0, 0, 0));
}

#[test]
fn aspiration_reconverges_from_seeded_guess() {
    // the seeded guess sits one hundred centipawns above the position's
    // score; doubling the window from the initial thirteen must converge
    // within four widenings and end in an exact result
    let reference = {
        let mut engine = Engine::new(Game::start(), MB);
        engine.root_search(3, Bound::min_max()).1
    };
    let mut engine = Engine::new(Game::start(), MB);
    let (_, eval, nt) = engine.root_aspiration(3, Eval(reference.0 + 100));
    assert_eq!(nt, NodeType::Pv);
    assert!(engine.asp_researches <= 4);
    assert_eq!(eval, reference);
}

#[test]
fn quiescence_stands_pat_on_blunder_captures() {
    // the only capture loses the queen to a pawn: the leaf must keep the
    // static evaluation
    let game = Game::from_str("k7/p7/8/8/8/8/8/R6K w - - 0 1").unwrap();
    let static_eval = dysprosium::eval::EvalParams::default().evaluate_static(game.facts());
    let mut engine = Engine::new(game, MB);
    let (_, eval, _) = engine.root_search(0, Bound::min_max());
    assert_eq!(eval, static_eval);
}

#[test]
fn depth_one_search_is_color_symmetric() {
    // the same position with colors swapped and ranks flipped must get
    // the same score at depth one, where the value is a pure maximum of
    // quiescence values
    let white = Game::from_str("4k3/8/3Q4/8/8/8/8/4K3 w - - 0 1").unwrap();
    let black = Game::from_str("4K3/8/8/8/8/3q4/8/4k3 b - - 0 1").unwrap();
    let mut ew = Engine::new(white, MB);
    let mut eb = Engine::new(black, MB);
    let (_, vw, _) = ew.root_search(1, Bound::min_max());
    let (_, vb, _) = eb.root_search(1, Bound::min_max());
    assert_eq!(vw, vb);
}

#[test]
fn find_pv_follows_table() {
    let game = Game::from_str("k7/8/1K6/8/8/8/8/3Q4 w - - 0 1").unwrap();
    let mut engine = Engine::new(game, MB);
    let (best, _, _) = engine.best_move(3);
    let pv = engine.find_pv(best, 10);
    assert!(!pv.is_empty());
    assert_eq!(pv[0], best);
    assert!(pv.len() <= 10);
}

#[test]
fn node_budget_aborts_search() {
    let mut engine = Engine::new(Game::start(), MB);
    engine.node_limit = 1;
    let (_, _, depth) = engine.best_move(30);
    // the hard abort leaves the depth-one result standing
    assert_eq!(depth, 1);
}

#[test]
fn time_budget_formula() {
    let mut engine = Engine::new(Game::start(), MB);
    engine.reserve_time(dysprosium::TimeControl { time_left: 60_000, time_incr: 1_000 });
    // 60000/40 + 1000*4/5 and three times that against half the clock
    assert_eq!(engine.time_soft_ms, 2_300);
    assert_eq!(engine.time_hard_ms, 6_900);
    engine.infinite_time();
    assert!(!engine.can_time_out);
}
