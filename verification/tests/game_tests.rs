use std::str::FromStr;

use dysprosium::board::Move;
use dysprosium::game::{Game, HashHistory};

#[test]
fn history_push_and_last() {
    let mut h = HashHistory::new();
    assert_eq!(h.len(), 0);
    assert_eq!(h.last(), None);
    h.push(11);
    h.push(22);
    assert_eq!(h.len(), 2);
    assert_eq!(h.last(), Some(22));
    h.delete_last();
    assert_eq!(h.len(), 1);
    assert_eq!(h.last(), Some(11));
}

#[test]
fn history_ring_wraps() {
    let mut h = HashHistory::new();
    for i in 0..130u64 {
        h.push(i);
    }
    assert_eq!(h.len(), 130);
    assert_eq!(h.last(), Some(129));
    assert_eq!(h.count(129), 1);
    // slot 0 and 1 were overwritten by 128 and 129
    assert_eq!(h.count(0), 0);
    assert_eq!(h.count(2), 1);
}

#[test]
fn unqiue_primes_distinct_sentinels() {
    let h = HashHistory::unqiue(5);
    assert_eq!(h.len(), 5);
    assert_eq!(h.last(), Some(4));
    assert_eq!(h.count(3), 1);
    assert_eq!(h.count(1000), 0);
}

#[test]
fn make_move_extends_history() {
    let g = Game::start();
    let before = g.history_len();
    // 1. e4
    let g2 = g.make_move(Move::new(12, 28, 0)).unwrap();
    assert_eq!(g2.history_len(), before + 1);
    // a pawn push resets the counter
    assert_eq!(g2.fifty(), 0);
    // 1... Nf6 is quiet: counter rises
    let g3 = g2.make_move(Move::new(62, 45, 0)).unwrap();
    assert_eq!(g3.fifty(), 1);
    assert_eq!(g3.history_len(), before + 2);
}

#[test]
fn illegal_move_is_rejected() {
    let g = Game::start();
    // a1 to a3 is not a legal rook move from the start position
    assert!(g.make_move(Move::new(0, 16, 0)).is_none());
}

#[test]
fn threefold_by_knight_shuffle() {
    // Nf3 Nf6 Ng1 Ng8 twice: the starting position stands three times
    let mut g = Game::start();
    let cycle = [
        Move::new(6, 21, 0),
        Move::new(62, 45, 0),
        Move::new(21, 6, 0),
        Move::new(45, 62, 0),
    ];
    for _ in 0..2 {
        for m in cycle {
            assert!(!g.can_declare_draw());
            g = g.make_move(m).unwrap();
        }
    }
    assert!(g.can_declare_draw());
}

#[test]
fn fifty_move_rule_by_shuffling() {
    // one hundred reversible half-moves with knights
    let mut g = Game::start();
    let cycle = [
        Move::new(6, 21, 0),
        Move::new(62, 45, 0),
        Move::new(21, 6, 0),
        Move::new(45, 62, 0),
    ];
    for i in 0..100 {
        g = g.make_move(cycle[i % 4]).unwrap();
    }
    assert_eq!(g.fifty(), 100);
    assert!(g.can_declare_draw());
}

#[test]
fn from_fen_counters() {
    let g = Game::from_str("7k/8/8/2r1p3/3P4/2R2p2/8/7K w - - 12 34").unwrap();
    assert_eq!(g.fifty(), 12);
    // white to move at fullmove 34: 67 half-moves of priming
    assert_eq!(g.history_len(), 67);
    let fen = g.get_fen();
    assert_eq!(fen, "7k/8/8/2r1p3/3P4/2R2p2/8/7K w - - 12 34");
}

#[test]
fn from_fen_rejects_junk() {
    assert!(Game::from_str("not a position").is_err());
    assert!(Game::from_str("7k/8/8/2r1p3/3P4/2R2p2/8/7K w - - x 3").is_err());
    // a zero fullmove count cannot prime the history
    assert!(Game::from_str("7k/8/8/2r1p3/3P4/2R2p2/8/7K w - - 0 0").is_err());
}

#[test]
fn null_move_flips_turn_only() {
    let g = Game::start();
    let n = g.make_null_move().unwrap();
    assert_eq!(n.history_len(), g.history_len() + 1);
    assert_eq!(n.fifty(), 1);
    assert!(n.facts().black_to_move);
}

#[test]
fn capture_and_quiet_classification() {
    let g = Game::from_str("7k/8/8/2r1p3/3P4/2R2p2/8/7K w - - 0 1").unwrap();
    // d4xe5 is a capture, d4-d5?? no: d4 push to d5 is quiet
    let d4e5 = Move::new(27, 36, 0);
    let d4d5 = Move::new(27, 35, 0);
    assert!(g.is_capture(d4e5));
    assert!(!g.is_capture(d4d5));
    assert!(g.is_quiet(d4d5));
    assert!(!g.is_quiet(d4e5));
}
