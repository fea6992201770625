use std::str::FromStr;

use dysprosium::board::Move;
use dysprosium::game::Game;
use dysprosium::ordering::{
    mvv_lva, move_score, CountermoveTable, HistoryTable, KillerEntry, KillerTable,
    COUNTERMOVE_SCORE, KILLER_SCORE,
};
use dysprosium::score::Eval;
use dysprosium::table::{NodeType, TransTableEntry};

#[test]
fn mvv_lva_ord() {
    let game = Game::from_str("7k/8/8/2r1p3/3P4/2R2p2/8/7K w - - 0 1").unwrap();

    let d4e5 = Move::new(27, 36, 0);
    let d4c5 = Move::new(27, 34, 0);
    let c3f3 = Move::new(18, 21, 0);
    let c3c5 = Move::new(18, 34, 0);

    let pxp = mvv_lva(&game, d4e5);
    let pxr = mvv_lva(&game, d4c5);
    let rxp = mvv_lva(&game, c3f3);
    let rxr = mvv_lva(&game, c3c5);

    assert!(pxp < pxr);
    assert!(rxp < rxr);
    assert!(rxr < pxr);
    assert!(rxp < pxp);
}

#[test]
fn history_bonus_and_clamp() {
    let mut h = HistoryTable::new();
    let m = Move::new(6, 21, 0);
    assert_eq!(h.get(m), 0);
    h.add_bonus(m, 4);
    assert_eq!(h.get(m), 16);
    h.update(m, 1_000_000);
    assert_eq!(h.get(m), 30_000);
    h.update(m, -1_000_000);
    assert_eq!(h.get(m), -30_000);
}

#[test]
fn killer_entry_remembers_last() {
    let mut k = KillerEntry::new();
    let m = Move::new(6, 21, 0);
    assert!(!k.contains(m));
    k.push(m);
    assert!(k.contains(m));
    let mut table = KillerTable::new();
    table.push_at(3, m);
    assert!(table.at(3).contains(m));
    assert!(!table.at(4).contains(m));
}

#[test]
fn countermove_round_trip() {
    let mut c = CountermoveTable::new();
    let prev = Move::new(12, 28, 0);
    let refutation = Move::new(51, 35, 0);
    c.set(prev, refutation);
    assert_eq!(c.get(prev), refutation);
}

#[test]
fn move_score_priorities() {
    let game = Game::from_str("7k/8/8/2r1p3/3P4/2R2p2/8/7K w - - 0 1").unwrap();
    let hist = HistoryTable::new();
    let capture = Move::new(27, 36, 0);
    let quiet = Move::new(27, 35, 0);
    let tt_entry = TransTableEntry {
        eval: Eval(0),
        next: quiet,
        depth: 1,
        flags: TransTableEntry::new_flags(NodeType::Pv),
    };
    let killer = {
        let mut k = KillerEntry::new();
        k.push(Move::new(18, 19, 0));
        k
    };
    let counter = Move::new(18, 20, 0);

    let tt_score = move_score(&game, quiet, &Some(tt_entry), killer, counter, &hist);
    let cap_score = move_score(&game, capture, &None, killer, counter, &hist);
    let killer_score = move_score(&game, Move::new(18, 19, 0), &None, killer, counter, &hist);
    let counter_score = move_score(&game, Move::new(18, 20, 0), &None, killer, counter, &hist);
    let hist_score = move_score(&game, Move::new(7, 6, 0), &None, killer, counter, &hist);

    assert_eq!(tt_score, i64::MAX);
    assert_eq!(killer_score, KILLER_SCORE);
    assert_eq!(counter_score, COUNTERMOVE_SCORE);
    assert_eq!(hist_score, 0);
    assert!(tt_score > cap_score);
    assert!(cap_score > killer_score);
    assert!(killer_score > counter_score);
    assert!(counter_score > hist_score);
}
