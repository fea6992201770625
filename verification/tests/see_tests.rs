use std::str::FromStr;

use dysprosium::board::Move;
use dysprosium::game::Game;
use dysprosium::see::see;

#[test]
fn see_flags_a_losing_capture() {
    // Rxa7 wins a pawn but loses the rook to the king's recapture
    let game = Game::from_str("k7/p7/8/8/8/8/8/R6K w - - 0 1").unwrap();
    assert!(see(&game, Move::new(0, 48, 0)) < 0);
}

#[test]
fn see_values_a_free_rook() {
    let game = Game::from_str("7k/8/8/2r1p3/3P4/2R2p2/8/7K w - - 0 1").unwrap();
    // dxc5: the rook on c5 has no defender
    assert!(see(&game, Move::new(27, 34, 0)) > 0);
}

#[test]
fn see_balances_an_even_trade() {
    let game = Game::from_str("7k/8/8/2r1p3/3P4/2R2p2/8/7K w - - 0 1").unwrap();
    // dxe5: the pawn is recaptured by the rook along the rank
    assert_eq!(see(&game, Move::new(27, 36, 0)), 0);
}

#[test]
fn see_sees_through_a_battery() {
    // two white rooks doubled on the file against a pawn defended once:
    // recapturing would lose the defender to the rook behind, so the
    // defender stands aside and the pawn is simply won
    let game = Game::from_str("7k/p1r5/8/8/8/8/R7/R6K w - - 0 1").unwrap();
    assert!(see(&game, Move::new(8, 48, 0)) > 0);
}
