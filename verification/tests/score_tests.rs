use dysprosium::score::{Eval, MAX_SCORE, MIN_SCORE};

#[test]
fn test_eval() {
    let m0 = Eval::mate_in_0();
    let m1 = m0.incr_mate();
    let m_0 = m0.neg();
    let m_1 = m_0.incr_mate();

    assert_eq!(m0.0, 0x7fff);
    assert_eq!(m0.to_string(), "#0");
    assert_eq!(m1.0, 0x7ffe);
    assert_eq!(m1.to_string(), "#1");
    assert_eq!(m_0.0 as u16, 0x8000);
    assert_eq!(m_0.to_string(), "#-0");
    assert_eq!(m_1.0 as u16, 0x8001);
    assert_eq!(m_1.to_string(), "#-1");

    let m0 = m_0.neg();
    assert_eq!(m0.0, 0x7fff);

    assert_eq!(m0.neg().neg(), m0);
    assert_eq!(m1.neg().neg(), m1);
    assert_eq!(m_0.neg().neg(), m_0);
    assert_eq!(m_1.neg().neg(), m_1);
    assert_eq!(m0.neg(), m_0);
    assert_eq!(m1.neg(), m_1);
    assert_eq!(m_0.neg(), m0);
    assert_eq!(m_1.neg(), m1);
}

#[test]
fn neg_involution_samples() {
    // one value from each region, and the extremes
    for v in [0i16, 1, -1, 150, -150, 16383, -16383, 16384, 32767, -16385, -32767, -32768] {
        let e = Eval(v);
        assert_eq!(e.neg().neg(), e);
    }
}

#[test]
fn incr_mate_identity_on_centipawns() {
    for v in [0i16, 42, -42, 16383, -16383] {
        assert_eq!(Eval(v).incr_mate(), Eval(v));
    }
    assert_eq!(Eval(MAX_SCORE).incr_mate().0, MAX_SCORE - 1);
    assert_eq!(Eval(MIN_SCORE).incr_mate().0, MIN_SCORE + 1);
}

#[test]
fn mate_region_predicates() {
    assert!(Eval(0x4000).is_mate());
    assert!(Eval(0x4000).is_positive_mate());
    assert!(Eval(-0x4001).is_mate());
    assert!(!Eval(-0x4001).is_positive_mate());
    assert!(!Eval(0x3fff).is_mate());
    assert!(!Eval(-0x4000).is_mate());
}

#[test]
fn centipawn_rendering() {
    assert_eq!(Eval(150).to_string(), "+150cp");
    assert_eq!(Eval(-5).to_string(), "-5cp");
    assert_eq!(Eval(0).to_string(), "+0cp");
    assert_eq!(Eval(150).to_uci_string(), "cp 150");
    assert_eq!(Eval(-5).to_uci_string(), "cp -5");
    assert_eq!(Eval(0x7ffd).to_uci_string(), "mate 2");
    assert_eq!(Eval(0x8002u16 as i16).to_uci_string(), "mate -2");
}

#[test]
fn mated_in_zero_word() {
    // mated-in-0 is the negation of mate-in-0: the word 0x8000
    let mated = Eval::mate_in_0().neg();
    assert_eq!(mated.0, i16::MIN);
    assert_eq!(mated.incr_mate().0, MIN_SCORE);
}
