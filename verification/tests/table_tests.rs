use dysprosium::board::Move;
use dysprosium::score::Eval;
use dysprosium::table::{NodeType, SharedHashTable, TransTableEntry};

fn entry(score: i16, depth: u8) -> TransTableEntry {
    TransTableEntry {
        eval: Eval(score),
        next: Move::new(12, 28, 0),
        depth,
        flags: TransTableEntry::new_flags(NodeType::Pv),
    }
}

#[test]
fn test_shared_table() {
    let mut st = SharedHashTable::new(10);

    st.insert(0, entry(123, 3));
    assert_eq!(st.get(0), Some(entry(123, 3)));
    st.insert(10, entry(123, 3));
    assert_eq!(st.get(10), Some(entry(123, 3)));
    assert_eq!(st.get(0), None);

    st.insert(1, entry(789, 5));
    assert_eq!(st.get(1), Some(entry(789, 5)));
}

#[test]
fn tt_round_trip_and_eviction() {
    let mut st = SharedHashTable::new(16);
    assert_eq!(st.get(7), None);
    st.insert(7, entry(-42, 9));
    assert_eq!(st.get(7), Some(entry(-42, 9)));
    // key 23 shares slot 7 of 16 and evicts unconditionally
    st.insert(23, entry(5, 1));
    assert_eq!(st.get(7), None);
    assert_eq!(st.get(23), Some(entry(5, 1)));
}

#[test]
fn tt_verify_catches_corruption() {
    let mut st = SharedHashTable::new(16);
    st.insert(0, entry(1000, 7));
    assert_eq!(st.get(0), Some(entry(1000, 7)));
    // scribble a different payload over the cell without touching the
    // verify word: the read must fail the integrity check
    st.overwrite_entry(0, entry(-1000, 7));
    assert_eq!(st.get(0), None);
    assert_eq!(st.get_place(0), None);
}

#[test]
fn used_count_tracks_verified_cells() {
    let mut st = SharedHashTable::new(8);
    assert_eq!(st.used_count(), 0);
    st.insert(1, entry(10, 1));
    st.insert(2, entry(20, 2));
    assert_eq!(st.used_count(), 2);
    st.clear();
    assert_eq!(st.used_count(), 0);
    assert_eq!(st.size(), 8);
}

#[test]
fn node_type_flags_round_trip() {
    for nt in [NodeType::Pv, NodeType::All, NodeType::Cut, NodeType::Void] {
        let e = TransTableEntry {
            eval: Eval(0),
            next: Move::new(0, 0, 0),
            depth: 0,
            flags: TransTableEntry::new_flags(nt),
        };
        assert_eq!(e.node_type(), nt);
    }
}
