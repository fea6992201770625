//! A fixed-size transposition table keyed by Zobrist hash.
//!
//! Each cell stores `(key, verify, value)` where `verify` is a second
//! 64-bit hash over the key and the encoded value, computed at insert.
//! A reader recomputes that hash and treats any mismatch — a torn write,
//! a collision, a corrupted cell — as a miss, which makes the table safe
//! to share without locks.

use vstd::pervasive::VecAdditionalExecFns;
use vstd::prelude::*;

use crate::board::Move;
use crate::score::Eval;

verus! {

/// What kind of node a search result came from: an exact (principal
/// variation) score, an upper bound (all moves searched, none raised
/// alpha), a lower bound (a move failed high), or a poisoned result that
/// must not be stored or reported.
#[derive(Debug, Clone, Copy, PartialEq, Eq, Structural, Hash)]
pub enum NodeType {
    Pv,
    All,
    Cut,
    Void,
}

/// The two-bit encoding of a node type in an entry's flag byte.
pub open spec fn flags_of(nt: NodeType) -> u8 {
    match nt {
        NodeType::Pv => 0,
        NodeType::All => 1,
        NodeType::Cut => 2,
        NodeType::Void => 3,
    }
}

/// What the search remembers of a position: its score, the best move
/// found, the depth it was searched to, and the node type in the low two
/// bits of the flags.
#[derive(Debug, Clone, Copy, PartialEq, Eq, Structural, Hash)]
pub struct TransTableEntry {
    pub eval: Eval,
    pub next: Move,
    pub depth: u8,
    pub flags: u8,
}

impl TransTableEntry {
    /// The flag byte that encodes `nt`.
    pub fn new_flags(nt: NodeType) -> (r: u8)
        ensures
            r == flags_of(nt),
    {
        match nt {
            NodeType::Pv => 0,
            NodeType::All => 1,
            NodeType::Cut => 2,
            NodeType::Void => 3,
        }
    }

    /// The node type in the low two bits of the flags.
    pub fn node_type(&self) -> (r: NodeType)
        ensures
            r == spec_node_type(*self),
    {
        let bits = self.flags % 4;
        if bits == 0 {
            NodeType::Pv
        } else if bits == 1 {
            NodeType::All
        } else if bits == 2 {
            NodeType::Cut
        } else {
            NodeType::Void
        }
    }

    /// A zeroed entry.
    pub fn empty() -> (r: TransTableEntry)
        ensures
            r == spec_empty_entry(),
    {
        TransTableEntry {
            eval: Eval(0),
            next: Move { source: 0, dest: 0, promo: 0 },
            depth: 0,
            flags: 0,
        }
    }
}

pub open spec fn spec_node_type(e: TransTableEntry) -> NodeType {
    if e.flags % 4 == 0 {
        NodeType::Pv
    } else if e.flags % 4 == 1 {
        NodeType::All
    } else if e.flags % 4 == 2 {
        NodeType::Cut
    } else {
        NodeType::Void
    }
}

pub open spec fn spec_empty_entry() -> TransTableEntry {
    TransTableEntry {
        eval: Eval(0),
        next: Move { source: 0u8, dest: 0u8, promo: 0u8 },
        depth: 0u8,
        flags: 0u8,
    }
}

/// The seven bytes an entry is hashed over: score word little-endian,
/// the three move fields, depth and flags.
pub open spec fn spec_encode(e: TransTableEntry) -> Seq<u8> {
    seq![
        (e.eval.0 as u16 % 256) as u8,
        (e.eval.0 as u16 / 256) as u8,
        e.next.source,
        e.next.dest,
        e.next.promo,
        e.depth,
        e.flags,
    ]
}

/// Encode an entry for hashing.
fn encode_entry(e: &TransTableEntry) -> (r: Vec<u8>)
    ensures
        r@ == spec_encode(*e),
{
    let w = e.eval.0 as u16;
    let mut r: Vec<u8> = Vec::new();
    r.push((w % 256) as u8);
    r.push((w / 256) as u8);
    r.push(e.next.source);
    r.push(e.next.dest);
    r.push(e.next.promo);
    r.push(e.depth);
    r.push(e.flags);
    assert(r@ =~= spec_encode(*e));
    r
}

/// The verify word of an insert: a second hash over key and encoded value.
pub uninterp spec fn fx_hash_of(key: u64, bytes: Seq<u8>) -> u64;

/// Relies on `fxhash::hash64`: a deterministic, seed-free 64-bit hash
/// whose result is a function of its arguments alone.
#[verifier::external_body]
fn fx_hash_pair(key: u64, bytes: &Vec<u8>) -> (r: u64)
    ensures
        r == fx_hash_of(key, bytes@),
{
    fxhash::hash64(&(key, bytes.as_slice()))
}

/// One cell of the table.
#[derive(Debug, Clone, Copy, PartialEq, Eq, Structural, Hash)]
pub struct TtCell {
    pub key: u64,
    pub verify: u64,
    pub value: TransTableEntry,
}

pub open spec fn spec_zero_cell() -> TtCell {
    TtCell { key: 0u64, verify: 0u64, value: spec_empty_entry() }
}

/// The cell an insert of `(key, value)` writes.
pub open spec fn spec_cell_of(key: u64, value: TransTableEntry) -> TtCell {
    TtCell { key, verify: fx_hash_of(key, spec_encode(value)), value }
}

/// Whether a cell passes the integrity check for `key`.
pub open spec fn spec_cell_checks(c: TtCell, key: u64) -> bool {
    c.key == key && c.verify == fx_hash_of(key, spec_encode(c.value))
}

/// The model of an insert: overwrite the slot `key` maps to.
pub open spec fn spec_insert(cells: Seq<TtCell>, key: u64, value: TransTableEntry) -> Seq<TtCell>
    recommends
        cells.len() >= 1,
{
    cells.update(key as int % cells.len() as int, spec_cell_of(key, value))
}

/// The model of a lookup: the stored value when the slot passes the
/// integrity check for `key`, else a miss.
pub open spec fn spec_get(cells: Seq<TtCell>, key: u64) -> Option<TransTableEntry>
    recommends
        cells.len() >= 1,
{
    let c = cells[key as int % cells.len() as int];
    if spec_cell_checks(c, key) {
        Option::Some(c.value)
    } else {
        Option::None
    }
}

/// How many of the first `n` cells pass their own integrity check.
pub open spec fn spec_used_count(cells: Seq<TtCell>, n: int) -> int
    decreases n,
{
    if n <= 0 {
        0
    } else {
        spec_used_count(cells, n - 1) + if cells[n - 1].verify == fx_hash_of(
            cells[n - 1].key,
            spec_encode(cells[n - 1].value),
        ) {
            1int
        } else {
            0int
        }
    }
}

/// A fixed-size hash table of `(key, verify, value)` cells, indexed by
/// `key mod size`, with integrity guarded by the verify word.
pub struct SharedHashTable {
    pub cells: Vec<TtCell>,
}

/// The transposition table of the engine.
pub type TransTable = SharedHashTable;

impl SharedHashTable {
    pub open spec fn wf(self) -> bool {
        self.cells@.len() >= 1
    }

    pub open spec fn view_cells(self) -> Seq<TtCell> {
        self.cells@
    }

    /// How many bytes one cell occupies: key and verify words plus the
    /// seven encoded value bytes, padded to alignment.
    pub fn entry_size() -> (r: usize)
        ensures
            r == 24,
    {
        24
    }

    /// A zeroed table of `size` cells (at least one).
    pub fn new(size: usize) -> (r: SharedHashTable)
        ensures
            r.wf(),
            r.view_cells().len() == if size >= 1 { size as int } else { 1int },
            forall|i: int| 0 <= i < r.view_cells().len() ==> r.view_cells()[i] == spec_zero_cell(),
    {
        let n = if size >= 1 { size } else { 1 };
        let mut cells: Vec<TtCell> = Vec::new();
        let mut i: usize = 0;
        while i < n
            invariant
                i <= n,
                cells@.len() == i,
                forall|k: int| 0 <= k < i ==> cells@[k] == spec_zero_cell(),
            decreases n - i,
        {
            cells.push(TtCell { key: 0, verify: 0, value: TransTableEntry::empty() });
            i = i + 1;
        }
        SharedHashTable { cells }
    }

    /// The capacity in cells.
    pub fn size(&self) -> (r: usize)
        ensures
            r == self.view_cells().len(),
    {
        self.cells.len()
    }

    /// Zero every cell.
    pub fn clear(&mut self)
        requires
            old(self).wf(),
        ensures
            final(self).wf(),
            final(self).view_cells().len() == old(self).view_cells().len(),
            forall|i: int| 0 <= i < final(self).view_cells().len()
                ==> final(self).view_cells()[i] == spec_zero_cell(),
    {
        let n = self.cells.len();
        let mut i: usize = 0;
        while i < n
            invariant
                self.wf(),
                i <= n,
                self.cells@.len() == n,
                forall|k: int| 0 <= k < i ==> self.cells@[k] == spec_zero_cell(),
            decreases n - i,
        {
            self.cells.set(i, TtCell { key: 0, verify: 0, value: TransTableEntry::empty() });
            i = i + 1;
        }
    }

    /// Write `(key, verify, value)` into the slot `key` maps to,
    /// unconditionally overwriting the occupant.
    pub fn insert(&mut self, key: u64, value: TransTableEntry)
        requires
            old(self).wf(),
        ensures
            final(self).wf(),
            final(self).view_cells() == spec_insert(old(self).view_cells(), key, value),
    {
        let idx = (key % self.cells.len() as u64) as usize;
        let bytes = encode_entry(&value);
        let verify = fx_hash_pair(key, &bytes);
        self.cells.set(idx, TtCell { key, verify, value });
    }

    /// Read the slot `key` maps to; a hit only when the stored key is
    /// `key` and the verify word matches a recomputation.
    pub fn get(&self, key: u64) -> (r: Option<TransTableEntry>)
        requires
            self.wf(),
        ensures
            r == spec_get(self.view_cells(), key),
    {
        let idx = (key % self.cells.len() as u64) as usize;
        let c = self.cells[idx];
        let bytes = encode_entry(&c.value);
        if c.key == key && c.verify == fx_hash_pair(key, &bytes) {
            Some(c.value)
        } else {
            None
        }
    }

    /// As `get`, but without the key comparison: any occupant of the slot
    /// that passes its own integrity check.
    pub fn get_place(&self, key: u64) -> (r: Option<TransTableEntry>)
        requires
            self.wf(),
        ensures
            r == {
                let c = self.view_cells()[key as int % self.view_cells().len() as int];
                if c.verify == fx_hash_of(c.key, spec_encode(c.value)) {
                    Option::Some(c.value)
                } else {
                    Option::<TransTableEntry>::None
                }
            },
    {
        let idx = (key % self.cells.len() as u64) as usize;
        let c = self.cells[idx];
        let bytes = encode_entry(&c.value);
        if c.verify == fx_hash_pair(c.key, &bytes) {
            Some(c.value)
        } else {
            None
        }
    }

    /// How many cells pass their own integrity check, for `hashfull`
    /// style reporting.
    pub fn used_count(&self) -> (r: usize)
        requires
            self.wf(),
        ensures
            r == spec_used_count(self.view_cells(), self.view_cells().len() as int),
            r <= self.view_cells().len(),
    {
        let n = self.cells.len();
        let mut r: usize = 0;
        let mut i: usize = 0;
        while i < n
            invariant
                self.wf(),
                self.cells@.len() == n,
                i <= n,
                r <= i,
                r == spec_used_count(self.cells@, i as int),
            decreases n - i,
        {
            let c = self.cells[i];
            let bytes = encode_entry(&c.value);
            if c.verify == fx_hash_pair(c.key, &bytes) {
                r = r + 1;
            }
            i = i + 1;
        }
        r
    }

    /// Replace only the payload of the slot `key` maps to, leaving the
    /// stored key and verify word untouched. This models a torn or
    /// corrupted write, the situation the verify word exists to catch.
    pub fn overwrite_entry(&mut self, key: u64, value: TransTableEntry)
        requires
            old(self).wf(),
        ensures
            final(self).wf(),
            final(self).view_cells() == old(self).view_cells().update(
                key as int % old(self).view_cells().len() as int,
                TtCell {
                    value,
                    ..old(self).view_cells()[key as int % old(self).view_cells().len() as int]
                },
            ),
    {
        let idx = (key % self.cells.len() as u64) as usize;
        let c = self.cells[idx];
        self.cells.set(idx, TtCell { key: c.key, verify: c.verify, value });
    }
}

/// Law: a lookup straight after an insert of `(key, value)`, with no
/// interleaving insert into the same slot, returns exactly `value`.
pub proof fn lemma_tt_round_trip(cells: Seq<TtCell>, key: u64, value: TransTableEntry)
    requires
        cells.len() >= 1,
    ensures
        spec_get(spec_insert(cells, key, value), key) == Option::Some(value),
{
}

} // verus!
