//! Packed signed 16-bit evaluation scores.
//!
//! The unsigned view of the word has three regions, told apart by its top
//! two bits: `01…` (`[0x4000, 0x7FFF]`) holds positive mate scores, where
//! `0x7FFF` is mate-in-0 for the side to move and each decrement raises the
//! mate distance by one ply; `10…` (`[0x8000, 0xBFFF]`) holds negative mate
//! scores, where `0x8000` is mated-in-0 and each increment raises the
//! distance; everything else is a plain centipawn value in
//! `[-0x3FFF, 0x3FFF]`.

use vstd::prelude::*;

verus! {

/// Positive-mate region: top two bits of the unsigned view are `01`.
pub open spec fn is_pos_mate_value(v: i16) -> bool {
    v >= 0x4000
}

/// Negative-mate region: top two bits of the unsigned view are `10`.
pub open spec fn is_neg_mate_value(v: i16) -> bool {
    v <= -0x4001
}

pub open spec fn is_mate_value(v: i16) -> bool {
    is_pos_mate_value(v) || is_neg_mate_value(v)
}

/// Every score in one of the three regions; the single 16-bit word outside
/// them is `-0x4000`.
pub open spec fn valid_score(v: i16) -> bool {
    v != -0x4000
}

/// Negation: bitwise NOT (that is, `-1 - v`) on mate scores, arithmetic
/// negation on centipawn scores.
pub open spec fn neg_value(v: i16) -> i16 {
    if is_mate_value(v) {
        (-1 - v) as i16
    } else {
        (-v) as i16
    }
}

/// Ageing of a score by one ply: mate scores move one step away from the
/// end of their region, centipawn scores are unchanged.
pub open spec fn incr_mate_value(v: i16) -> i16 {
    if is_pos_mate_value(v) {
        (v - 1) as i16
    } else if is_neg_mate_value(v) {
        (v + 1) as i16
    } else {
        v
    }
}

/// Plies until mate, for a score in one of the two mate regions.
pub open spec fn mate_distance(v: i16) -> int {
    if is_pos_mate_value(v) {
        0x7fff - v
    } else {
        v + 0x8000
    }
}

/// The highest score word: mate-in-0 for the side to move.
pub const MAX_SCORE: i16 = 0x7fff;

/// The lowest score word that negation maps back onto `MAX_SCORE`.
pub const MIN_SCORE: i16 = -0x7fff;

/// A signed 16-bit evaluation in the encoding described at module level.
#[derive(Debug, Clone, Copy, PartialEq, Eq, Structural, Hash)]
pub struct Eval(pub i16);

impl Eval {
    /// Mate-in-0 for the side to move, the highest score.
    pub fn mate_in_0() -> (r: Eval)
        ensures
            r.0 == MAX_SCORE,
    {
        Eval(MAX_SCORE)
    }

    /// Negate the score: mirror it into the opposite region.
    pub fn neg(self) -> (r: Eval)
        ensures
            r.0 == neg_value(self.0),
            valid_score(r.0),
    {
        if self.is_mate() {
            Eval(-1 - self.0)
        } else {
            Eval(-self.0)
        }
    }

    /// Age a mate score by one ply; leave a centipawn score unchanged.
    pub fn incr_mate(self) -> (r: Eval)
        ensures
            r.0 == incr_mate_value(self.0),
    {
        if self.0 >= 0x4000 {
            Eval(self.0 - 1)
        } else if self.0 <= -0x4001 {
            Eval(self.0 + 1)
        } else {
            self
        }
    }

    /// Whether the score lies in either mate region.
    pub fn is_mate(self) -> (r: bool)
        ensures
            r == is_mate_value(self.0),
    {
        self.0 >= 0x4000 || self.0 <= -0x4001
    }

    /// Whether the score lies in the positive-mate region.
    pub fn is_positive_mate(self) -> (r: bool)
        ensures
            r == is_pos_mate_value(self.0),
    {
        self.0 >= 0x4000
    }
}

impl Default for Eval {
    /// A centipawn score of zero.
    fn default() -> (r: Eval)
        ensures
            r.0 == 0,
    {
        Eval(0)
    }
}

pub open spec fn digit_char(d: int) -> char {
    if d == 0 { '0' } else if d == 1 { '1' } else if d == 2 { '2' }
    else if d == 3 { '3' } else if d == 4 { '4' } else if d == 5 { '5' }
    else if d == 6 { '6' } else if d == 7 { '7' } else if d == 8 { '8' }
    else { '9' }
}

/// Decimal digits of `n`, most significant first.
pub open spec fn dec_str(n: nat) -> Seq<char>
    decreases n,
{
    if n < 10 {
        seq![digit_char(n as int)]
    } else {
        dec_str(n / 10) + seq![digit_char((n % 10) as int)]
    }
}

/// The plain rendering of a score word: `#N` or `#-N` with the mate
/// distance in moves, else the signed centipawn value followed by `cp`.
pub open spec fn plain_chars(v: i16) -> Seq<char> {
    if is_pos_mate_value(v) {
        seq!['#'] + dec_str(((0x7fff - v + 1) / 2) as nat)
    } else if is_neg_mate_value(v) {
        seq!['#', '-'] + dec_str(((v + 0x8000 + 1) / 2) as nat)
    } else if v < 0 {
        seq!['-'] + dec_str((-v) as nat) + seq!['c', 'p']
    } else {
        seq!['+'] + dec_str(v as nat) + seq!['c', 'p']
    }
}

/// The alternate rendering of a score word, as a chess interface wants
/// it: `mate N` or `mate -N` with the distance in plies, else `cp N`.
pub open spec fn alternate_chars(v: i16) -> Seq<char> {
    if is_pos_mate_value(v) {
        seq!['m', 'a', 't', 'e', ' '] + dec_str((0x7fff - v) as nat)
    } else if is_neg_mate_value(v) {
        seq!['m', 'a', 't', 'e', ' ', '-'] + dec_str((v + 0x8000) as nat)
    } else if v < 0 {
        seq!['c', 'p', ' ', '-'] + dec_str((-v) as nat)
    } else {
        seq!['c', 'p', ' '] + dec_str(v as nat)
    }
}

/// Relies on `String::push`: appends exactly one character.
#[verifier::external_body]
pub(crate) fn push_char(s: &mut String, c: char)
    ensures
        final(s)@ == old(s)@.push(c),
{
    s.push(c);
}

pub(crate) fn push_digit(s: &mut String, d: u64)
    requires
        d < 10,
    ensures
        final(s)@ == old(s)@.push(digit_char(d as int)),
{
    let c = match d {
        0 => '0', 1 => '1', 2 => '2', 3 => '3', 4 => '4',
        5 => '5', 6 => '6', 7 => '7', 8 => '8', _ => '9',
    };
    push_char(s, c);
}

/// Append the decimal digits of `n`.
pub(crate) fn push_dec(s: &mut String, n: u64)
    ensures
        final(s)@ == old(s)@ + dec_str(n as nat),
    decreases n,
{
    if n >= 10 {
        push_dec(s, n / 10);
    }
    push_digit(s, n % 10);
    assert(final(s)@ =~= old(s)@ + dec_str(n as nat));
}

impl Eval {
    /// The plain rendering, `#N`, `#-N`, `+Ncp` or `-Ncp`.
    pub fn to_string(&self) -> (r: String)
        ensures
            r@ == plain_chars(self.0),
    {
        let mut s = String::new();
        if self.0 >= 0x4000 {
            push_char(&mut s, '#');
            push_dec(&mut s, ((0x7fff - self.0 as i32 + 1) / 2) as u64);
        } else if self.0 <= -0x4001 {
            push_char(&mut s, '#');
            push_char(&mut s, '-');
            push_dec(&mut s, ((self.0 as i32 + 0x8000 + 1) / 2) as u64);
        } else if self.0 < 0 {
            push_char(&mut s, '-');
            push_dec(&mut s, (-(self.0 as i32)) as u64);
            push_char(&mut s, 'c');
            push_char(&mut s, 'p');
        } else {
            push_char(&mut s, '+');
            push_dec(&mut s, self.0 as u64);
            push_char(&mut s, 'c');
            push_char(&mut s, 'p');
        }
        assert(s@ =~= plain_chars(self.0));
        s
    }

    /// The alternate rendering, `mate N`, `mate -N` or `cp N`.
    pub fn to_uci_string(&self) -> (r: String)
        ensures
            r@ == alternate_chars(self.0),
    {
        let mut s = String::new();
        if self.0 >= 0x4000 {
            push_str5(&mut s, 'm', 'a', 't', 'e', ' ');
            push_dec(&mut s, (0x7fff - self.0 as i32) as u64);
        } else if self.0 <= -0x4001 {
            push_str5(&mut s, 'm', 'a', 't', 'e', ' ');
            push_char(&mut s, '-');
            push_dec(&mut s, (self.0 as i32 + 0x8000) as u64);
        } else if self.0 < 0 {
            push_char(&mut s, 'c');
            push_char(&mut s, 'p');
            push_char(&mut s, ' ');
            push_char(&mut s, '-');
            push_dec(&mut s, (-(self.0 as i32)) as u64);
        } else {
            push_char(&mut s, 'c');
            push_char(&mut s, 'p');
            push_char(&mut s, ' ');
            push_dec(&mut s, self.0 as u64);
        }
        assert(s@ =~= alternate_chars(self.0));
        s
    }
}

fn push_str5(s: &mut String, a: char, b: char, c: char, d: char, e: char)
    ensures
        final(s)@ == old(s)@ + seq![a, b, c, d, e],
{
    push_char(s, a);
    push_char(s, b);
    push_char(s, c);
    push_char(s, d);
    push_char(s, e);
    assert(final(s)@ =~= old(s)@ + seq![a, b, c, d, e]);
}

/// Law: negation is an involution on every valid score, in each of the
/// three regions.
pub proof fn lemma_neg_involution(v: i16)
    requires
        valid_score(v),
    ensures
        neg_value(neg_value(v)) == v,
{
}

/// Law: negation of any word lands inside the three regions.
pub proof fn lemma_neg_valid(v: i16)
    ensures
        valid_score(neg_value(v)),
{
}

/// Law: negation swaps the two mate regions and keeps the centipawn
/// region, preserving the mate distance.
pub proof fn lemma_neg_regions(v: i16)
    requires
        valid_score(v),
    ensures
        is_pos_mate_value(v) <==> is_neg_mate_value(neg_value(v)),
        is_neg_mate_value(v) <==> is_pos_mate_value(neg_value(v)),
        is_mate_value(v) ==> mate_distance(neg_value(v)) == mate_distance(v),
{
}

/// Law: ageing a score is the identity outside the mate regions, and
/// raises the mate distance by exactly one ply as long as the aged score
/// is still a mate score.
pub proof fn lemma_incr_mate(v: i16)
    ensures
        !is_mate_value(v) ==> incr_mate_value(v) == v,
        is_mate_value(v) && is_mate_value(incr_mate_value(v)) ==> {
            &&& mate_distance(incr_mate_value(v)) == mate_distance(v) + 1
            &&& is_pos_mate_value(v) == is_pos_mate_value(incr_mate_value(v))
        },
{
}

} // verus!
