//! Preamble correlator.
//!
//! A sliding register holds the last 16 decoded symbols as a 32-bit word,
//! two bits per symbol, oldest in the most significant bits.  At
//! construction the correlator stores the word of the SYNC preamble under
//! each of the four quadrant rotations; a match of the register against
//! one of them recovers the carrier-phase rotation.

use vstd::prelude::*;

use crate::sym::{spec_add, sym_val, Sym};

verus! {

/// Symbol `i` of the fixed 16-symbol SYNC preamble
/// A B A C A D B D A C B B A B D C.
pub open spec fn sync_at(i: int) -> Sym {
    if i == 0 {
        Sym::A
    } else if i == 1 {
        Sym::B
    } else if i == 2 {
        Sym::A
    } else if i == 3 {
        Sym::C
    } else if i == 4 {
        Sym::A
    } else if i == 5 {
        Sym::D
    } else if i == 6 {
        Sym::B
    } else if i == 7 {
        Sym::D
    } else if i == 8 {
        Sym::A
    } else if i == 9 {
        Sym::C
    } else if i == 10 {
        Sym::B
    } else if i == 11 {
        Sym::B
    } else if i == 12 {
        Sym::A
    } else if i == 13 {
        Sym::B
    } else if i == 14 {
        Sym::D
    } else {
        Sym::C
    }
}

/// The fixed 16-symbol SYNC preamble.
pub open spec fn sync_seq() -> Seq<Sym> {
    Seq::new(16, |i: int| sync_at(i))
}

/// Shift one symbol into the low bits of the correlation register: the
/// oldest symbol's bits fall out of the top, the new pair enters at the
/// bottom.
pub open spec fn word_push(w: u32, s: Sym) -> u32 {
    ((w as int % 0x40000000) * 4 + sym_val(s) as int) as u32
}

/// The register contents after pushing `syms` in order, starting from `w`.
pub open spec fn word_run(w: u32, syms: Seq<Sym>) -> u32
    decreases syms.len(),
{
    if syms.len() == 0 {
        w
    } else {
        word_push(word_run(w, syms.drop_last()), syms.last())
    }
}

/// Symbol `i` of the preamble rotated by `r` quadrants.
pub open spec fn rot_sync_at(r: nat, i: int) -> Sym {
    spec_add(sync_at(i), r)
}

/// The register contents after pushing the first `k` symbols of the
/// preamble rotated by `r` onto an empty register.
pub open spec fn pref_word(r: nat, k: int) -> u32
    decreases k,
{
    if k <= 0 {
        0
    } else {
        word_push(pref_word(r, k - 1), rot_sync_at(r, k - 1))
    }
}

/// The 32-bit encoding of the whole preamble rotated by `r` quadrants.
pub open spec fn sync_word(r: nat) -> u32 {
    pref_word(r, 16)
}

/// Which rotation the register matches, if any; the smallest matching
/// rotation wins (the four words are in fact distinct).
pub open spec fn sync_lookup(w: u32) -> Option<usize> {
    if w == sync_word(0) {
        Some(0usize)
    } else if w == sync_word(1) {
        Some(1usize)
    } else if w == sync_word(2) {
        Some(2usize)
    } else if w == sync_word(3) {
        Some(3usize)
    } else {
        None
    }
}

/// The preamble rotated by `r` quadrants, as fed to the correlator when
/// the carrier has locked `r` quarter turns away.
pub open spec fn rotated_sync(r: nat) -> Seq<Sym> {
    Seq::new(16, |i: int| rot_sync_at(r, i))
}

/// No prefix of length 1 up to `k` of the rotated preamble matches any
/// of the four target words.
spec fn clear_upto(r: nat, k: int) -> bool
    decreases k,
{
    if k <= 0 {
        true
    } else {
        sync_lookup(pref_word(r, k)) is None && clear_upto(r, k - 1)
    }
}

proof fn lemma_clear_unroll(r: nat, k: int, i: int)
    requires
        clear_upto(r, k),
        1 <= i <= k,
    ensures
        sync_lookup(pref_word(r, i)) is None,
    decreases k,
{
    if i < k {
        lemma_clear_unroll(r, k - 1, i);
    }
}

proof fn lemma_clear_r0()
    ensures
        clear_upto(0, 15),
{
    lemma_sync_words_distinct();
    reveal_with_fuel(pref_word, 3);
    assert(pref_word(0, 1) == 0x0u32);
    assert(pref_word(0, 2) == 0x1u32);
    assert(pref_word(0, 3) == 0x4u32);
    assert(pref_word(0, 4) == 0x12u32);
    assert(pref_word(0, 5) == 0x48u32);
    assert(pref_word(0, 6) == 0x123u32);
    assert(pref_word(0, 7) == 0x48du32);
    assert(pref_word(0, 8) == 0x1237u32);
    assert(pref_word(0, 9) == 0x48dcu32);
    assert(pref_word(0, 10) == 0x12372u32);
    assert(pref_word(0, 11) == 0x48dc9u32);
    assert(pref_word(0, 12) == 0x123725u32);
    assert(pref_word(0, 13) == 0x48dc94u32);
    assert(pref_word(0, 14) == 0x1237251u32);
    assert(pref_word(0, 15) == 0x48dc947u32);
    reveal_with_fuel(clear_upto, 16);
    assert(clear_upto(0, 15));
}

proof fn lemma_clear_r1()
    ensures
        clear_upto(1, 15),
{
    lemma_sync_words_distinct();
    reveal_with_fuel(pref_word, 3);
    assert(pref_word(1, 1) == 0x2u32);
    assert(pref_word(1, 2) == 0x8u32);
    assert(pref_word(1, 3) == 0x22u32);
    assert(pref_word(1, 4) == 0x8bu32);
    assert(pref_word(1, 5) == 0x22eu32);
    assert(pref_word(1, 6) == 0x8b9u32);
    assert(pref_word(1, 7) == 0x22e4u32);
    assert(pref_word(1, 8) == 0x8b91u32);
    assert(pref_word(1, 9) == 0x22e46u32);
    assert(pref_word(1, 10) == 0x8b91bu32);
    assert(pref_word(1, 11) == 0x22e46cu32);
    assert(pref_word(1, 12) == 0x8b91b0u32);
    assert(pref_word(1, 13) == 0x22e46c2u32);
    assert(pref_word(1, 14) == 0x8b91b08u32);
    assert(pref_word(1, 15) == 0x22e46c21u32);
    reveal_with_fuel(clear_upto, 16);
    assert(clear_upto(1, 15));
}

proof fn lemma_clear_r2()
    ensures
        clear_upto(2, 15),
{
    lemma_sync_words_distinct();
    reveal_with_fuel(pref_word, 3);
    assert(pref_word(2, 1) == 0x3u32);
    assert(pref_word(2, 2) == 0xeu32);
    assert(pref_word(2, 3) == 0x3bu32);
    assert(pref_word(2, 4) == 0xedu32);
    assert(pref_word(2, 5) == 0x3b7u32);
    assert(pref_word(2, 6) == 0xedcu32);
    assert(pref_word(2, 7) == 0x3b72u32);
    assert(pref_word(2, 8) == 0xedc8u32);
    assert(pref_word(2, 9) == 0x3b723u32);
    assert(pref_word(2, 10) == 0xedc8du32);
    assert(pref_word(2, 11) == 0x3b7236u32);
    assert(pref_word(2, 12) == 0xedc8dau32);
    assert(pref_word(2, 13) == 0x3b7236bu32);
    assert(pref_word(2, 14) == 0xedc8daeu32);
    assert(pref_word(2, 15) == 0x3b7236b8u32);
    reveal_with_fuel(clear_upto, 16);
    assert(clear_upto(2, 15));
}

proof fn lemma_clear_r3()
    ensures
        clear_upto(3, 15),
{
    lemma_sync_words_distinct();
    reveal_with_fuel(pref_word, 3);
    assert(pref_word(3, 1) == 0x1u32);
    assert(pref_word(3, 2) == 0x7u32);
    assert(pref_word(3, 3) == 0x1du32);
    assert(pref_word(3, 4) == 0x74u32);
    assert(pref_word(3, 5) == 0x1d1u32);
    assert(pref_word(3, 6) == 0x746u32);
    assert(pref_word(3, 7) == 0x1d1bu32);
    assert(pref_word(3, 8) == 0x746eu32);
    assert(pref_word(3, 9) == 0x1d1b9u32);
    assert(pref_word(3, 10) == 0x746e4u32);
    assert(pref_word(3, 11) == 0x1d1b93u32);
    assert(pref_word(3, 12) == 0x746e4fu32);
    assert(pref_word(3, 13) == 0x1d1b93du32);
    assert(pref_word(3, 14) == 0x746e4f7u32);
    assert(pref_word(3, 15) == 0x1d1b93deu32);
    reveal_with_fuel(clear_upto, 16);
    assert(clear_upto(3, 15));
}

proof fn lemma_word_run_pref(r: nat, k: int)
    requires
        0 <= k <= 16,
    ensures
        word_run(0, rotated_sync(r).take(k)) == pref_word(r, k),
    decreases k,
{
    if k == 0 {
        assert(rotated_sync(r).take(0) =~= Seq::<Sym>::empty());
    } else {
        lemma_word_run_pref(r, k - 1);
        assert(rotated_sync(r).take(k).drop_last() =~= rotated_sync(r).take(k - 1));
        assert(rotated_sync(r).take(k).last() == rot_sync_at(r, k - 1));
    }
}

/// The unique word detects the rotation exactly once: pushing the 16
/// preamble symbols rotated by `r` into a fresh correlator register
/// matches nothing on the first 15 symbols, and on the 16th it matches
/// exactly rotation `r`.
pub proof fn lemma_sync_detect(r: nat, i: int)
    requires
        r < 4,
        1 <= i <= 16,
    ensures
        i < 16 ==> sync_lookup(word_run(0, rotated_sync(r).take(i))) is None,
        i == 16 ==> sync_lookup(word_run(0, rotated_sync(r).take(i))) == Some(r as usize),
{
    lemma_word_run_pref(r, i);
    if i < 16 {
        if r == 0 {
            lemma_clear_r0();
        } else if r == 1 {
            lemma_clear_r1();
        } else if r == 2 {
            lemma_clear_r2();
        } else {
            lemma_clear_r3();
        }
        lemma_clear_unroll(r, 15, i);
    } else {
        assert(rotated_sync(r).take(16) =~= rotated_sync(r));
        lemma_sync_words_distinct();
        assert(sync_word(r) == pref_word(r, 16));
    }
}

proof fn lemma_word_r0()
    ensures
        pref_word(0, 16) == 0x1237251eu32,
{
    reveal_with_fuel(pref_word, 3);
    assert(pref_word(0, 1) == 0x0u32);
    assert(pref_word(0, 2) == 0x1u32);
    assert(pref_word(0, 3) == 0x4u32);
    assert(pref_word(0, 4) == 0x12u32);
    assert(pref_word(0, 5) == 0x48u32);
    assert(pref_word(0, 6) == 0x123u32);
    assert(pref_word(0, 7) == 0x48du32);
    assert(pref_word(0, 8) == 0x1237u32);
    assert(pref_word(0, 9) == 0x48dcu32);
    assert(pref_word(0, 10) == 0x12372u32);
    assert(pref_word(0, 11) == 0x48dc9u32);
    assert(pref_word(0, 12) == 0x123725u32);
    assert(pref_word(0, 13) == 0x48dc94u32);
    assert(pref_word(0, 14) == 0x1237251u32);
    assert(pref_word(0, 15) == 0x48dc947u32);
    assert(pref_word(0, 16) == 0x1237251eu32);
}

proof fn lemma_word_r1()
    ensures
        pref_word(1, 16) == 0x8b91b087u32,
{
    reveal_with_fuel(pref_word, 3);
    assert(pref_word(1, 1) == 0x2u32);
    assert(pref_word(1, 2) == 0x8u32);
    assert(pref_word(1, 3) == 0x22u32);
    assert(pref_word(1, 4) == 0x8bu32);
    assert(pref_word(1, 5) == 0x22eu32);
    assert(pref_word(1, 6) == 0x8b9u32);
    assert(pref_word(1, 7) == 0x22e4u32);
    assert(pref_word(1, 8) == 0x8b91u32);
    assert(pref_word(1, 9) == 0x22e46u32);
    assert(pref_word(1, 10) == 0x8b91bu32);
    assert(pref_word(1, 11) == 0x22e46cu32);
    assert(pref_word(1, 12) == 0x8b91b0u32);
    assert(pref_word(1, 13) == 0x22e46c2u32);
    assert(pref_word(1, 14) == 0x8b91b08u32);
    assert(pref_word(1, 15) == 0x22e46c21u32);
    assert(pref_word(1, 16) == 0x8b91b087u32);
}

proof fn lemma_word_r2()
    ensures
        pref_word(2, 16) == 0xedc8dae1u32,
{
    reveal_with_fuel(pref_word, 3);
    assert(pref_word(2, 1) == 0x3u32);
    assert(pref_word(2, 2) == 0xeu32);
    assert(pref_word(2, 3) == 0x3bu32);
    assert(pref_word(2, 4) == 0xedu32);
    assert(pref_word(2, 5) == 0x3b7u32);
    assert(pref_word(2, 6) == 0xedcu32);
    assert(pref_word(2, 7) == 0x3b72u32);
    assert(pref_word(2, 8) == 0xedc8u32);
    assert(pref_word(2, 9) == 0x3b723u32);
    assert(pref_word(2, 10) == 0xedc8du32);
    assert(pref_word(2, 11) == 0x3b7236u32);
    assert(pref_word(2, 12) == 0xedc8dau32);
    assert(pref_word(2, 13) == 0x3b7236bu32);
    assert(pref_word(2, 14) == 0xedc8daeu32);
    assert(pref_word(2, 15) == 0x3b7236b8u32);
    assert(pref_word(2, 16) == 0xedc8dae1u32);
}

proof fn lemma_word_r3()
    ensures
        pref_word(3, 16) == 0x746e4f78u32,
{
    reveal_with_fuel(pref_word, 3);
    assert(pref_word(3, 1) == 0x1u32);
    assert(pref_word(3, 2) == 0x7u32);
    assert(pref_word(3, 3) == 0x1du32);
    assert(pref_word(3, 4) == 0x74u32);
    assert(pref_word(3, 5) == 0x1d1u32);
    assert(pref_word(3, 6) == 0x746u32);
    assert(pref_word(3, 7) == 0x1d1bu32);
    assert(pref_word(3, 8) == 0x746eu32);
    assert(pref_word(3, 9) == 0x1d1b9u32);
    assert(pref_word(3, 10) == 0x746e4u32);
    assert(pref_word(3, 11) == 0x1d1b93u32);
    assert(pref_word(3, 12) == 0x746e4fu32);
    assert(pref_word(3, 13) == 0x1d1b93du32);
    assert(pref_word(3, 14) == 0x746e4f7u32);
    assert(pref_word(3, 15) == 0x1d1b93deu32);
    assert(pref_word(3, 16) == 0x746e4f78u32);
}

/// The four rotated preamble words are pairwise distinct, so a register
/// match names one rotation unambiguously.
pub proof fn lemma_sync_words_distinct()
    ensures
        sync_word(0) == 0x1237251eu32,
        sync_word(1) == 0x8b91b087u32,
        sync_word(2) == 0xedc8dae1u32,
        sync_word(3) == 0x746e4f78u32,
{
    lemma_word_r0();
    lemma_word_r1();
    lemma_word_r2();
    lemma_word_r3();
}

/// The SYNC preamble as a vector of symbols.
pub fn sync_syms() -> (r: Vec<Sym>)
    ensures
        r@ == sync_seq(),
{
    let mut v: Vec<Sym> = Vec::new();
    v.push(Sym::A);
    v.push(Sym::B);
    v.push(Sym::A);
    v.push(Sym::C);
    v.push(Sym::A);
    v.push(Sym::D);
    v.push(Sym::B);
    v.push(Sym::D);
    v.push(Sym::A);
    v.push(Sym::C);
    v.push(Sym::B);
    v.push(Sym::B);
    v.push(Sym::A);
    v.push(Sym::B);
    v.push(Sym::D);
    v.push(Sym::C);
    proof {
        assert(v@ =~= sync_seq());
    }
    v
}

/// The sliding correlator: the register of the last 16 symbols and the
/// four target words, one per rotation.
pub struct SymSync {
    /// `rotations[r]` is the word of the preamble rotated by `r`.
    pub rotations: Vec<u32>,
    /// The correlation register.
    pub n: u32,
}

impl SymSync {
    /// The table holds the word of every rotated preamble at its rotation.
    pub open spec fn wf(&self) -> bool {
        &&& self.rotations@.len() == 4
        &&& forall|j: nat| j < 4 ==> self.rotations@[j as int] == #[trigger] sync_word(j)
    }

    /// A fresh correlator: empty register, the four target words stored.
    pub fn new() -> (s: SymSync)
        ensures
            s.wf(),
            s.n == 0,
    {
        let mut rotations: Vec<u32> = Vec::new();
        let sync = sync_syms();
        let mut r: usize = 0;
        while r < 4
            invariant
                r <= 4,
                sync@ == sync_seq(),
                rotations@.len() == r,
                forall|j: nat| j < r ==> rotations@[j as int] == #[trigger] sync_word(j),
            decreases 4 - r,
        {
            let mut word: u32 = 0;
            let mut i: usize = 0;
            while i < 16
                invariant
                    i <= 16,
                    sync@ == sync_seq(),
                    word == pref_word(r as nat, i as int),
                decreases 16 - i,
            {
                Self::push_nibble(&mut word, sync[i].add(r));
                i += 1;
            }
            rotations.push(word);
            r += 1;
        }
        SymSync { rotations, n: 0 }
    }

    /// Shift the two-bit encoding of `s` into the register `n`.
    pub fn push_nibble(n: &mut u32, s: Sym)
        ensures
            *final(n) == word_push(*old(n), s),
    {
        let w = *n;
        let v = s.val() as u32;
        *n = (w << 2) | v;
        proof {
            assert(v < 4 ==> ((w << 2) | v) == (((w as int % 0x40000000) * 4 + v as int) as u32))
                by (bit_vector);
        }
    }

    /// Push one symbol; report the rotation whose preamble word the
    /// register now equals, if any.
    pub fn push_sym(&mut self, s: Sym) -> (r: Option<usize>)
        requires
            old(self).wf(),
        ensures
            final(self).wf(),
            final(self).rotations@ == old(self).rotations@,
            final(self).n == word_push(old(self).n, s),
            r == sync_lookup(final(self).n),
    {
        Self::push_nibble(&mut self.n, s);
        let mut r: usize = 0;
        while r < 4
            invariant
                r <= 4,
                self.wf(),
                self.n == word_push(old(self).n, s),
                self.rotations@ == old(self).rotations@,
                forall|j: nat| j < r ==> self.n != #[trigger] sync_word(j),
            decreases 4 - r,
        {
            if self.rotations[r] == self.n {
                proof {
                    assert(self.n == sync_word(r as nat));
                    assert(sync_lookup(self.n) == Some(r));
                }
                return Some(r);
            }
            proof {
                assert(self.n != sync_word(r as nat));
            }
            r += 1;
        }
        proof {
            assert(self.n != sync_word(0) && self.n != sync_word(1) && self.n != sync_word(2)
                && self.n != sync_word(3));
            assert(sync_lookup(self.n) is None);
        }
        None
    }
}

} // verus!
