//! The 4-valued transmission symbol and its rotation algebra.
//!
//! A `Sym` carries two bits (A=00, B=01, C=10, D=11).  Under the
//! 90-degree constellation rotation `inc` the symbols form a cyclic
//! group of order 4 with the cycle A -> C -> D -> B -> A; `dec` is the
//! inverse rotation, and `add`/`sub` iterate them `n mod 4` times.

use vstd::prelude::*;

verus! {

/// One 4-ary symbol; each symbol encodes exactly two bits.
#[derive(Debug, Clone, Copy, PartialEq, Eq, Structural)]
pub enum Sym {
    A,
    B,
    C,
    D,
}

/// The fixed two-bit encoding of a symbol: A=00, B=01, C=10, D=11.
pub open spec fn sym_val(s: Sym) -> u8 {
    match s {
        Sym::A => 0,
        Sym::B => 1,
        Sym::C => 2,
        Sym::D => 3,
    }
}

/// The symbol whose two-bit encoding is the low two bits of `v`.
pub open spec fn sym_of_val(v: u8) -> Sym {
    if v & 3 == 0 {
        Sym::A
    } else if v & 3 == 1 {
        Sym::B
    } else if v & 3 == 2 {
        Sym::C
    } else {
        Sym::D
    }
}

/// One +90-degree constellation rotation: A -> C -> D -> B -> A.
pub open spec fn spec_inc(s: Sym) -> Sym {
    match s {
        Sym::A => Sym::C,
        Sym::B => Sym::A,
        Sym::C => Sym::D,
        Sym::D => Sym::B,
    }
}

/// One -90-degree constellation rotation, the inverse of `spec_inc`.
pub open spec fn spec_dec(s: Sym) -> Sym {
    match s {
        Sym::A => Sym::B,
        Sym::B => Sym::D,
        Sym::C => Sym::A,
        Sym::D => Sym::C,
    }
}

/// `spec_inc` iterated `n mod 4` times.
pub open spec fn spec_add(s: Sym, n: nat) -> Sym {
    if n % 4 == 0 {
        s
    } else if n % 4 == 1 {
        spec_inc(s)
    } else if n % 4 == 2 {
        spec_inc(spec_inc(s))
    } else {
        spec_inc(spec_inc(spec_inc(s)))
    }
}

/// `spec_dec` iterated `n mod 4` times.
pub open spec fn spec_sub(s: Sym, n: nat) -> Sym {
    if n % 4 == 0 {
        s
    } else if n % 4 == 1 {
        spec_dec(s)
    } else if n % 4 == 2 {
        spec_dec(spec_dec(s))
    } else {
        spec_dec(spec_dec(spec_dec(s)))
    }
}

/// The four symbols of a byte, most significant bit pair first:
/// bits 7-6, 5-4, 3-2, 1-0.
pub open spec fn byte_syms(b: u8) -> Seq<Sym> {
    seq![sym_of_val(b >> 6), sym_of_val(b >> 4), sym_of_val(b >> 2), sym_of_val(b)]
}

/// The byte assembled back from four symbols, most significant pair first.
pub open spec fn byte_of_syms(s0: Sym, s1: Sym, s2: Sym, s3: Sym) -> u8 {
    (((sym_val(s0) as u8) << 6) | ((sym_val(s1) as u8) << 4) | ((sym_val(s2) as u8) << 2) | (
    sym_val(s3) as u8)) as u8
}

impl Sym {
    /// The two-bit encoding of this symbol.
    pub fn val(&self) -> (r: u8)
        ensures
            r == sym_val(*self),
    {
        match self {
            Sym::A => 0b00,
            Sym::B => 0b01,
            Sym::C => 0b10,
            Sym::D => 0b11,
        }
    }

    /// The symbol for the low two bits of `nibble`.
    pub fn convert_nibble(nibble: u8) -> (r: Sym)
        ensures
            r == sym_of_val(nibble),
    {
        match nibble & 0x3 {
            0b00 => Sym::A,
            0b01 => Sym::B,
            0b10 => Sym::C,
            _ => Sym::D,
        }
    }

    /// The four symbols of `byte`, most significant bit pair first.
    pub fn syms_from_byte(byte: u8) -> (r: Vec<Sym>)
        ensures
            r@ == byte_syms(byte),
    {
        let mut ret = Vec::new();
        ret.push(Self::convert_nibble(byte >> 6));
        ret.push(Self::convert_nibble(byte >> 4));
        ret.push(Self::convert_nibble(byte >> 2));
        ret.push(Self::convert_nibble(byte));
        proof {
            assert(ret@ =~= byte_syms(byte));
        }
        ret
    }

    /// Rotate by +90 degrees: A -> C -> D -> B -> A.
    pub fn inc(&self) -> (r: Sym)
        ensures
            r == spec_inc(*self),
    {
        match self {
            Sym::A => Sym::C,
            Sym::B => Sym::A,
            Sym::C => Sym::D,
            Sym::D => Sym::B,
        }
    }

    /// Rotate by -90 degrees, the inverse of `inc`.
    pub fn dec(&self) -> (r: Sym)
        ensures
            r == spec_dec(*self),
    {
        match self {
            Sym::A => Sym::B,
            Sym::B => Sym::D,
            Sym::C => Sym::A,
            Sym::D => Sym::C,
        }
    }

    /// Rotate by `n` quadrants, that is `inc` iterated `n mod 4` times.
    pub fn add(&self, n: usize) -> (r: Sym)
        ensures
            r == spec_add(*self, n as nat),
    {
        proof {
            assert(n & 0x3 == n % 4) by (bit_vector);
        }
        match n & 0x3 {
            0 => *self,
            1 => self.inc(),
            2 => self.inc().inc(),
            _ => self.inc().inc().inc(),
        }
    }

    /// Rotate by `-n` quadrants, that is `dec` iterated `n mod 4` times.
    pub fn sub(&self, n: usize) -> (r: Sym)
        ensures
            r == spec_sub(*self, n as nat),
    {
        proof {
            assert(n & 0x3 == n % 4) by (bit_vector);
        }
        match n & 0x3 {
            0 => *self,
            1 => self.dec(),
            2 => self.dec().dec(),
            _ => self.dec().dec().dec(),
        }
    }
}

/// Rotating by `n` and back by `n` returns every symbol unchanged, and
/// rotation only depends on `n mod 4`.
pub proof fn lemma_add_sub(s: Sym, n: nat)
    ensures
        spec_sub(spec_add(s, n), n) == s,
        spec_add(s, n) == spec_add(s, n % 4),
{
}

/// Four quarter turns are the identity: `add(4)` and `inc` applied four
/// times both return the symbol unchanged.
pub proof fn lemma_full_cycle(s: Sym)
    ensures
        spec_add(s, 4) == s,
        spec_inc(spec_inc(spec_inc(spec_inc(s)))) == s,
{
}

/// A stream slot: either one symbol or an idle slot.
pub type Symbol = Option<Sym>;

} // verus!
