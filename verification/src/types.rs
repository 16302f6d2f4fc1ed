//! Kinds of numbers and of texts as sets of flags, each kind taking in the
//! kinds that are wider.

use vstd::prelude::*;

verus! {

pub const WHOLE: u8 = 0b0000_0001;

pub const NAT: u8 = 0b0000_0010;

pub const INT: u8 = 0b0000_0100;

pub const ALG: u8 = 0b0000_1000;

pub const REAL: u8 = 0b0001_0000;

pub const COMPLEX: u8 = 0b0010_0000;

pub const ASCII: u8 = 0b0000_0001;

pub const CHAR: u8 = 0b0000_0010;

pub const GRAPHEME: u8 = 0b0000_0100;

pub const STR: u8 = 0b0000_1000;

/// The kinds of numbers that a number belongs to.
#[derive(Debug, Clone, Copy, PartialEq, Eq, Structural)]
pub struct TNum {
    pub bits: u8,
}

/// The kinds of texts that a text belongs to.
#[derive(Debug, Clone, Copy, PartialEq, Eq, Structural)]
pub struct TText {
    pub bits: u8,
}

impl TNum {
    /// The flags of both.
    pub fn union(self, other: TNum) -> (r: TNum)
        ensures
            r.bits == self.bits | other.bits,
    {
        TNum { bits: self.bits | other.bits }
    }

    /// Whether every flag of `other` is set.
    pub fn contains(self, other: TNum) -> (b: bool)
        ensures
            b == (self.bits & other.bits == other.bits),
    {
        self.bits & other.bits == other.bits
    }

    pub fn whole() -> (r: Self)
        ensures
            r.bits == 0b0011_1111,
    {
        let r = TNum { bits: WHOLE }.union(Self::natural());
        assert(0b0000_0001u8 | 0b0011_1110u8 == 0b0011_1111u8) by (bit_vector);
        r
    }

    pub fn natural() -> (r: Self)
        ensures
            r.bits == 0b0011_1110,
    {
        let r = TNum { bits: NAT }.union(Self::integer());
        assert(0b0000_0010u8 | 0b0011_1100u8 == 0b0011_1110u8) by (bit_vector);
        r
    }

    pub fn integer() -> (r: Self)
        ensures
            r.bits == 0b0011_1100,
    {
        let r = TNum { bits: INT }.union(Self::alg());
        assert(0b0000_0100u8 | 0b0011_1000u8 == 0b0011_1100u8) by (bit_vector);
        r
    }

    pub fn alg() -> (r: Self)
        ensures
            r.bits == 0b0011_1000,
    {
        let r = TNum { bits: ALG }.union(Self::real_number());
        assert(0b0000_1000u8 | 0b0011_0000u8 == 0b0011_1000u8) by (bit_vector);
        r
    }

    pub fn real_number() -> (r: Self)
        ensures
            r.bits == 0b0011_0000,
    {
        let r = TNum { bits: REAL }.union(Self::complex());
        assert(0b0001_0000u8 | 0b0010_0000u8 == 0b0011_0000u8) by (bit_vector);
        r
    }

    pub fn complex() -> (r: Self)
        ensures
            r.bits == 0b0010_0000,
    {
        TNum { bits: COMPLEX }
    }
}

impl TText {
    /// The flags of both.
    pub fn union(self, other: TText) -> (r: TText)
        ensures
            r.bits == self.bits | other.bits,
    {
        TText { bits: self.bits | other.bits }
    }

    /// Whether every flag of `other` is set.
    pub fn contains(self, other: TText) -> (b: bool)
        ensures
            b == (self.bits & other.bits == other.bits),
    {
        self.bits & other.bits == other.bits
    }

    pub fn ascii() -> (r: Self)
        ensures
            r.bits == 0b0000_1111,
    {
        let r = TText { bits: ASCII }.union(Self::char());
        assert(0b0000_0001u8 | 0b0000_1110u8 == 0b0000_1111u8) by (bit_vector);
        r
    }

    pub fn char() -> (r: Self)
        ensures
            r.bits == 0b0000_1110,
    {
        let r = TText { bits: CHAR }.union(Self::grapheme());
        assert(0b0000_0010u8 | 0b0000_1100u8 == 0b0000_1110u8) by (bit_vector);
        r
    }

    pub fn grapheme() -> (r: Self)
        ensures
            r.bits == 0b0000_1100,
    {
        let r = TText { bits: GRAPHEME }.union(Self::str());
        assert(0b0000_0100u8 | 0b0000_1000u8 == 0b0000_1100u8) by (bit_vector);
        r
    }

    pub fn str() -> (r: Self)
        ensures
            r.bits == 0b0000_1000,
    {
        TText { bits: STR }
    }
}

/// The kind of a value: a number, a text or a symbol.
#[derive(Debug, Clone, Copy, PartialEq, Eq, Structural)]
pub enum Type {
    Num(TNum),
    Text(TText),
    Symbol,
}

} // verus!
