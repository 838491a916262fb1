//! Identities on the ledger: addresses and symbols.

use vstd::prelude::*;

verus! {

/// A value that can key a [`crate::table::Table`]: it has a place in a total
/// order, and no two values share a place.
pub trait Key: Copy {
    /// The place of the value in its type's order.
    spec fn rank(self) -> int;

    /// Values that share a place are equal.
    proof fn rank_is_injective(self, other: Self)
        requires
            self.rank() == other.rank(),
        ensures
            self == other,
    ;

    /// Whether `self` comes before `other`.
    fn precedes(&self, other: &Self) -> (b: bool)
        ensures
            b == (self.rank() < other.rank()),
    ;
}

/// An account or a contract, by the 256-bit key that names it.
///
/// Accounts order before contracts, and each by its key read as one big-endian
/// number, which is how the ledger itself orders addresses.
#[derive(Clone, Copy, Debug, PartialEq, Eq, Structural, Hash)]
pub struct Address {
    /// Whether this names a contract (else an account).
    pub contract: bool,
    /// The upper half of the key.
    pub hi: u128,
    /// The lower half of the key.
    pub lo: u128,
}

impl Address {
    /// The account with this key.
    pub fn account(hi: u128, lo: u128) -> (a: Address)
        ensures
            a == (Address { contract: false, hi, lo }),
    {
        Address { contract: false, hi, lo }
    }

    /// The contract with this key.
    pub fn contract(hi: u128, lo: u128) -> (a: Address)
        ensures
            a == (Address { contract: true, hi, lo }),
    {
        Address { contract: true, hi, lo }
    }
}

impl Key for Address {
    open spec fn rank(self) -> int {
        (if self.contract {
            0x1_00000000_00000000_00000000_00000000_00000000_00000000_00000000_00000000int
        } else {
            0
        }) + self.hi * 0x1_00000000_00000000_00000000_00000000int + self.lo
    }

    proof fn rank_is_injective(self, other: Self) {
    }

    fn precedes(&self, other: &Self) -> (b: bool) {
        if self.contract != other.contract {
            other.contract
        } else if self.hi != other.hi {
            self.hi < other.hi
        } else {
            self.lo < other.lo
        }
    }
}

/// A short name: up to 32 ASCII characters, left-justified and zero-padded,
/// read as one big-endian number.
#[derive(Clone, Copy, Debug, PartialEq, Eq, Structural, Hash)]
pub struct Symbol {
    /// The first sixteen characters.
    pub hi: u128,
    /// The last sixteen characters.
    pub lo: u128,
}

impl Symbol {
    /// The symbol of at most sixteen characters with this packed text.
    pub fn short(text: u128) -> (s: Symbol)
        ensures
            s == Symbol::of(text),
    {
        Symbol { hi: text, lo: 0 }
    }

    /// What [`Symbol::short`] returns.
    pub open spec fn of(text: u128) -> Symbol {
        Symbol { hi: text, lo: 0 }
    }
}

impl Key for Symbol {
    open spec fn rank(self) -> int {
        self.hi * 0x1_00000000_00000000_00000000_00000000int + self.lo
    }

    proof fn rank_is_injective(self, other: Self) {
    }

    fn precedes(&self, other: &Self) -> (b: bool) {
        if self.hi != other.hi {
            self.hi < other.hi
        } else {
            self.lo < other.lo
        }
    }
}

impl Key for u64 {
    open spec fn rank(self) -> int {
        self as int
    }

    proof fn rank_is_injective(self, other: Self) {
    }

    fn precedes(&self, other: &Self) -> (b: bool) {
        *self < *other
    }
}

} // verus!
