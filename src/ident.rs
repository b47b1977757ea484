//! Identities and event categories as plain values.
use vstd::prelude::*;

verus! {

broadcast use vstd::array::group_array_axioms;

/// An identity that authorization proofs are issued against: an account key
/// or a contract hash, 32 bytes either way.
#[derive(Clone, Copy, Debug, PartialEq, Eq)]
pub struct Address {
    /// Whether the identity names a contract rather than an account.
    pub contract: bool,
    /// The account's public key or the contract's hash.
    pub key: [u8; 32],
}

impl Address {
    /// Whether `self` and `other` are the same identity.
    pub fn same(&self, other: &Address) -> (r: bool)
        ensures
            r == (*self == *other),
    {
        if self.contract != other.contract {
            return false;
        }
        let mut i: usize = 0;
        while i < 32
            invariant
                0 <= i <= 32,
                forall|j: int| 0 <= j < i ==> self.key[j] == other.key[j],
            decreases 32 - i,
        {
            if self.key[i] != other.key[i] {
                return false;
            }
            i = i + 1;
        }
        assert(self.key =~= other.key);
        true
    }
}

/// A short discriminator that classifies an event, such as `swap`.
#[derive(Clone, Debug, PartialEq, Eq)]
pub struct Symbol {
    pub bytes: Vec<u8>,
}

impl View for Symbol {
    type V = Seq<u8>;

    open spec fn view(&self) -> Seq<u8> {
        self.bytes@
    }
}

impl Symbol {
    /// A category with the given bytes.
    pub fn new(bytes: Vec<u8>) -> (r: Symbol)
        ensures
            r@ == bytes@,
    {
        Symbol { bytes }
    }

    /// Whether `self` and `other` hold the same bytes.
    pub fn same(&self, other: &Symbol) -> (r: bool)
        ensures
            r == (self@ == other@),
    {
        let n = self.bytes.len();
        if n != other.bytes.len() {
            return false;
        }
        let mut i: usize = 0;
        while i < n
            invariant
                0 <= i <= n,
                n == self@.len(),
                n == other@.len(),
                forall|j: int| 0 <= j < i ==> self@[j] == other@[j],
            decreases n - i,
        {
            if self.bytes[i] != other.bytes[i] {
                return false;
            }
            i = i + 1;
        }
        assert(self@ =~= other@);
        true
    }

    /// A copy holding the same bytes.
    pub fn duplicate(&self) -> (r: Symbol)
        ensures
            r@ == self@,
    {
        let bytes = self.bytes.clone();
        assert(bytes@ =~= self.bytes@);
        Symbol { bytes }
    }
}

} // verus!
