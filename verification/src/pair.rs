//! An unordered pair of tokens, kept with the smaller address first.
use vstd::prelude::*;
use crate::address::{H160, addr_lt, lemma_addr_order};
use crate::token::Token;
use crate::keyed::Key;

verus! {

/// Two tokens, `a` the one with the smaller address.
#[derive(Clone, Debug)]
pub struct Pair {
    pub a: Token,
    pub b: Token,
}

/// The addresses of a pair, as a key.
#[derive(Clone, Copy, Debug, PartialEq, Eq, Structural)]
pub struct PairKey {
    pub a: H160,
    pub b: H160,
}

impl Key for PairKey {
    fn same(&self, other: &Self) -> (r: bool) {
        *self == *other
    }
}

/// The addresses of a pair made of tokens with addresses `x` and `y`, in
/// the order the pair keeps them.
pub open spec fn pair_order(x: H160, y: H160) -> (H160, H160) {
    if addr_lt(x, y) {
        (x, y)
    } else {
        (y, x)
    }
}

impl Pair {
    /// The pair of two tokens, the one with the smaller address first
    /// (`token2` first when the addresses are equal).
    pub fn new(token1: Token, token2: Token) -> (r: Pair)
        ensures
            (r.a.address, r.b.address) == pair_order(token1.address, token2.address),
            addr_lt(token1.address, token2.address) ==> r.a == token1 && r.b == token2,
            !addr_lt(token1.address, token2.address) ==> r.a == token2 && r.b == token1,
            !addr_lt(r.b.address, r.a.address),
    {
        proof {
            lemma_addr_order(token1.address, token2.address, token1.address);
        }
        if token1.address.lt(&token2.address) {
            Pair { a: token1, b: token2 }
        } else {
            Pair { a: token2, b: token1 }
        }
    }

    /// The key of a pair: its two addresses.
    pub open spec fn key_spec(&self) -> PairKey {
        PairKey { a: self.a.address, b: self.b.address }
    }

    /// The addresses of the pair, as a key.
    pub fn key(&self) -> (r: PairKey)
        ensures
            r == self.key_spec(),
    {
        PairKey { a: self.a.address, b: self.b.address }
    }

    /// Two pairs are equal when their addresses are.
    pub fn eq(&self, other: &Pair) -> (r: bool)
        ensures
            r == (self.key_spec() == other.key_spec()),
    {
        self.a.address == other.a.address && self.b.address == other.b.address
    }
}

/// Building a pair does not depend on the order of the two tokens: the
/// same addresses come out either way.
pub proof fn lemma_pair_symmetric(x: H160, y: H160)
    ensures
        pair_order(x, y) == pair_order(y, x),
{
    lemma_addr_order(x, y, x);
    if x != y {
        lemma_addr_order(x, y, y);
    }
}

} // verus!
