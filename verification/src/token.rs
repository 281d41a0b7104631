//! ERC-20 / BEP-20 token descriptions.
use vstd::prelude::*;
use crate::address::H160;

verus! {

/// A token: its name, address, symbol and decimals. Tokens are compared by
/// address alone.
#[derive(Clone, Debug)]
pub struct Token {
    pub name: String,
    pub address: H160,
    pub symbol: String,
    pub decimals: u8,
}

impl Token {
    pub fn new(name: String, address: H160, symbol: String, decimals: u8) -> (r: Token)
        ensures
            r.name@ == name@,
            r.address == address,
            r.symbol@ == symbol@,
            r.decimals == decimals,
    {
        Token { name, address, symbol, decimals }
    }

    /// Two tokens are equal when their addresses are.
    pub fn eq(&self, other: &Token) -> (r: bool)
        ensures
            r == (self.address == other.address),
    {
        self.address == other.address
    }
}

} // verus!
