//! The quote of a simulated swap.
use vstd::prelude::*;
use crate::address::H160;
use crate::uint::U256;

verus! {

/// A simulated swap through one pool: where, in which direction, how much in
/// and out, and the fee and price figures of the pool's formula.
#[derive(Clone, Debug, PartialEq, Eq)]
pub struct Trade {
    pub dex: String,
    pub version: String,
    pub fee: u32,
    pub token0: H160,
    pub token1: H160,
    pub pool: H160,
    pub from0: bool,
    pub amount_in: U256,
    pub amount_out: U256,
    pub price_impact: U256,
    pub fee_amount: U256,
    pub raw_price: U256,
}

} // verus!
