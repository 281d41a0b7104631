//! A V3 pool as read from chain: its state, and how the replies of its
//! contract calls update it.
use vstd::prelude::*;
use std::collections::HashMap;
use crate::address::H160;
use crate::uint::U256;
use crate::token::Token;
use crate::tick_math::{
    Tick,
    div_euclid,
    word_index,
    word_indices,
    index_range,
    word_ticks_fit,
    collect_ticks_from_map,
    sorted,
    words_ticks,
};
use crate::v3_pool_sim::V3PoolSim;

verus! {

/// The ticks stand in increasing order of tick.
pub open spec fn ticks_sorted(s: Seq<Tick>) -> bool {
    forall|i: int, j: int| 0 <= i < j < s.len() ==> s[i].tick <= s[j].tick
}

/// Sorts ticks by tick (`sort_by_key`), keeping each as often as it occurs
/// and ticks with equal keys in their order.
pub fn sort_by_tick(v: Vec<Tick>) -> (r: Vec<Tick>)
    ensures
        ticks_sorted(r@),
        r@.to_multiset() == v@.to_multiset(),
{
    broadcast use vstd::seq_lib::group_to_multiset_ensures;

    let mut out: Vec<Tick> = Vec::new();
    let mut i: usize = 0;
    while i < v.len()
        invariant
            i <= v.len(),
            ticks_sorted(out@),
            out@.to_multiset() == v@.subrange(0, i as int).to_multiset(),
        decreases v.len() - i,
    {
        let x = v[i];
        let mut pos: usize = 0;
        while pos < out.len() && out[pos].tick <= x.tick
            invariant
                pos <= out.len(),
                forall|k: int| 0 <= k < pos ==> out@[k].tick <= x.tick,
            decreases out.len() - pos,
        {
            pos = pos + 1;
        }
        let ghost old_out = out@;
        out.insert(pos, x);
        proof {
            vstd::seq_lib::to_multiset_insert(old_out, pos as int, x);
            assert(out@ == old_out.insert(pos as int, x));
            assert(v@.subrange(0, i + 1) =~= v@.subrange(0, i as int).push(x));
            v@.subrange(0, i as int).to_multiset_ensures();
            assert forall|a: int, b: int| 0 <= a < b < out@.len() implies out@[a].tick
                <= out@[b].tick by {
                if b < pos {
                } else if b == pos {
                } else if a < pos {
                    assert(old_out[a].tick <= x.tick);
                    if pos < old_out.len() {
                        assert(old_out[pos as int].tick > x.tick);
                        assert(old_out[pos as int].tick <= old_out[b - 1].tick);
                    }
                } else if a == pos {
                    assert(old_out[pos as int].tick > x.tick);
                    assert(old_out[pos as int].tick <= old_out[b - 1].tick);
                } else {
                }
            }
        }
        i = i + 1;
    }
    proof {
        assert(v@.subrange(0, v@.len() as int) =~= v@);
    }
    out
}

/// The bitmap words to read around the current tick: the current tick's
/// word and one on each side.
pub fn nearest_word_indices(current_tick: i32, tick_spacing: i32) -> (r: Vec<i32>)
    requires
        tick_spacing != 0,
        !(current_tick == i32::MIN && tick_spacing == -1),
    ensures
        r@.map_values(|x: i32| x as int) == index_range(
            (current_tick as int / tick_spacing as int) / 256,
            1,
        ),
{
    let normalized_tick = div_euclid(current_tick, tick_spacing);
    let current_word_idx = word_index(normalized_tick);
    proof {
        let n = normalized_tick as int;
        assert(-0x8000_0000 <= n <= 0x7fff_ffff);
        assert(-0x80_0000 <= n / 256 <= 0x7f_ffff) by {
            vstd::arithmetic::div_mod::lemma_div_is_ordered(-0x8000_0000, n, 256);
            vstd::arithmetic::div_mod::lemma_div_is_ordered(n, 0x7fff_ffff, 256);
        }
    }
    word_indices(current_word_idx, 1)
}

/// A V3 pool as read from chain; the tokens are handles of type `T`.
#[derive(Debug)]
pub struct V3PoolSrc<T> {
    pub address: H160,
    pub token0: T,
    pub token1: T,
    pub exchange: String,
    pub version: String,
    pub fee: u32,
    pub current_tick: i32,
    pub active_ticks: Vec<Tick>,
    pub tick_spacing: i32,
    pub liquidity: U256,
    pub x96price: U256,
}

impl<T> V3PoolSrc<T> {
    /// A pool before its first reads: tick, spacing, liquidity and price
    /// zero, no ticks.
    pub fn new(address: H160, token0: T, token1: T, dex: String, version: String, fee: u32) -> (r:
        Self)
        ensures
            r.address == address,
            r.token0 == token0,
            r.token1 == token1,
            r.exchange@ == dex@,
            r.version@ == version@,
            r.fee == fee,
            r.current_tick == 0,
            r.active_ticks@.len() == 0,
            r.tick_spacing == 0,
            r.liquidity.value() == 0,
            r.x96price.value() == 0,
            ticks_sorted(r.active_ticks@),
    {
        V3PoolSrc {
            address,
            token0,
            token1,
            exchange: dex,
            version,
            fee,
            current_tick: 0,
            active_ticks: Vec::new(),
            tick_spacing: 0,
            liquidity: U256::zero(),
            x96price: U256::zero(),
        }
    }

    /// The reply of `tickSpacing()`: on success the spacing is recorded and
    /// the pool goes on to its first update (the result is `true`); on
    /// failure the pool is left as it is and not updated.
    pub fn apply_tick_spacing(&mut self, reply: Option<i32>) -> (r: bool)
        ensures
            r == reply is Some,
            reply matches Some(s) ==> final(self).tick_spacing == s,
            reply is None ==> final(self).tick_spacing == old(self).tick_spacing,
            final(self).current_tick == old(self).current_tick,
            final(self).liquidity == old(self).liquidity,
            final(self).x96price == old(self).x96price,
            final(self).active_ticks@ == old(self).active_ticks@,
            final(self).address == old(self).address,
            final(self).token0 == old(self).token0,
            final(self).token1 == old(self).token1,
            final(self).exchange == old(self).exchange,
            final(self).version == old(self).version,
            final(self).fee == old(self).fee,
    {
        match reply {
            Some(s) => {
                self.tick_spacing = s;
                true
            },
            None => false,
        }
    }

    /// The replies of `slot0()` (its price and tick) and `liquidity()`:
    /// each recorded when the call succeeded, each ignored when it failed.
    /// The result is the pool's address. The active ticks are read around
    /// the tick recorded here, so they are refreshed afterwards, by
    /// `update_active_ticks`; until then they stay as they were (and sorted
    /// when they were).
    pub fn update(&mut self, slot0: Option<(U256, i32)>, liquidity: Option<U256>) -> (r: H160)
        ensures
            r == old(self).address,
            final(self).address == old(self).address,
            final(self).token0 == old(self).token0,
            final(self).token1 == old(self).token1,
            final(self).exchange == old(self).exchange,
            final(self).version == old(self).version,
            final(self).fee == old(self).fee,
            final(self).tick_spacing == old(self).tick_spacing,
            final(self).active_ticks@ == old(self).active_ticks@,
            slot0 matches Some((p, t)) ==> final(self).x96price == p && final(self).current_tick
                == t,
            slot0 is None ==> final(self).x96price == old(self).x96price
                && final(self).current_tick == old(self).current_tick,
            liquidity matches Some(l) ==> final(self).liquidity == l,
            liquidity is None ==> final(self).liquidity == old(self).liquidity,
            ticks_sorted(old(self).active_ticks@) ==> ticks_sorted(final(self).active_ticks@),
    {
        match slot0 {
            Some((x96price, tick)) => {
                self.x96price = x96price;
                self.current_tick = tick;
            },
            None => {},
        }
        match liquidity {
            Some(l) => {
                self.liquidity = l;
            },
            None => {},
        }
        self.address
    }

    /// The ticks initialized in the bitmap words read around the current
    /// tick, whatever order the words are walked in.
    pub fn find_nearest_ticks(word_map: &HashMap<i32, U256>, tick_spacing: i32) -> (r: Vec<i32>)
        requires
            forall|k: i32|
                #[trigger] word_map@.contains_key(k) ==> word_ticks_fit(
                    word_map@[k].value(),
                    k as int,
                    tick_spacing as int,
                ),
        ensures
            sorted(r@),
            exists|entries: Seq<(i32, U256)>, unsorted: Seq<i32>|
                #![trigger entries.to_set(), unsorted.to_multiset()]
                {
                    &&& entries.to_set() == word_map@.kv_pairs()
                    &&& entries.no_duplicates()
                    &&& unsorted.map_values(|x: i32| x as int) == words_ticks(
                        entries,
                        tick_spacing as int,
                    )
                    &&& r@.to_multiset() == unsorted.to_multiset()
                },
    {
        collect_ticks_from_map(word_map, tick_spacing)
    }

    /// The data read for the nearest ticks become the active ticks, sorted
    /// by tick.
    pub fn update_active_ticks(&mut self, ticks: Vec<Tick>)
        ensures
            ticks_sorted(final(self).active_ticks@),
            final(self).active_ticks@.to_multiset() == ticks@.to_multiset(),
            final(self).address == old(self).address,
            final(self).token0 == old(self).token0,
            final(self).token1 == old(self).token1,
            final(self).exchange == old(self).exchange,
            final(self).version == old(self).version,
            final(self).fee == old(self).fee,
            final(self).current_tick == old(self).current_tick,
            final(self).tick_spacing == old(self).tick_spacing,
            final(self).liquidity == old(self).liquidity,
            final(self).x96price == old(self).x96price,
    {
        self.active_ticks = sort_by_tick(ticks);
    }

    /// The pool frozen for simulation, with the tokens as read now.
    pub fn into_sim(&self, token0: Token, token1: Token) -> (r: V3PoolSim)
        ensures
            r.address == self.address,
            r.fee == self.fee,
            r.exchange@ == self.exchange@,
            r.version@ == self.version@,
            r.token0.address == token0.address,
            r.token1.address == token1.address,
            r.tick_spacing == self.tick_spacing,
            r.active_ticks@ == self.active_ticks@,
            r.liquidity == self.liquidity,
            r.x96price == self.x96price,
    {
        let mut ticks: Vec<Tick> = Vec::new();
        let mut i: usize = 0;
        while i < self.active_ticks.len()
            invariant
                i <= self.active_ticks@.len(),
                ticks@ == self.active_ticks@.subrange(0, i as int),
            decreases self.active_ticks@.len() - i,
        {
            ticks.push(self.active_ticks[i]);
            proof {
                assert(ticks@ =~= self.active_ticks@.subrange(0, i + 1));
            }
            i = i + 1;
        }
        V3PoolSim::new(
            self.address,
            self.fee,
            self.exchange.clone(),
            self.version.clone(),
            token0,
            token1,
            self.tick_spacing,
            ticks,
            self.liquidity,
            self.x96price,
        )
    }
}

} // verus!
