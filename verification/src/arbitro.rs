//! The arbitrage state: the simulated pools, and for each token the pools
//! that trade it.
use vstd::prelude::*;
use crate::address::H160;
use crate::uint::{U256, modulus};
use crate::trade::Trade;
use crate::mapped_vec::MappedVec;
use crate::pool_action::PoolAction;
use crate::v_pool_sim::{AnyPoolSim, applied};
use crate::keyed::KeyedLists;

verus! {

/// The update a pool is to apply for an event: the amounts a swap moves
/// (in and out of the pool, token0 and token1), or the amounts a mint adds
/// or a burn removes.
#[derive(Clone, Copy, Debug, PartialEq, Eq, Structural)]
pub enum PoolUpdate {
    Swap { amount0_in: U256, amount1_in: U256, amount0_out: U256, amount1_out: U256 },
    Mint { amount0: U256, amount1: U256 },
    Burn { amount0: U256, amount1: U256 },
}

/// The update an event calls for. A V3 swap reports signed amounts; their
/// 256-bit words are passed as the amounts in, with nothing out.
pub open spec fn update_of(action: PoolAction) -> PoolUpdate {
    match action {
        PoolAction::SwapV2 { amount0_in, amount1_in, amount0_out, amount1_out, .. } => PoolUpdate::Swap {
            amount0_in,
            amount1_in,
            amount0_out,
            amount1_out,
        },
        PoolAction::MintV2 { amount0, amount1, .. } => PoolUpdate::Mint { amount0, amount1 },
        PoolAction::BurnV2 { amount0, amount1, .. } => PoolUpdate::Burn { amount0, amount1 },
        PoolAction::SwapV3 { amount0, amount1, .. } => PoolUpdate::Swap {
            amount0_in: amount0.raw,
            amount1_in: amount1.raw,
            amount0_out: U256 { w0: 0, w1: 0, w2: 0, w3: 0 },
            amount1_out: U256 { w0: 0, w1: 0, w2: 0, w3: 0 },
        },
        PoolAction::MintV3 { amount0, amount1, .. } => PoolUpdate::Mint { amount0, amount1 },
        PoolAction::BurnV3 { amount0, amount1, .. } => PoolUpdate::Burn { amount0, amount1 },
    }
}

/// What one pool adds to a token's list: one entry for each of its two
/// tokens that is `t`, each saying whether `t` is the pool's token0.
pub open spec fn pool_contribution(addr: H160, pool: AnyPoolSim, t: H160) -> Seq<(H160, bool)> {
    let first = if pool.tokens().0 == t {
        seq![(addr, pool.tokens().0 == t)]
    } else {
        Seq::empty()
    };
    let second = if pool.tokens().1 == t {
        seq![(addr, pool.tokens().0 == t)]
    } else {
        Seq::empty()
    };
    first + second
}

/// The list of a token built from pools in order.
pub open spec fn token_list(es: Seq<(H160, AnyPoolSim)>, t: H160) -> Seq<(H160, bool)>
    decreases es.len(),
{
    if es.len() == 0 {
        Seq::empty()
    } else {
        token_list(es.drop_last(), t) + pool_contribution(es.last().0, es.last().1, t)
    }
}

/// Some pool of the list trades the token.
pub open spec fn traded(es: Seq<(H160, AnyPoolSim)>, t: H160) -> bool {
    exists|i: int| 0 <= i < es.len() && (es[i].1.tokens().0 == t || es[i].1.tokens().1 == t)
}

/// The trades a hop finds: for each address, the quote of the pool with
/// that address (none where there is no such pool), in the order of the
/// addresses, skipping pools that quote nothing.
pub open spec fn flatten_trades(opts: Seq<Option<Trade>>) -> Seq<Trade>
    decreases opts.len(),
{
    if opts.len() == 0 {
        Seq::empty()
    } else {
        let rest = flatten_trades(opts.drop_last());
        match opts.last() {
            Some(t) => rest.push(t),
            None => rest,
        }
    }
}

/// One step of a hop through the pool at `addr`: when `before` knows a
/// pool there, it quotes `opt` for `amount` of `from` and takes its state
/// after the swap in `after`, every other address keeping its pool; when it
/// knows none, nothing is quoted and nothing changes.
pub open spec fn hop_step(
    before: MappedVec<AnyPoolSim>,
    from: H160,
    addr: H160,
    amount: U256,
    opt: Option<Trade>,
    after: MappedVec<AnyPoolSim>,
) -> bool {
    match before.get_spec(addr) {
        Some(p) => {
            &&& after.get_spec(addr) is Some
            &&& p.trade_step(amount, p.tokens().0 == from, opt, after.get_spec(addr)->0)
            &&& forall|b: H160| b != addr ==> #[trigger] after.get_spec(b) == before.get_spec(b)
        },
        None => {
            &&& opt is None
            &&& forall|b: H160| #[trigger] after.get_spec(b) == before.get_spec(b)
        },
    }
}

/// A hop through the addresses in order: `states` are the pools before
/// each step and after the last, `opts` the quotes of the steps.
pub open spec fn hop_run(
    states: Seq<MappedVec<AnyPoolSim>>,
    from: H160,
    addrs: Seq<H160>,
    amount: U256,
    opts: Seq<Option<Trade>>,
) -> bool {
    &&& states.len() == addrs.len() + 1
    &&& opts.len() == addrs.len()
    &&& forall|k: int|
        0 <= k < addrs.len() ==> #[trigger] hop_step(states[k], from, addrs[k], amount, opts[k], states[k + 1])
}

/// The first `opts.len()` steps of a hop from `start`: `states` are the
/// pools before each step and after the last one taken.
pub open spec fn hop_prefix(
    start: MappedVec<AnyPoolSim>,
    states: Seq<MappedVec<AnyPoolSim>>,
    from: H160,
    addrs: Seq<H160>,
    amount: U256,
    opts: Seq<Option<Trade>>,
) -> bool {
    &&& states.len() == opts.len() + 1
    &&& opts.len() <= addrs.len()
    &&& states[0] == start
    &&& forall|k: int|
        0 <= k < opts.len() ==> #[trigger] hop_step(states[k], from, addrs[k], amount, opts[k], states[k + 1])
}

/// The swap that a hop makes at `addr` from the pools `st` does not panic.
pub open spec fn step_admitted(st: MappedVec<AnyPoolSim>, from: H160, addr: H160, amount: U256) -> bool {
    match st.get_spec(addr) {
        Some(p) => p.trade_admitted(amount, p.tokens().0 == from),
        None => true,
    }
}

/// No swap of the hop panics: after every run of its first steps, the next
/// one is admitted by the pool it meets, in the state the earlier steps left.
pub open spec fn hop_admitted(
    pools: MappedVec<AnyPoolSim>,
    from: H160,
    addrs: Seq<H160>,
    amount: U256,
) -> bool {
    forall|states: Seq<MappedVec<AnyPoolSim>>, opts: Seq<Option<Trade>>|
        #[trigger] hop_prefix(pools, states, from, addrs, amount, opts) && opts.len() < addrs.len()
            ==> step_admitted(states.last(), from, addrs[opts.len() as int], amount)
}

/// The other token a listed pool leads to: the first of its two tokens that
/// differs from the pool's address (none when the pool is not known).
pub open spec fn other_token(pools: MappedVec<AnyPoolSim>, addr: H160) -> Seq<H160> {
    match pools.get_spec(addr) {
        Some(p) => if p.tokens().0 != addr {
            seq![p.tokens().0]
        } else if p.tokens().1 != addr {
            seq![p.tokens().1]
        } else {
            Seq::empty()
        },
        None => Seq::empty(),
    }
}

/// The other tokens of the listed pools, in order.
pub open spec fn other_tokens(pools: MappedVec<AnyPoolSim>, list: Seq<(H160, bool)>) -> Seq<H160>
    decreases list.len(),
{
    if list.len() == 0 {
        Seq::empty()
    } else {
        other_tokens(pools, list.drop_last()) + other_token(pools, list.last().0)
    }
}

/// The simulated pools by address, and for each token the pools that trade
/// it.
pub struct Arbitro {
    pub pools: MappedVec<AnyPoolSim>,
    pub pools_by_token: KeyedLists<H160, (H160, bool)>,
}

impl Arbitro {
    /// Indexes the pools of `c_src` by token; the pool map itself starts
    /// empty.
    pub fn new(c_src: MappedVec<AnyPoolSim>) -> (r: Self)
        ensures
            r.pools.wf(),
            r.pools.synced(),
            r.pools.entries().len() == 0,
            forall|t: H160| #[trigger] r.pools_by_token.list(t) == token_list(c_src.entries(), t),
            forall|t: H160| #[trigger] r.pools_by_token.has(t) == traded(c_src.entries(), t),
    {
        let pools = MappedVec::new();
        let mut pools_by_token = KeyedLists::new();
        let src = c_src.iter();
        let mut i: usize = 0;
        while i < src.len()
            invariant
                i <= src@.len(),
                src@ == c_src.entries(),
                forall|t: H160|
                    #[trigger] pools_by_token.list(t) == token_list(src@.subrange(0, i as int), t),
                forall|t: H160|
                    #[trigger] pools_by_token.has(t) == traded(src@.subrange(0, i as int), t),
            decreases src@.len() - i,
        {
            let pool_addr = src[i].0;
            let pool = &src[i].1;
            let tokens = pool.get_tokens();
            let ghost before = pools_by_token;
            let is0_first = pool.is_0(&tokens[0]);
            pools_by_token.push(tokens[0], (pool_addr, is0_first));
            let ghost between = pools_by_token;
            let is0_second = pool.is_0(&tokens[1]);
            pools_by_token.push(tokens[1], (pool_addr, is0_second));
            proof {
                let pre = src@.subrange(0, i as int);
                let post = src@.subrange(0, i + 1);
                assert(post.drop_last() =~= pre);
                assert(post.last() == src@[i as int]);
                assert forall|t: H160| #[trigger] pools_by_token.list(t) == token_list(post, t) by {
                    let c = pool_contribution(pool_addr, *pool, t);
                    if t == tokens[0] && t == tokens[1] {
                        assert(pools_by_token.list(t) == before.list(t).push(
                            (pool_addr, is0_first),
                        ).push((pool_addr, is0_second)));
                    } else if t == tokens[0] {
                        assert(pools_by_token.list(t) == between.list(t));
                    } else if t == tokens[1] {
                        assert(between.list(t) == before.list(t));
                    } else {
                        assert(between.list(t) == before.list(t));
                    }
                    assert(pools_by_token.list(t) =~= token_list(pre, t) + c);
                }
                assert forall|t: H160| #[trigger] pools_by_token.has(t) == traded(post, t) by {
                    if traded(pre, t) {
                        let k = choose|k: int|
                            0 <= k < pre.len() && (pre[k].1.tokens().0 == t || pre[k].1.tokens().1
                                == t);
                        assert(post[k] == pre[k]);
                    }
                    if traded(post, t) && t != tokens[0] && t != tokens[1] {
                        let k = choose|k: int|
                            0 <= k < post.len() && (post[k].1.tokens().0 == t
                                || post[k].1.tokens().1 == t);
                        assert(k != i);
                        assert(post[k] == pre[k]);
                    }
                    if t == tokens[0] || t == tokens[1] {
                        assert(post[i as int].1.tokens().0 == t || post[i as int].1.tokens().1 == t);
                    } else {
                        assert(between.has(t) == before.has(t));
                    }
                }
            }
            i = i + 1;
        }
        proof {
            assert(src@.subrange(0, src@.len() as int) =~= src@);
        }
        Self { pools, pools_by_token }
    }

    /// Applies an event to the pool at `addr` (which must be known): the
    /// pool takes the event's update (`applied`), every other pool and the
    /// token lists stay as they are; the update is returned.
    pub fn update_state(&mut self, addr: &H160, action: PoolAction) -> (r: PoolUpdate)
        requires
            old(self).pools.wf(),
            old(self).pools.get_spec(*addr) is Some,
        ensures
            r == update_of(action),
            final(self).pools.wf(),
            forall|b: H160| #[trigger] final(self).pools.index(b) == old(self).pools.index(b),
            final(self).pools.get_spec(*addr) matches Some(q) && applied(
                old(self).pools.get_spec(*addr)->0,
                r,
                q,
            ),
            forall|b: H160| b != *addr ==> #[trigger] final(self).pools.get_spec(b) == old(
                self,
            ).pools.get_spec(b),
            final(self).pools_by_token == old(self).pools_by_token,
    {
        let u = match action {
            PoolAction::SwapV2 { amount0_in, amount1_in, amount0_out, amount1_out, .. } => {
                PoolUpdate::Swap { amount0_in, amount1_in, amount0_out, amount1_out }
            },
            PoolAction::MintV2 { amount0, amount1, .. } => PoolUpdate::Mint { amount0, amount1 },
            PoolAction::BurnV2 { amount0, amount1, .. } => PoolUpdate::Burn { amount0, amount1 },
            PoolAction::SwapV3 { amount0, amount1, .. } => PoolUpdate::Swap {
                amount0_in: amount0.raw,
                amount1_in: amount1.raw,
                amount0_out: U256::zero(),
                amount1_out: U256::zero(),
            },
            PoolAction::MintV3 { amount0, amount1, .. } => PoolUpdate::Mint { amount0, amount1 },
            PoolAction::BurnV3 { amount0, amount1, .. } => PoolUpdate::Burn { amount0, amount1 },
        };
        let ghost prev = self.pools;
        match self.pools.position(addr) {
            Some(j) => {
                proof {
                    assert(prev.get_spec(*addr) == Some(prev.entries()[j as int].1));
                }
                let pool = self.pools.value_at_mut(j);
                pool.apply_update(u);
                proof {
                    self.pools.lemma_value_replaced(prev, j);
                }
            },
            None => {},
        }
        u
    }

    /// Quotes `amount` of `from` through each listed pool that is known, in
    /// order, applying each swap to the pool's simulation, and keeps the
    /// quotes that come out.
    pub fn evaluate_hop(
        &mut self,
        from: &H160,
        pools: Vec<H160>,
        phanton: Vec<H160>,
        amount: U256,
    ) -> (r: Vec<Trade>)
        requires
            old(self).pools.wf(),
            hop_admitted(old(self).pools, *from, pools@, amount),
        ensures
            final(self).pools.wf(),
            forall|b: H160| #[trigger] final(self).pools.index(b) == old(self).pools.index(b),
            final(self).pools_by_token == old(self).pools_by_token,
            exists|states: Seq<MappedVec<AnyPoolSim>>, opts: Seq<Option<Trade>>|
                {
                    &&& hop_run(states, *from, pools@, amount, opts)
                    &&& states[0] == old(self).pools
                    &&& states.last() == final(self).pools
                    &&& r@ == flatten_trades(opts)
                },
    {
        let mut trades: Vec<Trade> = Vec::new();
        let ghost mut opts: Seq<Option<Trade>> = Seq::empty();
        let ghost mut states: Seq<MappedVec<AnyPoolSim>> = seq![self.pools];
        let mut i: usize = 0;
        while i < pools.len()
            invariant
                i <= pools@.len(),
                self.pools.wf(),
                forall|b: H160| #[trigger] self.pools.index(b) == old(self).pools.index(b),
                self.pools_by_token == old(self).pools_by_token,
                hop_admitted(old(self).pools, *from, pools@, amount),
                opts.len() == i,
                states.len() == i + 1,
                states[0] == old(self).pools,
                states[i as int] == self.pools,
                forall|k: int|
                    0 <= k < i ==> #[trigger] hop_step(
                        states[k],
                        *from,
                        pools@[k],
                        amount,
                        opts[k],
                        states[k + 1],
                    ),
                trades@ == flatten_trades(opts),
            decreases pools@.len() - i,
        {
            let pool_addr = pools[i];
            let ghost prev = self.pools;
            proof {
                assert(hop_prefix(old(self).pools, states, *from, pools@, amount, opts));
                assert(step_admitted(prev, *from, pool_addr, amount));
            }
            let mut quote: Option<Trade> = None;
            match self.pools.position(&pool_addr) {
                Some(j) => {
                    proof {
                        assert(prev.get_spec(pool_addr) == Some(prev.entries()[j as int].1));
                        assert(prev.entries()[j as int].0 == pool_addr);
                    }
                    let pool = self.pools.value_at_mut(j);
                    let is0 = pool.is_0(from);
                    quote = pool.trade(amount, is0);
                    proof {
                        self.pools.lemma_value_replaced(prev, j);
                    }
                },
                None => {
                    proof {
                        assert(prev.get_spec(pool_addr) is None);
                    }
                },
            }
            proof {
                assert(hop_step(prev, *from, pool_addr, amount, quote, self.pools));
                let o = opts;
                opts = opts.push(quote);
                assert(opts.drop_last() =~= o);
                let st = states;
                states = states.push(self.pools);
                assert forall|k: int|
                    0 <= k < i + 1 implies #[trigger] hop_step(
                        states[k],
                        *from,
                        pools@[k],
                        amount,
                        opts[k],
                        states[k + 1],
                    ) by {
                    if k < i {
                        assert(states[k] == st[k]);
                        assert(states[k + 1] == st[k + 1]);
                        assert(opts[k] == o[k]);
                    }
                }
            }
            match quote {
                Some(t) => {
                    trades.push(t);
                },
                None => {},
            }
            i = i + 1;
        }
        proof {
            assert(hop_run(states, *from, pools@, amount, opts));
        }
        trades
    }

    /// The tokens one hop away from `from`: for each pool listed under
    /// `from`, the first of the pool's tokens that differs from the pool's
    /// address; the result holds `from` with them, or nothing when there
    /// are none.
    pub fn lazy_propagate(&mut self, from: &H160) -> (r: Vec<(H160, Vec<H160>)>)
        requires
            old(self).pools.wf(),
        ensures
            final(self).pools == old(self).pools,
            final(self).pools_by_token == old(self).pools_by_token,
            other_tokens(old(self).pools, old(self).pools_by_token.list(*from)).len() == 0
                ==> r@.len() == 0,
            other_tokens(old(self).pools, old(self).pools_by_token.list(*from)).len() > 0
                ==> r@.len() == 1 && r@[0].0 == *from && r@[0].1@ == other_tokens(
                old(self).pools,
                old(self).pools_by_token.list(*from),
            ),
    {
        let mut others: Vec<H160> = Vec::new();
        let ghost list = self.pools_by_token.list(*from);
        match self.pools_by_token.get(from) {
            Some(pools) => {
                let mut i: usize = 0;
                while i < pools.len()
                    invariant
                        i <= pools@.len(),
                        pools@ == list,
                        self.pools.wf(),
                        others@ == other_tokens(self.pools, list.subrange(0, i as int)),
                    decreases pools@.len() - i,
                {
                    let addr = pools[i].0;
                    match self.pools.get(&addr) {
                        Some(pool) => {
                            let tokens = pool.get_tokens();
                            if tokens[0] != addr {
                                others.push(tokens[0]);
                            } else if tokens[1] != addr {
                                others.push(tokens[1]);
                            }
                        },
                        None => {},
                    }
                    proof {
                        let pre = list.subrange(0, i as int);
                        let post = list.subrange(0, i + 1);
                        assert(post.drop_last() =~= pre);
                        assert(post.last() == list[i as int]);
                    }
                    i = i + 1;
                }
                proof {
                    assert(list.subrange(0, list.len() as int) =~= list);
                }
            },
            None => {
                proof {
                    assert(list =~= Seq::<(H160, bool)>::empty());
                }
            },
        }
        if others.len() == 0 {
            Vec::new()
        } else {
            let mut r: Vec<(H160, Vec<H160>)> = Vec::new();
            r.push((*from, others));
            r
        }
    }

    /// Gives the token an entry in the index, with no pools if it had none.
    pub fn add_token(&mut self, token_addr: H160)
        ensures
            final(self).pools == old(self).pools,
            final(self).pools_by_token.has(token_addr),
            forall|u: H160| u != token_addr ==> final(self).pools_by_token.has(u) == old(
                self,
            ).pools_by_token.has(u),
            forall|u: H160| #[trigger] final(self).pools_by_token.list(u) == old(
                self,
            ).pools_by_token.list(u),
    {
        self.pools_by_token.ensure(token_addr);
    }

    /// Registers a newly discovered pool simulation: inserts it into the
    /// pool map under its address, and lists it under its token0 (as
    /// token0) and its token1 (not as token0).
    pub fn add_pool(&mut self, pools_sim: AnyPoolSim)
        requires
            old(self).pools.wf(),
        ensures
            final(self).pools.wf(),
            final(self).pools.get_spec(pools_sim.address()) == Some(pools_sim),
            forall|b: H160|
                b != pools_sim.address() ==> final(self).pools.get_spec(b) == old(
                    self,
                ).pools.get_spec(b),
            old(self).pools.synced() ==> final(self).pools.synced(),
            forall|u: H160| #[trigger]
                final(self).pools_by_token.list(u) == old(self).pools_by_token.list(u) + (if u
                    == pools_sim.tokens().0 {
                    seq![(pools_sim.address(), true)]
                } else {
                    Seq::empty()
                }) + (if u == pools_sim.tokens().1 {
                    seq![(pools_sim.address(), false)]
                } else {
                    Seq::empty()
                }),
            forall|u: H160|
                final(self).pools_by_token.has(u) == (old(self).pools_by_token.has(u) || u
                    == pools_sim.tokens().0 || u == pools_sim.tokens().1),
    {
        let tokens = pools_sim.get_tokens();
        let token0: H160 = tokens[0];
        let token1 = tokens[1];
        let address = pools_sim.get_address();
        let ghost before = self.pools_by_token;
        self.pools_by_token.push(token0, (address, true));
        let ghost between = self.pools_by_token;
        self.pools_by_token.push(token1, (address, false));
        proof {
            assert forall|u: H160| #[trigger]
                self.pools_by_token.list(u) == before.list(u) + (if u == token0 {
                    seq![(address, true)]
                } else {
                    Seq::empty()
                }) + (if u == token1 {
                    seq![(address, false)]
                } else {
                    Seq::empty()
                }) by {
                if u == token0 && u == token1 {
                } else if u == token0 {
                    assert(self.pools_by_token.list(u) == between.list(u));
                } else if u == token1 {
                    assert(between.list(u) == before.list(u));
                } else {
                    assert(between.list(u) == before.list(u));
                }
                assert(self.pools_by_token.list(u) =~= before.list(u) + (if u == token0 {
                    seq![(address, true)]
                } else {
                    Seq::empty()
                }) + (if u == token1 {
                    seq![(address, false)]
                } else {
                    Seq::empty()
                }));
            }
            assert forall|u: H160|
                self.pools_by_token.has(u) == (before.has(u) || u == token0 || u == token1) by {
                if u != token0 && u != token1 {
                    assert(between.has(u) == before.has(u));
                }
            }
        }
        self.pools.insert(address, pools_sim);
    }
}

/// The update of an event has the event's kind and amounts: a burn gives a
/// burn of its two amounts, a mint a mint of its two amounts, a V2 swap a
/// swap of its four amounts, a V3 swap a swap of its two signed words in
/// and nothing out.
pub proof fn lemma_update_kind(a: PoolAction)
    ensures
        a matches PoolAction::BurnV2 { amount0, amount1, .. } ==> update_of(a) == (PoolUpdate::Burn {
            amount0,
            amount1,
        }),
        a matches PoolAction::BurnV3 { amount0, amount1, .. } ==> update_of(a) == (PoolUpdate::Burn {
            amount0,
            amount1,
        }),
        a matches PoolAction::MintV2 { amount0, amount1, .. } ==> update_of(a) == (PoolUpdate::Mint {
            amount0,
            amount1,
        }),
        a matches PoolAction::MintV3 { amount0, amount1, .. } ==> update_of(a) == (PoolUpdate::Mint {
            amount0,
            amount1,
        }),
        a matches PoolAction::SwapV2 { amount0_in, amount1_in, amount0_out, amount1_out, .. }
            ==> update_of(a) == (PoolUpdate::Swap { amount0_in, amount1_in, amount0_out, amount1_out }),
        a matches PoolAction::SwapV3 { amount0, amount1, .. } ==> update_of(a) == (PoolUpdate::Swap {
            amount0_in: amount0.raw,
            amount1_in: amount1.raw,
            amount0_out: U256 { w0: 0, w1: 0, w2: 0, w3: 0 },
            amount1_out: U256 { w0: 0, w1: 0, w2: 0, w3: 0 },
        }),
{
}

/// Applying a burn event never raises a simulated reserve, and applying a
/// mint event never lowers one.
pub proof fn lemma_burn_lowers_mint_raises(a: PoolAction, p: AnyPoolSim, q: AnyPoolSim)
    requires
        applied(p, update_of(a), q),
    ensures
        (a is BurnV2 || a is BurnV3) ==> match (p, q) {
            (AnyPoolSim::V2(x), AnyPoolSim::V2(y)) => y.reserves0.value() <= x.reserves0.value()
                && y.reserves1.value() <= x.reserves1.value(),
            _ => true,
        },
        (a is MintV2 || a is MintV3) ==> match (p, q) {
            (AnyPoolSim::V2(x), AnyPoolSim::V2(y)) => y.reserves0.value() >= x.reserves0.value()
                && y.reserves1.value() >= x.reserves1.value(),
            _ => true,
        },
{
    match p {
        AnyPoolSim::V2(x) => {
            crate::uint::lemma_value_bound(x.reserves0);
            crate::uint::lemma_value_bound(x.reserves1);
        },
        _ => {},
    }
}

/// A swap event moves a V2 simulation's reserves by what went in less what
/// came out, token by token, when no step saturates; a mint adds its amounts
/// and a burn takes them away.
pub proof fn lemma_update_moves_reserves(u: PoolUpdate, p: AnyPoolSim, q: AnyPoolSim)
    requires
        applied(p, u, q),
        p is V2,
    ensures
        q is V2,
        match (p, q, u) {
            (
                AnyPoolSim::V2(x),
                AnyPoolSim::V2(y),
                PoolUpdate::Swap { amount0_in, amount1_in, amount0_out, amount1_out },
            ) => {
                &&& x.reserves0.value() + amount0_in.value() < modulus() && amount0_out.value()
                    <= x.reserves0.value() + amount0_in.value() ==> y.reserves0.value()
                    == x.reserves0.value() + amount0_in.value() - amount0_out.value()
                &&& x.reserves1.value() + amount1_in.value() < modulus() && amount1_out.value()
                    <= x.reserves1.value() + amount1_in.value() ==> y.reserves1.value()
                    == x.reserves1.value() + amount1_in.value() - amount1_out.value()
            },
            (AnyPoolSim::V2(x), AnyPoolSim::V2(y), PoolUpdate::Mint { amount0, amount1 }) => {
                &&& x.reserves0.value() + amount0.value() < modulus() ==> y.reserves0.value()
                    == x.reserves0.value() + amount0.value()
                &&& x.reserves1.value() + amount1.value() < modulus() ==> y.reserves1.value()
                    == x.reserves1.value() + amount1.value()
            },
            (AnyPoolSim::V2(x), AnyPoolSim::V2(y), PoolUpdate::Burn { amount0, amount1 }) => {
                &&& amount0.value() <= x.reserves0.value() ==> y.reserves0.value()
                    == x.reserves0.value() - amount0.value()
                &&& amount1.value() <= x.reserves1.value() ==> y.reserves1.value()
                    == x.reserves1.value() - amount1.value()
            },
            _ => true,
        },
{
    match p {
        AnyPoolSim::V2(x) => {
            crate::uint::lemma_value_bound(x.reserves0);
            crate::uint::lemma_value_bound(x.reserves1);
        },
        _ => {},
    }
}

} // verus!
