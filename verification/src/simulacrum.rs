//! The simulation: the main arbitrage state, updated from confirmed pool
//! events, and phantom states tracked for pending ones.
use vstd::prelude::*;
use crate::address::H160;
use crate::uint::U256;
use crate::trade::Trade;
use crate::arbitro::{Arbitro, PoolUpdate, update_of};
use crate::keyed::KeyedLists;
use crate::pool_action::PoolAction;
use crate::v_pool_sim::{AnyPoolSim, applied};

verus! {

/// A pool as a pending transaction would leave it, with the trades found
/// from it.
pub struct PhantonState {
    pub block: u128,
    pub updated: AnyPoolSim,
    pub anchor: KeyedLists<H160, Trade>,
    pub trades: KeyedLists<H160, Trade>,
}

/// A path of trades.
pub struct Path {
    pub trades: Vec<Trade>,
    pub start_amount: U256,
    pub anchor_best: U256,
    pub amount_out: U256,
}

/// The USDT token on BNB Smart Chain,
/// 0x55d398326f99059fF775485246999027B3197955.
pub open spec fn usdt_anchor() -> H160 {
    H160 { hi: 0x55d39832, mid: 0x6f99059ff7754852, lo: 0x46999027b3197955 }
}

/// The USDC token on BNB Smart Chain,
/// 0x8ac76a51cc950d9822d68b83fe1ad97b32cd580d.
pub open spec fn usdc_anchor() -> H160 {
    H160 { hi: 0x8ac76a51, mid: 0xcc950d9822d68b83, lo: 0xfe1ad97b32cd580d }
}

/// The arbitrage state, the phantom states by pool, the stable coins from
/// which paths are evaluated at once, and the trades found.
pub struct Simulacrum {
    origin: Arbitro,
    state_tracker: KeyedLists<H160, PhantonState>,
    anchor_nodes: Vec<H160>,
    stored_trades: KeyedLists<H160, Trade>,
    stored_anchor_trades: KeyedLists<H160, Trade>,
}

impl Simulacrum {
    /// The main arbitrage state.
    pub closed spec fn origin(&self) -> Arbitro {
        self.origin
    }

    /// The phantom states of a pool, in the order they were recorded.
    pub closed spec fn phantoms(&self, key: H160) -> Seq<PhantonState> {
        self.state_tracker.list(key)
    }

    /// Whether a pool has phantom states recorded.
    pub closed spec fn watched(&self, key: H160) -> bool {
        self.state_tracker.has(key)
    }

    /// The anchor tokens.
    pub closed spec fn anchors(&self) -> Seq<H160> {
        self.anchor_nodes@
    }

    /// A simulation of `origin`, with no phantom states and the two stable
    /// coins as anchors.
    pub fn new(origin: Arbitro) -> (r: Self)
        ensures
            r.origin() == origin,
            forall|k: H160| !r.watched(k) && r.phantoms(k) == Seq::<PhantonState>::empty(),
            r.anchors() == seq![usdt_anchor(), usdc_anchor()],
    {
        let mut anchor_nodes: Vec<H160> = Vec::new();
        anchor_nodes.push(H160 { hi: 0x55d39832, mid: 0x6f99059ff7754852, lo: 0x46999027b3197955 });
        anchor_nodes.push(H160 { hi: 0x8ac76a51, mid: 0xcc950d9822d68b83, lo: 0xfe1ad97b32cd580d });
        let r = Self {
            origin,
            state_tracker: KeyedLists::new(),
            anchor_nodes,
            stored_trades: KeyedLists::new(),
            stored_anchor_trades: KeyedLists::new(),
        };
        proof {
            assert(r.anchors() =~= seq![usdt_anchor(), usdc_anchor()]);
        }
        r
    }

    /// A pending event on a pool: the result says whether the pool has
    /// phantom states, the case in which a note is printed; nothing changes.
    pub fn update_phanton_state(&mut self, addr: &H160, action: PoolAction) -> (r: bool)
        ensures
            r == old(self).watched(*addr),
            final(self).origin() == old(self).origin(),
            forall|k: H160| #[trigger] final(self).phantoms(k) == old(self).phantoms(k),
            forall|k: H160| #[trigger] final(self).watched(k) == old(self).watched(k),
    {
        match self.get(addr) {
            Some(_) => true,
            None => false,
        }
    }

    /// A confirmed event on a known pool: the main state applies its update
    /// to that pool, which is returned.
    pub fn update_main_state(&mut self, addr: &H160, action: PoolAction) -> (r: PoolUpdate)
        requires
            old(self).origin().pools.wf(),
            old(self).origin().pools.get_spec(*addr) is Some,
        ensures
            r == update_of(action),
            final(self).origin().pools.wf(),
            forall|b: H160| #[trigger] final(self).origin().pools.index(b) == old(self).origin().pools.index(b),
            final(self).origin().pools.get_spec(*addr) matches Some(q) && applied(
                old(self).origin().pools.get_spec(*addr)->0,
                r,
                q,
            ),
            forall|b: H160| b != *addr ==> #[trigger] final(self).origin().pools.get_spec(b) == old(
                self,
            ).origin().pools.get_spec(b),
            final(self).origin().pools_by_token == old(self).origin().pools_by_token,
            forall|k: H160| #[trigger] final(self).phantoms(k) == old(self).phantoms(k),
            forall|k: H160| #[trigger] final(self).watched(k) == old(self).watched(k),
    {
        self.origin.update_state(addr, action)
    }

    /// Records a phantom state for a pool, after those it has.
    pub fn modify(&mut self, key: H160, tracker: PhantonState)
        ensures
            final(self).watched(key),
            final(self).phantoms(key) == old(self).phantoms(key).push(tracker),
            forall|k: H160| k != key ==> #[trigger] final(self).phantoms(k) == old(self).phantoms(k),
            forall|k: H160| k != key ==> #[trigger] final(self).watched(k) == old(self).watched(k),
            final(self).origin() == old(self).origin(),
    {
        self.state_tracker.push(key, tracker);
    }

    /// A newly found pool joins the main state (`Arbitro::add_pool`); the
    /// phantom states stay as they are.
    pub fn add_pool(&mut self, pool: AnyPoolSim)
        requires
            old(self).origin().pools.wf(),
        ensures
            final(self).origin().pools.wf(),
            final(self).origin().pools.get_spec(pool.address()) == Some(pool),
            forall|b: H160|
                b != pool.address() ==> #[trigger] final(self).origin().pools.get_spec(b) == old(
                    self,
                ).origin().pools.get_spec(b),
            forall|u: H160| #[trigger]
                final(self).origin().pools_by_token.list(u) == old(self).origin().pools_by_token.list(u)
                    + (if u == pool.tokens().0 {
                    seq![(pool.address(), true)]
                } else {
                    Seq::empty()
                }) + (if u == pool.tokens().1 {
                    seq![(pool.address(), false)]
                } else {
                    Seq::empty()
                }),
            forall|k: H160| #[trigger] final(self).phantoms(k) == old(self).phantoms(k),
            forall|k: H160| #[trigger] final(self).watched(k) == old(self).watched(k),
    {
        self.origin.add_pool(pool);
    }

    /// Whether the main state has a pool at the address.
    pub fn knows_pool(&self, addr: &H160) -> (r: bool)
        requires
            self.origin().pools.wf(),
        ensures
            r == self.origin().pools.get_spec(*addr) is Some,
    {
        match self.origin.pools.get(addr) {
            Some(_) => true,
            None => false,
        }
    }

    /// The phantom states of a pool, if it has an entry.
    pub fn get(&self, key: &H160) -> (r: Option<&Vec<PhantonState>>)
        ensures
            r is Some <==> self.watched(*key),
            r matches Some(v) ==> v@ == self.phantoms(*key),
    {
        self.state_tracker.get(key)
    }
}

} // verus!
