//! An observer of on-chain state: pools, tokens and factories by address.
use vstd::prelude::*;
use crate::address::H160;
pub use crate::mapped_vec::MappedVec;

verus! {

/// Pools, tokens and factories by address; the values are handles of
/// types `P`, `T` and `F`.
pub struct ChainObserver<P, T, F> {
    pools: MappedVec<P>,
    tokens: MappedVec<T>,
    factories: MappedVec<F>,
}

impl<P, T, F> ChainObserver<P, T, F> {
    /// The three maps are well formed.
    pub closed spec fn wf(&self) -> bool {
        &&& self.pools.wf()
        &&& self.tokens.wf()
        &&& self.factories.wf()
    }

    /// The pool at an address.
    pub closed spec fn pool_at(&self, a: H160) -> Option<P> {
        self.pools.get_spec(a)
    }

    /// The token at an address.
    pub closed spec fn token_at(&self, a: H160) -> Option<T> {
        self.tokens.get_spec(a)
    }

    /// The factory at an address.
    pub closed spec fn factory_at(&self, a: H160) -> Option<F> {
        self.factories.get_spec(a)
    }

    /// An observer that knows nothing yet.
    pub fn new() -> (r: Self)
        ensures
            r.wf(),
            forall|a: H160| r.pool_at(a) is None && r.token_at(a) is None && r.factory_at(a) is None,
    {
        ChainObserver { pools: MappedVec::new(), tokens: MappedVec::new(), factories: MappedVec::new() }
    }

    /// Inserts or updates a pool under its address.
    pub fn add_pool(&mut self, addr: H160, pool: P)
        requires
            old(self).wf(),
        ensures
            final(self).wf(),
            final(self).pool_at(addr) == Some(pool),
            forall|a: H160| a != addr ==> #[trigger] final(self).pool_at(a) == old(self).pool_at(a),
            forall|a: H160| #[trigger] final(self).token_at(a) == old(self).token_at(a),
            forall|a: H160| #[trigger] final(self).factory_at(a) == old(self).factory_at(a),
    {
        self.pools.insert(addr, pool);
    }

    /// Inserts or updates a token under its address.
    pub fn add_token(&mut self, addr: H160, token: T)
        requires
            old(self).wf(),
        ensures
            final(self).wf(),
            final(self).token_at(addr) == Some(token),
            forall|a: H160| a != addr ==> #[trigger] final(self).token_at(a) == old(self).token_at(a),
            forall|a: H160| #[trigger] final(self).pool_at(a) == old(self).pool_at(a),
            forall|a: H160| #[trigger] final(self).factory_at(a) == old(self).factory_at(a),
    {
        self.tokens.insert(addr, token);
    }

    /// Inserts or updates a factory under its address.
    pub fn add_factory(&mut self, addr: H160, dex: F)
        requires
            old(self).wf(),
        ensures
            final(self).wf(),
            final(self).factory_at(addr) == Some(dex),
            forall|a: H160| a != addr ==> #[trigger] final(self).factory_at(a) == old(
                self,
            ).factory_at(a),
            forall|a: H160| #[trigger] final(self).pool_at(a) == old(self).pool_at(a),
            forall|a: H160| #[trigger] final(self).token_at(a) == old(self).token_at(a),
    {
        self.factories.insert(addr, dex);
    }

    /// The pool at an address.
    pub fn get_pool(&self, addr: &H160) -> (r: Option<&P>)
        requires
            self.wf(),
        ensures
            match self.pool_at(*addr) {
                Some(p) => r matches Some(x) && *x == p,
                None => r is None,
            },
    {
        self.pools.get(addr)
    }

    /// The token at an address.
    pub fn get_token(&self, addr: &H160) -> (r: Option<&T>)
        requires
            self.wf(),
        ensures
            match self.token_at(*addr) {
                Some(t) => r matches Some(x) && *x == t,
                None => r is None,
            },
    {
        self.tokens.get(addr)
    }

    /// The factory at an address.
    pub fn get_factory(&self, addr: &H160) -> (r: Option<&F>)
        requires
            self.wf(),
        ensures
            match self.factory_at(*addr) {
                Some(f) => r matches Some(x) && *x == f,
                None => r is None,
            },
    {
        self.factories.get(addr)
    }
}

} // verus!
