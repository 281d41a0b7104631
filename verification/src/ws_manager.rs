//! The log subscriptions and the addresses each one tracks; removing an
//! address ends every subscription that tracks it.
use vstd::prelude::*;
use crate::address::H160;

verus! {

/// A subscription: its receiver's id, its task handle (of type `H`) and the
/// addresses it tracks.
pub struct Subscription<H> {
    pub receiver_id: u128,
    pub handle: H,
    pub tracking: Vec<H160>,
}

/// The subscriptions, in the order they were added.
pub struct Subscriptions<H> {
    pub subs: Vec<Subscription<H>>,
}

/// Whether the address occurs in the list.
fn tracks(v: &Vec<H160>, a: &H160) -> (r: bool)
    ensures
        r == v@.contains(*a),
{
    let mut i: usize = 0;
    while i < v.len()
        invariant
            i <= v@.len(),
            forall|k: int| 0 <= k < i ==> v@[k] != *a,
        decreases v@.len() - i,
    {
        if v[i] == *a {
            assert(v@[i as int] == *a);
            return true;
        }
        i = i + 1;
    }
    false
}

/// The subscriptions of `s` that do not track `pool`, in order.
pub open spec fn kept<H>(s: Seq<Subscription<H>>, pool: H160) -> Seq<Subscription<H>>
    decreases s.len(),
{
    if s.len() == 0 {
        Seq::empty()
    } else if s.last().tracking@.contains(pool) {
        kept(s.drop_last(), pool)
    } else {
        kept(s.drop_last(), pool).push(s.last())
    }
}

/// The handles of the subscriptions of `s` that track `pool`, in order.
pub open spec fn dropped<H>(s: Seq<Subscription<H>>, pool: H160) -> Seq<H>
    decreases s.len(),
{
    if s.len() == 0 {
        Seq::empty()
    } else if s.last().tracking@.contains(pool) {
        dropped(s.drop_last(), pool).push(s.last().handle)
    } else {
        dropped(s.drop_last(), pool)
    }
}

impl<H> Subscriptions<H> {
    /// No subscriptions.
    pub fn new() -> (r: Self)
        ensures
            r.subs@.len() == 0,
    {
        Subscriptions { subs: Vec::new() }
    }

    /// Adds a subscription.
    pub fn add_subscription(&mut self, receiver_id: u128, handle: H, tracking: Vec<H160>)
        ensures
            final(self).subs@.len() == old(self).subs@.len() + 1,
            forall|i: int| 0 <= i < old(self).subs@.len() ==> final(self).subs@[i] == old(self).subs@[i],
            final(self).subs@.last().receiver_id == receiver_id,
            final(self).subs@.last().handle == handle,
            final(self).subs@.last().tracking@ == tracking@,
    {
        self.subs.push(Subscription { receiver_id, handle, tracking });
    }

    /// Removes every subscription that tracks the pool, keeping the others
    /// in order; the result holds the handles of those removed, in order,
    /// for them to be aborted.
    pub fn remove_subscription(&mut self, pool: &H160) -> (r: Vec<H>)
        ensures
            final(self).subs@ == kept(old(self).subs@, *pool),
            r@ == dropped(old(self).subs@, *pool),
    {
        let mut old_subs: Vec<Subscription<H>> = Vec::new();
        std::mem::swap(&mut old_subs, &mut self.subs);
        let ghost all = old_subs@;
        let total = old_subs.len();
        let mut removed: Vec<H> = Vec::new();
        let mut rest: Vec<Subscription<H>> = Vec::new();
        proof {
            assert(all.take(0) =~= Seq::<Subscription<H>>::empty());
        }
        let mut n: usize = 0;
        while old_subs.len() > 0
            invariant
                n <= all.len(),
                all.len() == total,
                old_subs@ == all.skip(n as int),
                rest@ == kept(all.take(n as int), *pool),
                removed@ == dropped(all.take(n as int), *pool),
            decreases old_subs@.len(),
        {
            let sub = old_subs.remove(0);
            proof {
                assert(all[n as int] == sub);
                assert(all.take(n + 1).drop_last() =~= all.take(n as int));
                assert(all.take(n + 1).last() == sub);
            }
            if tracks(&sub.tracking, pool) {
                removed.push(sub.handle);
            } else {
                rest.push(sub);
            }
            n = n + 1;
            proof {
                assert(old_subs@ =~= all.skip(n as int));
            }
        }
        proof {
            assert(all.take(n as int) =~= all);
        }
        self.subs = rest;
        removed
    }
}

/// No subscription kept tracks the pool, and the kept ones and the dropped
/// ones together are as many as there were.
pub proof fn lemma_remove_partition<H>(s: Seq<Subscription<H>>, pool: H160)
    ensures
        forall|i: int|
            0 <= i < kept(s, pool).len() ==> !(#[trigger] kept(s, pool)[i]).tracking@.contains(pool),
        kept(s, pool).len() + dropped(s, pool).len() == s.len(),
    decreases s.len(),
{
    if s.len() > 0 {
        lemma_remove_partition(s.drop_last(), pool);
    }
}

/// Subscriptions none of which tracks the pool are all kept.
proof fn lemma_none_tracks<H>(s: Seq<Subscription<H>>, pool: H160)
    requires
        forall|i: int| 0 <= i < s.len() ==> !(#[trigger] s[i]).tracking@.contains(pool),
    ensures
        kept(s, pool) == s,
        dropped(s, pool).len() == 0,
    decreases s.len(),
{
    if s.len() > 0 {
        assert(!s[s.len() - 1].tracking@.contains(pool));
        lemma_none_tracks(s.drop_last(), pool);
        assert(s.drop_last().push(s.last()) =~= s);
    }
}

/// Removing a pool a second time removes nothing and keeps every
/// subscription.
pub proof fn lemma_remove_twice<H>(s: Seq<Subscription<H>>, pool: H160)
    ensures
        kept(kept(s, pool), pool) == kept(s, pool),
        dropped(kept(s, pool), pool).len() == 0,
{
    lemma_remove_partition(s, pool);
    lemma_none_tracks(kept(s, pool), pool);
}

} // verus!
