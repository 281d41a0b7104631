//! Which pool addresses the log subscriptions watch: one chunk per added
//! pool, collapsed into a single chunk when there are too many.
use vstd::prelude::*;
use crate::address::H160;

verus! {

/// A group of addresses watched by one subscription, the addresses no
/// longer wanted, and the subscription's id.
#[derive(Clone, Debug)]
pub struct Chunk {
    pub addrs: Vec<H160>,
    pub tombstones: Vec<H160>,
    pub id: u128,
}

/// The chunks being monitored.
pub struct Monitoring {
    pub chunks: Vec<Chunk>,
}

/// The largest number of chunks kept before they are collapsed into one.
pub open spec fn collapse_limit() -> nat {
    6
}

/// The addresses of the chunks.
pub open spec fn chunk_addrs(chunks: Seq<Chunk>) -> Set<H160> {
    Set::new(|a: H160| exists|i: int, j: int| 0 <= i < chunks.len() && 0 <= j < chunks[i].addrs@.len() && chunks[i].addrs@[j] == a)
}

/// The tombstones of the chunks.
pub open spec fn chunk_tombstones(chunks: Seq<Chunk>) -> Set<H160> {
    Set::new(|a: H160| exists|i: int, j: int| 0 <= i < chunks.len() && 0 <= j < chunks[i].tombstones@.len() && chunks[i].tombstones@[j] == a)
}

/// The result of collapsing chunks: the ids of the subscriptions to remove,
/// in order, and the new single chunk.
pub struct Collapse {
    pub removed: Vec<u128>,
    pub chunk: Chunk,
}

/// `c` collapses the chunks `cs` into one chunk with id `new_id`, and
/// `after` holds that chunk alone.
pub open spec fn collapsed(cs: Seq<Chunk>, new_id: u128, c: Collapse, after: Seq<Chunk>) -> bool {
    &&& c.removed@ == cs.map_values(|k: Chunk| k.id)
    &&& c.chunk.id == new_id
    &&& c.chunk.tombstones@.len() == 0
    &&& c.chunk.addrs@.no_duplicates()
    &&& c.chunk.addrs@.to_set() == chunk_addrs(cs).difference(chunk_tombstones(cs))
    &&& after.len() == 1
    &&& after[0].id == new_id
    &&& after[0].addrs@ == c.chunk.addrs@
    &&& after[0].tombstones@.len() == 0
}

/// An element occurs in a sequence with one more element when it occurs
/// before or is the new one.
proof fn lemma_push_contains<T>(s: Seq<T>, x: T, a: T)
    ensures
        s.push(x).contains(a) <==> (s.contains(a) || a == x),
{
    if s.push(x).contains(a) {
        let q = choose|q: int| 0 <= q < s.push(x).len() && s.push(x)[q] == a;
        if q < s.len() {
            assert(s[q] == a);
        }
    }
    if s.contains(a) {
        let q = choose|q: int| 0 <= q < s.len() && s[q] == a;
        assert(s.push(x)[q] == a);
    }
    if a == x {
        assert(s.push(x)[s.len() as int] == a);
    }
}

/// Whether the address occurs in the list.
fn listed(v: &Vec<H160>, a: H160) -> (r: bool)
    ensures
        r == v@.contains(a),
{
    let mut i: usize = 0;
    while i < v.len()
        invariant
            i <= v@.len(),
            forall|k: int| 0 <= k < i ==> v@[k] != a,
        decreases v@.len() - i,
    {
        if v[i] == a {
            assert(v@[i as int] == a);
            return true;
        }
        i = i + 1;
    }
    false
}

impl Monitoring {
    /// Nothing monitored.
    pub fn new() -> (r: Self)
        ensures
            r.chunks@.len() == 0,
    {
        Monitoring { chunks: Vec::new() }
    }

    /// Watches a pool in a chunk of its own with the given id; the result
    /// says whether there are now more chunks than the limit, the case in
    /// which they are collapsed.
    pub fn add_pool(&mut self, pool: H160, id: u128) -> (r: bool)
        ensures
            final(self).chunks@.len() == old(self).chunks@.len() + 1,
            forall|i: int| 0 <= i < old(self).chunks@.len() ==> final(self).chunks@[i] == old(self).chunks@[i],
            final(self).chunks@.last().addrs@ == seq![pool],
            final(self).chunks@.last().tombstones@.len() == 0,
            final(self).chunks@.last().id == id,
            r == (final(self).chunks@.len() > collapse_limit()),
    {
        let mut addrs: Vec<H160> = Vec::new();
        addrs.push(pool);
        self.chunks.push(Chunk { addrs, tombstones: Vec::new(), id });
        proof {
            assert(self.chunks@.last().addrs@ =~= seq![pool]);
        }
        self.chunks.len() > 6
    }

    /// With more chunks than the limit, replaces them by one chunk with the
    /// given id that watches their addresses but not their tombstones (each
    /// once), and gives the ids of the subscriptions to remove; else does
    /// nothing.
    pub fn check(&mut self, new_id: u128) -> (r: Option<Collapse>)
        ensures
            old(self).chunks@.len() <= collapse_limit() ==> r is None && final(self).chunks@ == old(self).chunks@,
            old(self).chunks@.len() > collapse_limit() ==> (r matches Some(c) && collapsed(old(self).chunks@, new_id, c, final(self).chunks@)),
    {
        let len = self.chunks.len();
        if len <= 6 {
            return None;
        }
        let ghost cs = self.chunks@;
        let mut removed: Vec<u128> = Vec::new();
        let mut tombs: Vec<H160> = Vec::new();
        let mut i: usize = 0;
        while i < len
            invariant
                len == self.chunks@.len(),
                self.chunks@ == cs,
                i <= len,
                removed@ == cs.take(i as int).map_values(|k: Chunk| k.id),
                forall|a: H160| #[trigger] tombs@.contains(a) <==> in_tombstones(cs, i as int, a),
            decreases len - i,
        {
            let c = &self.chunks[i];
            let mut j: usize = 0;
            let ghost before = tombs@;
            while j < c.tombstones.len()
                invariant
                    j <= c.tombstones@.len(),
                    forall|a: H160| #[trigger] tombs@.contains(a) <==> (before.contains(a) || in_prefix(c.tombstones@, j as int, a)),
                decreases c.tombstones@.len() - j,
            {
                let ghost pre = tombs@;
                tombs.push(c.tombstones[j]);
                proof {
                    assert forall|a: H160| #[trigger] tombs@.contains(a) <==> (before.contains(a) || in_prefix(c.tombstones@, j + 1, a)) by {
                        lemma_push_contains(pre, c.tombstones@[j as int], a);
                        lemma_in_prefix_step(c.tombstones@, j as int, a);
                        assert(pre.contains(a) <==> (before.contains(a) || in_prefix(c.tombstones@, j as int, a)));
                    }
                }
                j = j + 1;
            }
            removed.push(c.id);
            proof {
                assert(cs.take(i + 1) =~= cs.take(i as int).push(cs[i as int]));
                assert forall|a: H160| #[trigger] tombs@.contains(a) <==> in_tombstones(cs, i + 1, a) by {
                    assert(tombs@.contains(a) <==> (before.contains(a) || in_prefix(c.tombstones@, c.tombstones@.len() as int, a)));
                    assert(before.contains(a) <==> in_tombstones(cs, i as int, a));
                    lemma_in_tombstones_step(cs, i as int, a);
                }
            }
            i = i + 1;
        }
        let mut addrs: Vec<H160> = Vec::new();
        let mut i: usize = 0;
        while i < len
            invariant
                len == self.chunks@.len(),
                self.chunks@ == cs,
                i <= len,
                addrs@.no_duplicates(),
                forall|a: H160| #[trigger] tombs@.contains(a) <==> in_tombstones(cs, len as int, a),
                forall|a: H160| #[trigger] addrs@.contains(a) <==> (!tombs@.contains(a) && in_addrs(cs, i as int, a)),
            decreases len - i,
        {
            let c = &self.chunks[i];
            let mut j: usize = 0;
            let ghost before = addrs@;
            while j < c.addrs.len()
                invariant
                    j <= c.addrs@.len(),
                    addrs@.no_duplicates(),
                    forall|a: H160| #[trigger] addrs@.contains(a) <==> (before.contains(a) || (!tombs@.contains(a) && in_prefix(c.addrs@, j as int, a))),
                decreases c.addrs@.len() - j,
            {
                let a = c.addrs[j];
                let ghost pre = addrs@;
                let fresh = !listed(&tombs, a) && !listed(&addrs, a);
                if fresh {
                    addrs.push(a);
                    proof {
                        assert forall|p: int, q: int| 0 <= p < q < addrs@.len() implies addrs@[p] != addrs@[q] by {
                            if q == addrs@.len() - 1 {
                                assert(pre[p] == addrs@[p]);
                                assert(pre.contains(addrs@[p]));
                            }
                        }
                    }
                }
                proof {
                    assert forall|b: H160| #[trigger] addrs@.contains(b) <==> (before.contains(b) || (!tombs@.contains(b) && in_prefix(c.addrs@, j + 1, b))) by {
                        if fresh {
                            lemma_push_contains(pre, a, b);
                        }
                        lemma_in_prefix_step(c.addrs@, j as int, b);
                        assert(pre.contains(b) <==> (before.contains(b) || (!tombs@.contains(b) && in_prefix(c.addrs@, j as int, b))));
                    }
                }
                j = j + 1;
            }
            proof {
                assert forall|b: H160| #[trigger] addrs@.contains(b) <==> (!tombs@.contains(b) && in_addrs(cs, i + 1, b)) by {
                    assert(addrs@.contains(b) <==> (before.contains(b) || (!tombs@.contains(b) && in_prefix(c.addrs@, c.addrs@.len() as int, b))));
                    assert(before.contains(b) <==> (!tombs@.contains(b) && in_addrs(cs, i as int, b)));
                    lemma_in_addrs_step(cs, i as int, b);
                }
            }
            i = i + 1;
        }
        let new_chunk = Chunk { addrs: addrs.clone(), tombstones: Vec::new(), id: new_id };
        let mut fresh: Vec<Chunk> = Vec::new();
        fresh.push(Chunk { addrs, tombstones: Vec::new(), id: new_id });
        self.chunks = fresh;
        proof {
            assert(cs.take(len as int) =~= cs);
            assert forall|b: H160| new_chunk.addrs@.to_set().contains(b) <==> chunk_addrs(cs).difference(chunk_tombstones(cs)).contains(b) by {
                assert(new_chunk.addrs@.contains(b) <==> (!tombs@.contains(b) && in_addrs(cs, len as int, b)));
                lemma_in_addrs_all(cs, b);
                lemma_in_tombstones_all(cs, b);
            }
            assert(new_chunk.addrs@.to_set() =~= chunk_addrs(cs).difference(chunk_tombstones(cs)));
        }
        Some(Collapse { removed, chunk: new_chunk })
    }
}

/// The element occurs among the first `j` of the sequence.
pub open spec fn in_prefix(s: Seq<H160>, j: int, a: H160) -> bool {
    exists|y: int| 0 <= y < j && s[y] == a
}

/// The address is a tombstone of one of the first `i` chunks.
pub open spec fn in_tombstones(cs: Seq<Chunk>, i: int, a: H160) -> bool {
    exists|x: int| 0 <= x < i && #[trigger] in_prefix(cs[x].tombstones@, cs[x].tombstones@.len() as int, a)
}

/// The address is watched by one of the first `i` chunks.
pub open spec fn in_addrs(cs: Seq<Chunk>, i: int, a: H160) -> bool {
    exists|x: int| 0 <= x < i && #[trigger] in_prefix(cs[x].addrs@, cs[x].addrs@.len() as int, a)
}

proof fn lemma_in_prefix_step(s: Seq<H160>, j: int, a: H160)
    requires
        0 <= j < s.len(),
    ensures
        in_prefix(s, j + 1, a) <==> (in_prefix(s, j, a) || s[j] == a),
{
    if in_prefix(s, j + 1, a) {
        let y = choose|y: int| 0 <= y < j + 1 && s[y] == a;
        if y < j {
            assert(0 <= y < j && s[y] == a);
        }
    }
    if in_prefix(s, j, a) {
        let y = choose|y: int| 0 <= y < j && s[y] == a;
        assert(0 <= y < j + 1 && s[y] == a);
    }
    if s[j] == a {
        assert(0 <= j < j + 1 && s[j] == a);
    }
}

proof fn lemma_in_tombstones_step(cs: Seq<Chunk>, i: int, a: H160)
    requires
        0 <= i < cs.len(),
    ensures
        in_tombstones(cs, i + 1, a) <==> (in_tombstones(cs, i, a) || in_prefix(cs[i].tombstones@, cs[i].tombstones@.len() as int, a)),
{
    if in_tombstones(cs, i + 1, a) {
        let x = choose|x: int| 0 <= x < i + 1 && #[trigger] in_prefix(cs[x].tombstones@, cs[x].tombstones@.len() as int, a);
        if x < i {
            assert(0 <= x < i && in_prefix(cs[x].tombstones@, cs[x].tombstones@.len() as int, a));
        }
    }
    if in_tombstones(cs, i, a) {
        let x = choose|x: int| 0 <= x < i && #[trigger] in_prefix(cs[x].tombstones@, cs[x].tombstones@.len() as int, a);
        assert(0 <= x < i + 1 && in_prefix(cs[x].tombstones@, cs[x].tombstones@.len() as int, a));
    }
}

proof fn lemma_in_addrs_step(cs: Seq<Chunk>, i: int, a: H160)
    requires
        0 <= i < cs.len(),
    ensures
        in_addrs(cs, i + 1, a) <==> (in_addrs(cs, i, a) || in_prefix(cs[i].addrs@, cs[i].addrs@.len() as int, a)),
{
    if in_addrs(cs, i + 1, a) {
        let x = choose|x: int| 0 <= x < i + 1 && #[trigger] in_prefix(cs[x].addrs@, cs[x].addrs@.len() as int, a);
        if x < i {
            assert(0 <= x < i && in_prefix(cs[x].addrs@, cs[x].addrs@.len() as int, a));
        }
    }
    if in_addrs(cs, i, a) {
        let x = choose|x: int| 0 <= x < i && #[trigger] in_prefix(cs[x].addrs@, cs[x].addrs@.len() as int, a);
        assert(0 <= x < i + 1 && in_prefix(cs[x].addrs@, cs[x].addrs@.len() as int, a));
    }
}

proof fn lemma_in_addrs_all(cs: Seq<Chunk>, a: H160)
    ensures
        in_addrs(cs, cs.len() as int, a) <==> chunk_addrs(cs).contains(a),
{
    if in_addrs(cs, cs.len() as int, a) {
        let x = choose|x: int| 0 <= x < cs.len() && #[trigger] in_prefix(cs[x].addrs@, cs[x].addrs@.len() as int, a);
        let y = choose|y: int| 0 <= y < cs[x].addrs@.len() && cs[x].addrs@[y] == a;
        assert(0 <= x < cs.len() && 0 <= y < cs[x].addrs@.len() && cs[x].addrs@[y] == a);
    }
    if chunk_addrs(cs).contains(a) {
        let (x, y) = choose|x: int, y: int| 0 <= x < cs.len() && 0 <= y < cs[x].addrs@.len() && cs[x].addrs@[y] == a;
        assert(in_prefix(cs[x].addrs@, cs[x].addrs@.len() as int, a));
    }
}

proof fn lemma_in_tombstones_all(cs: Seq<Chunk>, a: H160)
    ensures
        in_tombstones(cs, cs.len() as int, a) <==> chunk_tombstones(cs).contains(a),
{
    if in_tombstones(cs, cs.len() as int, a) {
        let x = choose|x: int| 0 <= x < cs.len() && #[trigger] in_prefix(cs[x].tombstones@, cs[x].tombstones@.len() as int, a);
        let y = choose|y: int| 0 <= y < cs[x].tombstones@.len() && cs[x].tombstones@[y] == a;
        assert(0 <= x < cs.len() && 0 <= y < cs[x].tombstones@.len() && cs[x].tombstones@[y] == a);
    }
    if chunk_tombstones(cs).contains(a) {
        let (x, y) = choose|x: int, y: int| 0 <= x < cs.len() && 0 <= y < cs[x].tombstones@.len() && cs[x].tombstones@[y] == a;
        assert(in_prefix(cs[x].tombstones@, cs[x].tombstones@.len() as int, a));
    }
}

/// After a collapse one chunk is left, within the limit, so the next
/// check leaves the chunks as they are.
pub proof fn lemma_collapse_settles(cs: Seq<Chunk>, new_id: u128, c: Collapse, after: Seq<Chunk>)
    requires
        collapsed(cs, new_id, c, after),
    ensures
        after.len() <= collapse_limit(),
{
}

/// The addresses the chunks watch: their addresses less their tombstones.
pub open spec fn watched(chunks: Seq<Chunk>) -> Set<H160> {
    chunk_addrs(chunks).difference(chunk_tombstones(chunks))
}

/// A collapse keeps the watched addresses: the single chunk left watches
/// exactly what the chunks it replaces watched.
pub proof fn lemma_collapse_keeps_watched(cs: Seq<Chunk>, new_id: u128, c: Collapse, after: Seq<Chunk>)
    requires
        collapsed(cs, new_id, c, after),
    ensures
        watched(after) == watched(cs),
{
    assert(chunk_tombstones(after) =~= Set::<H160>::empty()) by {
        assert forall|a: H160| !chunk_tombstones(after).contains(a) by {
            if chunk_tombstones(after).contains(a) {
                let (i, j) = choose|i: int, j: int|
                    0 <= i < after.len() && 0 <= j < after[i].tombstones@.len()
                        && after[i].tombstones@[j] == a;
                assert(i == 0);
            }
        }
    }
    assert(chunk_addrs(after) =~= c.chunk.addrs@.to_set()) by {
        assert forall|a: H160| chunk_addrs(after).contains(a) <==> c.chunk.addrs@.to_set().contains(a) by {
            if chunk_addrs(after).contains(a) {
                let (i, j) = choose|i: int, j: int|
                    0 <= i < after.len() && 0 <= j < after[i].addrs@.len() && after[i].addrs@[j] == a;
                assert(i == 0);
                assert(c.chunk.addrs@[j] == a);
            }
            if c.chunk.addrs@.to_set().contains(a) {
                let j = choose|j: int| 0 <= j < c.chunk.addrs@.len() && c.chunk.addrs@[j] == a;
                assert(after[0].addrs@[j] == a);
            }
        }
    }
    assert(watched(after) =~= watched(cs));
}

} // verus!
