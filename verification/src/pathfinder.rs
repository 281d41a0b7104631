//! The interface of a best-first search over a graph whose nodes turn into
//! connections, each scored by a heuristic.
use vstd::prelude::*;

verus! {

/// A connection between two nodes, reached from `i`, with its score `h`.
#[derive(Clone)]
pub struct Edge<K, H> {
    pub i: K,
    pub a: K,
    pub b: K,
    pub h: H,
}

/// A search over nodes `K` whose values `V` turn into connections.
pub trait Pathfind<K, V: IntoConnections, H> {
    /// The connections out of a node.
    fn get_connections(&mut self, from: K) -> Vec<V::Item>;

    /// The best open connection.
    fn evaluate(&self) -> Edge<K, H>;
}

/// A connection that can be scored and turned into an edge.
pub trait Heuristic<K, H> {
    fn get_h(&self) -> H;

    fn edge(&self) -> Edge<K, H>;
}

/// A node that can be turned into its connections.
pub trait IntoConnections {
    type Item;

    fn get_connections(&mut self) -> Vec<Self::Item>;
}

} // verus!
