//! Navigable proximity graph over arena-allocated dense ids.
//!
//! Nodes live in an arena; a node is its index, and adjacency is a
//! list of indices bounded by a maximum degree — no pointers, so
//! traversal stays cache-friendly and cycles cannot dangle. Insertion
//! links a new node to its nearest predecessors (chosen by the proven
//! top-k selection) and back-links each of them, re-pruning their
//! lists to the degree bound by keeping the closest. Search runs a
//! bounded best-first expansion from the entry node with an
//! exploration budget `ef` (at least `k`): every candidate it returns
//! carries the true distance key of a real node, and an empty graph
//! yields an empty result rather than an error.

use vstd::prelude::*;
use vstd::relations::sorted_by;
use crate::arrays::{FloatVector, elems_of, vector_len};
use crate::candidate::{Candidate, cand_order};
use crate::error::Error;
use crate::keys::{dist_key, dist_key_of};
use crate::metric::DistanceType;
use crate::topk::{is_top_k, top_k};

verus! {

/// A single-layer navigable proximity graph.
#[derive(Debug)]
pub struct GraphIndex {
    /// Metric used for edge selection and search.
    pub metric_type: DistanceType,
    /// Dimension every stored vector must have.
    pub dimension: usize,
    /// Maximum neighbors a node may keep.
    pub max_degree: usize,
    /// The node arena: a node is its index here.
    pub vectors: Vec<FloatVector>,
    /// Adjacency lists, aligned with `vectors`.
    pub neighbors: Vec<Vec<usize>>,
}

impl GraphIndex {
    /// Arena and adjacency aligned, every vector of the graph's
    /// dimension, every list within the degree bound, every edge a
    /// valid node id.
    pub open spec fn wf(self) -> bool {
        &&& self.max_degree >= 1
        &&& self.vectors@.len() == self.neighbors@.len()
        &&& forall|i: int|
            0 <= i < self.vectors@.len() ==> elems_of(#[trigger] self.vectors@[i]).len()
                == self.dimension
        &&& forall|i: int|
            0 <= i < self.neighbors@.len() ==> (#[trigger] self.neighbors@[i])@.len()
                <= self.max_degree
        &&& forall|i: int, j: int|
            0 <= i < self.neighbors@.len() && 0 <= j < self.neighbors@[i]@.len() ==> (
            #[trigger] self.neighbors@[i]@[j]) < self.vectors@.len()
    }

    /// The candidates a scan over all nodes yields for a query: node
    /// id and true distance key, in arena order.
    pub open spec fn node_cands(self, q: Seq<u32>) -> Seq<Candidate> {
        Seq::new(
            self.vectors@.len(),
            |i: int|
                Candidate {
                    row_id: i as u64,
                    dist: dist_key_of(self.metric_type, q, elems_of(self.vectors@[i])),
                },
        )
    }

    /// An empty graph.
    pub fn new(metric_type: DistanceType, dimension: usize, max_degree: usize) -> (r: GraphIndex)
        requires
            max_degree >= 1,
        ensures
            r.wf(),
            r.metric_type == metric_type,
            r.dimension == dimension,
            r.max_degree == max_degree,
            r.vectors@.len() == 0,
    {
        GraphIndex { metric_type, dimension, max_degree, vectors: Vec::new(), neighbors: Vec::new() }
    }

    /// Scans all nodes for a query, yielding `node_cands`.
    fn scan_nodes(&self, q: &FloatVector) -> (r: Vec<Candidate>)
        requires
            self.wf(),
            elems_of(*q).len() == self.dimension,
        ensures
            r@ == self.node_cands(elems_of(*q)),
    {
        let mut out: Vec<Candidate> = Vec::new();
        let mut i: usize = 0;
        while i < self.vectors.len()
            invariant
                i <= self.vectors@.len(),
                self.wf(),
                elems_of(*q).len() == self.dimension,
                out@.len() == i,
                forall|n: int| 0 <= n < i ==> out@[n] == self.node_cands(elems_of(*q))[n],
            decreases self.vectors@.len() - i,
        {
            let d = dist_key(self.metric_type, q, &self.vectors[i]);
            out.push(Candidate { row_id: i as u64, dist: d });
            i += 1;
        }
        proof {
            assert(out@ =~= self.node_cands(elems_of(*q)));
        }
        out
    }

    /// Turns a selection of node candidates into their node ids.
    fn cand_ids(&self, sel: &Vec<Candidate>) -> (r: Vec<usize>)
        requires
            self.wf(),
            forall|i: int|
                0 <= i < sel@.len() ==> (#[trigger] sel@[i]).row_id < self.vectors@.len(),
        ensures
            r@.len() == sel@.len(),
            forall|i: int|
                0 <= i < r@.len() ==> #[trigger] r@[i] == sel@[i].row_id
                    && r@[i] < self.vectors@.len(),
    {
        let bound = self.vectors.len();
        let mut out: Vec<usize> = Vec::new();
        let mut i: usize = 0;
        while i < sel.len()
            invariant
                i <= sel@.len(),
                self.wf(),
                bound == self.vectors@.len(),
                forall|n: int|
                    0 <= n < sel@.len() ==> (#[trigger] sel@[n]).row_id < self.vectors@.len(),
                out@.len() == i,
                forall|n: int|
                    0 <= n < i ==> #[trigger] out@[n] == sel@[n].row_id
                        && out@[n] < self.vectors@.len(),
            decreases sel@.len() - i,
        {
            proof {
                assert(sel@[i as int].row_id < bound);
            }
            out.push(sel[i].row_id as usize);
            i += 1;
        }
        out
    }

    /// Inserts a vector as a new node: its neighbors are the up to
    /// `max_degree` nearest existing nodes (by the proven top-k
    /// selection over a full scan), and each chosen neighbor is
    /// back-linked, its own list re-pruned to the closest within the
    /// degree bound. A vector of the wrong dimension is rejected and
    /// nothing changes.
    pub fn insert(&mut self, v: FloatVector) -> (r: Result<usize, Error>)
        requires
            old(self).wf(),
        ensures
            final(self).wf(),
            final(self).metric_type == old(self).metric_type,
            final(self).dimension == old(self).dimension,
            final(self).max_degree == old(self).max_degree,
            match r {
                Result::Ok(id) => {
                    &&& elems_of(v).len() == old(self).model_dim()
                    &&& id == old(self).vectors@.len()
                    &&& final(self).vectors@ == old(self).vectors@.push(v)
                    &&& exists|sel: Seq<Candidate>|
                        #[trigger] is_top_k(
                            old(self).node_cands(elems_of(v)),
                            old(self).max_degree as int,
                            sel,
                        ) && final(self).neighbors@[id as int]@.len() == sel.len() && (forall|
                            j: int,
                        |
                            0 <= j < sel.len() ==> final(self).neighbors@[id as int]@[j]
                                == sel[j].row_id)
                },
                Result::Err(e) => {
                    &&& elems_of(v).len() != old(self).model_dim()
                    &&& e == (Error::DimensionMismatch {
                        expected: old(self).dimension,
                        actual: elems_of(v).len() as usize,
                    })
                    &&& *final(self) == *old(self)
                },
            },
    {
        let len = vector_len(&v);
        if len != self.dimension {
            return Err(Error::DimensionMismatch { expected: self.dimension, actual: len });
        }
        let id = self.vectors.len();
        let cands = self.scan_nodes(&v);
        let sel = top_k(&cands, self.max_degree);
        proof {
            broadcast use vstd::seq_lib::group_to_multiset_ensures;

            assert forall|i: int| 0 <= i < sel@.len() implies (#[trigger] sel@[i]).row_id
                < self.vectors@.len() by {
                assert(sel@.contains(sel@[i]));
                assert(sel@.to_multiset().count(sel@[i]) > 0);
                assert(cands@.to_multiset().count(sel@[i]) > 0);
                assert(cands@.contains(sel@[i]));
                let j = choose|j: int| 0 <= j < cands@.len() && cands@[j] == sel@[i];
                assert(cands@[j].row_id == j as u64);
            }
        }
        let links = self.cand_ids(&sel);
        self.vectors.push(v);
        self.neighbors.push(links);
        // Back-link each chosen neighbor, keeping its closest
        // neighbors within the degree bound.
        let mut s: usize = 0;
        let ghost frozen = *self;
        while s < sel.len()
            invariant
                s <= sel@.len(),
                self.wf(),
                self.metric_type == frozen.metric_type,
                self.dimension == frozen.dimension,
                self.max_degree == frozen.max_degree,
                self.vectors@ == frozen.vectors@,
                self.neighbors@.len() == frozen.neighbors@.len(),
                id + 1 == self.vectors@.len(),
                self.neighbors@[id as int] == frozen.neighbors@[id as int],
                forall|i: int|
                    0 <= i < sel@.len() ==> (#[trigger] sel@[i]).row_id < id,
            decreases sel@.len() - s,
        {
            let nb = sel[s].row_id as usize;
            if nb != id {
                self.relink(nb, id);
            }
            s += 1;
        }
        proof {
            let sel_view = sel@;
            assert(is_top_k(
                old(self).node_cands(elems_of(v)),
                old(self).max_degree as int,
                sel_view,
            ));
            assert forall|j: int| 0 <= j < sel_view.len() implies self.neighbors@[id as int]@[j]
                == sel_view[j].row_id by {}
        }
        Ok(id)
    }

    /// The graph's dimension, for contracts.
    pub open spec fn model_dim(self) -> int {
        self.dimension as int
    }

    /// Re-links node `nb` to include `new_id`, keeping the closest
    /// nodes within the degree bound.
    fn relink(&mut self, nb: usize, new_id: usize) -> (r: ())
        requires
            old(self).wf(),
            nb < old(self).neighbors@.len(),
            new_id < old(self).vectors@.len(),
            nb != new_id,
        ensures
            final(self).wf(),
            final(self).metric_type == old(self).metric_type,
            final(self).dimension == old(self).dimension,
            final(self).max_degree == old(self).max_degree,
            final(self).vectors@ == old(self).vectors@,
            final(self).neighbors@.len() == old(self).neighbors@.len(),
            forall|i: int|
                0 <= i < old(self).neighbors@.len() && i != nb ==> final(self).neighbors@[i]
                    == old(self).neighbors@[i],
    {
        let base = &self.vectors[nb];
        let old_list = &self.neighbors[nb];
        let mut cands: Vec<Candidate> = Vec::new();
        let mut i: usize = 0;
        while i < old_list.len()
            invariant
                i <= old_list@.len(),
                self.wf(),
                nb < self.neighbors@.len(),
                old_list@ == self.neighbors@[nb as int]@,
                base == &self.vectors@[nb as int],
                cands@.len() == i,
                forall|n: int|
                    0 <= n < i ==> (#[trigger] cands@[n]).row_id < self.vectors@.len(),
            decreases old_list@.len() - i,
        {
            let other = old_list[i];
            let d = dist_key(self.metric_type, base, &self.vectors[other]);
            cands.push(Candidate { row_id: other as u64, dist: d });
            i += 1;
        }
        let d_new = dist_key(self.metric_type, base, &self.vectors[new_id]);
        cands.push(Candidate { row_id: new_id as u64, dist: d_new });
        let keep = top_k(&cands, self.max_degree);
        proof {
            broadcast use vstd::seq_lib::group_to_multiset_ensures;

            assert forall|i2: int| 0 <= i2 < keep@.len() implies (#[trigger] keep@[i2]).row_id
                < self.vectors@.len() by {
                assert(keep@.contains(keep@[i2]));
                assert(keep@.to_multiset().count(keep@[i2]) > 0);
                assert(cands@.to_multiset().count(keep@[i2]) > 0);
                assert(cands@.contains(keep@[i2]));
            }
        }
        let pruned = self.cand_ids(&keep);
        let ghost old_nbrs = self.neighbors@;
        let dropped = self.neighbors.remove(nb);
        let _ = dropped;
        self.neighbors.insert(nb, pruned);
        proof {
            assert(self.neighbors@ =~= old_nbrs.update(nb as int, self.neighbors@[nb as int]));
        }
    }

    /// Bounded best-first search from the entry node: explores up to
    /// `ef` expansion steps (`ef` at least `k`, the recall/speed
    /// knob) and returns the best `k` nodes seen. Every returned
    /// candidate is a real node with its true distance key; an empty
    /// graph returns an empty result; a query of the wrong dimension
    /// is rejected.
    pub fn search(&self, q: &FloatVector, k: usize, ef: usize) -> (r: Result<Vec<Candidate>, Error>)
        requires
            self.wf(),
            ef >= k,
        ensures
            match r {
                Result::Ok(res) => {
                    &&& elems_of(*q).len() == self.model_dim()
                    &&& sorted_by(res@, cand_order())
                    &&& res@.len() <= k
                    &&& forall|i: int|
                        0 <= i < res@.len() ==> (#[trigger] res@[i]).row_id
                            < self.vectors@.len() && res@[i].dist == dist_key_of(
                            self.metric_type,
                            elems_of(*q),
                            elems_of(self.vectors@[res@[i].row_id as int]),
                        )
                    &&& self.vectors@.len() == 0 ==> res@.len() == 0
                    &&& (self.vectors@.len() > 0 && k >= 1) ==> res@.len() >= 1
                },
                Result::Err(e) => {
                    &&& elems_of(*q).len() != self.model_dim()
                    &&& e == (Error::DimensionMismatch {
                        expected: self.dimension,
                        actual: elems_of(*q).len() as usize,
                    })
                },
            },
    {
        let qlen = vector_len(q);
        if qlen != self.dimension {
            return Err(Error::DimensionMismatch { expected: self.dimension, actual: qlen });
        }
        let n = self.vectors.len();
        if n == 0 {
            let empty: Vec<Candidate> = Vec::new();
            return Ok(empty);
        }
        let ghost qv = elems_of(*q);
        // Visited flags, the candidates seen, and the frontier of
        // nodes to expand, each carrying its true distance key.
        let mut visited: Vec<bool> = Vec::new();
        let mut i: usize = 0;
        while i < n
            invariant
                i <= n,
                visited@.len() == i,
                forall|m: int| 0 <= m < i ==> !(#[trigger] visited@[m]),
            decreases n - i,
        {
            visited.push(false);
            i += 1;
        }
        let mut seen: Vec<Candidate> = Vec::new();
        let mut frontier: Vec<Candidate> = Vec::new();
        let d0 = dist_key(self.metric_type, q, &self.vectors[0]);
        frontier.push(Candidate { row_id: 0, dist: d0 });
        let mut steps: usize = 0;
        while frontier.len() > 0 && steps < ef
            invariant
                self.wf(),
                qv == elems_of(*q),
                qv.len() == self.dimension,
                n == self.vectors@.len(),
                n > 0,
                visited@.len() == n,
                steps <= ef,
                forall|m: int|
                    0 <= m < frontier@.len() ==> (#[trigger] frontier@[m]).row_id < n
                        && frontier@[m].dist == dist_key_of(
                        self.metric_type,
                        qv,
                        elems_of(self.vectors@[frontier@[m].row_id as int]),
                    ),
                forall|m: int|
                    0 <= m < seen@.len() ==> (#[trigger] seen@[m]).row_id < n && seen@[m].dist
                        == dist_key_of(
                        self.metric_type,
                        qv,
                        elems_of(self.vectors@[seen@[m].row_id as int]),
                    ),
                steps == 0 ==> frontier@.len() > 0,
                seen@.len() == 0 ==> forall|m: int|
                    0 <= m < frontier@.len() ==> !visited@[(#[trigger] frontier@[m]).row_id as int],
                steps > 0 ==> seen@.len() >= 1,
                seen@.len() <= steps,
            decreases ef - steps,
        {
            // Pop the closest frontier entry (best-first).
            let mut best: usize = 0;
            let mut j: usize = 1;
            while j < frontier.len()
                invariant
                    best < j <= frontier@.len(),
                    frontier@.len() > 0,
                decreases frontier@.len() - j,
            {
                if frontier[j].dist < frontier[best].dist {
                    best = j;
                }
                j += 1;
            }
            let cur = frontier.swap_remove(best);
            let node = cur.row_id as usize;
            if !visited[node] {
                let ghost old_visited = visited@;
                visited.set(node, true);
                seen.push(cur);
                // Enqueue this node's neighbors with their keys.
                let nbrs = &self.neighbors[node];
                let mut e: usize = 0;
                while e < nbrs.len()
                    invariant
                        e <= nbrs@.len(),
                        self.wf(),
                        qv == elems_of(*q),
                        qv.len() == self.dimension,
                        n == self.vectors@.len(),
                        node < n,
                        nbrs@ == self.neighbors@[node as int]@,
                        forall|m: int|
                            0 <= m < frontier@.len() ==> (#[trigger] frontier@[m]).row_id < n
                                && frontier@[m].dist == dist_key_of(
                                self.metric_type,
                                qv,
                                elems_of(self.vectors@[frontier@[m].row_id as int]),
                            ),
                    decreases nbrs@.len() - e,
                {
                    let nb = nbrs[e];
                    let d = dist_key(self.metric_type, q, &self.vectors[nb]);
                    frontier.push(Candidate { row_id: nb as u64, dist: d });
                    e += 1;
                }
            }
            steps += 1;
        }
        proof {
            if k >= 1 {
                assert(steps > 0);
                assert(seen@.len() >= 1);
            }
        }
        let res = top_k(&seen, k);
        proof {
            broadcast use vstd::seq_lib::group_to_multiset_ensures;

            assert forall|i2: int| 0 <= i2 < res@.len() implies (#[trigger] res@[i2]).row_id < n
                && res@[i2].dist == dist_key_of(
                self.metric_type,
                qv,
                elems_of(self.vectors@[res@[i2].row_id as int]),
            ) by {
                assert(res@.contains(res@[i2]));
                assert(res@.to_multiset().count(res@[i2]) > 0);
                assert(seen@.to_multiset().count(res@[i2]) > 0);
                assert(seen@.contains(res@[i2]));
                let j2 = choose|j2: int| 0 <= j2 < seen@.len() && seen@[j2] == res@[i2];
            }
        }
        Ok(res)
    }
}

} // verus!
