//! Directed rivalry edges between players, and the mutuality test that
//! surfaces a mutual rivalry as a "friend" relation.

use vstd::prelude::*;

verus! {

/// Directed "marked as rival" relation. An edge (a, b) means player `a`
/// marked player `b` as a rival; the relation is not symmetric.
pub struct RivalryGraph {
    edges: Vec<(i32, i32)>,
}

/// The outgoing rival ids of `p`, in edge insertion order.
pub open spec fn rivals_of(edges: Seq<(i32, i32)>, p: i32) -> Seq<i32>
    decreases edges.len(),
{
    if edges.len() == 0 {
        Seq::empty()
    } else {
        let rest = rivals_of(edges.drop_last(), p);
        if edges.last().0 == p {
            rest.push(edges.last().1)
        } else {
            rest
        }
    }
}

impl RivalryGraph {
    /// The edge set the graph currently holds.
    pub closed spec fn edges(self) -> Seq<(i32, i32)> {
        self.edges@
    }

    /// No duplicate edges and no self edges.
    pub open spec fn wf(self) -> bool {
        &&& forall|i: int, j: int|
            0 <= i < j < self.edges().len() ==> self.edges()[i] != self.edges()[j]
        &&& forall|i: int|
            0 <= i < self.edges().len() ==> (#[trigger] self.edges()[i]).0 != self.edges()[i].1
    }

    /// Whether `a` has marked `b` as a rival.
    pub open spec fn spec_has_edge(self, a: i32, b: i32) -> bool {
        self.edges().contains((a, b))
    }

    /// Both directed edges exist: the pair counts as friends.
    pub open spec fn spec_is_mutual(self, a: i32, b: i32) -> bool {
        self.spec_has_edge(a, b) && self.spec_has_edge(b, a)
    }

    pub fn new() -> (r: RivalryGraph)
        ensures
            r.wf(),
            r.edges() == Seq::<(i32, i32)>::empty(),
    {
        RivalryGraph { edges: Vec::new() }
    }

    /// Record that `a` marked `b` as a rival. A duplicate or self edge
    /// leaves the graph unchanged.
    pub fn add_rivalry(&mut self, a: i32, b: i32)
        requires
            old(self).wf(),
        ensures
            final(self).wf(),
            final(self).edges() == if old(self).spec_has_edge(a, b) || a == b {
                old(self).edges()
            } else {
                old(self).edges().push((a, b))
            },
    {
        if a == b {
            return ;
        }
        if self.has_edge(a, b) {
            return ;
        }
        self.edges.push((a, b));
    }

    /// Whether the directed edge (a, b) exists. A missing edge is not an
    /// error: it simply answers `false`.
    pub fn has_edge(&self, a: i32, b: i32) -> (r: bool)
        ensures
            r == self.spec_has_edge(a, b),
    {
        let n = self.edges.len();
        let mut i: usize = 0;
        while i < n
            invariant
                n == self.edges@.len(),
                0 <= i <= n,
                forall|k: int| 0 <= k < i ==> self.edges@[k] != (a, b),
            decreases n - i,
        {
            let e = self.edges[i];
            if e.0 == a && e.1 == b {
                return true;
            }
            i += 1;
        }
        false
    }

    /// True iff the rivalry is mutual: edge (a, b) and edge (b, a) both exist.
    pub fn is_mutual(&self, a: i32, b: i32) -> (r: bool)
        ensures
            r == self.spec_is_mutual(a, b),
    {
        self.has_edge(a, b) && self.has_edge(b, a)
    }

    /// All targets of outgoing edges from `p`, in insertion order.
    pub fn get_rivals(&self, p: i32) -> (r: Vec<i32>)
        ensures
            r@ == rivals_of(self.edges(), p),
    {
        let n = self.edges.len();
        let mut r: Vec<i32> = Vec::new();
        let mut i: usize = 0;
        while i < n
            invariant
                n == self.edges@.len(),
                0 <= i <= n,
                r@ == rivals_of(self.edges@.take(i as int), p),
            decreases n - i,
        {
            proof {
                assert(self.edges@.take(i + 1).drop_last() =~= self.edges@.take(i as int));
                assert(self.edges@.take(i + 1).last() == self.edges@[i as int]);
            }
            let e = self.edges[i];
            if e.0 == p {
                r.push(e.1);
            }
            i += 1;
        }
        proof {
            assert(self.edges@.take(n as int) =~= self.edges@);
        }
        r
    }
}

/// A rival list membership matches the edge set: `q` appears among the
/// rivals of `p` exactly when the directed edge (p, q) is present.
pub proof fn lemma_rivals_of_contains(edges: Seq<(i32, i32)>, p: i32, q: i32)
    ensures
        rivals_of(edges, p).contains(q) <==> edges.contains((p, q)),
    decreases edges.len(),
{
    if edges.len() > 0 {
        lemma_rivals_of_contains(edges.drop_last(), p, q);
        assert forall|i: int| 0 <= i < edges.len() - 1 && edges[i] == (p, q) implies edges.drop_last().contains(
            (p, q),
        ) by {
            assert(edges.drop_last()[i] == (p, q));
        }
        if edges.last() == (p, q) {
            assert(rivals_of(edges, p).last() == q);
        } else if rivals_of(edges, p).contains(q) {
            if edges.last().0 == p {
                let s = rivals_of(edges.drop_last(), p);
                let k = choose|k: int| 0 <= k < s.push(edges.last().1).len() && s.push(edges.last().1)[k] == q;
                if k < s.len() {
                    assert(s.contains(q));
                }
            }
        } else if edges.contains((p, q)) {
            let i = choose|i: int| 0 <= i < edges.len() && edges[i] == (p, q);
            assert(i < edges.len() - 1);
            let s = rivals_of(edges.drop_last(), p);
            assert(s.contains(q));
            let k = choose|k: int| 0 <= k < s.len() && s[k] == q;
            if edges.last().0 == p {
                assert(rivals_of(edges, p)[k] == q);
            }
        }
    }
}

} // verus!
