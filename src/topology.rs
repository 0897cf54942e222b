use vstd::prelude::*;

verus! {

/// Why a topology operation was refused.
#[derive(Clone, Copy, Debug, PartialEq, Eq, Structural)]
pub enum TopologyError {
    /// A slot index at or past the number of nodes.
    IndexOutOfBounds,
}

/// The adjacency matrix of the node graph, indexed by dense node slot.
pub struct Topology {
    matrix: Vec<Vec<bool>>,
}

impl View for Topology {
    type V = Seq<Seq<bool>>;

    closed spec fn view(&self) -> Seq<Seq<bool>> {
        self.matrix@.map_values(|r: Vec<bool>| r@)
    }
}

/// `m` is square with `n` rows, symmetric and has no self-loops.
pub open spec fn is_graph(m: Seq<Seq<bool>>) -> bool {
    &&& forall|i: int| 0 <= i < m.len() ==> #[trigger] m[i].len() == m.len()
    &&& forall|i: int, j: int| 0 <= i < m.len() && 0 <= j < m.len() ==> #[trigger] m[i][j] == m[j][i]
    &&& forall|i: int| 0 <= i < m.len() ==> !#[trigger] m[i][i]
}

/// The `n` by `n` matrix with no edge.
pub open spec fn no_edges(n: nat) -> Seq<Seq<bool>> {
    Seq::new(n, |i: int| Seq::new(n, |j: int| false))
}

/// `m` with the edge between `i` and `j` set to `v`, in both directions.
pub open spec fn with_link(m: Seq<Seq<bool>>, i: int, j: int, v: bool) -> Seq<Seq<bool>> {
    let m1 = m.update(i, m[i].update(j, v));
    m1.update(j, m1[j].update(i, v))
}

impl Topology {
    pub open spec fn size(&self) -> nat {
        self@.len()
    }

    pub open spec fn wf(&self) -> bool {
        is_graph(self@)
    }

    /// A graph of `n` nodes and no edge.
    pub fn with_size(n: usize) -> (r: Topology)
        ensures
            r.wf(),
            r@ == no_edges(n as nat),
    {
        let mut matrix: Vec<Vec<bool>> = Vec::new();
        let mut i: usize = 0;
        while i < n
            invariant
                0 <= i <= n,
                matrix@.len() == i,
                forall|k: int| 0 <= k < i ==> #[trigger] matrix@[k]@ == Seq::new(n as nat, |j: int| false),
            decreases n - i,
        {
            let mut row: Vec<bool> = Vec::new();
            let mut j: usize = 0;
            while j < n
                invariant
                    0 <= j <= n,
                    row@ == Seq::new(j as nat, |k: int| false),
                decreases n - j,
            {
                row.push(false);
                j += 1;
                assert(row@ =~= Seq::new(j as nat, |k: int| false));
            }
            matrix.push(row);
            i += 1;
        }
        let r = Topology { matrix };
        assert(r@ =~= no_edges(n as nat));
        r
    }

    /// Number of node slots.
    pub fn len(&self) -> (r: usize)
        ensures
            r == self.size(),
    {
        self.matrix.len()
    }

    /// True when slots `i` and `j` are linked.
    pub fn is_linked(&self, i: usize, j: usize) -> (r: bool)
        requires
            self.wf(),
            i < self.size(),
            j < self.size(),
        ensures
            r == self@[i as int][j as int],
    {
        assert(self@[i as int] == self.matrix@[i as int]@);
        self.matrix[i][j]
    }

    /// Sets the edge between two distinct slots, in both directions.
    pub fn set_link(&mut self, i: usize, j: usize, v: bool)
        requires
            old(self).wf(),
            i < old(self).size(),
            j < old(self).size(),
            i != j,
        ensures
            final(self).wf(),
            final(self)@ == with_link(old(self)@, i as int, j as int, v),
    {
        let ghost m0 = self@;
        assert(self@[i as int] == self.matrix@[i as int]@);
        assert(self@[j as int] == self.matrix@[j as int]@);
        self.matrix[i][j] = v;
        assert(self.matrix@[j as int] == old(self).matrix@[j as int]);
        self.matrix[j][i] = v;
        let ghost m = with_link(m0, i as int, j as int, v);
        assert(self@ =~= m) by {
            assert forall|k: int| 0 <= k < m.len() implies #[trigger] self@[k] =~= m[k] by {
                assert(self@[k] == self.matrix@[k]@);
            }
        }
        assert(is_graph(m)) by {
            assert forall|a: int, b: int| 0 <= a < m.len() && 0 <= b < m.len() implies #[trigger] m[a][b] == m[b][a] by {
                assert(m0[a][b] == m0[b][a]);
            }
            assert forall|a: int| 0 <= a < m.len() implies !#[trigger] m[a][a] by {
                assert(!m0[a][a]);
            }
            assert forall|a: int| 0 <= a < m.len() implies #[trigger] m[a].len() == m.len() by {
                assert(m0[a].len() == m0.len());
            }
        }
    }

    /// Removes the edge between slots `i` and `j`. Refused, with nothing changed,
    /// when either index is not a slot.
    pub fn destroy_topology_link(&mut self, planet_one_pos: usize, planet_two_pos: usize)
        -> (r: Result<(), TopologyError>)
        requires
            old(self).wf(),
        ensures
            final(self).wf(),
            r is Err <==> !(planet_one_pos < old(self).size() && planet_two_pos < old(self).size()),
            r is Err ==> r == Err::<(), TopologyError>(TopologyError::IndexOutOfBounds) && final(self)@ == old(self)@,
            r is Ok ==> final(self)@ == with_link(
                old(self)@,
                planet_one_pos as int,
                planet_two_pos as int,
                false,
            ),
    {
        let n = self.matrix.len();
        if planet_one_pos < n && planet_two_pos < n {
            if planet_one_pos == planet_two_pos {
                let ghost m0 = self@;
                proof {
                    let i = planet_one_pos as int;
                    assert(!m0[i][i]);
                    assert(m0[i].update(i, false) =~= m0[i]);
                    assert(with_link(m0, i, i, false) =~= m0);
                }
            } else {
                self.set_link(planet_one_pos, planet_two_pos, false);
            }
            Ok(())
        } else {
            Err(TopologyError::IndexOutOfBounds)
        }
    }

    /// Removes every edge of slot `i`.
    pub fn sever_node(&mut self, i: usize)
        requires
            old(self).wf(),
            i < old(self).size(),
        ensures
            final(self).wf(),
            final(self).size() == old(self).size(),
            forall|a: int, b: int|
                0 <= a < final(self).size() && 0 <= b < final(self).size() ==> #[trigger] final(self)@[a][b] == (old(self)@[a][b] && a != i && b != i),
    {
        let n = self.matrix.len();
        let mut j: usize = 0;
        while j < n
            invariant
                self.wf(),
                n == self.size(),
                n == old(self).size(),
                0 <= j <= n,
                i < n,
                forall|a: int, b: int|
                    0 <= a < n && 0 <= b < n ==> #[trigger] self@[a][b] == (old(self)@[a][b] && !(
                    (a == i && b < j) || (b == i && a < j))),
            decreases n - j,
        {
            if j != i {
                self.set_link(i, j, false);
            }
            j += 1;
        }
    }
}

} // verus!
