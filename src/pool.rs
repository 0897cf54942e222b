use vstd::prelude::*;
use vstd::relations::injective;
use vstd::seq_lib::lemma_no_dup_in_concat;
use vstd::set_lib::*;

verus! {

/// Number of capacity units of a node.
pub const N_CELLS: usize = 5;

/// The capacity units of one node: a LIFO stack of free units and a LIFO stack
/// of charged units. A unit that is on neither stack is held by an operation
/// in progress.
pub struct CellStacks {
    free: Vec<u32>,
    charged: Vec<u32>,
    n_cells: usize,
}

/// The units `0 .. n` in the order that hands out unit 0 first.
pub open spec fn canonical_free(n: nat) -> Seq<u32> {
    Seq::new(n, |i: int| (n - 1 - i) as u32)
}

/// `after` is the pool `before` reset: all units free, in canonical order, none charged.
pub open spec fn reinitialized(before: CellStacks, after: CellStacks) -> bool {
    &&& after.wf()
    &&& after.capacity() == before.capacity()
    &&& after.free_view() == canonical_free(before.capacity())
    &&& after.charged_view() == Seq::<u32>::empty()
}

/// The units that are on neither stack.
pub open spec fn in_flight_units(p: &CellStacks) -> Set<int> {
    Set::new(
        |u: int|
            0 <= u < p.capacity() && !p.free_view().contains(u as u32) && !p.charged_view().contains(
                u as u32,
            ),
    )
}

impl CellStacks {
    pub closed spec fn free_view(&self) -> Seq<u32> {
        self.free@
    }

    pub closed spec fn charged_view(&self) -> Seq<u32> {
        self.charged@
    }

    pub closed spec fn capacity(&self) -> nat {
        self.n_cells as nat
    }

    /// The two pools hold the same units in the same order, with the same capacity.
    pub open spec fn same_as(&self, o: &CellStacks) -> bool {
        &&& self.free_view() == o.free_view()
        &&& self.charged_view() == o.charged_view()
        &&& self.capacity() == o.capacity()
    }

    /// Every unit is below the capacity and sits at most once on the two stacks.
    pub open spec fn wf(&self) -> bool {
        &&& self.capacity() <= u32::MAX
        &&& forall|i: int|
            0 <= i < self.free_view().len() ==> (#[trigger] self.free_view()[i] as nat)
                < self.capacity()
        &&& forall|i: int|
            0 <= i < self.charged_view().len() ==> (#[trigger] self.charged_view()[i] as nat)
                < self.capacity()
        &&& self.free_view().no_duplicates()
        &&& self.charged_view().no_duplicates()
        &&& forall|i: int, j: int|
            0 <= i < self.free_view().len() && 0 <= j < self.charged_view().len()
                ==> #[trigger] self.free_view()[i] != #[trigger] self.charged_view()[j]
    }

    /// A pool of `n_cells` units, all of them free.
    pub fn new(n_cells: usize) -> (r: CellStacks)
        requires
            n_cells <= u32::MAX,
        ensures
            r.wf(),
            r.capacity() == n_cells,
            r.free_view() == canonical_free(n_cells as nat),
            r.charged_view() == Seq::<u32>::empty(),
    {
        let mut p = CellStacks { free: Vec::new(), charged: Vec::new(), n_cells };
        initialize_free_cell_stack(&mut p);
        p
    }

    pub fn n_cells(&self) -> (r: usize)
        ensures
            r == self.capacity(),
    {
        self.n_cells
    }

    pub fn free_count(&self) -> (r: usize)
        ensures
            r == self.free_view().len(),
    {
        self.free.len()
    }

    pub fn charged_count(&self) -> (r: usize)
        ensures
            r == self.charged_view().len(),
    {
        self.charged.len()
    }

    /// True when unit `u` is on one of the two stacks.
    pub fn holds(&self, u: u32) -> (r: bool)
        ensures
            r == (self.free_view().contains(u) || self.charged_view().contains(u)),
    {
        let mut i: usize = 0;
        while i < self.free.len()
            invariant
                0 <= i <= self.free@.len(),
                forall|j: int| 0 <= j < i ==> self.free@[j] != u,
            decreases self.free@.len() - i,
        {
            if self.free[i] == u {
                assert(self.free_view()[i as int] == u);
                return true;
            }
            i += 1;
        }
        let mut k: usize = 0;
        while k < self.charged.len()
            invariant
                0 <= k <= self.charged@.len(),
                forall|j: int| 0 <= j < k ==> self.charged@[j] != u,
                !self.free_view().contains(u),
            decreases self.charged@.len() - k,
        {
            if self.charged[k] == u {
                assert(self.charged_view()[k as int] == u);
                return true;
            }
            k += 1;
        }
        false
    }
}

/// Resets the pool: all units free, none charged. The result does not depend on
/// the previous contents.
pub fn initialize_free_cell_stack(p: &mut CellStacks)
    requires
        old(p).capacity() <= u32::MAX,
    ensures
        reinitialized(*old(p), *final(p)),
{
    let n = p.n_cells;
    let mut v: Vec<u32> = Vec::new();
    let mut i: usize = 0;
    while i < n
        invariant
            0 <= i <= n,
            n <= u32::MAX,
            v@.len() == i,
            forall|j: int| 0 <= j < i ==> v@[j] == (n - 1 - j) as u32,
        decreases n - i,
    {
        v.push((n - 1 - i) as u32);
        i += 1;
    }
    assert(v@ =~= canonical_free(n as nat));
    p.free = v;
    p.charged = Vec::new();
    proof {
        assert forall|a: int, b: int|
            0 <= a < b < p.free@.len() implies p.free@[a] != p.free@[b] by {}
    }
}

/// Takes the free unit on top of the stack, if any.
pub fn get_free_cell_index(p: &mut CellStacks) -> (r: Option<u32>)
    requires
        old(p).wf(),
    ensures
        final(p).wf(),
        final(p).capacity() == old(p).capacity(),
        final(p).charged_view() == old(p).charged_view(),
        old(p).free_view().len() == 0 ==> r is None && final(p).free_view() == old(p).free_view(),
        old(p).free_view().len() > 0 ==> r == Some(old(p).free_view().last())
            && final(p).free_view() == old(p).free_view().drop_last(),
{
    p.free.pop()
}

/// Takes the charged unit on top of the stack, if any.
pub fn get_charged_cell_index(p: &mut CellStacks) -> (r: Option<u32>)
    requires
        old(p).wf(),
    ensures
        final(p).wf(),
        final(p).capacity() == old(p).capacity(),
        final(p).free_view() == old(p).free_view(),
        old(p).charged_view().len() == 0 ==> r is None && final(p).charged_view() == old(p).charged_view(),
        old(p).charged_view().len() > 0 ==> r == Some(old(p).charged_view().last())
            && final(p).charged_view() == old(p).charged_view().drop_last(),
{
    p.charged.pop()
}

/// Puts a unit that an operation held back on the free stack.
pub fn push_free_cell(p: &mut CellStacks, index: u32)
    requires
        old(p).wf(),
        (index as nat) < old(p).capacity(),
        !old(p).free_view().contains(index),
        !old(p).charged_view().contains(index),
    ensures
        final(p).wf(),
        final(p).capacity() == old(p).capacity(),
        final(p).free_view() == old(p).free_view().push(index),
        final(p).charged_view() == old(p).charged_view(),
{
    p.free.push(index);
    proof {
        let s = p.free@;
        assert forall|a: int, b: int| 0 <= a < b < s.len() implies s[a] != s[b] by {
            if b == s.len() - 1 {
                assert(old(p).free_view()[a] == s[a]);
            }
        }
        assert forall|a: int, b: int|
            0 <= a < p.free_view().len() && 0 <= b < p.charged_view().len() implies
            #[trigger] p.free_view()[a] != #[trigger] p.charged_view()[b] by {
            if a == s.len() - 1 {
                assert(old(p).charged_view()[b] == p.charged_view()[b]);
            }
        }
    }
}

/// Puts a unit that an operation held back on the charged stack.
pub fn push_charged_cell(p: &mut CellStacks, index: u32)
    requires
        old(p).wf(),
        (index as nat) < old(p).capacity(),
        !old(p).free_view().contains(index),
        !old(p).charged_view().contains(index),
    ensures
        final(p).wf(),
        final(p).capacity() == old(p).capacity(),
        final(p).charged_view() == old(p).charged_view().push(index),
        final(p).free_view() == old(p).free_view(),
{
    p.charged.push(index);
    proof {
        let s = p.charged@;
        assert forall|a: int, b: int| 0 <= a < b < s.len() implies s[a] != s[b] by {
            if b == s.len() - 1 {
                assert(old(p).charged_view()[a] == s[a]);
            }
        }
        assert forall|a: int, b: int|
            0 <= a < p.free_view().len() && 0 <= b < p.charged_view().len() implies
            #[trigger] p.free_view()[a] != #[trigger] p.charged_view()[b] by {
            if b == s.len() - 1 {
                assert(old(p).free_view()[a] == p.free_view()[a]);
            }
        }
    }
}

/// The charged unit on top of the stack, if any, without taking it.
pub fn peek_charged_cell_index(p: &CellStacks) -> (r: Option<u32>)
    ensures
        p.charged_view().len() == 0 ==> r is None,
        p.charged_view().len() > 0 ==> r == Some(p.charged_view().last()),
{
    let n = p.charged.len();
    if n == 0 {
        None
    } else {
        Some(p.charged[n - 1])
    }
}

/// Conservation of capacity: in a well-formed pool the free units, the charged
/// units and the units held by operations in progress add up to the capacity,
/// so the two stacks together never hold more than the capacity.
pub proof fn lemma_pool_conservation(p: &CellStacks)
    requires
        p.wf(),
    ensures
        p.free_view().len() + p.charged_view().len() + in_flight_units(p).len() == p.capacity(),
        p.free_view().len() + p.charged_view().len() <= p.capacity(),
{
    let n = p.capacity() as int;
    let all = p.free_view() + p.charged_view();
    lemma_no_dup_in_concat(p.free_view(), p.charged_view());
    let f = |u: u32| u as int;
    assert(injective(f));
    all.lemma_no_duplicates_injective(f);
    let ints = all.map_values(f);
    ints.unique_seq_to_set();
    let held = ints.to_set();
    let range = set_int_range(0, n);
    lemma_int_range(0, n);
    assert forall|u: int| held.contains(u) implies range.contains(u) by {
        let k = choose|k: int| 0 <= k < ints.len() && ints[k] == u;
        if k < p.free_view().len() {
            assert(all[k] == p.free_view()[k]);
        } else {
            assert(all[k] == p.charged_view()[k - p.free_view().len()]);
        }
    }
    lemma_len_subset(held, range);
    let fl = in_flight_units(p);
    assert forall|u: int| #[trigger] range.contains(u) implies (held + fl).contains(u) by {
        if !fl.contains(u) {
            let w = u as u32;
            if p.free_view().contains(w) {
                let k = choose|k: int| 0 <= k < p.free_view().len() && p.free_view()[k] == w;
                assert(all[k] == w);
                assert(ints[k] == u);
            } else {
                let k = choose|k: int| 0 <= k < p.charged_view().len() && p.charged_view()[k] == w;
                assert(all[k + p.free_view().len()] == w);
                assert(ints[k + p.free_view().len()] == u);
            }
        }
    }
    assert forall|u: int| #[trigger] (held + fl).contains(u) implies range.contains(u) by {
        if held.contains(u) {
        }
    }
    assert(held + fl =~= range);
    assert forall|u: int| held.contains(u) implies !fl.contains(u) by {
        let k = choose|k: int| 0 <= k < ints.len() && ints[k] == u;
        if k < p.free_view().len() {
            assert(all[k] == p.free_view()[k]);
            assert(p.free_view().contains(u as u32));
        } else {
            assert(all[k] == p.charged_view()[k - p.free_view().len()]);
            assert(p.charged_view().contains(u as u32));
        }
    }
    assert(held.disjoint(fl));
    lemma_set_subset_finite(range, fl);
    lemma_set_disjoint_lens(held, fl);
}

/// Resetting a pool twice gives the same pool as resetting it once.
pub proof fn lemma_reinitialize_idempotent(start: CellStacks, once: CellStacks, twice: CellStacks)
    requires
        reinitialized(start, once),
        reinitialized(once, twice),
    ensures
        twice.same_as(&once),
{
}

} // verus!
