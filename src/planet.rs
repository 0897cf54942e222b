use vstd::prelude::*;

use crate::pool::{
    canonical_free, get_charged_cell_index, get_free_cell_index, initialize_free_cell_stack,
    peek_charged_cell_index, push_charged_cell, push_free_cell, CellStacks,
};
use crate::resources::{BasicKind, ComplexKind};

verus! {

/// A request that an agent sends to the node it stands on.
#[derive(Clone, Copy, Debug, PartialEq, Eq, Structural)]
pub enum ExplorerRequest {
    AvailableEnergyCell,
    SupportedResource,
    SupportedCombination,
    GenerateResource(BasicKind),
    CombineResource(ComplexKind),
}

/// What the node answers to an agent request. `Produced` carries what the
/// resource strategy returned; `Unavailable` means that no charged unit was there
/// to run it on.
pub enum ExplorerReply<R> {
    AvailableCells(u32),
    SupportedResources,
    SupportedCombinations,
    Produced(R),
    Unavailable,
    NoReply,
}

/// How a node met a hostile event.
#[derive(Clone, Copy, Debug, PartialEq, Eq, Structural)]
pub enum AsteroidOutcome {
    /// The stored defensive artifact was used up.
    UsedStoredRocket,
    /// An artifact was built out of this charged unit and used at once.
    BuiltRocket(u32),
    /// No artifact could be had: the node is destroyed.
    Destroyed,
}

/// A copy of what a node holds, for state requests.
#[derive(Clone, Copy, Debug, PartialEq, Eq, Structural)]
pub struct NodeSnapshot {
    pub free_cells: usize,
    pub charged_cells: usize,
    pub has_rocket: bool,
}

/// The behaviour of one node: its capacity pool, its defensive artifact and
/// whether its lifecycle has been started.
pub struct AI {
    cells: CellStacks,
    rocket: bool,
    can_have_rocket: bool,
    started: bool,
}

impl AI {
    pub closed spec fn pool(&self) -> &CellStacks {
        &self.cells
    }

    pub closed spec fn has_rocket(&self) -> bool {
        self.rocket
    }

    pub closed spec fn rocket_allowed(&self) -> bool {
        self.can_have_rocket
    }

    pub closed spec fn is_started(&self) -> bool {
        self.started
    }

    /// Between two requests every unit sits on one of the two stacks.
    pub open spec fn wf(&self) -> bool {
        &&& self.pool().wf()
        &&& self.pool().free_view().len() + self.pool().charged_view().len()
            == self.pool().capacity()
    }

    /// A node with `n_cells` free units and no artifact.
    pub fn new(n_cells: usize, can_have_rocket: bool) -> (r: AI)
        requires
            n_cells <= u32::MAX,
        ensures
            r.wf(),
            r.pool().capacity() == n_cells,
            r.pool().free_view() == canonical_free(n_cells as nat),
            r.pool().charged_view().len() == 0,
            !r.has_rocket(),
            r.rocket_allowed() == can_have_rocket,
            !r.is_started(),
    {
        AI { cells: CellStacks::new(n_cells), rocket: false, can_have_rocket, started: false }
    }

    /// Lifecycle start: the first start after creation or after a stop resets the
    /// pool; a repeated start changes nothing.
    pub fn start(&mut self)
        requires
            old(self).wf(),
        ensures
            final(self).wf(),
            final(self).is_started(),
            final(self).has_rocket() == old(self).has_rocket(),
            final(self).rocket_allowed() == old(self).rocket_allowed(),
            final(self).pool().capacity() == old(self).pool().capacity(),
            old(self).is_started() ==> final(self).pool().same_as(old(self).pool()),
            !old(self).is_started() ==> final(self).pool().free_view() == canonical_free(
                old(self).pool().capacity(),
            ) && final(self).pool().charged_view().len() == 0,
    {
        if !self.started {
            initialize_free_cell_stack(&mut self.cells);
            self.started = true;
        }
    }

    /// Lifecycle stop.
    pub fn stop(&mut self)
        requires
            old(self).wf(),
        ensures
            final(self).wf(),
            !final(self).is_started(),
            final(self).pool().same_as(old(self).pool()),
            final(self).has_rocket() == old(self).has_rocket(),
            final(self).rocket_allowed() == old(self).rocket_allowed(),
    {
        self.started = false;
    }

    /// A copy of the node's state; nothing changes.
    pub fn handle_internal_state_req(&self) -> (r: NodeSnapshot)
        ensures
            r.free_cells == self.pool().free_view().len(),
            r.charged_cells == self.pool().charged_view().len(),
            r.has_rocket == self.has_rocket(),
    {
        NodeSnapshot {
            free_cells: self.cells.free_count(),
            charged_cells: self.cells.charged_count(),
            has_rocket: self.rocket,
        }
    }

    /// Energy delivery: the free unit on top is charged and moves to the charged
    /// stack, and the unit is returned; with no free unit nothing changes and
    /// nothing is returned (no acknowledgement is sent).
    pub fn handle_sunray(&mut self) -> (r: Option<u32>)
        requires
            old(self).wf(),
        ensures
            final(self).wf(),
            final(self).has_rocket() == old(self).has_rocket(),
            final(self).rocket_allowed() == old(self).rocket_allowed(),
            final(self).is_started() == old(self).is_started(),
            final(self).pool().capacity() == old(self).pool().capacity(),
            old(self).pool().free_view().len() == 0 ==> r is None && final(self).pool().same_as(old(self).pool()),
            old(self).pool().free_view().len() > 0 ==> {
                let u = old(self).pool().free_view().last();
                &&& r == Some(u)
                &&& final(self).pool().free_view() == old(self).pool().free_view().drop_last()
                &&& final(self).pool().charged_view() == old(self).pool().charged_view().push(u)
            },
    {
        match get_free_cell_index(&mut self.cells) {
            Some(u) => {
                proof {
                    let p = old(self).pool();
                    assert(p.free_view()[p.free_view().len() - 1] == u);
                    assert forall|j: int| 0 <= j < self.cells.charged_view().len() implies
                        self.cells.charged_view()[j] != u by {
                        assert(p.charged_view()[j] == self.cells.charged_view()[j]);
                    }
                    assert forall|j: int| 0 <= j < self.cells.free_view().len() implies
                        self.cells.free_view()[j] != u by {
                        assert(p.free_view()[j] == self.cells.free_view()[j]);
                    }
                }
                push_charged_cell(&mut self.cells, u);
                Some(u)
            },
            None => None,
        }
    }

    /// Hostile event. A stored artifact is used up; else, where the node may hold
    /// one, an artifact is built out of the charged unit on top (the unit goes
    /// back to the free stack) and used at once; else the node is destroyed.
    pub fn handle_asteroid(&mut self) -> (r: AsteroidOutcome)
        requires
            old(self).wf(),
        ensures
            final(self).wf(),
            !final(self).has_rocket(),
            final(self).rocket_allowed() == old(self).rocket_allowed(),
            final(self).is_started() == old(self).is_started(),
            final(self).pool().capacity() == old(self).pool().capacity(),
            (r == AsteroidOutcome::Destroyed) <==> (!old(self).rocket_allowed() || (
            !old(self).has_rocket() && old(self).pool().charged_view().len() == 0)),
            old(self).rocket_allowed() && old(self).has_rocket() ==> r
                == AsteroidOutcome::UsedStoredRocket && final(self).pool().same_as(old(self).pool()),
            old(self).rocket_allowed() && !old(self).has_rocket() && old(self).pool().charged_view().len() > 0 ==> {
                let u = old(self).pool().charged_view().last();
                &&& r == AsteroidOutcome::BuiltRocket(u)
                &&& final(self).pool().charged_view() == old(self).pool().charged_view().drop_last()
                &&& final(self).pool().free_view() == old(self).pool().free_view().push(u)
            },
            r == AsteroidOutcome::Destroyed ==> final(self).pool().same_as(old(self).pool()),
    {
        if !self.can_have_rocket {
            self.rocket = false;
            AsteroidOutcome::Destroyed
        } else if self.rocket {
            self.rocket = false;
            AsteroidOutcome::UsedStoredRocket
        } else {
            match get_charged_cell_index(&mut self.cells) {
                Some(u) => {
                    self.release_taken_charged(u);
                    AsteroidOutcome::BuiltRocket(u)
                },
                None => AsteroidOutcome::Destroyed,
            }
        }
    }

    /// A request from an agent. Generation and combination take the charged unit
    /// on top, run the resource strategy on it and put the unit back on the free
    /// stack whatever the strategy returned; with no charged unit the strategy is
    /// not run.
    pub fn handle_explorer_msg<R, F: FnOnce(u32) -> R>(
        &mut self,
        req: ExplorerRequest,
        strategy: F,
    ) -> (r: ExplorerReply<R>)
        requires
            old(self).wf(),
            forall|u: u32| call_requires(strategy, (u,)),
        ensures
            final(self).wf(),
            final(self).has_rocket() == old(self).has_rocket(),
            final(self).rocket_allowed() == old(self).rocket_allowed(),
            final(self).is_started() == old(self).is_started(),
            final(self).pool().capacity() == old(self).pool().capacity(),
            ({
                let n = old(self).pool().charged_view().len();
                match req {
                    ExplorerRequest::AvailableEnergyCell => {
                        &&& n > 0 ==> r == ExplorerReply::<R>::AvailableCells(n as u32)
                        &&& n == 0 ==> r is NoReply
                        &&& final(self).pool().same_as(old(self).pool())
                    },
                    ExplorerRequest::SupportedResource => {
                        &&& r is SupportedResources
                        &&& final(self).pool().same_as(old(self).pool())
                    },
                    ExplorerRequest::SupportedCombination => {
                        &&& r is SupportedCombinations
                        &&& final(self).pool().same_as(old(self).pool())
                    },
                    _ => {
                        &&& n == 0 ==> r is Unavailable && final(self).pool().same_as(
                            old(self).pool(),
                        )
                        &&& n > 0 ==> {
                            let u = old(self).pool().charged_view().last();
                            &&& match r {
                                ExplorerReply::Produced(x) => call_ensures(strategy, (u,), x),
                                _ => false,
                            }
                            &&& final(self).pool().charged_view() == old(self).pool().charged_view().drop_last()
                            &&& final(self).pool().free_view() == old(self).pool().free_view().push(
                                u,
                            )
                        }
                    },
                }
            }),
    {
        match req {
            ExplorerRequest::AvailableEnergyCell => {
                match peek_charged_cell_index(&self.cells) {
                    Some(_) => ExplorerReply::AvailableCells(self.cells.charged_count() as u32),
                    None => ExplorerReply::NoReply,
                }
            },
            ExplorerRequest::SupportedResource => ExplorerReply::SupportedResources,
            ExplorerRequest::SupportedCombination => ExplorerReply::SupportedCombinations,
            _ => {
                match get_charged_cell_index(&mut self.cells) {
                    Some(u) => {
                        let out = strategy(u);
                        self.release_taken_charged(u);
                        ExplorerReply::Produced(out)
                    },
                    None => ExplorerReply::Unavailable,
                }
            },
        }
    }

    /// Puts back on the free stack the unit that was just taken off the charged stack.
    fn release_taken_charged(&mut self, u: u32)
        requires
            old(self).pool().wf(),
            exists|p: CellStacks|
                #![auto]
                p.wf() && p.free_view().len() + p.charged_view().len() == p.capacity()
                    && p.charged_view().len() > 0 && p.charged_view().last() == u
                    && old(self).pool().free_view() == p.free_view()
                    && old(self).pool().charged_view() == p.charged_view().drop_last()
                    && old(self).pool().capacity() == p.capacity(),
        ensures
            final(self).wf(),
            final(self).pool().free_view() == old(self).pool().free_view().push(u),
            final(self).pool().charged_view() == old(self).pool().charged_view(),
            final(self).pool().capacity() == old(self).pool().capacity(),
            final(self).has_rocket() == old(self).has_rocket(),
            final(self).rocket_allowed() == old(self).rocket_allowed(),
            final(self).is_started() == old(self).is_started(),
    {
        proof {
            let p = choose|p: CellStacks|
                #![auto]
                p.wf() && p.free_view().len() + p.charged_view().len() == p.capacity()
                    && p.charged_view().len() > 0 && p.charged_view().last() == u
                    && old(self).pool().free_view() == p.free_view()
                    && old(self).pool().charged_view() == p.charged_view().drop_last()
                    && old(self).pool().capacity() == p.capacity();
            let k = p.charged_view().len() - 1;
            assert(p.charged_view()[k] == u);
            assert((u as nat) < p.capacity());
            assert forall|j: int| 0 <= j < self.cells.charged_view().len() implies
                self.cells.charged_view()[j] != u by {
                assert(p.charged_view()[j] == self.cells.charged_view()[j]);
            }
            assert forall|j: int| 0 <= j < self.cells.free_view().len() implies
                self.cells.free_view()[j] != u by {
                assert(p.free_view()[j] == self.cells.free_view()[j]);
            }
        }
        push_free_cell(&mut self.cells, u);
    }
}

} // verus!
