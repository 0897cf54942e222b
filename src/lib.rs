use vstd::prelude::*;

pub mod bag;
pub mod explorer;
pub mod game_loop;
pub mod orchestrator;
pub mod planet;
pub mod pool;
pub mod registry;
pub mod resources;
pub mod topology;
pub mod topology_file;

use crate::planet::AI;
use crate::pool::N_CELLS;
use crate::resources::BasicKind;
use crate::resources::ComplexKind;

verus! {

/// Lifecycle status of a node or an agent, as tracked by the coordinator.
#[derive(Clone, Copy, Debug, PartialEq, Eq, Structural)]
pub enum Status {
    Running,
    Paused,
    Dead,
}

/// The recipes a node is built with.
pub struct PlanetBlueprint {
    pub gen_rules: Vec<BasicKind>,
    pub comb_rules: Vec<ComplexKind>,
}

/// The crab-rave node: it generates carbon, combines nothing, and holds no
/// defensive artifact.
pub struct CrabRaveConstructor;

impl CrabRaveConstructor {
    pub fn blueprint() -> (r: PlanetBlueprint)
        ensures
            r.gen_rules@ == seq![BasicKind::Carbon],
            r.comb_rules@.len() == 0,
    {
        let mut gen_rules: Vec<BasicKind> = Vec::new();
        gen_rules.push(BasicKind::Carbon);
        PlanetBlueprint { gen_rules, comb_rules: Vec::new() }
    }

    /// The node behaviour, with all units free.
    pub fn ai() -> (r: AI)
        ensures
            r.wf(),
            r.pool().capacity() == N_CELLS,
            r.pool().charged_view().len() == 0,
            !r.has_rocket(),
            !r.rocket_allowed(),
    {
        AI::new(N_CELLS, false)
    }
}

} // verus!
