use vstd::prelude::*;
use std::collections::HashMap;
use std::collections::VecDeque;

use crate::bag::{holds_pair, Bag, BagError};
use crate::planet::ExplorerRequest;
use crate::resources::{recipe_inputs, BasicKind, ComplexKind, ResourceKind};

verus! {

broadcast use vstd::std_specs::hash::group_hash_axioms;

/// The state of an agent. `Killed` is terminal.
#[derive(Clone, Copy, Debug, PartialEq, Eq, Structural)]
pub enum ExplorerState {
    Idle,
    WaitingToStartExplorerAI,
    WaitingForNeighbours,
    Traveling,
    GeneratingResource,
    CombiningResources,
    WaitingForSupportedResources,
    WaitingForSupportedCombinations,
    WaitingForAvailableEnergyCells,
    Killed,
}

/// A message from the coordinator to an agent.
#[derive(Clone, Debug, PartialEq, Eq)]
pub enum OrchestratorToExplorer {
    StartExplorerAI,
    ResetExplorerAI,
    StopExplorerAI,
    KillExplorer,
    /// Relocation; `None` when no channel to a new node came with it.
    MoveToPlanet { planet_id: Option<u32> },
    CurrentPlanetRequest,
    SupportedResourceRequest,
    SupportedCombinationRequest,
    GenerateResourceRequest { to_generate: BasicKind },
    CombineResourceRequest { to_generate: ComplexKind },
    BagContentRequest,
    NeighborsResponse { neighbors: Vec<u32> },
}

/// The combined item, or the two prerequisites handed back on failure.
#[derive(Clone, Copy, Debug, PartialEq, Eq, Structural)]
pub enum CombineOutcome {
    Combined(ComplexKind),
    Failed(ResourceKind, ResourceKind),
}

/// A message from the current node to an agent.
#[derive(Clone, Debug, PartialEq, Eq)]
pub enum PlanetToExplorer {
    SupportedResourceResponse { resource_list: Vec<BasicKind> },
    SupportedCombinationResponse { combination_list: Vec<ComplexKind> },
    GenerateResourceResponse { resource: Option<BasicKind> },
    CombineResourceResponse { complex_response: CombineOutcome },
    AvailableEnergyCellResponse { available_cells: u32 },
    Stopped,
}

/// A message from an agent to the coordinator.
#[derive(Clone, Debug, PartialEq, Eq)]
pub enum ExplorerToOrchestrator {
    StartExplorerAIResult,
    ResetExplorerAIResult,
    StopExplorerAIResult,
    KillExplorerResult,
    CurrentPlanetResult { planet_id: u32 },
    SupportedResourceResult { supported_resources: Vec<BasicKind> },
    SupportedCombinationResult { combination_list: Vec<ComplexKind> },
    BagContentResponse { bag_content: Vec<ResourceKind> },
    NeighborsRequest { planet_id: u32 },
    TravelToPlanetRequest { current_planet_id: u32, dst_planet_id: u32 },
    /// A combination refused before the node was asked.
    CombineResourceRefused { to_generate: ComplexKind, reason: BagError },
}

/// What an agent sends out after handling a message.
#[derive(Clone, Debug, PartialEq, Eq)]
pub enum ExplorerAction {
    /// A report to the coordinator, with the id of the agent that sends it.
    ToOrchestrator(u32, ExplorerToOrchestrator),
    ToPlanet(ExplorerRequest),
}

/// What an agent knows of one node; `None` where it does not know yet.
#[derive(Clone, Debug, PartialEq, Eq)]
pub struct PlanetInfo {
    pub basic_resources: Option<Vec<BasicKind>>,
    pub complex_resources: Option<Vec<ComplexKind>>,
    pub neighbours: Option<Vec<u32>>,
}

/// A coordinator message is handled at once in `Idle`; elsewhere only the
/// message that the state waits for is.
pub open spec fn orch_admissible(s: ExplorerState, m: OrchestratorToExplorer) -> bool {
    match s {
        ExplorerState::Idle => true,
        ExplorerState::WaitingToStartExplorerAI => m is StartExplorerAI,
        ExplorerState::WaitingForNeighbours => m is NeighborsResponse,
        ExplorerState::Traveling => m is MoveToPlanet,
        _ => false,
    }
}

/// A node message is handled at once in `Idle`; elsewhere only the reply that
/// the state waits for is.
pub open spec fn planet_admissible(s: ExplorerState, m: PlanetToExplorer) -> bool {
    match s {
        ExplorerState::Idle => true,
        ExplorerState::GeneratingResource => m is GenerateResourceResponse,
        ExplorerState::CombiningResources => m is CombineResourceResponse,
        ExplorerState::WaitingForSupportedResources => m is SupportedResourceResponse,
        ExplorerState::WaitingForSupportedCombinations => m is SupportedCombinationResponse,
        ExplorerState::WaitingForAvailableEnergyCells => m is AvailableEnergyCellResponse,
        _ => false,
    }
}

pub fn orch_msg_match_state(explorer_state: &ExplorerState, msg: &OrchestratorToExplorer) -> (r:
    bool)
    ensures
        r == orch_admissible(*explorer_state, *msg),
{
    match explorer_state {
        ExplorerState::Idle => true,
        ExplorerState::WaitingToStartExplorerAI => matches!(msg, OrchestratorToExplorer::StartExplorerAI),
        ExplorerState::WaitingForNeighbours => matches!(msg, OrchestratorToExplorer::NeighborsResponse { .. }),
        ExplorerState::Traveling => matches!(msg, OrchestratorToExplorer::MoveToPlanet { .. }),
        _ => false,
    }
}

pub fn planet_msg_match_state(explorer_state: &ExplorerState, msg: &PlanetToExplorer) -> (r: bool)
    ensures
        r == planet_admissible(*explorer_state, *msg),
{
    match explorer_state {
        ExplorerState::Idle => true,
        ExplorerState::GeneratingResource => matches!(msg, PlanetToExplorer::GenerateResourceResponse { .. }),
        ExplorerState::CombiningResources => matches!(msg, PlanetToExplorer::CombineResourceResponse { .. }),
        ExplorerState::WaitingForSupportedResources => matches!(msg, PlanetToExplorer::SupportedResourceResponse { .. }),
        ExplorerState::WaitingForSupportedCombinations => matches!(msg, PlanetToExplorer::SupportedCombinationResponse { .. }),
        ExplorerState::WaitingForAvailableEnergyCells => matches!(msg, PlanetToExplorer::AvailableEnergyCellResponse { .. }),
        _ => false,
    }
}

/// What an agent knows of a node it has only heard of.
pub open spec fn unknown_info(i: PlanetInfo) -> bool {
    i.basic_resources is None && i.complex_resources is None && i.neighbours is None
}

/// `s` with every repeated element dropped after its first occurrence.
pub open spec fn dedup<T>(s: Seq<T>) -> Seq<T>
    decreases s.len(),
{
    if s.len() == 0 {
        s
    } else {
        let rest = dedup(s.drop_last());
        if rest.contains(s.last()) {
            rest
        } else {
            rest.push(s.last())
        }
    }
}

/// What an agent knows of one node, as plain values; the lists are sets
/// written without repetition.
pub struct InfoView {
    pub basic: Option<Seq<BasicKind>>,
    pub complex: Option<Seq<ComplexKind>>,
    pub neighbours: Option<Seq<u32>>,
}

pub open spec fn info_view(i: PlanetInfo) -> InfoView {
    InfoView {
        basic: match i.basic_resources {
            Some(v) => Some(v@),
            None => None,
        },
        complex: match i.complex_resources {
            Some(v) => Some(v@),
            None => None,
        },
        neighbours: match i.neighbours {
            Some(v) => Some(v@),
            None => None,
        },
    }
}

pub open spec fn known_view(k: Map<u32, PlanetInfo>) -> Map<u32, InfoView> {
    k.map_values(|i: PlanetInfo| info_view(i))
}

pub open spec fn no_dup_opt<T>(o: Option<Seq<T>>) -> bool {
    match o {
        Some(s) => s.no_duplicates(),
        None => true,
    }
}

/// Every list an agent has recorded is written without repetition.
pub open spec fn known_sets(k: Map<u32, InfoView>) -> bool {
    forall|id: u32|
        #[trigger] k.contains_key(id) ==> no_dup_opt(k[id].basic) && no_dup_opt(k[id].complex)
            && no_dup_opt(k[id].neighbours)
}

/// An agent as plain values, buffers aside.
pub struct AgentModel {
    pub state: ExplorerState,
    pub planet: u32,
    pub carried: Seq<ResourceKind>,
    pub known: Map<u32, InfoView>,
    pub cells: u32,
}

/// What an agent sends out, as plain values.
pub enum ActionView {
    StartResult,
    ResetResult,
    StopResult,
    KillResult,
    CurrentPlanet(u32),
    SupportedResources(Seq<BasicKind>),
    SupportedCombinations(Seq<ComplexKind>),
    BagContent(Seq<ResourceKind>),
    NeighborsRequest(u32),
    TravelRequest(u32, u32),
    CombineRefused(ComplexKind, BagError),
    ToPlanet(ExplorerRequest),
}

pub open spec fn action_view(a: ExplorerAction) -> ActionView {
    match a {
        ExplorerAction::ToPlanet(q) => ActionView::ToPlanet(q),
        ExplorerAction::ToOrchestrator(_, m) => match m {
            ExplorerToOrchestrator::StartExplorerAIResult => ActionView::StartResult,
            ExplorerToOrchestrator::ResetExplorerAIResult => ActionView::ResetResult,
            ExplorerToOrchestrator::StopExplorerAIResult => ActionView::StopResult,
            ExplorerToOrchestrator::KillExplorerResult => ActionView::KillResult,
            ExplorerToOrchestrator::CurrentPlanetResult { planet_id } => ActionView::CurrentPlanet(
                planet_id,
            ),
            ExplorerToOrchestrator::SupportedResourceResult { supported_resources } =>
                ActionView::SupportedResources(supported_resources@),
            ExplorerToOrchestrator::SupportedCombinationResult { combination_list } =>
                ActionView::SupportedCombinations(combination_list@),
            ExplorerToOrchestrator::BagContentResponse { bag_content } => ActionView::BagContent(
                bag_content@,
            ),
            ExplorerToOrchestrator::NeighborsRequest { planet_id } => ActionView::NeighborsRequest(
                planet_id,
            ),
            ExplorerToOrchestrator::TravelToPlanetRequest { current_planet_id, dst_planet_id } =>
                ActionView::TravelRequest(current_planet_id, dst_planet_id),
            ExplorerToOrchestrator::CombineResourceRefused { to_generate, reason } =>
                ActionView::CombineRefused(to_generate, reason),
        },
    }
}

/// Every report in `s` carries the agent id `id`.
pub open spec fn stamped(s: Seq<ExplorerAction>, id: u32) -> bool {
    forall|i: int|
        0 <= i < s.len() ==> match #[trigger] s[i] {
            ExplorerAction::ToOrchestrator(j, _) => j == id,
            _ => true,
        }
}

pub open spec fn actions_view(s: Seq<ExplorerAction>) -> Seq<ActionView> {
    s.map_values(|a: ExplorerAction| action_view(a))
}

pub open spec fn with_state(m: AgentModel, st: ExplorerState) -> AgentModel {
    AgentModel { state: st, planet: m.planet, carried: m.carried, known: m.known, cells: m.cells }
}

pub open spec fn with_known(m: AgentModel, k: Map<u32, InfoView>) -> AgentModel {
    AgentModel { state: m.state, planet: m.planet, carried: m.carried, known: k, cells: m.cells }
}

pub open spec fn with_carried(m: AgentModel, c: Seq<ResourceKind>) -> AgentModel {
    AgentModel { state: m.state, planet: m.planet, carried: c, known: m.known, cells: m.cells }
}

/// Knowledge after a neighbour list for node `planet`: every neighbour becomes a
/// node known by name only, and `planet` records the list, keeping its recipe
/// lists if it was known and is not among its own neighbours.
pub open spec fn with_neighbours(k: Map<u32, InfoView>, planet: u32, nb: Seq<u32>) -> Map<
    u32,
    InfoView,
> {
    Map::new(
        |id: u32| k.contains_key(id) || nb.contains(id) || id == planet,
        |id: u32|
            if id == planet {
                InfoView {
                    basic: if nb.contains(id) || !k.contains_key(id) {
                        None
                    } else {
                        k[id].basic
                    },
                    complex: if nb.contains(id) || !k.contains_key(id) {
                        None
                    } else {
                        k[id].complex
                    },
                    neighbours: Some(dedup(nb)),
                }
            } else if nb.contains(id) {
                InfoView { basic: None, complex: None, neighbours: None }
            } else {
                k[id]
            },
    )
}

/// Knowledge after node `planet` told its generation recipes: its entry,
/// created if needed, records them.
pub open spec fn with_basic(k: Map<u32, InfoView>, planet: u32, l: Seq<BasicKind>) -> Map<
    u32,
    InfoView,
> {
    if k.contains_key(planet) {
        k.insert(
            planet,
            InfoView { basic: Some(l), complex: k[planet].complex, neighbours: k[planet].neighbours },
        )
    } else {
        k.insert(planet, InfoView { basic: Some(l), complex: None, neighbours: None })
    }
}

/// Knowledge after node `planet` told its combination recipes: its entry,
/// created if needed, records them.
pub open spec fn with_complex(k: Map<u32, InfoView>, planet: u32, l: Seq<ComplexKind>) -> Map<
    u32,
    InfoView,
> {
    if k.contains_key(planet) {
        k.insert(
            planet,
            InfoView { basic: k[planet].basic, complex: Some(l), neighbours: k[planet].neighbours },
        )
    } else {
        k.insert(planet, InfoView { basic: None, complex: Some(l), neighbours: None })
    }
}

/// Handling one coordinator message: the agent that results and what it sends.
pub open spec fn orch_step(m: AgentModel, msg: OrchestratorToExplorer) -> (AgentModel, Seq<
    ActionView,
>) {
    match msg {
        OrchestratorToExplorer::StartExplorerAI => (
            with_state(m, ExplorerState::Idle),
            seq![ActionView::StartResult],
        ),
        OrchestratorToExplorer::ResetExplorerAI => (
            with_known(with_state(m, ExplorerState::Idle), Map::empty()),
            seq![ActionView::ResetResult],
        ),
        OrchestratorToExplorer::StopExplorerAI => (
            with_state(m, ExplorerState::WaitingToStartExplorerAI),
            seq![ActionView::StopResult],
        ),
        OrchestratorToExplorer::KillExplorer => (
            with_state(m, ExplorerState::Killed),
            seq![ActionView::KillResult],
        ),
        OrchestratorToExplorer::MoveToPlanet { planet_id } => (
            match planet_id {
                Some(p) => AgentModel {
                    state: ExplorerState::Idle,
                    planet: p,
                    carried: m.carried,
                    known: m.known,
                    cells: m.cells,
                },
                None => m,
            },
            Seq::empty(),
        ),
        OrchestratorToExplorer::CurrentPlanetRequest => (
            with_state(m, ExplorerState::Idle),
            seq![ActionView::CurrentPlanet(m.planet)],
        ),
        OrchestratorToExplorer::SupportedResourceRequest => if m.known.contains_key(m.planet)
            && m.known[m.planet].basic is Some {
            (
                with_state(m, ExplorerState::Idle),
                seq![ActionView::SupportedResources(m.known[m.planet].basic->Some_0)],
            )
        } else {
            (
                with_state(m, ExplorerState::WaitingForSupportedResources),
                seq![ActionView::ToPlanet(ExplorerRequest::SupportedResource)],
            )
        },
        OrchestratorToExplorer::SupportedCombinationRequest => if m.known.contains_key(m.planet)
            && m.known[m.planet].complex is Some {
            (
                with_state(m, ExplorerState::Idle),
                seq![ActionView::SupportedCombinations(m.known[m.planet].complex->Some_0)],
            )
        } else {
            (
                with_state(m, ExplorerState::WaitingForSupportedCombinations),
                seq![ActionView::ToPlanet(ExplorerRequest::SupportedCombination)],
            )
        },
        OrchestratorToExplorer::GenerateResourceRequest { to_generate } => (
            with_state(m, ExplorerState::GeneratingResource),
            seq![ActionView::ToPlanet(ExplorerRequest::GenerateResource(to_generate))],
        ),
        OrchestratorToExplorer::CombineResourceRequest { to_generate } => {
            let (a, b) = recipe_inputs(to_generate);
            if holds_pair(m.carried, a, b) {
                (
                    with_carried(
                        with_state(m, ExplorerState::CombiningResources),
                        m.carried.remove_value(a).remove_value(b),
                    ),
                    seq![ActionView::ToPlanet(ExplorerRequest::CombineResource(to_generate))],
                )
            } else {
                (m, seq![ActionView::CombineRefused(to_generate, BagError::MissingResource)])
            }
        },
        OrchestratorToExplorer::BagContentRequest => (m, seq![ActionView::BagContent(m.carried)]),
        OrchestratorToExplorer::NeighborsResponse { neighbors } => (
            with_known(
                with_state(m, ExplorerState::Idle),
                with_neighbours(m.known, m.planet, neighbors@),
            ),
            Seq::empty(),
        ),
    }
}

/// Handling one node message: the agent that results, always idle, and what it
/// sends. Recipe lists are recorded without repetition and reported to the
/// coordinator when the agent was waiting for them.
pub open spec fn planet_step(m: AgentModel, msg: PlanetToExplorer) -> (AgentModel, Seq<ActionView>) {
    match msg {
        PlanetToExplorer::SupportedResourceResponse { resource_list } => {
            let l = dedup(resource_list@);
            (
                with_known(with_state(m, ExplorerState::Idle), with_basic(m.known, m.planet, l)),
                if m.state == ExplorerState::WaitingForSupportedResources {
                    seq![ActionView::SupportedResources(l)]
                } else {
                    Seq::empty()
                },
            )
        },
        PlanetToExplorer::SupportedCombinationResponse { combination_list } => {
            let l = dedup(combination_list@);
            (
                with_known(with_state(m, ExplorerState::Idle), with_complex(m.known, m.planet, l)),
                if m.state == ExplorerState::WaitingForSupportedCombinations {
                    seq![ActionView::SupportedCombinations(l)]
                } else {
                    Seq::empty()
                },
            )
        },
        PlanetToExplorer::GenerateResourceResponse { resource } => (
            with_carried(
                with_state(m, ExplorerState::Idle),
                match resource {
                    Some(k) => m.carried.push(ResourceKind::Basic(k)),
                    None => m.carried,
                },
            ),
            Seq::empty(),
        ),
        PlanetToExplorer::CombineResourceResponse { complex_response } => (
            with_carried(
                with_state(m, ExplorerState::Idle),
                match complex_response {
                    CombineOutcome::Combined(k) => m.carried.push(ResourceKind::Complex(k)),
                    CombineOutcome::Failed(a, b) => m.carried.push(a).push(b),
                },
            ),
            Seq::empty(),
        ),
        PlanetToExplorer::AvailableEnergyCellResponse { available_cells } => (
            AgentModel {
                state: ExplorerState::Idle,
                planet: m.planet,
                carried: m.carried,
                known: m.known,
                cells: available_cells,
            },
            Seq::empty(),
        ),
        PlanetToExplorer::Stopped => (with_state(m, ExplorerState::Idle), Seq::empty()),
    }
}

/// Replay of put-aside messages: while the agent is idle, the first message
/// of the coordinator buffer, or else of the node buffer, is handled. The
/// result is the agent, the two remaining buffers and everything sent, in order.
pub open spec fn replay(
    m: AgentModel,
    ob: Seq<OrchestratorToExplorer>,
    pb: Seq<PlanetToExplorer>,
) -> (AgentModel, Seq<OrchestratorToExplorer>, Seq<PlanetToExplorer>, Seq<ActionView>)
    decreases ob.len() + pb.len(),
{
    if m.state != ExplorerState::Idle || (ob.len() == 0 && pb.len() == 0) {
        (m, ob, pb, Seq::empty())
    } else if ob.len() > 0 {
        let (m1, a1) = orch_step(m, ob[0]);
        let r = replay(m1, ob.drop_first(), pb);
        (r.0, r.1, r.2, a1 + r.3)
    } else {
        let (m1, a1) = planet_step(m, pb[0]);
        let r = replay(m1, ob, pb.drop_first());
        (r.0, r.1, r.2, a1 + r.3)
    }
}

/// `v` without repetitions, first occurrences kept in order.
fn dedup_basic(v: &Vec<BasicKind>) -> (r: Vec<BasicKind>)
    ensures
        r@ == dedup(v@),
{
    let mut out: Vec<BasicKind> = Vec::new();
    let mut i: usize = 0;
    assert(v@.take(0) =~= Seq::<BasicKind>::empty());
    while i < v.len()
        invariant
            0 <= i <= v@.len(),
            out@ == dedup(v@.take(i as int)),
        decreases v@.len() - i,
    {
        let x = v[i];
        let ghost t1 = v@.take(i as int + 1);
        assert(t1.drop_last() =~= v@.take(i as int));
        assert(t1.last() == x);
        let mut k: usize = 0;
        let mut seen = false;
        while k < out.len()
            invariant
                0 <= k <= out@.len(),
                seen == exists|j: int| 0 <= j < k && out@[j] == x,
            decreases out@.len() - k,
        {
            if out[k] == x {
                seen = true;
            }
            k += 1;
        }
        if !seen {
            out.push(x);
        }
        i += 1;
    }
    assert(v@.take(v@.len() as int) =~= v@);
    out
}

/// `v` without repetitions, first occurrences kept in order.
fn dedup_complex(v: &Vec<ComplexKind>) -> (r: Vec<ComplexKind>)
    ensures
        r@ == dedup(v@),
{
    let mut out: Vec<ComplexKind> = Vec::new();
    let mut i: usize = 0;
    assert(v@.take(0) =~= Seq::<ComplexKind>::empty());
    while i < v.len()
        invariant
            0 <= i <= v@.len(),
            out@ == dedup(v@.take(i as int)),
        decreases v@.len() - i,
    {
        let x = v[i];
        let ghost t1 = v@.take(i as int + 1);
        assert(t1.drop_last() =~= v@.take(i as int));
        assert(t1.last() == x);
        let mut k: usize = 0;
        let mut seen = false;
        while k < out.len()
            invariant
                0 <= k <= out@.len(),
                seen == exists|j: int| 0 <= j < k && out@[j] == x,
            decreases out@.len() - k,
        {
            if out[k] == x {
                seen = true;
            }
            k += 1;
        }
        if !seen {
            out.push(x);
        }
        i += 1;
    }
    assert(v@.take(v@.len() as int) =~= v@);
    out
}

/// `v` without repetitions, first occurrences kept in order.
fn dedup_ids(v: &Vec<u32>) -> (r: Vec<u32>)
    ensures
        r@ == dedup(v@),
{
    let mut out: Vec<u32> = Vec::new();
    let mut i: usize = 0;
    assert(v@.take(0) =~= Seq::<u32>::empty());
    while i < v.len()
        invariant
            0 <= i <= v@.len(),
            out@ == dedup(v@.take(i as int)),
        decreases v@.len() - i,
    {
        let x = v[i];
        let ghost t1 = v@.take(i as int + 1);
        assert(t1.drop_last() =~= v@.take(i as int));
        assert(t1.last() == x);
        let mut k: usize = 0;
        let mut seen = false;
        while k < out.len()
            invariant
                0 <= k <= out@.len(),
                seen == exists|j: int| 0 <= j < k && out@[j] == x,
            decreases out@.len() - k,
        {
            if out[k] == x {
                seen = true;
            }
            k += 1;
        }
        if !seen {
            out.push(x);
        }
        i += 1;
    }
    assert(v@.take(v@.len() as int) =~= v@);
    out
}

/// A copy of `v`.
fn copy_vec<T: Copy>(v: &Vec<T>) -> (r: Vec<T>)
    ensures
        r@ == v@,
{
    let mut out: Vec<T> = Vec::new();
    let mut i: usize = 0;
    while i < v.len()
        invariant
            0 <= i <= v@.len(),
            out@ == v@.subrange(0, i as int),
        decreases v@.len() - i,
    {
        out.push(v[i]);
        i += 1;
    }
    assert(out@ =~= v@);
    out
}

fn unknown_planet() -> (r: PlanetInfo)
    ensures
        unknown_info(r),
{
    PlanetInfo { basic_resources: None, complex_resources: None, neighbours: None }
}

/// One agent: where it stands, what it knows of the topology, what it carries,
/// and the messages it has put aside until it is idle again.
pub struct Explorer {
    explorer_id: u32,
    planet_id: u32,
    topology_info: HashMap<u32, PlanetInfo>,
    state: ExplorerState,
    bag: Bag,
    energy_cells: u32,
    buffer_orchestrator_msg: VecDeque<OrchestratorToExplorer>,
    buffer_planet_msg: VecDeque<PlanetToExplorer>,
}

impl Explorer {
    pub closed spec fn id_spec(&self) -> u32 {
        self.explorer_id
    }

    pub closed spec fn planet(&self) -> u32 {
        self.planet_id
    }

    pub closed spec fn status(&self) -> ExplorerState {
        self.state
    }

    pub closed spec fn carried(&self) -> Seq<ResourceKind> {
        self.bag@
    }

    pub closed spec fn known(&self) -> Map<u32, PlanetInfo> {
        self.topology_info@
    }

    pub closed spec fn cells(&self) -> u32 {
        self.energy_cells
    }

    /// The agent as plain values, buffers aside.
    pub open spec fn model(&self) -> AgentModel {
        AgentModel {
            state: self.status(),
            planet: self.planet(),
            carried: self.carried(),
            known: known_view(self.known()),
            cells: self.cells(),
        }
    }

    /// Every recipe and neighbour list the agent holds is free of repetition.
    pub open spec fn wf(&self) -> bool {
        known_sets(self.model().known)
    }

    pub closed spec fn orch_buffer(&self) -> Seq<OrchestratorToExplorer> {
        self.buffer_orchestrator_msg@
    }

    pub closed spec fn planet_buffer(&self) -> Seq<PlanetToExplorer> {
        self.buffer_planet_msg@
    }

    /// Identity, position, knowledge, bag and buffers are those of `o`.
    pub open spec fn same_but_state(&self, o: &Explorer) -> bool {
        &&& self.id_spec() == o.id_spec()
        &&& self.planet() == o.planet()
        &&& self.carried() == o.carried()
        &&& self.known() == o.known()
        &&& self.cells() == o.cells()
        &&& self.orch_buffer() == o.orch_buffer()
        &&& self.planet_buffer() == o.planet_buffer()
    }

    /// A new agent at `planet_id`, waiting to be started, that knows nothing
    /// yet of its node.
    pub fn new(explorer_id: u32, planet_id: u32, energy_cells: u32) -> (r: Explorer)
        ensures
            r.id_spec() == explorer_id,
            r.planet() == planet_id,
            r.status() == ExplorerState::WaitingToStartExplorerAI,
            r.carried().len() == 0,
            r.known().dom() == set![planet_id],
            unknown_info(r.known()[planet_id]),
            r.cells() == energy_cells,
            r.wf(),
            r.orch_buffer().len() == 0,
            r.planet_buffer().len() == 0,
    {
        let mut topology_info: HashMap<u32, PlanetInfo> = HashMap::new();
        topology_info.insert(planet_id, unknown_planet());
        let r = Explorer {
            explorer_id,
            planet_id,
            topology_info,
            state: ExplorerState::WaitingToStartExplorerAI,
            bag: Bag::new(),
            energy_cells,
            buffer_orchestrator_msg: VecDeque::new(),
            buffer_planet_msg: VecDeque::new(),
        };
        assert(r.known().dom() =~= set![planet_id]);
        r
    }

    pub fn id(&self) -> (r: u32)
        ensures
            r == self.id_spec(),
    {
        self.explorer_id
    }

    pub fn state(&self) -> (r: ExplorerState)
        ensures
            r == self.status(),
    {
        self.state
    }

    pub fn planet_id(&self) -> (r: u32)
        ensures
            r == self.planet(),
    {
        self.planet_id
    }

    pub fn energy_cells(&self) -> (r: u32)
        ensures
            r == self.cells(),
    {
        self.energy_cells
    }

    /// The kinds of the carried items, in order.
    pub fn bag_content(&self) -> (r: Vec<ResourceKind>)
        ensures
            r@ == self.carried(),
    {
        self.bag.to_resource_types()
    }

    pub fn buffered_orchestrator_msgs(&self) -> (r: usize)
        ensures
            r == self.orch_buffer().len(),
    {
        self.buffer_orchestrator_msg.len()
    }

    pub fn buffered_planet_msgs(&self) -> (r: usize)
        ensures
            r == self.planet_buffer().len(),
    {
        self.buffer_planet_msg.len()
    }

    /// What the agent knows of node `id`.
    pub fn planet_info(&self, id: u32) -> (r: Option<&PlanetInfo>)
        ensures
            match r {
                Some(i) => self.known().contains_key(id) && *i == self.known()[id],
                None => !self.known().contains_key(id),
            },
    {
        self.topology_info.get(&id)
    }
}

/// Answer to a start directive: the agent becomes idle.
pub fn start_explorer_ai(explorer: &mut Explorer) -> (r: ExplorerAction)
    ensures
        r == ExplorerAction::ToOrchestrator(old(explorer).id_spec(), ExplorerToOrchestrator::StartExplorerAIResult),
        final(explorer).status() == ExplorerState::Idle,
        final(explorer).same_but_state(old(explorer)),
{
    explorer.state = ExplorerState::Idle;
    ExplorerAction::ToOrchestrator(explorer.explorer_id, ExplorerToOrchestrator::StartExplorerAIResult)
}

/// Answer to a reset directive: the agent forgets the topology and becomes idle.
pub fn reset_explorer_ai(explorer: &mut Explorer) -> (r: ExplorerAction)
    ensures
        r == ExplorerAction::ToOrchestrator(old(explorer).id_spec(), ExplorerToOrchestrator::ResetExplorerAIResult),
        final(explorer).status() == ExplorerState::Idle,
        final(explorer).known() == Map::<u32, PlanetInfo>::empty(),
        final(explorer).id_spec() == old(explorer).id_spec(),
        final(explorer).planet() == old(explorer).planet(),
        final(explorer).carried() == old(explorer).carried(),
        final(explorer).cells() == old(explorer).cells(),
        final(explorer).orch_buffer() == old(explorer).orch_buffer(),
        final(explorer).planet_buffer() == old(explorer).planet_buffer(),
{
    explorer.topology_info.clear();
    explorer.state = ExplorerState::Idle;
    ExplorerAction::ToOrchestrator(explorer.explorer_id, ExplorerToOrchestrator::ResetExplorerAIResult)
}

/// Answer to a stop directive: the agent waits to be started again.
pub fn stop_explorer_ai(explorer: &mut Explorer) -> (r: ExplorerAction)
    ensures
        r == ExplorerAction::ToOrchestrator(old(explorer).id_spec(), ExplorerToOrchestrator::StopExplorerAIResult),
        final(explorer).status() == ExplorerState::WaitingToStartExplorerAI,
        final(explorer).same_but_state(old(explorer)),
{
    explorer.state = ExplorerState::WaitingToStartExplorerAI;
    ExplorerAction::ToOrchestrator(explorer.explorer_id, ExplorerToOrchestrator::StopExplorerAIResult)
}

/// Answer to a termination directive: the agent is killed.
pub fn kill_explorer(explorer: &mut Explorer) -> (r: ExplorerAction)
    ensures
        r == ExplorerAction::ToOrchestrator(old(explorer).id_spec(), ExplorerToOrchestrator::KillExplorerResult),
        final(explorer).status() == ExplorerState::Killed,
        final(explorer).same_but_state(old(explorer)),
{
    explorer.state = ExplorerState::Killed;
    ExplorerAction::ToOrchestrator(explorer.explorer_id, ExplorerToOrchestrator::KillExplorerResult)
}

/// Relocation: with a new node the agent stands there and becomes idle; a
/// relocation without one changes nothing.
pub fn move_to_planet(explorer: &mut Explorer, new_planet: Option<u32>)
    ensures
        final(explorer).status() == match new_planet {
            Some(_) => ExplorerState::Idle,
            None => old(explorer).status(),
        },
        final(explorer).planet() == match new_planet {
            Some(p) => p,
            None => old(explorer).planet(),
        },
        final(explorer).id_spec() == old(explorer).id_spec(),
        final(explorer).carried() == old(explorer).carried(),
        final(explorer).known() == old(explorer).known(),
        final(explorer).cells() == old(explorer).cells(),
        final(explorer).orch_buffer() == old(explorer).orch_buffer(),
        final(explorer).planet_buffer() == old(explorer).planet_buffer(),
{
    match new_planet {
        Some(p) => {
            explorer.state = ExplorerState::Idle;
            explorer.planet_id = p;
        },
        None => {},
    }
}

/// Reports the node the agent stands on.
pub fn current_planet_request(explorer: &mut Explorer) -> (r: ExplorerAction)
    ensures
        r == ExplorerAction::ToOrchestrator(
            old(explorer).id_spec(), ExplorerToOrchestrator::CurrentPlanetResult { planet_id: old(explorer).planet() },
        ),
        final(explorer).status() == ExplorerState::Idle,
        final(explorer).same_but_state(old(explorer)),
{
    explorer.state = ExplorerState::Idle;
    ExplorerAction::ToOrchestrator(
        explorer.explorer_id, ExplorerToOrchestrator::CurrentPlanetResult { planet_id: explorer.planet_id },
    )
}

/// `e1` is `e0` with the coordinator message `msg` put aside behind the earlier ones.
pub open spec fn put_aside_orch(e0: Explorer, msg: OrchestratorToExplorer, e1: Explorer) -> bool {
    &&& e1.orch_buffer() == e0.orch_buffer().push(msg)
    &&& e1.planet_buffer() == e0.planet_buffer()
    &&& e1.status() == e0.status()
    &&& e1.id_spec() == e0.id_spec()
    &&& e1.planet() == e0.planet()
    &&& e1.carried() == e0.carried()
    &&& e1.known() == e0.known()
    &&& e1.cells() == e0.cells()
}

/// `e1` is `e0` with the node message `msg` put aside behind the earlier ones.
pub open spec fn put_aside_planet(e0: Explorer, msg: PlanetToExplorer, e1: Explorer) -> bool {
    &&& e1.planet_buffer() == e0.planet_buffer().push(msg)
    &&& e1.orch_buffer() == e0.orch_buffer()
    &&& e1.status() == e0.status()
    &&& e1.id_spec() == e0.id_spec()
    &&& e1.planet() == e0.planet()
    &&& e1.carried() == e0.carried()
    &&& e1.known() == e0.known()
    &&& e1.cells() == e0.cells()
}

/// Between `e0` and `e1` put-aside messages were replayed from the front of each
/// buffer only, the coordinator's buffer first; an idle `e1` has replayed all.
pub open spec fn replayed_in_order(e0: Explorer, e1: Explorer) -> bool {
    &&& exists|k: int|
        0 <= k <= e0.orch_buffer().len() && e1.orch_buffer() == e0.orch_buffer().skip(k)
    &&& exists|j: int|
        0 <= j <= e0.planet_buffer().len() && e1.planet_buffer() == e0.planet_buffer().skip(j)
    &&& e1.planet_buffer() != e0.planet_buffer() ==> e1.orch_buffer().len() == 0
    &&& e1.status() == ExplorerState::Idle ==> e1.orch_buffer().len() == 0
        && e1.planet_buffer().len() == 0
}

/// True when the agent has cached the generation recipes of the node it stands on.
pub open spec fn knows_basic(e: &Explorer) -> bool {
    e.known().contains_key(e.planet()) && e.known()[e.planet()].basic_resources is Some
}

/// True when the agent has cached the combination recipes of the node it stands on.
pub open spec fn knows_complex(e: &Explorer) -> bool {
    e.known().contains_key(e.planet()) && e.known()[e.planet()].complex_resources is Some
}

/// Topology query for generation recipes: answered from what the agent knows
/// of its node, or else asked of the node (the agent then waits for the reply).
pub fn supperted_resource_request(explorer: &mut Explorer) -> (r: ExplorerAction)
    ensures
        final(explorer).same_but_state(old(explorer)),
        knows_basic(old(explorer)) ==> final(explorer).status() == ExplorerState::Idle && match r {
            ExplorerAction::ToOrchestrator(
                i, ExplorerToOrchestrator::SupportedResourceResult { supported_resources: v },
            ) => i == old(explorer).id_spec() && v@ == old(explorer).known()[old(explorer).planet()].basic_resources->Some_0@,
            _ => false,
        },
        !knows_basic(old(explorer)) ==> final(explorer).status()
            == ExplorerState::WaitingForSupportedResources && r == ExplorerAction::ToPlanet(
            ExplorerRequest::SupportedResource,
        ),
{
    let mut cached: Option<Vec<BasicKind>> = None;
    match explorer.topology_info.get(&explorer.planet_id) {
        Some(info) => match &info.basic_resources {
            Some(v) => {
                cached = Some(copy_vec(v));
            },
            None => {},
        },
        None => {},
    }
    match cached {
        Some(v) => {
            explorer.state = ExplorerState::Idle;
            ExplorerAction::ToOrchestrator(
                explorer.explorer_id, ExplorerToOrchestrator::SupportedResourceResult { supported_resources: v },
            )
        },
        None => {
            explorer.state = ExplorerState::WaitingForSupportedResources;
            ExplorerAction::ToPlanet(ExplorerRequest::SupportedResource)
        },
    }
}

/// Topology query for combination recipes: answered from what the agent knows
/// of its node, or else asked of the node (the agent then waits for the reply).
pub fn supported_combination_request(explorer: &mut Explorer) -> (r: ExplorerAction)
    ensures
        final(explorer).same_but_state(old(explorer)),
        knows_complex(old(explorer)) ==> final(explorer).status() == ExplorerState::Idle && match r {
            ExplorerAction::ToOrchestrator(
                i, ExplorerToOrchestrator::SupportedCombinationResult { combination_list: v },
            ) => i == old(explorer).id_spec() && v@ == old(explorer).known()[old(explorer).planet()].complex_resources->Some_0@,
            _ => false,
        },
        !knows_complex(old(explorer)) ==> final(explorer).status()
            == ExplorerState::WaitingForSupportedCombinations && r == ExplorerAction::ToPlanet(
            ExplorerRequest::SupportedCombination,
        ),
{
    let mut cached: Option<Vec<ComplexKind>> = None;
    match explorer.topology_info.get(&explorer.planet_id) {
        Some(info) => match &info.complex_resources {
            Some(v) => {
                cached = Some(copy_vec(v));
            },
            None => {},
        },
        None => {},
    }
    match cached {
        Some(v) => {
            explorer.state = ExplorerState::Idle;
            ExplorerAction::ToOrchestrator(
                explorer.explorer_id, ExplorerToOrchestrator::SupportedCombinationResult { combination_list: v },
            )
        },
        None => {
            explorer.state = ExplorerState::WaitingForSupportedCombinations;
            ExplorerAction::ToPlanet(ExplorerRequest::SupportedCombination)
        },
    }
}

/// Asks the node for one basic resource; the agent waits for the reply.
pub fn generate_resource_request(explorer: &mut Explorer, to_generate: BasicKind) -> (r:
    ExplorerAction)
    ensures
        r == ExplorerAction::ToPlanet(ExplorerRequest::GenerateResource(to_generate)),
        final(explorer).status() == ExplorerState::GeneratingResource,
        final(explorer).same_but_state(old(explorer)),
{
    explorer.state = ExplorerState::GeneratingResource;
    ExplorerAction::ToPlanet(ExplorerRequest::GenerateResource(to_generate))
}

/// Adds a generated resource, if one came, to the bag.
pub fn put_basic_resource_in_the_bag(explorer: &mut Explorer, resource: Option<BasicKind>)
    ensures
        final(explorer).carried() == match resource {
            Some(k) => old(explorer).carried().push(ResourceKind::Basic(k)),
            None => old(explorer).carried(),
        },
        final(explorer).status() == old(explorer).status(),
        final(explorer).id_spec() == old(explorer).id_spec(),
        final(explorer).planet() == old(explorer).planet(),
        final(explorer).known() == old(explorer).known(),
        final(explorer).cells() == old(explorer).cells(),
        final(explorer).orch_buffer() == old(explorer).orch_buffer(),
        final(explorer).planet_buffer() == old(explorer).planet_buffer(),
{
    match resource {
        Some(k) => explorer.bag.insert(ResourceKind::Basic(k)),
        None => {},
    }
}

/// Combination: the prerequisites are taken out of the bag and the node is
/// asked; when the bag lacks them the request fails here, with no message to
/// the node and nothing taken.
pub fn combine_resource_request(explorer: &mut Explorer, to_generate: ComplexKind) -> (r:
    ExplorerAction)
    ensures
        final(explorer).id_spec() == old(explorer).id_spec(),
        final(explorer).planet() == old(explorer).planet(),
        final(explorer).known() == old(explorer).known(),
        final(explorer).cells() == old(explorer).cells(),
        final(explorer).orch_buffer() == old(explorer).orch_buffer(),
        final(explorer).planet_buffer() == old(explorer).planet_buffer(),
        ({
            let (a, b) = recipe_inputs(to_generate);
            &&& holds_pair(old(explorer).carried(), a, b) ==> {
                &&& r == ExplorerAction::ToPlanet(ExplorerRequest::CombineResource(to_generate))
                &&& final(explorer).carried() == old(explorer).carried().remove_value(
                    a,
                ).remove_value(b)
                &&& final(explorer).status() == ExplorerState::CombiningResources
            }
            &&& !holds_pair(old(explorer).carried(), a, b) ==> {
                &&& r == ExplorerAction::ToOrchestrator(
                    old(explorer).id_spec(), ExplorerToOrchestrator::CombineResourceRefused {
                        to_generate,
                        reason: BagError::MissingResource,
                    },
                )
                &&& final(explorer).carried() == old(explorer).carried()
                &&& final(explorer).status() == old(explorer).status()
            }
        }),
{
    match explorer.bag.make_request(to_generate) {
        Ok(_) => {
            explorer.state = ExplorerState::CombiningResources;
            ExplorerAction::ToPlanet(ExplorerRequest::CombineResource(to_generate))
        },
        Err(reason) => {
            ExplorerAction::ToOrchestrator(
                explorer.explorer_id, ExplorerToOrchestrator::CombineResourceRefused { to_generate, reason },
            )
        },
    }
}

/// Adds the outcome of a combination to the bag: the combined item, or the two
/// prerequisites that the node handed back.
pub fn put_complex_resource_in_the_bag(explorer: &mut Explorer, complex_response: CombineOutcome)
    ensures
        final(explorer).carried() == match complex_response {
            CombineOutcome::Combined(k) => old(explorer).carried().push(ResourceKind::Complex(k)),
            CombineOutcome::Failed(a, b) => old(explorer).carried().push(a).push(b),
        },
        final(explorer).status() == old(explorer).status(),
        final(explorer).id_spec() == old(explorer).id_spec(),
        final(explorer).planet() == old(explorer).planet(),
        final(explorer).known() == old(explorer).known(),
        final(explorer).cells() == old(explorer).cells(),
        final(explorer).orch_buffer() == old(explorer).orch_buffer(),
        final(explorer).planet_buffer() == old(explorer).planet_buffer(),
{
    match complex_response {
        CombineOutcome::Combined(k) => explorer.bag.insert(ResourceKind::Complex(k)),
        CombineOutcome::Failed(a, b) => {
            explorer.bag.insert(a);
            explorer.bag.insert(b);
        },
    }
}

/// Reports the kinds of the carried items.
pub fn bag_content_request(explorer: &Explorer) -> (r: ExplorerAction)
    ensures
        match r {
            ExplorerAction::ToOrchestrator(
                i, ExplorerToOrchestrator::BagContentResponse { bag_content: v },
            ) => i == explorer.id_spec() && v@ == explorer.carried(),
            _ => false,
        },
{
    ExplorerAction::ToOrchestrator(
        explorer.explorer_id, ExplorerToOrchestrator::BagContentResponse { bag_content: explorer.bag.to_resource_types() },
    )
}

/// Neighbour list from the coordinator: every neighbour becomes a node that the
/// agent knows nothing of yet, and the list is recorded, without repetition, as
/// the neighbours of the node the agent stands on (its entry is created if needed).
pub fn neighbours_response(explorer: &mut Explorer, neighbors: Vec<u32>)
    ensures
        final(explorer).status() == ExplorerState::Idle,
        final(explorer).id_spec() == old(explorer).id_spec(),
        final(explorer).planet() == old(explorer).planet(),
        final(explorer).carried() == old(explorer).carried(),
        final(explorer).cells() == old(explorer).cells(),
        final(explorer).orch_buffer() == old(explorer).orch_buffer(),
        final(explorer).planet_buffer() == old(explorer).planet_buffer(),
        forall|k: u32|
            #[trigger] final(explorer).known().contains_key(k) <==> (old(explorer).known().contains_key(k) || neighbors@.contains(k) || k == old(explorer).planet()),
        forall|k: u32|
            k != old(explorer).planet() && #[trigger] neighbors@.contains(k) ==> unknown_info(
                final(explorer).known()[k],
            ),
        forall|k: u32|
            k != old(explorer).planet() && !neighbors@.contains(k) && #[trigger] old(explorer).known().contains_key(k) ==> final(explorer).known()[k] == old(explorer).known()[k],
        ({
            let i = final(explorer).known()[old(explorer).planet()];
            &&& i.neighbours is Some
            &&& i.neighbours->Some_0@ == dedup(neighbors@)
        }),
        final(explorer).model().known == with_neighbours(
            old(explorer).model().known,
            old(explorer).planet(),
            neighbors@,
        ),
{
    explorer.state = ExplorerState::Idle;
    let ghost k0 = explorer.topology_info@;
    let mut i: usize = 0;
    while i < neighbors.len()
        invariant
            0 <= i <= neighbors@.len(),
            explorer.state == ExplorerState::Idle,
            explorer.explorer_id == old(explorer).explorer_id,
            explorer.planet_id == old(explorer).planet_id,
            explorer.bag@ == old(explorer).bag@,
            explorer.energy_cells == old(explorer).energy_cells,
            explorer.buffer_orchestrator_msg@ == old(explorer).buffer_orchestrator_msg@,
            explorer.buffer_planet_msg@ == old(explorer).buffer_planet_msg@,
            k0 == old(explorer).topology_info@,
            forall|k: u32|
                #[trigger] explorer.topology_info@.contains_key(k) <==> (k0.contains_key(k)
                    || neighbors@.subrange(0, i as int).contains(k)),
            forall|k: u32|
                #[trigger] neighbors@.subrange(0, i as int).contains(k) ==> unknown_info(
                    explorer.topology_info@[k],
                ),
            forall|k: u32|
                !neighbors@.subrange(0, i as int).contains(k) && #[trigger] k0.contains_key(k)
                    ==> explorer.topology_info@[k] == k0[k],
        decreases neighbors@.len() - i,
    {
        let n = neighbors[i];
        explorer.topology_info.insert(n, unknown_planet());
        proof {
            let pre = neighbors@.subrange(0, i as int);
            let post = neighbors@.subrange(0, i as int + 1);
            assert(post == pre.push(n));
            assert forall|k: u32| #[trigger] post.contains(k) <==> (pre.contains(k) || k == n) by {
                if post.contains(k) {
                    let w = choose|w: int| 0 <= w < post.len() && post[w] == k;
                    if w < pre.len() {
                        assert(pre[w] == k);
                    }
                }
                if pre.contains(k) {
                    let w = choose|w: int| 0 <= w < pre.len() && pre[w] == k;
                    assert(post[w] == k);
                }
                if k == n {
                    assert(post[i as int] == k);
                }
            }
        }
        i += 1;
    }
    assert(neighbors@.subrange(0, neighbors@.len() as int) == neighbors@);
    let removed = explorer.topology_info.remove(&explorer.planet_id);
    match removed {
        Some(info) => {
            let updated = PlanetInfo {
                basic_resources: info.basic_resources,
                complex_resources: info.complex_resources,
                neighbours: Some(dedup_ids(&neighbors)),
            };
            explorer.topology_info.insert(explorer.planet_id, updated);
        },
        None => {
            let fresh = PlanetInfo {
                basic_resources: None,
                complex_resources: None,
                neighbours: Some(dedup_ids(&neighbors)),
            };
            explorer.topology_info.insert(explorer.planet_id, fresh);
        },
    }
}

/// Records the generation recipes of the node the agent stands on, without
/// repetition, creating its entry if needed; hands back the recorded list.
fn record_basic(explorer: &mut Explorer, list: &Vec<BasicKind>) -> (r: Vec<BasicKind>)
    ensures
        r@ == dedup(list@),
        final(explorer).model() == with_known(
            old(explorer).model(),
            with_basic(old(explorer).model().known, old(explorer).planet(), dedup(list@)),
        ),
        final(explorer).id_spec() == old(explorer).id_spec(),
        final(explorer).planet() == old(explorer).planet(),
        final(explorer).orch_buffer() == old(explorer).orch_buffer(),
        final(explorer).planet_buffer() == old(explorer).planet_buffer(),
{
    let recorded = dedup_basic(list);
    let ghost k0 = old(explorer).topology_info@;
    let removed = explorer.topology_info.remove(&explorer.planet_id);
    match removed {
        Some(info) => {
            let updated = PlanetInfo {
                basic_resources: Some(copy_vec(&recorded)),
                complex_resources: info.complex_resources,
                neighbours: info.neighbours,
            };
            explorer.topology_info.insert(explorer.planet_id, updated);
            proof {
                let p = explorer.planet_id;
                assert(k0.contains_key(p));
                assert(known_view(explorer.topology_info@) =~= with_basic(known_view(k0), p, dedup(list@)));
            }
        },
        None => {
            let fresh = PlanetInfo {
                basic_resources: Some(copy_vec(&recorded)),
                complex_resources: None,
                neighbours: None,
            };
            explorer.topology_info.insert(explorer.planet_id, fresh);
            proof {
                let p = explorer.planet_id;
                assert(known_view(explorer.topology_info@) =~= with_basic(known_view(k0), p, dedup(list@)));
            }
        },
    }
    copy_vec(&recorded)
}

/// Records the combination recipes of the node the agent stands on, without
/// repetition, creating its entry if needed; hands back the recorded list.
fn record_complex(explorer: &mut Explorer, list: &Vec<ComplexKind>) -> (r: Vec<ComplexKind>)
    ensures
        r@ == dedup(list@),
        final(explorer).model() == with_known(
            old(explorer).model(),
            with_complex(old(explorer).model().known, old(explorer).planet(), dedup(list@)),
        ),
        final(explorer).id_spec() == old(explorer).id_spec(),
        final(explorer).planet() == old(explorer).planet(),
        final(explorer).orch_buffer() == old(explorer).orch_buffer(),
        final(explorer).planet_buffer() == old(explorer).planet_buffer(),
{
    let recorded = dedup_complex(list);
    let ghost k0 = old(explorer).topology_info@;
    let removed = explorer.topology_info.remove(&explorer.planet_id);
    match removed {
        Some(info) => {
            let updated = PlanetInfo {
                complex_resources: Some(copy_vec(&recorded)),
                basic_resources: info.basic_resources,
                neighbours: info.neighbours,
            };
            explorer.topology_info.insert(explorer.planet_id, updated);
            proof {
                let p = explorer.planet_id;
                assert(k0.contains_key(p));
                assert(known_view(explorer.topology_info@) =~= with_complex(known_view(k0), p, dedup(list@)));
            }
        },
        None => {
            let fresh = PlanetInfo {
                complex_resources: Some(copy_vec(&recorded)),
                basic_resources: None,
                neighbours: None,
            };
            explorer.topology_info.insert(explorer.planet_id, fresh);
            proof {
                let p = explorer.planet_id;
                assert(known_view(explorer.topology_info@) =~= with_complex(known_view(k0), p, dedup(list@)));
            }
        },
    }
    copy_vec(&recorded)
}

/// `msg` asks for a combination whose prerequisites `carried` lacks.
pub open spec fn refused_combination(carried: Seq<ResourceKind>, msg: OrchestratorToExplorer) -> bool {
    match msg {
        OrchestratorToExplorer::CombineResourceRequest { to_generate } => !holds_pair(
            carried,
            recipe_inputs(to_generate).0,
            recipe_inputs(to_generate).1,
        ),
        _ => false,
    }
}

/// Handles a coordinator message, whatever the state.
fn dispatch_orchestrator_msg(explorer: &mut Explorer, msg: OrchestratorToExplorer) -> (r: Vec<
    ExplorerAction,
>)
    ensures
        stamped(r@, old(explorer).id_spec()),
        final(explorer).model() == orch_step(old(explorer).model(), msg).0,
        actions_view(r@) == orch_step(old(explorer).model(), msg).1,
        final(explorer).id_spec() == old(explorer).id_spec(),
        final(explorer).orch_buffer() == old(explorer).orch_buffer(),
        final(explorer).planet_buffer() == old(explorer).planet_buffer(),
        r@.len() <= 1,
        refused_combination(old(explorer).carried(), msg) ==> r@.len() == 1 && !(r@[0] is ToPlanet) && final(explorer).carried() == old(explorer).carried(),
{
    let mut out: Vec<ExplorerAction> = Vec::new();
    let ghost m0 = explorer.model();
    match msg {
        OrchestratorToExplorer::StartExplorerAI => out.push(start_explorer_ai(explorer)),
        OrchestratorToExplorer::ResetExplorerAI => {
            out.push(reset_explorer_ai(explorer));
            assert(known_view(explorer.topology_info@) =~= Map::<u32, InfoView>::empty());
        },
        OrchestratorToExplorer::StopExplorerAI => out.push(stop_explorer_ai(explorer)),
        OrchestratorToExplorer::KillExplorer => out.push(kill_explorer(explorer)),
        OrchestratorToExplorer::MoveToPlanet { planet_id } => move_to_planet(explorer, planet_id),
        OrchestratorToExplorer::CurrentPlanetRequest => out.push(current_planet_request(explorer)),
        OrchestratorToExplorer::SupportedResourceRequest => out.push(
            supperted_resource_request(explorer),
        ),
        OrchestratorToExplorer::SupportedCombinationRequest => out.push(
            supported_combination_request(explorer),
        ),
        OrchestratorToExplorer::GenerateResourceRequest { to_generate } => out.push(
            generate_resource_request(explorer, to_generate),
        ),
        OrchestratorToExplorer::CombineResourceRequest { to_generate } => out.push(
            combine_resource_request(explorer, to_generate),
        ),
        OrchestratorToExplorer::BagContentRequest => out.push(bag_content_request(explorer)),
        OrchestratorToExplorer::NeighborsResponse { neighbors } => neighbours_response(
            explorer,
            neighbors,
        ),
    }
    proof {
        let m1 = orch_step(m0, msg).0;
        assert(explorer.model().state == m1.state);
        assert(explorer.model().planet == m1.planet);
        assert(explorer.model().carried == m1.carried);
        assert(explorer.model().known == m1.known);
        assert(explorer.model().cells == m1.cells);
    }
    out
}

/// Handles a node message, whatever the state; the agent becomes idle.
fn dispatch_planet_msg(explorer: &mut Explorer, msg: PlanetToExplorer) -> (r: Vec<ExplorerAction>)
    ensures
        stamped(r@, old(explorer).id_spec()),
        final(explorer).model() == planet_step(old(explorer).model(), msg).0,
        actions_view(r@) == planet_step(old(explorer).model(), msg).1,
        final(explorer).status() == ExplorerState::Idle,
        final(explorer).id_spec() == old(explorer).id_spec(),
        final(explorer).orch_buffer() == old(explorer).orch_buffer(),
        final(explorer).planet_buffer() == old(explorer).planet_buffer(),
        r@.len() <= 1,
        msg is CombineResourceResponse ==> final(explorer).carried() == match msg->complex_response {
            CombineOutcome::Combined(k) => old(explorer).carried().push(ResourceKind::Complex(k)),
            CombineOutcome::Failed(a, b) => old(explorer).carried().push(a).push(b),
        },
        msg is GenerateResourceResponse ==> final(explorer).carried() == match msg->resource {
            Some(k) => old(explorer).carried().push(ResourceKind::Basic(k)),
            None => old(explorer).carried(),
        },
        msg is AvailableEnergyCellResponse ==> final(explorer).cells() == msg->available_cells,
{
    let waiting = explorer.state;
    let mut out: Vec<ExplorerAction> = Vec::new();
    match msg {
        PlanetToExplorer::SupportedResourceResponse { resource_list } => {
            let recorded = record_basic(explorer, &resource_list);
            if waiting == ExplorerState::WaitingForSupportedResources {
                out.push(
                    ExplorerAction::ToOrchestrator(
                        explorer.explorer_id, ExplorerToOrchestrator::SupportedResourceResult {
                            supported_resources: recorded,
                        },
                    ),
                );
            }
        },
        PlanetToExplorer::SupportedCombinationResponse { combination_list } => {
            let recorded = record_complex(explorer, &combination_list);
            if waiting == ExplorerState::WaitingForSupportedCombinations {
                out.push(
                    ExplorerAction::ToOrchestrator(
                        explorer.explorer_id, ExplorerToOrchestrator::SupportedCombinationResult {
                            combination_list: recorded,
                        },
                    ),
                );
            }
        },
        PlanetToExplorer::GenerateResourceResponse { resource } => {
            put_basic_resource_in_the_bag(explorer, resource);
        },
        PlanetToExplorer::CombineResourceResponse { complex_response } => {
            put_complex_resource_in_the_bag(explorer, complex_response);
        },
        PlanetToExplorer::AvailableEnergyCellResponse { available_cells } => {
            explorer.energy_cells = available_cells;
        },
        PlanetToExplorer::Stopped => {},
    }
    explorer.state = ExplorerState::Idle;
    out
}

/// Replays put-aside messages while the agent is idle: the coordinator's first,
/// then the node's, each in the order they arrived. Replay stops as soon as a
/// message leaves the agent in another state, and goes on at the next return to
/// idle.
#[verifier::rlimit(60)]
pub fn manage_buffer_msg(explorer: &mut Explorer) -> (r: Vec<ExplorerAction>)
    ensures
        stamped(r@, old(explorer).id_spec()),
        ({
            let fin = replay(
                old(explorer).model(),
                old(explorer).orch_buffer(),
                old(explorer).planet_buffer(),
            );
            &&& final(explorer).model() == fin.0
            &&& final(explorer).orch_buffer() == fin.1
            &&& final(explorer).planet_buffer() == fin.2
            &&& actions_view(r@) == fin.3
        }),
        final(explorer).id_spec() == old(explorer).id_spec(),
        old(explorer).status() != ExplorerState::Idle ==> r@.len() == 0 && final(explorer).orch_buffer() == old(explorer).orch_buffer() && final(explorer).planet_buffer() == old(explorer).planet_buffer() && final(explorer).status() == old(explorer).status(),
        exists|k: int|
            0 <= k <= old(explorer).orch_buffer().len() && final(explorer).orch_buffer() == old(explorer).orch_buffer().skip(k),
        exists|j: int|
            0 <= j <= old(explorer).planet_buffer().len() && final(explorer).planet_buffer() == old(explorer).planet_buffer().skip(j),
        final(explorer).planet_buffer() != old(explorer).planet_buffer() ==> final(explorer).orch_buffer().len() == 0,
        final(explorer).status() == ExplorerState::Idle ==> final(explorer).orch_buffer().len()
            == 0 && final(explorer).planet_buffer().len() == 0,
        old(explorer).orch_buffer().len() == 0 && old(explorer).planet_buffer().len() == 0 ==> r@.len()
            == 0 && final(explorer).carried() == old(explorer).carried(),
{
    let mut out: Vec<ExplorerAction> = Vec::new();
    let ghost ob = explorer.buffer_orchestrator_msg@;
    let ghost pb = explorer.buffer_planet_msg@;
    let ghost fin = replay(explorer.model(), ob, pb);
    assert(ob.skip(0) == ob);
    assert(pb.skip(0) == pb);
    assert(actions_view(out@) + fin.3 =~= fin.3);
    while explorer.state == ExplorerState::Idle && (explorer.buffer_orchestrator_msg.len() > 0
        || explorer.buffer_planet_msg.len() > 0)
        invariant
            explorer.explorer_id == old(explorer).explorer_id,
            stamped(out@, explorer.explorer_id),
            fin == replay(old(explorer).model(), ob, pb),
            ({
                let cur = replay(
                    explorer.model(),
                    explorer.buffer_orchestrator_msg@,
                    explorer.buffer_planet_msg@,
                );
                &&& cur.0 == fin.0
                &&& cur.1 == fin.1
                &&& cur.2 == fin.2
                &&& actions_view(out@) + cur.3 == fin.3
            }),
            ob == old(explorer).buffer_orchestrator_msg@,
            pb == old(explorer).buffer_planet_msg@,
            old(explorer).state != ExplorerState::Idle ==> out@.len() == 0
                && explorer.buffer_orchestrator_msg@ == ob && explorer.buffer_planet_msg@ == pb
                && explorer.state == old(explorer).state,
            exists|k: int|
                0 <= k <= ob.len() && explorer.buffer_orchestrator_msg@ == ob.skip(k),
            exists|j: int| 0 <= j <= pb.len() && explorer.buffer_planet_msg@ == pb.skip(j),
            explorer.buffer_planet_msg@ != pb ==> explorer.buffer_orchestrator_msg@.len() == 0,
            ob.len() == 0 && pb.len() == 0 ==> out@.len() == 0 && explorer.bag@ == old(explorer).bag@
                && explorer.buffer_orchestrator_msg@.len() == 0 && explorer.buffer_planet_msg@.len() == 0,
        decreases explorer.buffer_orchestrator_msg@.len() + explorer.buffer_planet_msg@.len(),
    {
        let ghost before_o = explorer.buffer_orchestrator_msg@;
        let ghost before_p = explorer.buffer_planet_msg@;
        match explorer.buffer_orchestrator_msg.pop_front() {
            Some(msg) => {
                proof {
                    let k = choose|k: int| 0 <= k <= ob.len() && before_o == ob.skip(k);
                    assert(explorer.buffer_orchestrator_msg@ =~= ob.skip(k + 1));
                    assert(explorer.buffer_orchestrator_msg@ =~= before_o.drop_first());
                }
                let ghost out0 = out@;
                let ghost m0 = explorer.model();
                let mut more = dispatch_orchestrator_msg(explorer, msg);
                out.append(&mut more);
                proof {
                    let st = orch_step(m0, msg);
                    let rest = replay(st.0, before_o.drop_first(), before_p);
                    assert(replay(m0, before_o, before_p).3 == st.1 + rest.3);
                    assert(actions_view(out@) =~= actions_view(out0) + st.1);
                    assert(actions_view(out@) + rest.3 =~= actions_view(out0) + (st.1 + rest.3));
                }
            },
            None => {
                match explorer.buffer_planet_msg.pop_front() {
                    Some(msg) => {
                        proof {
                            let j = choose|j: int| 0 <= j <= pb.len() && before_p == pb.skip(j);
                            assert(explorer.buffer_planet_msg@ =~= pb.skip(j + 1));
                            assert(explorer.buffer_planet_msg@ =~= before_p.drop_first());
                        }
                        let ghost out0 = out@;
                        let ghost m0 = explorer.model();
                        let mut more = dispatch_planet_msg(explorer, msg);
                        out.append(&mut more);
                        proof {
                            let st = planet_step(m0, msg);
                            let rest = replay(st.0, before_o, before_p.drop_first());
                            assert(replay(m0, before_o, before_p).3 == st.1 + rest.3);
                            assert(actions_view(out@) =~= actions_view(out0) + st.1);
                            assert(actions_view(out@) + rest.3 =~= actions_view(out0) + (st.1
                                + rest.3));
                        }
                    },
                    None => {},
                }
            },
        }
    }
    proof {
        let k = choose|k: int| 0 <= k <= ob.len() && explorer.buffer_orchestrator_msg@ == ob.skip(k);
        let j = choose|j: int| 0 <= j <= pb.len() && explorer.buffer_planet_msg@ == pb.skip(j);
        assert(explorer.orch_buffer() == old(explorer).orch_buffer().skip(k));
        assert(explorer.planet_buffer() == old(explorer).planet_buffer().skip(j));
        assert(actions_view(out@) + Seq::<ActionView>::empty() =~= actions_view(out@));
    }
    out
}

impl Explorer {
    /// A coordinator message arrives. Admissible in the current state, it is
    /// handled, and put-aside messages are replayed if the agent is then idle;
    /// otherwise it is put aside behind the earlier ones and nothing else changes.
    pub fn receive_orchestrator_msg(&mut self, msg: OrchestratorToExplorer) -> (r: Vec<
        ExplorerAction,
    >)
        ensures
            stamped(r@, old(self).id_spec()),
            old(self).wf() ==> final(self).wf(),
            orch_admissible(old(self).status(), msg) ==> {
                let st = orch_step(old(self).model(), msg);
                let fin = replay(st.0, old(self).orch_buffer(), old(self).planet_buffer());
                &&& final(self).model() == fin.0
                &&& final(self).orch_buffer() == fin.1
                &&& final(self).planet_buffer() == fin.2
                &&& actions_view(r@) == st.1 + fin.3
            },
            final(self).id_spec() == old(self).id_spec(),
            !orch_admissible(old(self).status(), msg) ==> r@.len() == 0 && put_aside_orch(
                *old(self),
                msg,
                *final(self),
            ),
            orch_admissible(old(self).status(), msg) ==> replayed_in_order(*old(self), *final(self)),
            old(self).status() == ExplorerState::Idle && old(self).orch_buffer().len() == 0
                && old(self).planet_buffer().len() == 0 && refused_combination(old(self).carried(), msg)
                ==> r@.len() == 1 && !(r@[0] is ToPlanet) && final(self).carried() == old(self).carried(),
    {
        if orch_msg_match_state(&self.state, &msg) {
            let mut out = dispatch_orchestrator_msg(self, msg);
            let ghost mid_o = self.buffer_orchestrator_msg@;
            let ghost mid_p = self.buffer_planet_msg@;
            assert(mid_o.skip(0) == mid_o);
            assert(mid_p.skip(0) == mid_p);
            proof {
                if old(self).wf() {
                    lemma_orch_step_keeps_sets(old(self).model(), msg);
                    lemma_replay_keeps_sets(self.model(), self.orch_buffer(), self.planet_buffer());
                }
            }
            let ghost out0 = out@;
            let mut more = manage_buffer_msg(self);
            let ghost more0 = more@;
            out.append(&mut more);
            assert(actions_view(out@) =~= actions_view(out0) + actions_view(more0));
            out
        } else {
            self.buffer_orchestrator_msg.push_back(msg);
            Vec::new()
        }
    }

    /// A node message arrives. Admissible in the current state, it is handled,
    /// the agent becomes idle and put-aside messages are replayed; otherwise it
    /// is put aside behind the earlier ones and nothing else changes.
    pub fn receive_planet_msg(&mut self, msg: PlanetToExplorer) -> (r: Vec<ExplorerAction>)
        ensures
            stamped(r@, old(self).id_spec()),
            old(self).wf() ==> final(self).wf(),
            planet_admissible(old(self).status(), msg) ==> {
                let st = planet_step(old(self).model(), msg);
                let fin = replay(st.0, old(self).orch_buffer(), old(self).planet_buffer());
                &&& final(self).model() == fin.0
                &&& final(self).orch_buffer() == fin.1
                &&& final(self).planet_buffer() == fin.2
                &&& actions_view(r@) == st.1 + fin.3
            },
            final(self).id_spec() == old(self).id_spec(),
            !planet_admissible(old(self).status(), msg) ==> r@.len() == 0 && put_aside_planet(
                *old(self),
                msg,
                *final(self),
            ),
            planet_admissible(old(self).status(), msg) ==> replayed_in_order(*old(self), *final(self)),
    {
        if planet_msg_match_state(&self.state, &msg) {
            let mut out = dispatch_planet_msg(self, msg);
            let ghost mid_o = self.buffer_orchestrator_msg@;
            let ghost mid_p = self.buffer_planet_msg@;
            assert(mid_o.skip(0) == mid_o);
            assert(mid_p.skip(0) == mid_p);
            proof {
                if old(self).wf() {
                    lemma_planet_step_keeps_sets(old(self).model(), msg);
                    lemma_replay_keeps_sets(self.model(), self.orch_buffer(), self.planet_buffer());
                }
            }
            let ghost out0 = out@;
            let mut more = manage_buffer_msg(self);
            let ghost more0 = more@;
            out.append(&mut more);
            assert(actions_view(out@) =~= actions_view(out0) + actions_view(more0));
            out
        } else {
            self.buffer_planet_msg.push_back(msg);
            Vec::new()
        }
    }
}

/// The agent asks the coordinator for the neighbours of its node and waits;
/// only an idle agent asks.
pub fn ask_neighbours(explorer: &mut Explorer) -> (r: Option<ExplorerAction>)
    ensures
        final(explorer).same_but_state(old(explorer)),
        old(explorer).status() == ExplorerState::Idle ==> final(explorer).status()
            == ExplorerState::WaitingForNeighbours && r == Some(
            ExplorerAction::ToOrchestrator(
                old(explorer).id_spec(), ExplorerToOrchestrator::NeighborsRequest { planet_id: old(explorer).planet() },
            ),
        ),
        old(explorer).status() != ExplorerState::Idle ==> r is None && final(explorer).status()
            == old(explorer).status(),
{
    if explorer.state == ExplorerState::Idle {
        explorer.state = ExplorerState::WaitingForNeighbours;
        Some(
            ExplorerAction::ToOrchestrator(
                explorer.explorer_id, ExplorerToOrchestrator::NeighborsRequest { planet_id: explorer.planet_id },
            ),
        )
    } else {
        None
    }
}

/// The agent asks the coordinator to move it to `dst` and waits for the
/// relocation; only an idle agent asks.
pub fn ask_travel(explorer: &mut Explorer, dst: u32) -> (r: Option<ExplorerAction>)
    ensures
        final(explorer).same_but_state(old(explorer)),
        old(explorer).status() == ExplorerState::Idle ==> final(explorer).status()
            == ExplorerState::Traveling && r == Some(
            ExplorerAction::ToOrchestrator(
                old(explorer).id_spec(), ExplorerToOrchestrator::TravelToPlanetRequest {
                    current_planet_id: old(explorer).planet(),
                    dst_planet_id: dst,
                },
            ),
        ),
        old(explorer).status() != ExplorerState::Idle ==> r is None && final(explorer).status()
            == old(explorer).status(),
{
    if explorer.state == ExplorerState::Idle {
        explorer.state = ExplorerState::Traveling;
        Some(
            ExplorerAction::ToOrchestrator(
                explorer.explorer_id, ExplorerToOrchestrator::TravelToPlanetRequest {
                    current_planet_id: explorer.planet_id,
                    dst_planet_id: dst,
                },
            ),
        )
    } else {
        None
    }
}

/// The agent asks its node how many charged units it has and waits; only an
/// idle agent asks.
pub fn ask_energy_cells(explorer: &mut Explorer) -> (r: Option<ExplorerAction>)
    ensures
        final(explorer).same_but_state(old(explorer)),
        old(explorer).status() == ExplorerState::Idle ==> final(explorer).status()
            == ExplorerState::WaitingForAvailableEnergyCells && r == Some(
            ExplorerAction::ToPlanet(ExplorerRequest::AvailableEnergyCell),
        ),
        old(explorer).status() != ExplorerState::Idle ==> r is None && final(explorer).status()
            == old(explorer).status(),
{
    if explorer.state == ExplorerState::Idle {
        explorer.state = ExplorerState::WaitingForAvailableEnergyCells;
        Some(ExplorerAction::ToPlanet(ExplorerRequest::AvailableEnergyCell))
    } else {
        None
    }
}

proof fn lemma_dedup_no_dup<T>(s: Seq<T>)
    ensures
        dedup(s).no_duplicates(),
        forall|x: T| dedup(s).contains(x) <==> s.contains(x),
    decreases s.len(),
{
    if s.len() > 0 {
        lemma_dedup_no_dup(s.drop_last());
        let rest = dedup(s.drop_last());
        assert forall|x: T| dedup(s).contains(x) <==> s.contains(x) by {
            if s.contains(x) && !s.drop_last().contains(x) {
                assert(x == s.last()) by {
                    let i = choose|i: int| 0 <= i < s.len() && s[i] == x;
                    if i < s.len() - 1 {
                        assert(s.drop_last()[i] == x);
                    }
                }
                if !rest.contains(s.last()) {
                    assert(rest.push(s.last())[rest.len() as int] == x);
                }
            }
            if s.drop_last().contains(x) {
                let i = choose|i: int| 0 <= i < s.len() - 1 && s.drop_last()[i] == x;
                assert(s[i] == x);
                if !rest.contains(s.last()) {
                    let j = choose|j: int| 0 <= j < rest.len() && rest[j] == x;
                    assert(rest.push(s.last())[j] == x);
                }
            }
            if dedup(s).contains(x) && !rest.contains(x) {
                assert(x == s.last()) by {
                    let j = choose|j: int| 0 <= j < dedup(s).len() && dedup(s)[j] == x;
                    if j < rest.len() {
                        assert(rest[j] == x);
                    }
                }
                assert(s[s.len() - 1] == x);
            }
        }
    }
}

/// Handling a coordinator message keeps every recorded list free of repetition.
pub proof fn lemma_orch_step_keeps_sets(m: AgentModel, msg: OrchestratorToExplorer)
    requires
        known_sets(m.known),
    ensures
        known_sets(orch_step(m, msg).0.known),
{
    match msg {
        OrchestratorToExplorer::NeighborsResponse { neighbors } => {
            lemma_dedup_no_dup(neighbors@);
            let k = with_neighbours(m.known, m.planet, neighbors@);
            assert forall|id: u32| #[trigger] k.contains_key(id) implies no_dup_opt(k[id].basic)
                && no_dup_opt(k[id].complex) && no_dup_opt(k[id].neighbours) by {
                if m.known.contains_key(id) {
                    assert(no_dup_opt(m.known[id].basic));
                }
            }
        },
        OrchestratorToExplorer::ResetExplorerAI => {
            assert(known_sets(Map::<u32, InfoView>::empty()));
        },
        _ => {},
    }
}

/// Handling a node message keeps every recorded list free of repetition.
pub proof fn lemma_planet_step_keeps_sets(m: AgentModel, msg: PlanetToExplorer)
    requires
        known_sets(m.known),
    ensures
        known_sets(planet_step(m, msg).0.known),
{
    match msg {
        PlanetToExplorer::SupportedResourceResponse { resource_list } => {
            lemma_dedup_no_dup(resource_list@);
            let k = with_basic(m.known, m.planet, dedup(resource_list@));
            assert forall|id: u32| #[trigger] k.contains_key(id) implies no_dup_opt(k[id].basic)
                && no_dup_opt(k[id].complex) && no_dup_opt(k[id].neighbours) by {
                if id != m.planet {
                    assert(m.known.contains_key(id));
                }
            }
        },
        PlanetToExplorer::SupportedCombinationResponse { combination_list } => {
            lemma_dedup_no_dup(combination_list@);
            let k = with_complex(m.known, m.planet, dedup(combination_list@));
            assert forall|id: u32| #[trigger] k.contains_key(id) implies no_dup_opt(k[id].basic)
                && no_dup_opt(k[id].complex) && no_dup_opt(k[id].neighbours) by {
                if id != m.planet {
                    assert(m.known.contains_key(id));
                }
            }
        },
        _ => {},
    }
}

/// Replay keeps every recorded list free of repetition.
pub proof fn lemma_replay_keeps_sets(
    m: AgentModel,
    ob: Seq<OrchestratorToExplorer>,
    pb: Seq<PlanetToExplorer>,
)
    requires
        known_sets(m.known),
    ensures
        known_sets(replay(m, ob, pb).0.known),
    decreases ob.len() + pb.len(),
{
    if m.state != ExplorerState::Idle || (ob.len() == 0 && pb.len() == 0) {
    } else if ob.len() > 0 {
        lemma_orch_step_keeps_sets(m, ob[0]);
        lemma_replay_keeps_sets(orch_step(m, ob[0]).0, ob.drop_first(), pb);
    } else {
        lemma_planet_step_keeps_sets(m, pb[0]);
        lemma_replay_keeps_sets(planet_step(m, pb[0]).0, ob, pb.drop_first());
    }
}

/// Replay ends with an idle agent only once both buffers are empty; otherwise
/// it stopped at the first message that left the agent busy.
pub proof fn lemma_replay_idle_drains_all(
    m: AgentModel,
    ob: Seq<OrchestratorToExplorer>,
    pb: Seq<PlanetToExplorer>,
)
    ensures
        replay(m, ob, pb).0.state == ExplorerState::Idle ==> replay(m, ob, pb).1.len() == 0
            && replay(m, ob, pb).2.len() == 0,
    decreases ob.len() + pb.len(),
{
    if m.state != ExplorerState::Idle || (ob.len() == 0 && pb.len() == 0) {
    } else if ob.len() > 0 {
        lemma_replay_idle_drains_all(orch_step(m, ob[0]).0, ob.drop_first(), pb);
    } else {
        lemma_replay_idle_drains_all(planet_step(m, pb[0]).0, ob, pb.drop_first());
    }
}

/// A combination whose prerequisites the agent lacks fails at the agent: it
/// answers the coordinator, sends nothing to the node, and keeps its state,
/// bag and knowledge.
pub proof fn lemma_missing_prerequisites_fail_locally(m: AgentModel, to_generate: ComplexKind)
    requires
        !holds_pair(m.carried, recipe_inputs(to_generate).0, recipe_inputs(to_generate).1),
    ensures
        ({
            let st = orch_step(m, OrchestratorToExplorer::CombineResourceRequest { to_generate });
            &&& st.1 == seq![ActionView::CombineRefused(to_generate, BagError::MissingResource)]
            &&& forall|i: int| 0 <= i < st.1.len() ==> !(st.1[i] is ToPlanet)
            &&& st.0.carried == m.carried
            &&& st.0 == m
        }),
{
}

/// Arrival order is kept: messages put aside one after the other stand in the
/// coordinator buffer behind the earlier ones, in the order they arrived.
pub proof fn lemma_put_aside_in_arrival_order(e: Seq<Explorer>, msgs: Seq<OrchestratorToExplorer>)
    requires
        e.len() == msgs.len() + 1,
        forall|i: int| 0 <= i < msgs.len() ==> put_aside_orch(e[i], #[trigger] msgs[i], e[i + 1]),
    ensures
        e.last().orch_buffer() == e[0].orch_buffer() + msgs,
        e.last().status() == e[0].status(),
    decreases msgs.len(),
{
    if msgs.len() == 0 {
        assert(e[0].orch_buffer() + msgs =~= e[0].orch_buffer());
    } else {
        let e2 = e.drop_last();
        let m2 = msgs.drop_last();
        assert forall|i: int| 0 <= i < m2.len() implies put_aside_orch(e2[i], #[trigger] m2[i], e2[i + 1]) by {
            assert(put_aside_orch(e[i], msgs[i], e[i + 1]));
        }
        lemma_put_aside_in_arrival_order(e2, m2);
        let n = msgs.len() - 1;
        assert(put_aside_orch(e[n], msgs[n], e[n + 1]));
        assert(e.last().orch_buffer() =~= e[0].orch_buffer() + msgs);
    }
}

/// Buffered messages are delivered in the order received: after messages were
/// put aside and a replay followed, what is still buffered is a suffix of the
/// old buffer followed by those messages, so whatever was replayed was taken
/// from the front, earliest first.
pub proof fn lemma_replay_in_arrival_order(
    e: Seq<Explorer>,
    msgs: Seq<OrchestratorToExplorer>,
    f: Explorer,
)
    requires
        e.len() == msgs.len() + 1,
        forall|i: int| 0 <= i < msgs.len() ==> put_aside_orch(e[i], #[trigger] msgs[i], e[i + 1]),
        replayed_in_order(e.last(), f),
    ensures
        exists|k: int|
            0 <= k <= e[0].orch_buffer().len() + msgs.len() && f.orch_buffer() == (e[0].orch_buffer()
                + msgs).skip(k),
{
    lemma_put_aside_in_arrival_order(e, msgs);
    let k = choose|k: int|
        0 <= k <= e.last().orch_buffer().len() && f.orch_buffer() == e.last().orch_buffer().skip(k);
    assert(f.orch_buffer() == (e[0].orch_buffer() + msgs).skip(k));
}

} // verus!
