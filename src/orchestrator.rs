use vstd::prelude::*;

use crate::explorer::{Explorer, ExplorerState, ExplorerToOrchestrator};
use crate::registry::PlanetType;
use crate::topology_file::{parse_topology, parsed_view, topology_file_of, ParsedLine};
use crate::topology::{is_graph, no_edges, Topology, TopologyError};
use crate::Status;

verus! {

/// One line of a topology description: a node, its type and the ids of its neighbours.
#[derive(Clone, Debug, PartialEq, Eq)]
pub struct NodeLine {
    pub id: u32,
    pub kind: PlanetType,
    pub neighbors: Vec<u32>,
}

/// Why a galaxy could not be set up or changed.
#[derive(Clone, Copy, Debug, PartialEq, Eq, Structural)]
pub enum GalaxyError {
    /// Two lines describe the same node.
    DuplicateId(u32),
    /// A neighbour that no line describes.
    UnknownNeighbor(u32),
    /// An adjacency row without the node's own id.
    EmptyRow(usize),
    /// An agent id that is already registered.
    DuplicateExplorer(u32),
    /// An agent that is not registered.
    UnknownExplorer(u32),
    /// A malformed line of a topology file; lines count from 1.
    Parse(usize),
    /// Some node did not acknowledge its kill directive in time.
    ResetTimeout,
    /// A reply from a node that is not registered.
    UnknownPlanet(u32),
    Topology(TopologyError),
}

/// A reply from a node to the coordinator.
#[derive(Clone, Copy, Debug, PartialEq, Eq, Structural)]
pub enum PlanetToOrchestrator {
    SunrayAck { planet_id: u32 },
    /// `survived` is false when the node had no artifact to answer with.
    AsteroidAck { planet_id: u32, survived: bool },
    InternalStateResponse { planet_id: u32 },
    StartPlanetAIResult { planet_id: u32 },
    StopPlanetAIResult { planet_id: u32 },
    KillPlanetResult { planet_id: u32 },
    Stopped { planet_id: u32 },
}

/// The environmental event of one tick.
#[derive(Clone, Copy, Debug, PartialEq, Eq, Structural)]
pub enum GlobalEvent {
    Sunray,
    Asteroid,
}

/// Ticks in one cycle of global events: a benign event, then a hostile one.
pub const EVENT_CYCLE: u32 = 2;

/// A topology description as plain values: per line, the node id and its neighbours.
pub open spec fn desc_view(lines: Seq<NodeLine>) -> Seq<(u32, Seq<u32>)> {
    lines.map_values(|l: NodeLine| (l.id, l.neighbors@))
}

/// Node ids, in slot order, of a topology description.
pub open spec fn line_ids(d: Seq<(u32, Seq<u32>)>) -> Seq<u32> {
    d.map_values(|l: (u32, Seq<u32>)| l.0)
}

/// Slots `i` and `j` are linked when they differ and one of the two lists the
/// other as a neighbour.
pub open spec fn described_link(d: Seq<(u32, Seq<u32>)>, i: int, j: int) -> bool {
    i != j && (d[i].1.contains(d[j].0) || d[j].1.contains(d[i].0))
}

/// The adjacency matrix that a topology description gives.
pub open spec fn described_matrix(d: Seq<(u32, Seq<u32>)>) -> Seq<Seq<bool>> {
    Seq::new(d.len(), |i: int| Seq::new(d.len(), |j: int| described_link(d, i, j)))
}

/// The description is usable: ids are distinct and every neighbour is described.
pub open spec fn valid_description(d: Seq<(u32, Seq<u32>)>) -> bool {
    &&& line_ids(d).no_duplicates()
    &&& forall|i: int, k: int|
        0 <= i < d.len() && 0 <= k < d[i].1.len() ==> line_ids(d).contains(#[trigger] d[i].1[k])
}

/// The event of tick `count` of a cycle.
pub open spec fn event_of_tick(count: u32) -> GlobalEvent {
    if count == EVENT_CYCLE - 1 {
        GlobalEvent::Asteroid
    } else {
        GlobalEvent::Sunray
    }
}

/// Line `a` lists the id of line `b` among its first `kk` neighbours, counting
/// only lines before `x`, and line `x` up to its `kk`-th neighbour.
pub open spec fn partial_link(d: Seq<(u32, Seq<u32>)>, x: int, kk: int, a: int, b: int) -> bool {
    exists|k: int| 0 <= k < d[a].1.len() && (a < x || (a == x && k < kk)) && #[trigger] d[a].1[k] == d[b].0
}

proof fn lemma_partial_link_step(lines: Seq<(u32, Seq<u32>)>, x: int, kk: int, y: int)
    requires
        0 <= x < lines.len(),
        0 <= kk < lines[x].1.len(),
        0 <= y < lines.len(),
        lines[y].0 == lines[x].1[kk],
        line_ids(lines).no_duplicates(),
    ensures
        forall|a: int, b: int|
            0 <= a < lines.len() && 0 <= b < lines.len() ==> (#[trigger] partial_link(
                lines,
                x,
                kk + 1,
                a,
                b,
            ) <==> (partial_link(lines, x, kk, a, b) || (a == x && b == y))),
{
    assert forall|a: int, b: int|
        0 <= a < lines.len() && 0 <= b < lines.len() implies (#[trigger] partial_link(
        lines,
        x,
        kk + 1,
        a,
        b,
    ) <==> (partial_link(lines, x, kk, a, b) || (a == x && b == y))) by {
        if partial_link(lines, x, kk + 1, a, b) && !partial_link(lines, x, kk, a, b) {
            let k = choose|k: int|
                0 <= k < lines[a].1.len() && (a < x || (a == x && k < kk + 1))
                    && #[trigger] lines[a].1[k] == lines[b].0;
            assert(a == x && k == kk);
            assert(line_ids(lines)[b] == line_ids(lines)[y]);
        }
        if a == x && b == y {
            assert(lines[a].1[kk] == lines[b].0);
        }
    }
}

proof fn lemma_partial_link_full(lines: Seq<(u32, Seq<u32>)>, a: int, b: int)
    requires
        0 <= a < lines.len(),
        0 <= b < lines.len(),
    ensures
        partial_link(lines, lines.len() as int, 0, a, b) == lines[a].1.contains(lines[b].0),
{
    if lines[a].1.contains(lines[b].0) {
        let k = choose|k: int| 0 <= k < lines[a].1.len() && lines[a].1[k] == lines[b].0;
        assert(lines[a].1[k] == lines[b].0);
    }
}

/// True when `v` holds `id`.
fn contains_id(v: &Vec<u32>, id: u32) -> (r: bool)
    ensures
        r == v@.contains(id),
{
    let mut i: usize = 0;
    while i < v.len()
        invariant
            0 <= i <= v@.len(),
            forall|k: int| 0 <= k < i ==> v@[k] != id,
        decreases v@.len() - i,
    {
        if v[i] == id {
            assert(v@[i as int] == id);
            return true;
        }
        i += 1;
    }
    false
}

/// The index of `id` in `v`, which holds it.
fn find_id(v: &Vec<u32>, id: u32) -> (r: usize)
    requires
        v@.contains(id),
    ensures
        r < v@.len(),
        v@[r as int] == id,
{
    let mut i: usize = 0;
    while i < v.len()
        invariant
            0 <= i <= v@.len(),
            forall|k: int| 0 <= k < i ==> v@[k] != id,
            v@.contains(id),
        decreases v@.len() - i,
    {
        if v[i] == id {
            return i;
        }
        i += 1;
    }
    proof {
        let k = choose|k: int| 0 <= k < v@.len() && v@[k] == id;
        assert(v@[k] != id);
    }
    0
}

/// A topology description given as adjacency rows: the first entry of a row is
/// the node id, the others its neighbours.
pub open spec fn rows_view(adj: Seq<Vec<u32>>) -> Seq<(u32, Seq<u32>)> {
    adj.map_values(|r: Vec<u32>| (r@[0], r@.skip(1)))
}

/// The node that sent `msg`.
pub open spec fn reply_planet(msg: PlanetToOrchestrator) -> u32 {
    match msg {
        PlanetToOrchestrator::SunrayAck { planet_id } => planet_id,
        PlanetToOrchestrator::AsteroidAck { planet_id, .. } => planet_id,
        PlanetToOrchestrator::InternalStateResponse { planet_id } => planet_id,
        PlanetToOrchestrator::StartPlanetAIResult { planet_id } => planet_id,
        PlanetToOrchestrator::StopPlanetAIResult { planet_id } => planet_id,
        PlanetToOrchestrator::KillPlanetResult { planet_id } => planet_id,
        PlanetToOrchestrator::Stopped { planet_id } => planet_id,
    }
}

/// The reply reports a destruction, so a kill directive is due.
pub open spec fn kills(msg: PlanetToOrchestrator) -> bool {
    match msg {
        PlanetToOrchestrator::AsteroidAck { survived, .. } => !survived,
        _ => false,
    }
}

/// The status that a reply gives its node, if it gives one.
pub open spec fn status_after(msg: PlanetToOrchestrator) -> Option<Status> {
    match msg {
        PlanetToOrchestrator::AsteroidAck { survived, .. } => if survived {
            None
        } else {
            Some(Status::Dead)
        },
        PlanetToOrchestrator::StartPlanetAIResult { .. } => Some(Status::Running),
        PlanetToOrchestrator::StopPlanetAIResult { .. } => Some(Status::Paused),
        PlanetToOrchestrator::KillPlanetResult { .. } => Some(Status::Dead),
        _ => None,
    }
}

/// The ids whose status is not `Dead`, in order.
pub open spec fn living(ids: Seq<u32>, st: Seq<Status>) -> Seq<u32>
    decreases ids.len(),
{
    if ids.len() == 0 || st.len() != ids.len() {
        Seq::empty()
    } else {
        let rest = living(ids.drop_last(), st.drop_last());
        if st.last() != Status::Dead {
            rest.push(ids.last())
        } else {
            rest
        }
    }
}

/// A parsed topology file as a topology description.
pub open spec fn file_desc(d: Seq<(u32, Option<PlanetType>, Seq<u32>)>) -> Seq<(u32, Seq<u32>)> {
    d.map_values(|x: (u32, Option<PlanetType>, Seq<u32>)| (x.0, x.2))
}

/// `o` holds the galaxy of the description `lines`.
pub open spec fn galaxy_of(o: Orchestrator, lines: Seq<NodeLine>) -> bool {
    &&& o.wf()
    &&& o.ids() == line_ids(desc_view(lines))
    &&& o.types() == lines.map_values(|l: NodeLine| l.kind)
    &&& o.statuses().len() == lines.len()
    &&& forall|s: int| 0 <= s < lines.len() ==> #[trigger] o.statuses()[s] == Status::Paused
    &&& o.topology() == described_matrix(desc_view(lines))
}

/// The status that an agent report gives the agent, if it gives one.
pub open spec fn agent_status_after(report: ExplorerToOrchestrator) -> Option<Status> {
    match report {
        ExplorerToOrchestrator::StartExplorerAIResult => Some(Status::Running),
        ExplorerToOrchestrator::ResetExplorerAIResult => Some(Status::Running),
        ExplorerToOrchestrator::StopExplorerAIResult => Some(Status::Paused),
        ExplorerToOrchestrator::KillExplorerResult => Some(Status::Dead),
        _ => None,
    }
}

/// Every node is `Dead`.
pub open spec fn all_dead(st: Seq<Status>) -> bool {
    forall|k: int| 0 <= k < st.len() ==> st[k] == Status::Dead
}

/// Every registered node is `Paused`.
pub open spec fn all_paused(o: Orchestrator) -> bool {
    forall|s: int| 0 <= s < o.statuses().len() ==> #[trigger] o.statuses()[s] == Status::Paused
}

/// Every registered node has the default strategy.
pub open spec fn all_default_type(o: Orchestrator) -> bool {
    forall|s: int| 0 <= s < o.types().len() ==> #[trigger] o.types()[s] == PlanetType::OneMillionCrabs
}

/// `o` is the coordinator of an empty galaxy.
pub open spec fn empty_galaxy(o: Orchestrator) -> bool {
    &&& o.wf()
    &&& o.ids().len() == 0
    &&& o.topology().len() == 0
    &&& o.types().len() == 0
    &&& o.statuses().len() == 0
    &&& o.agents().len() == 0
    &&& o.tick() == 0
}

/// The coordinator's view of the galaxy: the topology, and per slot the node's
/// id, type and status.
pub struct Orchestrator {
    galaxy_topology: Topology,
    planet_ids: Vec<u32>,
    planet_types: Vec<PlanetType>,
    planets_status: Vec<Status>,
    explorer_ids: Vec<u32>,
    explorer_status: Vec<Status>,
    tick_count: u32,
}

impl Orchestrator {
    pub closed spec fn topology(&self) -> Seq<Seq<bool>> {
        self.galaxy_topology@
    }

    pub closed spec fn ids(&self) -> Seq<u32> {
        self.planet_ids@
    }

    pub closed spec fn types(&self) -> Seq<PlanetType> {
        self.planet_types@
    }

    pub closed spec fn statuses(&self) -> Seq<Status> {
        self.planets_status@
    }

    pub closed spec fn agents(&self) -> Seq<u32> {
        self.explorer_ids@
    }

    pub closed spec fn agent_statuses(&self) -> Seq<Status> {
        self.explorer_status@
    }

    pub closed spec fn tick(&self) -> u32 {
        self.tick_count
    }

    /// The topology is a graph with one slot per node, ids are distinct and the
    /// tick stays within a cycle.
    pub open spec fn wf(&self) -> bool {
        &&& is_graph(self.topology())
        &&& self.topology().len() == self.ids().len()
        &&& self.types().len() == self.ids().len()
        &&& self.statuses().len() == self.ids().len()
        &&& self.ids().no_duplicates()
        &&& self.agent_statuses().len() == self.agents().len()
        &&& self.agents().no_duplicates()
        &&& self.tick() < EVENT_CYCLE
    }

    /// The coordinator of an empty galaxy.
    pub fn new() -> (r: Orchestrator)
        ensures
            empty_galaxy(r),
    {
        let r = Orchestrator {
            galaxy_topology: Topology::with_size(0),
            planet_ids: Vec::new(),
            planet_types: Vec::new(),
            planets_status: Vec::new(),
            explorer_ids: Vec::new(),
            explorer_status: Vec::new(),
            tick_count: 0,
        };
        assert(r.topology() =~= no_edges(0));
        r
    }

    /// Back to an empty galaxy. The result does not depend on what was there.
    pub fn reset(&mut self)
        ensures
            empty_galaxy(*final(self)),
    {
        *self = Orchestrator::new();
    }

    /// Number of registered nodes.
    pub fn n_planets(&self) -> (r: usize)
        ensures
            r == self.ids().len(),
    {
        self.planet_ids.len()
    }

    /// The slot of node `id`, if it is registered.
    pub fn planet_slot(&self, id: u32) -> (r: Option<usize>)
        ensures
            match r {
                Some(s) => s < self.ids().len() && self.ids()[s as int] == id,
                None => !self.ids().contains(id),
            },
    {
        let mut i: usize = 0;
        while i < self.planet_ids.len()
            invariant
                0 <= i <= self.planet_ids@.len(),
                forall|k: int| 0 <= k < i ==> self.planet_ids@[k] != id,
            decreases self.planet_ids@.len() - i,
        {
            if self.planet_ids[i] == id {
                return Some(i);
            }
            i += 1;
        }
        None
    }

    /// The status of node `id`, if it is registered.
    pub fn planet_status(&self, id: u32) -> (r: Option<Status>)
        requires
            self.wf(),
        ensures
            match r {
                Some(st) => exists|s: int|
                    0 <= s < self.ids().len() && self.ids()[s] == id && self.statuses()[s] == st,
                None => !self.ids().contains(id),
            },
    {
        match self.planet_slot(id) {
            Some(s) => Some(self.planets_status[s]),
            None => None,
        }
    }

    /// True when slots `i` and `j` are linked.
    pub fn is_linked(&self, i: usize, j: usize) -> (r: bool)
        requires
            self.wf(),
            i < self.ids().len(),
            j < self.ids().len(),
        ensures
            r == self.topology()[i as int][j as int],
    {
        self.galaxy_topology.is_linked(i, j)
    }

    /// Removes the link between slots `i` and `j`; refused, with nothing
    /// changed, when either is not a slot.
    pub fn destroy_topology_link(&mut self, planet_one_pos: usize, planet_two_pos: usize) -> (r:
        Result<(), GalaxyError>)
        requires
            old(self).wf(),
        ensures
            final(self).wf(),
            final(self).ids() == old(self).ids(),
            final(self).statuses() == old(self).statuses(),
            r is Err <==> !(planet_one_pos < old(self).ids().len() && planet_two_pos < old(self).ids().len()),
            r is Err ==> r == Err::<(), GalaxyError>(
                GalaxyError::Topology(TopologyError::IndexOutOfBounds),
            ) && final(self).topology() == old(self).topology(),
            r is Ok ==> forall|a: int, b: int|
                0 <= a < final(self).ids().len() && 0 <= b < final(self).ids().len() ==> #[trigger] final(self).topology()[a][b] == if (a == planet_one_pos && b == planet_two_pos) || (a
                    == planet_two_pos && b == planet_one_pos) {
                    false
                } else {
                    old(self).topology()[a][b]
                },
    {
        match self.galaxy_topology.destroy_topology_link(planet_one_pos, planet_two_pos) {
            Ok(()) => Ok(()),
            Err(e) => Err(GalaxyError::Topology(e)),
        }
    }

    /// Sets up the galaxy of a topology description: one slot per line, in
    /// order, every node `Paused`, and the links that the lines give. Refused,
    /// with nothing changed, when two lines share an id or a neighbour is not
    /// described.
    pub fn initialize_galaxy(&mut self, lines: &Vec<NodeLine>) -> (r: Result<(), GalaxyError>)
        requires
            old(self).wf(),
        ensures
            final(self).wf(),
            r is Ok <==> valid_description(desc_view(lines@)),
            r is Ok ==> galaxy_of(*final(self), lines@),
            r is Err ==> {
                &&& final(self).ids() == old(self).ids()
                &&& final(self).types() == old(self).types()
                &&& final(self).statuses() == old(self).statuses()
                &&& final(self).topology() == old(self).topology()
            },
            match r {
                Err(GalaxyError::DuplicateId(x)) => exists|a: int, b: int|
                    0 <= a < b < lines@.len() && desc_view(lines@)[a].0 == x && desc_view(lines@)[b].0
                        == x,
                Err(GalaxyError::UnknownNeighbor(x)) => !line_ids(desc_view(lines@)).contains(x) && exists|
                    a: int,
                    k: int,
                |
                    0 <= a < lines@.len() && 0 <= k < desc_view(lines@)[a].1.len() && desc_view(
                        lines@,
                    )[a].1[k] == x,
                Err(_) => false,
                Ok(_) => true,
            },
    {
        let n = lines.len();
        let ghost ls = desc_view(lines@);
        let ghost ids_spec = line_ids(ls);
        // ids, refusing a repeated one
        let mut ids: Vec<u32> = Vec::new();
        let mut i: usize = 0;
        while i < n
            invariant
                0 <= i <= n,
                n == ls.len(),
                ls == desc_view(lines@),
                self.wf(),
                ids_spec == line_ids(ls),
                ids@ == ids_spec.subrange(0, i as int),
                ids@.no_duplicates(),
            decreases n - i,
        {
            let id = lines[i].id;
            assert(id == ls[i as int].0);
            let mut k: usize = 0;
            while k < i
                invariant
                    0 <= k <= i,
                    i < n,
                    n == ls.len(),
                    ls == desc_view(lines@),
                    self.wf(),
                    id == ls[i as int].0,
                    ids@ == ids_spec.subrange(0, i as int),
                    ids_spec == line_ids(ls),
                    forall|m: int| 0 <= m < k ==> ids@[m] != id,
                decreases i - k,
            {
                if ids[k] == id {
                    proof {
                        assert(ids_spec[k as int] == ls[k as int].0);
                        assert(ids_spec[i as int] == ls[i as int].0);
                        assert(!ids_spec.no_duplicates());
                    }
                    return Err(GalaxyError::DuplicateId(id));
                }
                k += 1;
            }
            ids.push(id);
            proof {
                assert(ids@ =~= ids_spec.subrange(0, i as int + 1));
            }
            i += 1;
        }
        assert(ids@ =~= ids_spec);
        // every neighbour must be described
        let mut a: usize = 0;
        while a < n
            invariant
                0 <= a <= n,
                n == ls.len(),
                ls == desc_view(lines@),
                self.wf(),
                ids@ == ids_spec,
                ids_spec == line_ids(ls),
                ids_spec.no_duplicates(),
                forall|x: int, k: int|
                    0 <= x < a && 0 <= k < ls[x].1.len() ==> ids_spec.contains(
                        #[trigger] ls[x].1[k],
                    ),
            decreases n - a,
        {
            let row = &lines[a].neighbors;
            assert(row@ == ls[a as int].1);
            let mut k: usize = 0;
            while k < row.len()
                invariant
                    0 <= k <= row@.len(),
                    a < n,
                    n == ls.len(),
                    ls == desc_view(lines@),
                    self.wf(),
                    row@ == ls[a as int].1,
                    ids@ == ids_spec,
                    ids_spec == line_ids(ls),
                    forall|x: int, m: int|
                        0 <= x < a && 0 <= m < ls[x].1.len() ==> ids_spec.contains(
                            #[trigger] ls[x].1[m],
                        ),
                    forall|m: int| 0 <= m < k ==> ids_spec.contains(#[trigger] row@[m]),
                decreases row@.len() - k,
            {
                if !contains_id(&ids, row[k]) {
                    return Err(GalaxyError::UnknownNeighbor(row[k]));
                }
                k += 1;
            }
            a += 1;
        }
        // build the matrix
        let mut topo = Topology::with_size(n);
        let mut x: usize = 0;
        while x < n
            invariant
                0 <= x <= n,
                n == ls.len(),
                ls == desc_view(lines@),
                self.wf(),
                ids@ == ids_spec,
                ids_spec == line_ids(ls),
                ids_spec.no_duplicates(),
                valid_description(ls),
                topo.wf(),
                topo.size() == n,
                forall|p: int, q: int|
                    0 <= p < n && 0 <= q < n ==> #[trigger] topo@[p][q] == (p != q && (
                    partial_link(ls, x as int, 0, p, q) || partial_link(ls, x as int, 0, q, p))),
            decreases n - x,
        {
            let row = &lines[x].neighbors;
            assert(row@ == ls[x as int].1);
            let mut k: usize = 0;
            while k < row.len()
                invariant
                    0 <= k <= row@.len(),
                    x < n,
                    n == ls.len(),
                    ls == desc_view(lines@),
                    self.wf(),
                    row@ == ls[x as int].1,
                    ids@ == ids_spec,
                    ids_spec == line_ids(ls),
                    ids_spec.no_duplicates(),
                    valid_description(ls),
                    topo.wf(),
                    topo.size() == n,
                    forall|p: int, q: int|
                        0 <= p < n && 0 <= q < n ==> #[trigger] topo@[p][q] == (p != q && (
                        partial_link(ls, x as int, k as int, p, q) || partial_link(
                            ls,
                            x as int,
                            k as int,
                            q,
                            p,
                        ))),
                decreases row@.len() - k,
            {
                let nb = row[k];
                proof {
                    assert(ids_spec.contains(ls[x as int].1[k as int]));
                }
                let y = find_id(&ids, nb);
                let ghost m0 = topo@;
                if x != y {
                    topo.set_link(x, y, true);
                }
                proof {
                    lemma_partial_link_step(ls, x as int, k as int, y as int);
                    assert forall|p: int, q: int| 0 <= p < n && 0 <= q < n implies #[trigger] topo@[p][q]
                        == (p != q && (partial_link(ls, x as int, k as int + 1, p, q) || partial_link(
                        ls,
                        x as int,
                        k as int + 1,
                        q,
                        p,
                    ))) by {
                        assert(m0[p][q] == (p != q && (partial_link(ls, x as int, k as int, p, q)
                            || partial_link(ls, x as int, k as int, q, p))));
                    }
                }
                k += 1;
            }
            proof {
                assert forall|p: int, q: int| 0 <= p < n && 0 <= q < n implies (partial_link(
                    ls,
                    x as int,
                    ls[x as int].1.len() as int,
                    p,
                    q,
                ) == partial_link(ls, x as int + 1, 0, p, q)) by {}
            }
            x += 1;
        }
        proof {
            assert forall|p: int, q: int| 0 <= p < n && 0 <= q < n implies #[trigger] topo@[p][q]
                == described_matrix(ls)[p][q] by {
                lemma_partial_link_full(ls, p, q);
                lemma_partial_link_full(ls, q, p);
            }
            assert(topo@ =~= described_matrix(ls)) by {
                assert forall|p: int| 0 <= p < n implies #[trigger] topo@[p] =~= described_matrix(ls)[p] by {
                    assert(topo@[p].len() == n);
                }
            }
        }
        let mut types: Vec<PlanetType> = Vec::new();
        let mut statuses: Vec<Status> = Vec::new();
        let mut t: usize = 0;
        while t < n
            invariant
                0 <= t <= n,
                n == ls.len(),
                ls == desc_view(lines@),
                self.wf(),
                types@ == lines@.map_values(|l: NodeLine| l.kind).subrange(0, t as int),
                statuses@.len() == t,
                forall|s: int| 0 <= s < t ==> #[trigger] statuses@[s] == Status::Paused,
            decreases n - t,
        {
            types.push(lines[t].kind);
            statuses.push(Status::Paused);
            assert(types@ =~= lines@.map_values(|l: NodeLine| l.kind).subrange(0, t as int + 1));
            t += 1;
        }
        assert(types@ =~= lines@.map_values(|l: NodeLine| l.kind));
        self.galaxy_topology = topo;
        self.planet_ids = ids;
        self.planet_types = types;
        self.planets_status = statuses;
        Ok(())
    }

    /// A reply from a node. A hostile-event reply without survival marks the
    /// node `Dead`, severs all its links and returns its id, to which a kill
    /// directive is due; start, stop and kill acknowledgements set the status.
    /// A reply from an unregistered node is refused with nothing changed.
    pub fn handle_planet_message(&mut self, msg: PlanetToOrchestrator) -> (r: Result<
        Option<u32>,
        GalaxyError,
    >)
        requires
            old(self).wf(),
        ensures
            final(self).wf(),
            final(self).ids() == old(self).ids(),
            final(self).types() == old(self).types(),
            final(self).tick() == old(self).tick(),
            !old(self).ids().contains(reply_planet(msg)) ==> r == Err::<Option<u32>, GalaxyError>(
                GalaxyError::UnknownPlanet(reply_planet(msg)),
            ) && final(self).statuses() == old(self).statuses() && final(self).topology() == old(self).topology(),
            old(self).ids().contains(reply_planet(msg)) ==> {
                let s = old(self).ids().index_of(reply_planet(msg));
                &&& r == Ok::<Option<u32>, GalaxyError>(
                    if kills(msg) {
                        Some(reply_planet(msg))
                    } else {
                        None
                    },
                )
                &&& final(self).statuses() == match status_after(msg) {
                    Some(st) => old(self).statuses().update(s, st),
                    None => old(self).statuses(),
                }
                &&& forall|a: int, b: int|
                    0 <= a < old(self).ids().len() && 0 <= b < old(self).ids().len()
                        ==> #[trigger] final(self).topology()[a][b] == (old(self).topology()[a][b]
                        && !(status_after(msg) == Some(Status::Dead) && (a == s || b == s)))
            },
    {
        let id = match msg {
            PlanetToOrchestrator::SunrayAck { planet_id } => planet_id,
            PlanetToOrchestrator::AsteroidAck { planet_id, .. } => planet_id,
            PlanetToOrchestrator::InternalStateResponse { planet_id } => planet_id,
            PlanetToOrchestrator::StartPlanetAIResult { planet_id } => planet_id,
            PlanetToOrchestrator::StopPlanetAIResult { planet_id } => planet_id,
            PlanetToOrchestrator::KillPlanetResult { planet_id } => planet_id,
            PlanetToOrchestrator::Stopped { planet_id } => planet_id,
        };
        let slot = match self.planet_slot(id) {
            Some(s) => s,
            None => {
                return Err(GalaxyError::UnknownPlanet(id));
            },
        };
        proof {
            let ids = self.ids();
            assert(ids.contains(id));
            let k = ids.index_of(id);
            assert(ids[k] == id);
            if k != slot as int {
                assert(!ids.no_duplicates());
            }
        }
        let new_status = match msg {
            PlanetToOrchestrator::AsteroidAck { survived, .. } => if survived {
                None
            } else {
                Some(Status::Dead)
            },
            PlanetToOrchestrator::StartPlanetAIResult { .. } => Some(Status::Running),
            PlanetToOrchestrator::StopPlanetAIResult { .. } => Some(Status::Paused),
            PlanetToOrchestrator::KillPlanetResult { .. } => Some(Status::Dead),
            _ => None,
        };
        match new_status {
            Some(st) => {
                self.planets_status.set(slot, st);
                if st == Status::Dead {
                    self.galaxy_topology.sever_node(slot);
                }
            },
            None => {},
        }
        match msg {
            PlanetToOrchestrator::AsteroidAck { survived, .. } => if survived {
                Ok(None)
            } else {
                Ok(Some(id))
            },
            _ => Ok(None),
        }
    }

    /// The event of this tick; the tick moves on within its cycle.
    pub fn next_global_event(&mut self) -> (r: GlobalEvent)
        requires
            old(self).wf(),
        ensures
            final(self).wf(),
            r == event_of_tick(old(self).tick()),
            final(self).tick() == (old(self).tick() + 1) % (EVENT_CYCLE as int),
            final(self).ids() == old(self).ids(),
            final(self).types() == old(self).types(),
            final(self).statuses() == old(self).statuses(),
            final(self).topology() == old(self).topology(),
    {
        let r = if self.tick_count == EVENT_CYCLE - 1 {
            GlobalEvent::Asteroid
        } else {
            GlobalEvent::Sunray
        };
        self.tick_count = (self.tick_count + 1) % EVENT_CYCLE;
        r
    }

    /// The ids of the nodes that are not `Dead`, in slot order: the receivers
    /// of a global event.
    pub fn living_planets(&self) -> (r: Vec<u32>)
        requires
            self.wf(),
        ensures
            r@ == living(self.ids(), self.statuses()),
    {
        let mut out: Vec<u32> = Vec::new();
        let mut i: usize = 0;
        while i < self.planet_ids.len()
            invariant
                self.wf(),
                0 <= i <= self.planet_ids@.len(),
                out@ == living(self.ids().subrange(0, i as int), self.statuses().subrange(0, i as int)),
            decreases self.planet_ids@.len() - i,
        {
            let ghost ids1 = self.ids().subrange(0, i as int + 1);
            let ghost st1 = self.statuses().subrange(0, i as int + 1);
            assert(ids1.drop_last() =~= self.ids().subrange(0, i as int));
            assert(st1.drop_last() =~= self.statuses().subrange(0, i as int));
            if self.planets_status[i] != Status::Dead {
                out.push(self.planet_ids[i]);
            }
            i += 1;
        }
        assert(self.ids().subrange(0, self.ids().len() as int) =~= self.ids());
        assert(self.statuses().subrange(0, self.statuses().len() as int) =~= self.statuses());
        out
    }

    /// Sets up the galaxy of adjacency rows: each row is a node id followed by
    /// its neighbours' ids, and every node gets the default strategy. An empty
    /// row is refused with nothing changed; otherwise this is `initialize_galaxy`.
    pub fn initialize_galaxy_by_adj_list(&mut self, adj_list: Vec<Vec<u32>>) -> (r: Result<
        (),
        GalaxyError,
    >)
        requires
            old(self).wf(),
        ensures
            r is Ok ==> all_paused(*final(self)),
            r is Ok ==> all_default_type(*final(self)),
            final(self).wf(),
            (exists|i: int| 0 <= i < adj_list@.len() && adj_list@[i]@.len() == 0) ==> (match r {
                Err(GalaxyError::EmptyRow(i)) => i < adj_list@.len() && adj_list@[i as int]@.len() == 0,
                _ => false,
            }),
            (forall|i: int| 0 <= i < adj_list@.len() ==> adj_list@[i]@.len() > 0) ==> {
                let d = rows_view(adj_list@);
                &&& r is Ok <==> valid_description(d)
                &&& r is Ok ==> final(self).ids() == line_ids(d) && final(self).topology()
                    == described_matrix(d)
            },
            r is Err ==> final(self).ids() == old(self).ids() && final(self).topology() == old(self).topology() && final(self).statuses() == old(self).statuses(),
    {
        let mut lines: Vec<NodeLine> = Vec::new();
        let mut i: usize = 0;
        while i < adj_list.len()
            invariant
                0 <= i <= adj_list@.len(),
                lines@.len() == i,
                self.wf(),
                self.ids() == old(self).ids(),
                self.topology() == old(self).topology(),
                self.statuses() == old(self).statuses(),
                forall|k: int| 0 <= k < i ==> adj_list@[k]@.len() > 0,
                forall|k: int| 0 <= k < i ==> #[trigger] desc_view(lines@)[k] == rows_view(adj_list@)[k],
                forall|k: int| 0 <= k < i ==> #[trigger] lines@[k].kind == PlanetType::OneMillionCrabs,
            decreases adj_list@.len() - i,
        {
            let row = &adj_list[i];
            if row.len() == 0 {
                return Err(GalaxyError::EmptyRow(i));
            }
            let mut neighbors: Vec<u32> = Vec::new();
            let mut k: usize = 1;
            while k < row.len()
                invariant
                    1 <= k <= row@.len(),
                    neighbors@ == row@.subrange(1, k as int),
                decreases row@.len() - k,
            {
                neighbors.push(row[k]);
                k += 1;
            }
            assert(neighbors@ =~= row@.skip(1));
            let ghost pre = lines@;
            lines.push(NodeLine { id: row[0], kind: PlanetType::OneMillionCrabs, neighbors });
            proof {
                assert forall|k: int| 0 <= k < i + 1 implies #[trigger] desc_view(lines@)[k] == rows_view(
                    adj_list@,
                )[k] by {
                    if k < i {
                        assert(lines@[k] == pre[k]);
                        assert(desc_view(pre)[k] == rows_view(adj_list@)[k]);
                    } else {
                        assert(adj_list@[k] == *row);
                    }
                }
            }
            i += 1;
        }
        assert(desc_view(lines@) =~= rows_view(adj_list@));
        self.initialize_galaxy(&lines)
    }

    /// Sets up the galaxy of a topology file (see `parse_topology`). A node
    /// whose type code names no type gets a type drawn at random. A malformed
    /// line, a repeated id or an undescribed neighbour is refused with nothing
    /// changed.
    pub fn initialize_galaxy_by_text(&mut self, text: &[u8]) -> (r: Result<(), GalaxyError>)
        requires
            old(self).wf(),
        ensures
            r is Ok ==> all_paused(*final(self)),
            final(self).wf(),
            match topology_file_of(text@) {
                Err(n) => r == Err::<(), GalaxyError>(GalaxyError::Parse(n as usize)),
                Ok(d) => {
                    &&& r is Ok <==> valid_description(file_desc(d))
                    &&& r is Ok ==> final(self).ids() == line_ids(file_desc(d))
                        && final(self).topology() == described_matrix(file_desc(d))
                        && forall|s: int|
                        0 <= s < d.len() && d[s].1 is Some ==> #[trigger] final(self).types()[s]
                            == d[s].1->Some_0
                },
            },
            r is Err ==> final(self).ids() == old(self).ids() && final(self).topology() == old(
                self,
            ).topology() && final(self).statuses() == old(self).statuses(),
    {
        let parsed = match parse_topology(text) {
            Ok(v) => v,
            Err(e) => {
                return Err(GalaxyError::Parse(e.line));
            },
        };
        let ghost d = parsed@.map_values(|p: ParsedLine| parsed_view(p));
        let mut lines: Vec<NodeLine> = Vec::new();
        let mut i: usize = 0;
        while i < parsed.len()
            invariant
                0 <= i <= parsed@.len(),
                d == parsed@.map_values(|p: ParsedLine| parsed_view(p)),
                lines@.len() == i,
                forall|k: int| 0 <= k < i ==> #[trigger] desc_view(lines@)[k] == file_desc(d)[k],
                forall|k: int|
                    0 <= k < i && d[k].1 is Some ==> #[trigger] lines@[k].kind == d[k].1->Some_0,
            decreases parsed@.len() - i,
        {
            let p = &parsed[i];
            let kind = PlanetType::resolve(p.kind);
            let mut neighbors: Vec<u32> = Vec::new();
            let mut k: usize = 0;
            while k < p.neighbors.len()
                invariant
                    0 <= k <= p.neighbors@.len(),
                    neighbors@ == p.neighbors@.subrange(0, k as int),
                decreases p.neighbors@.len() - k,
            {
                neighbors.push(p.neighbors[k]);
                k += 1;
            }
            assert(neighbors@ =~= p.neighbors@);
            let ghost pre = lines@;
            lines.push(NodeLine { id: p.id, kind, neighbors });
            proof {
                assert(d[i as int] == parsed_view(parsed@[i as int]));
                assert forall|k: int| 0 <= k < i + 1 implies #[trigger] desc_view(lines@)[k] == file_desc(
                    d,
                )[k] by {
                    if k < i {
                        assert(lines@[k] == pre[k]);
                        assert(desc_view(pre)[k] == file_desc(d)[k]);
                    }
                }
                assert forall|k: int| 0 <= k < i + 1 && d[k].1 is Some implies #[trigger] lines@[k].kind
                    == d[k].1->Some_0 by {
                    if k < i {
                        assert(lines@[k] == pre[k]);
                    }
                }
            }
            i += 1;
        }
        assert(desc_view(lines@) =~= file_desc(d));
        self.initialize_galaxy(&lines)
    }

    /// Registers one node per id, in order, each `Paused`, with the default
    /// strategy and no link. Refused, with nothing changed, on a repeated id.
    pub fn initialize_planets_by_ids_list(&mut self, ids_list: Vec<u32>) -> (r: Result<(), GalaxyError>)
        requires
            old(self).wf(),
        ensures
            r is Ok ==> all_paused(*final(self)),
            r is Ok ==> all_default_type(*final(self)),
            final(self).wf(),
            r is Ok <==> ids_list@.no_duplicates(),
            r is Ok ==> final(self).ids() == ids_list@ && final(self).topology() == no_edges(
                ids_list@.len(),
            ),
            r is Err ==> final(self).ids() == old(self).ids() && final(self).topology() == old(self).topology(),
    {
        let mut lines: Vec<NodeLine> = Vec::new();
        let mut i: usize = 0;
        while i < ids_list.len()
            invariant
                0 <= i <= ids_list@.len(),
                lines@.len() == i,
                forall|k: int| 0 <= k < i ==> #[trigger] desc_view(lines@)[k] == (ids_list@[k], Seq::<u32>::empty()),
                forall|k: int| 0 <= k < i ==> #[trigger] lines@[k].kind == PlanetType::OneMillionCrabs,
            decreases ids_list@.len() - i,
        {
            let ghost pre = lines@;
            lines.push(NodeLine { id: ids_list[i], kind: PlanetType::OneMillionCrabs, neighbors: Vec::new() });
            proof {
                assert forall|k: int| 0 <= k < i + 1 implies #[trigger] desc_view(lines@)[k] == (ids_list@[k], Seq::<u32>::empty()) by {
                    if k < i {
                        assert(lines@[k] == pre[k]);
                        assert(desc_view(pre)[k] == (ids_list@[k], Seq::<u32>::empty()));
                    }
                }
            }
            i += 1;
        }
        let ghost d = desc_view(lines@);
        assert(line_ids(d) =~= ids_list@);
        assert(described_matrix(d) =~= no_edges(ids_list@.len())) by {
            assert forall|a: int| 0 <= a < d.len() implies #[trigger] described_matrix(d)[a] =~= no_edges(ids_list@.len())[a] by {
                assert forall|b: int| 0 <= b < d.len() implies !described_link(d, a, b) by {
                    assert(d[a].1.len() == 0);
                    assert(d[b].1.len() == 0);
                }
            }
        }
        self.initialize_galaxy(&lines)
    }

    /// The example galaxy: nodes 0 and 1, not linked.
    pub fn initialize_galaxy_example(&mut self) -> (r: Result<(), GalaxyError>)
        requires
            old(self).wf(),
        ensures
            r is Ok ==> all_paused(*final(self)),
            r is Ok ==> all_default_type(*final(self)),
            final(self).wf(),
            r is Ok,
            final(self).ids() == seq![0u32, 1u32],
            final(self).topology() == no_edges(2),
    {
        let mut ids: Vec<u32> = Vec::new();
        ids.push(0);
        ids.push(1);
        assert(ids@ == seq![0u32, 1u32]);
        assert(ids@.no_duplicates()) by {
            assert forall|a: int, b: int| 0 <= a < ids@.len() && 0 <= b < ids@.len() && a != b implies ids@[a] != ids@[b] by {}
        }
        self.initialize_planets_by_ids_list(ids)
    }

    /// The end of a reset: after kill directives went to every living node
    /// (see `living_planets`), the galaxy is emptied once every node is `Dead`,
    /// or once the wait timed out, which is then reported as a failure. Before
    /// either, nothing changes and `None` says to keep waiting.
    pub fn finish_reset(&mut self, timed_out: bool) -> (r: Option<Result<(), GalaxyError>>)
        requires
            old(self).wf(),
        ensures
            final(self).wf(),
            all_dead(old(self).statuses()) ==> r == Some(Ok::<(), GalaxyError>(())) && empty_galaxy(
                *final(self),
            ),
            !all_dead(old(self).statuses()) && timed_out ==> r == Some(
                Err::<(), GalaxyError>(GalaxyError::ResetTimeout),
            ) && empty_galaxy(*final(self)),
            !all_dead(old(self).statuses()) && !timed_out ==> r is None && final(self).ids() == old(
                self,
            ).ids() && final(self).statuses() == old(self).statuses() && final(self).topology()
                == old(self).topology(),
    {
        let mut i: usize = 0;
        let mut done = true;
        while i < self.planets_status.len()
            invariant
                0 <= i <= self.planets_status@.len(),
                done == forall|k: int| 0 <= k < i ==> self.planets_status@[k] == Status::Dead,
            decreases self.planets_status@.len() - i,
        {
            if self.planets_status[i] != Status::Dead {
                done = false;
            }
            i += 1;
        }
        if done {
            self.reset();
            Some(Ok(()))
        } else if timed_out {
            self.reset();
            Some(Err(GalaxyError::ResetTimeout))
        } else {
            None
        }
    }

    /// Registers a new agent, `Paused`, at node `planet_id` and returns it.
    /// Refused, with nothing changed, when the agent id is taken or the node is
    /// not registered.
    pub fn add_explorer(&mut self, explorer_id: u32, planet_id: u32, free_cells: u32) -> (r: Result<
        Explorer,
        GalaxyError,
    >)
        requires
            old(self).wf(),
        ensures
            final(self).wf(),
            final(self).ids() == old(self).ids(),
            final(self).statuses() == old(self).statuses(),
            final(self).topology() == old(self).topology(),
            old(self).agents().contains(explorer_id) ==> r == Err::<Explorer, GalaxyError>(
                GalaxyError::DuplicateExplorer(explorer_id),
            ),
            !old(self).agents().contains(explorer_id) && !old(self).ids().contains(planet_id) ==> r
                == Err::<Explorer, GalaxyError>(GalaxyError::UnknownPlanet(planet_id)),
            r is Err ==> final(self).agents() == old(self).agents() && final(self).agent_statuses()
                == old(self).agent_statuses(),
            r is Ok <==> !old(self).agents().contains(explorer_id) && old(self).ids().contains(
                planet_id,
            ),
            r is Ok ==> {
                let e = r->Ok_0;
                &&& final(self).agents() == old(self).agents().push(explorer_id)
                &&& final(self).agent_statuses() == old(self).agent_statuses().push(Status::Paused)
                &&& e.id_spec() == explorer_id
                &&& e.planet() == planet_id
                &&& e.cells() == free_cells
                &&& e.status() == ExplorerState::WaitingToStartExplorerAI
            },
    {
        if contains_id(&self.explorer_ids, explorer_id) {
            return Err(GalaxyError::DuplicateExplorer(explorer_id));
        }
        if self.planet_slot(planet_id).is_none() {
            return Err(GalaxyError::UnknownPlanet(planet_id));
        }
        let ghost pre = self.explorer_ids@;
        self.explorer_ids.push(explorer_id);
        self.explorer_status.push(Status::Paused);
        proof {
            let s = self.explorer_ids@;
            assert forall|a: int, b: int| 0 <= a < s.len() && 0 <= b < s.len() && a != b implies s[a] != s[b] by {
                if a == s.len() - 1 {
                    assert(!pre.contains(explorer_id));
                    assert(s[b] == pre[b]);
                } else if b == s.len() - 1 {
                    assert(!pre.contains(explorer_id));
                    assert(s[a] == pre[a]);
                } else {
                    assert(pre[a] != pre[b]);
                }
            }
        }
        Ok(Explorer::new(explorer_id, planet_id, free_cells))
    }

    /// The status of agent `id`, if it is registered.
    pub fn explorer_status(&self, id: u32) -> (r: Option<Status>)
        requires
            self.wf(),
        ensures
            match r {
                Some(st) => exists|s: int|
                    0 <= s < self.agents().len() && self.agents()[s] == id && self.agent_statuses()[s]
                        == st,
                None => !self.agents().contains(id),
            },
    {
        let mut i: usize = 0;
        while i < self.explorer_ids.len()
            invariant
                0 <= i <= self.explorer_ids@.len(),
                self.wf(),
                forall|k: int| 0 <= k < i ==> self.explorer_ids@[k] != id,
            decreases self.explorer_ids@.len() - i,
        {
            if self.explorer_ids[i] == id {
                return Some(self.explorer_status[i]);
            }
            i += 1;
        }
        None
    }

    /// A report from agent `explorer_id`: start, stop and kill results set its
    /// status; other reports change nothing. A report from an unregistered
    /// agent is refused.
    pub fn handle_explorer_report(&mut self, explorer_id: u32, report: &ExplorerToOrchestrator) -> (r:
        Result<(), GalaxyError>)
        requires
            old(self).wf(),
        ensures
            final(self).wf(),
            final(self).ids() == old(self).ids(),
            final(self).statuses() == old(self).statuses(),
            final(self).topology() == old(self).topology(),
            final(self).agents() == old(self).agents(),
            r is Err <==> !old(self).agents().contains(explorer_id),
            r is Err ==> r == Err::<(), GalaxyError>(GalaxyError::UnknownExplorer(explorer_id))
                && final(self).agent_statuses() == old(self).agent_statuses(),
            r is Ok ==> {
                let s = old(self).agents().index_of(explorer_id);
                final(self).agent_statuses() == match agent_status_after(*report) {
                    Some(st) => old(self).agent_statuses().update(s, st),
                    None => old(self).agent_statuses(),
                }
            },
    {
        let mut i: usize = 0;
        while i < self.explorer_ids.len()
            invariant
                0 <= i <= self.explorer_ids@.len(),
                self.wf(),
                self.ids() == old(self).ids(),
                self.types() == old(self).types(),
                self.statuses() == old(self).statuses(),
                self.topology() == old(self).topology(),
                self.agents() == old(self).agents(),
                self.agent_statuses() == old(self).agent_statuses(),
                self.tick() == old(self).tick(),
                forall|k: int| 0 <= k < i ==> self.explorer_ids@[k] != explorer_id,
            decreases self.explorer_ids@.len() - i,
        {
            if self.explorer_ids[i] == explorer_id {
                proof {
                    let ids = self.agents();
                    assert(ids[i as int] == explorer_id);
                    let k = ids.index_of(explorer_id);
                    if k != i as int {
                        assert(!ids.no_duplicates());
                    }
                }
                let st = match report {
                    ExplorerToOrchestrator::StartExplorerAIResult => Some(Status::Running),
                    ExplorerToOrchestrator::ResetExplorerAIResult => Some(Status::Running),
                    ExplorerToOrchestrator::StopExplorerAIResult => Some(Status::Paused),
                    ExplorerToOrchestrator::KillExplorerResult => Some(Status::Dead),
                    _ => None,
                };
                match st {
                    Some(v) => self.explorer_status.set(i, v),
                    None => {},
                }
                return Ok(());
            }
            i += 1;
        }
        Err(GalaxyError::UnknownExplorer(explorer_id))
    }
}

/// Setting up the same description twice gives the same galaxy as setting it
/// up once.
pub proof fn lemma_galaxy_init_idempotent(o1: Orchestrator, o2: Orchestrator, lines: Seq<NodeLine>)
    requires
        galaxy_of(o1, lines),
        galaxy_of(o2, lines),
    ensures
        o2.ids() == o1.ids(),
        o2.types() == o1.types(),
        o2.statuses() == o1.statuses(),
        o2.topology() == o1.topology(),
{
    assert(o2.statuses() =~= o1.statuses());
}

/// Resetting twice gives the same empty galaxy as resetting once.
pub proof fn lemma_reset_idempotent(o1: Orchestrator, o2: Orchestrator)
    requires
        empty_galaxy(o1),
        empty_galaxy(o2),
    ensures
        o2.ids() == o1.ids(),
        o2.types() == o1.types(),
        o2.statuses() == o1.statuses(),
        o2.topology() == o1.topology(),
        o2.tick() == o1.tick(),
{
    assert(o2.ids() =~= o1.ids());
    assert(o2.types() =~= o1.types());
    assert(o2.statuses() =~= o1.statuses());
    assert(o2.topology() =~= o1.topology());
}

/// In every state the coordinator can reach, the adjacency matrix is symmetric
/// and has no self-loop.
pub proof fn lemma_topology_symmetric(o: Orchestrator)
    requires
        o.wf(),
    ensures
        forall|i: int, j: int|
            0 <= i < o.ids().len() && 0 <= j < o.ids().len() ==> #[trigger] o.topology()[i][j]
                == o.topology()[j][i],
        forall|i: int| 0 <= i < o.ids().len() ==> !#[trigger] o.topology()[i][i],
{
}

} // verus!
