use crab_rave::bag::{Bag, BagError};
use crab_rave::explorer::{
    ask_energy_cells, ask_neighbours, ask_travel, orch_msg_match_state, planet_msg_match_state, CombineOutcome, Explorer, ExplorerAction,
    ExplorerState, ExplorerToOrchestrator, OrchestratorToExplorer, PlanetToExplorer,
};
use crab_rave::planet::ExplorerRequest;
use crab_rave::resources::{recipe, BasicKind, ComplexKind, ResToString, ResourceKind};

fn started() -> Explorer {
    let mut e = Explorer::new(7, 3, 0);
    let out = e.receive_orchestrator_msg(OrchestratorToExplorer::StartExplorerAI);
    assert_eq!(
        out,
        vec![ExplorerAction::ToOrchestrator(7, ExplorerToOrchestrator::StartExplorerAIResult)]
    );
    e
}

fn generate(e: &mut Explorer, k: BasicKind) {
    let out = e.receive_orchestrator_msg(OrchestratorToExplorer::GenerateResourceRequest { to_generate: k });
    assert_eq!(out, vec![ExplorerAction::ToPlanet(ExplorerRequest::GenerateResource(k))]);
    e.receive_planet_msg(PlanetToExplorer::GenerateResourceResponse { resource: Some(k) });
}

#[test]
fn new_agent_waits_for_start() {
    let e = Explorer::new(1, 2, 4);
    assert_eq!(e.id(), 1);
    assert_eq!(e.planet_id(), 2);
    assert_eq!(e.energy_cells(), 4);
    assert_eq!(e.state(), ExplorerState::WaitingToStartExplorerAI);
    assert!(e.planet_info(2).is_some());
    assert!(e.planet_info(5).is_none());
}

#[test]
fn admissibility_table() {
    assert!(orch_msg_match_state(&ExplorerState::Idle, &OrchestratorToExplorer::KillExplorer));
    assert!(orch_msg_match_state(
        &ExplorerState::WaitingToStartExplorerAI,
        &OrchestratorToExplorer::StartExplorerAI
    ));
    assert!(!orch_msg_match_state(
        &ExplorerState::WaitingToStartExplorerAI,
        &OrchestratorToExplorer::BagContentRequest
    ));
    assert!(orch_msg_match_state(
        &ExplorerState::Traveling,
        &OrchestratorToExplorer::MoveToPlanet { planet_id: None }
    ));
    assert!(planet_msg_match_state(&ExplorerState::Idle, &PlanetToExplorer::Stopped));
    assert!(planet_msg_match_state(
        &ExplorerState::GeneratingResource,
        &PlanetToExplorer::GenerateResourceResponse { resource: None }
    ));
    assert!(!planet_msg_match_state(&ExplorerState::GeneratingResource, &PlanetToExplorer::Stopped));
    assert!(!planet_msg_match_state(&ExplorerState::Killed, &PlanetToExplorer::Stopped));
}

#[test]
fn messages_before_start_are_replayed_in_order() {
    let mut e = Explorer::new(7, 3, 0);
    assert!(e.receive_orchestrator_msg(OrchestratorToExplorer::CurrentPlanetRequest).is_empty());
    assert!(e.receive_orchestrator_msg(OrchestratorToExplorer::BagContentRequest).is_empty());
    assert!(e.receive_planet_msg(PlanetToExplorer::AvailableEnergyCellResponse { available_cells: 2 }).is_empty());
    assert_eq!(e.buffered_orchestrator_msgs(), 2);
    assert_eq!(e.buffered_planet_msgs(), 1);
    let out = e.receive_orchestrator_msg(OrchestratorToExplorer::StartExplorerAI);
    assert_eq!(
        out,
        vec![
            ExplorerAction::ToOrchestrator(7, ExplorerToOrchestrator::StartExplorerAIResult),
            ExplorerAction::ToOrchestrator(7, ExplorerToOrchestrator::CurrentPlanetResult { planet_id: 3 }),
            ExplorerAction::ToOrchestrator(7, ExplorerToOrchestrator::BagContentResponse { bag_content: vec![] }),
        ]
    );
    assert_eq!(e.energy_cells(), 2);
    assert_eq!(e.buffered_orchestrator_msgs(), 0);
    assert_eq!(e.buffered_planet_msgs(), 0);
}

#[test]
fn replay_stops_when_agent_leaves_idle() {
    let mut e = Explorer::new(7, 3, 0);
    e.receive_orchestrator_msg(OrchestratorToExplorer::GenerateResourceRequest { to_generate: BasicKind::Oxygen });
    e.receive_orchestrator_msg(OrchestratorToExplorer::CurrentPlanetRequest);
    let out = e.receive_orchestrator_msg(OrchestratorToExplorer::StartExplorerAI);
    assert_eq!(out.len(), 2);
    assert_eq!(out[1], ExplorerAction::ToPlanet(ExplorerRequest::GenerateResource(BasicKind::Oxygen)));
    assert_eq!(e.state(), ExplorerState::GeneratingResource);
    assert_eq!(e.buffered_orchestrator_msgs(), 1);
    let out = e.receive_planet_msg(PlanetToExplorer::GenerateResourceResponse { resource: Some(BasicKind::Oxygen) });
    assert_eq!(
        out,
        vec![ExplorerAction::ToOrchestrator(7, ExplorerToOrchestrator::CurrentPlanetResult { planet_id: 3 })]
    );
    assert_eq!(e.bag_content(), vec![ResourceKind::Basic(BasicKind::Oxygen)]);
}

#[test]
fn node_messages_wait_while_busy() {
    let mut e = started();
    e.receive_orchestrator_msg(OrchestratorToExplorer::GenerateResourceRequest { to_generate: BasicKind::Carbon });
    assert!(e.receive_planet_msg(PlanetToExplorer::AvailableEnergyCellResponse { available_cells: 1 }).is_empty());
    assert!(e.receive_planet_msg(PlanetToExplorer::AvailableEnergyCellResponse { available_cells: 4 }).is_empty());
    assert_eq!(e.buffered_planet_msgs(), 2);
    e.receive_planet_msg(PlanetToExplorer::GenerateResourceResponse { resource: None });
    assert_eq!(e.energy_cells(), 4);
    assert_eq!(e.buffered_planet_msgs(), 0);
    assert!(e.bag_content().is_empty());
}

#[test]
fn combination_without_prerequisites_fails_locally() {
    let mut e = started();
    let out = e.receive_orchestrator_msg(OrchestratorToExplorer::CombineResourceRequest { to_generate: ComplexKind::Water });
    assert_eq!(
        out,
        vec![ExplorerAction::ToOrchestrator(7, ExplorerToOrchestrator::CombineResourceRefused {
            to_generate: ComplexKind::Water,
            reason: BagError::MissingResource,
        })]
    );
    assert!(out.iter().all(|a| !matches!(a, ExplorerAction::ToPlanet(_))));
    assert_eq!(e.state(), ExplorerState::Idle);
}

#[test]
fn combination_with_prerequisites_asks_the_node() {
    let mut e = started();
    generate(&mut e, BasicKind::Hydrogen);
    generate(&mut e, BasicKind::Carbon);
    generate(&mut e, BasicKind::Oxygen);
    let out = e.receive_orchestrator_msg(OrchestratorToExplorer::CombineResourceRequest { to_generate: ComplexKind::Water });
    assert_eq!(out, vec![ExplorerAction::ToPlanet(ExplorerRequest::CombineResource(ComplexKind::Water))]);
    assert_eq!(e.bag_content(), vec![ResourceKind::Basic(BasicKind::Carbon)]);
    assert_eq!(e.state(), ExplorerState::CombiningResources);
    e.receive_planet_msg(PlanetToExplorer::CombineResourceResponse {
        complex_response: CombineOutcome::Combined(ComplexKind::Water),
    });
    assert_eq!(
        e.bag_content(),
        vec![ResourceKind::Basic(BasicKind::Carbon), ResourceKind::Complex(ComplexKind::Water)]
    );
}

#[test]
fn failed_combination_returns_prerequisites() {
    let mut e = started();
    generate(&mut e, BasicKind::Carbon);
    generate(&mut e, BasicKind::Carbon);
    e.receive_orchestrator_msg(OrchestratorToExplorer::CombineResourceRequest { to_generate: ComplexKind::Diamond });
    assert!(e.bag_content().is_empty());
    let (a, b) = recipe(ComplexKind::Diamond);
    e.receive_planet_msg(PlanetToExplorer::CombineResourceResponse { complex_response: CombineOutcome::Failed(a, b) });
    assert_eq!(
        e.bag_content(),
        vec![ResourceKind::Basic(BasicKind::Carbon), ResourceKind::Basic(BasicKind::Carbon)]
    );
}

#[test]
fn diamond_needs_two_carbons() {
    let mut bag = Bag::new();
    bag.insert(ResourceKind::Basic(BasicKind::Carbon));
    assert_eq!(bag.make_request(ComplexKind::Diamond), Err(BagError::MissingResource));
    assert_eq!(bag.len(), 1);
    bag.insert(ResourceKind::Basic(BasicKind::Carbon));
    assert_eq!(
        bag.make_request(ComplexKind::Diamond),
        Ok((ResourceKind::Basic(BasicKind::Carbon), ResourceKind::Basic(BasicKind::Carbon)))
    );
    assert_eq!(bag.len(), 0);
}

#[test]
fn bag_takes_first_matching_item() {
    let mut bag = Bag::new();
    bag.insert(ResourceKind::Basic(BasicKind::Silicon));
    bag.insert(ResourceKind::Complex(ComplexKind::Life));
    bag.insert(ResourceKind::Basic(BasicKind::Silicon));
    assert!(bag.contains(ResourceKind::Complex(ComplexKind::Life)));
    assert_eq!(bag.take_resource(ResourceKind::Basic(BasicKind::Silicon)), Some(ResourceKind::Basic(BasicKind::Silicon)));
    assert_eq!(
        bag.to_resource_types(),
        vec![ResourceKind::Complex(ComplexKind::Life), ResourceKind::Basic(BasicKind::Silicon)]
    );
    assert_eq!(bag.take_resource(ResourceKind::Basic(BasicKind::Oxygen)), None);
}

#[test]
fn recipes_need_two_named_items() {
    assert_eq!(
        recipe(ComplexKind::AIPartner),
        (ResourceKind::Complex(ComplexKind::Robot), ResourceKind::Complex(ComplexKind::Diamond))
    );
    assert_eq!(
        recipe(ComplexKind::Life),
        (ResourceKind::Complex(ComplexKind::Water), ResourceKind::Basic(BasicKind::Carbon))
    );
}

#[test]
fn supported_resources_are_cached() {
    let mut e = started();
    let out = e.receive_orchestrator_msg(OrchestratorToExplorer::SupportedResourceRequest);
    assert_eq!(out, vec![ExplorerAction::ToPlanet(ExplorerRequest::SupportedResource)]);
    assert_eq!(e.state(), ExplorerState::WaitingForSupportedResources);
    let out = e.receive_planet_msg(PlanetToExplorer::SupportedResourceResponse { resource_list: vec![BasicKind::Carbon] });
    assert_eq!(
        out,
        vec![ExplorerAction::ToOrchestrator(7, ExplorerToOrchestrator::SupportedResourceResult {
            supported_resources: vec![BasicKind::Carbon],
        })]
    );
    let out = e.receive_orchestrator_msg(OrchestratorToExplorer::SupportedResourceRequest);
    assert_eq!(
        out,
        vec![ExplorerAction::ToOrchestrator(7, ExplorerToOrchestrator::SupportedResourceResult {
            supported_resources: vec![BasicKind::Carbon],
        })]
    );
}

#[test]
fn supported_combinations_are_cached() {
    let mut e = started();
    e.receive_orchestrator_msg(OrchestratorToExplorer::SupportedCombinationRequest);
    e.receive_planet_msg(PlanetToExplorer::SupportedCombinationResponse { combination_list: vec![ComplexKind::Robot] });
    let out = e.receive_orchestrator_msg(OrchestratorToExplorer::SupportedCombinationRequest);
    assert_eq!(
        out,
        vec![ExplorerAction::ToOrchestrator(7, ExplorerToOrchestrator::SupportedCombinationResult {
            combination_list: vec![ComplexKind::Robot],
        })]
    );
}

#[test]
fn neighbours_are_recorded() {
    let mut e = started();
    e.receive_orchestrator_msg(OrchestratorToExplorer::NeighborsResponse { neighbors: vec![4, 5] });
    assert_eq!(e.planet_info(3).unwrap().neighbours, Some(vec![4, 5]));
    assert!(e.planet_info(4).unwrap().neighbours.is_none());
    assert!(e.planet_info(5).is_some());
}

#[test]
fn relocation_and_lifecycle() {
    let mut e = started();
    e.receive_orchestrator_msg(OrchestratorToExplorer::MoveToPlanet { planet_id: None });
    assert_eq!(e.planet_id(), 3);
    e.receive_orchestrator_msg(OrchestratorToExplorer::MoveToPlanet { planet_id: Some(9) });
    assert_eq!(e.planet_id(), 9);
    let out = e.receive_orchestrator_msg(OrchestratorToExplorer::ResetExplorerAI);
    assert_eq!(out, vec![ExplorerAction::ToOrchestrator(7, ExplorerToOrchestrator::ResetExplorerAIResult)]);
    assert!(e.planet_info(9).is_none());
    e.receive_orchestrator_msg(OrchestratorToExplorer::StopExplorerAI);
    assert_eq!(e.state(), ExplorerState::WaitingToStartExplorerAI);
    e.receive_orchestrator_msg(OrchestratorToExplorer::StartExplorerAI);
    let out = e.receive_orchestrator_msg(OrchestratorToExplorer::KillExplorer);
    assert_eq!(out, vec![ExplorerAction::ToOrchestrator(7, ExplorerToOrchestrator::KillExplorerResult)]);
    assert_eq!(e.state(), ExplorerState::Killed);
    assert!(e.receive_orchestrator_msg(OrchestratorToExplorer::StartExplorerAI).is_empty());
    assert_eq!(e.buffered_orchestrator_msgs(), 1);
}

#[test]
fn resource_names() {
    assert_eq!(BasicKind::Carbon.res_to_string(), "carbon");
    assert_eq!(BasicKind::Hydrogen.res_to_string(), "hydrogen");
    assert_eq!(ComplexKind::AIPartner.res_to_string(), "AIPartner");
    assert_eq!(ComplexKind::Dolphin.res_to_string(), "Dolphin");
}

#[test]
fn agent_initiated_requests() {
    let mut e = started();
    assert_eq!(
        ask_neighbours(&mut e),
        Some(ExplorerAction::ToOrchestrator(7, ExplorerToOrchestrator::NeighborsRequest { planet_id: 3 }))
    );
    assert_eq!(e.state(), ExplorerState::WaitingForNeighbours);
    assert_eq!(ask_travel(&mut e, 4), None);
    e.receive_orchestrator_msg(OrchestratorToExplorer::NeighborsResponse { neighbors: vec![4] });
    assert_eq!(
        ask_travel(&mut e, 4),
        Some(ExplorerAction::ToOrchestrator(7, ExplorerToOrchestrator::TravelToPlanetRequest {
            current_planet_id: 3,
            dst_planet_id: 4,
        }))
    );
    assert!(e.receive_orchestrator_msg(OrchestratorToExplorer::CurrentPlanetRequest).is_empty());
    let out = e.receive_orchestrator_msg(OrchestratorToExplorer::MoveToPlanet { planet_id: Some(4) });
    assert_eq!(
        out,
        vec![ExplorerAction::ToOrchestrator(7, ExplorerToOrchestrator::CurrentPlanetResult { planet_id: 4 })]
    );
    assert_eq!(ask_energy_cells(&mut e), Some(ExplorerAction::ToPlanet(ExplorerRequest::AvailableEnergyCell)));
    e.receive_planet_msg(PlanetToExplorer::AvailableEnergyCellResponse { available_cells: 3 });
    assert_eq!(e.energy_cells(), 3);
    assert_eq!(e.state(), ExplorerState::Idle);
}

#[test]
fn recorded_lists_hold_no_repetition() {
    let mut e = started();
    e.receive_orchestrator_msg(OrchestratorToExplorer::SupportedResourceRequest);
    let out = e.receive_planet_msg(PlanetToExplorer::SupportedResourceResponse {
        resource_list: vec![BasicKind::Carbon, BasicKind::Oxygen, BasicKind::Carbon],
    });
    assert_eq!(
        out,
        vec![ExplorerAction::ToOrchestrator(7, ExplorerToOrchestrator::SupportedResourceResult {
            supported_resources: vec![BasicKind::Carbon, BasicKind::Oxygen],
        })]
    );
    assert_eq!(
        e.planet_info(3).unwrap().basic_resources,
        Some(vec![BasicKind::Carbon, BasicKind::Oxygen])
    );
    e.receive_orchestrator_msg(OrchestratorToExplorer::NeighborsResponse { neighbors: vec![4, 4, 6] });
    assert_eq!(e.planet_info(3).unwrap().neighbours, Some(vec![4, 6]));
}

#[test]
fn unsolicited_recipe_list_is_recorded_without_reply() {
    let mut e = started();
    let out = e.receive_planet_msg(PlanetToExplorer::SupportedCombinationResponse {
        combination_list: vec![ComplexKind::Water],
    });
    assert!(out.is_empty());
    assert_eq!(e.planet_info(3).unwrap().complex_resources, Some(vec![ComplexKind::Water]));
}

#[test]
fn recipes_of_an_unknown_node_are_cached() {
    let mut e = started();
    e.receive_orchestrator_msg(OrchestratorToExplorer::ResetExplorerAI);
    assert!(e.planet_info(3).is_none());
    let out = e.receive_orchestrator_msg(OrchestratorToExplorer::SupportedCombinationRequest);
    assert_eq!(out, vec![ExplorerAction::ToPlanet(ExplorerRequest::SupportedCombination)]);
    e.receive_planet_msg(PlanetToExplorer::SupportedCombinationResponse { combination_list: vec![ComplexKind::Life] });
    assert_eq!(e.planet_info(3).unwrap().complex_resources, Some(vec![ComplexKind::Life]));
    assert!(e.planet_info(3).unwrap().basic_resources.is_none());
    e.receive_orchestrator_msg(OrchestratorToExplorer::MoveToPlanet { planet_id: Some(8) });
    e.receive_orchestrator_msg(OrchestratorToExplorer::SupportedResourceRequest);
    e.receive_planet_msg(PlanetToExplorer::SupportedResourceResponse { resource_list: vec![BasicKind::Silicon] });
    assert_eq!(e.planet_info(8).unwrap().basic_resources, Some(vec![BasicKind::Silicon]));
    let out = e.receive_orchestrator_msg(OrchestratorToExplorer::SupportedResourceRequest);
    assert_eq!(
        out,
        vec![ExplorerAction::ToOrchestrator(7, ExplorerToOrchestrator::SupportedResourceResult {
            supported_resources: vec![BasicKind::Silicon],
        })]
    );
    e.receive_orchestrator_msg(OrchestratorToExplorer::NeighborsResponse { neighbors: vec![3] });
    assert_eq!(e.planet_info(8).unwrap().neighbours, Some(vec![3]));
    assert_eq!(e.planet_info(8).unwrap().basic_resources, Some(vec![BasicKind::Silicon]));
}

#[test]
fn relocation_without_channel_changes_nothing() {
    let mut t = started();
    crab_rave::explorer::ask_travel(&mut t, 5);
    assert_eq!(t.state(), ExplorerState::Traveling);
    assert!(t.receive_orchestrator_msg(OrchestratorToExplorer::MoveToPlanet { planet_id: None }).is_empty());
    assert_eq!(t.state(), ExplorerState::Traveling);
    assert_eq!(t.planet_id(), 3);
}
