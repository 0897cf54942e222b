use crab_rave::explorer::{ExplorerState, ExplorerToOrchestrator};
use crab_rave::game_loop::{handle_ui_command, pop_scripted_event, GameAction, GameState, UiToGame};
use crab_rave::orchestrator::{GalaxyError, GlobalEvent, NodeLine, Orchestrator, PlanetToOrchestrator};
use crab_rave::registry::PlanetType;
use crab_rave::topology::{Topology, TopologyError};
use crab_rave::topology_file::{parse_line, parse_topology, parse_u32, split_bytes, trim_bytes, ParseError};
use crab_rave::Status;

fn line(id: u32, neighbors: Vec<u32>) -> NodeLine {
    NodeLine { id, kind: PlanetType::Ciuc, neighbors }
}

#[test]
fn ring_of_two_nodes_from_text() {
    let mut o = Orchestrator::new();
    assert_eq!(o.initialize_galaxy_by_text(b"0,type=X,1\n1,type=X,0\n"), Ok(()));
    assert_eq!(o.n_planets(), 2);
    assert_eq!(o.planet_status(0), Some(Status::Paused));
    assert_eq!(o.planet_status(1), Some(Status::Paused));
    assert!(o.is_linked(0, 1));
    assert!(o.is_linked(1, 0));
    assert!(!o.is_linked(0, 0));
}

#[test]
fn destroy_link_out_of_range_changes_nothing() {
    let mut o = Orchestrator::new();
    o.initialize_galaxy(&vec![line(0, vec![1]), line(1, vec![])]).unwrap();
    assert_eq!(
        o.destroy_topology_link(5, 9),
        Err(GalaxyError::Topology(TopologyError::IndexOutOfBounds))
    );
    assert!(o.is_linked(0, 1));
    assert_eq!(o.destroy_topology_link(0, 1), Ok(()));
    assert!(!o.is_linked(0, 1));
    assert!(!o.is_linked(1, 0));
}

#[test]
fn topology_link_edits_stay_symmetric() {
    let mut t = Topology::with_size(3);
    t.set_link(0, 2, true);
    assert!(t.is_linked(2, 0));
    assert_eq!(t.destroy_topology_link(2, 2), Ok(()));
    assert_eq!(t.destroy_topology_link(0, 3), Err(TopologyError::IndexOutOfBounds));
    t.set_link(1, 2, true);
    t.sever_node(2);
    assert!(!t.is_linked(0, 2) && !t.is_linked(1, 2) && !t.is_linked(2, 1));
    assert_eq!(t.len(), 3);
}

#[test]
fn initialization_refuses_bad_descriptions() {
    let mut o = Orchestrator::new();
    assert_eq!(
        o.initialize_galaxy(&vec![line(0, vec![1]), line(0, vec![])]),
        Err(GalaxyError::DuplicateId(0))
    );
    assert_eq!(
        o.initialize_galaxy(&vec![line(0, vec![7]), line(1, vec![])]),
        Err(GalaxyError::UnknownNeighbor(7))
    );
    assert_eq!(o.n_planets(), 0);
    assert_eq!(o.initialize_galaxy_by_adj_list(vec![vec![0, 1], vec![]]), Err(GalaxyError::EmptyRow(1)));
    assert_eq!(o.initialize_galaxy_by_adj_list(vec![vec![0, 1], vec![1]]), Ok(()));
    assert!(o.is_linked(1, 0));
}

#[test]
fn initialization_twice_is_same_as_once() {
    let lines = vec![line(4, vec![6]), line(5, vec![4]), line(6, vec![])];
    let mut o = Orchestrator::new();
    o.initialize_galaxy(&lines).unwrap();
    let once: Vec<bool> = (0..3).flat_map(|i| (0..3).map(move |j| (i, j))).map(|(i, j)| o.is_linked(i, j)).collect();
    o.initialize_galaxy(&lines).unwrap();
    let twice: Vec<bool> = (0..3).flat_map(|i| (0..3).map(move |j| (i, j))).map(|(i, j)| o.is_linked(i, j)).collect();
    assert_eq!(once, twice);
    assert_eq!(o.planet_slot(6), Some(2));
    o.reset();
    o.reset();
    assert_eq!(o.n_planets(), 0);
}

#[test]
fn destroyed_node_is_dead_and_cut_off() {
    let mut o = Orchestrator::new();
    o.initialize_galaxy(&vec![line(10, vec![11, 12]), line(11, vec![12]), line(12, vec![])]).unwrap();
    assert_eq!(o.handle_planet_message(PlanetToOrchestrator::StartPlanetAIResult { planet_id: 11 }), Ok(None));
    assert_eq!(o.planet_status(11), Some(Status::Running));
    assert_eq!(
        o.handle_planet_message(PlanetToOrchestrator::AsteroidAck { planet_id: 12, survived: true }),
        Ok(None)
    );
    assert_eq!(
        o.handle_planet_message(PlanetToOrchestrator::AsteroidAck { planet_id: 12, survived: false }),
        Ok(Some(12))
    );
    assert_eq!(o.planet_status(12), Some(Status::Dead));
    assert!(!o.is_linked(0, 2) && !o.is_linked(1, 2));
    assert!(o.is_linked(0, 1));
    assert_eq!(o.living_planets(), vec![10, 11]);
    assert_eq!(
        o.handle_planet_message(PlanetToOrchestrator::SunrayAck { planet_id: 99 }),
        Err(GalaxyError::UnknownPlanet(99))
    );
}

#[test]
fn global_events_cycle() {
    let mut o = Orchestrator::new();
    let events: Vec<GlobalEvent> = (0..10).map(|_| o.next_global_event()).collect();
    let expected: Vec<GlobalEvent> = (0..10)
        .map(|i| if i % 2 == 0 { GlobalEvent::Sunray } else { GlobalEvent::Asteroid })
        .collect();
    assert_eq!(events, expected);
}

#[test]
fn topology_file_errors_name_the_line() {
    let mut o = Orchestrator::new();
    assert_eq!(o.initialize_galaxy_by_text(b"0,1,1\n\n1,x,0\n2,1,a\n"), Err(GalaxyError::Parse(4)));
    assert_eq!(parse_topology(b"0\n"), Err(ParseError { line: 1 }));
    assert_eq!(o.n_planets(), 0);
}

#[test]
fn topology_file_lines() {
    let parsed = parse_topology(b" 3 , 2 , 4,5\r\n\n  \n4,9,3\n5,6,3").unwrap();
    assert_eq!(parsed.len(), 3);
    assert_eq!(parsed[0].id, 3);
    assert_eq!(parsed[0].kind, Some(PlanetType::HoustonWeHaveABorrow));
    assert_eq!(parsed[0].neighbors, vec![4, 5]);
    assert_eq!(parsed[1].kind, None);
    assert_eq!(parsed[2].kind, Some(PlanetType::RustyCrab));
    let p = parse_line(b"7,0").unwrap();
    assert!(p.neighbors.is_empty());
    assert_eq!(parse_line(b"7,0,"), None);
}

#[test]
fn byte_helpers() {
    assert_eq!(split_bytes(b"a,,b", b','), vec![b"a".to_vec(), vec![], b"b".to_vec()]);
    assert_eq!(trim_bytes(b" \tab c\r"), b"ab c".to_vec());
    assert_eq!(parse_u32(b"4294967295"), Some(u32::MAX));
    assert_eq!(parse_u32(b"4294967296"), None);
    assert_eq!(parse_u32(b"12a"), None);
    assert_eq!(parse_u32(b""), None);
    assert_eq!(parse_u32(b"007"), Some(7));
}

#[test]
fn type_codes_and_fallback() {
    assert_eq!(PlanetType::from_code(4), Some(PlanetType::OneMillionCrabs));
    assert_eq!(PlanetType::from_code(7), None);
    assert_eq!(PlanetType::or_fallback(None, 1), PlanetType::Ciuc);
    assert_eq!(PlanetType::or_fallback(Some(PlanetType::Rustrelli), 1), PlanetType::Rustrelli);
    assert_eq!(PlanetType::resolve(Some(PlanetType::Ciuc)), PlanetType::Ciuc);
    for _ in 0..20 {
        let t = PlanetType::random();
        assert!((0..7).any(|c| PlanetType::from_code(c) == Some(t)));
    }
}

#[test]
fn ui_commands() {
    let mut s = GameState::WaitingStart;
    assert_eq!(handle_ui_command(&mut s, UiToGame::StopGame), GameAction::Ignore);
    assert_eq!(handle_ui_command(&mut s, UiToGame::StartGame), GameAction::StartAll);
    assert_eq!(s, GameState::Running);
    assert_eq!(handle_ui_command(&mut s, UiToGame::StopGame), GameAction::Pause);
    assert_eq!(handle_ui_command(&mut s, UiToGame::StartGame), GameAction::Resume);
    assert_eq!(handle_ui_command(&mut s, UiToGame::EndGame), GameAction::Terminate);
    assert_eq!(s, GameState::Running);
}

#[test]
fn scripted_events_read_from_the_end() {
    let mut script: Vec<char> = "xSA".chars().collect();
    assert_eq!(pop_scripted_event(&mut script), Some(true));
    assert_eq!(pop_scripted_event(&mut script), Some(false));
    assert_eq!(pop_scripted_event(&mut script), None);
    assert_eq!(pop_scripted_event(&mut script), None);
}

#[test]
fn reset_waits_for_every_kill_acknowledgement() {
    let mut o = Orchestrator::new();
    o.initialize_planets_by_ids_list(vec![1, 2]).unwrap();
    assert_eq!(o.living_planets(), vec![1, 2]);
    o.handle_planet_message(PlanetToOrchestrator::KillPlanetResult { planet_id: 1 }).unwrap();
    assert_eq!(o.finish_reset(false), None);
    assert_eq!(o.n_planets(), 2);
    o.handle_planet_message(PlanetToOrchestrator::KillPlanetResult { planet_id: 2 }).unwrap();
    assert_eq!(o.finish_reset(false), Some(Ok(())));
    assert_eq!(o.n_planets(), 0);
}

#[test]
fn reset_timeout_reports_failure() {
    let mut o = Orchestrator::new();
    o.initialize_galaxy_example().unwrap();
    assert_eq!(o.planet_slot(1), Some(1));
    assert!(!o.is_linked(0, 1));
    assert_eq!(o.finish_reset(true), Some(Err(GalaxyError::ResetTimeout)));
    assert_eq!(o.n_planets(), 0);
    assert_eq!(o.initialize_planets_by_ids_list(vec![3, 3]), Err(GalaxyError::DuplicateId(3)));
}

#[test]
fn agents_are_registered_at_known_nodes() {
    let mut o = Orchestrator::new();
    o.initialize_galaxy_example().unwrap();
    let e = o.add_explorer(5, 1, 2).unwrap();
    assert_eq!(e.id(), 5);
    assert_eq!(e.planet_id(), 1);
    assert_eq!(e.state(), ExplorerState::WaitingToStartExplorerAI);
    assert_eq!(o.explorer_status(5), Some(Status::Paused));
    assert!(matches!(o.add_explorer(5, 0, 0), Err(GalaxyError::DuplicateExplorer(5))));
    assert!(matches!(o.add_explorer(6, 9, 0), Err(GalaxyError::UnknownPlanet(9))));
    assert_eq!(o.explorer_status(6), None);
    assert_eq!(o.handle_explorer_report(5, &ExplorerToOrchestrator::StartExplorerAIResult), Ok(()));
    assert_eq!(o.explorer_status(5), Some(Status::Running));
    assert_eq!(o.handle_explorer_report(5, &ExplorerToOrchestrator::KillExplorerResult), Ok(()));
    assert_eq!(o.explorer_status(5), Some(Status::Dead));
    assert_eq!(
        o.handle_explorer_report(8, &ExplorerToOrchestrator::StopExplorerAIResult),
        Err(GalaxyError::UnknownExplorer(8))
    );
}
