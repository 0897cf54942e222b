use crab_rave::planet::{AsteroidOutcome, ExplorerReply, ExplorerRequest, AI};
use crab_rave::pool::{
    get_charged_cell_index, get_free_cell_index, initialize_free_cell_stack,
    peek_charged_cell_index, push_charged_cell, push_free_cell, CellStacks, N_CELLS,
};
use crab_rave::resources::{BasicKind, ComplexKind};
use crab_rave::CrabRaveConstructor;

#[test]
fn t01_planet_initialization() {
    let blueprint = CrabRaveConstructor::blueprint();
    assert_eq!(blueprint.gen_rules, vec![BasicKind::Carbon]);
    assert!(blueprint.comb_rules.is_empty());
    let ai = CrabRaveConstructor::ai();
    let snap = ai.handle_internal_state_req();
    assert_eq!(snap.free_cells, N_CELLS);
    assert_eq!(snap.charged_cells, 0);
    assert!(!snap.has_rocket);
}

#[test]
fn pool_hands_out_unit_zero_first() {
    let mut p = CellStacks::new(5);
    assert_eq!(get_free_cell_index(&mut p), Some(0));
    assert_eq!(get_free_cell_index(&mut p), Some(1));
    assert_eq!(p.free_count(), 3);
}

#[test]
fn pool_release_and_peek() {
    let mut p = CellStacks::new(3);
    let u = get_free_cell_index(&mut p).unwrap();
    assert_eq!(peek_charged_cell_index(&p), None);
    push_charged_cell(&mut p, u);
    assert_eq!(peek_charged_cell_index(&p), Some(u));
    assert_eq!(p.charged_count(), 1);
    assert_eq!(get_charged_cell_index(&mut p), Some(u));
    assert_eq!(get_charged_cell_index(&mut p), None);
    push_free_cell(&mut p, u);
    assert_eq!(p.free_count(), 3);
    assert!(p.holds(u));
}

#[test]
fn pool_empty_stack_gives_nothing() {
    let mut p = CellStacks::new(0);
    assert_eq!(get_free_cell_index(&mut p), None);
    assert_eq!(p.free_count(), 0);
}

#[test]
fn pool_conservation_over_operations() {
    let mut p = CellStacks::new(N_CELLS);
    let mut held: Vec<u32> = Vec::new();
    for _ in 0..3 {
        held.push(get_free_cell_index(&mut p).unwrap());
    }
    assert_eq!(p.free_count() + p.charged_count() + held.len(), N_CELLS);
    push_charged_cell(&mut p, held.pop().unwrap());
    assert_eq!(p.free_count() + p.charged_count() + held.len(), N_CELLS);
    push_free_cell(&mut p, held.pop().unwrap());
    push_free_cell(&mut p, held.pop().unwrap());
    assert_eq!(p.free_count() + p.charged_count(), N_CELLS);
}

#[test]
fn pool_reinitialize_twice_same_as_once() {
    let mut p = CellStacks::new(4);
    let u = get_free_cell_index(&mut p).unwrap();
    push_charged_cell(&mut p, u);
    initialize_free_cell_stack(&mut p);
    let once = (p.free_count(), p.charged_count(), get_free_cell_index(&mut p));
    initialize_free_cell_stack(&mut p);
    initialize_free_cell_stack(&mut p);
    let twice = (p.free_count(), p.charged_count(), get_free_cell_index(&mut p));
    assert_eq!(once, (4, 0, Some(0)));
    assert_eq!(once, twice);
}

#[test]
fn t02_single_sunray_exchange() {
    let mut ai = AI::new(N_CELLS, true);
    assert_eq!(ai.handle_sunray(), Some(0));
    let snap = ai.handle_internal_state_req();
    assert_eq!(snap.charged_cells, 1);
    assert_eq!(snap.free_cells, N_CELLS - 1);
}

#[test]
fn sunray_without_free_unit_is_not_acknowledged() {
    let mut ai = AI::new(1, true);
    assert_eq!(ai.handle_sunray(), Some(0));
    assert_eq!(ai.handle_sunray(), None);
    assert_eq!(ai.handle_internal_state_req().charged_cells, 1);
}

#[test]
fn t06_asteroid_exchange_without_rocket() {
    let mut ai = AI::new(N_CELLS, true);
    assert_eq!(ai.handle_asteroid(), AsteroidOutcome::Destroyed);
}

#[test]
fn asteroid_on_node_that_cannot_hold_rocket() {
    let mut ai = AI::new(N_CELLS, false);
    ai.handle_sunray();
    assert_eq!(ai.handle_asteroid(), AsteroidOutcome::Destroyed);
    assert_eq!(ai.handle_internal_state_req().charged_cells, 1);
}

#[test]
fn t05_asteroid_success() {
    let mut ai = AI::new(N_CELLS, true);
    let u = ai.handle_sunray().unwrap();
    assert_eq!(ai.handle_asteroid(), AsteroidOutcome::BuiltRocket(u));
    let snap = ai.handle_internal_state_req();
    assert_eq!(snap.charged_cells, 0);
    assert_eq!(snap.free_cells, N_CELLS);
    assert!(!snap.has_rocket);
}

#[test]
fn t03_correct_resource_request() {
    let mut ai = AI::new(N_CELLS, true);
    let u = ai.handle_sunray().unwrap();
    let mut seen: Option<u32> = None;
    let reply = ai.handle_explorer_msg(ExplorerRequest::GenerateResource(BasicKind::Carbon), |unit| {
        seen = Some(unit);
        BasicKind::Carbon
    });
    assert!(matches!(reply, ExplorerReply::Produced(BasicKind::Carbon)));
    assert_eq!(seen, Some(u));
    let snap = ai.handle_internal_state_req();
    assert_eq!(snap.charged_cells, 0);
    assert_eq!(snap.free_cells, N_CELLS);
}

#[test]
fn t04_failure_resource_request() {
    let mut ai = AI::new(N_CELLS, true);
    let mut called = false;
    let reply = ai.handle_explorer_msg(ExplorerRequest::GenerateResource(BasicKind::Carbon), |_| {
        called = true;
        BasicKind::Carbon
    });
    assert!(matches!(reply, ExplorerReply::Unavailable));
    assert!(!called);
}

#[test]
fn failed_combination_still_returns_unit_to_free_pool() {
    let mut ai = AI::new(2, true);
    ai.handle_sunray();
    let reply = ai.handle_explorer_msg(ExplorerRequest::CombineResource(ComplexKind::Water), |_| false);
    assert!(matches!(reply, ExplorerReply::Produced(false)));
    let snap = ai.handle_internal_state_req();
    assert_eq!(snap.free_cells, 2);
    assert_eq!(snap.charged_cells, 0);
}

#[test]
fn t08_available_resources_request() {
    let mut ai = AI::new(N_CELLS, true);
    let mut called = false;
    let r = ai.handle_explorer_msg(ExplorerRequest::SupportedResource, |_| called = true);
    assert!(matches!(r, ExplorerReply::SupportedResources));
    assert!(!called);
    assert_eq!(ai.handle_internal_state_req().free_cells, N_CELLS);
}

#[test]
fn available_energy_cells_request() {
    let mut ai = AI::new(N_CELLS, true);
    let r = ai.handle_explorer_msg(ExplorerRequest::AvailableEnergyCell, |_| ());
    assert!(matches!(r, ExplorerReply::NoReply));
    ai.handle_sunray();
    ai.handle_sunray();
    let r = ai.handle_explorer_msg(ExplorerRequest::AvailableEnergyCell, |_| ());
    assert!(matches!(r, ExplorerReply::AvailableCells(2)));
    let r = ai.handle_explorer_msg(ExplorerRequest::SupportedResource, |_| ());
    assert!(matches!(r, ExplorerReply::SupportedResources));
    let r = ai.handle_explorer_msg(ExplorerRequest::SupportedCombination, |_| ());
    assert!(matches!(r, ExplorerReply::SupportedCombinations));
}

#[test]
fn start_is_idempotent_and_stop_allows_reset() {
    let mut ai = AI::new(3, true);
    ai.start();
    ai.handle_sunray();
    ai.start();
    assert_eq!(ai.handle_internal_state_req().charged_cells, 1);
    ai.stop();
    ai.start();
    assert_eq!(ai.handle_internal_state_req().charged_cells, 0);
    assert_eq!(ai.handle_internal_state_req().free_cells, 3);
}
