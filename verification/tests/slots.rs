use node_logic::block_builder::{on_step_failure, plan_slot, BuilderStep, OnFailure, SlotPlan};
use node_logic::hash::Hash256;
use node_logic::relay_parent::{
    count_on_same_parent, determine_best_relay_block_to_build_on, relay_parent_to_build_on,
    RelayHeader, RelayParentChoice, RelayParentState, MAX_PARA_BLOCKS_PER_RELAY,
};
use node_logic::slot_timing::{
    allowed_pov_size, core_for_selector, millis_until_next_slot, relay_chain_slot_from_millis,
    relay_slot_for_header,
};

#[test]
fn next_slot_is_at_the_next_boundary() {
    assert_eq!(millis_until_next_slot(12_345, 6_000, 0), 5_655);
    assert_eq!(millis_until_next_slot(12_000, 6_000, 0), 6_000);
    assert_eq!(millis_until_next_slot(12_345, 6_000, 345), 6_000);
    assert_eq!(millis_until_next_slot(0, 2_000, 0), 2_000);
    assert_eq!(millis_until_next_slot(1_999, 2_000, 0), 1);
}

#[test]
fn relay_chain_slot_is_the_millisecond_count() {
    assert_eq!(relay_chain_slot_from_millis(1_700_000_000_123), 1_700_000_000_123);
    assert_eq!(relay_chain_slot_from_millis(0), 0);
}

#[test]
fn header_slot_is_the_first_babe_digest() {
    assert_eq!(relay_slot_for_header(0, &vec![]), 0);
    assert_eq!(relay_slot_for_header(7, &vec![None, Some(42), Some(43)]), 42);
    assert_eq!(relay_slot_for_header(0, &vec![Some(5)]), 0);
}

#[test]
fn pov_size_is_halved_by_default() {
    assert_eq!(allowed_pov_size(10_000_001, false), 5_000_000);
    assert_eq!(allowed_pov_size(10_000_001, true), 10_000_001);
}

#[test]
fn core_selector_wraps_around_cores() {
    assert_eq!(core_for_selector(0, &vec![3, 4, 5]), Some(3));
    assert_eq!(core_for_selector(4, &vec![3, 4, 5]), Some(4));
    assert_eq!(core_for_selector(255, &vec![3, 4]), Some(4));
    assert_eq!(core_for_selector(1, &vec![]), None);
}

fn header(n: u64, number: u32, slot: u64) -> RelayHeader {
    RelayHeader { hash: Hash256::new(n, 0, 0, 0), number, babe_slots: vec![Some(slot)] }
}

#[test]
fn best_relay_block_walks_back_to_current_slot() {
    // Best relay block first, then its ancestors.
    let chain = vec![header(5, 105, 205), header(4, 104, 204), header(3, 103, 202), header(2, 102, 201)];
    assert_eq!(determine_best_relay_block_to_build_on(203, None, &chain), Hash256::new(3, 0, 0, 0));
    assert_eq!(determine_best_relay_block_to_build_on(205, None, &chain), Hash256::new(5, 0, 0, 0));
}

#[test]
fn best_relay_block_prefers_slot_after_parachain_parent() {
    let chain = vec![header(5, 105, 205), header(4, 104, 204), header(3, 103, 202), header(2, 102, 201)];
    // The parachain's relay parent is at slot 201, so slot 202 is preferred.
    assert_eq!(determine_best_relay_block_to_build_on(203, Some(201), &chain), Hash256::new(3, 0, 0, 0));
    // Slot 203 holds no block: fall back to the current slot.
    assert_eq!(determine_best_relay_block_to_build_on(204, Some(202), &chain), Hash256::new(4, 0, 0, 0));
    // A relay parent two slots behind is no longer preferred.
    assert_eq!(determine_best_relay_block_to_build_on(205, Some(202), &chain), Hash256::new(5, 0, 0, 0));
    // A relay parent too far behind is ignored.
    assert_eq!(determine_best_relay_block_to_build_on(210, Some(201), &chain), Hash256::new(5, 0, 0, 0));
}

#[test]
fn same_parent_count_stops_at_first_other() {
    let a = Hash256::new(1, 0, 0, 0);
    let b = Hash256::new(2, 0, 0, 0);
    assert_eq!(count_on_same_parent(&vec![], a), 1);
    assert_eq!(count_on_same_parent(&vec![Some(a), Some(a), Some(b), Some(a)], a), 3);
    assert_eq!(count_on_same_parent(&vec![None, Some(a)], a), 1);
}

#[test]
fn relay_parent_choice() {
    let p = Hash256::new(9, 0, 0, 0);
    assert_eq!(relay_parent_to_build_on(100, Some(p), Some(99), 1, 3), RelayParentChoice::BuildOn(p));
    assert_eq!(relay_parent_to_build_on(100, Some(p), Some(97), 1, 3), RelayParentChoice::Determine(Some(97)));
    assert_eq!(relay_parent_to_build_on(100, Some(p), Some(98), 1, 3), RelayParentChoice::BuildOn(p));
    assert_eq!(relay_parent_to_build_on(100, Some(p), Some(99), 3, 3), RelayParentChoice::Determine(Some(99)));
    assert_eq!(relay_parent_to_build_on(100, None, Some(99), 0, 3), RelayParentChoice::Determine(None));
    assert_eq!(relay_parent_to_build_on(100, Some(p), None, 0, 3), RelayParentChoice::Determine(None));
}

#[test]
fn builder_stops_only_on_its_own_failures() {
    for step in [BuilderStep::WaitSlot, BuilderStep::InherentData, BuilderStep::ValidationCodeHash, BuilderStep::SendCollation] {
        assert_eq!(on_step_failure(step), OnFailure::StopTask);
    }
    for step in [
        BuilderStep::FindParent,
        BuilderStep::CoreSelector,
        BuilderStep::RelayChainData,
        BuilderStep::RelaySlot,
        BuilderStep::ClaimSlot,
        BuilderStep::BuildBlock,
    ] {
        assert_eq!(on_step_failure(step), OnFailure::SkipSlot);
    }
}

#[test]
fn slot_plan_picks_core_and_pov() {
    assert_eq!(plan_slot(3, &vec![], 1000, false), SlotPlan::Skip);
    assert_eq!(plan_slot(3, &vec![7, 8], 1001, false), SlotPlan::Build { core_index: 8, allowed_pov_size: 500 });
    assert_eq!(plan_slot(2, &vec![7, 8], 1001, true), SlotPlan::Build { core_index: 7, allowed_pov_size: 1001 });
}

#[test]
fn relay_state_tracks_best_block_and_roots() {
    let h = |n: u64| Hash256::new(n, 0, 0, 0);
    let mut state = RelayParentState::new(h(10), 10, h(110));
    assert_eq!(state.max_para_blocks_per_relay, MAX_PARA_BLOCKS_PER_RELAY);
    assert_eq!(state.max_para_blocks_per_relay, 12);
    assert_eq!(state.roots.lookup(h(110)), Some(h(10)));
    state.on_relay_import(h(9), 9, h(109));
    assert_eq!((state.best_hash, state.best_number), (h(10), 10));
    state.on_relay_import(h(11), 11, h(111));
    assert_eq!((state.best_hash, state.best_number), (h(11), 11));
    assert_eq!(state.roots.lookup(h(109)), Some(h(9)));
    assert_eq!(state.roots.extract_relay_parent(None, Some(h(111))), Some(h(11)));
}
