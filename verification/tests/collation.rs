use node_logic::collation_chain::{longest_chain, TreeBlock};
use node_logic::collation_info::{
    bounded_messages, merge_collation_infos, para_scheduled_on_any_core, CollationInfo,
    MAX_HORIZONTAL_MESSAGE_NUM, MAX_UPWARD_MESSAGE_NUM,
};
use node_logic::collation_task::{AddOutcome, PerRelayParent, RelayParents};
use node_logic::hash::Hash256;
use node_logic::relay_root_index::RelayRootIndex;

fn block(number: u64, parent: usize, relay_parent: Option<Hash256>, children: Vec<usize>) -> TreeBlock {
    TreeBlock { number, parent, relay_parent, children: Some(children) }
}

fn rp(n: u64) -> Hash256 {
    Hash256::new(n, 0, 0, 0)
}

#[test]
fn longest_chain_follows_same_relay_parent() {
    // 0 is the included block; 1 and 2 are its children; 1 -> 3 -> 4, where 4 was built on
    // another relay parent and so is not collected.
    let tree = vec![
        block(10, usize::MAX, None, vec![1, 2]),
        block(11, 0, Some(rp(1)), vec![3]),
        block(11, 0, Some(rp(1)), vec![]),
        block(12, 1, Some(rp(1)), vec![4]),
        block(13, 3, Some(rp(2)), vec![]),
    ];
    assert_eq!(longest_chain(&tree, 0), vec![1, 3]);
}

#[test]
fn longest_chain_prefers_the_deepest_end() {
    let tree = vec![
        block(5, usize::MAX, None, vec![1, 2]),
        block(6, 0, Some(rp(7)), vec![3]),
        block(6, 0, Some(rp(8)), vec![4]),
        block(7, 1, Some(rp(7)), vec![]),
        block(7, 2, Some(rp(8)), vec![5]),
        block(8, 4, Some(rp(8)), vec![]),
    ];
    assert_eq!(longest_chain(&tree, 0), vec![2, 4, 5]);
}

#[test]
fn longest_chain_is_empty_without_two_blocks() {
    let tree = vec![
        block(5, usize::MAX, None, vec![1]),
        block(6, 0, Some(rp(1)), vec![]),
    ];
    assert!(longest_chain(&tree, 0).is_empty());
    let unreadable = vec![
        block(5, usize::MAX, None, vec![1]),
        TreeBlock { number: 6, parent: 0, relay_parent: None, children: Some(vec![2]) },
        block(7, 1, Some(rp(1)), vec![]),
    ];
    assert!(longest_chain(&unreadable, 0).is_empty());
}

fn info(up: Vec<u8>, code: Option<u8>, processed: u32, watermark: u32, head: u8) -> CollationInfo<u8, u8, u8, u8> {
    CollationInfo {
        upward_messages: up.clone(),
        horizontal_messages: up.iter().map(|m| m + 100).collect(),
        new_validation_code: code,
        processed_downward_messages: processed,
        hrmp_watermark: watermark,
        head_data: head,
    }
}

#[test]
fn merge_collects_messages_and_keeps_last_head() {
    let merged = merge_collation_infos(vec![
        info(vec![1, 2], None, 3, 10, 1),
        info(vec![3], Some(9), 0, 11, 2),
        info(vec![], Some(8), 4, 12, 3),
    ])
    .unwrap();
    assert_eq!(merged.upward_messages, vec![1, 2, 3]);
    assert_eq!(merged.horizontal_messages, vec![101, 102, 103]);
    assert_eq!(merged.new_validation_code, Some(9));
    assert_eq!(merged.processed_downward_messages, 7);
    assert_eq!(merged.hrmp_watermark, 12);
    assert_eq!(merged.head_data, 3);
}

#[test]
fn merge_of_nothing_is_none() {
    assert!(merge_collation_infos::<u8, u8, u8, u8>(vec![]).is_none());
}

#[test]
fn para_scheduled_when_some_core_has_it() {
    assert!(para_scheduled_on_any_core(&vec![None, Some(7), Some(2000)], 2000));
    assert!(!para_scheduled_on_any_core(&vec![None, Some(7)], 2000));
    assert!(!para_scheduled_on_any_core(&vec![], 2000));
}

#[test]
fn blocks_per_core_shares_relay_slot() {
    let p = PerRelayParent::<u8, u8>::new(vec![1, 2], 500, 6000);
    assert_eq!(p.blocks_per_core, 6);
    let p = PerRelayParent::<u8, u8>::new(vec![1, 2, 3], 6000, 6000);
    assert_eq!(p.blocks_per_core, 3);
    let p = PerRelayParent::<u8, u8>::new(vec![], 500, 6000);
    assert_eq!(p.blocks_per_core, 0);
}

#[test]
fn collation_is_due_when_core_is_full() {
    let mut p = PerRelayParent::<u32, &str>::new(vec![4, 5], 2000, 6000);
    assert_eq!(p.blocks_per_core, 1);
    assert_eq!(p.add_parachain_block(1, "parent", 9), AddOutcome::Nothing);
    assert!(p.parachain_blocks.is_empty());
    assert_eq!(p.add_parachain_block(1, "parent", 4), AddOutcome::SubmitCollation);
    assert!(p.add_parachain_block(1, "parent", 4) == AddOutcome::Nothing);
    let per_core = p.parachain_blocks.get(&4).unwrap();
    assert_eq!(per_core.blocks, vec![1, 1]);
    assert_eq!(per_core.parent_header, "parent");
}

#[test]
fn first_parent_header_is_kept() {
    let mut p = PerRelayParent::<u32, &str>::new(vec![4], 500, 6000);
    assert_eq!(p.blocks_per_core, 12);
    for i in 0..11 {
        let header = if i == 0 { "first" } else { "later" };
        assert_eq!(p.add_parachain_block(i, header, 4), AddOutcome::Nothing);
    }
    assert!(p.add_parachain_block(11, "later", 4).submit_collation());
    let per_core = p.parachain_blocks.get(&4).unwrap();
    assert_eq!(per_core.parent_header, "first");
    assert_eq!(per_core.blocks, (0..12).collect::<Vec<u32>>());
}

#[test]
fn relay_parents_keep_blocks_apart() {
    let mut table = RelayParents::<u32, u32>::new();
    assert_eq!(table.handle_collation_message(rp(1), vec![0, 1], 10, 100, 0), AddOutcome::Nothing);
    assert_eq!(table.handle_collation_message(rp(2), vec![3], 20, 200, 3), AddOutcome::Nothing);
    assert_eq!(table.handle_collation_message(rp(1), vec![9], 11, 101, 1), AddOutcome::Nothing);
    assert_eq!(table.entries.len(), 2);
    let first = table.find(rp(1)).unwrap();
    let per = &table.entries[first].1;
    assert_eq!(per.scheduled_cores, vec![0, 1]);
    assert_eq!(per.blocks_per_core, 6);
    assert_eq!(per.parachain_blocks.get(&0).unwrap().blocks, vec![10]);
    assert_eq!(per.parachain_blocks.get(&1).unwrap().blocks, vec![11]);
    let second = table.find(rp(2)).unwrap();
    assert_eq!(table.entries[second].1.parachain_blocks.get(&3).unwrap().parent_header, 200);
    assert!(table.find(rp(3)).is_none());
}

#[test]
fn imported_blocks_go_to_selected_core() {
    let mut table = RelayParents::<u32, u32>::new();
    table.handle_block_import(rp(1), vec![4, 5, 6], 7, 42, 1);
    let i = table.find(rp(1)).unwrap();
    let per = &table.entries[i].1;
    assert_eq!(per.parachain_blocks.len(), 1);
    assert_eq!(per.parachain_blocks.get(&5).unwrap().blocks, vec![42]);
}

#[test]
fn root_index_finds_recorded_blocks() {
    let mut index = RelayRootIndex::new(50);
    assert_eq!(index.lookup(rp(1)), None);
    assert!(index.insert(rp(1), rp(100)));
    assert!(index.insert(rp(2), rp(200)));
    assert_eq!(index.lookup(rp(1)), Some(rp(100)));
    assert_eq!(index.lookup(rp(2)), Some(rp(200)));
    assert!(index.insert(rp(1), rp(101)));
    assert_eq!(index.lookup(rp(1)), Some(rp(101)));
}

#[test]
fn root_index_evicts_least_recently_used() {
    let mut index = RelayRootIndex::new(1);
    assert!(index.insert(rp(1), rp(100)));
    assert!(index.insert(rp(2), rp(200)));
    assert_eq!(index.lookup(rp(1)), None);
    assert_eq!(index.lookup(rp(2)), Some(rp(200)));
}

#[test]
fn root_index_lookup_keeps_a_root_from_eviction() {
    let mut index = RelayRootIndex::new(2);
    assert!(index.insert(rp(1), rp(100)));
    assert!(index.insert(rp(2), rp(200)));
    assert_eq!(index.lookup(rp(1)), Some(rp(100)));
    assert!(index.insert(rp(3), rp(300)));
    assert_eq!(index.lookup(rp(2)), None);
    assert_eq!(index.lookup(rp(1)), Some(rp(100)));
    assert_eq!(index.lookup(rp(3)), Some(rp(300)));
}

#[test]
fn relay_parent_from_digest_or_storage_root() {
    let mut index = RelayRootIndex::new(50);
    index.insert(rp(1), rp(100));
    assert_eq!(index.extract_relay_parent(Some(rp(7)), Some(rp(1))), Some(rp(7)));
    assert_eq!(index.extract_relay_parent(None, Some(rp(1))), Some(rp(100)));
    assert_eq!(index.extract_relay_parent(None, Some(rp(2))), None);
    assert_eq!(index.extract_relay_parent(None, None), None);
}

#[test]
fn too_many_messages_skip_the_collation() {
    assert_eq!(MAX_UPWARD_MESSAGE_NUM, 16384);
    assert_eq!(MAX_HORIZONTAL_MESSAGE_NUM, 16384);
    let fits = info(vec![0; 16384], None, 0, 1, 2);
    assert!(bounded_messages(fits).is_some());
    let too_many_up = info(vec![0; 16385], None, 0, 1, 2);
    assert!(bounded_messages(too_many_up).is_none());
    let mut too_many_across = info(vec![], None, 0, 1, 2);
    too_many_across.horizontal_messages = vec![0; 16385];
    assert!(bounded_messages(too_many_across).is_none());
}
