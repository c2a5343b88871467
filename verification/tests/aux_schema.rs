use std::cell::RefCell;
use std::collections::HashMap;

use node_logic::aux_schema::{
    authority_set_key, best_justification, best_justification_key, concluded_round_key,
    concluded_rounds_key, genesis_writes, load_decode, load_persistent, migration_writes, stale_round_writes, load_route, load_version, migrate_v0_set_state,
    migrate_v1_set_state, set_state_key, update_authority_set, update_best_justification,
    version_key, version_record, write_concluded_round_and_voter_set_state, CompletedRoundRecord,
    LoadRoute, MigratedSetState, RoundState, V1VoterSetState, CURRENT_VERSION,
};
use node_logic::hash::Hash256;
use node_logic::warp_sync::BlockRef;
use parity_scale_codec::Encode;

fn block(n: u64, number: u64) -> BlockRef {
    BlockRef { hash: Hash256::new(n, n, n, n), number }
}

fn completed_round_state() -> RoundState {
    RoundState { prevote_ghost: Some(block(9, 32)), finalized: None, estimate: None, completable: false }
}

#[test]
fn keys_are_the_schema_names() {
    assert_eq!(version_key(), b"grandpa_schema_version".to_vec());
    assert_eq!(set_state_key(), b"grandpa_completed_round".to_vec());
    assert_eq!(concluded_rounds_key(), b"grandpa_concluded_rounds".to_vec());
    assert_eq!(authority_set_key(), b"grandpa_voters".to_vec());
    assert_eq!(best_justification_key(), b"grandpa_best_justification".to_vec());
}

#[test]
fn version_record_holds_current_version() {
    let (key, value) = version_record();
    assert_eq!(key, b"grandpa_schema_version".to_vec());
    assert_eq!(value, CURRENT_VERSION.encode());
    assert_eq!(load_version(Some(value)), Ok(Some(3)));
}

#[test]
fn version_reads_back_as_encoded() {
    assert_eq!(load_version(None), Ok(None));
    assert_eq!(load_version(Some(1u32.encode())), Ok(Some(1)));
    assert_eq!(load_version(Some(vec![2, 0, 0, 0, 99])), Ok(Some(2)));
    assert_eq!(
        load_version(Some(vec![1, 0])),
        Err("GRANDPA DB is corrupted: Not enough data to fill buffer".to_string())
    );
}

#[test]
fn route_follows_stored_version() {
    assert_eq!(load_route(None), Ok(LoadRoute::FromVersion0));
    assert_eq!(load_route(Some(1)), Ok(LoadRoute::FromVersion1));
    assert_eq!(load_route(Some(2)), Ok(LoadRoute::FromVersion2));
    assert_eq!(load_route(Some(3)), Ok(LoadRoute::Current));
    assert_eq!(load_route(Some(0)), Err("Unsupported GRANDPA DB version: 0".to_string()));
    assert_eq!(load_route(Some(4)), Err("Unsupported GRANDPA DB version: 4".to_string()));
    assert_eq!(
        load_route(Some(4_294_967_295)),
        Err("Unsupported GRANDPA DB version: 4294967295".to_string())
    );
}

#[test]
fn genesis_round_is_completable_at_genesis() {
    let g = block(1, 0);
    assert_eq!(
        RoundState::genesis(g),
        RoundState { prevote_ghost: Some(g), finalized: Some(g), estimate: Some(g), completable: true }
    );
}

#[test]
fn v0_state_becomes_live_after_stored_round() {
    let state = completed_round_state();
    let migrated = migrate_v0_set_state(Some((42, state)), 3, block(1, 0));
    assert_eq!(
        migrated,
        MigratedSetState::Live {
            set_id: 3,
            completed: CompletedRoundRecord { number: 42, state, base: block(9, 32) },
            current_round: 43,
        }
    );
}

#[test]
fn v0_without_state_starts_after_genesis_round() {
    let g = block(1, 0);
    let migrated = migrate_v0_set_state(None, 3, g);
    assert_eq!(
        migrated,
        MigratedSetState::Live {
            set_id: 3,
            completed: CompletedRoundRecord { number: 0, state: RoundState::genesis(g), base: g },
            current_round: 1,
        }
    );
}

#[test]
fn v1_live_state_keeps_round_and_opens_next() {
    let state = completed_round_state();
    let migrated = migrate_v1_set_state(Some(V1VoterSetState::Live(42, state)), 3, block(1, 0));
    assert_eq!(
        migrated,
        MigratedSetState::Live {
            set_id: 3,
            completed: CompletedRoundRecord { number: 42, state, base: block(9, 32) },
            current_round: 43,
        }
    );
}

#[test]
fn v1_paused_state_stays_paused() {
    let state = completed_round_state();
    let migrated = migrate_v1_set_state(Some(V1VoterSetState::Paused(42, state)), 3, block(1, 0));
    assert_eq!(
        migrated,
        MigratedSetState::Paused {
            set_id: 3,
            completed: CompletedRoundRecord { number: 42, state, base: block(9, 32) },
        }
    );
}

#[test]
fn v1_without_state_is_fresh_from_genesis() {
    let g = block(1, 0);
    assert_eq!(migrate_v1_set_state(None, 3, g), MigratedSetState::Fresh { set_id: 3, base: g });
}

#[test]
fn authority_set_update_writes_state_only_on_handoff() {
    let written = update_authority_set(vec![1, 2], None, |entries| entries);
    assert_eq!(written, vec![(b"grandpa_voters".to_vec(), vec![1, 2])]);
    let written = update_authority_set(vec![1, 2], Some(vec![7]), |entries| entries);
    assert_eq!(
        written,
        vec![
            (b"grandpa_voters".to_vec(), vec![1, 2]),
            (b"grandpa_completed_round".to_vec(), vec![7]),
        ]
    );
}

#[test]
fn best_justification_is_written_under_its_key() {
    let written = update_best_justification(vec![5, 5], |entries| entries);
    assert_eq!(written, vec![(b"grandpa_best_justification".to_vec(), vec![5, 5])]);
}

#[test]
fn writes_concluded_round_and_voter_set_state_together() {
    let store: RefCell<HashMap<Vec<u8>, Vec<u8>>> = RefCell::new(HashMap::new());
    write_concluded_round_and_voter_set_state(42, vec![1, 1], vec![2, 2], |entries| {
        for (k, v) in entries {
            store.borrow_mut().insert(k, v);
        }
    });
    let mut round_key = b"grandpa_concluded_rounds".to_vec();
    round_key.extend(42u64.encode());
    assert_eq!(concluded_round_key(42), round_key);
    let store = store.into_inner();
    assert_eq!(store.get(&round_key), Some(&vec![1, 1]));
    assert_eq!(store.get(&b"grandpa_completed_round".to_vec()), Some(&vec![2, 2]));
    assert_eq!(store.len(), 2);
}

fn decode_pair(bytes: &Vec<u8>) -> Result<(u8, u8), String> {
    if bytes.len() == 2 {
        Ok((bytes[0], bytes[1]))
    } else {
        Err("bad pair".to_string())
    }
}

#[test]
fn load_decode_reports_corruption() {
    assert_eq!(load_decode(None, &decode_pair), Ok(None));
    assert_eq!(load_decode(Some(vec![1, 2]), &decode_pair), Ok(Some((1, 2))));
    assert_eq!(
        load_decode(Some(vec![1]), &decode_pair),
        Err("GRANDPA DB is corrupted: bad pair".to_string())
    );
}

#[test]
fn best_justification_reads_its_key() {
    let found = best_justification(
        |key| {
            assert_eq!(key, b"grandpa_best_justification".to_vec());
            Ok(Some(vec![4, 2]))
        },
        &decode_pair,
    );
    assert_eq!(found, Ok(Some((4, 2))));
    let missing = best_justification(|_| Ok(None), &decode_pair);
    assert_eq!(missing, Ok(None));
    let failing = best_justification(|_| Err("backend down".to_string()), &decode_pair);
    assert_eq!(failing, Err("backend down".to_string()));
}

fn entry(key: &[u8], value: Vec<u8>) -> (Vec<u8>, Vec<u8>) {
    (key.to_vec(), value)
}

#[test]
fn migrations_write_version_then_converted_data() {
    let version = vec![entry(b"grandpa_schema_version", 3u32.encode())];
    assert_eq!(migration_writes(LoadRoute::Current, Some((vec![1], vec![2]))), Vec::<Vec<(Vec<u8>, Vec<u8>)>>::new());
    assert_eq!(
        migration_writes(LoadRoute::FromVersion0, Some((vec![1], vec![2]))),
        vec![version.clone(), vec![entry(b"grandpa_voters", vec![1])], vec![entry(b"grandpa_completed_round", vec![2])]]
    );
    assert_eq!(
        migration_writes(LoadRoute::FromVersion1, Some((vec![1], vec![2]))),
        vec![version.clone(), vec![entry(b"grandpa_completed_round", vec![2])]]
    );
    assert_eq!(
        migration_writes(LoadRoute::FromVersion2, Some((vec![1], vec![2]))),
        vec![version.clone(), vec![entry(b"grandpa_voters", vec![1])]]
    );
    assert_eq!(migration_writes(LoadRoute::FromVersion1, None), vec![version]);
}

#[test]
fn genesis_writes_set_and_state_together() {
    assert_eq!(
        genesis_writes(vec![9], vec![8]),
        vec![entry(b"grandpa_voters", vec![9]), entry(b"grandpa_completed_round", vec![8])]
    );
}

#[test]
fn stale_rounds_rewrite_state_only_when_removed() {
    assert_eq!(stale_round_writes(0, vec![1]), None);
    assert_eq!(stale_round_writes(2, vec![1]), Some(vec![entry(b"grandpa_completed_round", vec![1])]));
}

type Store = RefCell<HashMap<Vec<u8>, Vec<u8>>>;

fn write_batches(store: &Store, batches: Vec<Vec<(Vec<u8>, Vec<u8>)>>) {
    for batch in batches {
        for (k, v) in batch {
            store.borrow_mut().insert(k, v);
        }
    }
}

fn stored(store: &Store, key: Vec<u8>) -> Option<Vec<u8>> {
    store.borrow().get(&key).cloned()
}

fn encoded_set(set_id: u64) -> Vec<u8> {
    (vec![(1u64, 100u64)], set_id).encode()
}

fn encoded_state(state: &MigratedSetState) -> Vec<u8> {
    format!("{:?}", state).into_bytes()
}

fn prevote_state() -> RoundState {
    RoundState { prevote_ghost: Some(block(7, 32)), finalized: None, estimate: None, completable: false }
}

fn expected_live(round: u64) -> MigratedSetState {
    MigratedSetState::Live {
        set_id: 3,
        completed: CompletedRoundRecord { number: round, state: prevote_state(), base: block(7, 32) },
        current_round: round + 1,
    }
}

/// Loads from `store`, migrating `old_state` where the route is an old one; the data loaded is
/// the stored authority set and voter set state.
fn load(store: &Store, old_state: Option<V1VoterSetState>) -> Result<(Vec<u8>, Vec<u8>), String> {
    load_persistent(
        stored(store, version_key()),
        |route| {
            let set = match stored(store, authority_set_key()) {
                Some(set) => set,
                None => return Ok(None),
            };
            match route {
                LoadRoute::Current => {},
                LoadRoute::FromVersion0 => {
                    let (number, state) = match old_state {
                        Some(V1VoterSetState::Live(n, s)) => (n, s),
                        _ => unreachable!(),
                    };
                    let migrated = migrate_v0_set_state(Some((number, state)), 3, block(1, 0));
                    write_batches(store, migration_writes(route, Some((set.clone(), encoded_state(&migrated)))));
                },
                LoadRoute::FromVersion1 => {
                    let migrated = migrate_v1_set_state(old_state, 3, block(1, 0));
                    write_batches(store, migration_writes(route, Some((set.clone(), encoded_state(&migrated)))));
                },
                LoadRoute::FromVersion2 => {
                    let converted = encoded_set(3);
                    let state = stored(store, set_state_key()).unwrap();
                    write_batches(store, migration_writes(route, Some((converted, state.clone()))));
                    if let Some(batch) = stale_round_writes(2, state) {
                        write_batches(store, vec![batch]);
                    }
                },
            }
            Ok(Some((stored(store, authority_set_key()).unwrap(), stored(store, set_state_key()).unwrap())))
        },
        || unreachable!(),
    )
}

#[test]
fn load_decode_from_v0_migrates_data_format() {
    let store: Store = RefCell::new(HashMap::new());
    let round_number: u64 = 42;
    write_batches(&store, vec![vec![(authority_set_key(), encoded_set(3))]]);
    assert_eq!(load_version(stored(&store, version_key())), Ok(None));

    load(&store, Some(V1VoterSetState::Live(round_number, prevote_state()))).unwrap();
    assert_eq!(load_version(stored(&store, version_key())), Ok(Some(3)));

    let (set, state) = load(&store, None).unwrap();
    assert_eq!(set, encoded_set(3));
    assert_eq!(state, encoded_state(&expected_live(round_number)));
}

#[test]
fn load_decode_from_v1_migrates_data_format() {
    let store: Store = RefCell::new(HashMap::new());
    let round_number: u64 = 42;
    write_batches(&store, vec![vec![(authority_set_key(), encoded_set(3)), (version_key(), 1u32.encode())]]);
    assert_eq!(load_version(stored(&store, version_key())), Ok(Some(1)));

    load(&store, Some(V1VoterSetState::Live(round_number, prevote_state()))).unwrap();
    assert_eq!(load_version(stored(&store, version_key())), Ok(Some(3)));

    let (set, state) = load(&store, None).unwrap();
    assert_eq!(set, encoded_set(3));
    assert_eq!(state, encoded_state(&expected_live(round_number)));
}

#[test]
fn load_decode_from_v2_migrates_data_format() {
    let store: Store = RefCell::new(HashMap::new());
    let v2_set = (vec![(1u64, 100u64)], 3u64, 0u8).encode();
    write_batches(
        &store,
        vec![vec![(authority_set_key(), v2_set), (set_state_key(), vec![5, 5]), (version_key(), 2u32.encode())]],
    );
    assert_eq!(load_version(stored(&store, version_key())), Ok(Some(2)));

    let (set, state) = load(&store, None).unwrap();
    assert_eq!(load_version(stored(&store, version_key())), Ok(Some(3)));
    assert_eq!(set, encoded_set(3));
    assert_eq!(state, vec![5, 5]);
}

#[test]
fn first_startup_loads_genesis_and_bad_versions_fail() {
    let store: Store = RefCell::new(HashMap::new());
    let made = load_persistent(
        None,
        |route| {
            assert_eq!(route, LoadRoute::FromVersion0);
            Ok(None)
        },
        || {
            write_batches(&store, vec![genesis_writes(encoded_set(0), vec![1])]);
            Ok((encoded_set(0), vec![1]))
        },
    );
    assert_eq!(made, Ok((encoded_set(0), vec![1])));
    assert_eq!(stored(&store, authority_set_key()), Some(encoded_set(0)));

    let failed: Result<u8, String> =
        load_persistent(Some(4u32.encode()), |_| unreachable!(), || unreachable!());
    assert_eq!(failed, Err("Unsupported GRANDPA DB version: 4".to_string()));
    let corrupted: Result<u8, String> = load_persistent(Some(vec![3]), |_| unreachable!(), || unreachable!());
    assert_eq!(corrupted, Err("GRANDPA DB is corrupted: Not enough data to fill buffer".to_string()));
    let refused: Result<u8, String> =
        load_persistent(Some(3u32.encode()), |_| Err("backend down".to_string()), || unreachable!());
    assert_eq!(refused, Err("backend down".to_string()));
}

#[test]
fn best_justification_reads_back_what_was_written() {
    let store: Store = RefCell::new(HashMap::new());
    update_best_justification(vec![4, 2], |entries| write_batches(&store, vec![entries]));
    let found = best_justification(|key| Ok(stored(&store, key)), &decode_pair);
    assert_eq!(found, Ok(Some((4, 2))));
}
