use node_logic::hash::Hash256;
use node_logic::warp_generate::{tell, ChainLookups, GenerateFailure};
use node_logic::warp_sync::{
    Authority, AuthoritySetHardFork, BlockRef, FragmentHeader, HardForks, Error,
    WarpSyncFragment, WarpSyncProof,
};
use node_logic::warp_verifier::{GrandpaVerifier, VerificationResult};

/// A justification in the test chain: the set that signed it, its signers, and its target.
#[derive(Clone, Debug, PartialEq)]
struct TestJustification {
    set_id: u64,
    signers: Vec<Authority>,
    target: BlockRef,
}

fn hash(n: u64) -> Hash256 {
    Hash256::new(n + 1, 0xaa, 0, 0)
}

fn block(n: u64) -> BlockRef {
    BlockRef { hash: hash(n), number: n }
}

fn authorities(set_id: u64) -> Vec<Authority> {
    (0..(set_id % 3 + 1)).map(|i| Authority { id: Hash256::new(1000 + set_id, i, 0, 0), weight: 1 }).collect()
}

/// The set that is in charge at block `n` (a change at block `10 k` hands over after it).
fn set_at(n: u64) -> u64 {
    if n == 0 {
        0
    } else {
        (n - 1) / 10
    }
}

const BEST: u64 = 100;

/// 100 blocks; every tenth block schedules a change to the next set; changes and block 55 are
/// justified by the set in charge.
struct Chain {
    records: Vec<(u64, u64)>,
}

impl Chain {
    fn new() -> Chain {
        Chain { records: (1..=10).map(|k| (k - 1, 10 * k)).collect() }
    }

    fn header(&self, h: Hash256) -> Option<FragmentHeader> {
        let n = h.w0.checked_sub(1)?;
        if n > BEST || h != hash(n) {
            return None;
        }
        let scheduled_change = if n != 0 && n % 10 == 0 { Some(authorities(n / 10)) } else { None };
        Some(FragmentHeader { block: block(n), scheduled_change })
    }

    fn justification(&self, h: Hash256) -> Option<(TestJustification, BlockRef)> {
        let n = h.w0.checked_sub(1)?;
        if n > BEST || h != hash(n) || !(n % 10 == 0 && n != 0 || n == 55) {
            return None;
        }
        let set_id = set_at(n);
        Some((TestJustification { set_id, signers: authorities(set_id), target: block(n) }, block(n)))
    }

    fn changes_from(&self, begin: u64) -> Option<Vec<u64>> {
        let rest: Vec<(u64, u64)> = self.records.iter().cloned().filter(|(_, b)| *b > begin).collect();
        if let Some((set_id, _)) = rest.first() {
            if *set_id != 0 && rest.len() == self.records.len() {
                return None;
            }
        }
        Some(rest.into_iter().map(|(_, b)| b).collect())
    }

    fn changes_after(&self, set_id: u64, number: u64) -> Option<Vec<u64>> {
        let rest: Vec<(u64, u64)> =
            self.records.iter().cloned().filter(|(s, b)| *s >= set_id && *b > number).collect();
        for (i, (s, _)) in rest.iter().enumerate() {
            if *s != set_id + i as u64 {
                return None;
            }
        }
        Some(rest.into_iter().map(|(_, b)| b).collect())
    }
}

fn check(j: &TestJustification, set_id: u64, list: &Vec<Authority>) -> Result<(), String> {
    if j.set_id == set_id && j.signers == *list {
        Ok(())
    } else {
        Err(format!("justification of set {} does not verify against set {}", j.set_id, set_id))
    }
}

/// A block at height 30 that is not on the canonical chain.
fn fork_hash() -> Hash256 {
    Hash256::new(31, 0xbb, 0, 0)
}

fn generate(chain: &Chain, begin: Hash256, hard_forks: &HardForks, size: usize) -> Result<WarpSyncProof<TestJustification>, Error> {
    generate_at(chain, begin, hard_forks, size, BEST)
}

fn generate_at(
    chain: &Chain,
    begin: Hash256,
    hard_forks: &HardForks,
    size: usize,
    finalized: u64,
) -> Result<WarpSyncProof<TestJustification>, Error> {
    let lookups = ChainLookups {
        block_number: |h: Hash256| {
            if h == fork_hash() {
                Ok(Some(30))
            } else {
                Ok(chain.header(h).map(|hd| hd.block.number))
            }
        },
        canonical_hash: |n: u64| Ok(if n <= BEST { Some(hash(n)) } else { None }),
        header: |h: Hash256| Ok(chain.header(h)),
        justification: |h: Hash256| Ok(chain.justification(h)),
        fragment_size: move |_: &WarpSyncFragment<TestJustification>| size,
        changes_after: |(set_id, number): (u64, u64)| chain.changes_after(set_id, number),
        changes_from: |n: u64| chain.changes_from(n),
        best_justification: || Ok(chain.justification(hash(BEST))),
    };
    WarpSyncProof::generate(&lookups, begin, finalized, hard_forks)
}

fn err<T>(r: Result<T, Error>) -> Error {
    match r {
        Err(e) => e,
        Ok(_) => panic!("expected an error"),
    }
}

fn numbers(proof: &WarpSyncProof<TestJustification>) -> Vec<u64> {
    proof.proofs.iter().map(|f| f.header.block.number).collect()
}

fn checkpoint(n: u64, set_id: u64) -> AuthoritySetHardFork {
    AuthoritySetHardFork { set_id, block: block(n), authorities: authorities(set_id), last_finalized: None }
}

fn fragments(proof: &WarpSyncProof<TestJustification>) -> Vec<(BlockRef, TestJustification)> {
    proof.proofs.iter().map(|f| (f.header.block, f.justification.clone())).collect()
}

/// The change records of a node that warp-synced to the off-chain checkpoint at block 55 (set
/// 5): no history before it, but a bad lower-set record at the checkpoint.
fn incomplete_records() -> Vec<(u64, u64)> {
    let mut records: Vec<(u64, u64)> = Chain::new().records.into_iter().filter(|(set_id, _)| *set_id >= 5).collect();
    records.push((0, 55));
    records.sort_by_key(|(_, b)| *b);
    records
}

#[test]
fn warp_sync_proof_generate_verify() {
    let chain = Chain::new();
    let hard_forks = HardForks::new_hard_forked_authorities(vec![]);
    let proof = generate(&chain, hash(0), &hard_forks, 100).unwrap();
    assert_eq!(numbers(&proof), vec![10, 20, 30, 40, 50, 60, 70, 80, 90, 100]);
    assert!(proof.is_finished);

    // Reinitializing the starting set id must not alter the fragments generated.
    let reinit = generate(&chain, hash(0), &HardForks::new_initial_set_id(3), 100).unwrap();
    assert_eq!(fragments(&reinit), fragments(&proof));
    assert_eq!(reinit.is_finished, proof.is_finished);

    let (set_id, list) = proof.verify(0, authorities(0), &hard_forks, &check).unwrap();
    assert_eq!(set_id, 10);
    assert_eq!(list, authorities(10));
}

#[test]
fn warp_sync_uses_scheduled_checkpoint_with_incomplete_history() {
    let chain = Chain { records: incomplete_records() };
    let noncanonical = AuthoritySetHardFork {
        set_id: 99,
        block: BlockRef { hash: Hash256::new(0, 0, 0, 0), number: 50 },
        authorities: authorities(4),
        last_finalized: None,
    };
    let future = AuthoritySetHardFork {
        set_id: 10,
        block: BlockRef { hash: Hash256::new(0, 0, 0, 0), number: 110 },
        authorities: authorities(4),
        last_finalized: None,
    };
    let hard_forks = HardForks::new_hard_forked_authorities(vec![checkpoint(50, 4), noncanonical, future]);
    let proof = generate(&chain, hash(0), &hard_forks, 100).unwrap();
    assert_eq!(proof.proofs[0].header.block.number, 50);
    assert_eq!(proof.proofs.iter().filter(|f| f.header.block.number == 50).count(), 1);
    assert_eq!(numbers(&proof), vec![50, 60, 70, 80, 90, 100]);
    let (set_id, list) = proof.verify(0, authorities(0), &hard_forks, &check).unwrap();
    assert_eq!(set_id, 10);
    assert_eq!(list, authorities(10));
}

#[test]
fn warp_sync_uses_latest_checkpoint_without_change_digest() {
    let chain = Chain { records: incomplete_records() };
    let hard_forks = HardForks::new_hard_forked_authorities(vec![checkpoint(50, 4), checkpoint(55, 5)]);
    let proof = generate(&chain, hash(0), &hard_forks, 100).unwrap();
    assert_eq!(proof.proofs[0].header.block.number, 55);
    assert!(proof.proofs[0].header.scheduled_change.is_none());
    assert!(proof.proofs.last().expect("proof contains the checkpoint").header.block.number > 55);
    assert!(!proof.proofs.iter().any(|f| f.header.block.number == 50));
    let (set_id, list) = proof.verify(0, authorities(0), &hard_forks, &check).unwrap();
    assert_eq!(set_id, 10);
    assert_eq!(list, authorities(10));
}

#[test]
fn warp_sync_rejects_gapped_checkpoint_suffix() {
    let mut chain = Chain::new();
    chain.records.retain(|(set_id, _)| *set_id >= 5 + 2);
    let hard_forks = HardForks::new_hard_forked_authorities(vec![checkpoint(55, 5)]);
    assert_eq!(err(generate(&chain, hash(0), &hard_forks, 100)), Error::MissingData);
}

#[test]
fn checkpoints_with_full_history_replace_earlier_changes() {
    let chain = Chain::new();
    let hard_forks = HardForks::new_hard_forked_authorities(vec![checkpoint(50, 4)]);
    let proof = generate(&chain, hash(0), &hard_forks, 100).unwrap();
    assert_eq!(numbers(&proof), vec![50, 60, 70, 80, 90, 100]);
    let hard_forks = HardForks::new_hard_forked_authorities(vec![checkpoint(50, 4), checkpoint(55, 5)]);
    let proof = generate(&chain, hash(0), &hard_forks, 100).unwrap();
    assert_eq!(numbers(&proof), vec![55, 60, 70, 80, 90, 100]);
}

#[test]
fn start_block_must_be_known_finalized_and_canonical() {
    let chain = Chain::new();
    let hard_forks = HardForks::new_hard_forked_authorities(vec![]);
    assert_eq!(
        err(generate(&chain, Hash256::new(500, 0xaa, 0, 0), &hard_forks, 100)),
        Error::InvalidRequest("Missing start block".to_string())
    );
    assert_eq!(
        err(generate_at(&chain, hash(60), &hard_forks, 100, 50)),
        Error::InvalidRequest("Start block is not finalized".to_string())
    );
    assert_eq!(
        err(generate(&chain, fork_hash(), &hard_forks, 100)),
        Error::InvalidRequest("Start block is not in the finalized chain".to_string())
    );
}

#[test]
fn proof_stops_at_size_limit() {
    let chain = Chain::new();
    let hard_forks = HardForks::new_hard_forked_authorities(vec![]);
    let proof = generate(&chain, hash(0), &hard_forks, 3 * 1024 * 1024).unwrap();
    assert_eq!(numbers(&proof), vec![10, 20]);
    assert!(!proof.is_finished);
    let proof = generate(&chain, hash(0), &hard_forks, 8 * 1024 * 1024).unwrap();
    assert!(proof.proofs.is_empty());
    assert!(!proof.is_finished);
}

#[test]
fn later_start_skips_earlier_changes_and_adds_best_justification() {
    let mut chain = Chain::new();
    chain.records.pop();
    let hard_forks = HardForks::new_hard_forked_authorities(vec![]);
    let proof = generate(&chain, hash(35), &hard_forks, 100).unwrap();
    // Changes after block 35, then the best justification at block 100.
    assert_eq!(numbers(&proof), vec![40, 50, 60, 70, 80, 90, 100]);
    assert!(proof.is_finished);
}

#[test]
fn failures_are_told_as_errors() {
    assert_eq!(tell(GenerateFailure::MissingData), Error::MissingData);
    assert_eq!(
        tell(GenerateFailure::StartNotFinalized),
        Error::InvalidRequest("Start block is not finalized".to_string())
    );
    assert_eq!(
        tell(GenerateFailure::StartNotCanonical),
        Error::InvalidRequest("Start block is not in the finalized chain".to_string())
    );
    assert_eq!(
        tell(GenerateFailure::Lookup(Error::Client("db".to_string()))),
        Error::Client("db".to_string())
    );
}

fn fragment(n: u64, set_id: u64, change: Option<u64>) -> WarpSyncFragment<TestJustification> {
    WarpSyncFragment {
        header: FragmentHeader { block: block(n), scheduled_change: change.map(authorities) },
        justification: TestJustification { set_id, signers: authorities(set_id), target: block(n) },
        justification_target: block(n),
    }
}

#[test]
fn verify_refuses_missing_change_and_mismatched_target() {
    let hard_forks = HardForks::new_hard_forked_authorities(vec![]);
    let proof = WarpSyncProof { proofs: vec![fragment(10, 0, None), fragment(20, 0, Some(1))], is_finished: true };
    assert_eq!(
        proof.verify(0, authorities(0), &hard_forks, &check).unwrap_err(),
        Error::InvalidProof("Header is missing authority set change digest".to_string())
    );
    let last_without_change = WarpSyncProof { proofs: vec![fragment(10, 0, Some(1)), fragment(15, 1, None)], is_finished: true };
    assert_eq!(last_without_change.verify(0, authorities(0), &hard_forks, &check).unwrap(), (1, authorities(1)));
    let unfinished = WarpSyncProof { proofs: vec![fragment(10, 0, Some(1)), fragment(15, 1, None)], is_finished: false };
    assert!(unfinished.verify(0, authorities(0), &hard_forks, &check).is_err());
    let mut mismatched = fragment(10, 0, Some(1));
    mismatched.justification_target = block(11);
    let proof = WarpSyncProof { proofs: vec![mismatched], is_finished: true };
    assert_eq!(
        proof.verify(0, authorities(0), &hard_forks, &check).unwrap_err(),
        Error::InvalidProof("Mismatch between header and justification".to_string())
    );
    let wrong_set = WarpSyncProof { proofs: vec![fragment(10, 1, Some(1))], is_finished: true };
    assert_eq!(
        wrong_set.verify(0, authorities(0), &hard_forks, &check).unwrap_err(),
        Error::InvalidProof("justification of set 1 does not verify against set 0".to_string())
    );
}

#[test]
fn reinitialized_set_id_is_added_before_checking() {
    let hard_forks = HardForks::new_initial_set_id(3);
    let proof = WarpSyncProof { proofs: vec![fragment(10, 3, Some(4))], is_finished: true };
    assert_eq!(proof.verify(0, authorities(3), &hard_forks, &check).unwrap(), (4, authorities(4)));
}

#[test]
fn hard_forks_keep_the_last_configuration_per_block() {
    let hard_forks = HardForks::new_hard_forked_authorities(vec![checkpoint(50, 4), checkpoint(50, 7), checkpoint(60, 5)]);
    assert_eq!(hard_forks.get_hard_forked_authorities(&block(50)), Some((7, authorities(7))));
    assert_eq!(hard_forks.get_hard_forked_authorities(&block(60)), Some((5, authorities(5))));
    assert_eq!(hard_forks.get_hard_forked_authorities(&block(70)), None);
    assert_eq!(hard_forks.get_new_initial_set_id(), None);
    assert_eq!(hard_forks.authority_set_checkpoints().unwrap().len(), 2);
    let reinit = HardForks::new_initial_set_id(9);
    assert_eq!(reinit.get_new_initial_set_id(), Some(9));
    assert!(reinit.authority_set_checkpoints().is_none());
    assert_eq!(reinit.get_hard_forked_authorities(&block(50)), None);
}

#[test]
fn verifier_follows_proofs_and_counts_eras() {
    let chain = Chain::new();
    let hard_forks = HardForks::new_hard_forked_authorities(vec![]);
    let proof = generate(&chain, hash(0), &hard_forks, 100).unwrap();
    let mut verifier = GrandpaVerifier::new(0, authorities(0), hash(0), hard_forks);
    assert_eq!(verifier.next_proof_context(), hash(0));
    assert_eq!(verifier.status(), Some("0 eras synced".to_string()));
    assert_eq!(verifier.verify(&proof, &check), Ok(true));
    assert_eq!(verifier.state.set_id, 10);
    assert_eq!(verifier.state.authorities, authorities(10));
    assert_eq!(verifier.next_proof_context(), hash(100));
    assert_eq!(verifier.eras_synced, 10);
    assert_eq!(verifier.status(), Some("10 eras synced".to_string()));
    let empty = WarpSyncProof::<TestJustification> { proofs: vec![], is_finished: true };
    assert_eq!(verifier.verify(&empty, &check), Err("Empty proof".to_string()));
    assert_eq!(verifier.eras_synced, 10);
}

#[test]
fn error_messages() {
    assert_eq!(Error::MissingData.message(), "Missing required data to be able to answer request.");
    assert_eq!(Error::DecodeScale("eof".to_string()).message(), "Failed to decode block hash: eof.");
    assert_eq!(Error::InvalidProof("x".to_string()).message(), "x");
}

fn encode_justification(j: &TestJustification) -> Vec<u8> {
    vec![j.set_id as u8, j.target.number as u8]
}

#[test]
fn received_proof_gives_justifications_and_target() {
    let chain = Chain::new();
    let hard_forks = HardForks::new_hard_forked_authorities(vec![]);
    let proof = generate(&chain, hash(0), &hard_forks, 100).unwrap();
    let mut verifier = GrandpaVerifier::new(0, authorities(0), hash(0), HardForks::new_hard_forked_authorities(vec![]));
    match verifier.verify_received(Ok(proof), &check, &encode_justification) {
        Ok(VerificationResult::Complete(last, js)) => {
            assert_eq!(last.block, block(100));
            assert_eq!(js.len(), 10);
            for (i, j) in js.iter().enumerate() {
                let n = 10 * (i as u64 + 1);
                assert_eq!(j.header.block, block(n));
                assert_eq!(&j.engine_id, b"FRNK");
                assert_eq!(j.encoded, vec![set_at(n) as u8, n as u8]);
            }
        },
        _ => panic!("expected a complete result"),
    }
    assert_eq!(verifier.state.set_id, 10);
    assert_eq!(verifier.eras_synced, 10);
}

#[test]
fn unfinished_received_proof_is_partial() {
    let chain = Chain::new();
    let hard_forks = HardForks::new_hard_forked_authorities(vec![]);
    let proof = generate(&chain, hash(0), &hard_forks, 3 * 1024 * 1024).unwrap();
    let mut verifier = GrandpaVerifier::new(0, authorities(0), hash(0), HardForks::new_hard_forked_authorities(vec![]));
    match verifier.verify_received(Ok(proof), &check, &encode_justification) {
        Ok(VerificationResult::Partial(js)) => {
            assert_eq!(js.iter().map(|j| j.header.block.number).collect::<Vec<_>>(), vec![10, 20]);
        },
        _ => panic!("expected a partial result"),
    }
    assert_eq!(verifier.state.set_id, 2);
    assert_eq!(verifier.next_proof_context(), hash(20));
}

#[test]
fn received_proof_that_fails_changes_nothing() {
    let mut verifier = GrandpaVerifier::new(0, authorities(0), hash(0), HardForks::new_hard_forked_authorities(vec![]));
    match verifier.verify_received(Err("Not enough data to fill buffer".to_string()), &check, &encode_justification) {
        Err(m) => assert_eq!(m, "Proof decoding error: Not enough data to fill buffer"),
        Ok(_) => panic!("expected a decoding error"),
    }
    let empty = WarpSyncProof::<TestJustification> { proofs: vec![], is_finished: true };
    match verifier.verify_received(Ok(empty), &check, &encode_justification) {
        Err(m) => assert_eq!(m, "Empty proof"),
        Ok(_) => panic!("expected an empty proof error"),
    }
    let wrong = WarpSyncProof { proofs: vec![fragment(10, 1, Some(1))], is_finished: true };
    match verifier.verify_received(Ok(wrong), &check, &encode_justification) {
        Err(m) => assert_eq!(m, "justification of set 1 does not verify against set 0"),
        Ok(_) => panic!("expected a verification error"),
    }
    assert_eq!(verifier.state.set_id, 0);
    assert_eq!(verifier.eras_synced, 0);
    assert_eq!(verifier.next_proof_context(), hash(0));
}

#[test]
fn highest_canonical_checkpoint_leads_and_nothing_lower_follows() {
    let chain = Chain::new();
    let hard_forks = HardForks::new_hard_forked_authorities(vec![checkpoint(30, 2), checkpoint(55, 5), checkpoint(50, 4)]);
    let proof = generate(&chain, hash(0), &hard_forks, 100).unwrap();
    assert_eq!(proof.proofs[0].header.block, block(55));
    assert!(proof.proofs.iter().all(|f| f.header.block.number >= 55));
}
