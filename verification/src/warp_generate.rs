//! Generating GRANDPA warp sync proofs.
//!
//! The lookups into the chain are given as functions; during one generation the chain does not
//! change, so each lookup gives the same answer for the same question (`answers_fixed`), and
//! the contract speaks of those answers (`answer`).
use vstd::prelude::*;
use crate::hash::Hash256;
use crate::warp_sync::{
    checkpoint_at, lemma_accepted_proof_verifies, lemma_accepted_proof_verifies_with_hard_forks,
    lemma_checkpoint_present, set_after, set_after_with_hard_forks, spec_hard_forked_authorities,
    verify_prefix, Authority, BlockRef, Checkpoint, Error, FragmentHeader, HardForks, ProofFailure,
    WarpSyncFragment, WarpSyncProof,
};

verus! {

/// The maximum size in bytes of a warp sync proof.
pub const MAX_WARP_SYNC_PROOF_SIZE: usize = 8 * 1024 * 1024;

/// Room left for the encoded vector length and the `is_finished` flag, which are not part of the
/// fragment sizes that are added up.
pub const PROOF_SIZE_MARGIN: usize = 50;

/// `f` gives the same answer each time it is asked the same question, as a lookup into the
/// immutable, finalized part of a chain does.
pub open spec fn answers_fixed<A, R, F: Fn(A) -> R>(f: F) -> bool {
    &&& forall|a: A| #[trigger] call_requires(f, (a,))
    &&& forall|a: A, r1: R, r2: R|
        #![trigger call_ensures(f, (a,), r1), call_ensures(f, (a,), r2)]
        call_ensures(f, (a,), r1) && call_ensures(f, (a,), r2) ==> r1 == r2
}

/// The answer of `f` to `a`.
pub open spec fn answer<A, R, F: Fn(A) -> R>(f: F, a: A) -> R {
    choose|r: R| call_ensures(f, (a,), r)
}

/// `f` gives the same answer each time it is asked about the same fragment.
pub open spec fn answers_fixed_for_fragments<J, F: Fn(&WarpSyncFragment<J>) -> usize>(f: F) -> bool {
    &&& forall|a: &WarpSyncFragment<J>| #[trigger] call_requires(f, (a,))
    &&& forall|a: &WarpSyncFragment<J>, r1: usize, r2: usize|
        #![trigger call_ensures(f, (a,), r1), call_ensures(f, (a,), r2)]
        call_ensures(f, (a,), r1) && call_ensures(f, (a,), r2) ==> r1 == r2
}

/// The size `f` gives for fragment `a`.
pub open spec fn size_answer<J, F: Fn(&WarpSyncFragment<J>) -> usize>(f: F, a: WarpSyncFragment<J>) -> usize {
    choose|r: usize| call_ensures(f, (&a,), r)
}

/// `f` gives the same answer each time it is asked.
pub open spec fn answers_fixed0<R, F: Fn() -> R>(f: F) -> bool {
    &&& call_requires(f, ())
    &&& forall|r1: R, r2: R|
        #![trigger call_ensures(f, (), r1), call_ensures(f, (), r2)]
        call_ensures(f, (), r1) && call_ensures(f, (), r2) ==> r1 == r2
}

/// The answer of `f`.
pub open spec fn answer0<R, F: Fn() -> R>(f: F) -> R {
    choose|r: R| call_ensures(f, (), r)
}

proof fn lemma_answer<A, R, F: Fn(A) -> R>(f: F, a: A, r: R)
    requires
        answers_fixed(f),
        call_ensures(f, (a,), r),
    ensures
        answer(f, a) == r,
{
}

proof fn lemma_size_answer<J, F: Fn(&WarpSyncFragment<J>) -> usize>(f: F, a: WarpSyncFragment<J>, r: usize)
    requires
        answers_fixed_for_fragments(f),
        call_ensures(f, (&a,), r),
    ensures
        size_answer(f, a) == r,
{
}

proof fn lemma_answer0<R, F: Fn() -> R>(f: F, r: R)
    requires
        answers_fixed0(f),
        call_ensures(f, (), r),
    ensures
        answer0(f) == r,
{
}

/// The chain lookups that proof generation makes.
pub struct ChainLookups<FN, FH, FD, FJ, FS, FA, FB, FL> {
    /// The number of a block, by hash.
    pub block_number: FN,
    /// The hash of the canonical block at a number.
    pub canonical_hash: FH,
    /// A header, by block hash.
    pub header: FD,
    /// The GRANDPA justification stored for a block, by hash, with the block it targets.
    pub justification: FJ,
    /// The encoded size of a fragment.
    pub fragment_size: FS,
    /// Given a set id and a block number, the blocks of the recorded authority set changes from
    /// that set on, after that block (`None` where that history has a gap).
    pub changes_after: FA,
    /// The blocks of the recorded authority set changes from a block number on (`None` where
    /// the history is missing).
    pub changes_from: FB,
    /// The justification of the best finalized block, with the block it targets.
    pub best_justification: FL,
}

/// Why generation fails, before it is told as an error.
pub enum GenerateFailure {
    /// A lookup failed with this error.
    Lookup(Error),
    /// The start block is unknown.
    MissingStartBlock,
    /// The start block is above the finalized block.
    StartNotFinalized,
    /// The start block is not the canonical block at its number.
    StartNotCanonical,
    /// A recorded change block has no canonical hash.
    MissingChangeHash,
    /// A recorded change block has no header.
    MissingChangeHeader,
    /// Required data is missing.
    MissingData,
}

/// The error that a failure is told as.
pub open spec fn told_as(f: GenerateFailure, e: Error) -> bool {
    match f {
        GenerateFailure::Lookup(err) => e == err,
        GenerateFailure::MissingStartBlock => e matches Error::InvalidRequest(m) && m@
            == "Missing start block"@,
        GenerateFailure::StartNotFinalized => e matches Error::InvalidRequest(m) && m@
            == "Start block is not finalized"@,
        GenerateFailure::StartNotCanonical => e matches Error::InvalidRequest(m) && m@
            == "Start block is not in the finalized chain"@,
        GenerateFailure::MissingChangeHash => e matches Error::InvalidRequest(m) && m@
            == "header number comes from previously applied set changes; corresponding hash must exist in db."@,
        GenerateFailure::MissingChangeHeader => e matches Error::InvalidRequest(m) && m@
            == "header hash obtained from header number exists in db; corresponding header must exist in db too."@,
        GenerateFailure::MissingData => e == Error::MissingData,
    }
}

/// Whether the best checkpoint so far is replaced by a checkpoint at `number`: it lies after the
/// start block, at or below the finalized block, above the best one so far.
pub open spec fn checkpoint_candidate(
    best: Option<(BlockRef, u64)>,
    number: u64,
    begin_number: u64,
    finalized_number: u64,
) -> bool {
    &&& begin_number < number <= finalized_number
    &&& match best {
        Some((b, _)) => number > b.number,
        None => true,
    }
}

/// The latest canonical checkpoint among the first `k` configured ones.
pub open spec fn latest_checkpoint<FH: Fn(u64) -> Result<Option<Hash256>, Error>>(
    canonical_hash: FH,
    checkpoints: Seq<Checkpoint>,
    k: int,
    begin_number: u64,
    finalized_number: u64,
) -> Result<Option<(BlockRef, u64)>, GenerateFailure>
    decreases k,
{
    if k <= 0 {
        Ok(None)
    } else {
        match latest_checkpoint(canonical_hash, checkpoints, k - 1, begin_number, finalized_number) {
            Err(e) => Err(e),
            Ok(best) => {
                let c = checkpoints[k - 1];
                if !checkpoint_candidate(best, c.block.number, begin_number, finalized_number) {
                    Ok(best)
                } else {
                    match answer(canonical_hash, c.block.number) {
                        Err(e) => Err(GenerateFailure::Lookup(e)),
                        Ok(h) => if h == Some(c.block.hash) {
                            Ok(Some((c.block, c.set_id)))
                        } else {
                            Ok(best)
                        },
                    }
                }
            },
        }
    }
}

proof fn lemma_latest_err_persists<FH: Fn(u64) -> Result<Option<Hash256>, Error>>(
    canonical_hash: FH,
    checkpoints: Seq<Checkpoint>,
    k: int,
    m: int,
    begin_number: u64,
    finalized_number: u64,
)
    requires
        0 <= k <= m,
        latest_checkpoint(canonical_hash, checkpoints, k, begin_number, finalized_number) is Err,
    ensures
        latest_checkpoint(canonical_hash, checkpoints, m, begin_number, finalized_number)
            == latest_checkpoint(canonical_hash, checkpoints, k, begin_number, finalized_number),
    decreases m - k,
{
    if m > k {
        lemma_latest_err_persists(canonical_hash, checkpoints, k, m - 1, begin_number, finalized_number);
    }
}

/// The proof fragments collected so far, their total encoded size, and whether the size limit
/// was reached.
pub struct Collected<J> {
    pub proofs: Seq<WarpSyncFragment<J>>,
    pub encoded_len: int,
    pub limit_reached: bool,
}

/// Adding the fragment for `header` to what was collected: its justification must exist; it is
/// added unless the total size would reach the limit.
pub open spec fn push_fragment_spec<J, FJ, FS>(
    justification: FJ,
    fragment_size: FS,
    c: Collected<J>,
    header: FragmentHeader,
) -> Result<Collected<J>, GenerateFailure> where
    FJ: Fn(Hash256) -> Result<Option<(J, BlockRef)>, Error>,
    FS: Fn(&WarpSyncFragment<J>) -> usize,
 {
    match answer(justification, header.block.hash) {
        Err(e) => Err(GenerateFailure::Lookup(e)),
        Ok(None) => Err(GenerateFailure::MissingData),
        Ok(Some((j, target))) => {
            let f = WarpSyncFragment { header, justification: j, justification_target: target };
            let size = size_answer(fragment_size, f);
            if c.encoded_len + size >= MAX_WARP_SYNC_PROOF_SIZE - PROOF_SIZE_MARGIN {
                Ok(Collected { limit_reached: true, ..c })
            } else {
                Ok(Collected { proofs: c.proofs.push(f), encoded_len: c.encoded_len + size, ..c })
            }
        },
    }
}

/// Walking the recorded change blocks: at each, the canonical hash and header must exist; a
/// header without a scheduled change ends the walk, else its fragment is added. The walk ends
/// when the size limit is reached. The flag tells whether the walk has ended.
pub open spec fn walk_spec<J, FH, FD, FJ, FS>(
    canonical_hash: FH,
    header: FD,
    justification: FJ,
    fragment_size: FS,
    c: Collected<J>,
    changes: Seq<u64>,
    k: int,
) -> Result<(Collected<J>, bool), GenerateFailure> where
    FH: Fn(u64) -> Result<Option<Hash256>, Error>,
    FD: Fn(Hash256) -> Result<Option<FragmentHeader>, Error>,
    FJ: Fn(Hash256) -> Result<Option<(J, BlockRef)>, Error>,
    FS: Fn(&WarpSyncFragment<J>) -> usize,
    decreases k,
{
    if k <= 0 {
        Ok((c, c.limit_reached))
    } else {
        match walk_spec(canonical_hash, header, justification, fragment_size, c, changes, k - 1) {
            Err(e) => Err(e),
            Ok((c2, true)) => Ok((c2, true)),
            Ok((c2, false)) => match answer(canonical_hash, changes[k - 1]) {
                Err(e) => Err(GenerateFailure::Lookup(e)),
                Ok(None) => Err(GenerateFailure::MissingChangeHash),
                Ok(Some(hash)) => match answer(header, hash) {
                    Err(e) => Err(GenerateFailure::Lookup(e)),
                    Ok(None) => Err(GenerateFailure::MissingChangeHeader),
                    Ok(Some(hd)) => if hd.scheduled_change is None {
                        Ok((c2, true))
                    } else {
                        match push_fragment_spec(justification, fragment_size, c2, hd) {
                            Err(e) => Err(e),
                            Ok(c3) => Ok((c3, c3.limit_reached)),
                        }
                    },
                },
            },
        }
    }
}

/// Whether the best justification, targeting `target`, proves more than the fragments do: it
/// targets a block above the last fragment's target, or, with no fragment, at or above the
/// start block.
pub open spec fn extends_proof<J>(proofs: Seq<WarpSyncFragment<J>>, target: BlockRef, begin_number: u64) -> bool {
    if proofs.len() > 0 {
        target.number > proofs.last().justification_target.number
    } else {
        target.number >= begin_number
    }
}

/// Closing the proof: unless the size limit was reached, the best justification, where it
/// extends the proof, is added as a last fragment if it fits. The flag tells whether the proof
/// is finished.
pub open spec fn finish_spec<J, FD, FS, FL>(
    header: FD,
    fragment_size: FS,
    best_justification: FL,
    c: Collected<J>,
    begin_number: u64,
) -> Result<(Seq<WarpSyncFragment<J>>, bool), GenerateFailure> where
    FD: Fn(Hash256) -> Result<Option<FragmentHeader>, Error>,
    FS: Fn(&WarpSyncFragment<J>) -> usize,
    FL: Fn() -> Result<Option<(J, BlockRef)>, Error>,
 {
    if c.limit_reached {
        Ok((c.proofs, false))
    } else {
        match answer0(best_justification) {
            Err(e) => Err(GenerateFailure::Lookup(e)),
            Ok(None) => Ok((c.proofs, true)),
            Ok(Some((j, target))) => if !extends_proof(c.proofs, target, begin_number) {
                Ok((c.proofs, true))
            } else {
                match answer(header, target.hash) {
                    Err(e) => Err(GenerateFailure::Lookup(e)),
                    Ok(None) => Err(GenerateFailure::MissingData),
                    Ok(Some(hd)) => {
                        let f = WarpSyncFragment { header: hd, justification: j, justification_target: target };
                        if c.encoded_len + size_answer(fragment_size, f) >= MAX_WARP_SYNC_PROOF_SIZE - PROOF_SIZE_MARGIN {
                            Ok((c.proofs, false))
                        } else {
                            Ok((c.proofs.push(f), true))
                        }
                    },
                }
            },
        }
    }
}

/// What an authority set hands over to after a checkpoint whose header is `hd`: the next set id
/// where the header schedules a change, else the checkpoint's own (`None` where it overflows).
pub open spec fn expected_set_id(hd: FragmentHeader, set_id: u64) -> Option<u64> {
    if hd.scheduled_change is Some {
        if set_id == u64::MAX { None } else { Some((set_id + 1) as u64) }
    } else {
        Some(set_id)
    }
}

/// The configured checkpoints of `hf`, none where it only reinitializes the set id.
pub open spec fn configured_checkpoints(hf: HardForks) -> Seq<Checkpoint> {
    match hf {
        HardForks::AuthoritySetHardForks { hard_forks } => hard_forks@,
        HardForks::ReinitializeSetId { .. } => Seq::empty(),
    }
}

/// The fragments being collected, their total encoded size, and whether the size limit was
/// reached.
pub struct Collecting<J> {
    pub proofs: Vec<WarpSyncFragment<J>>,
    pub encoded_len: usize,
    pub limit_reached: bool,
}

impl<J> View for Collecting<J> {
    type V = Collected<J>;

    open spec fn view(&self) -> Collected<J> {
        Collected { proofs: self.proofs@, encoded_len: self.encoded_len as int, limit_reached: self.limit_reached }
    }
}

/// The latest canonical checkpoint after the start block and at or below the finalized block,
/// with its set id.
fn find_latest_checkpoint<FH: Fn(u64) -> Result<Option<Hash256>, Error>>(
    canonical_hash: &FH,
    checkpoints: &Vec<Checkpoint>,
    begin_number: u64,
    finalized_number: u64,
) -> (r: Result<Option<(BlockRef, u64)>, GenerateFailure>)
    requires
        answers_fixed(*canonical_hash),
    ensures
        r == latest_checkpoint(*canonical_hash, checkpoints@, checkpoints@.len() as int, begin_number, finalized_number),
{
    let mut best: Option<(BlockRef, u64)> = None;
    let mut i: usize = 0;
    while i < checkpoints.len()
        invariant
            answers_fixed(*canonical_hash),
            i <= checkpoints@.len(),
            latest_checkpoint(*canonical_hash, checkpoints@, i as int, begin_number, finalized_number)
                == Ok::<Option<(BlockRef, u64)>, GenerateFailure>(best),
        decreases checkpoints.len() - i,
    {
        let c = &checkpoints[i];
        let number = c.block.number;
        let candidate = begin_number < number && number <= finalized_number && match best {
            Some((b, _)) => number > b.number,
            None => true,
        };
        if candidate {
            let found = canonical_hash(number);
            proof {
                lemma_answer(*canonical_hash, number, found);
            }
            match found {
                Err(e) => {
                    proof {
                        lemma_latest_err_persists(*canonical_hash, checkpoints@, i + 1, checkpoints@.len() as int, begin_number, finalized_number);
                    }
                    return Err(GenerateFailure::Lookup(e));
                },
                Ok(h) => {
                    let same = match h {
                        Some(x) => x == c.block.hash,
                        None => false,
                    };
                    if same {
                        best = Some((c.block, c.set_id));
                    }
                },
            }
        }
        i = i + 1;
    }
    Ok(best)
}

/// Adds the fragment for `header`, with its justification, unless the total size would reach
/// the limit, in which case the limit is marked as reached.
fn push_fragment<J, FJ, FS>(
    justification: &FJ,
    fragment_size: &FS,
    c: Collecting<J>,
    header: FragmentHeader,
) -> (r: Result<Collecting<J>, GenerateFailure>) where
    FJ: Fn(Hash256) -> Result<Option<(J, BlockRef)>, Error>,
    FS: Fn(&WarpSyncFragment<J>) -> usize,

    requires
        answers_fixed(*justification),
        answers_fixed_for_fragments(*fragment_size),
        c.encoded_len < MAX_WARP_SYNC_PROOF_SIZE - PROOF_SIZE_MARGIN,
    ensures
        match push_fragment_spec(*justification, *fragment_size, c@, header) {
            Ok(v) => r matches Ok(rc) && rc@ == v && rc.encoded_len < MAX_WARP_SYNC_PROOF_SIZE - PROOF_SIZE_MARGIN,
            Err(e) => r == Err::<Collecting<J>, GenerateFailure>(e),
        },
{
    let hash = header.block.hash;
    let found = justification(hash);
    proof {
        lemma_answer(*justification, hash, found);
    }
    match found {
        Err(e) => Err(GenerateFailure::Lookup(e)),
        Ok(None) => Err(GenerateFailure::MissingData),
        Ok(Some((j, target))) => {
            let f = WarpSyncFragment { header, justification: j, justification_target: target };
            let size = fragment_size(&f);
            proof {
                lemma_size_answer(*fragment_size, f, size);
            }
            if size >= MAX_WARP_SYNC_PROOF_SIZE - PROOF_SIZE_MARGIN - c.encoded_len {
                Ok(Collecting { proofs: c.proofs, encoded_len: c.encoded_len, limit_reached: true })
            } else {
                let mut proofs = c.proofs;
                proofs.push(f);
                Ok(Collecting { proofs, encoded_len: c.encoded_len + size, limit_reached: c.limit_reached })
            }
        },
    }
}

/// Once the walk has ended or failed, further change blocks leave its outcome unchanged.
proof fn lemma_walk_settled<J, FH, FD, FJ, FS>(
    canonical_hash: FH,
    header: FD,
    justification: FJ,
    fragment_size: FS,
    c: Collected<J>,
    changes: Seq<u64>,
    k: int,
    m: int,
) where
    FH: Fn(u64) -> Result<Option<Hash256>, Error>,
    FD: Fn(Hash256) -> Result<Option<FragmentHeader>, Error>,
    FJ: Fn(Hash256) -> Result<Option<(J, BlockRef)>, Error>,
    FS: Fn(&WarpSyncFragment<J>) -> usize,

    requires
        0 <= k <= m,
        match walk_spec(canonical_hash, header, justification, fragment_size, c, changes, k) {
            Err(_) => true,
            Ok((_, ended)) => ended,
        },
    ensures
        walk_spec(canonical_hash, header, justification, fragment_size, c, changes, m)
            == walk_spec(canonical_hash, header, justification, fragment_size, c, changes, k),
    decreases m - k,
{
    if m > k {
        lemma_walk_settled(canonical_hash, header, justification, fragment_size, c, changes, k, m - 1);
    }
}

/// Walks the recorded change blocks, adding a fragment for each (see `walk_spec`).
fn walk_changes<J, FH, FD, FJ, FS>(
    canonical_hash: &FH,
    header: &FD,
    justification: &FJ,
    fragment_size: &FS,
    c: Collecting<J>,
    changes: &Vec<u64>,
) -> (r: Result<Collecting<J>, GenerateFailure>) where
    FH: Fn(u64) -> Result<Option<Hash256>, Error>,
    FD: Fn(Hash256) -> Result<Option<FragmentHeader>, Error>,
    FJ: Fn(Hash256) -> Result<Option<(J, BlockRef)>, Error>,
    FS: Fn(&WarpSyncFragment<J>) -> usize,

    requires
        answers_fixed(*canonical_hash),
        answers_fixed(*header),
        answers_fixed(*justification),
        answers_fixed_for_fragments(*fragment_size),
        c.encoded_len < MAX_WARP_SYNC_PROOF_SIZE - PROOF_SIZE_MARGIN,
    ensures
        match walk_spec(*canonical_hash, *header, *justification, *fragment_size, c@, changes@, changes@.len() as int) {
            Ok((v, _)) => r matches Ok(rc) && rc@ == v && rc.encoded_len < MAX_WARP_SYNC_PROOF_SIZE - PROOF_SIZE_MARGIN,
            Err(e) => r == Err::<Collecting<J>, GenerateFailure>(e),
        },
{
    let ghost c0 = c@;
    let mut cur = c;
    let mut ended = cur.limit_reached;
    let mut i: usize = 0;
    while i < changes.len() && !ended
        invariant
            answers_fixed(*canonical_hash),
            answers_fixed(*header),
            answers_fixed(*justification),
            answers_fixed_for_fragments(*fragment_size),
            c0 == c@,
            cur.encoded_len < MAX_WARP_SYNC_PROOF_SIZE - PROOF_SIZE_MARGIN,
            i <= changes@.len(),
            walk_spec(*canonical_hash, *header, *justification, *fragment_size, c0, changes@, i as int)
                == Ok::<(Collected<J>, bool), GenerateFailure>((cur@, ended)),
        decreases changes.len() - i,
    {
        let number = changes[i];
        let found = canonical_hash(number);
        proof {
            lemma_answer(*canonical_hash, number, found);
        }
        let hash = match found {
            Err(e) => {
                proof {
                    lemma_walk_settled(*canonical_hash, *header, *justification, *fragment_size, c0, changes@, i + 1, changes@.len() as int);
                }
                return Err(GenerateFailure::Lookup(e));
            },
            Ok(None) => {
                proof {
                    lemma_walk_settled(*canonical_hash, *header, *justification, *fragment_size, c0, changes@, i + 1, changes@.len() as int);
                }
                return Err(GenerateFailure::MissingChangeHash);
            },
            Ok(Some(h)) => h,
        };
        let found_header = header(hash);
        proof {
            lemma_answer(*header, hash, found_header);
        }
        let hd = match found_header {
            Err(e) => {
                proof {
                    lemma_walk_settled(*canonical_hash, *header, *justification, *fragment_size, c0, changes@, i + 1, changes@.len() as int);
                }
                return Err(GenerateFailure::Lookup(e));
            },
            Ok(None) => {
                proof {
                    lemma_walk_settled(*canonical_hash, *header, *justification, *fragment_size, c0, changes@, i + 1, changes@.len() as int);
                }
                return Err(GenerateFailure::MissingChangeHeader);
            },
            Ok(Some(hd)) => hd,
        };
        if hd.scheduled_change.is_none() {
            ended = true;
        } else {
            match push_fragment(justification, fragment_size, cur, hd) {
                Err(e) => {
                    proof {
                        lemma_walk_settled(*canonical_hash, *header, *justification, *fragment_size, c0, changes@, i + 1, changes@.len() as int);
                    }
                    return Err(e);
                },
                Ok(next) => {
                    cur = next;
                    ended = cur.limit_reached;
                },
            }
        }
        i = i + 1;
    }
    proof {
        if ended {
            lemma_walk_settled(*canonical_hash, *header, *justification, *fragment_size, c0, changes@, i as int, changes@.len() as int);
        }
    }
    Ok(cur)
}

/// Closes the proof with the best justification (see `finish_spec`).
fn finish<J, FD, FS, FL>(
    header: &FD,
    fragment_size: &FS,
    best_justification: &FL,
    c: Collecting<J>,
    begin_number: u64,
) -> (r: Result<(Vec<WarpSyncFragment<J>>, bool), GenerateFailure>) where
    FD: Fn(Hash256) -> Result<Option<FragmentHeader>, Error>,
    FS: Fn(&WarpSyncFragment<J>) -> usize,
    FL: Fn() -> Result<Option<(J, BlockRef)>, Error>,

    requires
        answers_fixed(*header),
        answers_fixed_for_fragments(*fragment_size),
        answers_fixed0(*best_justification),
        c.encoded_len < MAX_WARP_SYNC_PROOF_SIZE - PROOF_SIZE_MARGIN,
    ensures
        match finish_spec(*header, *fragment_size, *best_justification, c@, begin_number) {
            Ok((p, fin)) => r matches Ok((rp, rf)) && rp@ == p && rf == fin,
            Err(e) => r == Err::<(Vec<WarpSyncFragment<J>>, bool), GenerateFailure>(e),
        },
{
    if c.limit_reached {
        return Ok((c.proofs, false));
    }
    let best = best_justification();
    proof {
        lemma_answer0(*best_justification, best);
    }
    match best {
        Err(e) => Err(GenerateFailure::Lookup(e)),
        Ok(None) => Ok((c.proofs, true)),
        Ok(Some((j, target))) => {
            let n = c.proofs.len();
            let extends = if n > 0 {
                target.number > c.proofs[n - 1].justification_target.number
            } else {
                target.number >= begin_number
            };
            if !extends {
                return Ok((c.proofs, true));
            }
            let found = header(target.hash);
            proof {
                lemma_answer(*header, target.hash, found);
            }
            match found {
                Err(e) => Err(GenerateFailure::Lookup(e)),
                Ok(None) => Err(GenerateFailure::MissingData),
                Ok(Some(hd)) => {
                    let f = WarpSyncFragment { header: hd, justification: j, justification_target: target };
                    let size = fragment_size(&f);
                    proof {
                        lemma_size_answer(*fragment_size, f, size);
                    }
                    if size >= MAX_WARP_SYNC_PROOF_SIZE - PROOF_SIZE_MARGIN - c.encoded_len {
                        Ok((c.proofs, false))
                    } else {
                        let mut proofs = c.proofs;
                        proofs.push(f);
                        Ok((proofs, true))
                    }
                },
            }
        },
    }
}

/// The start block's number: it must be known, finalized and canonical.
pub open spec fn start_spec<FN, FH>(
    block_number: FN,
    canonical_hash: FH,
    begin: Hash256,
    finalized_number: u64,
) -> Result<u64, GenerateFailure> where
    FN: Fn(Hash256) -> Result<Option<u64>, Error>,
    FH: Fn(u64) -> Result<Option<Hash256>, Error>,
 {
    match answer(block_number, begin) {
        Err(e) => Err(GenerateFailure::Lookup(e)),
        Ok(None) => Err(GenerateFailure::MissingStartBlock),
        Ok(Some(n)) => if n > finalized_number {
            Err(GenerateFailure::StartNotFinalized)
        } else {
            match answer(canonical_hash, n) {
                Err(e) => Err(GenerateFailure::Lookup(e)),
                Ok(None) => Err(GenerateFailure::MissingData),
                Ok(Some(h)) => if h != begin {
                    Err(GenerateFailure::StartNotCanonical)
                } else {
                    Ok(n)
                },
            }
        },
    }
}

/// Every finalized block has a canonical hash; in particular the start block's number, where it
/// is finalized.
pub open spec fn start_hash_known<FN, FH>(
    block_number: FN,
    canonical_hash: FH,
    begin: Hash256,
    finalized_number: u64,
) -> bool where
    FN: Fn(Hash256) -> Result<Option<u64>, Error>,
    FH: Fn(u64) -> Result<Option<Hash256>, Error>,
 {
    match answer(block_number, begin) {
        Ok(Some(n)) => n <= finalized_number ==> !(answer(canonical_hash, n) matches Ok(None)),
        _ => true,
    }
}

/// Checks the start block (see `start_spec`).
fn start_block<FN, FH>(
    block_number: &FN,
    canonical_hash: &FH,
    begin: Hash256,
    finalized_number: u64,
) -> (r: Result<u64, GenerateFailure>) where
    FN: Fn(Hash256) -> Result<Option<u64>, Error>,
    FH: Fn(u64) -> Result<Option<Hash256>, Error>,

    requires
        answers_fixed(*block_number),
        answers_fixed(*canonical_hash),
        start_hash_known(*block_number, *canonical_hash, begin, finalized_number),
    ensures
        r == start_spec(*block_number, *canonical_hash, begin, finalized_number),
{
    let found = block_number(begin);
    proof {
        lemma_answer(*block_number, begin, found);
    }
    let begin_number = match found {
        Err(e) => {
            return Err(GenerateFailure::Lookup(e));
        },
        Ok(None) => {
            return Err(GenerateFailure::MissingStartBlock);
        },
        Ok(Some(n)) => n,
    };
    if begin_number > finalized_number {
        return Err(GenerateFailure::StartNotFinalized);
    }
    let canon = canonical_hash(begin_number);
    proof {
        lemma_answer(*canonical_hash, begin_number, canon);
    }
    match canon {
        Err(e) => Err(GenerateFailure::Lookup(e)),
        Ok(None) => Err(GenerateFailure::MissingData),
        Ok(Some(h)) => if h != begin {
            Err(GenerateFailure::StartNotCanonical)
        } else {
            Ok(begin_number)
        },
    }
}

/// Where the proof starts from: the header of the latest canonical checkpoint, if any, and the
/// blocks of the recorded authority set changes after it, or else after the start block.
pub open spec fn plan_spec<FH, FD, FA, FB>(
    canonical_hash: FH,
    header: FD,
    changes_after: FA,
    changes_from: FB,
    hard_forks: HardForks,
    begin_number: u64,
    finalized_number: u64,
) -> Result<(Option<FragmentHeader>, Seq<u64>), GenerateFailure> where
    FH: Fn(u64) -> Result<Option<Hash256>, Error>,
    FD: Fn(Hash256) -> Result<Option<FragmentHeader>, Error>,
    FA: Fn((u64, u64)) -> Option<Vec<u64>>,
    FB: Fn(u64) -> Option<Vec<u64>>,
 {
    let cps = configured_checkpoints(hard_forks);
    match latest_checkpoint(canonical_hash, cps, cps.len() as int, begin_number, finalized_number) {
        Err(e) => Err(e),
        Ok(Some((block, set_id))) => match answer(header, block.hash) {
            Err(e) => Err(GenerateFailure::Lookup(e)),
            Ok(None) => Err(GenerateFailure::MissingData),
            Ok(Some(hd)) => match expected_set_id(hd, set_id) {
                None => Err(GenerateFailure::MissingData),
                Some(next) => match answer(changes_after, (next, block.number)) {
                    None => Err(GenerateFailure::MissingData),
                    Some(v) => Ok((Some(hd), v@)),
                },
            },
        },
        Ok(None) => match answer(changes_from, begin_number) {
            None => Err(GenerateFailure::MissingData),
            Some(v) => Ok((None, v@)),
        },
    }
}

/// Finds where the proof starts from (see `plan_spec`).
fn change_plan<FH, FD, FA, FB>(
    canonical_hash: &FH,
    header: &FD,
    changes_after: &FA,
    changes_from: &FB,
    hard_forks: &HardForks,
    begin_number: u64,
    finalized_number: u64,
) -> (r: Result<(Option<FragmentHeader>, Vec<u64>), GenerateFailure>) where
    FH: Fn(u64) -> Result<Option<Hash256>, Error>,
    FD: Fn(Hash256) -> Result<Option<FragmentHeader>, Error>,
    FA: Fn((u64, u64)) -> Option<Vec<u64>>,
    FB: Fn(u64) -> Option<Vec<u64>>,

    requires
        answers_fixed(*canonical_hash),
        answers_fixed(*header),
        answers_fixed(*changes_after),
        answers_fixed(*changes_from),
    ensures
        match plan_spec(*canonical_hash, *header, *changes_after, *changes_from, *hard_forks, begin_number, finalized_number) {
            Ok((hd, ch)) => r matches Ok((rh, rc)) && rh == hd && rc@ == ch,
            Err(e) => r == Err::<(Option<FragmentHeader>, Vec<u64>), GenerateFailure>(e),
        },
{
    let latest = match hard_forks.authority_set_checkpoints() {
        Some(checkpoints) => find_latest_checkpoint(canonical_hash, checkpoints, begin_number, finalized_number),
        None => Ok(None),
    };
    match latest {
        Err(e) => Err(e),
        Ok(Some((block, set_id))) => {
            let found = header(block.hash);
            proof {
                lemma_answer(*header, block.hash, found);
            }
            match found {
                Err(e) => Err(GenerateFailure::Lookup(e)),
                Ok(None) => Err(GenerateFailure::MissingData),
                Ok(Some(hd)) => {
                    let next = if hd.scheduled_change.is_some() {
                        set_id.checked_add(1)
                    } else {
                        Some(set_id)
                    };
                    match next {
                        None => Err(GenerateFailure::MissingData),
                        Some(next) => {
                            let changes = changes_after((next, block.number));
                            proof {
                                lemma_answer(*changes_after, (next, block.number), changes);
                            }
                            match changes {
                                None => Err(GenerateFailure::MissingData),
                                Some(v) => Ok((Some(hd), v)),
                            }
                        },
                    }
                },
            }
        },
        Ok(None) => {
            let changes = changes_from(begin_number);
            proof {
                lemma_answer(*changes_from, begin_number, changes);
            }
            match changes {
                None => Err(GenerateFailure::MissingData),
                Some(v) => Ok((None, v)),
            }
        },
    }
}

/// Each lookup gives the same answer to the same question, and the chain holds what a node's
/// database holds: a canonical hash for every finalized block, and the header of the block that
/// the best justification targets. Generation reads only the finalized part of the chain, which
/// does not change under it: the finalized blocks, their headers and justifications, and the
/// recorded authority set changes are fixed, so asking a lookup the same question twice gives
/// the same answer. Where the database holds no header for the best justification's target,
/// generation panics ("must exist in db as well"): that input is left out.
pub open spec fn lookups_consistent<J, FN, FH, FD, FJ, FS, FA, FB, FL>(l: ChainLookups<FN, FH, FD, FJ, FS, FA, FB, FL>, begin: Hash256, finalized_number: u64) -> bool where
    FN: Fn(Hash256) -> Result<Option<u64>, Error>,
    FH: Fn(u64) -> Result<Option<Hash256>, Error>,
    FD: Fn(Hash256) -> Result<Option<FragmentHeader>, Error>,
    FJ: Fn(Hash256) -> Result<Option<(J, BlockRef)>, Error>,
    FS: Fn(&WarpSyncFragment<J>) -> usize,
    FA: Fn((u64, u64)) -> Option<Vec<u64>>,
    FB: Fn(u64) -> Option<Vec<u64>>,
    FL: Fn() -> Result<Option<(J, BlockRef)>, Error>,
 {
    &&& answers_fixed(l.block_number)
    &&& answers_fixed(l.canonical_hash)
    &&& answers_fixed(l.header)
    &&& answers_fixed(l.justification)
    &&& answers_fixed_for_fragments(l.fragment_size)
    &&& answers_fixed(l.changes_after)
    &&& answers_fixed(l.changes_from)
    &&& answers_fixed0(l.best_justification)
    &&& start_hash_known(l.block_number, l.canonical_hash, begin, finalized_number)
    &&& match answer0(l.best_justification) {
        Ok(Some((_, target))) => !(answer(l.header, target.hash) matches Ok(None)),
        _ => true,
    }
}

/// The warp sync proof from `begin`: its fragments and whether it is finished, or why there is
/// none.
pub open spec fn generate_spec<J, FN, FH, FD, FJ, FS, FA, FB, FL>(
    l: ChainLookups<FN, FH, FD, FJ, FS, FA, FB, FL>,
    begin: Hash256,
    finalized_number: u64,
    hard_forks: HardForks,
) -> Result<(Seq<WarpSyncFragment<J>>, bool), GenerateFailure> where
    FN: Fn(Hash256) -> Result<Option<u64>, Error>,
    FH: Fn(u64) -> Result<Option<Hash256>, Error>,
    FD: Fn(Hash256) -> Result<Option<FragmentHeader>, Error>,
    FJ: Fn(Hash256) -> Result<Option<(J, BlockRef)>, Error>,
    FS: Fn(&WarpSyncFragment<J>) -> usize,
    FA: Fn((u64, u64)) -> Option<Vec<u64>>,
    FB: Fn(u64) -> Option<Vec<u64>>,
    FL: Fn() -> Result<Option<(J, BlockRef)>, Error>,
 {
    match start_spec(l.block_number, l.canonical_hash, begin, finalized_number) {
        Err(e) => Err(e),
        Ok(begin_number) => match plan_spec(
            l.canonical_hash,
            l.header,
            l.changes_after,
            l.changes_from,
            hard_forks,
            begin_number,
            finalized_number,
        ) {
            Err(e) => Err(e),
            Ok((checkpoint, changes)) => {
                let c0 = Collected { proofs: Seq::empty(), encoded_len: 0, limit_reached: false };
                let c1 = match checkpoint {
                    None => Ok(c0),
                    Some(hd) => push_fragment_spec(l.justification, l.fragment_size, c0, hd),
                };
                match c1 {
                    Err(e) => Err(e),
                    Ok(c1) => match walk_spec(
                        l.canonical_hash,
                        l.header,
                        l.justification,
                        l.fragment_size,
                        c1,
                        changes,
                        changes.len() as int,
                    ) {
                        Err(e) => Err(e),
                        Ok((c2, _)) => finish_spec(l.header, l.fragment_size, l.best_justification, c2, begin_number),
                    },
                }
            },
        },
    }
}

/// The error that a failure is told as.
pub fn tell(f: GenerateFailure) -> (e: Error)
    ensures
        told_as(f, e),
{
    match f {
        GenerateFailure::Lookup(err) => err,
        GenerateFailure::MissingStartBlock => Error::InvalidRequest(String::from_str("Missing start block")),
        GenerateFailure::StartNotFinalized => Error::InvalidRequest(String::from_str("Start block is not finalized")),
        GenerateFailure::StartNotCanonical => Error::InvalidRequest(String::from_str("Start block is not in the finalized chain")),
        GenerateFailure::MissingChangeHash => Error::InvalidRequest(String::from_str(
            "header number comes from previously applied set changes; corresponding hash must exist in db.",
        )),
        GenerateFailure::MissingChangeHeader => Error::InvalidRequest(String::from_str(
            "header hash obtained from header number exists in db; corresponding header must exist in db too.",
        )),
        GenerateFailure::MissingData => Error::MissingData,
    }
}

impl<J> WarpSyncProof<J> {
    /// Generates a warp sync proof starting at block `begin`, with the chain finalized up to
    /// `finalized_number`: one fragment for the latest configured checkpoint after the start
    /// block, if any, then one for each recorded authority set change after it, until a change
    /// block lacks a scheduled change or the size limit is reached; then, where the limit was
    /// not reached, the best justification, if it proves more. The proof is finished unless the
    /// limit was reached.
    pub fn generate<FN, FH, FD, FJ, FS, FA, FB, FL>(
        lookups: &ChainLookups<FN, FH, FD, FJ, FS, FA, FB, FL>,
        begin: Hash256,
        finalized_number: u64,
        hard_forks: &HardForks,
    ) -> (r: Result<WarpSyncProof<J>, Error>) where
    FN: Fn(Hash256) -> Result<Option<u64>, Error>,
    FH: Fn(u64) -> Result<Option<Hash256>, Error>,
    FD: Fn(Hash256) -> Result<Option<FragmentHeader>, Error>,
    FJ: Fn(Hash256) -> Result<Option<(J, BlockRef)>, Error>,
    FS: Fn(&WarpSyncFragment<J>) -> usize,
    FA: Fn((u64, u64)) -> Option<Vec<u64>>,
    FB: Fn(u64) -> Option<Vec<u64>>,
    FL: Fn() -> Result<Option<(J, BlockRef)>, Error>,

        requires
            lookups_consistent(*lookups, begin, finalized_number),
        ensures
            match generate_spec(*lookups, begin, finalized_number, *hard_forks) {
                Ok((proofs, is_finished)) => r matches Ok(p) && p.proofs@ == proofs && p.is_finished == is_finished,
                Err(f) => r matches Err(e) && told_as(f, e),
            },
    {
        match Self::generate_checked(lookups, begin, finalized_number, hard_forks) {
            Ok(p) => Ok(p),
            Err(f) => Err(tell(f)),
        }
    }

    fn generate_checked<FN, FH, FD, FJ, FS, FA, FB, FL>(
        lookups: &ChainLookups<FN, FH, FD, FJ, FS, FA, FB, FL>,
        begin: Hash256,
        finalized_number: u64,
        hard_forks: &HardForks,
    ) -> (r: Result<WarpSyncProof<J>, GenerateFailure>) where
    FN: Fn(Hash256) -> Result<Option<u64>, Error>,
    FH: Fn(u64) -> Result<Option<Hash256>, Error>,
    FD: Fn(Hash256) -> Result<Option<FragmentHeader>, Error>,
    FJ: Fn(Hash256) -> Result<Option<(J, BlockRef)>, Error>,
    FS: Fn(&WarpSyncFragment<J>) -> usize,
    FA: Fn((u64, u64)) -> Option<Vec<u64>>,
    FB: Fn(u64) -> Option<Vec<u64>>,
    FL: Fn() -> Result<Option<(J, BlockRef)>, Error>,

        requires
            lookups_consistent(*lookups, begin, finalized_number),
        ensures
            match generate_spec(*lookups, begin, finalized_number, *hard_forks) {
                Ok((proofs, is_finished)) => r matches Ok(p) && p.proofs@ == proofs && p.is_finished == is_finished,
                Err(f) => r == Err::<WarpSyncProof<J>, GenerateFailure>(f),
            },
    {
        let begin_number = match start_block(&lookups.block_number, &lookups.canonical_hash, begin, finalized_number) {
            Err(f) => {
                return Err(f);
            },
            Ok(n) => n,
        };
        let (checkpoint, changes) = match change_plan(
            &lookups.canonical_hash,
            &lookups.header,
            &lookups.changes_after,
            &lookups.changes_from,
            hard_forks,
            begin_number,
            finalized_number,
        ) {
            Err(f) => {
                return Err(f);
            },
            Ok(plan) => plan,
        };
        let empty = Collecting { proofs: Vec::new(), encoded_len: 0, limit_reached: false };
        let c1 = match checkpoint {
            None => empty,
            Some(hd) => match push_fragment(&lookups.justification, &lookups.fragment_size, empty, hd) {
                Err(f) => {
                    return Err(f);
                },
                Ok(c) => c,
            },
        };
        let c2 = match walk_changes(
            &lookups.canonical_hash,
            &lookups.header,
            &lookups.justification,
            &lookups.fragment_size,
            c1,
            &changes,
        ) {
            Err(f) => {
                return Err(f);
            },
            Ok(c) => c,
        };
        match finish(&lookups.header, &lookups.fragment_size, &lookups.best_justification, c2, begin_number) {
            Err(f) => Err(f),
            Ok((proofs, is_finished)) => Ok(WarpSyncProof { proofs, is_finished }),
        }
    }
}

/// The sum of the encoded sizes of the fragments.
pub open spec fn total_size<J, FS: Fn(&WarpSyncFragment<J>) -> usize>(
    fragment_size: FS,
    proofs: Seq<WarpSyncFragment<J>>,
) -> int
    decreases proofs.len(),
{
    if proofs.len() == 0 {
        0
    } else {
        total_size(fragment_size, proofs.drop_last()) + size_answer(fragment_size, proofs.last())
    }
}

/// What was collected is counted right and stays below the limit.
pub open spec fn collected_fits<J, FS: Fn(&WarpSyncFragment<J>) -> usize>(fragment_size: FS, c: Collected<J>) -> bool {
    &&& c.encoded_len == total_size(fragment_size, c.proofs)
    &&& c.encoded_len < MAX_WARP_SYNC_PROOF_SIZE - PROOF_SIZE_MARGIN
}

proof fn lemma_total_size_push<J, FS: Fn(&WarpSyncFragment<J>) -> usize>(
    fragment_size: FS,
    proofs: Seq<WarpSyncFragment<J>>,
    f: WarpSyncFragment<J>,
)
    ensures
        total_size(fragment_size, proofs.push(f)) == total_size(fragment_size, proofs) + size_answer(fragment_size, f),
{
    assert(proofs.push(f).drop_last() == proofs);
}

proof fn lemma_push_fits<J, FJ, FS>(justification: FJ, fragment_size: FS, c: Collected<J>, header: FragmentHeader)
    where
    FJ: Fn(Hash256) -> Result<Option<(J, BlockRef)>, Error>,
    FS: Fn(&WarpSyncFragment<J>) -> usize,

    requires
        collected_fits(fragment_size, c),
    ensures
        push_fragment_spec(justification, fragment_size, c, header) matches Ok(c2) ==> collected_fits(fragment_size, c2),
{
    match answer(justification, header.block.hash) {
        Ok(Some((j, target))) => {
            let f = WarpSyncFragment { header, justification: j, justification_target: target };
            lemma_total_size_push(fragment_size, c.proofs, f);
        },
        _ => {},
    }
}

proof fn lemma_walk_fits<J, FH, FD, FJ, FS>(
    canonical_hash: FH,
    header: FD,
    justification: FJ,
    fragment_size: FS,
    c: Collected<J>,
    changes: Seq<u64>,
    k: int,
) where
    FH: Fn(u64) -> Result<Option<Hash256>, Error>,
    FD: Fn(Hash256) -> Result<Option<FragmentHeader>, Error>,
    FJ: Fn(Hash256) -> Result<Option<(J, BlockRef)>, Error>,
    FS: Fn(&WarpSyncFragment<J>) -> usize,

    requires
        collected_fits(fragment_size, c),
    ensures
        walk_spec(canonical_hash, header, justification, fragment_size, c, changes, k) matches Ok((c2, _))
            ==> collected_fits(fragment_size, c2),
    decreases k,
{
    if k > 0 {
        lemma_walk_fits(canonical_hash, header, justification, fragment_size, c, changes, k - 1);
        match walk_spec(canonical_hash, header, justification, fragment_size, c, changes, k - 1) {
            Ok((c2, false)) => match answer(canonical_hash, changes[k - 1]) {
                Ok(Some(hash)) => match answer(header, hash) {
                    Ok(Some(hd)) => {
                        lemma_push_fits(justification, fragment_size, c2, hd);
                    },
                    _ => {},
                },
                _ => {},
            },
            _ => {},
        }
    }
}

/// A generated proof stays within the size limit: its fragments' encoded sizes add up to less
/// than the maximum proof size, less the room kept for the vector length and the flag.
pub proof fn lemma_generated_proof_fits<J, FN, FH, FD, FJ, FS, FA, FB, FL>(
    l: ChainLookups<FN, FH, FD, FJ, FS, FA, FB, FL>,
    begin: Hash256,
    finalized_number: u64,
    hard_forks: HardForks,
) where
    FN: Fn(Hash256) -> Result<Option<u64>, Error>,
    FH: Fn(u64) -> Result<Option<Hash256>, Error>,
    FD: Fn(Hash256) -> Result<Option<FragmentHeader>, Error>,
    FJ: Fn(Hash256) -> Result<Option<(J, BlockRef)>, Error>,
    FS: Fn(&WarpSyncFragment<J>) -> usize,
    FA: Fn((u64, u64)) -> Option<Vec<u64>>,
    FB: Fn(u64) -> Option<Vec<u64>>,
    FL: Fn() -> Result<Option<(J, BlockRef)>, Error>,

    ensures
        generate_spec(l, begin, finalized_number, hard_forks) matches Ok((proofs, _))
            ==> total_size(l.fragment_size, proofs) < MAX_WARP_SYNC_PROOF_SIZE - PROOF_SIZE_MARGIN,
{
    match start_spec(l.block_number, l.canonical_hash, begin, finalized_number) {
        Ok(begin_number) => match plan_spec(
            l.canonical_hash,
            l.header,
            l.changes_after,
            l.changes_from,
            hard_forks,
            begin_number,
            finalized_number,
        ) {
            Ok((checkpoint, changes)) => {
                let c0 = Collected { proofs: Seq::<WarpSyncFragment<J>>::empty(), encoded_len: 0, limit_reached: false };
                assert(collected_fits(l.fragment_size, c0));
                let c1 = match checkpoint {
                    None => Ok(c0),
                    Some(hd) => push_fragment_spec(l.justification, l.fragment_size, c0, hd),
                };
                match checkpoint {
                    Some(hd) => lemma_push_fits(l.justification, l.fragment_size, c0, hd),
                    None => {},
                }
                match c1 {
                    Ok(c1) => {
                        lemma_walk_fits(l.canonical_hash, l.header, l.justification, l.fragment_size, c1, changes, changes.len() as int);
                        match walk_spec(l.canonical_hash, l.header, l.justification, l.fragment_size, c1, changes, changes.len() as int) {
                            Ok((c2, _)) => {
                                if !c2.limit_reached {
                                    match answer0(l.best_justification) {
                                        Ok(Some((j, target))) => match answer(l.header, target.hash) {
                                            Ok(Some(hd)) => {
                                                let f = WarpSyncFragment { header: hd, justification: j, justification_target: target };
                                                lemma_total_size_push(l.fragment_size, c2.proofs, f);
                                            },
                                            _ => {},
                                        },
                                        _ => {},
                                    }
                                }
                            },
                            _ => {},
                        }
                    },
                    _ => {},
                }
            },
            _ => {},
        },
        _ => {},
    }
}

/// Reinitializing the set id changes nothing in the proofs generated: a node configured with a
/// new initial set id generates the same proof as one configured with no checkpoints.
pub proof fn lemma_reinitialized_set_id_generates_same_proof<J, FN, FH, FD, FJ, FS, FA, FB, FL>(
    l: ChainLookups<FN, FH, FD, FJ, FS, FA, FB, FL>,
    begin: Hash256,
    finalized_number: u64,
    new_set_id: u64,
    no_checkpoints: Vec<Checkpoint>,
) where
    FN: Fn(Hash256) -> Result<Option<u64>, Error>,
    FH: Fn(u64) -> Result<Option<Hash256>, Error>,
    FD: Fn(Hash256) -> Result<Option<FragmentHeader>, Error>,
    FJ: Fn(Hash256) -> Result<Option<(J, BlockRef)>, Error>,
    FS: Fn(&WarpSyncFragment<J>) -> usize,
    FA: Fn((u64, u64)) -> Option<Vec<u64>>,
    FB: Fn(u64) -> Option<Vec<u64>>,
    FL: Fn() -> Result<Option<(J, BlockRef)>, Error>,

    requires
        no_checkpoints@.len() == 0,
    ensures
        generate_spec(l, begin, finalized_number, HardForks::ReinitializeSetId { new_set_id })
            == generate_spec(l, begin, finalized_number, HardForks::AuthoritySetHardForks { hard_forks: no_checkpoints }),
{
    assert(configured_checkpoints(HardForks::ReinitializeSetId { new_set_id })
        =~= configured_checkpoints(HardForks::AuthoritySetHardForks { hard_forks: no_checkpoints }));
}

/// The fragments from index `k` on all carry a scheduled authority set change.
pub open spec fn changes_from_index<J>(proofs: Seq<WarpSyncFragment<J>>, k: int) -> bool {
    forall|i: int| k <= i < proofs.len() ==> (#[trigger] proofs[i]).header.scheduled_change is Some
}

proof fn lemma_walk_keeps_changes<J, FH, FD, FJ, FS>(
    canonical_hash: FH,
    header: FD,
    justification: FJ,
    fragment_size: FS,
    c: Collected<J>,
    changes: Seq<u64>,
    k: int,
    from: int,
) where
    FH: Fn(u64) -> Result<Option<Hash256>, Error>,
    FD: Fn(Hash256) -> Result<Option<FragmentHeader>, Error>,
    FJ: Fn(Hash256) -> Result<Option<(J, BlockRef)>, Error>,
    FS: Fn(&WarpSyncFragment<J>) -> usize,

    requires
        changes_from_index(c.proofs, from),
        0 <= from,
    ensures
        walk_spec(canonical_hash, header, justification, fragment_size, c, changes, k) matches Ok((c2, _))
            ==> changes_from_index(c2.proofs, from),
    decreases k,
{
    if k > 0 {
        lemma_walk_keeps_changes(canonical_hash, header, justification, fragment_size, c, changes, k - 1, from);
        match walk_spec(canonical_hash, header, justification, fragment_size, c, changes, k - 1) {
            Ok((c2, false)) => match answer(canonical_hash, changes[k - 1]) {
                Ok(Some(hash)) => match answer(header, hash) {
                    Ok(Some(hd)) => {
                        if hd.scheduled_change is Some {
                            match answer(justification, hd.block.hash) {
                                Ok(Some((j, target))) => {
                                    let f = WarpSyncFragment { header: hd, justification: j, justification_target: target };
                                    let pushed = c2.proofs.push(f);
                                    assert forall|i: int| from <= i < pushed.len() implies (#[trigger] pushed[i]).header.scheduled_change is Some by {
                                        if i < c2.proofs.len() {
                                            assert(pushed[i] == c2.proofs[i]);
                                        }
                                    }
                                },
                                _ => {},
                            }
                        }
                    },
                    _ => {},
                },
                _ => {},
            },
            _ => {},
        }
    }
}

/// The shape that verification relies on: in a generated proof, every fragment carries a
/// scheduled authority set change, except the first where a checkpoint is configured (the
/// latest checkpoint's header, which the verifier knows from its configuration), and the last
/// of a finished proof (the best justification).
pub proof fn lemma_generated_fragments_carry_changes<J, FN, FH, FD, FJ, FS, FA, FB, FL>(
    l: ChainLookups<FN, FH, FD, FJ, FS, FA, FB, FL>,
    begin: Hash256,
    finalized_number: u64,
    hard_forks: HardForks,
) where
    FN: Fn(Hash256) -> Result<Option<u64>, Error>,
    FH: Fn(u64) -> Result<Option<Hash256>, Error>,
    FD: Fn(Hash256) -> Result<Option<FragmentHeader>, Error>,
    FJ: Fn(Hash256) -> Result<Option<(J, BlockRef)>, Error>,
    FS: Fn(&WarpSyncFragment<J>) -> usize,
    FA: Fn((u64, u64)) -> Option<Vec<u64>>,
    FB: Fn(u64) -> Option<Vec<u64>>,
    FL: Fn() -> Result<Option<(J, BlockRef)>, Error>,

    ensures
        generate_spec(l, begin, finalized_number, hard_forks) matches Ok((proofs, is_finished))
            ==> forall|i: int| 0 <= i < proofs.len() ==> {
                ||| (#[trigger] proofs[i]).header.scheduled_change is Some
                ||| i == 0 && configured_checkpoints(hard_forks).len() > 0
                ||| i == proofs.len() - 1 && is_finished
            },
{
    match start_spec(l.block_number, l.canonical_hash, begin, finalized_number) {
        Ok(begin_number) => match plan_spec(
            l.canonical_hash,
            l.header,
            l.changes_after,
            l.changes_from,
            hard_forks,
            begin_number,
            finalized_number,
        ) {
            Ok((checkpoint, changes)) => {
                let c0 = Collected { proofs: Seq::<WarpSyncFragment<J>>::empty(), encoded_len: 0, limit_reached: false };
                let from: int = if checkpoint is Some { 1 } else { 0 };
                let c1 = match checkpoint {
                    None => Ok(c0),
                    Some(hd) => push_fragment_spec(l.justification, l.fragment_size, c0, hd),
                };
                if checkpoint is Some {
                    let cps = configured_checkpoints(hard_forks);
                    assert(latest_checkpoint(l.canonical_hash, cps, cps.len() as int, begin_number, finalized_number) matches Ok(Some(_)));
                    if cps.len() == 0 {
                        lemma_latest_none_without_checkpoints(l.canonical_hash, cps, cps.len() as int, begin_number, finalized_number);
                    }
                }
                match c1 {
                    Ok(c1) => {
                        assert(changes_from_index(c1.proofs, from));
                        lemma_walk_keeps_changes(l.canonical_hash, l.header, l.justification, l.fragment_size, c1, changes, changes.len() as int, from);
                        match walk_spec(l.canonical_hash, l.header, l.justification, l.fragment_size, c1, changes, changes.len() as int) {
                            Ok((c2, _)) => {
                                match finish_spec(l.header, l.fragment_size, l.best_justification, c2, begin_number) {
                                    Ok((proofs, is_finished)) => {
                                        assert forall|i: int| 0 <= i < proofs.len() implies {
                                            ||| (#[trigger] proofs[i]).header.scheduled_change is Some
                                            ||| i == 0 && configured_checkpoints(hard_forks).len() > 0
                                            ||| i == proofs.len() - 1 && is_finished
                                        } by {
                                            if i < c2.proofs.len() {
                                                assert(proofs[i] == c2.proofs[i]);
                                            }
                                        }
                                    },
                                    _ => {},
                                }
                            },
                            _ => {},
                        }
                    },
                    _ => {},
                }
            },
            _ => {},
        },
        _ => {},
    }
}

proof fn lemma_latest_none_without_checkpoints<FH: Fn(u64) -> Result<Option<Hash256>, Error>>(
    canonical_hash: FH,
    checkpoints: Seq<Checkpoint>,
    k: int,
    begin_number: u64,
    finalized_number: u64,
)
    requires
        k <= 0,
    ensures
        latest_checkpoint(canonical_hash, checkpoints, k, begin_number, finalized_number) == Ok::<Option<(BlockRef, u64)>, GenerateFailure>(None),
{
}

/// The lookups agree with each other as a node's database does: a header found by a hash is the
/// header of that block, and a justification found by a block's hash targets that block.
pub open spec fn lookups_agree<J, FN, FH, FD, FJ, FS, FA, FB, FL>(l: ChainLookups<FN, FH, FD, FJ, FS, FA, FB, FL>) -> bool where
    FN: Fn(Hash256) -> Result<Option<u64>, Error>,
    FH: Fn(u64) -> Result<Option<Hash256>, Error>,
    FD: Fn(Hash256) -> Result<Option<FragmentHeader>, Error>,
    FJ: Fn(Hash256) -> Result<Option<(J, BlockRef)>, Error>,
    FS: Fn(&WarpSyncFragment<J>) -> usize,
    FA: Fn((u64, u64)) -> Option<Vec<u64>>,
    FB: Fn(u64) -> Option<Vec<u64>>,
    FL: Fn() -> Result<Option<(J, BlockRef)>, Error>,
 {
    &&& header_hashes_agree(l.header)
    &&& forall|h: Hash256| #[trigger] answer(l.justification, h) matches Ok(Some((_, t))) ==> t.hash == h
}

/// A header found by a hash is the header of the block with that hash.
pub open spec fn header_hashes_agree<FD: Fn(Hash256) -> Result<Option<FragmentHeader>, Error>>(header: FD) -> bool {
    forall|h: Hash256| #[trigger] answer(header, h) matches Ok(Some(hd)) ==> hd.block.hash == h
}

/// The header of the canonical block at a number has that number.
pub open spec fn canonical_headers_numbered<FH, FD>(canonical_hash: FH, header: FD) -> bool where
    FH: Fn(u64) -> Result<Option<Hash256>, Error>,
    FD: Fn(Hash256) -> Result<Option<FragmentHeader>, Error>,
 {
    forall|n: u64, h: Hash256|
        #![trigger answer(canonical_hash, n), answer(header, h)]
        answer(canonical_hash, n) == Ok::<Option<Hash256>, Error>(Some(h)) && answer(header, h) is Ok
            && answer(header, h)->Ok_0 is Some ==> answer(header, h)->Ok_0->Some_0.block.number == n
}

/// Every fragment's justification targets the fragment's block.
pub open spec fn targets_match<J>(proofs: Seq<WarpSyncFragment<J>>) -> bool {
    forall|i: int| 0 <= i < proofs.len() ==> (#[trigger] proofs[i]).justification_target.hash == proofs[i].header.block.hash
}

proof fn lemma_push_targets<J, FJ, FS>(justification: FJ, fragment_size: FS, c: Collected<J>, header: FragmentHeader)
    where
    FJ: Fn(Hash256) -> Result<Option<(J, BlockRef)>, Error>,
    FS: Fn(&WarpSyncFragment<J>) -> usize,

    requires
        targets_match(c.proofs),
        forall|h: Hash256| #[trigger] answer(justification, h) matches Ok(Some((_, t))) ==> t.hash == h,
    ensures
        push_fragment_spec(justification, fragment_size, c, header) matches Ok(c2) ==> targets_match(c2.proofs),
{
    match answer(justification, header.block.hash) {
        Ok(Some((j, target))) => {
            let f = WarpSyncFragment { header, justification: j, justification_target: target };
            let pushed = c.proofs.push(f);
            assert forall|i: int| 0 <= i < pushed.len() implies (#[trigger] pushed[i]).justification_target.hash == pushed[i].header.block.hash by {
                if i < c.proofs.len() {
                    assert(pushed[i] == c.proofs[i]);
                }
            }
        },
        _ => {},
    }
}

proof fn lemma_walk_targets<J, FH, FD, FJ, FS>(
    canonical_hash: FH,
    header: FD,
    justification: FJ,
    fragment_size: FS,
    c: Collected<J>,
    changes: Seq<u64>,
    k: int,
) where
    FH: Fn(u64) -> Result<Option<Hash256>, Error>,
    FD: Fn(Hash256) -> Result<Option<FragmentHeader>, Error>,
    FJ: Fn(Hash256) -> Result<Option<(J, BlockRef)>, Error>,
    FS: Fn(&WarpSyncFragment<J>) -> usize,

    requires
        targets_match(c.proofs),
        forall|h: Hash256| #[trigger] answer(justification, h) matches Ok(Some((_, t))) ==> t.hash == h,
    ensures
        walk_spec(canonical_hash, header, justification, fragment_size, c, changes, k) matches Ok((c2, _))
            ==> targets_match(c2.proofs),
    decreases k,
{
    if k > 0 {
        lemma_walk_targets(canonical_hash, header, justification, fragment_size, c, changes, k - 1);
        match walk_spec(canonical_hash, header, justification, fragment_size, c, changes, k - 1) {
            Ok((c2, false)) => match answer(canonical_hash, changes[k - 1]) {
                Ok(Some(hash)) => match answer(header, hash) {
                    Ok(Some(hd)) => {
                        lemma_push_targets(justification, fragment_size, c2, hd);
                    },
                    _ => {},
                },
                _ => {},
            },
            _ => {},
        }
    }
}

/// In a chain whose lookups agree, every fragment of a generated proof carries a justification
/// of the fragment's own block.
pub proof fn lemma_generated_targets_match<J, FN, FH, FD, FJ, FS, FA, FB, FL>(
    l: ChainLookups<FN, FH, FD, FJ, FS, FA, FB, FL>,
    begin: Hash256,
    finalized_number: u64,
    hard_forks: HardForks,
) where
    FN: Fn(Hash256) -> Result<Option<u64>, Error>,
    FH: Fn(u64) -> Result<Option<Hash256>, Error>,
    FD: Fn(Hash256) -> Result<Option<FragmentHeader>, Error>,
    FJ: Fn(Hash256) -> Result<Option<(J, BlockRef)>, Error>,
    FS: Fn(&WarpSyncFragment<J>) -> usize,
    FA: Fn((u64, u64)) -> Option<Vec<u64>>,
    FB: Fn(u64) -> Option<Vec<u64>>,
    FL: Fn() -> Result<Option<(J, BlockRef)>, Error>,

    requires
        lookups_agree(l),
    ensures
        generate_spec(l, begin, finalized_number, hard_forks) matches Ok((proofs, _)) ==> targets_match(proofs),
{
    match start_spec(l.block_number, l.canonical_hash, begin, finalized_number) {
        Ok(begin_number) => match plan_spec(
            l.canonical_hash,
            l.header,
            l.changes_after,
            l.changes_from,
            hard_forks,
            begin_number,
            finalized_number,
        ) {
            Ok((checkpoint, changes)) => {
                let c0 = Collected { proofs: Seq::<WarpSyncFragment<J>>::empty(), encoded_len: 0, limit_reached: false };
                let c1 = match checkpoint {
                    None => Ok(c0),
                    Some(hd) => push_fragment_spec(l.justification, l.fragment_size, c0, hd),
                };
                match checkpoint {
                    Some(hd) => lemma_push_targets(l.justification, l.fragment_size, c0, hd),
                    None => {},
                }
                match c1 {
                    Ok(c1) => {
                        lemma_walk_targets(l.canonical_hash, l.header, l.justification, l.fragment_size, c1, changes, changes.len() as int);
                        match walk_spec(l.canonical_hash, l.header, l.justification, l.fragment_size, c1, changes, changes.len() as int) {
                            Ok((c2, _)) => {
                                if !c2.limit_reached {
                                    match answer0(l.best_justification) {
                                        Ok(Some((j, target))) => match answer(l.header, target.hash) {
                                            Ok(Some(hd)) => {
                                                let f = WarpSyncFragment { header: hd, justification: j, justification_target: target };
                                                let pushed = c2.proofs.push(f);
                                                assert forall|i: int| 0 <= i < pushed.len() implies (#[trigger] pushed[i]).justification_target.hash == pushed[i].header.block.hash by {
                                                    if i < c2.proofs.len() {
                                                        assert(pushed[i] == c2.proofs[i]);
                                                    }
                                                }
                                            },
                                            _ => {},
                                        },
                                        _ => {},
                                    }
                                }
                            },
                            _ => {},
                        }
                    },
                    _ => {},
                }
            },
            _ => {},
        },
        _ => {},
    }
}

/// What is generated verifies: in a chain whose lookups agree, with no checkpoint configured, a
/// generated proof whose justifications are all accepted verifies, from any starting set, and
/// ends at the set in charge after its last scheduled change.
pub proof fn lemma_generated_proof_verifies<J, FN, FH, FD, FJ, FS, FA, FB, FL>(
    l: ChainLookups<FN, FH, FD, FJ, FS, FA, FB, FL>,
    begin: Hash256,
    finalized_number: u64,
    no_checkpoints: Vec<Checkpoint>,
    set_id: u64,
    authorities: Seq<Authority>,
    checks: Seq<Result<(), String>>,
) where
    FN: Fn(Hash256) -> Result<Option<u64>, Error>,
    FH: Fn(u64) -> Result<Option<Hash256>, Error>,
    FD: Fn(Hash256) -> Result<Option<FragmentHeader>, Error>,
    FJ: Fn(Hash256) -> Result<Option<(J, BlockRef)>, Error>,
    FS: Fn(&WarpSyncFragment<J>) -> usize,
    FA: Fn((u64, u64)) -> Option<Vec<u64>>,
    FB: Fn(u64) -> Option<Vec<u64>>,
    FL: Fn() -> Result<Option<(J, BlockRef)>, Error>,

    requires
        lookups_agree(l),
        no_checkpoints@.len() == 0,
        generate_spec(l, begin, finalized_number, HardForks::AuthoritySetHardForks { hard_forks: no_checkpoints }) matches Ok((proofs, _))
            && checks.len() == proofs.len(),
        forall|i: int| 0 <= i < checks.len() ==> (#[trigger] checks[i]) is Ok,
    ensures
        generate_spec(l, begin, finalized_number, HardForks::AuthoritySetHardForks { hard_forks: no_checkpoints }) matches Ok((proofs, is_finished))
            && verify_prefix(proofs, is_finished, HardForks::AuthoritySetHardForks { hard_forks: no_checkpoints }, set_id, authorities, checks, proofs.len() as int)
                == Ok::<(u64, Seq<Authority>), ProofFailure>(set_after(proofs, set_id, authorities, proofs.len() as int)),
{
    let hf = HardForks::AuthoritySetHardForks { hard_forks: no_checkpoints };
    lemma_generated_targets_match(l, begin, finalized_number, hf);
    lemma_generated_fragments_carry_changes(l, begin, finalized_number, hf);
    assert(configured_checkpoints(hf).len() == 0);
    match generate_spec(l, begin, finalized_number, hf) {
        Ok((proofs, is_finished)) => {
            assert forall|i: int| 0 <= i < proofs.len() implies (#[trigger] proofs[i]).header.scheduled_change is Some || (i == proofs.len() - 1 && is_finished) by {}
            lemma_accepted_proof_verifies(proofs, is_finished, set_id, authorities, checks, no_checkpoints);
        },
        Err(_) => {},
    }
}

/// The header of the canonical block at a number has that number.
pub open spec fn headers_numbered<J, FN, FH, FD, FJ, FS, FA, FB, FL>(l: ChainLookups<FN, FH, FD, FJ, FS, FA, FB, FL>) -> bool where
    FN: Fn(Hash256) -> Result<Option<u64>, Error>,
    FH: Fn(u64) -> Result<Option<Hash256>, Error>,
    FD: Fn(Hash256) -> Result<Option<FragmentHeader>, Error>,
    FJ: Fn(Hash256) -> Result<Option<(J, BlockRef)>, Error>,
    FS: Fn(&WarpSyncFragment<J>) -> usize,
    FA: Fn((u64, u64)) -> Option<Vec<u64>>,
    FB: Fn(u64) -> Option<Vec<u64>>,
    FL: Fn() -> Result<Option<(J, BlockRef)>, Error>,
 {
    canonical_headers_numbered(l.canonical_hash, l.header)
}

proof fn lemma_latest_is_configured<FH: Fn(u64) -> Result<Option<Hash256>, Error>>(
    canonical_hash: FH,
    checkpoints: Seq<Checkpoint>,
    k: int,
    begin_number: u64,
    finalized_number: u64,
)
    requires
        k <= checkpoints.len(),
    ensures
        latest_checkpoint(canonical_hash, checkpoints, k, begin_number, finalized_number) matches Ok(Some((b, _)))
            ==> exists|j: int| #![trigger checkpoints[j]] 0 <= j < k && checkpoints[j].block == b
                && answer(canonical_hash, b.number) == Ok::<Option<Hash256>, Error>(Some(b.hash))
                && begin_number < b.number <= finalized_number,
    decreases k,
{
    if k > 0 {
        lemma_latest_is_configured(canonical_hash, checkpoints, k - 1, begin_number, finalized_number);
        match latest_checkpoint(canonical_hash, checkpoints, k - 1, begin_number, finalized_number) {
            Ok(best) => {
                let c = checkpoints[k - 1];
                if checkpoint_candidate(best, c.block.number, begin_number, finalized_number) {
                    match answer(canonical_hash, c.block.number) {
                        Ok(h) => {
                            if h == Some(c.block.hash) {
                                assert(checkpoints[k - 1].block == c.block);
                            }
                        },
                        _ => {},
                    }
                }
            },
            _ => {},
        }
    }
}

proof fn lemma_walk_keeps_prefix<J, FH, FD, FJ, FS>(
    canonical_hash: FH,
    header: FD,
    justification: FJ,
    fragment_size: FS,
    c: Collected<J>,
    changes: Seq<u64>,
    k: int,
) where
    FH: Fn(u64) -> Result<Option<Hash256>, Error>,
    FD: Fn(Hash256) -> Result<Option<FragmentHeader>, Error>,
    FJ: Fn(Hash256) -> Result<Option<(J, BlockRef)>, Error>,
    FS: Fn(&WarpSyncFragment<J>) -> usize,

    ensures
        walk_spec(canonical_hash, header, justification, fragment_size, c, changes, k) matches Ok((c2, ended)) ==> {
            &&& c2.proofs.len() >= c.proofs.len()
            &&& forall|i: int| 0 <= i < c.proofs.len() ==> #[trigger] c2.proofs[i] == c.proofs[i]
            &&& c.limit_reached ==> c2 == c
        },
    decreases k,
{
    if k > 0 {
        lemma_walk_keeps_prefix(canonical_hash, header, justification, fragment_size, c, changes, k - 1);
        match walk_spec(canonical_hash, header, justification, fragment_size, c, changes, k - 1) {
            Ok((c2, false)) => match answer(canonical_hash, changes[k - 1]) {
                Ok(Some(hash)) => match answer(header, hash) {
                    Ok(Some(hd)) => {
                        if hd.scheduled_change is Some {
                            match answer(justification, hd.block.hash) {
                                Ok(Some((j, target))) => {
                                    let f = WarpSyncFragment { header: hd, justification: j, justification_target: target };
                                    let pushed = c2.proofs.push(f);
                                    assert forall|i: int| 0 <= i < c.proofs.len() implies #[trigger] pushed[i] == c.proofs[i] by {
                                        assert(pushed[i] == c2.proofs[i]);
                                    }
                                },
                                _ => {},
                            }
                        }
                    },
                    _ => {},
                },
                _ => {},
            },
            _ => {},
        }
    }
}

/// In a chain whose lookups agree and whose canonical headers carry their numbers, the first
/// fragment of a generated proof carries a scheduled change, is the configured checkpoint it was
/// made for, or is the only fragment of a finished proof.
pub proof fn lemma_generated_first_fragment<J, FN, FH, FD, FJ, FS, FA, FB, FL>(
    l: ChainLookups<FN, FH, FD, FJ, FS, FA, FB, FL>,
    begin: Hash256,
    finalized_number: u64,
    hard_forks: HardForks,
) where
    FN: Fn(Hash256) -> Result<Option<u64>, Error>,
    FH: Fn(u64) -> Result<Option<Hash256>, Error>,
    FD: Fn(Hash256) -> Result<Option<FragmentHeader>, Error>,
    FJ: Fn(Hash256) -> Result<Option<(J, BlockRef)>, Error>,
    FS: Fn(&WarpSyncFragment<J>) -> usize,
    FA: Fn((u64, u64)) -> Option<Vec<u64>>,
    FB: Fn(u64) -> Option<Vec<u64>>,
    FL: Fn() -> Result<Option<(J, BlockRef)>, Error>,

    requires
        lookups_agree(l),
        headers_numbered(l),
    ensures
        generate_spec(l, begin, finalized_number, hard_forks) matches Ok((proofs, is_finished)) ==> (proofs.len() > 0 ==> {
            ||| proofs[0].header.scheduled_change is Some
            ||| spec_hard_forked_authorities(hard_forks, proofs[0].header.block) is Some
            ||| proofs.len() == 1 && is_finished
        }),
{
    match start_spec(l.block_number, l.canonical_hash, begin, finalized_number) {
        Ok(begin_number) => match plan_spec(
            l.canonical_hash,
            l.header,
            l.changes_after,
            l.changes_from,
            hard_forks,
            begin_number,
            finalized_number,
        ) {
            Ok((checkpoint, changes)) => {
                let c0 = Collected { proofs: Seq::<WarpSyncFragment<J>>::empty(), encoded_len: 0, limit_reached: false };
                let c1 = match checkpoint {
                    None => Ok(c0),
                    Some(hd) => push_fragment_spec(l.justification, l.fragment_size, c0, hd),
                };
                match c1 {
                    Ok(c1) => {
                        lemma_walk_keeps_prefix(l.canonical_hash, l.header, l.justification, l.fragment_size, c1, changes, changes.len() as int);
                        if c1.limit_reached {
                            lemma_walk_settled(l.canonical_hash, l.header, l.justification, l.fragment_size, c1, changes, 0, changes.len() as int);
                        }
                        match checkpoint {
                            Some(hd) => {
                                let cps = configured_checkpoints(hard_forks);
                                lemma_latest_is_configured(l.canonical_hash, cps, cps.len() as int, begin_number, finalized_number);
                                let cp = latest_checkpoint(l.canonical_hash, cps, cps.len() as int, begin_number, finalized_number)->Ok_0->Some_0;
                                let b = cp.0;
                                let j = choose|j: int| #![trigger cps[j]] 0 <= j < cps.len() && cps[j].block == b
                                    && answer(l.canonical_hash, b.number) == Ok::<Option<Hash256>, Error>(Some(b.hash));
                                assert(answer(l.header, b.hash) == Ok::<Option<FragmentHeader>, Error>(Some(hd)));
                                assert(hd.block.hash == b.hash);
                                assert(hd.block.number == b.number);
                                assert(hd.block == b);
                                lemma_checkpoint_present(cps, j);
                                assert(hard_forks is AuthoritySetHardForks);
                                assert(spec_hard_forked_authorities(hard_forks, hd.block) is Some);
                            },
                            None => {
                                lemma_walk_keeps_changes(l.canonical_hash, l.header, l.justification, l.fragment_size, c1, changes, changes.len() as int, 0);
                            },
                        }
                    },
                    _ => {},
                }
            },
            _ => {},
        },
        _ => {},
    }
}

/// What is generated verifies, also across configured checkpoints: in a chain whose lookups
/// agree and whose canonical headers carry their numbers, a generated proof whose justifications
/// are all accepted verifies, from any starting set, and ends at the set in charge after it as
/// the verifier follows it through the configured checkpoints and scheduled changes.
pub proof fn lemma_generated_proof_verifies_with_hard_forks<J, FN, FH, FD, FJ, FS, FA, FB, FL>(
    l: ChainLookups<FN, FH, FD, FJ, FS, FA, FB, FL>,
    begin: Hash256,
    finalized_number: u64,
    hard_forks: HardForks,
    set_id: u64,
    authorities: Seq<Authority>,
    checks: Seq<Result<(), String>>,
) where
    FN: Fn(Hash256) -> Result<Option<u64>, Error>,
    FH: Fn(u64) -> Result<Option<Hash256>, Error>,
    FD: Fn(Hash256) -> Result<Option<FragmentHeader>, Error>,
    FJ: Fn(Hash256) -> Result<Option<(J, BlockRef)>, Error>,
    FS: Fn(&WarpSyncFragment<J>) -> usize,
    FA: Fn((u64, u64)) -> Option<Vec<u64>>,
    FB: Fn(u64) -> Option<Vec<u64>>,
    FL: Fn() -> Result<Option<(J, BlockRef)>, Error>,

    requires
        lookups_agree(l),
        headers_numbered(l),
        generate_spec(l, begin, finalized_number, hard_forks) matches Ok((proofs, _)) && checks.len() == proofs.len(),
        forall|i: int| 0 <= i < checks.len() ==> (#[trigger] checks[i]) is Ok,
    ensures
        generate_spec(l, begin, finalized_number, hard_forks) matches Ok((proofs, is_finished))
            && verify_prefix(proofs, is_finished, hard_forks, set_id, authorities, checks, proofs.len() as int)
                == Ok::<(u64, Seq<Authority>), ProofFailure>(set_after_with_hard_forks(hard_forks, proofs, set_id, authorities, proofs.len() as int)),
{
    lemma_generated_targets_match(l, begin, finalized_number, hard_forks);
    lemma_generated_fragments_carry_changes(l, begin, finalized_number, hard_forks);
    lemma_generated_first_fragment(l, begin, finalized_number, hard_forks);
    match generate_spec(l, begin, finalized_number, hard_forks) {
        Ok((proofs, is_finished)) => {
            assert forall|i: int| 0 <= i < proofs.len() implies {
                ||| (#[trigger] proofs[i]).header.scheduled_change is Some
                ||| spec_hard_forked_authorities(hard_forks, proofs[i].header.block) is Some
                ||| i == proofs.len() - 1 && is_finished
            } by {}
            lemma_accepted_proof_verifies_with_hard_forks(hard_forks, proofs, is_finished, set_id, authorities, checks);
        },
        Err(_) => {},
    }
}

/// Checkpoint `c` lies after the start block, at or below the finalized block, and is the
/// canonical block at its number.
pub open spec fn canonical_checkpoint<FH: Fn(u64) -> Result<Option<Hash256>, Error>>(
    canonical_hash: FH,
    c: Checkpoint,
    begin_number: u64,
    finalized_number: u64,
) -> bool {
    &&& begin_number < c.block.number <= finalized_number
    &&& answer(canonical_hash, c.block.number) == Ok::<Option<Hash256>, Error>(Some(c.block.hash))
}

proof fn lemma_latest_is_highest<FH: Fn(u64) -> Result<Option<Hash256>, Error>>(
    canonical_hash: FH,
    checkpoints: Seq<Checkpoint>,
    k: int,
    begin_number: u64,
    finalized_number: u64,
)
    requires
        k <= checkpoints.len(),
    ensures
        latest_checkpoint(canonical_hash, checkpoints, k, begin_number, finalized_number) matches Ok(best) ==>
            forall|j: int| 0 <= j < k && canonical_checkpoint(canonical_hash, #[trigger] checkpoints[j], begin_number, finalized_number)
                ==> best is Some && checkpoints[j].block.number <= best.unwrap().0.number,
    decreases k,
{
    if k > 0 {
        lemma_latest_is_highest(canonical_hash, checkpoints, k - 1, begin_number, finalized_number);
        match latest_checkpoint(canonical_hash, checkpoints, k - 1, begin_number, finalized_number) {
            Ok(best) => {
                let c = checkpoints[k - 1];
                match latest_checkpoint(canonical_hash, checkpoints, k, begin_number, finalized_number) {
                    Ok(best2) => {
                        assert forall|j: int| 0 <= j < k && canonical_checkpoint(canonical_hash, #[trigger] checkpoints[j], begin_number, finalized_number)
                            implies best2 is Some && checkpoints[j].block.number <= best2.unwrap().0.number by {
                            if j < k - 1 {
                                assert(best is Some);
                            }
                        }
                    },
                    _ => {},
                }
            },
            _ => {},
        }
    }
}

/// The block that a found justification targets.
pub open spec fn found_target<J>(r: Result<Option<(J, BlockRef)>, Error>) -> Option<BlockRef> {
    match r {
        Ok(Some((_, t))) => Some(t),
        _ => None,
    }
}

/// The header found.
pub open spec fn found_header(r: Result<Option<FragmentHeader>, Error>) -> Option<FragmentHeader> {
    match r {
        Ok(Some(hd)) => Some(hd),
        _ => None,
    }
}

/// A justification found by a block's hash targets a block of that block's number.
pub open spec fn targets_numbered<J, FD, FJ>(header: FD, justification: FJ) -> bool where
    FD: Fn(Hash256) -> Result<Option<FragmentHeader>, Error>,
    FJ: Fn(Hash256) -> Result<Option<(J, BlockRef)>, Error>,
 {
    forall|h: Hash256|
        #![trigger answer(justification, h), answer(header, h)]
        found_target(answer(justification, h)) is Some && found_header(answer(header, h)) is Some
            ==> found_target(answer(justification, h)).unwrap().number == found_header(answer(header, h)).unwrap().block.number
}

/// The recorded changes after a block all lie above it.
pub open spec fn changes_after_later<FA: Fn((u64, u64)) -> Option<Vec<u64>>>(changes_after: FA) -> bool {
    forall|x: (u64, u64), i: int|
        #![trigger answer(changes_after, x).unwrap()@[i]]
        answer(changes_after, x) is Some && 0 <= i < answer(changes_after, x).unwrap()@.len()
            ==> answer(changes_after, x).unwrap()@[i] > x.1
}

/// The best justification targets a canonical block.
pub open spec fn best_target_canonical<J, FH, FL>(canonical_hash: FH, best_justification: FL) -> bool where
    FH: Fn(u64) -> Result<Option<Hash256>, Error>,
    FL: Fn() -> Result<Option<(J, BlockRef)>, Error>,
 {
    found_target(answer0(best_justification)) is Some ==> answer(
        canonical_hash,
        found_target(answer0(best_justification)).unwrap().number,
    ) == Ok::<Option<Hash256>, Error>(Some(found_target(answer0(best_justification)).unwrap().hash))
}

/// Every fragment lies at or above block number `n`, and its justification targets a block of
/// the fragment's number.
pub open spec fn numbered_from<J>(proofs: Seq<WarpSyncFragment<J>>, n: u64) -> bool {
    forall|i: int| 0 <= i < proofs.len() ==> {
        &&& (#[trigger] proofs[i]).header.block.number >= n
        &&& proofs[i].justification_target.number == proofs[i].header.block.number
    }
}

proof fn lemma_push_numbered<J, FD, FJ, FS>(
    header: FD,
    justification: FJ,
    fragment_size: FS,
    c: Collected<J>,
    hd: FragmentHeader,
    n: u64,
) where
    FD: Fn(Hash256) -> Result<Option<FragmentHeader>, Error>,
    FJ: Fn(Hash256) -> Result<Option<(J, BlockRef)>, Error>,
    FS: Fn(&WarpSyncFragment<J>) -> usize,

    requires
        numbered_from(c.proofs, n),
        hd.block.number >= n,
        answer(header, hd.block.hash) == Ok::<Option<FragmentHeader>, Error>(Some(hd)),
        targets_numbered(header, justification),
    ensures
        push_fragment_spec(justification, fragment_size, c, hd) matches Ok(c2) ==> numbered_from(c2.proofs, n),
{
    match answer(justification, hd.block.hash) {
        Ok(Some((j, t))) => {
            assert(found_target(answer(justification, hd.block.hash)) is Some);
            assert(found_header(answer(header, hd.block.hash)) is Some);
            let f = WarpSyncFragment { header: hd, justification: j, justification_target: t };
            let pushed = c.proofs.push(f);
            assert forall|i: int| 0 <= i < pushed.len() implies {
                &&& (#[trigger] pushed[i]).header.block.number >= n
                &&& pushed[i].justification_target.number == pushed[i].header.block.number
            } by {
                if i < c.proofs.len() {
                    assert(pushed[i] == c.proofs[i]);
                }
            }
        },
        _ => {},
    }
}

proof fn lemma_walk_numbered<J, FH, FD, FJ, FS>(
    canonical_hash: FH,
    header: FD,
    justification: FJ,
    fragment_size: FS,
    c: Collected<J>,
    changes: Seq<u64>,
    k: int,
    n: u64,
) where
    FH: Fn(u64) -> Result<Option<Hash256>, Error>,
    FD: Fn(Hash256) -> Result<Option<FragmentHeader>, Error>,
    FJ: Fn(Hash256) -> Result<Option<(J, BlockRef)>, Error>,
    FS: Fn(&WarpSyncFragment<J>) -> usize,

    requires
        numbered_from(c.proofs, n),
        forall|i: int| 0 <= i < changes.len() ==> #[trigger] changes[i] > n,
        header_hashes_agree(header),
        canonical_headers_numbered(canonical_hash, header),
        targets_numbered(header, justification),
        k <= changes.len(),
    ensures
        walk_spec(canonical_hash, header, justification, fragment_size, c, changes, k) matches Ok((c2, _))
            ==> numbered_from(c2.proofs, n),
    decreases k,
{
    if k > 0 {
        lemma_walk_numbered(canonical_hash, header, justification, fragment_size, c, changes, k - 1, n);
        match walk_spec(canonical_hash, header, justification, fragment_size, c, changes, k - 1) {
            Ok((c2, false)) => match answer(canonical_hash, changes[k - 1]) {
                Ok(Some(hash)) => match answer(header, hash) {
                    Ok(Some(hd)) => {
                        assert(changes[k - 1] > n);
                        assert(hd.block.number == changes[k - 1]);
                        assert(hd.block.hash == hash);
                        lemma_push_numbered(header, justification, fragment_size, c2, hd, n);
                    },
                    _ => {},
                },
                _ => {},
            },
            _ => {},
        }
    }
}

/// A proof is closed as finished only if nothing was left out for size: where the best
/// justification targets `t`, a finished proof holds a fragment whose justification target is at
/// or above `t` as its last one (the best justification itself, where it proved more than the
/// fragments collected), or, with no fragment, `t` lies below the start block.
pub proof fn lemma_finished_proof_keeps_best_justification<J, FD, FS, FL>(
    header: FD,
    fragment_size: FS,
    best_justification: FL,
    c: Collected<J>,
    begin_number: u64,
    j: J,
    t: BlockRef,
) where
    FD: Fn(Hash256) -> Result<Option<FragmentHeader>, Error>,
    FS: Fn(&WarpSyncFragment<J>) -> usize,
    FL: Fn() -> Result<Option<(J, BlockRef)>, Error>,

    requires
        answer0(best_justification) == Ok::<Option<(J, BlockRef)>, Error>(Some((j, t))),
    ensures
        finish_spec(header, fragment_size, best_justification, c, begin_number) matches Ok((proofs, true))
            ==> {
            &&& proofs.len() > 0 ==> t.number <= proofs.last().justification_target.number
            &&& proofs.len() == 0 ==> t.number < begin_number
        },
{
    if !c.limit_reached && extends_proof(c.proofs, t, begin_number) {
        match answer(header, t.hash) {
            Ok(Some(hd)) => {
                let f = WarpSyncFragment { header: hd, justification: j, justification_target: t };
                assert(c.proofs.push(f).last() == f);
            },
            _ => {},
        }
    }
}

/// Closing a proof keeps the fragments collected and adds at most one: the best justification,
/// only where it proves more than them (its target lies above the last one's, or, with none, at
/// or above the start block), only where it fits under the size limit, and then the proof is
/// finished. A proof whose collection already reached the size limit is not finished.
pub proof fn lemma_closing_adds_only_best_justification<J, FD, FS, FL>(
    header: FD,
    fragment_size: FS,
    best_justification: FL,
    c: Collected<J>,
    begin_number: u64,
) where
    FD: Fn(Hash256) -> Result<Option<FragmentHeader>, Error>,
    FS: Fn(&WarpSyncFragment<J>) -> usize,
    FL: Fn() -> Result<Option<(J, BlockRef)>, Error>,

    ensures
        finish_spec(header, fragment_size, best_justification, c, begin_number) matches Ok((proofs, finished)) ==> {
            &&& c.limit_reached ==> !finished && proofs == c.proofs
            &&& proofs == c.proofs || {
                &&& proofs.len() == c.proofs.len() + 1
                &&& proofs.take(c.proofs.len() as int) == c.proofs
                &&& finished
                &&& answer0(best_justification) matches Ok(Some((j, t)))
                &&& proofs.last().justification == j
                &&& proofs.last().justification_target == t
                &&& c.proofs.len() > 0 ==> t.number > c.proofs.last().justification_target.number
                &&& c.proofs.len() == 0 ==> t.number >= begin_number
                &&& c.encoded_len + size_answer(fragment_size, proofs.last()) < MAX_WARP_SYNC_PROOF_SIZE - PROOF_SIZE_MARGIN
            }
        },
{
    if !c.limit_reached {
        match answer0(best_justification) {
            Ok(Some((j, t))) => {
                if extends_proof(c.proofs, t, begin_number) {
                    match answer(header, t.hash) {
                        Ok(Some(hd)) => {
                            let f = WarpSyncFragment { header: hd, justification: j, justification_target: t };
                            assert(c.proofs.push(f).last() == f);
                            assert(c.proofs.push(f).take(c.proofs.len() as int) =~= c.proofs);
                        },
                        _ => {},
                    }
                }
            },
            _ => {},
        }
    }
}

/// A generated proof is finished only if nothing was left out for size: where the start block is
/// at `begin_number` and the best justification targets `t`, a finished proof either ends with a
/// fragment whose justification target is at or above `t` (the best justification itself, where
/// it proves more than the authority set changes), or has no fragment and `t` lies below the
/// start block.
pub proof fn lemma_finished_generated_proof_keeps_best_justification<J, FN, FH, FD, FJ, FS, FA, FB, FL>(
    l: ChainLookups<FN, FH, FD, FJ, FS, FA, FB, FL>,
    begin: Hash256,
    finalized_number: u64,
    hard_forks: HardForks,
    begin_number: u64,
    j: J,
    t: BlockRef,
) where
    FN: Fn(Hash256) -> Result<Option<u64>, Error>,
    FH: Fn(u64) -> Result<Option<Hash256>, Error>,
    FD: Fn(Hash256) -> Result<Option<FragmentHeader>, Error>,
    FJ: Fn(Hash256) -> Result<Option<(J, BlockRef)>, Error>,
    FS: Fn(&WarpSyncFragment<J>) -> usize,
    FA: Fn((u64, u64)) -> Option<Vec<u64>>,
    FB: Fn(u64) -> Option<Vec<u64>>,
    FL: Fn() -> Result<Option<(J, BlockRef)>, Error>,

    requires
        answer(l.block_number, begin) == Ok::<Option<u64>, Error>(Some(begin_number)),
        answer0(l.best_justification) == Ok::<Option<(J, BlockRef)>, Error>(Some((j, t))),
    ensures
        generate_spec(l, begin, finalized_number, hard_forks) matches Ok((proofs, true)) ==> {
            &&& proofs.len() > 0 ==> t.number <= proofs.last().justification_target.number
            &&& proofs.len() == 0 ==> t.number < begin_number
        },
{
    match start_spec(l.block_number, l.canonical_hash, begin, finalized_number) {
        Ok(bn) => {
            assert(bn == begin_number);
            match plan_spec(l.canonical_hash, l.header, l.changes_after, l.changes_from, hard_forks, bn, finalized_number) {
                Ok((checkpoint, changes)) => {
                    let c0 = Collected { proofs: Seq::<WarpSyncFragment<J>>::empty(), encoded_len: 0, limit_reached: false };
                    let c1 = match checkpoint {
                        None => Ok(c0),
                        Some(hd) => push_fragment_spec(l.justification, l.fragment_size, c0, hd),
                    };
                    match c1 {
                        Ok(c1) => match walk_spec(l.canonical_hash, l.header, l.justification, l.fragment_size, c1, changes, changes.len() as int) {
                            Ok((c2, _)) => {
                                lemma_finished_proof_keeps_best_justification(l.header, l.fragment_size, l.best_justification, c2, bn, j, t);
                            },
                            _ => {},
                        },
                        _ => {},
                    }
                },
                _ => {},
            }
        },
        _ => {},
    }
}

/// The latest checkpoint leads the proof: where the chain's lookups agree (the header looked up
/// by a hash has that hash, the canonical header at a number has that number, a justification
/// targets a block of its block's number, recorded changes after a block lie above it, and the
/// best justification targets a canonical block), a generated proof whose start block is at
/// `begin_number` opens with the highest canonical configured checkpoint above the start
/// block and at or below the finalized one (the `j`-th), and has no fragment below it.
pub proof fn lemma_latest_checkpoint_leads<J, FN, FH, FD, FJ, FS, FA, FB, FL>(
    l: ChainLookups<FN, FH, FD, FJ, FS, FA, FB, FL>,
    begin: Hash256,
    finalized_number: u64,
    hard_forks: HardForks,
    begin_number: u64,
    j: int,
) where
    FN: Fn(Hash256) -> Result<Option<u64>, Error>,
    FH: Fn(u64) -> Result<Option<Hash256>, Error>,
    FD: Fn(Hash256) -> Result<Option<FragmentHeader>, Error>,
    FJ: Fn(Hash256) -> Result<Option<(J, BlockRef)>, Error>,
    FS: Fn(&WarpSyncFragment<J>) -> usize,
    FA: Fn((u64, u64)) -> Option<Vec<u64>>,
    FB: Fn(u64) -> Option<Vec<u64>>,
    FL: Fn() -> Result<Option<(J, BlockRef)>, Error>,

    requires
        header_hashes_agree(l.header),
        headers_numbered(l),
        targets_numbered(l.header, l.justification),
        changes_after_later(l.changes_after),
        best_target_canonical(l.canonical_hash, l.best_justification),
        answer(l.block_number, begin) == Ok::<Option<u64>, Error>(Some(begin_number)),
        0 <= j < configured_checkpoints(hard_forks).len(),
        canonical_checkpoint(l.canonical_hash, configured_checkpoints(hard_forks)[j], begin_number, finalized_number),
        forall|k: int|
            0 <= k < configured_checkpoints(hard_forks).len() && canonical_checkpoint(
                l.canonical_hash,
                #[trigger] configured_checkpoints(hard_forks)[k],
                begin_number,
                finalized_number,
            ) ==> configured_checkpoints(hard_forks)[k].block.number <= configured_checkpoints(hard_forks)[j].block.number,
    ensures
        generate_spec(l, begin, finalized_number, hard_forks) matches Ok((proofs, _)) ==> (proofs.len() > 0 ==> {
            &&& proofs[0].header.block == configured_checkpoints(hard_forks)[j].block
            &&& forall|i: int| 0 <= i < proofs.len() ==> (#[trigger] proofs[i]).header.block.number
                >= configured_checkpoints(hard_forks)[j].block.number
        }),
{
    let cps = configured_checkpoints(hard_forks);
    let top = cps[j];
    let n = top.block.number;
    match start_spec(l.block_number, l.canonical_hash, begin, finalized_number) {
        Ok(bn) => {
            assert(bn == begin_number);
            lemma_latest_is_highest(l.canonical_hash, cps, cps.len() as int, begin_number, finalized_number);
            lemma_latest_is_configured(l.canonical_hash, cps, cps.len() as int, begin_number, finalized_number);
            match latest_checkpoint(l.canonical_hash, cps, cps.len() as int, begin_number, finalized_number) {
                Ok(best) => {
                    assert(best is Some);
                    let (b, set_id) = best.unwrap();
                    let j3 = choose|j3: int| #![trigger cps[j3]] 0 <= j3 < cps.len() && cps[j3].block == b
                        && answer(l.canonical_hash, b.number) == Ok::<Option<Hash256>, Error>(Some(b.hash))
                        && begin_number < b.number <= finalized_number;
                    assert(canonical_checkpoint(l.canonical_hash, cps[j3], begin_number, finalized_number));
                    assert(b.number == n);
                    assert(b.hash == top.block.hash);
                    assert(b == top.block);
                    match plan_spec(l.canonical_hash, l.header, l.changes_after, l.changes_from, hard_forks, begin_number, finalized_number) {
                        Ok((checkpoint, changes)) => {
                            let hd = checkpoint.unwrap();
                            assert(answer(l.header, b.hash) == Ok::<Option<FragmentHeader>, Error>(Some(hd)));
                            assert(hd.block.hash == b.hash);
                            assert(hd.block.number == b.number);
                            assert(hd.block == b);
                            let next = expected_set_id(hd, set_id).unwrap();
                            assert(answer(l.changes_after, (next, b.number)) is Some);
                            assert(changes == answer(l.changes_after, (next, b.number)).unwrap()@);
                            assert forall|i: int| 0 <= i < changes.len() implies #[trigger] changes[i] > n by {
                                assert(answer(l.changes_after, (next, b.number)).unwrap()@[i] > (next, b.number).1);
                            }
                            let c0 = Collected { proofs: Seq::<WarpSyncFragment<J>>::empty(), encoded_len: 0, limit_reached: false };
                            lemma_push_numbered(l.header, l.justification, l.fragment_size, c0, hd, n);
                            match push_fragment_spec(l.justification, l.fragment_size, c0, hd) {
                                Ok(c1) => {
                                    lemma_walk_numbered(l.canonical_hash, l.header, l.justification, l.fragment_size, c1, changes, changes.len() as int, n);
                                    lemma_walk_keeps_prefix(l.canonical_hash, l.header, l.justification, l.fragment_size, c1, changes, changes.len() as int);
                                    if c1.limit_reached {
                                        lemma_walk_settled(l.canonical_hash, l.header, l.justification, l.fragment_size, c1, changes, 0, changes.len() as int);
                                    }
                                    match walk_spec(l.canonical_hash, l.header, l.justification, l.fragment_size, c1, changes, changes.len() as int) {
                                        Ok((c2, _)) => {
                                            if !c2.limit_reached {
                                                assert(!c1.limit_reached);
                                                assert(c1.proofs.len() == 1);
                                                assert(c1.proofs[0].header == hd);
                                                assert(c2.proofs[0] == c1.proofs[0]);
                                                match answer0(l.best_justification) {
                                                    Ok(Some((jj, t))) => {
                                                        if extends_proof(c2.proofs, t, begin_number) {
                                                            assert(found_target(answer0(l.best_justification)) is Some);
                                                            let last = c2.proofs.last();
                                                            assert(last == c2.proofs[c2.proofs.len() - 1]);
                                                            assert(t.number > n);
                                                            match answer(l.header, t.hash) {
                                                                Ok(Some(hdf)) => {
                                                                    assert(hdf.block.number == t.number);
                                                                    let f = WarpSyncFragment { header: hdf, justification: jj, justification_target: t };
                                                                    let pushed = c2.proofs.push(f);
                                                                    assert forall|i: int| 0 <= i < pushed.len() implies (#[trigger] pushed[i]).header.block.number >= n by {
                                                                        if i < c2.proofs.len() {
                                                                            assert(pushed[i] == c2.proofs[i]);
                                                                        }
                                                                    }
                                                                    assert(pushed[0] == c2.proofs[0]);
                                                                },
                                                                _ => {},
                                                            }
                                                        }
                                                    },
                                                    _ => {},
                                                }
                                            }
                                        },
                                        _ => {},
                                    }
                                },
                                _ => {},
                            }
                        },
                        _ => {},
                    }
                },
                _ => {},
            }
        },
        _ => {},
    }
}

} // verus!
