//! Verifying GRANDPA warp sync proofs: following the authority set from one finalized
//! authority-set change to the next, with configured hard forks.
use vstd::prelude::*;
use crate::hash::Hash256;

verus! {

/// A GRANDPA authority: its public key and voting weight.
#[derive(PartialEq, Eq, Structural, Clone, Copy, Debug)]
pub struct Authority {
    pub id: Hash256,
    pub weight: u64,
}

/// A block named by hash and number.
#[derive(PartialEq, Eq, Structural, Clone, Copy, Debug)]
pub struct BlockRef {
    pub hash: Hash256,
    pub number: u64,
}

/// A configured authority set that takes over at a given block.
pub struct AuthoritySetHardFork {
    /// The set id of the authority set.
    pub set_id: u64,
    /// The block at which the set takes over.
    pub block: BlockRef,
    /// The authorities of the set.
    pub authorities: Vec<Authority>,
    /// The last finalized block, if known.
    pub last_finalized: Option<u64>,
}

/// One configured checkpoint: the set id and authorities at a block.
pub struct Checkpoint {
    pub block: BlockRef,
    pub set_id: u64,
    pub authorities: Vec<Authority>,
}

/// The data needed to verify a warp sync proof across hard forks.
pub enum HardForks {
    /// New authorities and set id by block hash and number; each block occurs at most once.
    AuthoritySetHardForks { hard_forks: Vec<Checkpoint> },
    /// A new initial set id for GRANDPA block import.
    ReinitializeSetId { new_set_id: u64 },
}

/// Warp proof processing error.
#[derive(PartialEq, Eq, Debug)]
pub enum Error {
    /// Decoding error, with the decoder's message.
    DecodeScale(String),
    /// Client backend error, with the backend's message.
    Client(String),
    /// Invalid request data.
    InvalidRequest(String),
    /// Invalid warp proof.
    InvalidProof(String),
    /// Missing header or authority set change data.
    MissingData,
}

/// The last checkpoint in `s` at block `b`.
pub open spec fn checkpoint_at(s: Seq<Checkpoint>, b: BlockRef) -> Option<(u64, Seq<Authority>)>
    decreases s.len(),
{
    if s.len() == 0 {
        None
    } else if s.last().block == b {
        Some((s.last().set_id, s.last().authorities@))
    } else {
        checkpoint_at(s.drop_last(), b)
    }
}

/// The blocks of `s` are distinct.
pub open spec fn distinct_blocks(s: Seq<Checkpoint>) -> bool {
    forall|i: int, j: int| 0 <= i < j < s.len() ==> s[i].block != s[j].block
}

/// The hard forks are well formed: no block is configured twice.
pub open spec fn hard_forks_wf(hf: HardForks) -> bool {
    match hf {
        HardForks::AuthoritySetHardForks { hard_forks } => distinct_blocks(hard_forks@),
        HardForks::ReinitializeSetId { .. } => true,
    }
}

/// The set id and authorities configured for block `b`.
pub open spec fn spec_hard_forked_authorities(hf: HardForks, b: BlockRef) -> Option<
    (u64, Seq<Authority>),
> {
    match hf {
        HardForks::AuthoritySetHardForks { hard_forks } => checkpoint_at(hard_forks@, b),
        HardForks::ReinitializeSetId { .. } => None,
    }
}

/// The configured new initial set id.
pub open spec fn spec_new_initial_set_id(hf: HardForks) -> Option<u64> {
    match hf {
        HardForks::AuthoritySetHardForks { .. } => None,
        HardForks::ReinitializeSetId { new_set_id } => Some(new_set_id),
    }
}

/// A copy of an authority list.
pub fn copy_authorities(list: &Vec<Authority>) -> (r: Vec<Authority>)
    ensures
        r@ == list@,
{
    let mut r: Vec<Authority> = Vec::new();
    let mut i: usize = 0;
    while i < list.len()
        invariant
            i <= list.len(),
            r@ == list@.take(i as int),
        decreases list.len() - i,
    {
        r.push(list[i]);
        i = i + 1;
        proof {
            assert(r@ =~= list@.take(i as int));
        }
    }
    proof {
        assert(list@.take(i as int) =~= list@);
    }
    r
}

/// Place checkpoint `c` into a list of distinct checkpoints, replacing one at the same block.
fn put_checkpoint(list: &mut Vec<Checkpoint>, c: Checkpoint)
    requires
        distinct_blocks(old(list)@),
    ensures
        distinct_blocks(final(list)@),
        forall|b: BlockRef| #[trigger]
            checkpoint_at(final(list)@, b) == if b == c.block {
                Some((c.set_id, c.authorities@))
            } else {
                checkpoint_at(old(list)@, b)
            },
{
    let ghost before = list@;
    let mut i: usize = 0;
    while i < list.len()
        invariant
            list@ == before,
            before == old(list)@,
            distinct_blocks(before),
            i <= list@.len(),
            forall|k: int| 0 <= k < i ==> list@[k].block != c.block,
        decreases list@.len() - i,
    {
        if list[i].block == c.block {
            let _ = list.remove(i);
            proof {
                lemma_checkpoint_at_without(before, i as int);
            }
            list.push(c);
            proof {
                assert(list@.drop_last() == before.remove(i as int));
                assert forall|x: int, y: int| 0 <= x < y < list@.len() implies list@[x].block
                    != list@[y].block by {
                    if y == list@.len() - 1 {
                        if x < i {
                        } else {
                            assert(list@[x] == before[x + 1]);
                        }
                    } else {
                        assert(list@[x] == before.remove(i as int)[x]);
                        assert(list@[y] == before.remove(i as int)[y]);
                    }
                }
                assert forall|b: BlockRef| #[trigger]
                    checkpoint_at(list@, b) == if b == c.block {
                        Some((c.set_id, c.authorities@))
                    } else {
                        checkpoint_at(before, b)
                    } by {
                    if b != c.block {
                        assert(checkpoint_at(list@, b) == checkpoint_at(list@.drop_last(), b));
                        assert(checkpoint_at(before.remove(i as int), b) == checkpoint_at(
                            before,
                            b,
                        ));
                    }
                }
            }
            return;
        }
        i = i + 1;
    }
    list.push(c);
    proof {
        assert(list@.drop_last() == before);
        assert forall|b: BlockRef| #[trigger]
            checkpoint_at(list@, b) == if b == c.block {
                Some((c.set_id, c.authorities@))
            } else {
                checkpoint_at(before, b)
            } by {
            if b != c.block {
                assert(checkpoint_at(list@, b) == checkpoint_at(list@.drop_last(), b));
            }
        }
    }
}

/// Removing a checkpoint from a list of distinct blocks leaves the other lookups unchanged.
proof fn lemma_checkpoint_at_without(s: Seq<Checkpoint>, i: int)
    requires
        0 <= i < s.len(),
        distinct_blocks(s),
    ensures
        distinct_blocks(s.remove(i)),
        forall|b: BlockRef|
            b != s[i].block ==> #[trigger] checkpoint_at(s.remove(i), b) == checkpoint_at(s, b),
        checkpoint_at(s.remove(i), s[i].block) is None,
    decreases s.len(),
{
    if i == s.len() - 1 {
        assert(s.remove(i) =~= s.drop_last());
        lemma_checkpoint_absent(s.drop_last(), s[i].block);
    } else {
        lemma_checkpoint_at_without(s.drop_last(), i);
        assert(s.remove(i).drop_last() =~= s.drop_last().remove(i));
        assert(s.remove(i).last() == s.last());
        assert forall|b: BlockRef| b != s[i].block implies #[trigger] checkpoint_at(s.remove(i), b)
            == checkpoint_at(s, b) by {
            assert(s.drop_last()[i] == s[i]);
            assert(checkpoint_at(s.drop_last().remove(i), b) == checkpoint_at(s.drop_last(), b));
            if s.last().block != b {
                assert(checkpoint_at(s.remove(i), b) == checkpoint_at(s.remove(i).drop_last(), b));
            }
        }
        assert(s.drop_last()[i] == s[i]);
        assert(s.last().block != s[i].block);
    }
}

/// A block that no checkpoint names has no checkpoint.
proof fn lemma_checkpoint_absent(s: Seq<Checkpoint>, b: BlockRef)
    requires
        forall|k: int| 0 <= k < s.len() ==> s[k].block != b,
    ensures
        checkpoint_at(s, b) is None,
    decreases s.len(),
{
    if s.len() > 0 {
        lemma_checkpoint_absent(s.drop_last(), b);
    }
}

impl HardForks {
    /// Hard forks for the given configured authority sets; where a block is configured more
    /// than once, the last configuration counts.
    pub fn new_hard_forked_authorities(hard_forks: Vec<AuthoritySetHardFork>) -> (r: HardForks)
        ensures
            hard_forks_wf(r),
            spec_new_initial_set_id(r) is None,
            forall|b: BlockRef| #[trigger]
                spec_hard_forked_authorities(r, b) == last_configured(hard_forks@, b),
    {
        let mut list: Vec<Checkpoint> = Vec::new();
        let mut forks = hard_forks;
        let ghost all = forks@;
        let ghost mut k: int = 0;
        proof {
            assert forall|b: BlockRef| #[trigger] checkpoint_at(list@, b) == last_configured(
                all.take(0),
                b,
            ) by {
                assert(all.take(0) =~= Seq::<AuthoritySetHardFork>::empty());
            }
            assert(forks@ =~= all.skip(0));
        }
        while forks.len() > 0
            invariant
                0 <= k <= all.len(),
                forks@ == all.skip(k),
                distinct_blocks(list@),
                forall|b: BlockRef| #[trigger]
                    checkpoint_at(list@, b) == last_configured(all.take(k), b),
            decreases forks.len(),
        {
            let fork = forks.remove(0);
            proof {
                assert(fork == all[k]);
                assert(all.take(k + 1).drop_last() =~= all.take(k));
                assert(all.take(k + 1).last() == all[k]);
            }
            put_checkpoint(
                &mut list,
                Checkpoint { block: fork.block, set_id: fork.set_id, authorities: fork.authorities },
            );
            proof {
                k = k + 1;
                assert(forks@ =~= all.skip(k));
            }
        }
        proof {
            assert(all.take(k) =~= all);
        }
        HardForks::AuthoritySetHardForks { hard_forks: list }
    }

    /// Hard forks that only set a new initial set id.
    pub fn new_initial_set_id(set_id: u64) -> (r: HardForks)
        ensures
            r == (HardForks::ReinitializeSetId { new_set_id: set_id }),
            spec_new_initial_set_id(r) == Some(set_id),
    {
        HardForks::ReinitializeSetId { new_set_id: set_id }
    }

    /// The set id and authorities configured for `block`.
    pub fn get_hard_forked_authorities(&self, block: &BlockRef) -> (r: Option<(u64, Vec<Authority>)>)
        ensures
            match r {
                Some((id, list)) => spec_hard_forked_authorities(*self, *block) == Some(
                    (id, list@),
                ),
                None => spec_hard_forked_authorities(*self, *block) is None,
            },
    {
        match self {
            HardForks::AuthoritySetHardForks { hard_forks } => {
                let mut i = hard_forks.len();
                proof {
                    assert(hard_forks@.take(i as int) =~= hard_forks@);
                }
                while i > 0
                    invariant
                        i <= hard_forks@.len(),
                        spec_hard_forked_authorities(*self, *block) == checkpoint_at(
                            hard_forks@,
                            *block,
                        ),
                        checkpoint_at(hard_forks@, *block) == checkpoint_at(
                            hard_forks@.take(i as int),
                            *block,
                        ),
                    decreases i,
                {
                    proof {
                        assert(hard_forks@.take(i as int).drop_last() =~= hard_forks@.take(
                            i - 1,
                        ));
                        assert(hard_forks@.take(i as int).last() == hard_forks@[i - 1]);
                    }
                    if hard_forks[i - 1].block == *block {
                        proof {
                            assert(checkpoint_at(hard_forks@.take(i as int), *block) == Some(
                                (hard_forks@[i - 1].set_id, hard_forks@[i - 1].authorities@),
                            ));
                        }
                        let list = copy_authorities(&hard_forks[i - 1].authorities);
                        proof {
                            assert(spec_hard_forked_authorities(*self, *block) == checkpoint_at(
                                hard_forks@,
                                *block,
                            ));
                        }
                        return Some((hard_forks[i - 1].set_id, list));
                    }
                    i = i - 1;
                }
                None
            },
            HardForks::ReinitializeSetId { .. } => None,
        }
    }

    /// The configured new initial set id.
    pub fn get_new_initial_set_id(&self) -> (r: Option<u64>)
        ensures
            r == spec_new_initial_set_id(*self),
    {
        match self {
            HardForks::AuthoritySetHardForks { .. } => None,
            HardForks::ReinitializeSetId { new_set_id } => Some(*new_set_id),
        }
    }

    /// The configured checkpoints, where there are any.
    pub fn authority_set_checkpoints(&self) -> (r: Option<&Vec<Checkpoint>>)
        ensures
            match *self {
                HardForks::AuthoritySetHardForks { hard_forks } => r == Some(&hard_forks),
                HardForks::ReinitializeSetId { .. } => r is None,
            },
    {
        match self {
            HardForks::AuthoritySetHardForks { hard_forks } => Some(hard_forks),
            HardForks::ReinitializeSetId { .. } => None,
        }
    }
}

/// The last configuration in `s` for block `b`.
pub open spec fn last_configured(s: Seq<AuthoritySetHardFork>, b: BlockRef) -> Option<
    (u64, Seq<Authority>),
>
    decreases s.len(),
{
    if s.len() == 0 {
        None
    } else if s.last().block == b {
        Some((s.last().set_id, s.last().authorities@))
    } else {
        last_configured(s.drop_last(), b)
    }
}

} // verus!

verus! {

/// What a fragment's header tells the verifier.
pub struct FragmentHeader {
    /// The block the header belongs to.
    pub block: BlockRef,
    /// The next authorities, where the header carries a scheduled authority set change.
    pub scheduled_change: Option<Vec<Authority>>,
}

/// A proof of one authority set change: the last block a set finalized, and its justification.
pub struct WarpSyncFragment<J> {
    /// The header of the last block the authority set finalized.
    pub header: FragmentHeader,
    /// The justification that proves the block's finality.
    pub justification: J,
    /// The block that the justification targets.
    pub justification_target: BlockRef,
}

/// An accumulated proof of multiple authority set changes.
pub struct WarpSyncProof<J> {
    pub proofs: Vec<WarpSyncFragment<J>>,
    pub is_finished: bool,
}

/// Why verification of a warp sync proof fails.
pub enum ProofFailure {
    /// The justification did not verify; with the verifier's message.
    Justification(String),
    /// The justification targets another block than the header.
    TargetMismatch,
    /// A fragment other than the last of a finished proof lacks an authority set change.
    MissingChange,
}

/// The set id and authorities that the justification of a fragment at `block` is checked
/// against, and whether `block` is a configured checkpoint.
pub open spec fn checked_against(hf: HardForks, set_id: u64, authorities: Seq<Authority>, block: BlockRef) -> (u64, Seq<Authority>, bool) {
    match spec_hard_forked_authorities(hf, block) {
        Some((id, list)) => (id, list, true),
        None => match spec_new_initial_set_id(hf) {
            Some(initial) => (set_id.wrapping_add(initial), authorities, false),
            None => (set_id, authorities, false),
        },
    }
}

/// The state after a fragment whose justification check gave `check`, starting from the set id
/// and authorities `pre` it was checked against.
pub open spec fn after_fragment<J>(
    pre: (u64, Seq<Authority>, bool),
    f: WarpSyncFragment<J>,
    may_lack_change: bool,
    check: Result<(), String>,
) -> Result<(u64, Seq<Authority>), ProofFailure> {
    match check {
        Err(message) => Err(ProofFailure::Justification(message)),
        Ok(()) => if f.justification_target.hash != f.header.block.hash {
            Err(ProofFailure::TargetMismatch)
        } else {
            match f.header.scheduled_change {
                Some(next) => Ok((pre.0.wrapping_add(1), next@)),
                None => if pre.2 || may_lack_change {
                    Ok((pre.0, pre.1))
                } else {
                    Err(ProofFailure::MissingChange)
                },
            }
        },
    }
}

/// The outcome of verifying the first `k` fragments, where the `i`-th justification check gave
/// `checks[i]`.
pub open spec fn verify_prefix<J>(
    proofs: Seq<WarpSyncFragment<J>>,
    is_finished: bool,
    hf: HardForks,
    set_id: u64,
    authorities: Seq<Authority>,
    checks: Seq<Result<(), String>>,
    k: int,
) -> Result<(u64, Seq<Authority>), ProofFailure>
    decreases k,
{
    if k <= 0 {
        Ok((set_id, authorities))
    } else {
        match verify_prefix(proofs, is_finished, hf, set_id, authorities, checks, k - 1) {
            Err(e) => Err(e),
            Ok(st) => after_fragment(
                checked_against(hf, st.0, st.1, proofs[k - 1].header.block),
                proofs[k - 1],
                k == proofs.len() && is_finished,
                checks[k - 1],
            ),
        }
    }
}

/// The justification check of fragment `i` was made, with the set id and authorities
/// `list` that the fragment is checked against, and gave `checks[i]`.
pub open spec fn check_made<J, F: Fn(&J, u64, &Vec<Authority>) -> Result<(), String>>(
    check: F,
    proofs: Seq<WarpSyncFragment<J>>,
    is_finished: bool,
    hf: HardForks,
    set_id: u64,
    authorities: Seq<Authority>,
    checks: Seq<Result<(), String>>,
    lists: Seq<Vec<Authority>>,
    i: int,
) -> bool {
    match verify_prefix(proofs, is_finished, hf, set_id, authorities, checks, i) {
        Err(_) => true,
        Ok(st) => {
            let pre = checked_against(hf, st.0, st.1, proofs[i].header.block);
            &&& lists[i]@ == pre.1
            &&& call_ensures(check, (&proofs[i].justification, pre.0, &lists[i]), checks[i])
        },
    }
}

/// `checks` records the outcomes of all justification checks that verification makes, each made
/// with the set id and authorities that the fragment is checked against.
pub open spec fn trace_covers<J, F: Fn(&J, u64, &Vec<Authority>) -> Result<(), String>>(
    check: F,
    proofs: Seq<WarpSyncFragment<J>>,
    is_finished: bool,
    hf: HardForks,
    set_id: u64,
    authorities: Seq<Authority>,
    checks: Seq<Result<(), String>>,
    lists: Seq<Vec<Authority>>,
) -> bool {
    &&& checks.len() == proofs.len()
    &&& forall|i: int|
        0 <= i < proofs.len() ==> #[trigger] check_made(
            check,
            proofs,
            is_finished,
            hf,
            set_id,
            authorities,
            checks,
            lists,
            i,
        )
}

proof fn lemma_verify_prefix_depends_on_prefix<J>(
    proofs: Seq<WarpSyncFragment<J>>,
    is_finished: bool,
    hf: HardForks,
    set_id: u64,
    authorities: Seq<Authority>,
    c1: Seq<Result<(), String>>,
    c2: Seq<Result<(), String>>,
    k: int,
)
    requires
        forall|i: int| 0 <= i < k ==> c1[i] == c2[i],
    ensures
        verify_prefix(proofs, is_finished, hf, set_id, authorities, c1, k) == verify_prefix(
            proofs,
            is_finished,
            hf,
            set_id,
            authorities,
            c2,
            k,
        ),
    decreases k,
{
    if k > 0 {
        lemma_verify_prefix_depends_on_prefix(proofs, is_finished, hf, set_id, authorities, c1, c2, k - 1);
    }
}

impl<J> WarpSyncProof<J> {
    /// Verifies the proof, starting at `set_id` with `authorities`; `check` verifies one
    /// justification against a set id and authority list. Each fragment is checked against the
    /// authorities configured for its block, if any, else against the current ones (with the
    /// configured new initial set id added to the set id); a scheduled change in its header then
    /// moves to the next set. The new set id and authorities are returned.
    pub fn verify<F: Fn(&J, u64, &Vec<Authority>) -> Result<(), String>>(
        &self,
        set_id: u64,
        authorities: Vec<Authority>,
        hard_forks: &HardForks,
        check: &F,
    ) -> (r: Result<(u64, Vec<Authority>), Error>)
        requires
            forall|j: &J, s: u64, a: &Vec<Authority>| call_requires(*check, (j, s, a)),
        ensures
            exists|checks: Seq<Result<(), String>>, lists: Seq<Vec<Authority>>| {
                &&& #[trigger] trace_covers(
                    *check,
                    self.proofs@,
                    self.is_finished,
                    *hard_forks,
                    set_id,
                    authorities@,
                    checks,
                    lists,
                )
                &&& match verify_prefix(
                    self.proofs@,
                    self.is_finished,
                    *hard_forks,
                    set_id,
                    authorities@,
                    checks,
                    self.proofs@.len() as int,
                ) {
                    Ok((id, list)) => r matches Ok((rid, rlist)) && rid == id && rlist@ == list,
                    Err(ProofFailure::Justification(message)) => r == Err::<(u64, Vec<Authority>), Error>(Error::InvalidProof(message)),
                    Err(ProofFailure::TargetMismatch) => r matches Err(Error::InvalidProof(m))
                        && m@ == "Mismatch between header and justification"@,
                    Err(ProofFailure::MissingChange) => r matches Err(Error::InvalidProof(m))
                        && m@ == "Header is missing authority set change digest"@,
                }
            },
    {
        let ghost proofs = self.proofs@;
        let ghost n = proofs.len() as int;
        let ghost mut checks: Seq<Result<(), String>> = Seq::empty();
        let ghost mut lists: Seq<Vec<Authority>> = Seq::empty();
        let mut current_set_id = set_id;
        let mut current_authorities = authorities;
        let mut fragment_num: usize = 0;
        while fragment_num < self.proofs.len()
            invariant
                proofs == self.proofs@,
                n == proofs.len(),
                forall|j: &J, s: u64, a: &Vec<Authority>| call_requires(*check, (j, s, a)),
                fragment_num <= n,
                checks.len() == fragment_num,
                lists.len() == fragment_num,
                verify_prefix(proofs, self.is_finished, *hard_forks, set_id, authorities@, checks, fragment_num as int)
                    == Ok::<(u64, Seq<Authority>), ProofFailure>((current_set_id, current_authorities@)),
                forall|i: int| 0 <= i < fragment_num ==> #[trigger] check_made(*check, proofs, self.is_finished, *hard_forks, set_id, authorities@, checks, lists, i),
            decreases n - fragment_num,
        {
            let proof = &self.proofs[fragment_num];
            let ghost pre = checked_against(*hard_forks, current_set_id, current_authorities@, proof.header.block);
            let is_checkpoint = match hard_forks.get_hard_forked_authorities(&proof.header.block) {
                Some((id, list)) => {
                    current_set_id = id;
                    current_authorities = list;
                    true
                },
                None => {
                    match hard_forks.get_new_initial_set_id() {
                        Some(initial) => {
                            current_set_id = current_set_id.wrapping_add(initial);
                        },
                        None => {},
                    }
                    false
                },
            };
            let outcome = check(&proof.justification, current_set_id, &current_authorities);
            let ghost new_checks = checks.push(outcome);
            let ghost new_lists = lists.push(current_authorities);
            proof {
                assert(pre == (current_set_id, current_authorities@, is_checkpoint));
                lemma_verify_prefix_depends_on_prefix(proofs, self.is_finished, *hard_forks, set_id, authorities@, checks, new_checks, fragment_num as int);
                assert forall|i: int| 0 <= i <= fragment_num implies #[trigger] check_made(*check, proofs, self.is_finished, *hard_forks, set_id, authorities@, new_checks, new_lists, i) by {
                    lemma_verify_prefix_depends_on_prefix(proofs, self.is_finished, *hard_forks, set_id, authorities@, checks, new_checks, i);
                    if i < fragment_num {
                        assert(check_made(*check, proofs, self.is_finished, *hard_forks, set_id, authorities@, checks, lists, i));
                    }
                }
                checks = new_checks;
                lists = new_lists;
            }
            let ghost step = verify_prefix(proofs, self.is_finished, *hard_forks, set_id, authorities@, checks, fragment_num + 1);
            match outcome {
                Err(message) => {
                    proof {
                        lemma_finish_padding(*check, proofs, self.is_finished, *hard_forks, set_id, authorities@, checks, lists, fragment_num as int + 1);
                    }
                    return Err(Error::InvalidProof(message));
                },
                Ok(()) => {},
            }
            if proof.justification_target.hash != proof.header.block.hash {
                proof {
                    lemma_finish_padding(*check, proofs, self.is_finished, *hard_forks, set_id, authorities@, checks, lists, fragment_num as int + 1);
                }
                return Err(Error::InvalidProof(String::from_str("Mismatch between header and justification")));
            }
            match &proof.header.scheduled_change {
                Some(next) => {
                    current_authorities = copy_authorities(next);
                    current_set_id = current_set_id.wrapping_add(1);
                },
                None => {
                    if !is_checkpoint && (fragment_num != self.proofs.len() - 1 || !self.is_finished) {
                        proof {
                            lemma_finish_padding(*check, proofs, self.is_finished, *hard_forks, set_id, authorities@, checks, lists, fragment_num as int + 1);
                        }
                        return Err(Error::InvalidProof(String::from_str("Header is missing authority set change digest")));
                    }
                },
            }
            fragment_num = fragment_num + 1;
        }
        proof {
            assert(trace_covers(*check, proofs, self.is_finished, *hard_forks, set_id, authorities@, checks, lists));
        }
        Ok((current_set_id, current_authorities))
    }
}

/// Once verification stopped at fragment `k - 1` with an error, the traces can be padded to the
/// full length without changing the outcome.
proof fn lemma_finish_padding<J, F: Fn(&J, u64, &Vec<Authority>) -> Result<(), String>>(
    check: F,
    proofs: Seq<WarpSyncFragment<J>>,
    is_finished: bool,
    hf: HardForks,
    set_id: u64,
    authorities: Seq<Authority>,
    checks: Seq<Result<(), String>>,
    lists: Seq<Vec<Authority>>,
    k: int,
)
    requires
        1 <= k <= proofs.len(),
        checks.len() == k,
        lists.len() == k,
        verify_prefix(proofs, is_finished, hf, set_id, authorities, checks, k) is Err,
        forall|i: int| 0 <= i < k ==> #[trigger] check_made(check, proofs, is_finished, hf, set_id, authorities, checks, lists, i),
    ensures
        exists|c: Seq<Result<(), String>>, l: Seq<Vec<Authority>>| {
            &&& #[trigger] trace_covers(check, proofs, is_finished, hf, set_id, authorities, c, l)
            &&& verify_prefix(proofs, is_finished, hf, set_id, authorities, c, proofs.len() as int) == verify_prefix(proofs, is_finished, hf, set_id, authorities, checks, k)
        },
{
    let c = checks + Seq::new((proofs.len() - k) as nat, |i: int| Ok(()));
    let l = lists + Seq::new((proofs.len() - k) as nat, |i: int| vstd::pervasive::arbitrary::<Vec<Authority>>());
    assert forall|i: int| 0 <= i < proofs.len() implies #[trigger] check_made(check, proofs, is_finished, hf, set_id, authorities, c, l, i) by {
        if i < k {
            lemma_verify_prefix_depends_on_prefix(proofs, is_finished, hf, set_id, authorities, checks, c, i);
            assert(check_made(check, proofs, is_finished, hf, set_id, authorities, checks, lists, i));
            assert(c[i] == checks[i]);
            assert(l[i] == lists[i]);
        } else {
            lemma_verify_prefix_depends_on_prefix(proofs, is_finished, hf, set_id, authorities, checks, c, k);
            lemma_err_persists(proofs, is_finished, hf, set_id, authorities, c, k, i);
        }
    }
    lemma_verify_prefix_depends_on_prefix(proofs, is_finished, hf, set_id, authorities, checks, c, k);
    lemma_err_persists(proofs, is_finished, hf, set_id, authorities, c, k, proofs.len() as int);
    assert(trace_covers(check, proofs, is_finished, hf, set_id, authorities, c, l));
}

/// An error stays an error, unchanged, over further fragments.
proof fn lemma_err_persists<J>(
    proofs: Seq<WarpSyncFragment<J>>,
    is_finished: bool,
    hf: HardForks,
    set_id: u64,
    authorities: Seq<Authority>,
    c: Seq<Result<(), String>>,
    k: int,
    m: int,
)
    requires
        1 <= k <= m,
        verify_prefix(proofs, is_finished, hf, set_id, authorities, c, k) is Err,
    ensures
        verify_prefix(proofs, is_finished, hf, set_id, authorities, c, m) == verify_prefix(proofs, is_finished, hf, set_id, authorities, c, k),
    decreases m - k,
{
    if m > k {
        lemma_err_persists(proofs, is_finished, hf, set_id, authorities, c, k, m - 1);
    }
}

/// The set id and authorities in charge after the first `k` fragments, from `set_id` and
/// `authorities`: each scheduled change hands over to the next set.
pub open spec fn set_after<J>(proofs: Seq<WarpSyncFragment<J>>, set_id: u64, authorities: Seq<Authority>, k: int) -> (u64, Seq<Authority>)
    decreases k,
{
    if k <= 0 {
        (set_id, authorities)
    } else {
        let st = set_after(proofs, set_id, authorities, k - 1);
        match proofs[k - 1].header.scheduled_change {
            Some(next) => (st.0.wrapping_add(1), next@),
            None => st,
        }
    }
}

proof fn lemma_accepted_prefix_verifies<J>(
    proofs: Seq<WarpSyncFragment<J>>,
    is_finished: bool,
    set_id: u64,
    authorities: Seq<Authority>,
    checks: Seq<Result<(), String>>,
    no_checkpoints: Vec<Checkpoint>,
    k: int,
)
    requires
        no_checkpoints@.len() == 0,
        0 <= k <= proofs.len(),
        checks.len() == proofs.len(),
        forall|i: int| 0 <= i < proofs.len() ==> (#[trigger] checks[i]) is Ok,
        forall|i: int| 0 <= i < proofs.len() ==> (#[trigger] proofs[i]).justification_target.hash == proofs[i].header.block.hash,
        forall|i: int| 0 <= i < proofs.len() ==> (#[trigger] proofs[i]).header.scheduled_change is Some || (i == proofs.len() - 1 && is_finished),
    ensures
        verify_prefix(proofs, is_finished, HardForks::AuthoritySetHardForks { hard_forks: no_checkpoints }, set_id, authorities, checks, k)
            == Ok::<(u64, Seq<Authority>), ProofFailure>(set_after(proofs, set_id, authorities, k)),
    decreases k,
{
    if k > 0 {
        lemma_accepted_prefix_verifies(proofs, is_finished, set_id, authorities, checks, no_checkpoints, k - 1);
        let hf = HardForks::AuthoritySetHardForks { hard_forks: no_checkpoints };
        assert(checkpoint_at(no_checkpoints@, proofs[k - 1].header.block) is None);
        assert(checks[k - 1] is Ok);
        assert(proofs[k - 1].justification_target.hash == proofs[k - 1].header.block.hash);
        assert(proofs[k - 1].header.scheduled_change is Some || (k - 1 == proofs.len() - 1 && is_finished));
    }
}

/// A proof whose justifications are all accepted verifies, and ends at the set in charge after
/// its last scheduled change: where no checkpoint is configured, every justification check
/// accepts, every justification targets its fragment's block, and every fragment but the last of
/// a finished proof carries a scheduled change.
pub proof fn lemma_accepted_proof_verifies<J>(
    proofs: Seq<WarpSyncFragment<J>>,
    is_finished: bool,
    set_id: u64,
    authorities: Seq<Authority>,
    checks: Seq<Result<(), String>>,
    no_checkpoints: Vec<Checkpoint>,
)
    requires
        no_checkpoints@.len() == 0,
        checks.len() == proofs.len(),
        forall|i: int| 0 <= i < proofs.len() ==> (#[trigger] checks[i]) is Ok,
        forall|i: int| 0 <= i < proofs.len() ==> (#[trigger] proofs[i]).justification_target.hash == proofs[i].header.block.hash,
        forall|i: int| 0 <= i < proofs.len() ==> (#[trigger] proofs[i]).header.scheduled_change is Some || (i == proofs.len() - 1 && is_finished),
    ensures
        verify_prefix(proofs, is_finished, HardForks::AuthoritySetHardForks { hard_forks: no_checkpoints }, set_id, authorities, checks, proofs.len() as int)
            == Ok::<(u64, Seq<Authority>), ProofFailure>(set_after(proofs, set_id, authorities, proofs.len() as int)),
{
    lemma_accepted_prefix_verifies(proofs, is_finished, set_id, authorities, checks, no_checkpoints, proofs.len() as int);
}

/// The set id and authorities in charge after the first `k` fragments, followed as the
/// verifier does: at a configured checkpoint the configured set takes over (else a configured
/// new initial set id is added), then a scheduled change hands over to the next set.
pub open spec fn set_after_with_hard_forks<J>(
    hf: HardForks,
    proofs: Seq<WarpSyncFragment<J>>,
    set_id: u64,
    authorities: Seq<Authority>,
    k: int,
) -> (u64, Seq<Authority>)
    decreases k,
{
    if k <= 0 {
        (set_id, authorities)
    } else {
        let st = set_after_with_hard_forks(hf, proofs, set_id, authorities, k - 1);
        let pre = checked_against(hf, st.0, st.1, proofs[k - 1].header.block);
        match proofs[k - 1].header.scheduled_change {
            Some(next) => (pre.0.wrapping_add(1), next@),
            None => (pre.0, pre.1),
        }
    }
}

proof fn lemma_accepted_prefix_verifies_with_hard_forks<J>(
    hf: HardForks,
    proofs: Seq<WarpSyncFragment<J>>,
    is_finished: bool,
    set_id: u64,
    authorities: Seq<Authority>,
    checks: Seq<Result<(), String>>,
    k: int,
)
    requires
        0 <= k <= proofs.len(),
        checks.len() == proofs.len(),
        forall|i: int| 0 <= i < proofs.len() ==> (#[trigger] checks[i]) is Ok,
        forall|i: int| 0 <= i < proofs.len() ==> (#[trigger] proofs[i]).justification_target.hash == proofs[i].header.block.hash,
        forall|i: int| 0 <= i < proofs.len() ==> {
            ||| (#[trigger] proofs[i]).header.scheduled_change is Some
            ||| spec_hard_forked_authorities(hf, proofs[i].header.block) is Some
            ||| i == proofs.len() - 1 && is_finished
        },
    ensures
        verify_prefix(proofs, is_finished, hf, set_id, authorities, checks, k)
            == Ok::<(u64, Seq<Authority>), ProofFailure>(set_after_with_hard_forks(hf, proofs, set_id, authorities, k)),
    decreases k,
{
    if k > 0 {
        lemma_accepted_prefix_verifies_with_hard_forks(hf, proofs, is_finished, set_id, authorities, checks, k - 1);
        assert(checks[k - 1] is Ok);
        assert(proofs[k - 1].justification_target.hash == proofs[k - 1].header.block.hash);
        assert({
            ||| proofs[k - 1].header.scheduled_change is Some
            ||| spec_hard_forked_authorities(hf, proofs[k - 1].header.block) is Some
            ||| k - 1 == proofs.len() - 1 && is_finished
        });
    }
}

/// A proof whose justifications are all accepted verifies, and ends at the set in charge after
/// it as the verifier follows it through configured checkpoints and scheduled changes: where
/// every justification check accepts, every justification targets its fragment's block, and
/// every fragment carries a scheduled change, is a configured checkpoint, or is the last of a
/// finished proof.
pub proof fn lemma_accepted_proof_verifies_with_hard_forks<J>(
    hf: HardForks,
    proofs: Seq<WarpSyncFragment<J>>,
    is_finished: bool,
    set_id: u64,
    authorities: Seq<Authority>,
    checks: Seq<Result<(), String>>,
)
    requires
        checks.len() == proofs.len(),
        forall|i: int| 0 <= i < proofs.len() ==> (#[trigger] checks[i]) is Ok,
        forall|i: int| 0 <= i < proofs.len() ==> (#[trigger] proofs[i]).justification_target.hash == proofs[i].header.block.hash,
        forall|i: int| 0 <= i < proofs.len() ==> {
            ||| (#[trigger] proofs[i]).header.scheduled_change is Some
            ||| spec_hard_forked_authorities(hf, proofs[i].header.block) is Some
            ||| i == proofs.len() - 1 && is_finished
        },
    ensures
        verify_prefix(proofs, is_finished, hf, set_id, authorities, checks, proofs.len() as int)
            == Ok::<(u64, Seq<Authority>), ProofFailure>(set_after_with_hard_forks(hf, proofs, set_id, authorities, proofs.len() as int)),
{
    lemma_accepted_prefix_verifies_with_hard_forks(hf, proofs, is_finished, set_id, authorities, checks, proofs.len() as int);
}

/// The sum of two set ids, wrapping past the largest `u64`.
pub open spec fn set_id_sum(a: u64, b: u64) -> u64 {
    if a + b > u64::MAX {
        (a + b - 0x1_0000_0000_0000_0000) as u64
    } else {
        (a + b) as u64
    }
}

/// With a reinitialized set id `n`, each fragment is checked against the running set id plus
/// `n`: where verification reached fragment `i` in the set `(id, list)`, its justification check
/// was made with the set id `id + n` and the authorities `list`.
pub proof fn lemma_reinitialized_set_id_is_added<J, F: Fn(&J, u64, &Vec<Authority>) -> Result<(), String>>(
    check: F,
    proofs: Seq<WarpSyncFragment<J>>,
    is_finished: bool,
    n: u64,
    set_id: u64,
    authorities: Seq<Authority>,
    checks: Seq<Result<(), String>>,
    lists: Seq<Vec<Authority>>,
    i: int,
)
    requires
        trace_covers(check, proofs, is_finished, HardForks::ReinitializeSetId { new_set_id: n }, set_id, authorities, checks, lists),
        0 <= i < proofs.len(),
    ensures
        verify_prefix(proofs, is_finished, HardForks::ReinitializeSetId { new_set_id: n }, set_id, authorities, checks, i) matches Ok((id, list))
            ==> lists[i]@ == list && call_ensures(check, (&proofs[i].justification, set_id_sum(id, n), &lists[i]), checks[i]),
{
    assert(check_made(check, proofs, is_finished, HardForks::ReinitializeSetId { new_set_id: n }, set_id, authorities, checks, lists, i));
}

/// A one-fragment proof under a reinitialized set id `n`, from the set `set_id`: its
/// justification is checked with `set_id + n`, and where the check accepts, the justification
/// targets the fragment's block and the header schedules a change to `next`, verification ends
/// in the set `set_id + n + 1` with the authorities `next`.
pub proof fn lemma_reinitialized_one_fragment_proof<J, F: Fn(&J, u64, &Vec<Authority>) -> Result<(), String>>(
    check: F,
    proofs: Seq<WarpSyncFragment<J>>,
    is_finished: bool,
    n: u64,
    set_id: u64,
    authorities: Seq<Authority>,
    checks: Seq<Result<(), String>>,
    lists: Seq<Vec<Authority>>,
    next: Vec<Authority>,
)
    requires
        trace_covers(check, proofs, is_finished, HardForks::ReinitializeSetId { new_set_id: n }, set_id, authorities, checks, lists),
        proofs.len() == 1,
    ensures
        lists[0]@ == authorities,
        call_ensures(check, (&proofs[0].justification, set_id_sum(set_id, n), &lists[0]), checks[0]),
        checks[0] is Ok && proofs[0].justification_target.hash == proofs[0].header.block.hash
            && proofs[0].header.scheduled_change == Some(next) ==> verify_prefix(
            proofs,
            is_finished,
            HardForks::ReinitializeSetId { new_set_id: n },
            set_id,
            authorities,
            checks,
            1,
        ) == Ok::<(u64, Seq<Authority>), ProofFailure>((set_id_sum(set_id_sum(set_id, n), 1), next@)),
{
    lemma_reinitialized_set_id_is_added(check, proofs, is_finished, n, set_id, authorities, checks, lists, 0);
    assert(verify_prefix(proofs, is_finished, HardForks::ReinitializeSetId { new_set_id: n }, set_id, authorities, checks, 0)
        == Ok::<(u64, Seq<Authority>), ProofFailure>((set_id, authorities)));
}

/// A block that a checkpoint names has a checkpoint.
pub proof fn lemma_checkpoint_present(s: Seq<Checkpoint>, j: int)
    requires
        0 <= j < s.len(),
    ensures
        checkpoint_at(s, s[j].block) is Some,
    decreases s.len(),
{
    if s.last().block != s[j].block {
        assert(j < s.len() - 1);
        assert(s.drop_last()[j] == s[j]);
        lemma_checkpoint_present(s.drop_last(), j);
    }
}

} // verus!
