//! The state of a node that warp syncs: the authority set it trusts, the block the next proof
//! is asked from, and how many authority set changes it has followed.
use vstd::prelude::*;
use crate::decimal::{append_decimal, decimal_text};
use crate::hash::Hash256;
use crate::warp_sync::{
    copy_authorities, trace_covers, verify_prefix, Authority, FragmentHeader, HardForks,
    ProofFailure, WarpSyncFragment,
    Error, WarpSyncProof,
};

verus! {

/// What the verifier trusts: the set id and authorities, and the block to ask the next proof
/// from.
pub struct VerifierState {
    pub set_id: u64,
    pub authorities: Vec<Authority>,
    pub next_proof_context: Hash256,
}

/// A GRANDPA warp sync verifier.
pub struct GrandpaVerifier {
    pub state: VerifierState,
    pub hard_forks: HardForks,
    /// The number of proof fragments followed so far.
    pub eras_synced: u64,
}

/// The text of a verification failure.
pub open spec fn failure_text(f: ProofFailure) -> Seq<char> {
    match f {
        ProofFailure::Justification(message) => message@,
        ProofFailure::TargetMismatch => "Mismatch between header and justification"@,
        ProofFailure::MissingChange => "Header is missing authority set change digest"@,
    }
}

/// The text of a warp sync error.
pub open spec fn error_text(e: Error) -> Seq<char> {
    match e {
        Error::DecodeScale(m) => "Failed to decode block hash: "@ + m@ + "."@,
        Error::Client(m) => m@,
        Error::InvalidRequest(m) => m@,
        Error::InvalidProof(m) => m@,
        Error::MissingData => "Missing required data to be able to answer request."@,
    }
}

/// `after` is `before` having verified `proof` with outcome `r`, `check` verifying each
/// justification: an empty proof is refused; else the outcome follows the trace of checks that
/// verification makes; on success the verifier trusts the set the proof ends with, asks the
/// next proof from the last fragment's block and counts the fragments; on failure nothing
/// changes.
pub open spec fn verify_outcome<J, F: Fn(&J, u64, &Vec<Authority>) -> Result<(), String>>(
    before: GrandpaVerifier,
    after: GrandpaVerifier,
    proof: WarpSyncProof<J>,
    check: F,
    r: Result<bool, String>,
) -> bool {
    &&& proof.proofs@.len() == 0 ==> {
        &&& r matches Err(m) && m@ == "Empty proof"@
        &&& after == before
    }
    &&& proof.proofs@.len() > 0 ==> exists|checks: Seq<Result<(), String>>, lists: Seq<Vec<Authority>>| {
        &&& #[trigger] trace_covers(
            check,
            proof.proofs@,
            proof.is_finished,
            before.hard_forks,
            before.state.set_id,
            before.state.authorities@,
            checks,
            lists,
        )
        &&& match verify_prefix(
            proof.proofs@,
            proof.is_finished,
            before.hard_forks,
            before.state.set_id,
            before.state.authorities@,
            checks,
            proof.proofs@.len() as int,
        ) {
            Ok((id, list)) => {
                &&& r == Ok::<bool, String>(proof.is_finished)
                &&& after.state.set_id == id
                &&& after.state.authorities@ == list
                &&& after.state.next_proof_context == proof.proofs@.last().header.block.hash
                &&& after.hard_forks == before.hard_forks
                &&& after.eras_synced == before.eras_synced + proof.proofs@.len()
            },
            Err(f) => {
                &&& r matches Err(m) && m@ == failure_text(f)
                &&& after == before
            },
        }
    }
}

impl Error {
    /// The error's text.
    pub fn message(&self) -> (r: String)
        ensures
            r@ == error_text(*self),
    {
        match self {
            Error::DecodeScale(m) => String::from_str("Failed to decode block hash: ").concat(
                m.as_str(),
            ).concat("."),
            Error::Client(m) => m.clone(),
            Error::InvalidRequest(m) => m.clone(),
            Error::InvalidProof(m) => m.clone(),
            Error::MissingData => String::from_str(
                "Missing required data to be able to answer request.",
            ),
        }
    }
}

impl GrandpaVerifier {
    /// A verifier that starts from the given set and asks the first proof from `genesis_hash`.
    pub fn new(set_id: u64, authorities: Vec<Authority>, genesis_hash: Hash256, hard_forks: HardForks) -> (r: GrandpaVerifier)
        ensures
            r.state.set_id == set_id,
            r.state.authorities@ == authorities@,
            r.state.next_proof_context == genesis_hash,
            r.hard_forks == hard_forks,
            r.eras_synced == 0,
    {
        GrandpaVerifier {
            state: VerifierState { set_id, authorities, next_proof_context: genesis_hash },
            hard_forks,
            eras_synced: 0,
        }
    }

    /// The block to ask the next proof from.
    pub fn next_proof_context(&self) -> (r: Hash256)
        ensures
            r == self.state.next_proof_context,
    {
        self.state.next_proof_context
    }

    /// How far the sync has come: the number of fragments followed, as "N eras synced".
    pub fn status(&self) -> (r: Option<String>)
        ensures
            r matches Some(text) && text@ == decimal_text(self.eras_synced as nat) + " eras synced"@,
    {
        let mut text = String::new();
        append_decimal(&mut text, self.eras_synced);
        text.append(" eras synced");
        Some(text)
    }

    /// Verifies a decoded proof against the trusted set; `check` verifies one justification.
    /// An empty proof is refused. Where the proof verifies, the verifier trusts the set it ends
    /// with, asks the next proof from the last fragment's block, and counts the fragments; the
    /// result tells whether the proof is finished. Where it fails, nothing changes.
    pub fn verify<J, F: Fn(&J, u64, &Vec<Authority>) -> Result<(), String>>(
        &mut self,
        proof: &WarpSyncProof<J>,
        check: &F,
    ) -> (r: Result<bool, String>)
        requires
            forall|j: &J, s: u64, a: &Vec<Authority>| call_requires(*check, (j, s, a)),
            old(self).eras_synced + proof.proofs@.len() <= u64::MAX,
        ensures
            verify_outcome(*old(self), *final(self), *proof, *check, r),
    {
        let n = proof.proofs.len();
        if n == 0 {
            return Err(String::from_str("Empty proof"));
        }
        let last_block = proof.proofs[n - 1].header.block.hash;
        let current = copy_authorities(&self.state.authorities);
        match proof.verify(self.state.set_id, current, &self.hard_forks, check) {
            Ok((next_set_id, next_authorities)) => {
                self.state = VerifierState {
                    set_id: next_set_id,
                    authorities: next_authorities,
                    next_proof_context: last_block,
                };
                self.eras_synced = self.eras_synced + n as u64;
                Ok(proof.is_finished)
            },
            Err(e) => Err(e.message()),
        }
    }
}

/// The GRANDPA consensus engine id, `FRNK`.
pub open spec fn grandpa_engine_id() -> Seq<u8> {
    seq![70u8, 82u8, 78u8, 75u8]
}

/// The GRANDPA consensus engine id, `FRNK`.
pub fn grandpa_engine_id_bytes() -> (r: [u8; 4])
    ensures
        r@ == grandpa_engine_id(),
{
    let r: [u8; 4] = [70u8, 82u8, 78u8, 75u8];
    proof {
        assert(r@ =~= grandpa_engine_id());
    }
    r
}

/// The justification of one verified fragment, as the synced chain takes it: the fragment's
/// header and its justification encoded under the GRANDPA engine id.
pub struct FragmentJustification {
    pub header: FragmentHeader,
    pub engine_id: [u8; 4],
    pub encoded: Vec<u8>,
}

/// What verifying a proof gives the synced chain: all of its fragments' justifications, and,
/// where the proof is finished, the last fragment's header as the synced target.
pub enum VerificationResult {
    /// The proof is finished; the header is the last fragment's.
    Complete(FragmentHeader, Vec<FragmentJustification>),
    /// More proofs are to come.
    Partial(Vec<FragmentJustification>),
}

/// Two headers name the same block and carry the same scheduled change.
pub open spec fn same_header(a: FragmentHeader, b: FragmentHeader) -> bool {
    &&& a.block == b.block
    &&& match (a.scheduled_change, b.scheduled_change) {
        (Some(x), Some(y)) => x@ == y@,
        (None, None) => true,
        _ => false,
    }
}

/// `js` holds, per fragment of `proofs` in order, its header and its justification as `encode`
/// encodes it, under the GRANDPA engine id.
pub open spec fn justifications_of<J, E: Fn(&J) -> Vec<u8>>(
    encode: E,
    proofs: Seq<WarpSyncFragment<J>>,
    js: Seq<FragmentJustification>,
) -> bool {
    &&& js.len() == proofs.len()
    &&& forall|i: int| 0 <= i < js.len() ==> {
        &&& (#[trigger] js[i]).header == proofs[i].header
        &&& js[i].engine_id@ == grandpa_engine_id()
        &&& call_ensures(encode, (&proofs[i].justification,), js[i].encoded)
    }
}

/// The result for a verified proof: complete with its last header where it is finished, else
/// partial; with the justifications of all its fragments.
pub open spec fn result_of<J, E: Fn(&J) -> Vec<u8>>(encode: E, proof: WarpSyncProof<J>, res: VerificationResult) -> bool {
    match res {
        VerificationResult::Complete(last, js) => {
            &&& proof.is_finished
            &&& same_header(last, proof.proofs@.last().header)
            &&& justifications_of(encode, proof.proofs@, js@)
        },
        VerificationResult::Partial(js) => {
            &&& !proof.is_finished
            &&& justifications_of(encode, proof.proofs@, js@)
        },
    }
}

/// A copy of a header.
fn copy_header(h: &FragmentHeader) -> (r: FragmentHeader)
    ensures
        same_header(r, *h),
{
    FragmentHeader {
        block: h.block,
        scheduled_change: match &h.scheduled_change {
            Some(list) => Some(copy_authorities(list)),
            None => None,
        },
    }
}

/// The justifications of the fragments, in order (see `justifications_of`).
fn justifications<J, E: Fn(&J) -> Vec<u8>>(proofs: Vec<WarpSyncFragment<J>>, encode: &E) -> (r: Vec<FragmentJustification>)
    requires
        forall|j: &J| call_requires(*encode, (j,)),
    ensures
        justifications_of(*encode, proofs@, r@),
{
    let ghost all = proofs@;
    let mut rest = proofs;
    let mut out: Vec<FragmentJustification> = Vec::new();
    proof {
        assert(rest@ =~= all.skip(0));
    }
    while rest.len() > 0
        invariant
            forall|j: &J| call_requires(*encode, (j,)),
            out@.len() <= all.len(),
            rest@ == all.skip(out@.len() as int),
            forall|i: int| 0 <= i < out@.len() ==> {
                &&& (#[trigger] out@[i]).header == all[i].header
                &&& out@[i].engine_id@ == grandpa_engine_id()
                &&& call_ensures(*encode, (&all[i].justification,), out@[i].encoded)
            },
        decreases rest.len(),
    {
        let f = rest.remove(0);
        let ghost k = out@.len() as int;
        assert(f == all[k]);
        let encoded = encode(&f.justification);
        out.push(FragmentJustification { header: f.header, engine_id: grandpa_engine_id_bytes(), encoded });
        proof {
            assert(rest@ =~= all.skip(out@.len() as int));
        }
    }
    proof {
        assert(out@.len() == all.len());
    }
    out
}

/// The message of a proof that does not decode.
pub open spec fn decoding_error_text(m: Seq<char>) -> Seq<char> {
    "Proof decoding error: "@ + m
}

impl GrandpaVerifier {
    /// Verifies a received proof: `decoded` is the proof as decoded from the received bytes, or
    /// the decoder's error text. A proof that does not decode, is empty or does not verify is
    /// refused and nothing changes; else the verifier moves on as `verify` does, and the result
    /// holds the justifications of all fragments (encoded by `encode`), complete with the last
    /// fragment's header where the proof is finished.
    pub fn verify_received<J, F, E>(
        &mut self,
        decoded: Result<WarpSyncProof<J>, String>,
        check: &F,
        encode: &E,
    ) -> (r: Result<VerificationResult, String>) where
        F: Fn(&J, u64, &Vec<Authority>) -> Result<(), String>,
        E: Fn(&J) -> Vec<u8>,

        requires
            forall|j: &J, s: u64, a: &Vec<Authority>| call_requires(*check, (j, s, a)),
            forall|j: &J| call_requires(*encode, (j,)),
            decoded matches Ok(p) ==> old(self).eras_synced + p.proofs@.len() <= u64::MAX,
        ensures
            decoded matches Err(m) ==> {
                &&& r matches Err(t) && t@ == decoding_error_text(m@)
                &&& *final(self) == *old(self)
            },
            decoded matches Ok(proof) ==> exists|rb: Result<bool, String>| {
                &&& #[trigger] verify_outcome(*old(self), *final(self), proof, *check, rb)
                &&& match rb {
                    Ok(_) => r matches Ok(res) && result_of(*encode, proof, res),
                    Err(m) => r matches Err(t) && t@ == m@,
                }
            },
    {
        match decoded {
            Err(m) => Err(String::from_str("Proof decoding error: ").concat(m.as_str())),
            Ok(proof) => {
                let ghost p = proof;
                let rb = self.verify(&proof, check);
                match rb {
                    Err(m) => {
                        assert(verify_outcome(*old(self), *self, p, *check, rb));
                        Err(m)
                    },
                    Ok(_) => {
                        assert(verify_outcome(*old(self), *self, p, *check, rb));
                        let n = proof.proofs.len();
                        let last = copy_header(&proof.proofs[n - 1].header);
                        let is_finished = proof.is_finished;
                        let js = justifications(proof.proofs, encode);
                        if is_finished {
                            Ok(VerificationResult::Complete(last, js))
                        } else {
                            Ok(VerificationResult::Partial(js))
                        }
                    },
                }
            },
        }
    }
}

} // verus!
