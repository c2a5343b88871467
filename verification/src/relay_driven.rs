//! The relay-chain-driven collator's answer to one collation request: the request passes through
//! a fixed series of stages; a stage that fails rejects the request (it is completed with no
//! collation), a stage that finds nothing to do leaves it unanswered, and a request that passes
//! every stage is completed with its collation.
use vstd::prelude::*;

verus! {

/// The stages of answering a collation request, in order.
#[derive(PartialEq, Eq, Structural, Clone, Copy, Debug)]
pub enum RequestStage {
    /// Decoding the parent header from the persisted validation data.
    DecodeParent,
    /// Asking the collator service whether to build on the parent.
    CheckBlockStatus,
    /// Fetching the header of the relay parent.
    FetchRelayParent,
    /// Claiming the slot.
    ClaimSlot,
    /// Creating the inherent data.
    CreateInherentData,
    /// Building the collation.
    Collate,
}

/// How a stage came out.
#[derive(PartialEq, Eq, Structural, Clone, Copy, Debug)]
pub enum StageOutcome {
    /// The stage gave what the next one needs.
    Succeeded,
    /// The stage found nothing to do: the parent is not to be built on, the relay parent header
    /// is unknown, or no slot could be claimed.
    Absent,
    /// The stage failed with an error.
    Failed,
}

/// What the collator does next with a request.
#[derive(PartialEq, Eq, Structural, Clone, Copy, Debug)]
pub enum RequestDecision {
    /// Go on with this stage.
    Continue(RequestStage),
    /// Complete the request with no collation, and go on to the next request.
    Reject,
    /// Leave the request unanswered, and go on to the next request.
    Ignore,
    /// Complete the request with the collation built.
    Complete,
}

/// The stage after `stage`, or `None` after the last.
pub open spec fn stage_after(stage: RequestStage) -> Option<RequestStage> {
    match stage {
        RequestStage::DecodeParent => Some(RequestStage::CheckBlockStatus),
        RequestStage::CheckBlockStatus => Some(RequestStage::FetchRelayParent),
        RequestStage::FetchRelayParent => Some(RequestStage::ClaimSlot),
        RequestStage::ClaimSlot => Some(RequestStage::CreateInherentData),
        RequestStage::CreateInherentData => Some(RequestStage::Collate),
        RequestStage::Collate => None,
    }
}

/// The outcomes a stage can have: only checking the block status, fetching the relay parent
/// and claiming the slot can find nothing to do, and checking the block status cannot fail.
pub open spec fn outcome_possible(stage: RequestStage, outcome: StageOutcome) -> bool {
    match outcome {
        StageOutcome::Succeeded => true,
        StageOutcome::Absent => stage == RequestStage::CheckBlockStatus || stage == RequestStage::FetchRelayParent
            || stage == RequestStage::ClaimSlot,
        StageOutcome::Failed => stage != RequestStage::CheckBlockStatus,
    }
}

/// What follows an outcome: success goes on to the next stage, or completes the request after
/// the last; finding nothing to do leaves the request unanswered; a failure rejects it.
pub open spec fn decision_for(stage: RequestStage, outcome: StageOutcome) -> RequestDecision {
    match outcome {
        StageOutcome::Succeeded => match stage_after(stage) {
            Some(next) => RequestDecision::Continue(next),
            None => RequestDecision::Complete,
        },
        StageOutcome::Absent => RequestDecision::Ignore,
        StageOutcome::Failed => RequestDecision::Reject,
    }
}

/// The next step of answering a request, after `stage` came out as `outcome` (see
/// `decision_for`).
pub fn on_request_outcome(stage: RequestStage, outcome: StageOutcome) -> (r: RequestDecision)
    requires
        outcome_possible(stage, outcome),
    ensures
        r == decision_for(stage, outcome),
{
    match outcome {
        StageOutcome::Succeeded => match stage {
            RequestStage::DecodeParent => RequestDecision::Continue(RequestStage::CheckBlockStatus),
            RequestStage::CheckBlockStatus => RequestDecision::Continue(RequestStage::FetchRelayParent),
            RequestStage::FetchRelayParent => RequestDecision::Continue(RequestStage::ClaimSlot),
            RequestStage::ClaimSlot => RequestDecision::Continue(RequestStage::CreateInherentData),
            RequestStage::CreateInherentData => RequestDecision::Continue(RequestStage::Collate),
            RequestStage::Collate => RequestDecision::Complete,
        },
        StageOutcome::Absent => RequestDecision::Ignore,
        StageOutcome::Failed => RequestDecision::Reject,
    }
}

/// A request is completed with a collation exactly when its last stage, building the collation,
/// succeeds; a decision to go on always goes on to the stage right after.
pub proof fn lemma_request_completed_only_after_collation(stage: RequestStage, outcome: StageOutcome)
    requires
        outcome_possible(stage, outcome),
    ensures
        decision_for(stage, outcome) == RequestDecision::Complete <==> (stage == RequestStage::Collate
            && outcome == StageOutcome::Succeeded),
        decision_for(stage, outcome) is Continue ==> stage_after(stage) == Some(
            decision_for(stage, outcome)->Continue_0,
        ),
{
}

} // verus!
