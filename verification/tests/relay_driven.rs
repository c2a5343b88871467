use node_logic::relay_driven::{on_request_outcome, RequestDecision, RequestStage, StageOutcome};

#[test]
fn successful_stages_lead_to_completion() {
    let mut stage = RequestStage::DecodeParent;
    let mut seen = vec![stage];
    loop {
        match on_request_outcome(stage, StageOutcome::Succeeded) {
            RequestDecision::Continue(next) => {
                seen.push(next);
                stage = next;
            },
            RequestDecision::Complete => break,
            other => panic!("unexpected decision {:?}", other),
        }
    }
    assert_eq!(
        seen,
        vec![
            RequestStage::DecodeParent,
            RequestStage::CheckBlockStatus,
            RequestStage::FetchRelayParent,
            RequestStage::ClaimSlot,
            RequestStage::CreateInherentData,
            RequestStage::Collate,
        ]
    );
}

#[test]
fn failures_reject_and_absences_are_ignored() {
    assert_eq!(on_request_outcome(RequestStage::DecodeParent, StageOutcome::Failed), RequestDecision::Reject);
    assert_eq!(on_request_outcome(RequestStage::CheckBlockStatus, StageOutcome::Absent), RequestDecision::Ignore);
    assert_eq!(on_request_outcome(RequestStage::FetchRelayParent, StageOutcome::Failed), RequestDecision::Reject);
    assert_eq!(on_request_outcome(RequestStage::FetchRelayParent, StageOutcome::Absent), RequestDecision::Ignore);
    assert_eq!(on_request_outcome(RequestStage::ClaimSlot, StageOutcome::Absent), RequestDecision::Ignore);
    assert_eq!(on_request_outcome(RequestStage::ClaimSlot, StageOutcome::Failed), RequestDecision::Reject);
    assert_eq!(on_request_outcome(RequestStage::CreateInherentData, StageOutcome::Failed), RequestDecision::Reject);
    assert_eq!(on_request_outcome(RequestStage::Collate, StageOutcome::Failed), RequestDecision::Reject);
}
