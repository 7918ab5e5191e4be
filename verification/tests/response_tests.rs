use sim_admission::patch::Patch;
use sim_admission::planner::PlanError;
use sim_admission::response::{
    decision_of_outcome, into_pod_review, AdmissionDecision, AdmissionRequest, TypeMeta,
};

fn request() -> AdmissionRequest {
    AdmissionRequest {
        types: TypeMeta {
            api_version: "admission.k8s.io/v1".to_string(),
            kind: "AdmissionReview".to_string(),
        },
        uid: "req-42".to_string(),
        object: None,
    }
}

#[test]
fn invalid_decision_has_no_request_id() {
    let d = AdmissionDecision::invalid("could not parse request".to_string());
    assert_eq!(d.uid, "");
    assert!(!d.allowed);
    assert!(d.patch.is_none());
    assert_eq!(d.status_message.as_deref(), Some("could not parse request"));
}

#[test]
fn base_decision_allows_and_keeps_the_uid() {
    let d = AdmissionDecision::from_request(&request());
    assert!(d.allowed);
    assert_eq!(d.uid, "req-42");
    assert!(d.patch.is_none());
    assert!(d.status_message.is_none());
}

#[test]
fn deny_discards_the_patch_and_keeps_the_uid() {
    let d = AdmissionDecision::from_request(&request())
        .with_patch(Patch { ops: Vec::new() })
        .deny("boom".to_string());
    assert!(!d.allowed);
    assert_eq!(d.uid, "req-42");
    assert!(d.patch.is_none());
    assert_eq!(d.status_message.as_deref(), Some("boom"));
}

#[test]
fn review_never_echoes_the_request() {
    let d = AdmissionDecision::from_request(&request());
    let review = into_pod_review(d);
    assert!(review.request.is_none());
    let resp = review.response.expect("the decision must be present");
    assert_eq!(resp.uid, "req-42");
    assert_eq!(review.types.api_version, "admission.k8s.io/v1");
    assert_eq!(review.types.kind, "AdmissionReview");
}

#[test]
fn planning_errors_become_denies_with_the_request_id() {
    let d = decision_of_outcome(&request(), Err(PlanError::MissingSpec));
    assert!(!d.allowed);
    assert_eq!(d.uid, "req-42");
    assert_eq!(d.status_message.as_deref(), Some("pod has no spec"));
}

#[test]
fn planned_decisions_pass_through() {
    let ok = AdmissionDecision::from_request(&request());
    let d = decision_of_outcome(&request(), Ok(ok));
    assert!(d.allowed);
    assert_eq!(d.uid, "req-42");
}

#[test]
fn chain_resolution_errors_carry_their_message() {
    let d = decision_of_outcome(
        &request(),
        Err(PlanError::ChainResolution("api unreachable".to_string())),
    );
    assert!(!d.allowed);
    assert_eq!(d.status_message.as_deref(), Some("api unreachable"));
}
