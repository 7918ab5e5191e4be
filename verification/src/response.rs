//! The admission decision protocol: every request resolves to a well-formed
//! decision (allow, allow-with-patch, or deny), and a parse failure resolves
//! to an "invalid" decision that carries no request id.

use vstd::prelude::*;
use crate::patch::Patch;
use crate::planner::{plan_error_message, PlanError};
use crate::pod::Pod;

verus! {

/// API type metadata of the review envelope.
#[derive(Debug)]
pub struct TypeMeta {
    pub api_version: String,
    pub kind: String,
}

/// A parsed admission request: the request id and the candidate pod.
pub struct AdmissionRequest {
    pub types: TypeMeta,
    pub uid: String,
    pub object: Option<Pod>,
}

/// The decision this core answers with.
#[derive(Debug)]
pub struct AdmissionDecision {
    pub types: TypeMeta,
    pub uid: String,
    pub allowed: bool,
    pub patch: Option<Patch>,
    pub status_message: Option<String>,
}

/// The outbound review envelope: the request payload is never echoed back;
/// the request id travels inside the decision itself.
pub struct AdmissionReview {
    pub types: TypeMeta,
    pub request: Option<AdmissionRequest>,
    pub response: Option<AdmissionDecision>,
}

impl AdmissionDecision {
    /// The base "allow" decision for a request: same type metadata, same
    /// request id, no patch, no status.
    pub fn from_request(req: &AdmissionRequest) -> (d: AdmissionDecision)
        ensures
            d.types.api_version@ == req.types.api_version@,
            d.types.kind@ == req.types.kind@,
            d.uid@ == req.uid@,
            d.allowed == true,
            d.patch is None,
            d.status_message is None,
    {
        AdmissionDecision {
            types: TypeMeta {
                api_version: req.types.api_version.clone(),
                kind: req.types.kind.clone(),
            },
            uid: req.uid.clone(),
            allowed: true,
            patch: None,
            status_message: None,
        }
    }

    /// Attaches a patch to an allow decision; everything else is kept.
    pub fn with_patch(self, p: Patch) -> (d: AdmissionDecision)
        ensures
            d.types == self.types,
            d.uid == self.uid,
            d.allowed == self.allowed,
            d.status_message == self.status_message,
            d.patch == Some(p),
    {
        AdmissionDecision {
            types: self.types,
            uid: self.uid,
            allowed: self.allowed,
            patch: Some(p),
            status_message: self.status_message,
        }
    }

    /// Turns a decision into an explicit deny carrying a message; any
    /// partial patch is discarded and the request id is kept.
    pub fn deny(self, msg: String) -> (d: AdmissionDecision)
        ensures
            d.types == self.types,
            d.uid == self.uid,
            d.allowed == false,
            d.patch is None,
            d.status_message == Some(msg),
    {
        AdmissionDecision {
            types: self.types,
            uid: self.uid,
            allowed: false,
            patch: None,
            status_message: Some(msg),
        }
    }

    /// The decision for a request that could not be parsed: no request id
    /// could be recovered, so none is populated.
    pub fn invalid(msg: String) -> (d: AdmissionDecision)
        ensures
            d.uid@ == Seq::<char>::empty(),
            d.allowed == false,
            d.patch is None,
            d.status_message == Some(msg),
            d.types.api_version@ == "admission.k8s.io/v1"@,
            d.types.kind@ == "AdmissionReview"@,
    {
        AdmissionDecision {
            types: TypeMeta {
                api_version: String::from_str("admission.k8s.io/v1"),
                kind: String::from_str("AdmissionReview"),
            },
            uid: String::new(),
            allowed: false,
            patch: None,
            status_message: Some(msg),
        }
    }
}

/// Wraps a decision back into a review envelope.  Only type metadata is
/// echoed; the request payload is dropped by design.
pub fn into_pod_review(resp: AdmissionDecision) -> (rv: AdmissionReview)
    ensures
        rv.types.api_version@ == resp.types.api_version@,
        rv.types.kind@ == resp.types.kind@,
        rv.request is None,
        rv.response == Some(resp),
{
    let types = TypeMeta {
        api_version: resp.types.api_version.clone(),
        kind: resp.types.kind.clone(),
    };
    AdmissionReview { types, request: None, response: Some(resp) }
}

/// The decision a planning outcome resolves to: a planned decision stands as
/// it is; a planning failure becomes an explicit deny that keeps the request
/// id and carries the failure's message, never a transport-level fault.
pub fn decision_of_outcome(
    req: &AdmissionRequest,
    planned: Result<AdmissionDecision, PlanError>,
) -> (d: AdmissionDecision)
    ensures
        planned matches Ok(x) ==> d == x,
        planned matches Err(e) ==> d.uid@ == req.uid@ && d.allowed == false && d.patch is None
            && d.status_message is Some && d.status_message->0@ == plan_error_message(e),
{
    match planned {
        Ok(x) => x,
        Err(e) => {
            let msg = e.message();
            AdmissionDecision::from_request(req).deny(msg)
        },
    }
}

} // verus!
