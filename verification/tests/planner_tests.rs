use sim_admission::json::JsonValue;
use sim_admission::patch::PatchOperation;
use sim_admission::planner::{
    add_node_selector_tolerations, add_simulation_labels, chain_contains, lifecycle_keys,
    mutate_pod, LifecycleOutcome, PlanError,
};
use sim_admission::pod::{OwnerReference, Pod, PodSpec};
use sim_admission::response::{AdmissionDecision, AdmissionRequest, TypeMeta};
use sim_admission::SimulationContext;

fn ctx() -> SimulationContext {
    SimulationContext {
        name: "sim-1".to_string(),
        sim_root: "sim-root-X".to_string(),
        label_key: "simkube.io/simulation".to_string(),
        orig_ns_annotation_key: "simkube.io/original-namespace".to_string(),
        toleration_key: "simkube.io/virtual-node".to_string(),
        virtual_value: "virtual".to_string(),
    }
}

fn owner(name: &str) -> OwnerReference {
    OwnerReference { name: name.to_string() }
}

fn request() -> AdmissionRequest {
    AdmissionRequest {
        types: TypeMeta {
            api_version: "admission.k8s.io/v1".to_string(),
            kind: "AdmissionReview".to_string(),
        },
        uid: "uid-1".to_string(),
        object: None,
    }
}

fn bare_pod() -> Pod {
    Pod {
        namespace: "default".to_string(),
        name: "P1".to_string(),
        labels: None,
        annotations: None,
        owner_references: vec![owner("rs-1")],
        spec: Some(PodSpec { tolerations: Some(Vec::new()), node_selector: None }),
    }
}

fn add_parts(op: &PatchOperation) -> (String, &JsonValue) {
    match op {
        PatchOperation::Add { path, value } => {
            let mut p = String::new();
            for seg in path {
                p.push('/');
                p.push_str(&seg.replace('~', "~0").replace('/', "~1"));
            }
            (p, value)
        }
        _ => panic!("planner only emits add operations"),
    }
}

#[test]
fn ineligible_pod_is_allowed_unchanged() {
    let c = ctx();
    let pod = bare_pod();
    let owners = vec![owner("rs-1"), owner("deploy-1")];
    let resp = AdmissionDecision::from_request(&request());
    let out = mutate_pod(&c, resp, &pod, &owners, LifecycleOutcome::NotFound).unwrap();
    assert!(out.allowed);
    assert!(out.patch.is_none());
    assert_eq!(out.uid, "uid-1");
}

#[test]
fn eligible_pod_scenario_expected_patch() {
    // Pod P1 owned by rs-1; ancestry rs-1 -> deploy-1 -> sim-root-X; root matches.
    let c = ctx();
    let pod = bare_pod();
    let owners = vec![owner("rs-1"), owner("deploy-1"), owner("sim-root-X")];
    assert!(chain_contains(&owners, &c.sim_root));
    let resp = AdmissionDecision::from_request(&request());
    let out = mutate_pod(&c, resp, &pod, &owners, LifecycleOutcome::NotFound).unwrap();
    let patch = out.patch.expect("eligible pod must be patched");
    let rendered: Vec<(String, &JsonValue)> = patch.ops.iter().map(add_parts).collect();
    assert_eq!(rendered.len(), 4);
    assert_eq!(rendered[0].0, "/metadata/labels");
    assert!(matches!(rendered[0].1, JsonValue::EmptyObject));
    assert_eq!(rendered[1].0, "/metadata/labels/simkube.io~1simulation");
    match rendered[1].1 {
        JsonValue::Str(s) => assert_eq!(s, "sim-1"),
        _ => panic!("label value must be the simulation name"),
    }
    assert_eq!(rendered[2].0, "/spec/nodeSelector");
    match rendered[2].1 {
        JsonValue::StrMap(m) => assert_eq!(m, &vec![("type".to_string(), "virtual".to_string())]),
        _ => panic!("node selector must be a string map"),
    }
    assert_eq!(rendered[3].0, "/spec/tolerations/-");
    match rendered[3].1 {
        JsonValue::StrMap(m) => assert_eq!(
            m,
            &vec![
                ("key".to_string(), "simkube.io/virtual-node".to_string()),
                ("value".to_string(), "true".to_string()),
            ]
        ),
        _ => panic!("toleration must be a string map"),
    }
}

#[test]
fn existing_labels_container_is_not_recreated() {
    let c = ctx();
    let mut pod = bare_pod();
    pod.labels = Some(vec![("app".to_string(), "web".to_string())]);
    let mut patches = Vec::new();
    add_simulation_labels(&c, &pod, &mut patches).unwrap();
    assert_eq!(patches.len(), 1);
    let (p, _) = add_parts(&patches[0]);
    assert_eq!(p, "/metadata/labels/simkube.io~1simulation");
}

#[test]
fn missing_labels_container_is_created_first() {
    let c = ctx();
    let pod = bare_pod();
    let mut patches = Vec::new();
    add_simulation_labels(&c, &pod, &mut patches).unwrap();
    assert_eq!(patches.len(), 2);
    assert_eq!(add_parts(&patches[0]).0, "/metadata/labels");
    assert_eq!(add_parts(&patches[1]).0, "/metadata/labels/simkube.io~1simulation");
}

#[test]
fn missing_spec_fails_placement() {
    let c = ctx();
    let mut pod = bare_pod();
    pod.spec = None;
    let mut patches = Vec::new();
    let err = add_node_selector_tolerations(&c, &pod, &mut patches).unwrap_err();
    assert!(matches!(err, PlanError::MissingSpec));
    assert!(patches.is_empty());
}

#[test]
fn missing_spec_turns_into_error_for_eligible_pod() {
    let c = ctx();
    let mut pod = bare_pod();
    pod.spec = None;
    let owners = vec![owner("sim-root-X")];
    let resp = AdmissionDecision::from_request(&request());
    let err = mutate_pod(&c, resp, &pod, &owners, LifecycleOutcome::NotFound).unwrap_err();
    assert!(matches!(err, PlanError::MissingSpec));
}

#[test]
fn lifecycle_lookup_failure_aborts_planning() {
    let c = ctx();
    let pod = bare_pod();
    let owners = vec![owner("sim-root-X")];
    let resp = AdmissionDecision::from_request(&request());
    let err = mutate_pod(
        &c,
        resp,
        &pod,
        &owners,
        LifecycleOutcome::LookupFailed("store down".to_string()),
    )
    .unwrap_err();
    match err {
        PlanError::LifecycleLookup(m) => assert_eq!(m, "store down"),
        _ => panic!("lookup failure must surface as a lifecycle error"),
    }
}

#[test]
fn lifecycle_fragment_creates_annotations_container() {
    let c = ctx();
    let pod = bare_pod();
    let owners = vec![owner("sim-root-X")];
    let resp = AdmissionDecision::from_request(&request());
    let frag = PatchOperation::Add {
        path: vec![
            "metadata".to_string(),
            "annotations".to_string(),
            "simkube.io/lifecycle".to_string(),
        ],
        value: JsonValue::Str("1234".to_string()),
    };
    let out = mutate_pod(&c, resp, &pod, &owners, LifecycleOutcome::Found(frag)).unwrap();
    let patch = out.patch.unwrap();
    let paths: Vec<String> = patch.ops.iter().map(|o| add_parts(o).0).collect();
    assert_eq!(
        paths,
        vec![
            "/metadata/labels",
            "/metadata/labels/simkube.io~1simulation",
            "/metadata/annotations",
            "/metadata/annotations/simkube.io~1lifecycle",
            "/spec/nodeSelector",
            "/spec/tolerations/-",
        ]
    );
}

#[test]
fn lifecycle_keys_follow_owner_order() {
    let c = ctx();
    let mut pod = bare_pod();
    pod.annotations = Some(vec![(
        "simkube.io/original-namespace".to_string(),
        "prod".to_string(),
    )]);
    let owners = vec![owner("rs-1"), owner("deploy-1")];
    let keys = lifecycle_keys(&c, &pod, &owners);
    assert_eq!(keys, vec!["prod/rs-1".to_string(), "prod/deploy-1".to_string()]);
}

#[test]
fn lifecycle_keys_empty_without_replay_annotation() {
    let c = ctx();
    let pod = bare_pod();
    let owners = vec![owner("rs-1")];
    let keys = lifecycle_keys(&c, &pod, &owners);
    assert!(keys.is_empty());
}

#[test]
fn empty_owner_chain_is_ineligible() {
    let c = ctx();
    let owners: Vec<OwnerReference> = Vec::new();
    assert!(!chain_contains(&owners, &c.sim_root));
}
