//! The planned patch must be a valid RFC 6902 document for the pod it was
//! planned for: here it is applied with the real `json_patch` engine to the
//! pod's real JSON document and the outcome is inspected.

use sim_admission::json::JsonValue;
use sim_admission::patch::PatchOperation;
use sim_admission::planner::{mutate_pod, LifecycleOutcome};
use sim_admission::pod::{OwnerReference, Pod, PodSpec, Toleration};
use sim_admission::response::{AdmissionDecision, AdmissionRequest, TypeMeta};
use sim_admission::SimulationContext;

use serde_json::Value;

fn ctx() -> SimulationContext {
    SimulationContext {
        name: "sim-1".to_string(),
        sim_root: "sim-root-X".to_string(),
        label_key: "simkube.io/simulation".to_string(),
        orig_ns_annotation_key: "simkube.io/original-namespace".to_string(),
        toleration_key: "simkube.io/virtual-node".to_string(),
        virtual_value: "virtual".to_string(),
    }
}

fn value_of(v: &JsonValue) -> Value {
    match v {
        JsonValue::Str(s) => Value::String(s.clone()),
        JsonValue::EmptyObject => Value::Object(serde_json::Map::new()),
        JsonValue::EmptyArray => Value::Array(Vec::new()),
        JsonValue::StrMap(m) => {
            let mut o = serde_json::Map::new();
            for (k, val) in m {
                o.insert(k.clone(), Value::String(val.clone()));
            }
            Value::Object(o)
        }
    }
}

fn op_value(op: &PatchOperation) -> Value {
    let mut o = serde_json::Map::new();
    match op {
        PatchOperation::Add { value, .. } => {
            o.insert("op".to_string(), Value::String("add".to_string()));
            o.insert("path".to_string(), Value::String(op.pointer()));
            o.insert("value".to_string(), value_of(value));
        }
        PatchOperation::Replace { value, .. } => {
            o.insert("op".to_string(), Value::String("replace".to_string()));
            o.insert("path".to_string(), Value::String(op.pointer()));
            o.insert("value".to_string(), value_of(value));
        }
        PatchOperation::Remove { .. } => {
            o.insert("op".to_string(), Value::String("remove".to_string()));
            o.insert("path".to_string(), Value::String(op.pointer()));
        }
    }
    Value::Object(o)
}

fn pod_json(pod: &Pod) -> Value {
    let mut meta = serde_json::Map::new();
    meta.insert("name".to_string(), Value::String(pod.name.clone()));
    meta.insert("namespace".to_string(), Value::String(pod.namespace.clone()));
    if let Some(labels) = &pod.labels {
        let mut m = serde_json::Map::new();
        for (k, v) in labels {
            m.insert(k.clone(), Value::String(v.clone()));
        }
        meta.insert("labels".to_string(), Value::Object(m));
    }
    if let Some(anns) = &pod.annotations {
        let mut m = serde_json::Map::new();
        for (k, v) in anns {
            m.insert(k.clone(), Value::String(v.clone()));
        }
        meta.insert("annotations".to_string(), Value::Object(m));
    }
    let mut root = serde_json::Map::new();
    root.insert("metadata".to_string(), Value::Object(meta));
    if let Some(spec) = &pod.spec {
        let mut s = serde_json::Map::new();
        if let Some(sel) = &spec.node_selector {
            let mut m = serde_json::Map::new();
            for (k, v) in sel {
                m.insert(k.clone(), Value::String(v.clone()));
            }
            s.insert("nodeSelector".to_string(), Value::Object(m));
        }
        if let Some(tols) = &spec.tolerations {
            let mut arr = Vec::new();
            for t in tols {
                let mut m = serde_json::Map::new();
                m.insert("key".to_string(), Value::String(t.key.clone()));
                m.insert("value".to_string(), Value::String(t.value.clone()));
                arr.push(Value::Object(m));
            }
            s.insert("tolerations".to_string(), Value::Array(arr));
        }
        root.insert("spec".to_string(), Value::Object(s));
    }
    Value::Object(root)
}

fn plan_and_apply(pod: &Pod, lifecycle: LifecycleOutcome) -> Value {
    let c = ctx();
    let owners = vec![
        OwnerReference { name: "rs-1".to_string() },
        OwnerReference { name: "sim-root-X".to_string() },
    ];
    let req = AdmissionRequest {
        types: TypeMeta {
            api_version: "admission.k8s.io/v1".to_string(),
            kind: "AdmissionReview".to_string(),
        },
        uid: "u".to_string(),
        object: None,
    };
    let resp = AdmissionDecision::from_request(&req);
    let out = mutate_pod(&c, resp, pod, &owners, lifecycle).unwrap();
    let patch = out.patch.expect("eligible pod must be patched");
    let ops: Vec<Value> = patch.ops.iter().map(op_value).collect();
    let parsed: json_patch::Patch = serde_json::from_value(Value::Array(ops)).unwrap();
    let mut doc = pod_json(pod);
    json_patch::patch(&mut doc, &parsed).expect("the planned patch must apply cleanly");
    doc
}

#[test]
fn patch_applies_to_a_bare_pod() {
    let pod = Pod {
        namespace: "default".to_string(),
        name: "P1".to_string(),
        labels: None,
        annotations: None,
        owner_references: vec![OwnerReference { name: "rs-1".to_string() }],
        spec: Some(PodSpec { tolerations: None, node_selector: None }),
    };
    let doc = plan_and_apply(&pod, LifecycleOutcome::NotFound);
    assert_eq!(
        doc["metadata"]["labels"]["simkube.io/simulation"],
        Value::String("sim-1".to_string())
    );
    assert_eq!(doc["spec"]["nodeSelector"]["type"], Value::String("virtual".to_string()));
    let tols = doc["spec"]["tolerations"].as_array().unwrap();
    assert_eq!(tols.len(), 1);
    assert_eq!(tols[0]["key"], Value::String("simkube.io/virtual-node".to_string()));
    assert_eq!(tols[0]["value"], Value::String("true".to_string()));
}

#[test]
fn patch_applies_to_a_fully_populated_pod() {
    let pod = Pod {
        namespace: "prod".to_string(),
        name: "P2".to_string(),
        labels: Some(vec![("app".to_string(), "web".to_string())]),
        annotations: Some(vec![(
            "simkube.io/original-namespace".to_string(),
            "prod".to_string(),
        )]),
        owner_references: vec![OwnerReference { name: "rs-1".to_string() }],
        spec: Some(PodSpec {
            tolerations: Some(vec![Toleration {
                key: "dedicated".to_string(),
                value: "gpu".to_string(),
            }]),
            node_selector: Some(vec![("zone".to_string(), "a".to_string())]),
        }),
    };
    let frag = PatchOperation::Add {
        path: vec![
            "metadata".to_string(),
            "annotations".to_string(),
            "simkube.io/lifecycle".to_string(),
        ],
        value: JsonValue::Str("1234".to_string()),
    };
    let doc = plan_and_apply(&pod, LifecycleOutcome::Found(frag));
    // Existing data survives; new data lands.
    assert_eq!(doc["metadata"]["labels"]["app"], Value::String("web".to_string()));
    assert_eq!(
        doc["metadata"]["labels"]["simkube.io/simulation"],
        Value::String("sim-1".to_string())
    );
    assert_eq!(
        doc["metadata"]["annotations"]["simkube.io/lifecycle"],
        Value::String("1234".to_string())
    );
    // The node selector is overwritten to virtual capacity.
    assert_eq!(doc["spec"]["nodeSelector"]["type"], Value::String("virtual".to_string()));
    assert!(doc["spec"]["nodeSelector"].get("zone").is_none());
    // The toleration is appended after the existing one.
    let tols = doc["spec"]["tolerations"].as_array().unwrap();
    assert_eq!(tols.len(), 2);
    assert_eq!(tols[0]["key"], Value::String("dedicated".to_string()));
    assert_eq!(tols[1]["key"], Value::String("simkube.io/virtual-node".to_string()));
}
