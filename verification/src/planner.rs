//! The mutation planner: decides whether a pod belongs to the simulated
//! workload tree and, if so, composes the ordered patch — simulation label,
//! optional lifecycle annotation, virtual-node placement.  A container-
//! creating operation always precedes the operations that target inside it.

use vstd::prelude::*;
use crate::SimulationContext;
use crate::json::{dash_seg, JsonDoc, JsonValue, OpModel};
use crate::patch::{ops_model, Patch, PatchOperation};
use crate::pod::{OwnerReference, Pod};
use crate::response::AdmissionDecision;

verus! {

/// Why planning failed; every variant becomes an explicit deny.
#[derive(Debug)]
pub enum PlanError {
    /// The external accessor failed while the ownership chain was resolved.
    ChainResolution(String),
    /// The lifecycle store failed during a lookup.
    LifecycleLookup(String),
    /// The pod has no spec, which placement requires.
    MissingSpec,
}

/// What the lifecycle store yielded for the pod, walking the owners
/// nearest-to-farthest: the first non-empty annotation fragment, nothing,
/// or a lookup failure.
pub enum LifecycleOutcome {
    Found(PatchOperation),
    NotFound,
    LookupFailed(String),
}

/// The message a deny decision carries for a planning failure.
pub open spec fn plan_error_message(e: PlanError) -> Seq<char> {
    match e {
        PlanError::ChainResolution(m) => m@,
        PlanError::LifecycleLookup(m) => m@,
        PlanError::MissingSpec => "pod has no spec"@,
    }
}

impl PlanError {
    /// Renders the failure as a message.
    pub fn message(&self) -> (r: String)
        ensures
            r@ == plan_error_message(*self),
    {
        match self {
            PlanError::ChainResolution(m) => m.clone(),
            PlanError::LifecycleLookup(m) => m.clone(),
            PlanError::MissingSpec => String::from_str("pod has no spec"),
        }
    }
}

/// The annotation fragment an outcome carries, if any.
pub open spec fn outcome_fragment(l: LifecycleOutcome) -> Option<OpModel> {
    match l {
        LifecycleOutcome::Found(op) => Some(op.model()),
        LifecycleOutcome::NotFound => None,
        LifecycleOutcome::LookupFailed(_) => None,
    }
}

/// Whether the resolved chain contains an owner with the given name.
pub open spec fn chain_contains_spec(owners: Seq<OwnerReference>, root: Seq<char>) -> bool {
    exists|i: int| 0 <= i < owners.len() && owners[i].name@ == root
}

/// Eligibility test: does the chain contain the simulation root?
pub fn chain_contains(owners: &Vec<OwnerReference>, root: &String) -> (r: bool)
    ensures
        r == chain_contains_spec(owners@, root@),
{
    let mut i: usize = 0;
    while i < owners.len()
        invariant
            i <= owners.len(),
            forall|j: int| 0 <= j < i ==> owners@[j].name@ != root@,
        decreases owners.len() - i,
    {
        if owners[i].name.eq(root) {
            proof {
                assert(chain_contains_spec(owners@, root@));
            }
            return true;
        }
        i = i + 1;
    }
    false
}

/// The operation that creates an empty labels container.
pub open spec fn create_labels_op() -> OpModel {
    OpModel::Add { path: seq!["metadata"@, "labels"@], value: JsonDoc::Obj(Map::empty()) }
}

/// The operation that sets the simulation label.
pub open spec fn set_label_op(label_key: Seq<char>, name: Seq<char>) -> OpModel {
    OpModel::Add { path: seq!["metadata"@, "labels"@, label_key], value: JsonDoc::Str(name) }
}

/// The label sub-mutation: create the container only when it is missing,
/// then always set the simulation label.
pub open spec fn label_ops(pod: Pod, label_key: Seq<char>, name: Seq<char>) -> Seq<OpModel> {
    if pod.labels is None {
        seq![create_labels_op(), set_label_op(label_key, name)]
    } else {
        seq![set_label_op(label_key, name)]
    }
}

/// The operation that creates an empty annotations container.
pub open spec fn create_annotations_op() -> OpModel {
    OpModel::Add { path: seq!["metadata"@, "annotations"@], value: JsonDoc::Obj(Map::empty()) }
}

/// The lifecycle sub-mutation: nothing without a fragment; otherwise the
/// fragment, preceded by a container creation when annotations are missing.
pub open spec fn lifecycle_ops(pod: Pod, frag: Option<OpModel>) -> Seq<OpModel> {
    match frag {
        None => Seq::empty(),
        Some(op) => if pod.annotations is None {
            seq![create_annotations_op(), op]
        } else {
            seq![op]
        },
    }
}

/// The operation that creates an empty tolerations array.
pub open spec fn create_tolerations_op() -> OpModel {
    OpModel::Add { path: seq!["spec"@, "tolerations"@], value: JsonDoc::Arr(Seq::empty()) }
}

/// The fixed virtual-capacity node selector.
pub open spec fn selector_doc(virtual_value: Seq<char>) -> JsonDoc {
    JsonDoc::Obj(Map::empty().insert("type"@, JsonDoc::Str(virtual_value)))
}

/// The appended toleration entry.
pub open spec fn toleration_entry_doc(tol_key: Seq<char>) -> JsonDoc {
    JsonDoc::Obj(
        Map::empty().insert("key"@, JsonDoc::Str(tol_key)).insert("value"@, JsonDoc::Str("true"@)),
    )
}

/// The placement sub-mutation: create the tolerations array only when it is
/// missing, then overwrite the node selector and append one toleration.
pub open spec fn placement_ops(pod: Pod, tol_key: Seq<char>, virtual_value: Seq<char>) -> Seq<
    OpModel,
> {
    let sel = OpModel::Add { path: seq!["spec"@, "nodeSelector"@], value: selector_doc(
        virtual_value,
    ) };
    let tol = OpModel::Add {
        path: seq!["spec"@, "tolerations"@, dash_seg()],
        value: toleration_entry_doc(tol_key),
    };
    match pod.spec {
        Some(s) => if s.tolerations is None {
            seq![create_tolerations_op(), sel, tol]
        } else {
            seq![sel, tol]
        },
        None => Seq::empty(),
    }
}

/// The whole planned patch of an eligible pod.
pub open spec fn plan_ops(pod: Pod, ctx: SimulationContext, frag: Option<OpModel>) -> Seq<
    OpModel,
> {
    label_ops(pod, ctx.label_key@, ctx.name@) + lifecycle_ops(pod, frag) + placement_ops(
        pod,
        ctx.toleration_key@,
        ctx.virtual_value@,
    )
}

/// Appends the label sub-mutation.
pub fn add_simulation_labels(
    ctx: &SimulationContext,
    pod: &Pod,
    patches: &mut Vec<PatchOperation>,
) -> (r: Result<(), PlanError>)
    ensures
        r is Ok,
        ops_model(final(patches)@) == ops_model(old(patches)@) + label_ops(
            *pod,
            ctx.label_key@,
            ctx.name@,
        ),
{
    if pod.labels.is_none() {
        let op = PatchOperation::Add {
            path: vec![String::from_str("metadata"), String::from_str("labels")],
            value: JsonValue::EmptyObject,
        };
        proof {
            assert(op.model()->Add_path =~= create_labels_op()->Add_path);
            assert(op.model() == create_labels_op());
        }
        patches.push(op);
    }
    let op = PatchOperation::Add {
        path: vec![
            String::from_str("metadata"),
            String::from_str("labels"),
            ctx.label_key.clone(),
        ],
        value: JsonValue::Str(ctx.name.clone()),
    };
    proof {
        assert(op.model()->Add_path =~= set_label_op(ctx.label_key@, ctx.name@)->Add_path);
        assert(op.model() == set_label_op(ctx.label_key@, ctx.name@));
    }
    patches.push(op);
    proof {
        assert(ops_model(patches@) =~= ops_model(old(patches)@) + label_ops(
            *pod,
            ctx.label_key@,
            ctx.name@,
        ));
    }
    Ok(())
}

/// Appends the lifecycle sub-mutation for the fragment the store yielded.
pub fn add_lifecycle_annotation(
    pod: &Pod,
    frag: Option<PatchOperation>,
    patches: &mut Vec<PatchOperation>,
) -> (r: Result<(), PlanError>)
    ensures
        r is Ok,
        ops_model(final(patches)@) == ops_model(old(patches)@) + lifecycle_ops(
            *pod,
            match frag {
                Some(op) => Some(op.model()),
                None => None,
            },
        ),
{
    match frag {
        None => {
            proof {
                assert(ops_model(patches@) =~= ops_model(old(patches)@) + lifecycle_ops(
                    *pod,
                    None,
                ));
            }
            Ok(())
        },
        Some(op) => {
            if pod.annotations.is_none() {
                let create = PatchOperation::Add {
                    path: vec![String::from_str("metadata"), String::from_str("annotations")],
                    value: JsonValue::EmptyObject,
                };
                proof {
                    assert(create.model()->Add_path
                        =~= create_annotations_op()->Add_path);
                    assert(create.model() == create_annotations_op());
                }
                patches.push(create);
            }
            let ghost m = op.model();
            patches.push(op);
            proof {
                assert(ops_model(patches@) =~= ops_model(old(patches)@) + lifecycle_ops(
                    *pod,
                    Some(m),
                ));
            }
            Ok(())
        },
    }
}

/// Appends the placement sub-mutation; fails when the pod has no spec.
pub fn add_node_selector_tolerations(
    ctx: &SimulationContext,
    pod: &Pod,
    patches: &mut Vec<PatchOperation>,
) -> (r: Result<(), PlanError>)
    ensures
        pod.spec is None ==> r == Err::<(), PlanError>(PlanError::MissingSpec)
            && final(patches)@ == old(patches)@,
        pod.spec is Some ==> r is Ok && ops_model(final(patches)@) == ops_model(old(patches)@)
            + placement_ops(*pod, ctx.toleration_key@, ctx.virtual_value@),
{
    let spec_present = match &pod.spec {
        Some(s) => {
            if s.tolerations.is_none() {
                let op = PatchOperation::Add {
                    path: vec![String::from_str("spec"), String::from_str("tolerations")],
                    value: JsonValue::EmptyArray,
                };
                proof {
                    assert(op.model()->Add_path
                        =~= create_tolerations_op()->Add_path);
                    assert(op.model() == create_tolerations_op());
                }
                patches.push(op);
            }
            true
        },
        None => false,
    };
    if !spec_present {
        return Err(PlanError::MissingSpec);
    }
    let sel_pairs = vec![(String::from_str("type"), ctx.virtual_value.clone())];
    let ghost sel_pv = crate::json::pairs_view(sel_pairs@);
    let sel = PatchOperation::Add {
        path: vec![String::from_str("spec"), String::from_str("nodeSelector")],
        value: JsonValue::StrMap(sel_pairs),
    };
    proof {
        assert(sel_pv.len() == 1 && sel_pv[0] == ("type"@, ctx.virtual_value@));
        assert(sel_pv.drop_last() =~= Seq::<(Seq<char>, Seq<char>)>::empty());
        assert(crate::json::pairs_doc(Seq::<(Seq<char>, Seq<char>)>::empty()) =~= Map::empty());
        assert(crate::json::pairs_doc(sel_pv) =~= Map::empty().insert(
            "type"@,
            JsonDoc::Str(ctx.virtual_value@),
        ));
        assert(sel.model()->Add_path =~= seq!["spec"@, "nodeSelector"@]);
        assert(sel.model()->Add_value == selector_doc(ctx.virtual_value@));
    }
    patches.push(sel);
    let tol_pairs = vec![
        (String::from_str("key"), ctx.toleration_key.clone()),
        (String::from_str("value"), String::from_str("true")),
    ];
    let ghost tol_pv = crate::json::pairs_view(tol_pairs@);
    let tol = PatchOperation::Add {
        path: vec![
            String::from_str("spec"),
            String::from_str("tolerations"),
            String::from_str("-"),
        ],
        value: JsonValue::StrMap(tol_pairs),
    };
    proof {
        reveal_strlit("-");
        assert(tol_pv.len() == 2 && tol_pv[0] == ("key"@, ctx.toleration_key@) && tol_pv[1] == (
            "value"@,
            "true"@,
        ));
        assert(tol_pv.drop_last() =~= seq![tol_pv[0]]);
        assert(seq![tol_pv[0]].drop_last() =~= Seq::<(Seq<char>, Seq<char>)>::empty());
        assert(crate::json::pairs_doc(Seq::<(Seq<char>, Seq<char>)>::empty()) =~= Map::empty());
        assert(crate::json::pairs_doc(seq![tol_pv[0]]) =~= Map::empty().insert(
            "key"@,
            JsonDoc::Str(ctx.toleration_key@),
        ));
        assert(crate::json::pairs_doc(tol_pv) =~= Map::empty().insert(
            "key"@,
            JsonDoc::Str(ctx.toleration_key@),
        ).insert("value"@, JsonDoc::Str("true"@)));
        assert(tol.model()->Add_path =~~= seq!["spec"@, "tolerations"@, dash_seg()]);
        assert(tol.model()->Add_value == toleration_entry_doc(ctx.toleration_key@));
    }
    patches.push(tol);
    proof {
        assert(ops_model(patches@) =~= ops_model(old(patches)@) + placement_ops(
            *pod,
            ctx.toleration_key@,
            ctx.virtual_value@,
        ));
    }
    Ok(())
}

/// Plans the mutation of one pod.  Ineligible pods pass unchanged; for an
/// eligible pod the three sub-mutations are composed in order; a lifecycle
/// lookup failure or a missing spec aborts planning with an error.
pub fn mutate_pod(
    ctx: &SimulationContext,
    resp: AdmissionDecision,
    pod: &Pod,
    owners: &Vec<OwnerReference>,
    lifecycle: LifecycleOutcome,
) -> (r: Result<AdmissionDecision, PlanError>)
    ensures
        !chain_contains_spec(owners@, ctx.sim_root@) ==> r == Ok::<
            AdmissionDecision,
            PlanError,
        >(resp),
        chain_contains_spec(owners@, ctx.sim_root@) && lifecycle is LookupFailed ==> r == Err::<
            AdmissionDecision,
            PlanError,
        >(PlanError::LifecycleLookup(lifecycle->LookupFailed_0)),
        chain_contains_spec(owners@, ctx.sim_root@) && !(lifecycle is LookupFailed) && pod.spec
            is None ==> r == Err::<AdmissionDecision, PlanError>(PlanError::MissingSpec),
        chain_contains_spec(owners@, ctx.sim_root@) && !(lifecycle is LookupFailed) && pod.spec
            is Some ==> {
            &&& r is Ok
            &&& r->Ok_0.types == resp.types
            &&& r->Ok_0.uid == resp.uid
            &&& r->Ok_0.allowed == resp.allowed
            &&& r->Ok_0.status_message == resp.status_message
            &&& r->Ok_0.patch is Some
            &&& ops_model(r->Ok_0.patch->0.ops@) == plan_ops(
                *pod,
                *ctx,
                outcome_fragment(lifecycle),
            )
        },
{
    if !chain_contains(owners, &ctx.sim_root) {
        return Ok(resp);
    }
    let frag: Option<PatchOperation> = match lifecycle {
        LifecycleOutcome::Found(op) => Some(op),
        LifecycleOutcome::NotFound => None,
        LifecycleOutcome::LookupFailed(m) => {
            return Err(PlanError::LifecycleLookup(m));
        },
    };
    let ghost frag_model = match &frag {
        Some(op) => Some(op.model()),
        None => None,
    };
    let mut patches: Vec<PatchOperation> = Vec::new();
    match add_simulation_labels(ctx, pod, &mut patches) {
        Ok(()) => {},
        Err(e) => {
            return Err(e);
        },
    }
    match add_lifecycle_annotation(pod, frag, &mut patches) {
        Ok(()) => {},
        Err(e) => {
            return Err(e);
        },
    }
    match add_node_selector_tolerations(ctx, pod, &mut patches) {
        Err(e) => Err(e),
        Ok(()) => {
            proof {
                assert(ops_model(patches@) =~= plan_ops(*pod, *ctx, frag_model));
            }
            Ok(resp.with_patch(Patch { ops: patches }))
        },
    }
}

/// The composite key queried for one owner: `{origNamespace}/{ownerName}`.
pub open spec fn composite_key(ns: Seq<char>, name: Seq<char>) -> Seq<char> {
    ns + seq!['/'] + name
}

/// The lifecycle-store keys to probe, nearest owner first: empty unless the
/// pod carries the original-namespace annotation that marks it as a replay.
pub open spec fn lifecycle_keys_spec(pod: Pod, ann_key: Seq<char>, owners: Seq<OwnerReference>) -> Seq<
    Seq<char>,
> {
    match pod.annotation_spec(ann_key) {
        Some(ns) => owners.map_values(|o: OwnerReference| composite_key(ns, o.name@)),
        None => Seq::empty(),
    }
}

/// Builds the composite keys to probe, in owner order.
pub fn lifecycle_keys(ctx: &SimulationContext, pod: &Pod, owners: &Vec<OwnerReference>) -> (keys:
    Vec<String>)
    ensures
        keys@.map_values(|s: String| s@) == lifecycle_keys_spec(
            *pod,
            ctx.orig_ns_annotation_key@,
            owners@,
        ),
{
    match pod.annotation_of(&ctx.orig_ns_annotation_key) {
        None => {
            let keys: Vec<String> = Vec::new();
            proof {
                assert(keys@.map_values(|s: String| s@) =~= lifecycle_keys_spec(
                    *pod,
                    ctx.orig_ns_annotation_key@,
                    owners@,
                ));
            }
            keys
        },
        Some(ns) => {
            let ghost nsv = ns@;
            let mut keys: Vec<String> = Vec::new();
            let mut i: usize = 0;
            while i < owners.len()
                invariant
                    ns@ == nsv,
                    i <= owners.len(),
                    keys@.len() == i,
                    forall|j: int|
                        0 <= j < i ==> (#[trigger] keys@[j])@ == composite_key(
                            nsv,
                            owners@[j].name@,
                        ),
                decreases owners.len() - i,
            {
                let mut k = ns.clone();
                k.append("/");
                k.append(owners[i].name.as_str());
                proof {
                    reveal_strlit("/");
                    assert(k@ =~= composite_key(nsv, owners@[i as int].name@));
                }
                keys.push(k);
                i = i + 1;
            }
            proof {
                assert(keys@.map_values(|s: String| s@) =~= lifecycle_keys_spec(
                    *pod,
                    ctx.orig_ns_annotation_key@,
                    owners@,
                ));
            }
            keys
        },
    }
}

} // verus!
