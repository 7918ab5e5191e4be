//! The library's stated laws: how a planned patch is shaped and that it
//! applies cleanly, in order, to the pod it was planned for.

use vstd::prelude::*;
use crate::json::{apply_add, apply_op, apply_ops, dash_seg, JsonDoc, OpModel};
use crate::planner::{
    create_labels_op, create_annotations_op, create_tolerations_op, label_ops, lifecycle_ops,
    placement_ops, plan_ops, selector_doc, set_label_op, toleration_entry_doc,
};
use crate::pod::{metadata_members, pod_doc, spec_members, toleration_doc, Pod, Toleration};
use crate::SimulationContext;

verus! {

/// A lifecycle fragment as the store yields it: an `add` of one member
/// directly inside the annotations container.
pub open spec fn annotation_fragment(op: OpModel) -> bool {
    &&& op is Add
    &&& op->Add_path.len() == 3
    &&& op->Add_path[0] == "metadata"@
    &&& op->Add_path[1] == "annotations"@
}

/// For an eligible pod without a labels container, the patch's first two
/// operations are, in order: create the empty labels container, then set the
/// simulation label.
pub proof fn lemma_label_container_created_first(
    pod: Pod,
    ctx: SimulationContext,
    frag: Option<OpModel>,
)
    requires
        pod.labels is None,
    ensures
        plan_ops(pod, ctx, frag).len() >= 2,
        plan_ops(pod, ctx, frag)[0] == create_labels_op(),
        plan_ops(pod, ctx, frag)[1] == set_label_op(ctx.label_key@, ctx.name@),
{
    let a = label_ops(pod, ctx.label_key@, ctx.name@);
    let b = lifecycle_ops(pod, frag);
    let c = placement_ops(pod, ctx.toleration_key@, ctx.virtual_value@);
    assert(plan_ops(pod, ctx, frag) == a + b + c);
    assert((a + b + c)[0] == a[0]);
    assert((a + b + c)[1] == a[1]);
}

/// For an eligible pod whose labels container already exists, the patch
/// omits the labels-container-creation operation entirely.
pub proof fn lemma_no_label_container_creation(
    pod: Pod,
    ctx: SimulationContext,
    frag: Option<OpModel>,
)
    requires
        pod.labels is Some,
        frag matches Some(op) ==> annotation_fragment(op),
    ensures
        forall|i: int|
            0 <= i < plan_ops(pod, ctx, frag).len() ==> plan_ops(pod, ctx, frag)[i]
                != create_labels_op(),
{
    reveal_strlit("metadata");
    reveal_strlit("labels");
    reveal_strlit("annotations");
    reveal_strlit("spec");
    reveal_strlit("nodeSelector");
    reveal_strlit("tolerations");
    let a = label_ops(pod, ctx.label_key@, ctx.name@);
    let b = lifecycle_ops(pod, frag);
    let c = placement_ops(pod, ctx.toleration_key@, ctx.virtual_value@);
    assert(plan_ops(pod, ctx, frag) == a + b + c);
    assert("labels"@.len() != "annotations"@.len());
    assert("metadata"@.len() != "spec"@.len());
    assert forall|i: int|
        0 <= i < plan_ops(pod, ctx, frag).len() implies plan_ops(pod, ctx, frag)[i]
        != create_labels_op() by {
        let ops = a + b + c;
        assert(plan_ops(pod, ctx, frag)[i] == ops[i]);
        if i < a.len() {
            assert(ops[i] == a[i]);
            assert(a[0] == set_label_op(ctx.label_key@, ctx.name@));
            assert(a[0]->Add_path.len() == 3);
        } else if i < a.len() + b.len() {
            assert(ops[i] == b[i - a.len()]);
            match frag {
                None => {
                    assert(b.len() == 0);
                },
                Some(op) => {
                    if pod.annotations is None {
                        assert(b[0] == create_annotations_op());
                        assert(b[0]->Add_path[1] != create_labels_op()->Add_path[1]);
                        assert(b[1] == op);
                        assert(op->Add_path.len() == 3);
                    } else {
                        assert(b[0] == op);
                        assert(op->Add_path.len() == 3);
                    }
                },
            }
        } else {
            assert(ops[i] == c[i - a.len() - b.len()]);
            let sel = OpModel::Add {
                path: seq!["spec"@, "nodeSelector"@],
                value: selector_doc(ctx.virtual_value@),
            };
            let tol = OpModel::Add {
                path: seq!["spec"@, "tolerations"@, dash_seg()],
                value: toleration_entry_doc(ctx.toleration_key@),
            };
            assert(sel->Add_path[0] != create_labels_op()->Add_path[0]);
            assert(tol->Add_path.len() == 3);
            assert(create_tolerations_op()->Add_path[0] != create_labels_op()->Add_path[0]);
            match pod.spec {
                Some(s) => {
                    if s.tolerations is None {
                        assert(c == seq![create_tolerations_op(), sel, tol]);
                    } else {
                        assert(c == seq![sel, tol]);
                    }
                },
                None => {
                    assert(c.len() == 0);
                },
            }
        }
    }
}

/// Applying a concatenation of patches folds left to right.
proof fn lemma_apply_ops_app(d: JsonDoc, a: Seq<OpModel>, b: Seq<OpModel>)
    ensures
        apply_ops(d, a + b) == (match apply_ops(d, a) {
            Some(x) => apply_ops(x, b),
            None => None,
        }),
    decreases a.len(),
{
    if a.len() == 0 {
        assert(a + b =~= b);
    } else {
        assert((a + b)[0] == a[0]);
        assert((a + b).drop_first() =~= a.drop_first() + b);
        match apply_op(d, a[0]) {
            Some(x) => {
                lemma_apply_ops_app(x, a.drop_first(), b);
            },
            None => {},
        }
    }
}

/// `add` of a member at depth two, under an existing object member.
proof fn lemma_add2(m: Map<Seq<char>, JsonDoc>, a: Seq<char>, b: Seq<char>, v: JsonDoc)
    requires
        m.contains_key(a),
        m[a] is Obj,
    ensures
        apply_add(JsonDoc::Obj(m), seq![a, b], v) == Some(
            JsonDoc::Obj(m.insert(a, JsonDoc::Obj(m[a]->Obj_0.insert(b, v)))),
        ),
{
    let segs = seq![a, b];
    assert(segs.drop_first() =~= seq![b]);
    assert(apply_add(m[a], seq![b], v) == Some(JsonDoc::Obj(m[a]->Obj_0.insert(b, v))));
}

/// `add` of a member at depth three, under two existing object members.
proof fn lemma_add3(m: Map<Seq<char>, JsonDoc>, a: Seq<char>, b: Seq<char>, c: Seq<char>, v: JsonDoc)
    requires
        m.contains_key(a),
        m[a] is Obj,
        m[a]->Obj_0.contains_key(b),
        m[a]->Obj_0[b] is Obj,
    ensures
        apply_add(JsonDoc::Obj(m), seq![a, b, c], v) == Some(
            JsonDoc::Obj(
                m.insert(
                    a,
                    JsonDoc::Obj(
                        m[a]->Obj_0.insert(b, JsonDoc::Obj(m[a]->Obj_0[b]->Obj_0.insert(c, v))),
                    ),
                ),
            ),
        ),
{
    let segs = seq![a, b, c];
    assert(segs.drop_first() =~= seq![b, c]);
    lemma_add2(m[a]->Obj_0, b, c, v);
}

/// Array append at depth three: `/a/b/-` with an existing array at `a.b`.
proof fn lemma_add3_append(m: Map<Seq<char>, JsonDoc>, a: Seq<char>, b: Seq<char>, v: JsonDoc)
    requires
        m.contains_key(a),
        m[a] is Obj,
        m[a]->Obj_0.contains_key(b),
        m[a]->Obj_0[b] is Arr,
    ensures
        apply_add(JsonDoc::Obj(m), seq![a, b, dash_seg()], v) == Some(
            JsonDoc::Obj(
                m.insert(
                    a,
                    JsonDoc::Obj(
                        m[a]->Obj_0.insert(b, JsonDoc::Arr(m[a]->Obj_0[b]->Arr_0.push(v))),
                    ),
                ),
            ),
        ),
{
    let segs = seq![a, b, dash_seg()];
    assert(segs.drop_first() =~= seq![b, dash_seg()]);
    let m2 = m[a]->Obj_0;
    assert(seq![b, dash_seg()].drop_first() =~= seq![dash_seg()]);
    assert(apply_add(m2[b], seq![dash_seg()], v) == Some(
        JsonDoc::Arr(m2[b]->Arr_0.push(v)),
    ));
    assert(apply_add(m[a], seq![b, dash_seg()], v) == Some(
        JsonDoc::Obj(m2.insert(b, JsonDoc::Arr(m2[b]->Arr_0.push(v)))),
    ));
}

/// The member under a key, if the document is an object that carries it.
pub open spec fn doc_member(d: JsonDoc, k: Seq<char>) -> Option<JsonDoc> {
    match d {
        JsonDoc::Obj(m) => if m.contains_key(k) {
            Some(m[k])
        } else {
            None
        },
        _ => None,
    }
}

/// The member two keys deep.
pub open spec fn doc_member2(d: JsonDoc, k1: Seq<char>, k2: Seq<char>) -> Option<JsonDoc> {
    match doc_member(d, k1) {
        Some(x) => doc_member(x, k2),
        None => None,
    }
}

/// The member three keys deep.
pub open spec fn doc_member3(d: JsonDoc, k1: Seq<char>, k2: Seq<char>, k3: Seq<char>) -> Option<
    JsonDoc,
> {
    match doc_member2(d, k1, k2) {
        Some(x) => doc_member(x, k3),
        None => None,
    }
}

/// The tolerations the pod already carries, as documents.
pub open spec fn prior_tolerations(pod: Pod) -> Seq<JsonDoc> {
    match pod.spec {
        Some(s) => match s.tolerations {
            Some(t) => t@.map_values(|x: Toleration| toleration_doc(x)),
            None => Seq::empty(),
        },
        None => Seq::empty(),
    }
}

/// The planned patch of an eligible pod is a valid patch for that pod:
/// applied in order to the pod's document it succeeds without conflict, and
/// the result carries the simulation label, the fixed virtual node selector,
/// and the appended toleration after any the pod already had.
pub proof fn lemma_planned_patch_applies(pod: Pod, ctx: SimulationContext, frag: Option<OpModel>)
    requires
        pod.spec is Some,
        frag matches Some(op) ==> annotation_fragment(op),
    ensures
        apply_ops(pod_doc(pod), plan_ops(pod, ctx, frag)) is Some,
        doc_member3(
            apply_ops(pod_doc(pod), plan_ops(pod, ctx, frag))->0,
            "metadata"@,
            "labels"@,
            ctx.label_key@,
        ) == Some(JsonDoc::Str(ctx.name@)),
        doc_member2(
            apply_ops(pod_doc(pod), plan_ops(pod, ctx, frag))->0,
            "spec"@,
            "nodeSelector"@,
        ) == Some(selector_doc(ctx.virtual_value@)),
        doc_member2(
            apply_ops(pod_doc(pod), plan_ops(pod, ctx, frag))->0,
            "spec"@,
            "tolerations"@,
        ) == Some(
            JsonDoc::Arr(prior_tolerations(pod).push(toleration_entry_doc(ctx.toleration_key@))),
        ),
{
    reveal_strlit("metadata");
    reveal_strlit("spec");
    reveal_strlit("labels");
    reveal_strlit("annotations");
    reveal_strlit("nodeSelector");
    reveal_strlit("tolerations");
    assert("metadata"@.len() == 8);
    assert("spec"@.len() == 4);
    assert("metadata"@ != "spec"@);
    assert("labels"@.len() == 6);
    assert("annotations"@.len() == 11);
    assert("labels"@ != "annotations"@);
    assert("nodeSelector"@.len() == 12);
    assert("tolerations"@.len() == 11);
    assert("nodeSelector"@ != "tolerations"@);
    let a = label_ops(pod, ctx.label_key@, ctx.name@);
    let b = lifecycle_ops(pod, frag);
    let c = placement_ops(pod, ctx.toleration_key@, ctx.virtual_value@);
    assert(plan_ops(pod, ctx, frag) == a + b + c);
    let meta0 = metadata_members(pod);
    let spc0 = spec_members(pod.spec->0);
    let root0 = Map::empty().insert("metadata"@, JsonDoc::Obj(meta0)).insert(
        "spec"@,
        JsonDoc::Obj(spc0),
    );
    assert(pod_doc(pod) == JsonDoc::Obj(root0));
    // Labels phase.
    let ml0: Map<Seq<char>, JsonDoc> = match pod.labels {
        Some(l) => crate::json::pairs_doc(crate::json::pairs_view(l@)),
        None => Map::empty(),
    };
    let ml1 = ml0.insert(ctx.label_key@, JsonDoc::Str(ctx.name@));
    let meta_l = meta0.insert("labels"@, JsonDoc::Obj(ml1));
    let root_l = root0.insert("metadata"@, JsonDoc::Obj(meta_l));
    if pod.labels is None {
        let rootx = root0.insert(
            "metadata"@,
            JsonDoc::Obj(meta0.insert("labels"@, JsonDoc::Obj(Map::empty()))),
        );
        lemma_add2(root0, "metadata"@, "labels"@, JsonDoc::Obj(Map::empty()));
        lemma_add3(
            rootx,
            "metadata"@,
            "labels"@,
            ctx.label_key@,
            JsonDoc::Str(ctx.name@),
        );
        assert(a =~= seq![create_labels_op(), set_label_op(ctx.label_key@, ctx.name@)]);
        assert(a.drop_first() =~= seq![set_label_op(ctx.label_key@, ctx.name@)]);
        assert(seq![set_label_op(ctx.label_key@, ctx.name@)].drop_first()
            =~= Seq::<OpModel>::empty());
        let rooty = rootx.insert(
            "metadata"@,
            JsonDoc::Obj(
                rootx["metadata"@]->Obj_0.insert(
                    "labels"@,
                    JsonDoc::Obj(
                        rootx["metadata"@]->Obj_0["labels"@]->Obj_0.insert(
                            ctx.label_key@,
                            JsonDoc::Str(ctx.name@),
                        ),
                    ),
                ),
            ),
        );
        let d0 = JsonDoc::Obj(root0);
        assert(a[0] == create_labels_op());
        assert(a[1] == set_label_op(ctx.label_key@, ctx.name@));
        assert(root0["metadata"@] == JsonDoc::Obj(meta0));
        assert(apply_op(d0, a[0]) == apply_add(d0, seq!["metadata"@, "labels"@], JsonDoc::Obj(
            Map::empty(),
        )));
        assert(root0.insert(
            "metadata"@,
            JsonDoc::Obj(root0["metadata"@]->Obj_0.insert("labels"@, JsonDoc::Obj(Map::empty()))),
        ) == rootx);
        assert(apply_op(d0, a[0]) == Some(JsonDoc::Obj(rootx)));
        let d1 = JsonDoc::Obj(rootx);
        assert(apply_op(d1, a[1]) == apply_add(d1, seq!["metadata"@, "labels"@, ctx.label_key@],
            JsonDoc::Str(ctx.name@)));
        assert(apply_op(d1, a[1]) == Some(JsonDoc::Obj(rooty)));
        assert(apply_ops(JsonDoc::Obj(rooty), Seq::<OpModel>::empty()) == Some(
            JsonDoc::Obj(rooty),
        ));
        assert(apply_ops(d1, seq![a[1]]) == Some(JsonDoc::Obj(rooty)));
        assert(apply_ops(d1, a.drop_first()) == Some(JsonDoc::Obj(rooty)));
        assert(apply_ops(d0, a) == Some(JsonDoc::Obj(rooty)));
        assert(rootx["metadata"@] == JsonDoc::Obj(
            meta0.insert("labels"@, JsonDoc::Obj(Map::empty())),
        ));
        assert(rootx["metadata"@]->Obj_0["labels"@] == JsonDoc::Obj(
            Map::<Seq<char>, JsonDoc>::empty(),
        ));
        assert(ml0 =~~= Map::<Seq<char>, JsonDoc>::empty());
        assert(rootx["metadata"@]->Obj_0["labels"@]->Obj_0.insert(
            ctx.label_key@,
            JsonDoc::Str(ctx.name@),
        ) =~~= ml1);
        assert(rootx["metadata"@]->Obj_0.insert(
            "labels"@,
            JsonDoc::Obj(
                rootx["metadata"@]->Obj_0["labels"@]->Obj_0.insert(
                    ctx.label_key@,
                    JsonDoc::Str(ctx.name@),
                ),
            ),
        ) =~~= meta_l);
        assert(rooty =~~= root_l);
        assert(apply_ops(JsonDoc::Obj(root0), a) == Some(JsonDoc::Obj(root_l))) by {
            assert(JsonDoc::Obj(rooty) == JsonDoc::Obj(root_l));
        }
    } else {
        lemma_add3(root0, "metadata"@, "labels"@, ctx.label_key@, JsonDoc::Str(ctx.name@));
        assert(a =~= seq![set_label_op(ctx.label_key@, ctx.name@)]);
        assert(a.drop_first() =~= Seq::<OpModel>::empty());
        assert(meta0.contains_key("labels"@) && meta0["labels"@] == JsonDoc::Obj(ml0));
        let rooty = root0.insert(
            "metadata"@,
            JsonDoc::Obj(meta0.insert("labels"@, JsonDoc::Obj(ml1))),
        );
        let d0 = JsonDoc::Obj(root0);
        assert(root0["metadata"@] == JsonDoc::Obj(meta0));
        assert(apply_op(d0, a[0]) == apply_add(d0, seq!["metadata"@, "labels"@, ctx.label_key@],
            JsonDoc::Str(ctx.name@)));
        assert(apply_op(d0, a[0]) == Some(JsonDoc::Obj(rooty)));
        assert(apply_ops(JsonDoc::Obj(rooty), Seq::<OpModel>::empty()) == Some(
            JsonDoc::Obj(rooty),
        ));
        assert(apply_ops(d0, a) == Some(JsonDoc::Obj(rooty)));
        assert(rooty =~~= root_l);
        assert(JsonDoc::Obj(rooty) == JsonDoc::Obj(root_l));
    }
    // Annotations phase.
    let meta_a = match frag {
        Some(op) => {
            let ma0: Map<Seq<char>, JsonDoc> = match pod.annotations {
                Some(an) => crate::json::pairs_doc(crate::json::pairs_view(an@)),
                None => Map::empty(),
            };
            meta_l.insert(
                "annotations"@,
                JsonDoc::Obj(ma0.insert(op->Add_path[2], op->Add_value)),
            )
        },
        None => meta_l,
    };
    let root_a = root_l.insert("metadata"@, JsonDoc::Obj(meta_a));
    match frag {
        None => {
            assert(b =~= Seq::<OpModel>::empty());
            assert(apply_ops(JsonDoc::Obj(root_l), b) == Some(JsonDoc::Obj(root_l)));
            assert(root_a =~~= root_l);
            assert(JsonDoc::Obj(root_a) == JsonDoc::Obj(root_l));
        },
        Some(op) => {
            let k3 = op->Add_path[2];
            let v3 = op->Add_value;
            assert(op->Add_path =~= seq!["metadata"@, "annotations"@, k3]);
            assert(op == (OpModel::Add { path: seq!["metadata"@, "annotations"@, k3], value: v3 }));
            if pod.annotations is None {
                assert(b =~= seq![create_annotations_op(), op]);
                assert(b.drop_first() =~= seq![op]);
                assert(seq![op].drop_first() =~= Seq::<OpModel>::empty());
                let rootx = root_l.insert(
                    "metadata"@,
                    JsonDoc::Obj(meta_l.insert("annotations"@, JsonDoc::Obj(Map::empty()))),
                );
                lemma_add2(root_l, "metadata"@, "annotations"@, JsonDoc::Obj(Map::empty()));
                lemma_add3(rootx, "metadata"@, "annotations"@, k3, v3);
                let rooty = rootx.insert(
                    "metadata"@,
                    JsonDoc::Obj(
                        rootx["metadata"@]->Obj_0.insert(
                            "annotations"@,
                            JsonDoc::Obj(
                                rootx["metadata"@]->Obj_0["annotations"@]->Obj_0.insert(k3, v3),
                            ),
                        ),
                    ),
                );
                let d0 = JsonDoc::Obj(root_l);
                assert(b[0] == create_annotations_op());
                assert(b[1] == op);
                assert(root_l["metadata"@] == JsonDoc::Obj(meta_l));
                assert(apply_op(d0, b[0]) == apply_add(d0, seq!["metadata"@, "annotations"@],
                    JsonDoc::Obj(Map::empty())));
                assert(apply_op(d0, b[0]) == Some(JsonDoc::Obj(rootx)));
                let d1 = JsonDoc::Obj(rootx);
                assert(apply_op(d1, b[1]) == apply_add(d1, op->Add_path, v3));
                assert(apply_add(d1, op->Add_path, v3) == apply_add(d1, seq!["metadata"@,
                    "annotations"@, k3], v3));
                assert(apply_op(d1, b[1]) == Some(JsonDoc::Obj(rooty)));
                assert(apply_ops(JsonDoc::Obj(rooty), Seq::<OpModel>::empty()) == Some(
                    JsonDoc::Obj(rooty),
                ));
                assert(apply_ops(d1, seq![b[1]]) == Some(JsonDoc::Obj(rooty)));
                assert(apply_ops(d1, b.drop_first()) == Some(JsonDoc::Obj(rooty)));
                assert(apply_ops(d0, b) == Some(JsonDoc::Obj(rooty)));
                assert(rootx["metadata"@] == JsonDoc::Obj(
                    meta_l.insert("annotations"@, JsonDoc::Obj(Map::empty())),
                ));
                assert(rootx["metadata"@]->Obj_0["annotations"@] == JsonDoc::Obj(
                    Map::<Seq<char>, JsonDoc>::empty(),
                ));
                assert(rootx["metadata"@]->Obj_0["annotations"@]->Obj_0.insert(k3, v3)
                    =~~= Map::<Seq<char>, JsonDoc>::empty().insert(k3, v3));
                assert(rootx["metadata"@]->Obj_0.insert(
                    "annotations"@,
                    JsonDoc::Obj(
                        rootx["metadata"@]->Obj_0["annotations"@]->Obj_0.insert(k3, v3),
                    ),
                ) =~~= meta_a);
                assert(rooty =~~= root_a);
                assert(JsonDoc::Obj(rooty) == JsonDoc::Obj(root_a));
            } else {
                assert(b =~= seq![op]);
                assert(b.drop_first() =~= Seq::<OpModel>::empty());
                let ma0 = crate::json::pairs_doc(crate::json::pairs_view(pod.annotations->0@));
                assert(meta_l.contains_key("annotations"@) && meta_l["annotations"@]
                    == JsonDoc::Obj(ma0));
                lemma_add3(root_l, "metadata"@, "annotations"@, k3, v3);
                let rooty = root_l.insert(
                    "metadata"@,
                    JsonDoc::Obj(meta_l.insert("annotations"@, JsonDoc::Obj(ma0.insert(k3, v3)))),
                );
                let d0 = JsonDoc::Obj(root_l);
                assert(root_l["metadata"@] == JsonDoc::Obj(meta_l));
                assert(apply_op(d0, b[0]) == apply_add(d0, op->Add_path, v3));
                assert(apply_add(d0, op->Add_path, v3) == apply_add(d0, seq!["metadata"@,
                    "annotations"@, k3], v3));
                assert(apply_op(d0, b[0]) == Some(JsonDoc::Obj(rooty)));
                assert(apply_ops(JsonDoc::Obj(rooty), Seq::<OpModel>::empty()) == Some(
                    JsonDoc::Obj(rooty),
                ));
                assert(apply_ops(d0, b) == Some(JsonDoc::Obj(rooty)));
                assert(rooty =~~= root_a);
                assert(JsonDoc::Obj(rooty) == JsonDoc::Obj(root_a));
            }
        },
    }
    // Placement phase.
    let tols0 = prior_tolerations(pod);
    let spc1 = spc0.insert("tolerations"@, JsonDoc::Arr(tols0));
    assert(pod.spec->0.tolerations is Some ==> spc0.contains_key("tolerations"@) && spc0[
        "tolerations"@] == JsonDoc::Arr(tols0));
    let spc2 = spc1.insert("nodeSelector"@, selector_doc(ctx.virtual_value@));
    let spc3 = spc2.insert(
        "tolerations"@,
        JsonDoc::Arr(tols0.push(toleration_entry_doc(ctx.toleration_key@))),
    );
    let root_p = root_a.insert("spec"@, JsonDoc::Obj(spc3));
    let sel = OpModel::Add { path: seq!["spec"@, "nodeSelector"@], value: selector_doc(
        ctx.virtual_value@,
    ) };
    let tol = OpModel::Add {
        path: seq!["spec"@, "tolerations"@, dash_seg()],
        value: toleration_entry_doc(ctx.toleration_key@),
    };
    assert(root_a.contains_key("spec"@) && root_a["spec"@] == JsonDoc::Obj(spc0));
    if pod.spec->0.tolerations is None {
        assert(c =~= seq![create_tolerations_op(), sel, tol]);
        assert(c.drop_first() =~= seq![sel, tol]);
        assert(seq![sel, tol].drop_first() =~= seq![tol]);
        assert(seq![tol].drop_first() =~= Seq::<OpModel>::empty());
        assert(tols0 =~= Seq::<JsonDoc>::empty());
        lemma_add2(root_a, "spec"@, "tolerations"@, JsonDoc::Arr(Seq::empty()));
        let rootx = root_a.insert(
            "spec"@,
            JsonDoc::Obj(spc0.insert("tolerations"@, JsonDoc::Arr(Seq::empty()))),
        );
        assert(JsonDoc::Arr(Seq::<JsonDoc>::empty()) == JsonDoc::Arr(tols0));
        lemma_add2(rootx, "spec"@, "nodeSelector"@, selector_doc(ctx.virtual_value@));
        let rooty = rootx.insert(
            "spec"@,
            JsonDoc::Obj(
                rootx["spec"@]->Obj_0.insert("nodeSelector"@, selector_doc(ctx.virtual_value@)),
            ),
        );
        lemma_add3_append(rooty, "spec"@, "tolerations"@, toleration_entry_doc(
            ctx.toleration_key@,
        ));
        let rootz = rooty.insert(
            "spec"@,
            JsonDoc::Obj(
                rooty["spec"@]->Obj_0.insert(
                    "tolerations"@,
                    JsonDoc::Arr(
                        rooty["spec"@]->Obj_0["tolerations"@]->Arr_0.push(
                            toleration_entry_doc(ctx.toleration_key@),
                        ),
                    ),
                ),
            ),
        );
        let d0 = JsonDoc::Obj(root_a);
        assert(c[0] == create_tolerations_op());
        assert(c[1] == sel);
        assert(c[2] == tol);
        assert(apply_op(d0, c[0]) == apply_add(d0, seq!["spec"@, "tolerations"@], JsonDoc::Arr(
            Seq::empty(),
        )));
        assert(apply_op(d0, c[0]) == Some(JsonDoc::Obj(rootx)));
        let d1 = JsonDoc::Obj(rootx);
        assert(apply_op(d1, c[1]) == apply_add(d1, seq!["spec"@, "nodeSelector"@], selector_doc(
            ctx.virtual_value@,
        )));
        assert(apply_op(d1, c[1]) == Some(JsonDoc::Obj(rooty)));
        let d2 = JsonDoc::Obj(rooty);
        assert(apply_op(d2, c[2]) == apply_add(d2, seq!["spec"@, "tolerations"@, dash_seg()],
            toleration_entry_doc(ctx.toleration_key@)));
        assert(rooty["spec"@]->Obj_0.contains_key("tolerations"@) && rooty["spec"@]->Obj_0[
            "tolerations"@] is Arr);
        assert(apply_op(d2, c[2]) == Some(JsonDoc::Obj(rootz)));
        assert(apply_ops(JsonDoc::Obj(rootz), Seq::<OpModel>::empty()) == Some(
            JsonDoc::Obj(rootz),
        ));
        assert(apply_ops(d2, seq![c[2]]) == Some(JsonDoc::Obj(rootz)));
        assert(seq![sel, tol].drop_first() =~= seq![c[2]]);
        assert(apply_ops(d1, seq![c[1], c[2]]) == Some(JsonDoc::Obj(rootz)));
        assert(c.drop_first() =~= seq![c[1], c[2]]);
        assert(apply_ops(d1, c.drop_first()) == Some(JsonDoc::Obj(rootz)));
        assert(apply_ops(d0, c) == Some(JsonDoc::Obj(rootz)));
        assert(rooty["spec"@]->Obj_0.insert(
            "tolerations"@,
            JsonDoc::Arr(
                rooty["spec"@]->Obj_0["tolerations"@]->Arr_0.push(
                    toleration_entry_doc(ctx.toleration_key@),
                ),
            ),
        ) =~~= spc3);
        assert(rootz =~~= root_p);
        assert(JsonDoc::Obj(rootz) == JsonDoc::Obj(root_p));
    } else {
        assert(c =~= seq![sel, tol]);
        assert(c.drop_first() =~= seq![tol]);
        assert(seq![tol].drop_first() =~= Seq::<OpModel>::empty());
        lemma_add2(root_a, "spec"@, "nodeSelector"@, selector_doc(ctx.virtual_value@));
        let rooty = root_a.insert(
            "spec"@,
            JsonDoc::Obj(spc0.insert("nodeSelector"@, selector_doc(ctx.virtual_value@))),
        );
        assert(rooty["spec"@]->Obj_0.contains_key("tolerations"@) && rooty["spec"@]->Obj_0[
            "tolerations"@] == JsonDoc::Arr(tols0));
        lemma_add3_append(rooty, "spec"@, "tolerations"@, toleration_entry_doc(
            ctx.toleration_key@,
        ));
        let rootz = rooty.insert(
            "spec"@,
            JsonDoc::Obj(
                rooty["spec"@]->Obj_0.insert(
                    "tolerations"@,
                    JsonDoc::Arr(tols0.push(toleration_entry_doc(ctx.toleration_key@))),
                ),
            ),
        );
        let d0 = JsonDoc::Obj(root_a);
        assert(c[0] == sel);
        assert(c[1] == tol);
        assert(apply_op(d0, c[0]) == apply_add(d0, seq!["spec"@, "nodeSelector"@], selector_doc(
            ctx.virtual_value@,
        )));
        assert(apply_op(d0, c[0]) == Some(JsonDoc::Obj(rooty)));
        let d1 = JsonDoc::Obj(rooty);
        assert(apply_op(d1, c[1]) == apply_add(d1, seq!["spec"@, "tolerations"@, dash_seg()],
            toleration_entry_doc(ctx.toleration_key@)));
        assert(apply_op(d1, c[1]) == Some(JsonDoc::Obj(rootz)));
        assert(apply_ops(JsonDoc::Obj(rootz), Seq::<OpModel>::empty()) == Some(
            JsonDoc::Obj(rootz),
        ));
        assert(apply_ops(d1, seq![c[1]]) == Some(JsonDoc::Obj(rootz)));
        assert(c.drop_first() =~= seq![c[1]]);
        assert(apply_ops(d1, c.drop_first()) == Some(JsonDoc::Obj(rootz)));
        assert(apply_ops(d0, c) == Some(JsonDoc::Obj(rootz)));
        assert(rooty["spec"@]->Obj_0.insert(
            "tolerations"@,
            JsonDoc::Arr(tols0.push(toleration_entry_doc(ctx.toleration_key@))),
        ) =~~= spc3);
        assert(rootz =~~= root_p);
        assert(JsonDoc::Obj(rootz) == JsonDoc::Obj(root_p));
    }
    // Fold the three phases.
    lemma_apply_ops_app(JsonDoc::Obj(root0), a, b);
    lemma_apply_ops_app(JsonDoc::Obj(root0), a + b, c);
    assert((a + b) + c =~= a + b + c);
    assert(apply_ops(JsonDoc::Obj(root0), a + b) == Some(JsonDoc::Obj(root_a)));
    assert(apply_ops(pod_doc(pod), plan_ops(pod, ctx, frag)) == Some(JsonDoc::Obj(root_p)));
    // Read the three conclusions off the final document.
    assert(root_p.contains_key("metadata"@) && root_p["metadata"@] == JsonDoc::Obj(meta_a));
    assert(meta_a.contains_key("labels"@) && meta_a["labels"@] == JsonDoc::Obj(ml1));
    assert(ml1.contains_key(ctx.label_key@) && ml1[ctx.label_key@] == JsonDoc::Str(ctx.name@));
    assert(root_p.contains_key("spec"@) && root_p["spec"@] == JsonDoc::Obj(spc3));
    assert(spc3.contains_key("nodeSelector"@) && spc3["nodeSelector"@] == selector_doc(
        ctx.virtual_value@,
    ));
    assert(spc3.contains_key("tolerations"@) && spc3["tolerations"@] == JsonDoc::Arr(
        tols0.push(toleration_entry_doc(ctx.toleration_key@)),
    ));
}

} // verus!
