//! The pod data handed in by the admission boundary, as plain values, and
//! its document model.

use vstd::prelude::*;
use crate::json::{pairs_doc, pairs_view, JsonDoc};

verus! {

/// A reference from an object to the object that controls it; the name is
/// all this core reads.
pub struct OwnerReference {
    pub name: String,
}

/// One scheduling toleration; this core only ever appends one and never
/// reads an existing one's fields.
pub struct Toleration {
    pub key: String,
    pub value: String,
}

/// The parts of a pod's spec this core touches.
pub struct PodSpec {
    pub tolerations: Option<Vec<Toleration>>,
    pub node_selector: Option<Vec<(String, String)>>,
}

/// The parts of a pod this core reads: identity, the optional string maps,
/// the owner references and the optional spec.
pub struct Pod {
    pub namespace: String,
    pub name: String,
    pub labels: Option<Vec<(String, String)>>,
    pub annotations: Option<Vec<(String, String)>>,
    pub owner_references: Vec<OwnerReference>,
    pub spec: Option<PodSpec>,
}

/// Keys of a string map occur at most once.
pub open spec fn unique_keys(s: Seq<(String, String)>) -> bool {
    forall|i: int, j: int| 0 <= i < j < s.len() ==> s[i].0@ != s[j].0@
}

/// The value at a key, if any.
pub open spec fn lookup_pairs(s: Seq<(String, String)>, k: Seq<char>) -> Option<Seq<char>>
    decreases s.len(),
{
    if s.len() == 0 {
        None
    } else if s[0].0@ == k {
        Some(s[0].1@)
    } else {
        lookup_pairs(s.drop_first(), k)
    }
}

impl Pod {
    /// Well-formedness: each string map carries each key at most once, as the
    /// cluster API guarantees of labels, annotations and node selectors.
    pub open spec fn wf(self) -> bool {
        &&& match self.labels {
            Some(l) => unique_keys(l@),
            None => true,
        }
        &&& match self.annotations {
            Some(a) => unique_keys(a@),
            None => true,
        }
        &&& match self.spec {
            Some(s) => match s.node_selector {
                Some(n) => unique_keys(n@),
                None => true,
            },
            None => true,
        }
    }

    /// The annotation value under a key, or `None`; an absent annotations
    /// map behaves as an empty one.
    pub open spec fn annotation_spec(self, k: Seq<char>) -> Option<Seq<char>> {
        match self.annotations {
            Some(a) => lookup_pairs(a@, k),
            None => None,
        }
    }

    /// Looks an annotation up by key.
    pub fn annotation_of(&self, k: &String) -> (r: Option<String>)
        ensures
            match r {
                Some(v) => self.annotation_spec(k@) == Some(v@),
                None => self.annotation_spec(k@) is None,
            },
    {
        match self.annotations.as_ref() {
            None => None,
            Some(a) => {
                let mut i: usize = 0;
                proof {
                    assert(a@.skip(0) =~= a@);
                }
                while i < a.len()
                    invariant
                        i <= a.len(),
                        self.annotation_spec(k@) == lookup_pairs(a@, k@),
                        lookup_pairs(a@, k@) == lookup_pairs(a@.skip(i as int), k@),
                    decreases a.len() - i,
                {
                    proof {
                        assert(a@.skip(i as int)[0] == a@[i as int]);
                        assert(a@.skip(i as int).drop_first() =~= a@.skip(i as int + 1));
                    }
                    if a[i].0.eq(k) {
                        proof {
                            assert(lookup_pairs(a@.skip(i as int), k@) == Some(a@[i as int].1@));
                        }
                        return Some(a[i].1.clone());
                    }
                    proof {
                        assert(lookup_pairs(a@.skip(i as int), k@) == lookup_pairs(
                            a@.skip(i as int + 1),
                            k@,
                        ));
                    }
                    i = i + 1;
                }
                proof {
                    assert(a@.skip(a@.len() as int) =~= Seq::<(String, String)>::empty());
                }
                None
            },
        }
    }
}

/// The document of a toleration entry.
pub open spec fn toleration_doc(t: Toleration) -> JsonDoc {
    JsonDoc::Obj(
        Map::empty().insert("key"@, JsonDoc::Str(t.key@)).insert("value"@, JsonDoc::Str(t.value@)),
    )
}

/// The member map of a pod's `metadata` object.
pub open spec fn metadata_members(p: Pod) -> Map<Seq<char>, JsonDoc> {
    let base = Map::empty().insert("name"@, JsonDoc::Str(p.name@)).insert(
        "namespace"@,
        JsonDoc::Str(p.namespace@),
    );
    let with_labels = match p.labels {
        Some(l) => base.insert("labels"@, JsonDoc::Obj(pairs_doc(pairs_view(l@)))),
        None => base,
    };
    match p.annotations {
        Some(a) => with_labels.insert("annotations"@, JsonDoc::Obj(pairs_doc(pairs_view(a@)))),
        None => with_labels,
    }
}

/// The member map of a pod's `spec` object.
pub open spec fn spec_members(s: PodSpec) -> Map<Seq<char>, JsonDoc> {
    let base = Map::<Seq<char>, JsonDoc>::empty();
    let with_sel = match s.node_selector {
        Some(n) => base.insert("nodeSelector"@, JsonDoc::Obj(pairs_doc(pairs_view(n@)))),
        None => base,
    };
    match s.tolerations {
        Some(t) => with_sel.insert(
            "tolerations"@,
            JsonDoc::Arr(t@.map_values(|x: Toleration| toleration_doc(x))),
        ),
        None => with_sel,
    }
}

/// The document of a whole pod, as the admission boundary sees it.
pub open spec fn pod_doc(p: Pod) -> JsonDoc {
    let base = Map::empty().insert("metadata"@, JsonDoc::Obj(metadata_members(p)));
    match p.spec {
        Some(s) => JsonDoc::Obj(base.insert("spec"@, JsonDoc::Obj(spec_members(s)))),
        None => JsonDoc::Obj(base),
    }
}

} // verus!
