//! A mathematical model of the JSON documents the planner mutates, and the
//! application semantics of the patch operations it emits.
//!
//! Only the structure this core touches is modeled: strings, objects and
//! arrays.  `Add` follows RFC 6902: into an object it adds or replaces the
//! member; into an array only the append target `-` is modeled, which is the
//! sole array target this core produces; a missing intermediate container
//! makes the operation fail.

use vstd::prelude::*;

verus! {

/// Model of a JSON document.
#[verifier::ext_equal]
pub ghost enum JsonDoc {
    Str(Seq<char>),
    Obj(Map<Seq<char>, JsonDoc>),
    Arr(Seq<JsonDoc>),
}

/// A patch value as the planner builds it: a string, an empty container, or
/// a flat object of string members.
#[derive(Debug)]
pub enum JsonValue {
    Str(String),
    EmptyObject,
    EmptyArray,
    StrMap(Vec<(String, String)>),
}

/// The member map of a flat object of string members, later pairs winning.
pub open spec fn pairs_doc(s: Seq<(Seq<char>, Seq<char>)>) -> Map<Seq<char>, JsonDoc>
    decreases s.len(),
{
    if s.len() == 0 {
        Map::empty()
    } else {
        pairs_doc(s.drop_last()).insert(s.last().0, JsonDoc::Str(s.last().1))
    }
}

/// The views of a sequence of string pairs.
pub open spec fn pairs_view(v: Seq<(String, String)>) -> Seq<(Seq<char>, Seq<char>)> {
    v.map_values(|p: (String, String)| (p.0@, p.1@))
}

impl JsonValue {
    /// The document this value denotes.
    pub open spec fn doc(self) -> JsonDoc {
        match self {
            JsonValue::Str(s) => JsonDoc::Str(s@),
            JsonValue::EmptyObject => JsonDoc::Obj(Map::empty()),
            JsonValue::EmptyArray => JsonDoc::Arr(Seq::empty()),
            JsonValue::StrMap(m) => JsonDoc::Obj(pairs_doc(pairs_view(m@))),
        }
    }
}

/// The array-append reference token.
pub open spec fn dash_seg() -> Seq<char> {
    seq!['-']
}

/// RFC 6902 `add` at a segment path.
pub open spec fn apply_add(doc: JsonDoc, segs: Seq<Seq<char>>, v: JsonDoc) -> Option<JsonDoc>
    decreases segs.len(),
{
    if segs.len() == 0 {
        Some(v)
    } else {
        match doc {
            JsonDoc::Obj(m) => {
                if segs.len() == 1 {
                    Some(JsonDoc::Obj(m.insert(segs[0], v)))
                } else if m.contains_key(segs[0]) {
                    match apply_add(m[segs[0]], segs.drop_first(), v) {
                        Some(d) => Some(JsonDoc::Obj(m.insert(segs[0], d))),
                        None => None,
                    }
                } else {
                    None
                }
            },
            JsonDoc::Arr(a) => {
                if segs.len() == 1 && segs[0] == dash_seg() {
                    Some(JsonDoc::Arr(a.push(v)))
                } else {
                    None
                }
            },
            JsonDoc::Str(_) => None,
        }
    }
}

/// RFC 6902 `replace`: the target member must already exist.
pub open spec fn apply_replace(doc: JsonDoc, segs: Seq<Seq<char>>, v: JsonDoc) -> Option<JsonDoc>
    decreases segs.len(),
{
    if segs.len() == 0 {
        Some(v)
    } else {
        match doc {
            JsonDoc::Obj(m) => {
                if m.contains_key(segs[0]) {
                    if segs.len() == 1 {
                        Some(JsonDoc::Obj(m.insert(segs[0], v)))
                    } else {
                        match apply_replace(m[segs[0]], segs.drop_first(), v) {
                            Some(d) => Some(JsonDoc::Obj(m.insert(segs[0], d))),
                            None => None,
                        }
                    }
                } else {
                    None
                }
            },
            _ => None,
        }
    }
}

/// RFC 6902 `remove`: the target member must exist.
pub open spec fn apply_remove(doc: JsonDoc, segs: Seq<Seq<char>>) -> Option<JsonDoc>
    decreases segs.len(),
{
    if segs.len() == 0 {
        None
    } else {
        match doc {
            JsonDoc::Obj(m) => {
                if m.contains_key(segs[0]) {
                    if segs.len() == 1 {
                        Some(JsonDoc::Obj(m.remove(segs[0])))
                    } else {
                        match apply_remove(m[segs[0]], segs.drop_first()) {
                            Some(d) => Some(JsonDoc::Obj(m.insert(segs[0], d))),
                            None => None,
                        }
                    }
                } else {
                    None
                }
            },
            _ => None,
        }
    }
}

/// Model of one patch operation.
#[verifier::ext_equal]
pub ghost enum OpModel {
    Add { path: Seq<Seq<char>>, value: JsonDoc },
    Remove { path: Seq<Seq<char>> },
    Replace { path: Seq<Seq<char>>, value: JsonDoc },
}

/// Applying one operation to a document.
pub open spec fn apply_op(doc: JsonDoc, op: OpModel) -> Option<JsonDoc> {
    match op {
        OpModel::Add { path, value } => apply_add(doc, path, value),
        OpModel::Remove { path } => apply_remove(doc, path),
        OpModel::Replace { path, value } => apply_replace(doc, path, value),
    }
}

/// Applying a patch in order; any failing operation fails the whole patch.
pub open spec fn apply_ops(doc: JsonDoc, ops: Seq<OpModel>) -> Option<JsonDoc>
    decreases ops.len(),
{
    if ops.len() == 0 {
        Some(doc)
    } else {
        match apply_op(doc, ops[0]) {
            Some(d) => apply_ops(d, ops.drop_first()),
            None => None,
        }
    }
}

} // verus!
