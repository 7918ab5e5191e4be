//! Patch operations as the planner emits them.  A path is kept as its
//! unescaped segments; `pointer` renders the RFC 6902 pointer string.

use vstd::prelude::*;
use crate::json::{JsonValue, OpModel};
use crate::jsonptr::{pointer_of, pointer_seq};

verus! {

/// One patch operation.  Only `Add` is produced by this core.
#[derive(Debug)]
pub enum PatchOperation {
    Add { path: Vec<String>, value: JsonValue },
    Remove { path: Vec<String> },
    Replace { path: Vec<String>, value: JsonValue },
}

/// An ordered patch; the order is load-bearing (a container-creating
/// operation must precede any operation that targets inside the container).
#[derive(Debug)]
pub struct Patch {
    pub ops: Vec<PatchOperation>,
}

/// The views of a path's segments.
pub open spec fn segs_view(p: Seq<String>) -> Seq<Seq<char>> {
    p.map_values(|s: String| s@)
}

impl PatchOperation {
    /// The mathematical model of this operation.
    pub open spec fn model(self) -> OpModel {
        match self {
            PatchOperation::Add { path, value } => OpModel::Add {
                path: segs_view(path@),
                value: value.doc(),
            },
            PatchOperation::Remove { path } => OpModel::Remove { path: segs_view(path@) },
            PatchOperation::Replace { path, value } => OpModel::Replace {
                path: segs_view(path@),
                value: value.doc(),
            },
        }
    }

    /// The segments of this operation's path.
    pub open spec fn path_view(self) -> Seq<Seq<char>> {
        match self {
            PatchOperation::Add { path, .. } => segs_view(path@),
            PatchOperation::Remove { path } => segs_view(path@),
            PatchOperation::Replace { path, .. } => segs_view(path@),
        }
    }

    /// Renders the operation's path as an escaped JSON Pointer string.
    pub fn pointer(&self) -> (r: String)
        ensures
            r@ == pointer_seq(self.path_view()),
    {
        match self {
            PatchOperation::Add { path, .. } => pointer_of(path),
            PatchOperation::Remove { path } => pointer_of(path),
            PatchOperation::Replace { path, .. } => pointer_of(path),
        }
    }
}

/// The models of a sequence of operations.
pub open spec fn ops_model(s: Seq<PatchOperation>) -> Seq<OpModel> {
    s.map_values(|op: PatchOperation| op.model())
}

} // verus!
