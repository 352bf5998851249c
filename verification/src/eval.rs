//! What an evaluation task reports.

use vstd::prelude::*;

verus! {

/// The tags to put on a change and the tags to take off it.
#[derive(Debug, PartialEq)]
pub struct TagDiff {
    pub add: Vec<String>,
    pub delete: Vec<String>,
}

/// What an evaluation task reports when it is done: the tags to change, or
/// none where there is nothing to say.
#[derive(Debug, PartialEq)]
pub struct EvaluationResult {
    pub tags: Option<TagDiff>,
}

/// A `TagDiff` as sequences of tag names.
pub ghost struct TagDiffView {
    pub add: Seq<Seq<char>>,
    pub delete: Seq<Seq<char>>,
}

/// An `EvaluationResult` over sequences of tag names.
pub ghost struct EvaluationResultView {
    pub tags: Option<TagDiffView>,
}

impl View for TagDiff {
    type V = TagDiffView;

    open spec fn view(&self) -> TagDiffView {
        TagDiffView { add: self.add.deep_view(), delete: self.delete.deep_view() }
    }
}

impl View for EvaluationResult {
    type V = EvaluationResultView;

    open spec fn view(&self) -> EvaluationResultView {
        EvaluationResultView {
            tags: match self.tags {
                Some(diff) => Some(diff@),
                None => None,
            },
        }
    }
}

} // verus!
