//! What can be selected in the status view.

use crate::git::ObjectId;
use vstd::prelude::*;

verus! {

/// An entity of the status view. Two entities are the same if they are of one kind and their
/// fields are equal, so the `id` has to carry everything that a comparison has to look at.
#[derive(Debug)]
pub enum CliId {
    UncommittedHunkOrFile { id: String },
    PathPrefix { id: String },
    CommittedFile { id: String },
    Branch { id: String },
    Commit { commit_id: ObjectId, id: String },
    Uncommitted { id: String },
    Stack { id: String },
}

/// The model of a [`CliId`].
pub enum CliIdView {
    UncommittedHunkOrFile { id: Seq<char> },
    PathPrefix { id: Seq<char> },
    CommittedFile { id: Seq<char> },
    Branch { id: Seq<char> },
    Commit { commit_id: Seq<u8>, id: Seq<char> },
    Uncommitted { id: Seq<char> },
    Stack { id: Seq<char> },
}

impl View for CliId {
    type V = CliIdView;

    open spec fn view(&self) -> CliIdView {
        match self {
            CliId::UncommittedHunkOrFile { id } => CliIdView::UncommittedHunkOrFile { id: id@ },
            CliId::PathPrefix { id } => CliIdView::PathPrefix { id: id@ },
            CliId::CommittedFile { id } => CliIdView::CommittedFile { id: id@ },
            CliId::Branch { id } => CliIdView::Branch { id: id@ },
            CliId::Commit { commit_id, id } => CliIdView::Commit {
                commit_id: commit_id@,
                id: id@,
            },
            CliId::Uncommitted { id } => CliIdView::Uncommitted { id: id@ },
            CliId::Stack { id } => CliIdView::Stack { id: id@ },
        }
    }
}

impl PartialEq for CliId {
    fn eq(&self, other: &CliId) -> (r: bool) {
        match (self, other) {
            (
                CliId::UncommittedHunkOrFile { id: a },
                CliId::UncommittedHunkOrFile { id: b },
            ) => *a == *b,
            (CliId::PathPrefix { id: a }, CliId::PathPrefix { id: b }) => *a == *b,
            (CliId::CommittedFile { id: a }, CliId::CommittedFile { id: b }) => *a == *b,
            (CliId::Branch { id: a }, CliId::Branch { id: b }) => *a == *b,
            (
                CliId::Commit { commit_id: c, id: a },
                CliId::Commit { commit_id: d, id: b },
            ) => c.same(d) && *a == *b,
            (CliId::Uncommitted { id: a }, CliId::Uncommitted { id: b }) => *a == *b,
            (CliId::Stack { id: a }, CliId::Stack { id: b }) => *a == *b,
            _ => false,
        }
    }
}

impl vstd::std_specs::cmp::PartialEqSpecImpl for CliId {
    open spec fn obeys_eq_spec() -> bool {
        true
    }

    open spec fn eq_spec(&self, other: &CliId) -> bool {
        self@ == other@
    }
}

impl Clone for CliId {
    fn clone(&self) -> (r: CliId)
        ensures
            r@ == self@,
    {
        match self {
            CliId::UncommittedHunkOrFile { id } => CliId::UncommittedHunkOrFile { id: id.clone() },
            CliId::PathPrefix { id } => CliId::PathPrefix { id: id.clone() },
            CliId::CommittedFile { id } => CliId::CommittedFile { id: id.clone() },
            CliId::Branch { id } => CliId::Branch { id: id.clone() },
            CliId::Commit { commit_id, id } => CliId::Commit {
                commit_id: *commit_id,
                id: id.clone(),
            },
            CliId::Uncommitted { id } => CliId::Uncommitted { id: id.clone() },
            CliId::Stack { id } => CliId::Stack { id: id.clone() },
        }
    }
}

} // verus!
