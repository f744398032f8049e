//! The styles that the details view is drawn in.

use crate::text::Style;
use vstd::prelude::*;

verus! {

/// A style for each part of the details view.
#[derive(Clone, Copy, Debug, PartialEq, Eq)]
pub struct Theme {
    pub commit_id: Style,
    pub user: Style,
    pub time: Style,
    pub cli_id: Style,
    pub addition: Style,
    pub deletion: Style,
    pub modification: Style,
    pub renaming: Style,
    pub border: Style,
    pub hint: Style,
    pub addition_rich: Style,
    pub deletion_rich: Style,
}

} // verus!
