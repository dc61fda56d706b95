//! The unit of work that the scheduler runs.

use crate::row::GridBlockSnapshot;
use vstd::prelude::*;

verus! {

/// What a pass over the rows works on.
#[derive(Clone, Debug)]
pub struct FilterTaskContext {
    /// The storage blocks of the grid, each with its rows in order.
    pub blocks: Vec<GridBlockSnapshot>,
    /// The columns whose filter, type or cells have changed since the
    /// verdicts on the rows were remembered, where that is known. Only these
    /// are tested again on a row whose verdict is remembered; whoever names
    /// them answers for the list being complete. `None` has every column
    /// tested.
    pub changed_fields: Option<Vec<String>>,
}

impl FilterTaskContext {
    /// The changed columns as a sequence, where they are known.
    pub open spec fn changed(&self) -> Option<Seq<String>> {
        match self.changed_fields {
            Some(changed) => Some(changed@),
            None => None,
        }
    }
}

/// The kinds of work that the scheduler knows.
#[derive(Clone, Debug)]
pub enum TaskContent {
    Filter(FilterTaskContext),
}

/// A unit of work: the scheduler's number for it, the grid that handles it
/// and what it is about.
#[derive(Clone, Debug)]
pub struct Task {
    pub handler_id: String,
    pub id: u32,
    pub content: TaskContent,
}

} // verus!
