//! Row filtering for a grid of typed columns.
//!
//! Given the filters that a user has set on the columns of a grid, this
//! library decides for every row of every storage block whether the row is
//! visible, remembers the verdicts, and reports per block which rows have
//! to be inserted into or removed from a client's view.
//!
//! - `field`, `filter_id`, `row`: columns, filter identities, rows and blocks.
//! - `filters`, `text`: the kinds of predicate and what satisfies them.
//! - `filter_cache`: the filters in force, and their refresh from the
//!   document store's records.
//! - `filter_result`: the verdict on a row and the memory of verdicts.
//! - `evaluator`: the decision on one row.
//! - `pass`, `changeset`, `task`, `service`: a pass over all rows, what it
//!   reports, and the service that owns the state.
//! - `laws`: what holds of all of it.
//! - `id_map`: the map keyed by identifiers on which the rest is built.

pub mod changeset;
pub mod evaluator;
pub mod field;
pub mod filter_cache;
pub mod filter_id;
pub mod filter_result;
pub mod filters;
pub mod id_map;
pub mod laws;
pub mod pass;
pub mod row;
pub mod service;
pub mod task;
pub mod text;
