//! What a pass over the rows reports to the client, block by block.

use vstd::prelude::*;

verus! {

/// A row that the client has to show: where it goes among the visible rows
/// of its block, and how tall it is.
#[derive(Clone, Debug, PartialEq, Eq)]
pub struct InsertedRow {
    pub row_id: String,
    pub block_id: String,
    pub height: i32,
    pub index: usize,
}

/// The mathematical content of an `InsertedRow`.
pub struct InsertedRowView {
    pub row_id: Seq<char>,
    pub block_id: Seq<char>,
    pub height: int,
    pub index: int,
}

impl View for InsertedRow {
    type V = InsertedRowView;

    open spec fn view(&self) -> InsertedRowView {
        InsertedRowView {
            row_id: self.row_id@,
            block_id: self.block_id@,
            height: self.height as int,
            index: self.index as int,
        }
    }
}

/// A row that the client has to take away, named by grid, block and row.
#[derive(Clone, Debug, PartialEq, Eq)]
pub struct GridRowId {
    pub grid_id: String,
    pub block_id: String,
    pub row_id: String,
}

/// The mathematical content of a `GridRowId`.
pub struct GridRowIdView {
    pub grid_id: Seq<char>,
    pub block_id: Seq<char>,
    pub row_id: Seq<char>,
}

impl View for GridRowId {
    type V = GridRowIdView;

    open spec fn view(&self) -> GridRowIdView {
        GridRowIdView { grid_id: self.grid_id@, block_id: self.block_id@, row_id: self.row_id@ }
    }
}

/// The changes to one block: the rows to show and the rows to take away,
/// each in the order in which the block stores them.
#[derive(Clone, Debug, PartialEq, Eq)]
pub struct GridBlockChangeset {
    pub block_id: String,
    pub inserted_rows: Vec<InsertedRow>,
    pub deleted_rows: Vec<GridRowId>,
}

/// The mathematical content of a `GridBlockChangeset`.
pub struct GridBlockChangesetView {
    pub block_id: Seq<char>,
    pub inserted_rows: Seq<InsertedRowView>,
    pub deleted_rows: Seq<GridRowIdView>,
}

impl View for GridBlockChangeset {
    type V = GridBlockChangesetView;

    open spec fn view(&self) -> GridBlockChangesetView {
        GridBlockChangesetView {
            block_id: self.block_id@,
            inserted_rows: self.inserted_rows@.map_values(|row: InsertedRow| row@),
            deleted_rows: self.deleted_rows@.map_values(|row: GridRowId| row@),
        }
    }
}

impl GridBlockChangeset {
    /// Whether the block needs no change.
    pub fn is_empty(&self) -> (empty: bool)
        ensures
            empty == (self@.inserted_rows.len() == 0 && self@.deleted_rows.len() == 0),
    {
        self.inserted_rows.len() == 0 && self.deleted_rows.len() == 0
    }
}

} // verus!
