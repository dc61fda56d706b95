//! Rows and the storage blocks that hold them, as the block manager hands
//! them out. The library reads them and never changes them.

use crate::id_map::IdMap;
use vstd::prelude::*;

verus! {

/// The value that a row holds in one column.
#[derive(Clone, Debug, PartialEq, Eq)]
pub enum CellData {
    /// Plain text.
    Text(String),
    /// A fixed-point number, in thousandths.
    Number(i64),
    /// A point in time, in seconds.
    Date(i64),
    /// The identifiers of the options that are selected.
    SelectOptions(Vec<String>),
    /// Whether the box is ticked.
    Checkbox(bool),
    /// A link.
    Url(String),
}

/// A row: its identifier, its height on screen and its cells, keyed by column
/// identifier.
#[derive(Clone, Debug)]
pub struct RowRevision {
    pub id: String,
    pub height: i32,
    pub cells: IdMap<CellData>,
}

/// A storage block with its rows in storage order.
#[derive(Clone, Debug)]
pub struct GridBlockSnapshot {
    pub block_id: String,
    pub row_revs: Vec<RowRevision>,
}

impl RowRevision {
    /// A row without cells.
    pub fn new(id: String, height: i32) -> (row: RowRevision)
        ensures
            row.id == id,
            row.height == height,
            row.cells@ == Map::<Seq<char>, CellData>::empty(),
    {
        RowRevision { id, height, cells: IdMap::new() }
    }

    /// Sets the cell of column `field_id`.
    pub fn set_cell(&mut self, field_id: String, data: CellData)
        ensures
            final(self).cells@ == old(self).cells@.insert(field_id@, data),
            final(self).id == old(self).id,
            final(self).height == old(self).height,
    {
        self.cells.insert(field_id, data);
    }
}

} // verus!
