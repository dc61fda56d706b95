//! One pass over the rows of a grid, as mathematics.
//!
//! A pass looks at every row of every block, decides whether the row is
//! visible now, compares that with what was remembered of the row, and
//! reports the difference. Nothing here runs: these functions say what the
//! service's `process` computes.

use crate::changeset::{GridBlockChangesetView, GridRowIdView, InsertedRowView};
use crate::evaluator::spec_filter_row;
use crate::field::FieldType;
use crate::filter_result::{spec_was_visible, FilterResultView};
use crate::filters::FilterPredicate;
use crate::row::{GridBlockSnapshot, RowRevision};
use vstd::prelude::*;

verus! {

/// What a pass starts from.
pub struct Pass {
    /// The grid that is filtered.
    pub grid_id: Seq<char>,
    /// The filters in force.
    pub filters: Map<(Seq<char>, FieldType), FilterPredicate>,
    /// The current type of each column.
    pub types: Map<Seq<char>, FieldType>,
    /// The verdicts remembered from the pass before.
    pub results: Map<Seq<char>, FilterResultView>,
    /// The columns that changed since, where that is known.
    pub changed: Option<Seq<String>>,
}

impl Pass {
    /// The verdict on row `i` of `rows`.
    pub open spec fn outcome(self, rows: Seq<RowRevision>, i: int) -> FilterResultView {
        spec_filter_row(self.filters, self.types, self.results, self.changed, i, rows[i])
    }

    /// Row `i` is visible now.
    pub open spec fn shown(self, rows: Seq<RowRevision>, i: int) -> bool {
        self.outcome(rows, i).visible()
    }

    /// Row `i` was visible before the pass.
    pub open spec fn was_shown(self, rows: Seq<RowRevision>, i: int) -> bool {
        spec_was_visible(self.results, rows[i].id@)
    }

    /// Row `i` has become visible.
    pub open spec fn appears(self, rows: Seq<RowRevision>, i: int) -> bool {
        self.shown(rows, i) && !self.was_shown(rows, i)
    }

    /// Row `i` has become hidden.
    pub open spec fn disappears(self, rows: Seq<RowRevision>, i: int) -> bool {
        !self.shown(rows, i) && self.was_shown(rows, i)
    }

    /// How many of the first `n` rows are visible now.
    pub open spec fn shown_before(self, rows: Seq<RowRevision>, n: int) -> int
        decreases n,
    {
        if n <= 0 {
            0
        } else {
            self.shown_before(rows, n - 1) + if self.shown(rows, n - 1) {
                1int
            } else {
                0int
            }
        }
    }

    /// The report that row `i` is to be shown. Its index is its place among
    /// the visible rows of the block.
    pub open spec fn inserted_row(
        self,
        block_id: Seq<char>,
        rows: Seq<RowRevision>,
        i: int,
    ) -> InsertedRowView {
        InsertedRowView {
            row_id: rows[i].id@,
            block_id,
            height: rows[i].height as int,
            index: self.shown_before(rows, i),
        }
    }

    /// The report that row `i` is to be taken away.
    pub open spec fn deleted_row(
        self,
        block_id: Seq<char>,
        rows: Seq<RowRevision>,
        i: int,
    ) -> GridRowIdView {
        GridRowIdView { grid_id: self.grid_id, block_id, row_id: rows[i].id@ }
    }

    /// The reports on those of the first `n` rows that have become visible,
    /// in the order of the rows.
    pub open spec fn inserted(
        self,
        block_id: Seq<char>,
        rows: Seq<RowRevision>,
        n: int,
    ) -> Seq<InsertedRowView>
        decreases n,
    {
        if n <= 0 {
            Seq::empty()
        } else if self.appears(rows, n - 1) {
            self.inserted(block_id, rows, n - 1).push(self.inserted_row(block_id, rows, n - 1))
        } else {
            self.inserted(block_id, rows, n - 1)
        }
    }

    /// The reports on those of the first `n` rows that have become hidden,
    /// in the order of the rows.
    pub open spec fn deleted(
        self,
        block_id: Seq<char>,
        rows: Seq<RowRevision>,
        n: int,
    ) -> Seq<GridRowIdView>
        decreases n,
    {
        if n <= 0 {
            Seq::empty()
        } else if self.disappears(rows, n - 1) {
            self.deleted(block_id, rows, n - 1).push(self.deleted_row(block_id, rows, n - 1))
        } else {
            self.deleted(block_id, rows, n - 1)
        }
    }

    /// The changes to one block.
    pub open spec fn changeset(self, block: GridBlockSnapshot) -> GridBlockChangesetView {
        GridBlockChangesetView {
            block_id: block.block_id@,
            inserted_rows: self.inserted(block.block_id@, block.row_revs@, block.row_revs@.len() as int),
            deleted_rows: self.deleted(block.block_id@, block.row_revs@, block.row_revs@.len() as int),
        }
    }

    /// `so_far` with the verdicts on the first `n` rows added. Of two rows
    /// with one identifier the later one stays.
    pub open spec fn remembered(
        self,
        so_far: Map<Seq<char>, FilterResultView>,
        rows: Seq<RowRevision>,
        n: int,
    ) -> Map<Seq<char>, FilterResultView>
        decreases n,
    {
        if n <= 0 {
            so_far
        } else {
            self.remembered(so_far, rows, n - 1).insert(rows[n - 1].id@, self.outcome(rows, n - 1))
        }
    }

    /// The verdicts on the rows of the first `n` blocks, and nothing else.
    pub open spec fn remembered_blocks(
        self,
        blocks: Seq<GridBlockSnapshot>,
        n: int,
    ) -> Map<Seq<char>, FilterResultView>
        decreases n,
    {
        if n <= 0 {
            Map::empty()
        } else {
            self.remembered(
                self.remembered_blocks(blocks, n - 1),
                blocks[n - 1].row_revs@,
                blocks[n - 1].row_revs@.len() as int,
            )
        }
    }
}

} // verus!
