//! What was found out about a row, and the memory of it.

use crate::id_map::{
    has_id_before, lemma_has_id_before_step, lemma_map_has_position, position_of, IdMap,
};
use crate::row::RowRevision;
use vstd::prelude::*;

verus! {

/// The verdict on one row: per column whether the row's cell satisfies the
/// filter on that column. A column without a filter in force counts as
/// satisfied.
#[derive(Clone, Debug)]
pub struct FilterResult {
    row_id: String,
    row_index: usize,
    cell_by_field_id: IdMap<bool>,
}

/// The mathematical content of a `FilterResult`.
pub struct FilterResultView {
    pub row_id: Seq<char>,
    pub row_index: int,
    pub cells: Map<Seq<char>, bool>,
}

/// Each column of the first `n` pairs, counted as satisfied.
spec fn satisfied_so_far<V>(pairs: Seq<(Seq<char>, V)>, n: int) -> Map<Seq<char>, bool> {
    Map::new(
        |field_id: Seq<char>| has_id_before(pairs, n, field_id),
        |field_id: Seq<char>| true,
    )
}

/// Every recorded column is satisfied.
pub open spec fn all_pass(cells: Map<Seq<char>, bool>) -> bool {
    forall|field_id: Seq<char>| cells.dom().contains(field_id) ==> #[trigger] cells[field_id]
}

impl View for FilterResult {
    type V = FilterResultView;

    closed spec fn view(&self) -> FilterResultView {
        FilterResultView {
            row_id: self.row_id@,
            row_index: self.row_index as int,
            cells: self.cell_by_field_id@,
        }
    }
}

impl FilterResultView {
    /// A row is visible when all recorded columns are satisfied.
    pub open spec fn visible(self) -> bool {
        all_pass(self.cells)
    }
}

impl FilterResult {
    /// The identifier of the row.
    pub fn row_id(&self) -> (row_id: &String)
        ensures
            row_id@ == self@.row_id,
    {
        &self.row_id
    }

    /// The position of the row in its block.
    pub fn row_index(&self) -> (row_index: usize)
        ensures
            row_index == self@.row_index,
    {
        self.row_index
    }

    /// The result for a row on which no filter has been tested yet: every
    /// column in which the row has a cell counts as satisfied.
    pub fn new(index: usize, row_rev: &RowRevision) -> (result: FilterResult)
        ensures
            result@.row_id == row_rev.id@,
            result@.row_index == index,
            result@.cells == Map::new(
                |field_id: Seq<char>| row_rev.cells@.dom().contains(field_id),
                |field_id: Seq<char>| true,
            ),
    {
        let mut cells: IdMap<bool> = IdMap::new();
        let ghost pairs = row_rev.cells.pairs();
        let n: usize = row_rev.cells.len();
        let mut i: usize = 0;
        assert(cells@ =~= satisfied_so_far(pairs, 0));
        while i < n
            invariant
                i <= n,
                n == pairs.len(),
                pairs == row_rev.cells.pairs(),
                cells@ == satisfied_so_far(pairs, i as int),
            decreases n - i,
        {
            cells.insert(row_rev.cells.key_at(i).clone(), true);
            proof {
                assert forall|field_id: Seq<char>| #[trigger]
                    has_id_before(pairs, i + 1, field_id) <==> (has_id_before(
                        pairs,
                        i as int,
                        field_id,
                    ) || field_id == pairs[i as int].0) by {
                    lemma_has_id_before_step(pairs, i as int, field_id);
                }
                assert(cells@ =~= satisfied_so_far(pairs, i + 1));
            }
            i = i + 1;
        }
        let result = FilterResult {
            row_id: row_rev.id.clone(),
            row_index: index,
            cell_by_field_id: cells,
        };
        proof {
            let wanted = Map::new(
                |field_id: Seq<char>| row_rev.cells@.dom().contains(field_id),
                |field_id: Seq<char>| true,
            );
            assert forall|field_id: Seq<char>| wanted.dom().contains(field_id) <==> has_id_before(
                pairs,
                n as int,
                field_id,
            ) by {
                if wanted.dom().contains(field_id) {
                    lemma_map_has_position(pairs, field_id);
                    let p = position_of(pairs, field_id);
                    assert(0 <= p < n && pairs[p].0 == field_id);
                }
                if has_id_before(pairs, n as int, field_id) {
                    let k = choose|k: int| 0 <= k < n && (#[trigger] pairs[k]).0 == field_id;
                    assert(pairs[k].0 == field_id);
                }
            }
            assert(result@.cells =~= wanted);
        }
        result
    }

    /// The result for the row at position `index` that takes over the
    /// verdicts of an earlier result.
    pub fn carried(index: usize, row_rev: &RowRevision, previous: &FilterResult) -> (result:
        FilterResult)
        ensures
            result@.row_id == row_rev.id@,
            result@.row_index == index,
            result@.cells == previous@.cells,
    {
        let cells = previous.cell_by_field_id.clone();
        proof {
            let mine = previous.cell_by_field_id.pairs();
            let theirs = cells.pairs();
            assert(theirs.len() == cells.ids().len());
            assert(mine.len() == previous.cell_by_field_id.ids().len());
            assert forall|i: int| 0 <= i < mine.len() implies mine[i] == theirs[i] by {
                assert(cells.ids()[i] == previous.cell_by_field_id.ids()[i]);
                assert(cloned::<bool>(mine[i].1, theirs[i].1));
            }
            assert(mine =~= theirs);
        }
        FilterResult { row_id: row_rev.id.clone(), row_index: index, cell_by_field_id: cells }
    }

    /// Records whether the cell in column `cell_id` satisfies the filter on
    /// that column.
    pub fn update_cell(&mut self, cell_id: &str, exist: bool)
        ensures
            final(self)@.cells == old(self)@.cells.insert(cell_id@, exist),
            final(self)@.row_id == old(self)@.row_id,
            final(self)@.row_index == old(self)@.row_index,
    {
        self.cell_by_field_id.insert(cell_id.to_owned(), exist);
    }

    /// Drops what is recorded for column `cell_id`.
    pub fn forget_cell(&mut self, cell_id: &String)
        ensures
            final(self)@.cells == old(self)@.cells.remove(cell_id@),
            final(self)@.row_id == old(self)@.row_id,
            final(self)@.row_index == old(self)@.row_index,
    {
        let _ = self.cell_by_field_id.remove(cell_id);
    }

    /// What is recorded for column `field_id`, if anything.
    pub fn verdict(&self, field_id: &String) -> (verdict: Option<bool>)
        ensures
            verdict == (if self@.cells.dom().contains(field_id@) {
                Some(self@.cells[field_id@])
            } else {
                None
            }),
    {
        match self.cell_by_field_id.get(field_id) {
            Some(passes) => Some(*passes),
            None => None,
        }
    }

    /// Whether the row is visible: every recorded column is satisfied. A row
    /// for which nothing is recorded is visible.
    pub fn is_visible(&self) -> (visible: bool)
        ensures
            visible == self@.visible(),
    {
        let n: usize = self.cell_by_field_id.len();
        let mut i: usize = 0;
        while i < n
            invariant
                i <= n,
                n == self.cell_by_field_id.pairs().len(),
                forall|k: int| 0 <= k < i ==> (#[trigger] self.cell_by_field_id.pairs()[k]).1,
            decreases n - i,
        {
            if !*self.cell_by_field_id.value_at(i) {
                return false;
            }
            i = i + 1;
        }
        proof {
            let pairs = self.cell_by_field_id.pairs();
            assert forall|field_id: Seq<char>|
                self@.cells.dom().contains(field_id) implies #[trigger] self@.cells[field_id] by {
                lemma_map_has_position(pairs, field_id);
                assert(pairs[position_of(pairs, field_id)].1);
            }
        }
        true
    }
}

/// The last verdict on every row that was looked at, keyed by row
/// identifier.
#[derive(Clone, Debug)]
pub struct FilterResultCache {
    rows: IdMap<FilterResult>,
}

impl View for FilterResultCache {
    type V = Map<Seq<char>, FilterResultView>;

    closed spec fn view(&self) -> Map<Seq<char>, FilterResultView> {
        self.rows@.map_values(|result: FilterResult| result@)
    }
}

/// Whether a row was visible when it was last looked at. A row that has
/// never been looked at counts as visible: without filters every row is
/// shown.
pub open spec fn spec_was_visible(results: Map<Seq<char>, FilterResultView>, row_id: Seq<char>) -> bool {
    results.dom().contains(row_id) ==> results[row_id].visible()
}

impl FilterResultCache {
    /// A cache that remembers nothing.
    pub fn new() -> (cache: FilterResultCache)
        ensures
            cache@ == Map::<Seq<char>, FilterResultView>::empty(),
    {
        let cache = FilterResultCache { rows: IdMap::new() };
        assert(cache@ =~= Map::<Seq<char>, FilterResultView>::empty());
        cache
    }

    /// The number of rows remembered.
    pub fn len(&self) -> (n: usize)
        ensures
            n == self@.dom().len(),
    {
        assert(self@.dom() =~= self.rows@.dom());
        self.rows.len()
    }

    /// The last verdict on row `row_id`, if it is remembered.
    pub fn get(&self, row_id: &String) -> (result: Option<&FilterResult>)
        ensures
            match result {
                Some(found) => self@.dom().contains(row_id@) && found@ == self@[row_id@],
                None => !self@.dom().contains(row_id@),
            },
    {
        self.rows.get(row_id)
    }

    /// Remembers `result` as the last verdict on row `row_id`.
    pub fn insert(&mut self, row_id: &str, result: FilterResult)
        ensures
            final(self)@ == old(self)@.insert(row_id@, result@),
    {
        self.rows.insert(row_id.to_owned(), result);
        assert(self@ =~= old(self)@.insert(row_id@, result@));
    }

    /// Forgets row `row_id`.
    pub fn remove(&mut self, row_id: &String)
        ensures
            final(self)@ == old(self)@.remove(row_id@),
    {
        let _ = self.rows.remove(row_id);
        assert(self@ =~= old(self)@.remove(row_id@));
    }

    /// Whether row `row_id` was visible when it was last looked at; a row
    /// that is not remembered counts as visible.
    pub fn was_visible(&self, row_id: &String) -> (visible: bool)
        ensures
            visible == spec_was_visible(self@, row_id@),
    {
        match self.rows.get(row_id) {
            Some(result) => result.is_visible(),
            None => true,
        }
    }
}

} // verus!
