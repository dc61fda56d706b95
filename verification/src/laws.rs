//! What holds of the library as a whole.
//!
//! Each proof function below states one law, in the terms in which the
//! contracts of the executable functions are written, and proves it.

use crate::changeset::{GridRowIdView, InsertedRowView};
use crate::evaluator::{
    cell_passes, filtered, lemma_verdicts_pass, row_passes, spec_carried, spec_verdicts,
};
use crate::field::{lists_id, FieldType};
use crate::filter_cache::{admits, in_scope, spec_out_of_scope, spec_reloaded, spec_repopulated, FilterRevision};
use crate::filter_result::{all_pass, FilterResultView};
use crate::filters::FilterPredicate;
use crate::pass::Pass;
use crate::row::{CellData, GridBlockSnapshot, RowRevision};
use vstd::prelude::*;

verus! {

/// With no filter in force every row is visible.
pub proof fn law_no_filter_shows_all(
    types: Map<Seq<char>, FieldType>,
    cells: Map<Seq<char>, CellData>,
)
    ensures
        row_passes(Map::empty(), types, cells),
        all_pass(spec_verdicts(Map::empty(), types, cells)),
{
    let filters = Map::<(Seq<char>, FieldType), FilterPredicate>::empty();
    assert forall|field_id: Seq<char>| #[trigger] cell_passes(filters, types, cells, field_id) by {}
    lemma_verdicts_pass(filters, types, cells);
}

/// A row is visible exactly if every column to which a filter applies is
/// satisfied. In particular, a row with filters on the columns `a` and `b`
/// alone is visible exactly if it satisfies both.
pub proof fn law_filters_combine_by_and(
    filters: Map<(Seq<char>, FieldType), FilterPredicate>,
    types: Map<Seq<char>, FieldType>,
    cells: Map<Seq<char>, CellData>,
    a: Seq<char>,
    b: Seq<char>,
)
    requires
        forall|field_id: Seq<char>| #[trigger]
            filtered(filters, types, field_id) ==> field_id == a || field_id == b,
    ensures
        all_pass(spec_verdicts(filters, types, cells)) <==> (cell_passes(filters, types, cells, a)
            && cell_passes(filters, types, cells, b)),
{
    lemma_verdicts_pass(filters, types, cells);
    if cell_passes(filters, types, cells, a) && cell_passes(filters, types, cells, b) {
        assert forall|field_id: Seq<char>| #[trigger]
            cell_passes(filters, types, cells, field_id) by {
            if filtered(filters, types, field_id) {
                assert(field_id == a || field_id == b);
            }
        }
    }
    if row_passes(filters, types, cells) {
        assert(cell_passes(filters, types, cells, a));
        assert(cell_passes(filters, types, cells, b));
    }
}

/// Taking the filter on one column out of force leaves every other column
/// as it was: a row that fails on another column stays hidden.
pub proof fn law_removal_leaves_other_columns(
    filters: Map<(Seq<char>, FieldType), FilterPredicate>,
    types: Map<Seq<char>, FieldType>,
    cells: Map<Seq<char>, CellData>,
    removed: (Seq<char>, FieldType),
    other: Seq<char>,
)
    requires
        other != removed.0,
    ensures
        cell_passes(filters.remove(removed), types, cells, other) == cell_passes(
            filters,
            types,
            cells,
            other,
        ),
        !cell_passes(filters, types, cells, other) ==> !all_pass(
            spec_verdicts(filters.remove(removed), types, cells),
        ),
{
    lemma_verdicts_pass(filters.remove(removed), types, cells);
    if !cell_passes(filters, types, cells, other) {
        assert(!cell_passes(filters.remove(removed), types, cells, other));
    }
}

/// A row that has no cell in a column to which a filter applies is never
/// visible, whatever its other cells hold.
pub proof fn law_absent_cell_fails(
    filters: Map<(Seq<char>, FieldType), FilterPredicate>,
    types: Map<Seq<char>, FieldType>,
    cells: Map<Seq<char>, CellData>,
    field_id: Seq<char>,
)
    requires
        filtered(filters, types, field_id),
        !cells.dom().contains(field_id),
    ensures
        !row_passes(filters, types, cells),
        !all_pass(spec_verdicts(filters, types, cells)),
{
    assert(!cell_passes(filters, types, cells, field_id));
    lemma_verdicts_pass(filters, types, cells);
}

/// A filter is bound to the type under which it was defined. On a column
/// that has no current type, or for whose current type no filter is in
/// force, every row passes, whatever filters are in force for the column
/// under other types.
pub proof fn law_filter_of_other_type_is_inert(
    filters: Map<(Seq<char>, FieldType), FilterPredicate>,
    types: Map<Seq<char>, FieldType>,
    cells: Map<Seq<char>, CellData>,
    field_id: Seq<char>,
)
    requires
        !types.dom().contains(field_id) || !filters.dom().contains((field_id, types[field_id])),
    ensures
        cell_passes(filters, types, cells, field_id),
        spec_verdicts(filters, types, cells).dom().contains(field_id) ==> spec_verdicts(
            filters,
            types,
            cells,
        )[field_id],
{
}

/// Testing the changed columns alone gives what testing every column gives,
/// provided that what was recorded before is right for every column that
/// did not change.
pub proof fn law_partial_test_agrees_with_full_test(
    previous: Map<Seq<char>, bool>,
    fresh: Map<Seq<char>, bool>,
    changed: Seq<String>,
)
    requires
        forall|field_id: Seq<char>|
            !lists_id(changed, field_id) ==> (previous.dom().contains(field_id)
                == #[trigger] fresh.dom().contains(field_id)),
        forall|field_id: Seq<char>|
            !lists_id(changed, field_id) && fresh.dom().contains(field_id)
                ==> previous[field_id] == #[trigger] fresh[field_id],
    ensures
        spec_carried(previous, fresh, changed) == fresh,
{
    assert(spec_carried(previous, fresh, changed) =~= fresh);
}

/// Taking recorded filters in keeps a cache in which every filter of a
/// column in scope stands under the column's current type, and every
/// predicate is of the kind that belongs to its type.
pub proof fn law_repopulation_keeps_current_types(
    base: Map<(Seq<char>, FieldType), FilterPredicate>,
    records: Seq<FilterRevision>,
    scope: Option<Seq<String>>,
    types: Map<Seq<char>, FieldType>,
    key: (Seq<char>, FieldType),
)
    requires
        spec_repopulated(base, records, scope, types).dom().contains(key),
    ensures
        base.dom().contains(key) || (in_scope(scope, key.0) && types.dom().contains(key.0)
            && types[key.0] == key.1),
        !base.dom().contains(key) ==> spec_repopulated(
            base,
            records,
            scope,
            types,
        )[key].spec_field_type() == key.1,
        (forall|other: (Seq<char>, FieldType)| #[trigger]
            base.dom().contains(other) ==> base[other].spec_field_type() == other.1)
            ==> spec_repopulated(base, records, scope, types)[key].spec_field_type() == key.1,
    decreases records.len(),
{
    if records.len() > 0 {
        let before = spec_repopulated(base, records.drop_last(), scope, types);
        let record = records.last();
        if before.dom().contains(key) {
            law_repopulation_keeps_current_types(base, records.drop_last(), scope, types, key);
        }
        if admits(record, scope, types) && key == (record.field_id@, types[record.field_id@]) {
            assert(spec_repopulated(base, records, scope, types)[key] == record.predicate);
        }
    }
}

/// Stale filters are pruned by a refresh. After a refresh, a filter of a
/// column in scope is in force only under the type that the column has
/// now; filters of columns out of scope are what they were.
pub proof fn law_refresh_prunes_stale_filters(
    filters: Map<(Seq<char>, FieldType), FilterPredicate>,
    scope: Option<Seq<String>>,
    records: Seq<FilterRevision>,
    types: Map<Seq<char>, FieldType>,
    key: (Seq<char>, FieldType),
)
    ensures
        in_scope(scope, key.0) && spec_reloaded(filters, scope, records, types).dom().contains(key)
            ==> types.dom().contains(key.0) && types[key.0] == key.1,
        !in_scope(scope, key.0) ==> (spec_reloaded(filters, scope, records, types).dom().contains(
            key,
        ) == filters.dom().contains(key)),
        !in_scope(scope, key.0) && filters.dom().contains(key) ==> spec_reloaded(
            filters,
            scope,
            records,
            types,
        )[key] == filters[key],
{
    let base = spec_out_of_scope(filters, scope);
    if spec_reloaded(filters, scope, records, types).dom().contains(key) {
        law_repopulation_keeps_current_types(base, records, scope, types, key);
    }
    if !in_scope(scope, key.0) {
        lemma_repopulation_leaves_other_columns(base, records, scope, types, key);
    }
}

/// Taking recorded filters in changes nothing for a column out of scope.
proof fn lemma_repopulation_leaves_other_columns(
    base: Map<(Seq<char>, FieldType), FilterPredicate>,
    records: Seq<FilterRevision>,
    scope: Option<Seq<String>>,
    types: Map<Seq<char>, FieldType>,
    key: (Seq<char>, FieldType),
)
    requires
        !in_scope(scope, key.0),
    ensures
        spec_repopulated(base, records, scope, types).dom().contains(key) == base.dom().contains(
            key,
        ),
        spec_repopulated(base, records, scope, types)[key] == base[key],
    decreases records.len(),
{
    if records.len() > 0 {
        lemma_repopulation_leaves_other_columns(base, records.drop_last(), scope, types, key);
    }
}

/// The reports on the first `i` rows stay when more rows are looked at.
pub proof fn law_reports_grow(
    pass: Pass,
    block_id: Seq<char>,
    rows: Seq<RowRevision>,
    i: int,
    n: int,
)
    requires
        0 <= i <= n,
    ensures
        pass.inserted(block_id, rows, i).is_prefix_of(pass.inserted(block_id, rows, n)),
        pass.deleted(block_id, rows, i).is_prefix_of(pass.deleted(block_id, rows, n)),
    decreases n,
{
    if i < n {
        law_reports_grow(pass, block_id, rows, i, n - 1);
    }
}

/// Minimal delta. A block's changeset reports exactly the rows whose
/// visibility has changed, each once and in the order of the rows: a row
/// that has become visible is reported as inserted and not as deleted, one
/// that has become hidden as deleted and not as inserted, and every report
/// is that of such a row. A row that is as visible as it was is not
/// reported at all.
pub proof fn law_minimal_delta(pass: Pass, block_id: Seq<char>, rows: Seq<RowRevision>, n: int)
    requires
        0 <= n,
    ensures
        forall|i: int|
            0 <= i < n && pass.appears(rows, i) ==> {
                let at = #[trigger] pass.inserted(block_id, rows, i).len() as int;
                &&& at < pass.inserted(block_id, rows, n).len()
                &&& pass.inserted(block_id, rows, n)[at] == pass.inserted_row(block_id, rows, i)
            },
        forall|k: int|
            0 <= k < pass.inserted(block_id, rows, n).len() ==> {
                let i = #[trigger] reported_as_inserted(pass, block_id, rows, n, k);
                &&& 0 <= i < n
                &&& pass.appears(rows, i)
                &&& pass.inserted(block_id, rows, i).len() == k
                &&& pass.inserted(block_id, rows, n)[k] == pass.inserted_row(block_id, rows, i)
            },
        forall|i: int|
            0 <= i < n && pass.disappears(rows, i) ==> {
                let at = #[trigger] pass.deleted(block_id, rows, i).len() as int;
                &&& at < pass.deleted(block_id, rows, n).len()
                &&& pass.deleted(block_id, rows, n)[at] == pass.deleted_row(block_id, rows, i)
            },
        forall|k: int|
            0 <= k < pass.deleted(block_id, rows, n).len() ==> {
                let i = #[trigger] reported_as_deleted(pass, block_id, rows, n, k);
                &&& 0 <= i < n
                &&& pass.disappears(rows, i)
                &&& pass.deleted(block_id, rows, i).len() == k
                &&& pass.deleted(block_id, rows, n)[k] == pass.deleted_row(block_id, rows, i)
            },
    decreases n,
{
    if n > 0 {
        law_minimal_delta(pass, block_id, rows, n - 1);
        let before = pass.inserted(block_id, rows, n - 1);
        let now = pass.inserted(block_id, rows, n);
        assert forall|i: int| 0 <= i < n && pass.appears(rows, i) implies {
            let at = #[trigger] pass.inserted(block_id, rows, i).len() as int;
            &&& at < now.len()
            &&& now[at] == pass.inserted_row(block_id, rows, i)
        } by {
            if i < n - 1 {
                let at = pass.inserted(block_id, rows, i).len() as int;
                assert(at < before.len());
                assert(now[at] == before[at]);
            }
        }
        assert forall|k: int| 0 <= k < now.len() implies {
            let i = #[trigger] reported_as_inserted(pass, block_id, rows, n, k);
            &&& 0 <= i < n
            &&& pass.appears(rows, i)
            &&& pass.inserted(block_id, rows, i).len() == k
            &&& now[k] == pass.inserted_row(block_id, rows, i)
        } by {
            if k < before.len() {
                assert(reported_as_inserted(pass, block_id, rows, n, k) == reported_as_inserted(
                    pass,
                    block_id,
                    rows,
                    n - 1,
                    k,
                ));
                assert(now[k] == before[k]);
            }
        }
        let gone_before = pass.deleted(block_id, rows, n - 1);
        let gone = pass.deleted(block_id, rows, n);
        assert forall|i: int| 0 <= i < n && pass.disappears(rows, i) implies {
            let at = #[trigger] pass.deleted(block_id, rows, i).len() as int;
            &&& at < gone.len()
            &&& gone[at] == pass.deleted_row(block_id, rows, i)
        } by {
            if i < n - 1 {
                let at = pass.deleted(block_id, rows, i).len() as int;
                assert(at < gone_before.len());
                assert(gone[at] == gone_before[at]);
            }
        }
        assert forall|k: int| 0 <= k < gone.len() implies {
            let i = #[trigger] reported_as_deleted(pass, block_id, rows, n, k);
            &&& 0 <= i < n
            &&& pass.disappears(rows, i)
            &&& pass.deleted(block_id, rows, i).len() == k
            &&& gone[k] == pass.deleted_row(block_id, rows, i)
        } by {
            if k < gone_before.len() {
                assert(reported_as_deleted(pass, block_id, rows, n, k) == reported_as_deleted(
                    pass,
                    block_id,
                    rows,
                    n - 1,
                    k,
                ));
                assert(gone[k] == gone_before[k]);
            }
        }
    } else {
        assert(pass.inserted(block_id, rows, n).len() == 0);
        assert(pass.deleted(block_id, rows, n).len() == 0);
    }
}

/// The row that the `k`-th report of inserted rows is about.
pub open spec fn reported_as_inserted(
    pass: Pass,
    block_id: Seq<char>,
    rows: Seq<RowRevision>,
    n: int,
    k: int,
) -> int
    decreases n,
{
    if n <= 0 {
        0
    } else if k < pass.inserted(block_id, rows, n - 1).len() {
        reported_as_inserted(pass, block_id, rows, n - 1, k)
    } else {
        n - 1
    }
}

/// The row that the `k`-th report of deleted rows is about.
pub open spec fn reported_as_deleted(
    pass: Pass,
    block_id: Seq<char>,
    rows: Seq<RowRevision>,
    n: int,
    k: int,
) -> int
    decreases n,
{
    if n <= 0 {
        0
    } else if k < pass.deleted(block_id, rows, n - 1).len() {
        reported_as_deleted(pass, block_id, rows, n - 1, k)
    } else {
        n - 1
    }
}

/// The count of visible rows grows with the rows looked at, by one for
/// each visible row.
pub proof fn law_shown_before_grows(pass: Pass, rows: Seq<RowRevision>, i: int, n: int)
    requires
        0 <= i <= n,
    ensures
        0 <= pass.shown_before(rows, i) <= i,
        pass.shown_before(rows, i) <= pass.shown_before(rows, n),
        i < n && pass.shown(rows, i) ==> pass.shown_before(rows, i) < pass.shown_before(rows, n),
    decreases n,
{
    if i > 0 {
        law_shown_before_grows(pass, rows, i - 1, i - 1);
    }
    if i < n {
        law_shown_before_grows(pass, rows, i, n - 1);
    }
}

/// Order within a block. The index that an inserted row carries is the
/// number of visible rows that stand before it in the block, so it is the
/// row's place in the filtered block and never more than its place in
/// storage; and along a changeset these indices strictly increase.
pub proof fn law_inserted_indices_follow_visible_order(
    pass: Pass,
    block_id: Seq<char>,
    rows: Seq<RowRevision>,
    n: int,
)
    requires
        0 <= n,
    ensures
        forall|k: int|
            0 <= k < pass.inserted(block_id, rows, n).len() ==> {
                let i = #[trigger] reported_as_inserted(pass, block_id, rows, n, k);
                &&& pass.inserted(block_id, rows, n)[k].index == pass.shown_before(rows, i)
                &&& 0 <= pass.inserted(block_id, rows, n)[k].index <= i
            },
        forall|j: int, k: int|
            0 <= j < k < pass.inserted(block_id, rows, n).len() ==> (#[trigger] pass.inserted(
                block_id,
                rows,
                n,
            )[j]).index < (#[trigger] pass.inserted(block_id, rows, n)[k]).index,
{
    law_minimal_delta(pass, block_id, rows, n);
    let reports = pass.inserted(block_id, rows, n);
    assert forall|k: int| 0 <= k < reports.len() implies {
        let i = #[trigger] reported_as_inserted(pass, block_id, rows, n, k);
        &&& reports[k].index == pass.shown_before(rows, i)
        &&& 0 <= reports[k].index <= i
    } by {
        let i = reported_as_inserted(pass, block_id, rows, n, k);
        assert(reports[k] == pass.inserted_row(block_id, rows, i));
        law_shown_before_grows(pass, rows, i, n);
    }
    assert forall|j: int, k: int| 0 <= j < k < reports.len() implies (#[trigger] reports[j]).index
        < (#[trigger] reports[k]).index by {
        let a = reported_as_inserted(pass, block_id, rows, n, j);
        let b = reported_as_inserted(pass, block_id, rows, n, k);
        assert(reports[j] == pass.inserted_row(block_id, rows, a));
        assert(reports[k] == pass.inserted_row(block_id, rows, b));
        if b <= a {
            law_reports_grow(pass, block_id, rows, b, a);
        }
        law_shown_before_grows(pass, rows, a, b);
    }
}

/// Where no row's visibility has changed, nothing is reported.
pub proof fn law_no_change_no_report(pass: Pass, block_id: Seq<char>, rows: Seq<RowRevision>, n: int)
    requires
        forall|i: int| 0 <= i < n ==> !#[trigger] pass.appears(rows, i),
        forall|i: int| 0 <= i < n ==> !#[trigger] pass.disappears(rows, i),
    ensures
        pass.inserted(block_id, rows, n) == Seq::<InsertedRowView>::empty(),
        pass.deleted(block_id, rows, n) == Seq::<GridRowIdView>::empty(),
    decreases n,
{
    if n > 0 {
        law_no_change_no_report(pass, block_id, rows, n - 1);
        assert(!pass.appears(rows, n - 1));
        assert(!pass.disappears(rows, n - 1));
    }
}

/// The identifier of row `i` of block `b`.
pub open spec fn row_id_at(blocks: Seq<GridBlockSnapshot>, b: int, i: int) -> Seq<char> {
    blocks[b].row_revs@[i].id@
}

/// No two rows of the blocks have the same identifier.
pub open spec fn distinct_rows(blocks: Seq<GridBlockSnapshot>) -> bool {
    forall|b1: int, i1: int, b2: int, i2: int|
        0 <= b1 < blocks.len() && 0 <= i1 < blocks[b1].row_revs@.len() && 0 <= b2 < blocks.len()
            && 0 <= i2 < blocks[b2].row_revs@.len() && (b1 != b2 || i1 != i2) ==> #[trigger] row_id_at(
            blocks,
            b1,
            i1,
        ) != #[trigger] row_id_at(blocks, b2, i2)
}

/// Looking at rows none of which is `row_id` leaves what is remembered of
/// `row_id` as it was.
pub proof fn law_other_rows_leave_memory(
    pass: Pass,
    so_far: Map<Seq<char>, FilterResultView>,
    rows: Seq<RowRevision>,
    n: int,
    row_id: Seq<char>,
)
    requires
        forall|i: int| 0 <= i < n ==> (#[trigger] rows[i]).id@ != row_id,
    ensures
        pass.remembered(so_far, rows, n).dom().contains(row_id) == so_far.dom().contains(row_id),
        pass.remembered(so_far, rows, n)[row_id] == so_far[row_id],
    decreases n,
{
    if n > 0 {
        law_other_rows_leave_memory(pass, so_far, rows, n - 1, row_id);
        assert(rows[n - 1].id@ != row_id);
    }
}

/// After a look at the first `n` rows, the verdict on row `i` is
/// remembered, unless a later row has the same identifier.
pub proof fn law_row_is_remembered(
    pass: Pass,
    so_far: Map<Seq<char>, FilterResultView>,
    rows: Seq<RowRevision>,
    n: int,
    i: int,
)
    requires
        0 <= i < n,
        forall|j: int| i < j < n ==> (#[trigger] rows[j]).id@ != rows[i].id@,
    ensures
        pass.remembered(so_far, rows, n).dom().contains(rows[i].id@),
        pass.remembered(so_far, rows, n)[rows[i].id@] == pass.outcome(rows, i),
    decreases n,
{
    if i < n - 1 {
        law_row_is_remembered(pass, so_far, rows, n - 1, i);
        assert(rows[n - 1].id@ != rows[i].id@);
    }
}

/// After a pass over blocks whose rows have distinct identifiers, the
/// verdict of the pass on each row is what is remembered of it.
pub proof fn law_pass_remembers_its_verdicts(
    pass: Pass,
    blocks: Seq<GridBlockSnapshot>,
    n: int,
    b: int,
    i: int,
)
    requires
        distinct_rows(blocks),
        0 <= b < n <= blocks.len(),
        0 <= i < blocks[b].row_revs@.len(),
    ensures
        pass.remembered_blocks(blocks, n).dom().contains(row_id_at(blocks, b, i)),
        pass.remembered_blocks(blocks, n)[row_id_at(blocks, b, i)] == pass.outcome(
            blocks[b].row_revs@,
            i,
        ),
    decreases n,
{
    let last = blocks[n - 1].row_revs@;
    let earlier = pass.remembered_blocks(blocks, n - 1);
    if b == n - 1 {
        assert forall|j: int| i < j < last.len() implies (#[trigger] last[j]).id@ != last[i].id@ by {
            assert(row_id_at(blocks, b, j) != row_id_at(blocks, b, i));
        }
        law_row_is_remembered(pass, earlier, last, last.len() as int, i);
    } else {
        law_pass_remembers_its_verdicts(pass, blocks, n - 1, b, i);
        assert forall|j: int| 0 <= j < last.len() implies (#[trigger] last[j]).id@ != row_id_at(
            blocks,
            b,
            i,
        ) by {
            assert(row_id_at(blocks, n - 1, j) != row_id_at(blocks, b, i));
        }
        law_other_rows_leave_memory(
            pass,
            earlier,
            last,
            last.len() as int,
            row_id_at(blocks, b, i),
        );
    }
}

/// After a pass, only rows of the pass are remembered: what was remembered
/// of rows that the blocks no longer hold is gone.
pub proof fn law_pass_forgets_absent_rows(
    pass: Pass,
    blocks: Seq<GridBlockSnapshot>,
    n: int,
    row_id: Seq<char>,
)
    requires
        0 <= n <= blocks.len(),
        forall|b: int, i: int|
            0 <= b < n && 0 <= i < blocks[b].row_revs@.len() ==> #[trigger] row_id_at(blocks, b, i)
                != row_id,
    ensures
        !pass.remembered_blocks(blocks, n).dom().contains(row_id),
    decreases n,
{
    if n > 0 {
        law_pass_forgets_absent_rows(pass, blocks, n - 1, row_id);
        let last = blocks[n - 1].row_revs@;
        assert forall|j: int| 0 <= j < last.len() implies (#[trigger] last[j]).id@ != row_id by {
            assert(row_id_at(blocks, n - 1, j) != row_id);
        }
        law_other_rows_leave_memory(
            pass,
            pass.remembered_blocks(blocks, n - 1),
            last,
            last.len() as int,
            row_id,
        );
    }
}

/// The cells of row `i` of block `b`.
pub open spec fn row_cells_at(
    blocks: Seq<GridBlockSnapshot>,
    b: int,
    i: int,
) -> Map<Seq<char>, CellData> {
    blocks[b].row_revs@[i].cells@
}

/// An identifier names one row: rows of the blocks that have the same
/// identifier hold the same cells.
pub open spec fn one_row_per_id(blocks: Seq<GridBlockSnapshot>) -> bool {
    forall|b1: int, i1: int, b2: int, i2: int|
        0 <= b1 < blocks.len() && 0 <= i1 < blocks[b1].row_revs@.len() && 0 <= b2 < blocks.len()
            && 0 <= i2 < blocks[b2].row_revs@.len() && row_id_at(blocks, b1, i1) == row_id_at(
            blocks,
            b2,
            i2,
        ) ==> #[trigger] row_cells_at(blocks, b1, i1) == #[trigger] row_cells_at(blocks, b2, i2)
}

/// `result` is the verdict of the pass on row `i` of block `b`, and that
/// row is called `row_id`.
pub open spec fn is_verdict_on(
    pass: Pass,
    blocks: Seq<GridBlockSnapshot>,
    b: int,
    i: int,
    row_id: Seq<char>,
    result: FilterResultView,
) -> bool {
    &&& 0 <= b < blocks.len()
    &&& 0 <= i < blocks[b].row_revs@.len()
    &&& row_id_at(blocks, b, i) == row_id
    &&& result == pass.outcome(blocks[b].row_revs@, i)
}

/// What is remembered after a look at the first `n` rows is, for each row
/// identifier, either what was remembered before or the verdict on one of
/// these rows; and each of these rows is remembered.
proof fn lemma_memory_comes_from_rows(
    pass: Pass,
    so_far: Map<Seq<char>, FilterResultView>,
    rows: Seq<RowRevision>,
    n: int,
    row_id: Seq<char>,
)
    requires
        0 <= n <= rows.len(),
    ensures
        so_far.dom().contains(row_id) ==> pass.remembered(so_far, rows, n).dom().contains(row_id),
        forall|i: int|
            0 <= i < n && (#[trigger] rows[i]).id@ == row_id ==> pass.remembered(
                so_far,
                rows,
                n,
            ).dom().contains(row_id),
        pass.remembered(so_far, rows, n).dom().contains(row_id) ==> {
            ||| so_far.dom().contains(row_id) && pass.remembered(so_far, rows, n)[row_id]
                == so_far[row_id]
            ||| exists|i: int|
                0 <= i < n && (#[trigger] rows[i]).id@ == row_id && pass.remembered(
                    so_far,
                    rows,
                    n,
                )[row_id] == pass.outcome(rows, i)
        },
    decreases n,
{
    if n > 0 {
        lemma_memory_comes_from_rows(pass, so_far, rows, n - 1, row_id);
        let before = pass.remembered(so_far, rows, n - 1);
        let now = pass.remembered(so_far, rows, n);
        if now.dom().contains(row_id) {
            if rows[n - 1].id@ == row_id {
                assert(now[row_id] == pass.outcome(rows, n - 1));
            } else if !(so_far.dom().contains(row_id) && before[row_id] == so_far[row_id]) {
                let i = choose|i: int|
                    0 <= i < n - 1 && (#[trigger] rows[i]).id@ == row_id && before[row_id]
                        == pass.outcome(rows, i);
                assert(0 <= i < n && rows[i].id@ == row_id && now[row_id] == pass.outcome(rows, i));
            }
        }
    }
}

/// What is remembered after a pass is, for each row identifier, the verdict
/// of the pass on a row of that name; and every row of the pass is
/// remembered.
pub proof fn law_memory_holds_verdicts_of_the_pass(
    pass: Pass,
    blocks: Seq<GridBlockSnapshot>,
    n: int,
    row_id: Seq<char>,
)
    requires
        0 <= n <= blocks.len(),
    ensures
        forall|b: int, i: int|
            0 <= b < n && 0 <= i < blocks[b].row_revs@.len() && #[trigger] row_id_at(blocks, b, i)
                == row_id ==> pass.remembered_blocks(blocks, n).dom().contains(row_id),
        pass.remembered_blocks(blocks, n).dom().contains(row_id) ==> exists|b: int, i: int|
            b < n && #[trigger] is_verdict_on(
                pass,
                blocks,
                b,
                i,
                row_id,
                pass.remembered_blocks(blocks, n)[row_id],
            ),
    decreases n,
{
    if n > 0 {
        law_memory_holds_verdicts_of_the_pass(pass, blocks, n - 1, row_id);
        let earlier = pass.remembered_blocks(blocks, n - 1);
        let last = blocks[n - 1].row_revs@;
        let now = pass.remembered_blocks(blocks, n);
        lemma_memory_comes_from_rows(pass, earlier, last, last.len() as int, row_id);
        assert forall|b: int, i: int|
            0 <= b < n && 0 <= i < blocks[b].row_revs@.len() && #[trigger] row_id_at(blocks, b, i)
                == row_id implies now.dom().contains(row_id) by {
            if b == n - 1 {
                assert(last[i].id@ == row_id);
            }
        }
        if now.dom().contains(row_id) {
            if earlier.dom().contains(row_id) && now[row_id] == earlier[row_id] {
                let (b, i) = choose|b: int, i: int|
                    b < n - 1 && #[trigger] is_verdict_on(
                        pass,
                        blocks,
                        b,
                        i,
                        row_id,
                        earlier[row_id],
                    );
                assert(b < n && is_verdict_on(pass, blocks, b, i, row_id, now[row_id]));
            } else {
                let i = choose|i: int|
                    0 <= i < last.len() && (#[trigger] last[i]).id@ == row_id && now[row_id]
                        == pass.outcome(last, i);
                assert(n - 1 < n && is_verdict_on(pass, blocks, n - 1, i, row_id, now[row_id]));
            }
        }
    }
}

/// Idempotence. When a pass is run again on the same blocks, with the same
/// filters and column types, nothing is reported: every changeset of the
/// second pass is empty. An identifier must name one row.
pub proof fn law_second_pass_reports_nothing(pass: Pass, blocks: Seq<GridBlockSnapshot>, b: int)
    requires
        one_row_per_id(blocks),
        0 <= b < blocks.len(),
    ensures
        ({
            let second = Pass {
                results: pass.remembered_blocks(blocks, blocks.len() as int),
                ..pass
            };
            &&& second.changeset(blocks[b]).inserted_rows == Seq::<InsertedRowView>::empty()
            &&& second.changeset(blocks[b]).deleted_rows == Seq::<GridRowIdView>::empty()
        }),
{
    let results = pass.remembered_blocks(blocks, blocks.len() as int);
    let second = Pass { results, ..pass };
    let rows = blocks[b].row_revs@;
    assert forall|i: int| 0 <= i < rows.len() implies second.shown(rows, i) == second.was_shown(
        rows,
        i,
    ) by {
        let row_id = rows[i].id@;
        law_memory_holds_verdicts_of_the_pass(pass, blocks, blocks.len() as int, row_id);
        assert(row_id_at(blocks, b, i) == row_id);
        assert(results.dom().contains(row_id));
        let (at_block, at_row) = choose|at_block: int, at_row: int|
            at_block < blocks.len() && #[trigger] is_verdict_on(
                pass,
                blocks,
                at_block,
                at_row,
                row_id,
                results[row_id],
            );
        assert(row_cells_at(blocks, at_block, at_row) == row_cells_at(blocks, b, i));
        assert(results[row_id].cells =~= pass.outcome(rows, i).cells);
        assert(second.outcome(rows, i).cells =~= pass.outcome(rows, i).cells);
    }
    assert forall|i: int| 0 <= i < rows.len() implies !#[trigger] second.appears(rows, i) by {
        assert(second.shown(rows, i) == second.was_shown(rows, i));
    }
    assert forall|i: int| 0 <= i < rows.len() implies !#[trigger] second.disappears(rows, i) by {
        assert(second.shown(rows, i) == second.was_shown(rows, i));
    }
    law_no_change_no_report(second, blocks[b].block_id@, rows, rows.len() as int);
}

} // verus!
