//! Deciding whether a row is visible.
//!
//! A filter applies to a row's column when the column has a current type
//! and a filter is in force for the column under exactly that type. A
//! filter that was defined under another type is inert: the column counts
//! as satisfied. Where a filter applies, the row's cell must exist and
//! satisfy the predicate. A row is visible when every column to which a
//! filter applies is satisfied; with no filter in force every row is
//! visible.

use crate::field::{id_listed, lists_id, FieldType};
use crate::filter_cache::{spec_test, FilterCache};
use crate::filter_result::{all_pass, FilterResult, FilterResultCache, FilterResultView};
use crate::filters::FilterPredicate;
use crate::id_map::{
    has_id_before, lemma_has_id_before_step, lemma_map_has_position, position_of, IdMap,
};
use crate::row::{CellData, RowRevision};
use vstd::prelude::*;

verus! {

/// A filter applies to column `field_id`.
pub open spec fn filtered(
    filters: Map<(Seq<char>, FieldType), FilterPredicate>,
    types: Map<Seq<char>, FieldType>,
    field_id: Seq<char>,
) -> bool {
    types.dom().contains(field_id) && filters.dom().contains((field_id, types[field_id]))
}

/// Column `field_id` is satisfied: no filter applies to it, or the row has
/// a cell there that satisfies the filter.
pub open spec fn cell_passes(
    filters: Map<(Seq<char>, FieldType), FilterPredicate>,
    types: Map<Seq<char>, FieldType>,
    cells: Map<Seq<char>, CellData>,
    field_id: Seq<char>,
) -> bool {
    filtered(filters, types, field_id) ==> cells.dom().contains(field_id) && filters[(
        field_id,
        types[field_id],
    )].spec_is_match(cells[field_id])
}

/// The row is visible: every column is satisfied.
pub open spec fn row_passes(
    filters: Map<(Seq<char>, FieldType), FilterPredicate>,
    types: Map<Seq<char>, FieldType>,
    cells: Map<Seq<char>, CellData>,
) -> bool {
    forall|field_id: Seq<char>| #[trigger] cell_passes(filters, types, cells, field_id)
}

/// What a test of every column records: an entry for each column in which
/// the row has a cell or to which a filter applies, saying whether the
/// column is satisfied.
pub open spec fn spec_verdicts(
    filters: Map<(Seq<char>, FieldType), FilterPredicate>,
    types: Map<Seq<char>, FieldType>,
    cells: Map<Seq<char>, CellData>,
) -> Map<Seq<char>, bool> {
    Map::new(
        |field_id: Seq<char>| cells.dom().contains(field_id) || filtered(filters, types, field_id),
        |field_id: Seq<char>| cell_passes(filters, types, cells, field_id),
    )
}

/// What a test of the changed columns alone records: for a changed column
/// what a fresh test gives, for every other column what was recorded
/// before.
pub open spec fn spec_carried(
    previous: Map<Seq<char>, bool>,
    fresh: Map<Seq<char>, bool>,
    changed: Seq<String>,
) -> Map<Seq<char>, bool> {
    Map::new(
        |field_id: Seq<char>|
            if lists_id(changed, field_id) {
                fresh.dom().contains(field_id)
            } else {
                previous.dom().contains(field_id)
            },
        |field_id: Seq<char>|
            if lists_id(changed, field_id) {
                fresh[field_id]
            } else {
                previous[field_id]
            },
    )
}

/// The verdict on a row. Where the changed columns are known and an earlier
/// verdict on the row is remembered, only the changed columns are tested;
/// else every column is.
pub open spec fn spec_filter_row(
    filters: Map<(Seq<char>, FieldType), FilterPredicate>,
    types: Map<Seq<char>, FieldType>,
    results: Map<Seq<char>, FilterResultView>,
    changed: Option<Seq<String>>,
    index: int,
    row: RowRevision,
) -> FilterResultView {
    let fresh = spec_verdicts(filters, types, row.cells@);
    FilterResultView {
        row_id: row.id@,
        row_index: index,
        cells: if changed is Some && results.dom().contains(row.id@) {
            spec_carried(results[row.id@].cells, fresh, changed->0)
        } else {
            fresh
        },
    }
}

/// A row is visible after a test of every column exactly if the row passes.
pub proof fn lemma_verdicts_pass(
    filters: Map<(Seq<char>, FieldType), FilterPredicate>,
    types: Map<Seq<char>, FieldType>,
    cells: Map<Seq<char>, CellData>,
)
    ensures
        all_pass(spec_verdicts(filters, types, cells)) <==> row_passes(filters, types, cells),
{
    let verdicts = spec_verdicts(filters, types, cells);
    if all_pass(verdicts) {
        assert forall|field_id: Seq<char>| #[trigger]
            cell_passes(filters, types, cells, field_id) by {
            if filtered(filters, types, field_id) {
                assert(verdicts.dom().contains(field_id));
                assert(verdicts[field_id]);
            }
        }
    }
    if row_passes(filters, types, cells) {
        assert forall|field_id: Seq<char>|
            verdicts.dom().contains(field_id) implies #[trigger] verdicts[field_id] by {
            assert(cell_passes(filters, types, cells, field_id));
        }
    }
}

/// What is recorded once the first `n` listed columns have been tested:
/// every column in which the row has a cell counts as satisfied until its
/// turn has come.
spec fn tested_so_far(
    filters: Map<(Seq<char>, FieldType), FilterPredicate>,
    types: Map<Seq<char>, FieldType>,
    cells: Map<Seq<char>, CellData>,
    pairs: Seq<(Seq<char>, FieldType)>,
    n: int,
) -> Map<Seq<char>, bool> {
    Map::new(
        |field_id: Seq<char>|
            cells.dom().contains(field_id) || (filtered(filters, types, field_id)
                && has_id_before(pairs, n, field_id)),
        |field_id: Seq<char>|
            if has_id_before(pairs, n, field_id) {
                cell_passes(filters, types, cells, field_id)
            } else {
                true
            },
    )
}

/// What a fresh test records for one column, if it records anything.
fn fresh_verdict(
    row_rev: &RowRevision,
    filter_cache: &FilterCache,
    field_types: &IdMap<FieldType>,
    field_id: &String,
) -> (verdict: Option<bool>)
    ensures
        verdict == (if spec_verdicts(filter_cache@, field_types@, row_rev.cells@).dom().contains(
            field_id@,
        ) {
            Some(spec_verdicts(filter_cache@, field_types@, row_rev.cells@)[field_id@])
        } else {
            None
        }),
{
    let cell = row_rev.cells.get(field_id);
    let tested = match field_types.get(field_id) {
        Some(field_type) => filter_cache.test_field(field_id, *field_type, cell),
        None => None,
    };
    match tested {
        Some(passes) => Some(passes),
        None => if cell.is_some() {
            Some(true)
        } else {
            None
        },
    }
}

/// Tests every column of a row.
fn test_all(
    index: usize,
    row_rev: &RowRevision,
    filter_cache: &FilterCache,
    field_types: &IdMap<FieldType>,
) -> (result: FilterResult)
    ensures
        result@.row_id == row_rev.id@,
        result@.row_index == index,
        result@.cells == spec_verdicts(filter_cache@, field_types@, row_rev.cells@),
{
    let mut result = FilterResult::new(index, row_rev);
    let ghost filters = filter_cache@;
    let ghost types = field_types@;
    let ghost cells = row_rev.cells@;
    let ghost pairs = field_types.pairs();
    let n: usize = field_types.len();
    let mut i: usize = 0;
    assert(result@.cells =~= tested_so_far(filters, types, cells, pairs, 0));
    while i < n
        invariant
            i <= n,
            n == pairs.len(),
            pairs == field_types.pairs(),
            filters == filter_cache@,
            types == field_types@,
            cells == row_rev.cells@,
            result@.row_id == row_rev.id@,
            result@.row_index == index,
            result@.cells == tested_so_far(filters, types, cells, pairs, i as int),
        decreases n - i,
    {
        let field_id = field_types.key_at(i);
        let field_type = *field_types.value_at(i);
        let tested = filter_cache.test_field(field_id, field_type, row_rev.cells.get(field_id));
        match tested {
            Some(passes) => {
                result.update_cell(field_id.as_str(), passes);
            },
            None => {},
        }
        proof {
            assert forall|f: Seq<char>| #[trigger]
                has_id_before(pairs, i + 1, f) <==> (has_id_before(pairs, i as int, f) || f
                    == field_id@) by {
                lemma_has_id_before_step(pairs, i as int, f);
            }
            assert(result@.cells =~= tested_so_far(filters, types, cells, pairs, i + 1));
        }
        i = i + 1;
    }
    proof {
        assert forall|f: Seq<char>| types.dom().contains(f) implies has_id_before(
            pairs,
            n as int,
            f,
        ) by {
            lemma_map_has_position(pairs, f);
            let p = position_of(pairs, f);
            assert(0 <= p < n && pairs[p].0 == f);
        }
        assert(result@.cells =~= spec_verdicts(filters, types, cells));
    }
    result
}

/// Tests the changed columns of a row and takes the other verdicts over
/// from an earlier result.
fn test_changed(
    index: usize,
    row_rev: &RowRevision,
    filter_cache: &FilterCache,
    field_types: &IdMap<FieldType>,
    previous: &FilterResult,
    changed_fields: &Vec<String>,
) -> (result: FilterResult)
    ensures
        result@.row_id == row_rev.id@,
        result@.row_index == index,
        result@.cells == spec_carried(
            previous@.cells,
            spec_verdicts(filter_cache@, field_types@, row_rev.cells@),
            changed_fields@,
        ),
{
    let mut result = FilterResult::carried(index, row_rev, previous);
    let ghost fresh = spec_verdicts(filter_cache@, field_types@, row_rev.cells@);
    let mut i: usize = 0;
    assert(result@.cells =~= spec_carried(previous@.cells, fresh, changed_fields@.take(0))) by {
        assert forall|f: Seq<char>| !lists_id(changed_fields@.take(0), f) by {}
    }
    while i < changed_fields.len()
        invariant
            i <= changed_fields@.len(),
            fresh == spec_verdicts(filter_cache@, field_types@, row_rev.cells@),
            result@.row_id == row_rev.id@,
            result@.row_index == index,
            result@.cells == spec_carried(previous@.cells, fresh, changed_fields@.take(i as int)),
        decreases changed_fields@.len() - i,
    {
        let field_id = &changed_fields[i];
        match fresh_verdict(row_rev, filter_cache, field_types, field_id) {
            Some(passes) => {
                result.update_cell(field_id.as_str(), passes);
            },
            None => {
                result.forget_cell(field_id);
            },
        }
        proof {
            let shorter = changed_fields@.take(i as int);
            let longer = changed_fields@.take(i + 1);
            assert forall|f: Seq<char>| lists_id(longer, f) <==> (lists_id(shorter, f) || f
                == field_id@) by {
                if lists_id(longer, f) {
                    let k = choose|k: int| 0 <= k < longer.len() && (#[trigger] longer[k])@ == f;
                    assert(longer[k] == changed_fields@[k]);
                    if k < i {
                        assert(shorter[k]@ == f);
                    }
                }
                if lists_id(shorter, f) {
                    let k = choose|k: int|
                        0 <= k < shorter.len() && (#[trigger] shorter[k])@ == f;
                    assert(shorter[k] == changed_fields@[k]);
                    assert(longer[k]@ == f);
                }
                if f == field_id@ {
                    assert(longer[i as int]@ == f);
                }
            }
            assert(result@.cells =~= spec_carried(previous@.cells, fresh, longer));
        }
        i = i + 1;
    }
    assert(changed_fields@.take(i as int) =~= changed_fields@);
    result
}

/// Decides on the row at position `index` of its block.
///
/// Where `changed_fields` names the columns whose filter or cells changed
/// since the row's verdict was remembered, and the row's verdict is in
/// `filter_result_cache`, only those columns are tested and all other
/// verdicts are taken over as they are. In every other case each column is
/// tested.
pub fn filter_row(
    index: usize,
    row_rev: &RowRevision,
    filter_cache: &FilterCache,
    filter_result_cache: &FilterResultCache,
    field_types: &IdMap<FieldType>,
    changed_fields: Option<&Vec<String>>,
) -> (result: FilterResult)
    ensures
        result@ == spec_filter_row(
            filter_cache@,
            field_types@,
            filter_result_cache@,
            match changed_fields {
                Some(changed) => Some(changed@),
                None => None,
            },
            index as int,
            *row_rev,
        ),
{
    match changed_fields {
        Some(changed) => match filter_result_cache.get(&row_rev.id) {
            Some(previous) => test_changed(
                index,
                row_rev,
                filter_cache,
                field_types,
                previous,
                changed,
            ),
            None => test_all(index, row_rev, filter_cache, field_types),
        },
        None => test_all(index, row_rev, filter_cache, field_types),
    }
}

} // verus!
