//! The filter service of one grid.
//!
//! The service owns the filters in force and the verdicts remembered from
//! the last pass. A change of filters updates the former and says whether
//! the rows have to be looked at again; a pass looks at them and reports
//! to the client what has to change.

use crate::changeset::{GridBlockChangeset, GridRowId, InsertedRow};
use crate::evaluator::filter_row;
use crate::field::{field_types, spec_field_types, FieldRevision, FieldType};
use crate::filter_cache::{
    reload_filter_cache, spec_reloaded, spec_repopulated, FilterCache, FilterRevision,
};
use crate::filter_id::FilterId;
use crate::filter_result::{FilterResultCache, FilterResultView};
use crate::filters::FilterPredicate;
use crate::id_map::IdMap;
use crate::pass::Pass;
use crate::row::GridBlockSnapshot;
use crate::task::{FilterTaskContext, Task, TaskContent};
use vstd::prelude::*;
use vstd::std_specs::convert::FromSpecImpl;

verus! {

/// A request to put a filter in force.
#[derive(Clone, Debug, PartialEq, Eq)]
pub struct CreateGridFilterParams {
    pub field_id: String,
    pub field_type: FieldType,
    pub predicate: FilterPredicate,
}

/// A request to take a filter out of force.
#[derive(Clone, Debug, PartialEq, Eq)]
pub struct DeleteFilterParams {
    pub field_id: String,
    pub field_type: FieldType,
}

/// A change of a grid's settings, as the settings layer sends it.
#[derive(Clone, Debug, PartialEq, Eq)]
pub struct GridSettingChangesetParams {
    pub grid_id: String,
    pub insert_filter: Option<CreateGridFilterParams>,
    pub delete_filter: Option<DeleteFilterParams>,
}

/// A change of filters: at most one filter to put in force, with its
/// predicate, and at most one to take out of force.
#[derive(Clone, Debug, PartialEq, Eq)]
pub struct GridFilterChangeset {
    pub insert_filter: Option<(FilterId, FilterPredicate)>,
    pub delete_filter: Option<FilterId>,
}

impl GridFilterChangeset {
    /// Whether the change asks for anything.
    pub open spec fn spec_is_changed(&self) -> bool {
        self.insert_filter is Some || self.delete_filter is Some
    }

    /// Whether the change asks for anything.
    pub fn is_changed(&self) -> (changed: bool)
        ensures
            changed == self.spec_is_changed(),
    {
        self.insert_filter.is_some() || self.delete_filter.is_some()
    }

    /// The columns whose filters the change touches: that of the filter to
    /// put in force, then that of the filter to take out.
    pub open spec fn spec_changed_fields(&self) -> Seq<Seq<char>> {
        (match self.insert_filter {
            Some(insertion) => seq![insertion.0.field_id@],
            None => Seq::empty(),
        }) + (match self.delete_filter {
            Some(filter_id) => seq![filter_id.field_id@],
            None => Seq::empty(),
        })
    }

    /// The column whose recorded filters have to be read from the document
    /// store before the change is applied: the column of the filter to put
    /// in force, if there is one.
    pub fn reload_scope(&self) -> (scope: Option<Vec<String>>)
        ensures
            match self.insert_filter {
                Some(insertion) => scope is Some && scope->0@.len() == 1 && scope->0@[0]
                    == insertion.0.field_id,
                None => scope is None,
            },
    {
        match &self.insert_filter {
            Some(insertion) => {
                let mut ids: Vec<String> = Vec::new();
                ids.push(insertion.0.field_id.clone());
                Some(ids)
            },
            None => None,
        }
    }
}

impl From<GridSettingChangesetParams> for GridFilterChangeset {
    fn from(params: GridSettingChangesetParams) -> (changeset: GridFilterChangeset) {
        let insert_filter = match params.insert_filter {
            Some(insertion) => Some(
                (
                    FilterId { field_id: insertion.field_id, field_type: insertion.field_type },
                    insertion.predicate,
                ),
            ),
            None => None,
        };
        let delete_filter = match params.delete_filter {
            Some(deletion) => Some(
                FilterId { field_id: deletion.field_id, field_type: deletion.field_type },
            ),
            None => None,
        };
        GridFilterChangeset { insert_filter, delete_filter }
    }
}

impl FromSpecImpl<GridSettingChangesetParams> for GridFilterChangeset {
    open spec fn obeys_from_spec() -> bool {
        true
    }

    open spec fn from_spec(params: GridSettingChangesetParams) -> GridFilterChangeset {
        GridFilterChangeset {
            insert_filter: match params.insert_filter {
                Some(insertion) => Some(
                    (
                        FilterId { field_id: insertion.field_id, field_type: insertion.field_type },
                        insertion.predicate,
                    ),
                ),
                None => None,
            },
            delete_filter: match params.delete_filter {
                Some(deletion) => Some(
                    FilterId { field_id: deletion.field_id, field_type: deletion.field_type },
                ),
                None => None,
            },
        }
    }
}

/// The filters after a change has been applied to `filters`.
///
/// For a filter to put in force, the column's filters are first refreshed
/// from what the document store records, if it could be read; then the
/// predicate is stored under its identity, unless its kind does not belong
/// to the identity's column type. After that the filter to take out, if
/// any, is dropped.
pub open spec fn spec_apply_changeset(
    filters: Map<(Seq<char>, FieldType), FilterPredicate>,
    changeset: GridFilterChangeset,
    records: Option<Seq<FilterRevision>>,
    types: Map<Seq<char>, FieldType>,
) -> Map<(Seq<char>, FieldType), FilterPredicate> {
    let inserted = match changeset.insert_filter {
        Some(insertion) => {
            let refreshed = match records {
                Some(recorded) => spec_reloaded(
                    filters,
                    Some(seq![insertion.0.field_id]),
                    recorded,
                    types,
                ),
                None => filters,
            };
            if insertion.1.spec_field_type() == insertion.0.field_type {
                refreshed.insert(insertion.0@, insertion.1)
            } else {
                refreshed
            }
        },
        None => filters,
    };
    match changeset.delete_filter {
        Some(filter_id) => inserted.remove(filter_id@),
        None => inserted,
    }
}

/// The state of the filter service of one grid.
#[derive(Clone, Debug)]
pub struct GridFilterService {
    pub grid_id: String,
    pub filter_cache: FilterCache,
    pub filter_result_cache: FilterResultCache,
}

/// Looks at the rows of one block.
fn process_block(
    grid_id: &String,
    filter_cache: &FilterCache,
    filter_result_cache: &FilterResultCache,
    field_types: &IdMap<FieldType>,
    changed_fields: Option<&Vec<String>>,
    block: &GridBlockSnapshot,
    remembered: &mut FilterResultCache,
    Ghost(pass): Ghost<Pass>,
) -> (changeset: GridBlockChangeset)
    requires
        pass.grid_id == grid_id@,
        pass.filters == filter_cache@,
        pass.types == field_types@,
        pass.results == filter_result_cache@,
        pass.changed == (match changed_fields {
            Some(changed) => Some(changed@),
            None => None,
        }),
    ensures
        changeset@ == pass.changeset(*block),
        final(remembered)@ == pass.remembered(
            old(remembered)@,
            block.row_revs@,
            block.row_revs@.len() as int,
        ),
{
    let ghost rows = block.row_revs@;
    let ghost block_id = block.block_id@;
    let mut inserted_rows: Vec<InsertedRow> = Vec::new();
    let mut deleted_rows: Vec<GridRowId> = Vec::new();
    let mut visible: usize = 0;
    let mut i: usize = 0;
    assert(inserted_rows@.map_values(|row: InsertedRow| row@) =~= pass.inserted(
        block_id,
        rows,
        0,
    ));
    assert(deleted_rows@.map_values(|row: GridRowId| row@) =~= pass.deleted(block_id, rows, 0));
    while i < block.row_revs.len()
        invariant
            i <= rows.len(),
            rows == block.row_revs@,
            block_id == block.block_id@,
            pass.grid_id == grid_id@,
            pass.filters == filter_cache@,
            pass.types == field_types@,
            pass.results == filter_result_cache@,
            pass.changed == (match changed_fields {
                Some(changed) => Some(changed@),
                None => None,
            }),
            visible == pass.shown_before(rows, i as int),
            visible <= i,
            inserted_rows@.map_values(|row: InsertedRow| row@) == pass.inserted(
                block_id,
                rows,
                i as int,
            ),
            deleted_rows@.map_values(|row: GridRowId| row@) == pass.deleted(
                block_id,
                rows,
                i as int,
            ),
            remembered@ == pass.remembered(old(remembered)@, rows, i as int),
        decreases rows.len() - i,
    {
        let row_rev = &block.row_revs[i];
        let result = filter_row(
            i,
            row_rev,
            filter_cache,
            filter_result_cache,
            field_types,
            changed_fields,
        );
        let was_visible = filter_result_cache.was_visible(&row_rev.id);
        let is_visible = result.is_visible();
        assert(is_visible == pass.shown(rows, i as int));
        assert(was_visible == pass.was_shown(rows, i as int));
        if is_visible && !was_visible {
            let ghost before = inserted_rows@;
            let row = InsertedRow {
                row_id: row_rev.id.clone(),
                block_id: block.block_id.clone(),
                height: row_rev.height,
                index: visible,
            };
            assert(row@ == pass.inserted_row(block_id, rows, i as int));
            inserted_rows.push(row);
            assert(inserted_rows@.map_values(|row: InsertedRow| row@) =~= before.map_values(
                |row: InsertedRow| row@,
            ).push(row@));
        } else if !is_visible && was_visible {
            let ghost before = deleted_rows@;
            let row = GridRowId {
                grid_id: grid_id.clone(),
                block_id: block.block_id.clone(),
                row_id: row_rev.id.clone(),
            };
            assert(row@ == pass.deleted_row(block_id, rows, i as int));
            deleted_rows.push(row);
            assert(deleted_rows@.map_values(|row: GridRowId| row@) =~= before.map_values(
                |row: GridRowId| row@,
            ).push(row@));
        }
        if is_visible {
            visible = visible + 1;
        }
        remembered.insert(row_rev.id.as_str(), result);
        i = i + 1;
    }
    GridBlockChangeset { block_id: block.block_id.clone(), inserted_rows, deleted_rows }
}

impl GridFilterService {
    /// What a pass of this service starts from.
    pub open spec fn pass(&self, fields: Seq<FieldRevision>, changed: Option<Seq<String>>) -> Pass {
        Pass {
            grid_id: self.grid_id@,
            filters: self.filter_cache@,
            types: spec_field_types(fields),
            results: self.filter_result_cache@,
            changed,
        }
    }

    /// The service of grid `grid_id`, with the filters that the document
    /// store records and no verdict remembered. `filter_revs` is `None`
    /// where the store could not be read; the service then starts without
    /// filters.
    pub fn new(
        grid_id: String,
        filter_revs: Option<Vec<FilterRevision>>,
        field_revs: &Vec<FieldRevision>,
    ) -> (service: GridFilterService)
        ensures
            service.grid_id == grid_id,
            service.filter_cache@ == (match filter_revs {
                Some(records) => spec_repopulated(
                    Map::empty(),
                    records@,
                    None,
                    spec_field_types(field_revs@),
                ),
                None => Map::empty(),
            }),
            service.filter_result_cache@ == Map::<Seq<char>, FilterResultView>::empty(),
    {
        let filter_cache = match filter_revs {
            Some(records) => FilterCache::from_revisions(records, field_revs),
            None => FilterCache::new(),
        };
        GridFilterService { grid_id, filter_cache, filter_result_cache: FilterResultCache::new() }
    }

    /// Looks at every row of every block and reports, block by block and in
    /// the order of the blocks, which rows the client has to show and which
    /// to take away. A row that is as visible as it was is not reported.
    /// Afterwards the service remembers the verdicts on exactly the rows of
    /// this pass.
    pub fn process(&mut self, field_revs: &Vec<FieldRevision>, task_context: FilterTaskContext) -> (changesets:
        Vec<GridBlockChangeset>)
        ensures
            changesets@.len() == task_context.blocks@.len(),
            forall|b: int|
                0 <= b < changesets@.len() ==> (#[trigger] changesets@[b])@ == old(self).pass(
                    field_revs@,
                    task_context.changed(),
                ).changeset(task_context.blocks@[b]),
            final(self).filter_result_cache@ == old(self).pass(
                field_revs@,
                task_context.changed(),
            ).remembered_blocks(task_context.blocks@, task_context.blocks@.len() as int),
            final(self).filter_cache@ == old(self).filter_cache@,
            final(self).grid_id == old(self).grid_id,
    {
        let ghost pass = self.pass(field_revs@, task_context.changed());
        let types = field_types(field_revs);
        let changed_fields = task_context.changed_fields.as_ref();
        let mut remembered = FilterResultCache::new();
        let mut changesets: Vec<GridBlockChangeset> = Vec::new();
        let mut b: usize = 0;
        while b < task_context.blocks.len()
            invariant
                b <= task_context.blocks@.len(),
                pass.grid_id == self.grid_id@,
                pass.filters == self.filter_cache@,
                pass.types == types@,
                pass.results == self.filter_result_cache@,
                pass.changed == (match changed_fields {
                    Some(changed) => Some(changed@),
                    None => None,
                }),
                changesets@.len() == b,
                forall|k: int|
                    0 <= k < b ==> (#[trigger] changesets@[k])@ == pass.changeset(
                        task_context.blocks@[k],
                    ),
                remembered@ == pass.remembered_blocks(task_context.blocks@, b as int),
            decreases task_context.blocks@.len() - b,
        {
            let changeset = process_block(
                &self.grid_id,
                &self.filter_cache,
                &self.filter_result_cache,
                &types,
                changed_fields,
                &task_context.blocks[b],
                &mut remembered,
                Ghost(pass),
            );
            changesets.push(changeset);
            b = b + 1;
        }
        self.filter_result_cache = remembered;
        changesets
    }

    /// Applies a change of filters. Gives `None` where the change asks for
    /// nothing; nothing is touched then and no pass is due. Otherwise gives
    /// the columns whose filters the change touches: the rows have to be
    /// looked at again, and only these columns need a new test.
    ///
    /// `filter_revs` is what the document store records for the column of
    /// the filter to put in force (see `reload_scope`), or `None` where
    /// there is no such filter or the store could not be read.
    pub fn apply_changeset(
        &mut self,
        changeset: GridFilterChangeset,
        filter_revs: Option<Vec<FilterRevision>>,
        field_revs: &Vec<FieldRevision>,
    ) -> (changed_fields: Option<Vec<String>>)
        ensures
            final(self).filter_cache@ == spec_apply_changeset(
                old(self).filter_cache@,
                changeset,
                match filter_revs {
                    Some(records) => Some(records@),
                    None => None,
                },
                spec_field_types(field_revs@),
            ),
            final(self).filter_result_cache@ == old(self).filter_result_cache@,
            final(self).grid_id == old(self).grid_id,
            !changeset.spec_is_changed() ==> final(self).filter_cache@ == old(self).filter_cache@,
            match changed_fields {
                Some(fields) => changeset.spec_is_changed() && fields@.map_values(
                    |id: String| id@,
                ) == changeset.spec_changed_fields(),
                None => !changeset.spec_is_changed(),
            },
    {
        if !changeset.is_changed() {
            return None;
        }
        let mut fields: Vec<String> = Vec::new();
        match changeset.insert_filter {
            Some(insertion) => {
                let (filter_id, predicate) = insertion;
                fields.push(filter_id.field_id.clone());
                let scope = changeset_scope(&filter_id.field_id);
                reload_filter_cache(&mut self.filter_cache, Some(&scope), filter_revs, field_revs);
                let _ = self.filter_cache.upsert(filter_id, predicate);
            },
            None => {},
        }
        assert(fields@.map_values(|id: String| id@) =~= (match changeset.insert_filter {
            Some(insertion) => seq![insertion.0.field_id@],
            None => Seq::empty(),
        }));
        match changeset.delete_filter {
            Some(filter_id) => {
                self.filter_cache.remove(&filter_id);
                let ghost before = fields@;
                fields.push(filter_id.field_id);
                assert(fields@.map_values(|id: String| id@) =~= before.map_values(
                    |id: String| id@,
                ) + seq![filter_id.field_id@]);
            },
            None => {
                assert(fields@.map_values(|id: String| id@) =~= fields@.map_values(
                    |id: String| id@,
                ) + Seq::<Seq<char>>::empty());
            },
        }
        Some(fields)
    }

    /// The task that has the scheduler run a pass over `blocks`.
    pub fn gen_task(
        &self,
        task_id: u32,
        blocks: Vec<GridBlockSnapshot>,
        changed_fields: Option<Vec<String>>,
    ) -> (task: Task)
        ensures
            task.id == task_id,
            task.handler_id@ == self.grid_id@,
            task.content == TaskContent::Filter(FilterTaskContext { blocks, changed_fields }),
    {
        Task {
            handler_id: self.grid_id.clone(),
            id: task_id,
            content: TaskContent::Filter(FilterTaskContext { blocks, changed_fields }),
        }
    }
}

/// The scope that holds the one column `field_id`.
fn changeset_scope(field_id: &String) -> (scope: Vec<String>)
    ensures
        scope@ == seq![*field_id],
{
    let mut scope: Vec<String> = Vec::new();
    scope.push(field_id.clone());
    assert(scope@ =~= seq![*field_id]);
    scope
}

} // verus!
