use grid_filter::changeset::{GridBlockChangeset, GridRowId, InsertedRow};
use grid_filter::field::{FieldRevision, FieldType};
use grid_filter::filter_cache::{FilterCache, FilterRevision};
use grid_filter::filter_id::FilterId;
use grid_filter::filter_result::FilterResultCache;
use grid_filter::filters::{
    FilterPredicate, GridNumberFilter, GridTextFilter, NumberFilterCondition, TextFilterCondition,
};
use grid_filter::row::{CellData, GridBlockSnapshot, RowRevision};
use grid_filter::service::{
    CreateGridFilterParams, DeleteFilterParams, GridFilterChangeset, GridFilterService,
    GridSettingChangesetParams,
};
use grid_filter::task::{FilterTaskContext, TaskContent};

fn s(text: &str) -> String {
    text.to_string()
}

fn id(field_id: &str, field_type: FieldType) -> FilterId {
    FilterId::new(s(field_id), field_type)
}

fn equals(content: i64) -> FilterPredicate {
    FilterPredicate::Number(GridNumberFilter { condition: NumberFilterCondition::Equal, content })
}

fn contains(content: &str) -> FilterPredicate {
    FilterPredicate::Text(GridTextFilter {
        condition: TextFilterCondition::Contains,
        content: s(content),
    })
}

fn field(field_id: &str, field_type: FieldType) -> FieldRevision {
    FieldRevision { id: s(field_id), field_type }
}

fn record(field_id: &str, predicate: FilterPredicate) -> FilterRevision {
    FilterRevision { id: format!("filter-{}", field_id), field_id: s(field_id), predicate }
}

fn number_row(row_id: &str, thousandths: i64) -> RowRevision {
    let mut row = RowRevision::new(s(row_id), 60);
    row.set_cell(s("n"), CellData::Number(thousandths));
    row
}

fn block(block_id: &str, row_revs: Vec<RowRevision>) -> GridBlockSnapshot {
    GridBlockSnapshot { block_id: s(block_id), row_revs }
}

fn context(blocks: Vec<GridBlockSnapshot>) -> FilterTaskContext {
    FilterTaskContext { blocks, changed_fields: None }
}

fn service_with(filters: Vec<(FilterId, FilterPredicate)>) -> GridFilterService {
    let mut filter_cache = FilterCache::new();
    for (filter_id, predicate) in filters {
        assert!(filter_cache.upsert(filter_id, predicate));
    }
    GridFilterService {
        grid_id: s("grid"),
        filter_cache,
        filter_result_cache: FilterResultCache::new(),
    }
}

fn number_fields() -> Vec<FieldRevision> {
    vec![field("n", FieldType::Number)]
}

fn inserted(row_id: &str, block_id: &str, index: usize) -> InsertedRow {
    InsertedRow { row_id: s(row_id), block_id: s(block_id), height: 60, index }
}

fn deleted(row_id: &str, block_id: &str) -> GridRowId {
    GridRowId { grid_id: s("grid"), block_id: s(block_id), row_id: s(row_id) }
}

fn ten_rows(seventh: i64) -> Vec<RowRevision> {
    let values = [5000, 5000, 1000, 5000, 1000, 5000, 5000, seventh, 5000, 5000];
    let mut rows = Vec::new();
    for (i, value) in values.iter().enumerate() {
        rows.push(number_row(&format!("row{}", i), *value));
    }
    rows
}

#[test]
fn new_service_loads_the_recorded_filters() {
    let fields = vec![field("n", FieldType::Number), field("t", FieldType::RichText)];
    let records = vec![record("n", equals(5)), record("t", equals(5))];
    let service = GridFilterService::new(s("grid"), Some(records), &fields);
    assert_eq!(service.grid_id, "grid");
    assert!(service.filter_cache.contains(&id("n", FieldType::Number)));
    assert!(!service.filter_cache.contains(&id("t", FieldType::RichText)));
    assert_eq!(service.filter_result_cache.len(), 0);
}

#[test]
fn new_service_without_the_store_has_no_filters() {
    let service = GridFilterService::new(s("grid"), None, &number_fields());
    assert!(service.filter_cache.is_empty());
    assert_eq!(service.filter_result_cache.len(), 0);
}

#[test]
fn process_without_filters_reports_nothing() {
    let mut service = service_with(vec![]);
    let blocks = vec![block("b1", vec![number_row("r1", 1000), number_row("r2", 2000)])];
    let changesets = service.process(&number_fields(), context(blocks));
    assert_eq!(changesets.len(), 1);
    assert_eq!(changesets[0].block_id, "b1");
    assert!(changesets[0].is_empty());
    assert_eq!(service.filter_result_cache.len(), 2);
}

#[test]
fn process_reports_rows_that_become_hidden() {
    let mut service = service_with(vec![(id("n", FieldType::Number), equals(5))]);
    let blocks = vec![block(
        "b1",
        vec![number_row("r1", 5000), number_row("r2", 2000), number_row("r3", 5400)],
    )];
    let changesets = service.process(&number_fields(), context(blocks));
    assert_eq!(
        changesets,
        vec![GridBlockChangeset {
            block_id: s("b1"),
            inserted_rows: vec![],
            deleted_rows: vec![deleted("r2", "b1")],
        }]
    );
    assert!(service.filter_result_cache.was_visible(&s("r1")));
    assert!(!service.filter_result_cache.was_visible(&s("r2")));
    assert!(service.filter_result_cache.was_visible(&s("r3")));
}

#[test]
fn process_gives_one_changeset_per_block_in_order() {
    let mut service = service_with(vec![(id("n", FieldType::Number), equals(5))]);
    let blocks = vec![
        block("b1", vec![number_row("r1", 1000)]),
        block("b2", vec![]),
        block("b3", vec![number_row("r2", 5000), number_row("r3", 1000)]),
    ];
    let changesets = service.process(&number_fields(), context(blocks));
    assert_eq!(
        changesets,
        vec![
            GridBlockChangeset {
                block_id: s("b1"),
                inserted_rows: vec![],
                deleted_rows: vec![deleted("r1", "b1")],
            },
            GridBlockChangeset { block_id: s("b2"), inserted_rows: vec![], deleted_rows: vec![] },
            GridBlockChangeset {
                block_id: s("b3"),
                inserted_rows: vec![],
                deleted_rows: vec![deleted("r3", "b3")],
            },
        ]
    );
}

#[test]
fn process_of_no_blocks_forgets_every_row() {
    let mut service = service_with(vec![(id("n", FieldType::Number), equals(5))]);
    let _ = service.process(&number_fields(), context(vec![block("b1", vec![number_row("r1", 1000)])]));
    assert_eq!(service.filter_result_cache.len(), 1);
    let changesets = service.process(&number_fields(), context(vec![]));
    assert!(changesets.is_empty());
    assert_eq!(service.filter_result_cache.len(), 0);
}

#[test]
fn process_twice_is_idempotent() {
    let mut service = service_with(vec![(id("n", FieldType::Number), equals(5))]);
    let blocks = vec![
        block("b1", vec![number_row("r1", 5000), number_row("r2", 2000)]),
        block("b2", vec![number_row("r3", 3000), number_row("r4", 5000)]),
    ];
    let first = service.process(&number_fields(), context(blocks.clone()));
    assert_eq!(first[0].deleted_rows, vec![deleted("r2", "b1")]);
    assert_eq!(first[1].deleted_rows, vec![deleted("r3", "b2")]);
    let second = service.process(&number_fields(), context(blocks.clone()));
    assert_eq!(second.len(), 2);
    assert!(second[0].is_empty());
    assert!(second[1].is_empty());
    let third = service.process(
        &number_fields(),
        FilterTaskContext { blocks, changed_fields: Some(vec![s("n")]) },
    );
    assert!(third[0].is_empty());
    assert!(third[1].is_empty());
}

#[test]
fn removing_the_passing_filter_keeps_the_row_hidden() {
    let fields = vec![field("a", FieldType::Number), field("b", FieldType::RichText)];
    let mut service = service_with(vec![
        (id("a", FieldType::Number), equals(5)),
        (id("b", FieldType::RichText), contains("x")),
    ]);
    let mut row = RowRevision::new(s("r1"), 60);
    row.set_cell(s("a"), CellData::Number(4000));
    row.set_cell(s("b"), CellData::Text(s("xy")));
    let blocks = vec![block("b1", vec![row])];
    let first = service.process(&fields, context(blocks.clone()));
    assert_eq!(first[0].deleted_rows, vec![deleted("r1", "b1")]);
    let changed = service.apply_changeset(
        GridFilterChangeset { insert_filter: None, delete_filter: Some(id("b", FieldType::RichText)) },
        None,
        &fields,
    );
    assert_eq!(changed, Some(vec![s("b")]));
    let second = service.process(&fields, FilterTaskContext { blocks, changed_fields: changed });
    assert!(second[0].is_empty());
    assert!(!service.filter_result_cache.was_visible(&s("r1")));
}

#[test]
fn minimal_delta_for_one_changed_row() {
    let mut service = service_with(vec![(id("n", FieldType::Number), equals(5))]);
    let first = service.process(&number_fields(), context(vec![block("b1", ten_rows(1000))]));
    assert_eq!(
        first[0].deleted_rows,
        vec![deleted("row2", "b1"), deleted("row4", "b1"), deleted("row7", "b1")]
    );
    assert!(first[0].inserted_rows.is_empty());
    let second = service.process(&number_fields(), context(vec![block("b1", ten_rows(5000))]));
    assert_eq!(
        second,
        vec![GridBlockChangeset {
            block_id: s("b1"),
            inserted_rows: vec![inserted("row7", "b1", 5)],
            deleted_rows: vec![],
        }]
    );
}

#[test]
fn inserted_rows_carry_their_place_among_the_visible_rows() {
    let mut service = service_with(vec![(id("n", FieldType::Number), equals(5))]);
    let hidden = vec![
        number_row("r0", 1000),
        number_row("r1", 1000),
        number_row("r2", 5000),
        number_row("r3", 1000),
        number_row("r4", 1000),
    ];
    let _ = service.process(&number_fields(), context(vec![block("b1", hidden)]));
    let shown = vec![
        number_row("r0", 1000),
        number_row("r1", 5000),
        number_row("r2", 5000),
        number_row("r3", 1000),
        number_row("r4", 5000),
    ];
    let changesets = service.process(&number_fields(), context(vec![block("b1", shown)]));
    assert_eq!(
        changesets[0].inserted_rows,
        vec![inserted("r1", "b1", 0), inserted("r4", "b1", 2)]
    );
    assert!(changesets[0].deleted_rows.is_empty());
}

#[test]
fn a_row_can_be_inserted_and_another_deleted_in_one_pass() {
    let mut service = service_with(vec![(id("n", FieldType::Number), equals(5))]);
    let before = vec![number_row("r0", 5000), number_row("r1", 1000)];
    let _ = service.process(&number_fields(), context(vec![block("b1", before)]));
    let after = vec![number_row("r0", 1000), number_row("r1", 5000)];
    let changesets = service.process(&number_fields(), context(vec![block("b1", after)]));
    assert_eq!(changesets[0].inserted_rows, vec![inserted("r1", "b1", 0)]);
    assert_eq!(changesets[0].deleted_rows, vec![deleted("r0", "b1")]);
}

#[test]
fn retyped_column_shows_its_rows_again() {
    let mut service = service_with(vec![(id("n", FieldType::Number), equals(5))]);
    let rows = vec![number_row("r0", 1000), number_row("r1", 5000)];
    let first = service.process(&number_fields(), context(vec![block("b1", rows.clone())]));
    assert_eq!(first[0].deleted_rows, vec![deleted("r0", "b1")]);
    let retyped = vec![field("n", FieldType::RichText)];
    let second = service.process(&retyped, context(vec![block("b1", rows)]));
    assert_eq!(second[0].inserted_rows, vec![inserted("r0", "b1", 0)]);
    assert!(second[0].deleted_rows.is_empty());
}

#[test]
fn changeset_without_content_is_a_no_op() {
    let mut service = service_with(vec![(id("n", FieldType::Number), equals(5))]);
    let changeset = GridFilterChangeset { insert_filter: None, delete_filter: None };
    assert!(!changeset.is_changed());
    assert_eq!(changeset.reload_scope(), None);
    let changed = service.apply_changeset(changeset, Some(vec![]), &number_fields());
    assert_eq!(changed, None);
    assert!(service.filter_cache.contains(&id("n", FieldType::Number)));
    assert_eq!(
        service.filter_cache.test(&id("n", FieldType::Number), Some(&CellData::Number(5000))),
        Some(true)
    );
}

#[test]
fn changeset_with_content_is_changed() {
    let insert = GridFilterChangeset {
        insert_filter: Some((id("n", FieldType::Number), equals(5))),
        delete_filter: None,
    };
    assert!(insert.is_changed());
    assert_eq!(insert.reload_scope(), Some(vec![s("n")]));
    let delete =
        GridFilterChangeset { insert_filter: None, delete_filter: Some(id("n", FieldType::Number)) };
    assert!(delete.is_changed());
    assert_eq!(delete.reload_scope(), None);
}

#[test]
fn apply_changeset_inserts_the_new_filter() {
    let mut service = service_with(vec![]);
    let changeset = GridFilterChangeset {
        insert_filter: Some((id("n", FieldType::Number), equals(5))),
        delete_filter: None,
    };
    let changed = service.apply_changeset(changeset, None, &number_fields());
    assert_eq!(changed, Some(vec![s("n")]));
    assert_eq!(
        service.filter_cache.test(&id("n", FieldType::Number), Some(&CellData::Number(5000))),
        Some(true)
    );
}

#[test]
fn apply_changeset_refreshes_the_column_from_the_store() {
    let mut service = service_with(vec![
        (id("n", FieldType::RichText), contains("x")),
        (id("m", FieldType::Number), equals(1)),
    ]);
    let fields = vec![field("n", FieldType::Number), field("m", FieldType::Number)];
    let changeset = GridFilterChangeset {
        insert_filter: Some((id("n", FieldType::Number), equals(5))),
        delete_filter: None,
    };
    let records = vec![record("n", equals(9)), record("m", equals(2))];
    let changed = service.apply_changeset(changeset, Some(records), &fields);
    assert_eq!(changed, Some(vec![s("n")]));
    assert!(!service.filter_cache.contains(&id("n", FieldType::RichText)));
    assert_eq!(
        service.filter_cache.test(&id("n", FieldType::Number), Some(&CellData::Number(5000))),
        Some(true)
    );
    assert_eq!(
        service.filter_cache.test(&id("m", FieldType::Number), Some(&CellData::Number(1000))),
        Some(true)
    );
}

#[test]
fn apply_changeset_keeps_the_stored_filter_when_the_new_one_does_not_fit() {
    let mut service = service_with(vec![]);
    let changeset = GridFilterChangeset {
        insert_filter: Some((id("n", FieldType::RichText), equals(5))),
        delete_filter: None,
    };
    let records = vec![record("n", equals(9))];
    let changed = service.apply_changeset(changeset, Some(records), &number_fields());
    assert_eq!(changed, Some(vec![s("n")]));
    assert!(!service.filter_cache.contains(&id("n", FieldType::RichText)));
    assert_eq!(
        service.filter_cache.test(&id("n", FieldType::Number), Some(&CellData::Number(9000))),
        Some(true)
    );
}

#[test]
fn apply_changeset_deletes_a_filter() {
    let mut service = service_with(vec![
        (id("n", FieldType::Number), equals(5)),
        (id("t", FieldType::RichText), contains("x")),
    ]);
    let changeset =
        GridFilterChangeset { insert_filter: None, delete_filter: Some(id("n", FieldType::Number)) };
    let changed = service.apply_changeset(changeset, None, &number_fields());
    assert_eq!(changed, Some(vec![s("n")]));
    assert!(!service.filter_cache.contains(&id("n", FieldType::Number)));
    assert!(service.filter_cache.contains(&id("t", FieldType::RichText)));
}

#[test]
fn apply_changeset_inserts_then_deletes() {
    let mut service = service_with(vec![(id("t", FieldType::RichText), contains("x"))]);
    let changeset = GridFilterChangeset {
        insert_filter: Some((id("n", FieldType::Number), equals(5))),
        delete_filter: Some(id("t", FieldType::RichText)),
    };
    let changed = service.apply_changeset(changeset, None, &number_fields());
    assert_eq!(changed, Some(vec![s("n"), s("t")]));
    assert!(service.filter_cache.contains(&id("n", FieldType::Number)));
    assert!(!service.filter_cache.contains(&id("t", FieldType::RichText)));
    let same = GridFilterChangeset {
        insert_filter: Some((id("n", FieldType::Number), equals(5))),
        delete_filter: Some(id("n", FieldType::Number)),
    };
    let changed = service.apply_changeset(same, None, &number_fields());
    assert_eq!(changed, Some(vec![s("n"), s("n")]));
    assert!(!service.filter_cache.contains(&id("n", FieldType::Number)));
}

#[test]
fn new_filter_hides_rows_in_the_next_pass() {
    let mut service = service_with(vec![]);
    let rows = vec![number_row("r0", 1000), number_row("r1", 5000)];
    let first = service.process(&number_fields(), context(vec![block("b1", rows.clone())]));
    assert!(first[0].is_empty());
    let changeset = GridFilterChangeset {
        insert_filter: Some((id("n", FieldType::Number), equals(5))),
        delete_filter: None,
    };
    let changed = service.apply_changeset(changeset, None, &number_fields());
    let task = service.gen_task(7, vec![block("b1", rows)], changed);
    assert_eq!(task.id, 7);
    assert_eq!(task.handler_id, "grid");
    let TaskContent::Filter(task_context) = task.content;
    assert_eq!(task_context.changed_fields, Some(vec![s("n")]));
    let second = service.process(&number_fields(), task_context);
    assert_eq!(second[0].deleted_rows, vec![deleted("r0", "b1")]);
    assert!(second[0].inserted_rows.is_empty());
}

#[test]
fn gen_task_carries_the_blocks() {
    let service = service_with(vec![]);
    let blocks = vec![block("b1", vec![number_row("r0", 1)]), block("b2", vec![])];
    let task = service.gen_task(42, blocks, None);
    assert_eq!(task.id, 42);
    assert_eq!(task.handler_id, "grid");
    let TaskContent::Filter(task_context) = task.content;
    assert_eq!(task_context.changed_fields, None);
    assert_eq!(task_context.blocks.len(), 2);
    assert_eq!(task_context.blocks[0].block_id, "b1");
    assert_eq!(task_context.blocks[0].row_revs.len(), 1);
    assert_eq!(task_context.blocks[0].row_revs[0].id, "r0");
    assert_eq!(task_context.blocks[1].block_id, "b2");
}

#[test]
fn changeset_from_setting_params() {
    let params = GridSettingChangesetParams {
        grid_id: s("grid"),
        insert_filter: Some(CreateGridFilterParams {
            field_id: s("n"),
            field_type: FieldType::Number,
            predicate: equals(5),
        }),
        delete_filter: Some(DeleteFilterParams { field_id: s("t"), field_type: FieldType::RichText }),
    };
    let changeset = GridFilterChangeset::from(params);
    assert_eq!(
        changeset,
        GridFilterChangeset {
            insert_filter: Some((id("n", FieldType::Number), equals(5))),
            delete_filter: Some(id("t", FieldType::RichText)),
        }
    );
    let nothing = GridSettingChangesetParams { grid_id: s("grid"), insert_filter: None, delete_filter: None };
    let changeset = GridFilterChangeset::from(nothing);
    assert!(!changeset.is_changed());
}

#[test]
fn later_row_of_one_identifier_is_the_one_remembered() {
    let mut service = service_with(vec![(id("n", FieldType::Number), equals(5))]);
    let blocks = vec![
        block("b1", vec![number_row("r", 5000)]),
        block("b2", vec![number_row("r", 1000)]),
    ];
    let first = service.process(&number_fields(), context(blocks.clone()));
    assert!(first[0].is_empty());
    assert_eq!(first[1].deleted_rows, vec![deleted("r", "b2")]);
    assert_eq!(service.filter_result_cache.len(), 1);
    assert!(!service.filter_result_cache.was_visible(&s("r")));
    let second = service.process(&number_fields(), context(blocks));
    assert_eq!(second[0].inserted_rows, vec![inserted("r", "b1", 0)]);
    assert!(second[1].is_empty());
}

#[test]
fn second_pass_over_repeated_equal_rows_reports_nothing() {
    let mut service = service_with(vec![(id("n", FieldType::Number), equals(5))]);
    let blocks = vec![
        block("b1", vec![number_row("r", 1000), number_row("q", 5000)]),
        block("b2", vec![number_row("r", 1000)]),
    ];
    let first = service.process(&number_fields(), context(blocks.clone()));
    assert_eq!(first[0].deleted_rows, vec![deleted("r", "b1")]);
    assert_eq!(first[1].deleted_rows, vec![deleted("r", "b2")]);
    let second = service.process(&number_fields(), context(blocks));
    assert!(second[0].is_empty());
    assert!(second[1].is_empty());
}

#[test]
fn pass_remembers_the_position_of_each_row() {
    let mut service = service_with(vec![]);
    let blocks = vec![block("b1", vec![number_row("r0", 1), number_row("r1", 2)])];
    let _ = service.process(&number_fields(), context(blocks));
    assert_eq!(service.filter_result_cache.get(&s("r0")).unwrap().row_index(), 0);
    assert_eq!(service.filter_result_cache.get(&s("r1")).unwrap().row_index(), 1);
    assert_eq!(service.filter_result_cache.get(&s("r1")).unwrap().row_id(), "r1");
    assert_eq!(service.filter_result_cache.get(&s("r1")).unwrap().verdict(&s("n")), Some(true));
}
