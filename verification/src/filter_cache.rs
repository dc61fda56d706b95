//! The filters that are in force, kept by identity.
//!
//! The cache holds at most one predicate for each filter identity, that is
//! for each pair of a column and a column type. Inside it is split by kind
//! of predicate, so that a predicate can only be stored under the type that
//! it belongs to.

use crate::field::{
    field_types, id_listed, lists_id, spec_field_types, FieldRevision, FieldType,
};
use crate::filter_id::FilterId;
use crate::filters::{
    FilterPredicate, GridCheckboxFilter, GridDateFilter, GridNumberFilter, GridSelectOptionFilter,
    GridTextFilter,
};
use crate::id_map::IdMap;
use crate::row::CellData;
use vstd::prelude::*;

verus! {

/// A filter as the document store records it: the column that it constrains
/// and its predicate.
#[derive(Clone, Debug, PartialEq, Eq)]
pub struct FilterRevision {
    pub id: String,
    pub field_id: String,
    pub predicate: FilterPredicate,
}

/// The filters in force. Its view maps each filter identity, a column
/// identifier with a column type, to the predicate held for it.
#[derive(Clone, Debug)]
pub struct FilterCache {
    text_filter: IdMap<GridTextFilter>,
    url_filter: IdMap<GridTextFilter>,
    number_filter: IdMap<GridNumberFilter>,
    date_filter: IdMap<GridDateFilter>,
    single_select_filter: IdMap<GridSelectOptionFilter>,
    multi_select_filter: IdMap<GridSelectOptionFilter>,
    checkbox_filter: IdMap<GridCheckboxFilter>,
}

impl View for FilterCache {
    type V = Map<(Seq<char>, FieldType), FilterPredicate>;

    closed spec fn view(&self) -> Map<(Seq<char>, FieldType), FilterPredicate> {
        Map::new(|key: (Seq<char>, FieldType)| self.holds(key), |key: (Seq<char>, FieldType)|
            self.held(key))
    }
}

/// What testing a cell against the filter with identity `key` gives: nothing
/// where no such filter is in force; else whether the cell satisfies it,
/// which a missing cell never does.
pub open spec fn spec_test(
    filters: Map<(Seq<char>, FieldType), FilterPredicate>,
    key: (Seq<char>, FieldType),
    cell: Option<CellData>,
) -> Option<bool> {
    if filters.dom().contains(key) {
        Some(
            match cell {
                Some(data) => filters[key].spec_is_match(data),
                None => false,
            },
        )
    } else {
        None
    }
}

/// Whether a column lies in the scope of a refresh: every column does where
/// no scope is given.
pub open spec fn in_scope(scope: Option<Seq<String>>, field_id: Seq<char>) -> bool {
    match scope {
        None => true,
        Some(ids) => lists_id(ids, field_id),
    }
}

/// The filters that a refresh leaves untouched: those of columns out of
/// scope.
pub open spec fn spec_out_of_scope(
    filters: Map<(Seq<char>, FieldType), FilterPredicate>,
    scope: Option<Seq<String>>,
) -> Map<(Seq<char>, FieldType), FilterPredicate> {
    Map::new(
        |key: (Seq<char>, FieldType)| filters.dom().contains(key) && !in_scope(scope, key.0),
        |key: (Seq<char>, FieldType)| filters[key],
    )
}

/// Whether a refresh takes a recorded filter into the cache: its column is
/// in scope and has a current type, and the predicate is of the kind that
/// belongs to that type.
pub open spec fn admits(
    record: FilterRevision,
    scope: Option<Seq<String>>,
    types: Map<Seq<char>, FieldType>,
) -> bool {
    &&& in_scope(scope, record.field_id@)
    &&& types.dom().contains(record.field_id@)
    &&& record.predicate.spec_field_type() == types[record.field_id@]
}

/// The filters after the recorded ones have been taken in, in order, on
/// top of `base`. A later record replaces an earlier one of the same
/// identity.
pub open spec fn spec_repopulated(
    base: Map<(Seq<char>, FieldType), FilterPredicate>,
    records: Seq<FilterRevision>,
    scope: Option<Seq<String>>,
    types: Map<Seq<char>, FieldType>,
) -> Map<(Seq<char>, FieldType), FilterPredicate>
    decreases records.len(),
{
    if records.len() == 0 {
        base
    } else {
        let before = spec_repopulated(base, records.drop_last(), scope, types);
        let record = records.last();
        if admits(record, scope, types) {
            before.insert((record.field_id@, types[record.field_id@]), record.predicate)
        } else {
            before
        }
    }
}

/// The filters after a refresh from the document store.
pub open spec fn spec_reloaded(
    filters: Map<(Seq<char>, FieldType), FilterPredicate>,
    scope: Option<Seq<String>>,
    records: Seq<FilterRevision>,
    types: Map<Seq<char>, FieldType>,
) -> Map<(Seq<char>, FieldType), FilterPredicate> {
    spec_repopulated(spec_out_of_scope(filters, scope), records, scope, types)
}

impl FilterCache {
    spec fn holds(&self, key: (Seq<char>, FieldType)) -> bool {
        match key.1 {
            FieldType::RichText => self.text_filter@.dom().contains(key.0),
            FieldType::Number => self.number_filter@.dom().contains(key.0),
            FieldType::DateTime => self.date_filter@.dom().contains(key.0),
            FieldType::SingleSelect => self.single_select_filter@.dom().contains(key.0),
            FieldType::MultiSelect => self.multi_select_filter@.dom().contains(key.0),
            FieldType::Checkbox => self.checkbox_filter@.dom().contains(key.0),
            FieldType::URL => self.url_filter@.dom().contains(key.0),
        }
    }

    spec fn held(&self, key: (Seq<char>, FieldType)) -> FilterPredicate {
        match key.1 {
            FieldType::RichText => FilterPredicate::Text(self.text_filter@[key.0]),
            FieldType::Number => FilterPredicate::Number(self.number_filter@[key.0]),
            FieldType::DateTime => FilterPredicate::Date(self.date_filter@[key.0]),
            FieldType::SingleSelect => FilterPredicate::SingleSelect(
                self.single_select_filter@[key.0],
            ),
            FieldType::MultiSelect => FilterPredicate::MultiSelect(
                self.multi_select_filter@[key.0],
            ),
            FieldType::Checkbox => FilterPredicate::Checkbox(self.checkbox_filter@[key.0]),
            FieldType::URL => FilterPredicate::Url(self.url_filter@[key.0]),
        }
    }

    /// Every predicate in the cache is of the kind that belongs to the
    /// column type under which it is kept.
    pub proof fn lemma_kind_matches_type(&self, key: (Seq<char>, FieldType))
        requires
            self@.dom().contains(key),
        ensures
            self@[key].spec_field_type() == key.1,
    {
    }

    /// A cache without filters.
    pub fn new() -> (cache: FilterCache)
        ensures
            cache@ == Map::<(Seq<char>, FieldType), FilterPredicate>::empty(),
    {
        let cache = FilterCache {
            text_filter: IdMap::new(),
            url_filter: IdMap::new(),
            number_filter: IdMap::new(),
            date_filter: IdMap::new(),
            single_select_filter: IdMap::new(),
            multi_select_filter: IdMap::new(),
            checkbox_filter: IdMap::new(),
        };
        assert(cache@ =~= Map::<(Seq<char>, FieldType), FilterPredicate>::empty());
        cache
    }

    /// Builds the cache from what the document store holds: every recorded
    /// filter whose column has a current type that its predicate belongs
    /// to.
    pub fn from_revisions(filter_revs: Vec<FilterRevision>, field_revs: &Vec<FieldRevision>) -> (cache:
        FilterCache)
        ensures
            cache@ == spec_repopulated(
                Map::empty(),
                filter_revs@,
                None,
                spec_field_types(field_revs@),
            ),
    {
        let mut cache = FilterCache::new();
        reload_filter_cache(&mut cache, None, Some(filter_revs), field_revs);
        assert(spec_out_of_scope(Map::<(Seq<char>, FieldType), FilterPredicate>::empty(), None)
            =~= Map::<(Seq<char>, FieldType), FilterPredicate>::empty());
        cache
    }

    /// Whether a filter with this identity is in force.
    pub fn contains(&self, filter_id: &FilterId) -> (found: bool)
        ensures
            found == self@.dom().contains(filter_id@),
    {
        match filter_id.field_type {
            FieldType::RichText => self.text_filter.contains_key(&filter_id.field_id),
            FieldType::Number => self.number_filter.contains_key(&filter_id.field_id),
            FieldType::DateTime => self.date_filter.contains_key(&filter_id.field_id),
            FieldType::SingleSelect => self.single_select_filter.contains_key(&filter_id.field_id),
            FieldType::MultiSelect => self.multi_select_filter.contains_key(&filter_id.field_id),
            FieldType::Checkbox => self.checkbox_filter.contains_key(&filter_id.field_id),
            FieldType::URL => self.url_filter.contains_key(&filter_id.field_id),
        }
    }

    /// Whether no filter is in force.
    pub fn is_empty(&self) -> (empty: bool)
        ensures
            empty == (self@ == Map::<(Seq<char>, FieldType), FilterPredicate>::empty()),
    {
        let no_text = self.text_filter.is_empty();
        let no_url = self.url_filter.is_empty();
        let no_number = self.number_filter.is_empty();
        let no_date = self.date_filter.is_empty();
        let no_single = self.single_select_filter.is_empty();
        let no_multi = self.multi_select_filter.is_empty();
        let no_checkbox = self.checkbox_filter.is_empty();
        proof {
            if !no_text {
                let id = choose|id: Seq<char>| self.text_filter@.dom().contains(id);
                assert(self@.dom().contains((id, FieldType::RichText)));
            }
            if !no_url {
                let id = choose|id: Seq<char>| self.url_filter@.dom().contains(id);
                assert(self@.dom().contains((id, FieldType::URL)));
            }
            if !no_number {
                let id = choose|id: Seq<char>| self.number_filter@.dom().contains(id);
                assert(self@.dom().contains((id, FieldType::Number)));
            }
            if !no_date {
                let id = choose|id: Seq<char>| self.date_filter@.dom().contains(id);
                assert(self@.dom().contains((id, FieldType::DateTime)));
            }
            if !no_single {
                let id = choose|id: Seq<char>| self.single_select_filter@.dom().contains(id);
                assert(self@.dom().contains((id, FieldType::SingleSelect)));
            }
            if !no_multi {
                let id = choose|id: Seq<char>| self.multi_select_filter@.dom().contains(id);
                assert(self@.dom().contains((id, FieldType::MultiSelect)));
            }
            if !no_checkbox {
                let id = choose|id: Seq<char>| self.checkbox_filter@.dom().contains(id);
                assert(self@.dom().contains((id, FieldType::Checkbox)));
            }
            if no_text && no_url && no_number && no_date && no_single && no_multi && no_checkbox {
                assert(self@ =~= Map::<(Seq<char>, FieldType), FilterPredicate>::empty());
            }
        }
        no_text && no_url && no_number && no_date && no_single && no_multi && no_checkbox
    }

    /// Puts a predicate in force under the given identity, in place of the
    /// one that was there. A predicate of a kind that does not belong to the
    /// identity's column type is not stored, and the cache stays as it was.
    pub fn upsert(&mut self, filter_id: FilterId, predicate: FilterPredicate) -> (stored: bool)
        ensures
            stored == (predicate.spec_field_type() == filter_id.field_type),
            stored ==> final(self)@ == old(self)@.insert(filter_id@, predicate),
            !stored ==> final(self)@ == old(self)@,
    {
        let stored = match predicate {
            FilterPredicate::Text(filter) => match filter_id.field_type {
                FieldType::RichText => {
                    self.text_filter.insert(filter_id.field_id, filter);
                    true
                },
                _ => false,
            },
            FilterPredicate::Number(filter) => match filter_id.field_type {
                FieldType::Number => {
                    self.number_filter.insert(filter_id.field_id, filter);
                    true
                },
                _ => false,
            },
            FilterPredicate::Date(filter) => match filter_id.field_type {
                FieldType::DateTime => {
                    self.date_filter.insert(filter_id.field_id, filter);
                    true
                },
                _ => false,
            },
            FilterPredicate::SingleSelect(filter) => match filter_id.field_type {
                FieldType::SingleSelect => {
                    self.single_select_filter.insert(filter_id.field_id, filter);
                    true
                },
                _ => false,
            },
            FilterPredicate::MultiSelect(filter) => match filter_id.field_type {
                FieldType::MultiSelect => {
                    self.multi_select_filter.insert(filter_id.field_id, filter);
                    true
                },
                _ => false,
            },
            FilterPredicate::Checkbox(filter) => match filter_id.field_type {
                FieldType::Checkbox => {
                    self.checkbox_filter.insert(filter_id.field_id, filter);
                    true
                },
                _ => false,
            },
            FilterPredicate::Url(filter) => match filter_id.field_type {
                FieldType::URL => {
                    self.url_filter.insert(filter_id.field_id, filter);
                    true
                },
                _ => false,
            },
        };
        proof {
            if stored {
                assert(self@ =~= old(self)@.insert(filter_id@, predicate));
            } else {
                assert(self@ =~= old(self)@);
            }
        }
        stored
    }

    /// Takes the filter with this identity out of force. Nothing changes
    /// where there is none.
    pub fn remove(&mut self, filter_id: &FilterId)
        ensures
            final(self)@ == old(self)@.remove(filter_id@),
    {
        match filter_id.field_type {
            FieldType::RichText => {
                let _ = self.text_filter.remove(&filter_id.field_id);
            },
            FieldType::Number => {
                let _ = self.number_filter.remove(&filter_id.field_id);
            },
            FieldType::DateTime => {
                let _ = self.date_filter.remove(&filter_id.field_id);
            },
            FieldType::SingleSelect => {
                let _ = self.single_select_filter.remove(&filter_id.field_id);
            },
            FieldType::MultiSelect => {
                let _ = self.multi_select_filter.remove(&filter_id.field_id);
            },
            FieldType::Checkbox => {
                let _ = self.checkbox_filter.remove(&filter_id.field_id);
            },
            FieldType::URL => {
                let _ = self.url_filter.remove(&filter_id.field_id);
            },
        };
        assert(self@ =~= old(self)@.remove(filter_id@));
    }

    /// Takes every filter on the column out of force, whatever the type
    /// under which it was defined.
    pub fn remove_field(&mut self, field_id: &String)
        ensures
            final(self)@ == Map::new(
                |key: (Seq<char>, FieldType)|
                    old(self)@.dom().contains(key) && key.0 != field_id@,
                |key: (Seq<char>, FieldType)| old(self)@[key],
            ),
    {
        let _ = self.text_filter.remove(field_id);
        let _ = self.url_filter.remove(field_id);
        let _ = self.number_filter.remove(field_id);
        let _ = self.date_filter.remove(field_id);
        let _ = self.single_select_filter.remove(field_id);
        let _ = self.multi_select_filter.remove(field_id);
        let _ = self.checkbox_filter.remove(field_id);
        assert(self@ =~= Map::new(
            |key: (Seq<char>, FieldType)| old(self)@.dom().contains(key) && key.0 != field_id@,
            |key: (Seq<char>, FieldType)| old(self)@[key],
        ));
    }

    /// Tests a cell against the filter with the given identity. Gives
    /// nothing where no such filter is in force. A missing cell, and a cell
    /// that holds a value of another kind, fail the filter.
    pub fn test(&self, filter_id: &FilterId, cell: Option<&CellData>) -> (verdict: Option<bool>)
        ensures
            verdict == spec_test(
                self@,
                filter_id@,
                match cell {
                    Some(data) => Some(*data),
                    None => None,
                },
            ),
    {
        self.test_field(&filter_id.field_id, filter_id.field_type, cell)
    }

    /// Tests a cell against the filter on column `field_id` under
    /// `field_type`, as `test` does.
    pub fn test_field(&self, field_id: &String, field_type: FieldType, cell: Option<&CellData>) -> (verdict:
        Option<bool>)
        ensures
            verdict == spec_test(
                self@,
                (field_id@, field_type),
                match cell {
                    Some(data) => Some(*data),
                    None => None,
                },
            ),
    {
        match field_type {
            FieldType::RichText => match self.text_filter.get(field_id) {
                Some(filter) => Some(
                    match cell {
                        Some(CellData::Text(text)) => filter.is_match(text),
                        _ => false,
                    },
                ),
                None => None,
            },
            FieldType::Number => match self.number_filter.get(field_id) {
                Some(filter) => Some(
                    match cell {
                        Some(CellData::Number(thousandths)) => filter.is_match(*thousandths),
                        _ => false,
                    },
                ),
                None => None,
            },
            FieldType::DateTime => match self.date_filter.get(field_id) {
                Some(filter) => Some(
                    match cell {
                        Some(CellData::Date(time)) => filter.is_match(*time),
                        _ => false,
                    },
                ),
                None => None,
            },
            FieldType::SingleSelect => match self.single_select_filter.get(field_id) {
                Some(filter) => Some(
                    match cell {
                        Some(CellData::SelectOptions(selected)) => filter.is_match(selected),
                        _ => false,
                    },
                ),
                None => None,
            },
            FieldType::MultiSelect => match self.multi_select_filter.get(field_id) {
                Some(filter) => Some(
                    match cell {
                        Some(CellData::SelectOptions(selected)) => filter.is_match(selected),
                        _ => false,
                    },
                ),
                None => None,
            },
            FieldType::Checkbox => match self.checkbox_filter.get(field_id) {
                Some(filter) => Some(
                    match cell {
                        Some(CellData::Checkbox(checked)) => filter.is_match(*checked),
                        _ => false,
                    },
                ),
                None => None,
            },
            FieldType::URL => match self.url_filter.get(field_id) {
                Some(filter) => Some(
                    match cell {
                        Some(CellData::Url(link)) => filter.is_match(link),
                        _ => false,
                    },
                ),
                None => None,
            },
        }
    }
}

/// Refreshes the cache from the document store.
///
/// `field_ids` is the scope: the columns to refresh, or every column where
/// it is `None`. `filter_revs` is what the store holds, or `None` where it
/// could not be read; the cache then stays as it was. Otherwise the filters
/// of the columns in scope are dropped, whatever their type, and the
/// recorded filters are taken in, in order: each one whose column is in
/// scope, is listed in `field_revs`, and has the type that the predicate
/// belongs to. It is kept under the column's current type.
pub fn reload_filter_cache(
    cache: &mut FilterCache,
    field_ids: Option<&Vec<String>>,
    filter_revs: Option<Vec<FilterRevision>>,
    field_revs: &Vec<FieldRevision>,
)
    ensures
        final(cache)@ == (match filter_revs {
            None => old(cache)@,
            Some(records) => spec_reloaded(
                old(cache)@,
                match field_ids {
                    Some(ids) => Some(ids@),
                    None => None,
                },
                records@,
                spec_field_types(field_revs@),
            ),
        }),
{
    let records = match filter_revs {
        Some(records) => records,
        None => {
            return ;
        },
    };
    let ghost scope: Option<Seq<String>> = match field_ids {
        Some(ids) => Some(ids@),
        None => None,
    };
    let ghost base = spec_out_of_scope(old(cache)@, scope);
    match field_ids {
        None => {
            *cache = FilterCache::new();
            assert(cache@ =~= base);
        },
        Some(ids) => {
            let mut i: usize = 0;
            while i < ids.len()
                invariant
                    i <= ids@.len(),
                    cache@ == spec_out_of_scope(old(cache)@, Some(ids@.take(i as int))),
                decreases ids@.len() - i,
            {
                let ghost before = cache@;
                cache.remove_field(&ids[i]);
                proof {
                    let shorter = ids@.take(i as int);
                    let longer = ids@.take(i + 1);
                    assert forall|id: Seq<char>| lists_id(longer, id) <==> (lists_id(shorter, id)
                        || id == ids@[i as int]@) by {
                        if lists_id(longer, id) {
                            let k = choose|k: int|
                                0 <= k < longer.len() && (#[trigger] longer[k])@ == id;
                            assert(longer[k] == ids@[k]);
                            if k < i {
                                assert(shorter[k]@ == id);
                            }
                        }
                        if lists_id(shorter, id) {
                            let k = choose|k: int|
                                0 <= k < shorter.len() && (#[trigger] shorter[k])@ == id;
                            assert(shorter[k] == ids@[k]);
                            assert(longer[k]@ == id);
                        }
                        if id == ids@[i as int]@ {
                            assert(longer[i as int]@ == id);
                        }
                    }
                    assert(cache@ =~= spec_out_of_scope(old(cache)@, Some(longer)));
                }
                i = i + 1;
            }
            assert(ids@.take(i as int) =~= ids@);
        },
    }
    let types = field_types(field_revs);
    let ghost all = records@;
    let ghost columns = spec_field_types(field_revs@);
    assert(all.take(0) =~= Seq::<FilterRevision>::empty());
    for record in it: records
        invariant
            it.seq() == all,
            types@ == columns,
            cache@ == spec_repopulated(base, all.take(it.index() as int), scope, columns),
            scope == (match field_ids {
                Some(ids) => Some(ids@),
                None => None,
            }),
    {
        proof {
            let next = all.take(it.index() + 1);
            assert(next.drop_last() =~= all.take(it.index() as int));
            assert(next.last() == record);
        }
        let scoped = match field_ids {
            Some(ids) => id_listed(ids, &record.field_id),
            None => true,
        };
        if scoped {
            match types.get(&record.field_id) {
                Some(field_type) => {
                    let filter_id = FilterId::new(record.field_id, *field_type);
                    let _ = cache.upsert(filter_id, record.predicate);
                },
                None => {},
            }
        }
    }
    assert(all.take(all.len() as int) =~= all);
}

} // verus!
