//! The identity of a filter.

use crate::field::{FieldRevision, FieldType};
use vstd::prelude::*;
use vstd::std_specs::cmp::PartialEqSpecImpl;
use vstd::std_specs::convert::FromSpecImpl;

verus! {

/// A filter is identified by the column that it constrains together with the
/// type that the column had when the filter was defined. When the column's
/// type changes, filters defined under the earlier type no longer apply.
#[derive(Clone, Debug, Eq, Hash)]
pub struct FilterId {
    pub field_id: String,
    pub field_type: FieldType,
}

impl View for FilterId {
    type V = (Seq<char>, FieldType);

    open spec fn view(&self) -> (Seq<char>, FieldType) {
        (self.field_id@, self.field_type)
    }
}

impl PartialEq for FilterId {
    fn eq(&self, other: &FilterId) -> (equal: bool) {
        self.field_id == other.field_id && self.field_type == other.field_type
    }
}

impl PartialEqSpecImpl for FilterId {
    open spec fn obeys_eq_spec() -> bool {
        true
    }

    open spec fn eq_spec(&self, other: &FilterId) -> bool {
        self@ == other@
    }
}

impl<'a> From<&'a FieldRevision> for FilterId {
    /// The identity under which a filter on this column is kept now.
    fn from(rev: &'a FieldRevision) -> (id: FilterId) {
        FilterId { field_id: rev.id.clone(), field_type: rev.field_type }
    }
}

impl<'a> FromSpecImpl<&'a FieldRevision> for FilterId {
    open spec fn obeys_from_spec() -> bool {
        true
    }

    open spec fn from_spec(rev: &'a FieldRevision) -> FilterId {
        FilterId { field_id: rev.id, field_type: rev.field_type }
    }
}

impl FilterId {
    /// The identity of the filter on column `field_id` under `field_type`.
    pub fn new(field_id: String, field_type: FieldType) -> (id: FilterId)
        ensures
            id.field_id == field_id,
            id.field_type == field_type,
    {
        FilterId { field_id, field_type }
    }
}

} // verus!
