//! Columns of a grid: their types and their identity.

use crate::id_map::IdMap;
use vstd::prelude::*;

verus! {

/// The type of a column. A filter is defined for one column under one type;
/// the kind of predicate that it holds is the one that belongs to that type.
#[derive(Clone, Copy, Debug, PartialEq, Eq, Hash, Structural)]
pub enum FieldType {
    RichText,
    Number,
    DateTime,
    SingleSelect,
    MultiSelect,
    Checkbox,
    URL,
}

/// What the document store says of one column: its identifier and the type
/// that it has now.
#[derive(Clone, Debug, PartialEq, Eq)]
pub struct FieldRevision {
    pub id: String,
    pub field_type: FieldType,
}

/// `id` is one of `ids`.
pub open spec fn lists_id(ids: Seq<String>, id: Seq<char>) -> bool {
    exists|i: int| 0 <= i < ids.len() && (#[trigger] ids[i])@ == id
}

/// Whether `id` is one of `ids`.
pub fn id_listed(ids: &Vec<String>, id: &String) -> (found: bool)
    ensures
        found == lists_id(ids@, id@),
{
    let mut i: usize = 0;
    while i < ids.len()
        invariant
            i <= ids@.len(),
            forall|k: int| 0 <= k < i ==> (#[trigger] ids@[k])@ != id@,
        decreases ids@.len() - i,
    {
        if ids[i] == *id {
            return true;
        }
        i = i + 1;
    }
    false
}

/// The current type of every column named in `fields`. Where an identifier
/// is listed more than once, the last listing decides.
pub open spec fn spec_field_types(fields: Seq<FieldRevision>) -> Map<Seq<char>, FieldType>
    decreases fields.len(),
{
    if fields.len() == 0 {
        Map::empty()
    } else {
        spec_field_types(fields.drop_last()).insert(fields.last().id@, fields.last().field_type)
    }
}

/// Collects the current type of every column, keyed by column identifier.
pub fn field_types(field_revs: &Vec<FieldRevision>) -> (types: IdMap<FieldType>)
    ensures
        types@ == spec_field_types(field_revs@),
{
    let mut types: IdMap<FieldType> = IdMap::new();
    let mut i: usize = 0;
    assert(field_revs@.take(0) =~= Seq::<FieldRevision>::empty());
    while i < field_revs.len()
        invariant
            i <= field_revs@.len(),
            types@ == spec_field_types(field_revs@.take(i as int)),
        decreases field_revs@.len() - i,
    {
        let rev = &field_revs[i];
        types.insert(rev.id.clone(), rev.field_type);
        proof {
            let next = field_revs@.take(i + 1);
            assert(next.drop_last() =~= field_revs@.take(i as int));
            assert(next.last() == field_revs@[i as int]);
        }
        i = i + 1;
    }
    assert(field_revs@.take(i as int) =~= field_revs@);
    types
}

} // verus!
