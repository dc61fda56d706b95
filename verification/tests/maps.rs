use grid_filter::field::{field_types, id_listed, FieldRevision, FieldType};
use grid_filter::filter_id::FilterId;
use grid_filter::id_map::IdMap;

fn s(text: &str) -> String {
    text.to_string()
}

#[test]
fn id_map_starts_empty() {
    let map: IdMap<u32> = IdMap::new();
    assert_eq!(map.len(), 0);
    assert!(map.is_empty());
    assert_eq!(map.get(&s("a")), None);
    assert!(!map.contains_key(&s("a")));
    assert_eq!(map.position(&s("a")), None);
}

#[test]
fn id_map_insert_then_get() {
    let mut map: IdMap<u32> = IdMap::new();
    map.insert(s("a"), 1);
    map.insert(s("b"), 2);
    assert_eq!(map.len(), 2);
    assert!(!map.is_empty());
    assert_eq!(map.get(&s("a")), Some(&1));
    assert_eq!(map.get(&s("b")), Some(&2));
    assert_eq!(map.get(&s("c")), None);
    assert!(map.contains_key(&s("b")));
}

#[test]
fn id_map_insert_replaces_and_keeps_position() {
    let mut map: IdMap<u32> = IdMap::new();
    map.insert(s("a"), 1);
    map.insert(s("b"), 2);
    map.insert(s("a"), 7);
    assert_eq!(map.len(), 2);
    assert_eq!(map.get(&s("a")), Some(&7));
    assert_eq!(map.position(&s("a")), Some(0));
    assert_eq!(map.position(&s("b")), Some(1));
    assert_eq!(map.key_at(0), &s("a"));
    assert_eq!(map.value_at(0), &7);
    assert_eq!(map.key_at(1), &s("b"));
    assert_eq!(map.value_at(1), &2);
}

#[test]
fn id_map_remove_returns_value_and_keeps_order() {
    let mut map: IdMap<u32> = IdMap::new();
    map.insert(s("a"), 1);
    map.insert(s("b"), 2);
    map.insert(s("c"), 3);
    assert_eq!(map.remove(&s("b")), Some(2));
    assert_eq!(map.len(), 2);
    assert_eq!(map.get(&s("b")), None);
    assert_eq!(map.key_at(0), &s("a"));
    assert_eq!(map.key_at(1), &s("c"));
    assert_eq!(map.remove(&s("b")), None);
    assert_eq!(map.len(), 2);
}

#[test]
fn id_map_clone_has_the_same_entries() {
    let mut map: IdMap<bool> = IdMap::new();
    map.insert(s("x"), true);
    map.insert(s("y"), false);
    let copy = map.clone();
    map.insert(s("x"), false);
    assert_eq!(copy.len(), 2);
    assert_eq!(copy.get(&s("x")), Some(&true));
    assert_eq!(copy.get(&s("y")), Some(&false));
    assert_eq!(copy.key_at(0), &s("x"));
    assert_eq!(map.get(&s("x")), Some(&false));
}

#[test]
fn id_listed_finds_only_listed_ids() {
    let ids = vec![s("a"), s("bc")];
    assert!(id_listed(&ids, &s("a")));
    assert!(id_listed(&ids, &s("bc")));
    assert!(!id_listed(&ids, &s("b")));
    assert!(!id_listed(&Vec::new(), &s("a")));
}

#[test]
fn field_types_collects_each_column() {
    let fields = vec![
        FieldRevision { id: s("name"), field_type: FieldType::RichText },
        FieldRevision { id: s("age"), field_type: FieldType::Number },
    ];
    let types = field_types(&fields);
    assert_eq!(types.len(), 2);
    assert_eq!(types.get(&s("name")), Some(&FieldType::RichText));
    assert_eq!(types.get(&s("age")), Some(&FieldType::Number));
    assert_eq!(types.get(&s("other")), None);
}

#[test]
fn field_types_last_listing_decides() {
    let fields = vec![
        FieldRevision { id: s("x"), field_type: FieldType::Number },
        FieldRevision { id: s("y"), field_type: FieldType::Checkbox },
        FieldRevision { id: s("x"), field_type: FieldType::RichText },
    ];
    let types = field_types(&fields);
    assert_eq!(types.len(), 2);
    assert_eq!(types.get(&s("x")), Some(&FieldType::RichText));
}

#[test]
fn field_types_of_no_columns_is_empty() {
    let types = field_types(&Vec::new());
    assert!(types.is_empty());
}

#[test]
fn filter_id_equality_needs_column_and_type() {
    let a = FilterId::new(s("x"), FieldType::Number);
    let b = FilterId::new(s("x"), FieldType::Number);
    let c = FilterId::new(s("x"), FieldType::RichText);
    let d = FilterId::new(s("y"), FieldType::Number);
    assert!(a == b);
    assert!(a != c);
    assert!(a != d);
}

#[test]
fn filter_id_from_field_revision() {
    let rev = FieldRevision { id: s("price"), field_type: FieldType::Number };
    let id = FilterId::from(&rev);
    assert_eq!(id.field_id, "price");
    assert_eq!(id.field_type, FieldType::Number);
}
