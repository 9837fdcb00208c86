use startinpy::schema::{SchemaError, TypeTag};
use startinpy::store::{AttrError, AttributeStore};
use startinpy::values::{AttributeValue, TypedValue};

fn pair(name: &str, descr: &str) -> (String, String) {
    (name.to_string(), descr.to_string())
}

#[test]
fn declare_maps_every_descriptor_to_its_layout_tag() {
    let mut store = AttributeStore::new();
    let r = store.set_attributes_schema(vec![
        pair("b", "bool"),
        pair("f4", "float32"),
        pair("f8", "float64"),
        pair("i4", "int32"),
        pair("i8", "int64"),
        pair("u4", "uint32"),
        pair("u8", "uint64"),
        pair("s", "<U8"),
    ]);
    assert_eq!(r, Ok(true));
    let layout = store.get_attributes_schema();
    let expected: Vec<(String, String)> = vec![
        pair("b", "?"),
        pair("f4", "<f4"),
        pair("f8", "<f8"),
        pair("i4", "<i4"),
        pair("i8", "<i8"),
        pair("u4", "<u4"),
        pair("u8", "<u8"),
        pair("s", "<U8"),
    ];
    assert_eq!(layout, expected);
}

#[test]
fn declare_rejects_unsupported_descriptor_naming_the_field() {
    let mut store = AttributeStore::new();
    let r = store.set_attributes_schema(vec![
        pair("classification", "uint64"),
        pair("oops", "float16"),
    ]);
    assert_eq!(
        r,
        Err(SchemaError::UnsupportedType {
            field: "oops".to_string(),
            descriptor: "float16".to_string(),
        })
    );
    // The store is left unchanged: still no schema at all.
    assert!(store.get_attributes_schema().is_empty());
    assert_eq!(
        store.get_vertex_attributes(1, 3, false),
        Err(AttrError::NoSchema)
    );
}

#[test]
fn resolve_finds_declared_fields_only() {
    let mut store = AttributeStore::new();
    store
        .set_attributes_schema(vec![pair("classification", "uint64"), pair("intensity", "float64")])
        .unwrap();
    let schema = store.schema.as_ref().unwrap();
    assert_eq!(schema.resolve("classification"), Some(TypeTag::UInt64));
    assert_eq!(schema.resolve("intensity"), Some(TypeTag::Float64));
    assert_eq!(schema.resolve("unknown"), None);
}

#[test]
fn get_before_any_schema_is_no_schema_error() {
    let store = AttributeStore::new();
    assert_eq!(store.get_vertex_attributes(1, 5, false), Err(AttrError::NoSchema));
}

#[test]
fn get_unknown_or_removed_vertex_is_unknown_vertex_error() {
    let mut store = AttributeStore::new();
    store.set_attributes_schema(vec![pair("c", "uint64")]).unwrap();
    // Slot never allocated (index at or past the table's slot count).
    assert_eq!(store.get_vertex_attributes(5, 5, false), Err(AttrError::UnknownVertex));
    // Removed vertex.
    assert_eq!(store.get_vertex_attributes(2, 5, true), Err(AttrError::UnknownVertex));
}

#[test]
fn set_then_get_round_trips_compatible_values() {
    let mut store = AttributeStore::new();
    store
        .set_attributes_schema(vec![
            pair("classification", "uint64"),
            pair("intensity", "float64"),
            pair("name", "<U8"),
            pair("visited", "bool"),
            pair("offset", "int64"),
        ])
        .unwrap();
    let ok = store.set_vertex_attributes(
        1,
        4,
        vec![
            ("classification".to_string(), AttributeValue::UInt(6)),
            ("intensity".to_string(), AttributeValue::Float(111.1f64.to_bits())),
            ("name".to_string(), AttributeValue::Text("summit".to_string())),
            ("visited".to_string(), AttributeValue::Bool(true)),
            ("offset".to_string(), AttributeValue::Int(-4)),
        ],
    );
    assert!(ok);
    let rec = store.get_vertex_attributes(1, 4, false).unwrap();
    assert_eq!(rec[0], Some(TypedValue::UInt(6)));
    assert_eq!(rec[1], Some(TypedValue::Float(111.1f64.to_bits())));
    assert_eq!(rec[2], Some(TypedValue::Text("summit".to_string())));
    assert_eq!(rec[3], Some(TypedValue::Bool(true)));
    assert_eq!(rec[4], Some(TypedValue::Int(-4)));
}

#[test]
fn unknown_and_incompatible_entries_are_silently_dropped() {
    let mut store = AttributeStore::new();
    store
        .set_attributes_schema(vec![pair("classification", "uint64"), pair("name", "<U8")])
        .unwrap();
    let ok = store.set_vertex_attributes(
        1,
        4,
        vec![
            ("nosuchfield".to_string(), AttributeValue::UInt(1)),
            ("classification".to_string(), AttributeValue::Text("wrong".to_string())),
            ("name".to_string(), AttributeValue::Null),
        ],
    );
    // The call completes and reports true even though nothing was stored.
    assert!(ok);
    let rec = store.get_vertex_attributes(1, 4, false).unwrap();
    assert_eq!(rec, vec![None, None]);
}

#[test]
fn set_merges_incrementally_and_overwrites_mentioned_fields() {
    let mut store = AttributeStore::new();
    store
        .set_attributes_schema(vec![pair("classification", "uint64"), pair("intensity", "float64")])
        .unwrap();
    store.set_vertex_attributes(
        2,
        4,
        vec![("intensity".to_string(), AttributeValue::Float(29.9f64.to_bits()))],
    );
    store.set_vertex_attributes(
        2,
        4,
        vec![("classification".to_string(), AttributeValue::UInt(2))],
    );
    let rec = store.get_vertex_attributes(2, 4, false).unwrap();
    assert_eq!(rec[0], Some(TypedValue::UInt(2)));
    assert_eq!(rec[1], Some(TypedValue::Float(29.9f64.to_bits())));
    // Overwrite one field, leave the other untouched.
    store.set_vertex_attributes(
        2,
        4,
        vec![("classification".to_string(), AttributeValue::UInt(9))],
    );
    let rec = store.get_vertex_attributes(2, 4, false).unwrap();
    assert_eq!(rec[0], Some(TypedValue::UInt(9)));
    assert_eq!(rec[1], Some(TypedValue::Float(29.9f64.to_bits())));
}

#[test]
fn later_entry_for_the_same_field_wins_within_one_call() {
    let mut store = AttributeStore::new();
    store.set_attributes_schema(vec![pair("c", "uint64")]).unwrap();
    store.set_vertex_attributes(
        1,
        2,
        vec![
            ("c".to_string(), AttributeValue::UInt(1)),
            ("c".to_string(), AttributeValue::UInt(2)),
        ],
    );
    let rec = store.get_vertex_attributes(1, 2, false).unwrap();
    assert_eq!(rec[0], Some(TypedValue::UInt(2)));
}

#[test]
fn numeric_coercions_follow_the_field_type() {
    let mut store = AttributeStore::new();
    store
        .set_attributes_schema(vec![
            pair("f", "float64"),
            pair("i", "int64"),
            pair("u", "uint64"),
        ])
        .unwrap();
    store.set_vertex_attributes(
        1,
        2,
        vec![
            // A float field accepts any number and keeps its flavour.
            ("f".to_string(), AttributeValue::Int(-3)),
            // An int field accepts an unsigned value that fits.
            ("i".to_string(), AttributeValue::UInt(7)),
            // An unsigned field accepts a non-negative signed value.
            ("u".to_string(), AttributeValue::Int(5)),
        ],
    );
    let rec = store.get_vertex_attributes(1, 2, false).unwrap();
    assert_eq!(rec[0], Some(TypedValue::Int(-3)));
    assert_eq!(rec[1], Some(TypedValue::Int(7)));
    assert_eq!(rec[2], Some(TypedValue::UInt(5)));
    // Out-of-range coercions are dropped.
    store.set_vertex_attributes(
        1,
        2,
        vec![
            ("i".to_string(), AttributeValue::UInt(u64::MAX)),
            ("u".to_string(), AttributeValue::Int(-1)),
        ],
    );
    let rec = store.get_vertex_attributes(1, 2, false).unwrap();
    assert_eq!(rec[1], Some(TypedValue::Int(7)));
    assert_eq!(rec[2], Some(TypedValue::UInt(5)));
}

#[test]
fn set_outside_the_table_stores_nothing_but_still_returns_true() {
    let mut store = AttributeStore::new();
    store.set_attributes_schema(vec![pair("c", "uint64")]).unwrap();
    let ok = store.set_vertex_attributes(
        9,
        4,
        vec![("c".to_string(), AttributeValue::UInt(1))],
    );
    assert!(ok);
    assert_eq!(store.all_attributes(4).unwrap(), vec![
        vec![None],
        vec![None],
        vec![None],
        vec![None],
    ]);
}

#[test]
fn set_works_on_removed_and_infinite_slots() {
    let mut store = AttributeStore::new();
    store.set_attributes_schema(vec![pair("c", "uint64")]).unwrap();
    // Writes to slot 0 and to a removed slot are kept (reads of a removed
    // slot fail, but the record is retained and appears in the full array).
    store.set_vertex_attributes(0, 3, vec![("c".to_string(), AttributeValue::UInt(1))]);
    store.set_vertex_attributes(2, 3, vec![("c".to_string(), AttributeValue::UInt(2))]);
    let all = store.all_attributes(3).unwrap();
    assert_eq!(all[0], vec![Some(TypedValue::UInt(1))]);
    assert_eq!(all[2], vec![Some(TypedValue::UInt(2))]);
    assert_eq!(
        store.get_vertex_attributes(2, 3, true),
        Err(AttrError::UnknownVertex)
    );
}

#[test]
fn declaring_a_new_schema_clears_every_stored_record() {
    let mut store = AttributeStore::new();
    store.set_attributes_schema(vec![pair("classification", "uint64")]).unwrap();
    store.set_vertex_attributes(1, 3, vec![("classification".to_string(), AttributeValue::UInt(6))]);
    store.set_vertex_attributes(2, 3, vec![("classification".to_string(), AttributeValue::UInt(7))]);
    assert_eq!(
        store.get_vertex_attributes(1, 3, false).unwrap(),
        vec![Some(TypedValue::UInt(6))]
    );
    // Declare a new schema: a full reset, not a merge.
    store.set_attributes_schema(vec![pair("classification", "uint64"), pair("intensity", "float64")]).unwrap();
    // Reads still succeed, but every previously-attributed vertex now has
    // an attribute-less record.
    assert_eq!(store.get_vertex_attributes(1, 3, false).unwrap(), vec![None, None]);
    assert_eq!(store.get_vertex_attributes(2, 3, false).unwrap(), vec![None, None]);
}

#[test]
fn all_attributes_is_none_without_schema_and_covers_every_slot() {
    let mut store = AttributeStore::new();
    assert!(store.all_attributes(5).is_none());
    store.set_attributes_schema(vec![pair("c", "uint64")]).unwrap();
    store.set_vertex_attributes(1, 5, vec![("c".to_string(), AttributeValue::UInt(3))]);
    let all = store.all_attributes(5).unwrap();
    assert_eq!(all.len(), 5);
    assert_eq!(all[0], vec![None]);
    assert_eq!(all[1], vec![Some(TypedValue::UInt(3))]);
    assert_eq!(all[4], vec![None]);
}

#[test]
fn empty_schema_is_allowed_and_records_are_empty() {
    let mut store = AttributeStore::new();
    store.set_attributes_schema(vec![]).unwrap();
    assert_eq!(store.get_vertex_attributes(1, 3, false).unwrap(), Vec::<Option<TypedValue>>::new());
    assert_eq!(store.all_attributes(2).unwrap().len(), 2);
}

#[test]
fn compaction_keeps_surviving_records_in_table_order() {
    let mut store = AttributeStore::new();
    store.set_attributes_schema(vec![pair("c", "uint64")]).unwrap();
    store.set_vertex_attributes(1, 4, vec![("c".to_string(), AttributeValue::UInt(10))]);
    store.set_vertex_attributes(2, 4, vec![("c".to_string(), AttributeValue::UInt(20))]);
    store.set_vertex_attributes(3, 4, vec![("c".to_string(), AttributeValue::UInt(30))]);
    // Slot 2 was removed and is compacted away; the survivors keep their
    // order, so the old slot 3 becomes slot 2.
    store.compact(&vec![false, false, true, false]);
    let all = store.all_attributes(3).unwrap();
    assert_eq!(all[0], vec![None]);
    assert_eq!(all[1], vec![Some(TypedValue::UInt(10))]);
    assert_eq!(all[2], vec![Some(TypedValue::UInt(30))]);
    assert_eq!(store.get_vertex_attributes(2, 3, false).unwrap(), vec![Some(TypedValue::UInt(30))]);
}
