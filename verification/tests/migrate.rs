use daedalus_caps::migrate::migrate;
use daedalus_caps::values::{Heap, HeapItem, Tag, Value};

fn fields(item: &HeapItem) -> Vec<Value> {
    match item {
        HeapItem::Object { fields, .. } => fields.clone(),
        HeapItem::Array(fields) => fields.clone(),
        HeapItem::Forwarded(_) => panic!("forwarded"),
    }
}

#[test]
fn inline_values_are_copied() {
    let mut a = Heap::new();
    let mut b = Heap::new();
    b.alloc_raw(HeapItem::Array(vec![Value::UInt(9)]));
    for value in [
        Value::Unit,
        Value::Int(-4),
        Value::UInt(5),
        Value::Float(0x4000_0000_0000_0000),
        Value::Bool(true),
        Value::Tag(Tag(12)),
    ] {
        assert_eq!(migrate(&mut a, &mut b, value), value);
    }
    assert_eq!(b.len(), 1);
}

#[test]
fn array_is_copied_with_renamed_references() {
    let mut a = Heap::new();
    // item 0: a string that nothing migrated refers to
    a.alloc_raw(HeapItem::Array(vec![Value::UInt(1)]));
    // item 1: array referring to item 2
    a.alloc_raw(HeapItem::Array(vec![Value::UInt(7), Value::Object(2)]));
    // item 2: object
    a.alloc_raw(HeapItem::Object { type_tag: Tag(3), fields: vec![Value::Bool(false)] });
    let mut b = Heap::new();
    b.alloc_raw(HeapItem::Array(vec![]));

    let migrated = migrate(&mut a, &mut b, Value::Array(1));
    assert_eq!(migrated, Value::Array(1));
    assert_eq!(b.len(), 3);
    assert_eq!(fields(b.get_item(1)), vec![Value::UInt(7), Value::Object(2)]);
    match b.get_item(2) {
        HeapItem::Object { type_tag, fields } => {
            assert_eq!(*type_tag, Tag(3));
            assert_eq!(fields, &vec![Value::Bool(false)]);
        }
        _ => panic!("expected an object"),
    }
    // the source is left as it was
    assert_eq!(a.len(), 3);
    assert_eq!(fields(a.get_item(1)), vec![Value::UInt(7), Value::Object(2)]);
}

#[test]
fn shared_and_cyclic_items_are_copied_once() {
    let mut a = Heap::new();
    // item 0 refers to itself and twice to item 1
    a.alloc_raw(HeapItem::Array(vec![Value::Array(0), Value::Array(1), Value::Array(1)]));
    a.alloc_raw(HeapItem::Array(vec![Value::Int(1)]));
    let mut b = Heap::new();
    b.alloc_raw(HeapItem::Array(vec![]));
    b.alloc_raw(HeapItem::Array(vec![]));

    let migrated = migrate(&mut a, &mut b, Value::Array(0));
    assert_eq!(migrated, Value::Array(2));
    assert_eq!(b.len(), 4);
    assert_eq!(
        fields(b.get_item(2)),
        vec![Value::Array(2), Value::Array(3), Value::Array(3)]
    );
    assert_eq!(fields(b.get_item(3)), vec![Value::Int(1)]);
}

#[test]
fn unreachable_dangling_items_do_not_matter() {
    let mut a = Heap::new();
    a.alloc_raw(HeapItem::Array(vec![Value::UInt(1)]));
    a.alloc_raw(HeapItem::Array(vec![Value::Object(9)]));
    let mut b = Heap::new();
    let migrated = migrate(&mut a, &mut b, Value::Array(0));
    assert_eq!(migrated, Value::Array(0));
    assert_eq!(b.len(), 1);
}
