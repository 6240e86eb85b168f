//! The values a program works with, the heap its objects and arrays live
//! in, and the generator of its unique tags.
use vstd::prelude::*;

verus! {

/// A unique tag allocated from a program's tag space.
#[derive(Clone, Copy, Debug, PartialEq, Eq, Structural, Hash)]
pub struct Tag(pub u64);

/// A single value on a program's stack or in one of its heap items.
///
/// Objects and arrays are references into the program's heap; every other
/// value is stored inline. A float is held by its IEEE-754 bits.
#[derive(Clone, Copy, Debug, PartialEq, Eq, Structural)]
pub enum Value {
    Unit,
    Int(i64),
    UInt(u64),
    Float(u64),
    Bool(bool),
    Tag(Tag),
    Object(usize),
    Array(usize),
}

/// A single item of a heap.
#[derive(Debug)]
pub enum HeapItem {
    /// An object of some type with its fields.
    Object { type_tag: Tag, fields: Vec<Value> },
    /// An array of values.
    Array(Vec<Value>),
    /// A slot whose item was moved to the given index of another heap.
    Forwarded(usize),
}

/// The mathematical content of a heap item.
pub ghost enum HeapItemView {
    Object { type_tag: Tag, fields: Seq<Value> },
    Array(Seq<Value>),
    Forwarded(usize),
}

impl View for HeapItem {
    type V = HeapItemView;

    open spec fn view(&self) -> HeapItemView {
        match self {
            HeapItem::Object { type_tag, fields } => HeapItemView::Object {
                type_tag: *type_tag,
                fields: fields@,
            },
            HeapItem::Array(fields) => HeapItemView::Array(fields@),
            HeapItem::Forwarded(to) => HeapItemView::Forwarded(*to),
        }
    }
}

/// The heap index a value refers to, if it refers to one.
pub open spec fn value_ref(v: Value) -> Option<usize> {
    match v {
        Value::Object(i) => Some(i),
        Value::Array(i) => Some(i),
        _ => None,
    }
}

/// The values held by a heap item (none for a forwarding slot).
pub open spec fn item_fields(item: HeapItemView) -> Seq<Value> {
    match item {
        HeapItemView::Object { fields, .. } => fields,
        HeapItemView::Array(fields) => fields,
        HeapItemView::Forwarded(_) => Seq::empty(),
    }
}

/// A heap of objects and arrays, addressed by index.
pub struct Heap {
    pub items: Vec<HeapItem>,
}

impl View for Heap {
    type V = Seq<HeapItemView>;

    open spec fn view(&self) -> Seq<HeapItemView> {
        self.items@.map_values(|item: HeapItem| item@)
    }
}

/// Copies a sequence of values into a fresh vector.
pub fn copy_values(values: &Vec<Value>) -> (copy: Vec<Value>)
    ensures
        copy@ == values@,
{
    let mut copy: Vec<Value> = Vec::new();
    let mut i: usize = 0;
    while i < values.len()
        invariant
            i <= values.len(),
            copy@ == values@.subrange(0, i as int),
        decreases values.len() - i,
    {
        copy.push(values[i]);
        i = i + 1;
    }
    copy
}

impl HeapItem {
    /// A fresh item with the same content as this one.
    pub fn duplicate(&self) -> (copy: HeapItem)
        ensures
            copy@ == self@,
    {
        match self {
            HeapItem::Object { type_tag, fields } => HeapItem::Object {
                type_tag: *type_tag,
                fields: copy_values(fields),
            },
            HeapItem::Array(fields) => HeapItem::Array(copy_values(fields)),
            HeapItem::Forwarded(to) => HeapItem::Forwarded(*to),
        }
    }
}

impl Heap {
    /// An empty heap.
    pub fn new() -> (heap: Heap)
        ensures
            heap@ == Seq::<HeapItemView>::empty(),
    {
        Heap { items: Vec::new() }
    }

    /// The number of items in the heap.
    pub fn len(&self) -> (n: usize)
        ensures
            n == self@.len(),
    {
        self.items.len()
    }

    /// Places `item` at the end of the heap and returns its index.
    pub fn alloc_raw(&mut self, item: HeapItem) -> (index: usize)
        requires
            old(self)@.len() < usize::MAX,
        ensures
            index == old(self)@.len(),
            final(self)@ == old(self)@.push(item@),
    {
        let index = self.items.len();
        self.items.push(item);
        proof {
            assert(self@ =~= old(self)@.push(item@));
        }
        index
    }

    /// The item at `index`.
    pub fn get_item(&self, index: usize) -> (item: &HeapItem)
        requires
            index < self@.len(),
        ensures
            item@ == self@[index as int],
    {
        &self.items[index]
    }

    /// Takes the item at `index` out of the heap, leaving a forwarding slot
    /// to index 0 in its place.
    pub fn take_item(&mut self, index: usize) -> (item: HeapItem)
        requires
            index < old(self)@.len(),
        ensures
            item@ == old(self)@[index as int],
            final(self)@ == old(self)@.update(index as int, HeapItemView::Forwarded(0)),
    {
        let mut item = HeapItem::Forwarded(0);
        std::mem::swap(&mut item, &mut self.items[index]);
        proof {
            assert(self@ =~= old(self)@.update(index as int, HeapItemView::Forwarded(0)));
        }
        item
    }

    /// Puts `item` at `index`, replacing what was there.
    pub fn put_item(&mut self, index: usize, item: HeapItem)
        requires
            index < old(self)@.len(),
        ensures
            final(self)@ == old(self)@.update(index as int, item@),
    {
        let ghost v = item@;
        self.items.set(index, item);
        proof {
            assert(self@ =~= old(self)@.update(index as int, v));
        }
    }
}

/// The generator of a program's unique tags.
pub struct TagGenerator {
    pub next: u64,
}

impl TagGenerator {
    /// A generator that has handed out no tags yet.
    pub fn new() -> (tagger: TagGenerator)
        ensures
            tagger.next == 0,
    {
        TagGenerator { next: 0 }
    }

    /// Hands out a tag that this generator never handed out before.
    pub fn allocate_tag(&mut self) -> (tag: Tag)
        requires
            old(self).next < u64::MAX,
        ensures
            tag == Tag(old(self).next),
            final(self).next == old(self).next + 1,
    {
        let tag = Tag(self.next);
        self.next = self.next + 1;
        tag
    }
}

/// The name of the type of a value, as reported in errors.
pub open spec fn value_kind_name(value: Value) -> &'static str {
    match value {
        Value::Unit => "unit",
        Value::Int(_) => "int",
        Value::UInt(_) => "uint",
        Value::Float(_) => "float",
        Value::Bool(_) => "bool",
        Value::Tag(_) => "tag",
        Value::Object(_) => "object",
        Value::Array(_) => "array",
    }
}

/// The name of the type of a value, as reported in errors.
pub fn value_type_name(value: &Value) -> (name: &'static str)
    ensures
        name == value_kind_name(*value),
{
    match value {
        Value::Unit => "unit",
        Value::Int(_) => "int",
        Value::UInt(_) => "uint",
        Value::Float(_) => "float",
        Value::Bool(_) => "bool",
        Value::Tag(_) => "tag",
        Value::Object(_) => "object",
        Value::Array(_) => "array",
    }
}

} // verus!
