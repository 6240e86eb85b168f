//! Copying a value, with everything it refers to, out of one heap into
//! another.
//!
//! Data cannot simply be moved between heaps since an item may be referred
//! to many times, so the reachable part of the source heap is copied into
//! the destination, each item once, and the references are renamed.
use vstd::prelude::*;
use vstd::set_lib::*;

use crate::tables::{ForwardingTable, forwarding_entries};
use crate::values::{Heap, HeapItem, HeapItemView, Value, item_fields};

verus! {

/// Whether a value refers to a heap item.
pub open spec fn is_ref(v: Value) -> bool {
    v is Object || v is Array
}

/// The heap index a referring value points to.
pub open spec fn ref_index(v: Value) -> usize {
    match v {
        Value::Object(i) => i,
        Value::Array(i) => i,
        _ => 0,
    }
}

/// The value with its heap reference renamed through `f`.
pub open spec fn rename_value(v: Value, f: Map<usize, usize>) -> Value {
    match v {
        Value::Object(i) => Value::Object(f[i]),
        Value::Array(i) => Value::Array(f[i]),
        _ => v,
    }
}

/// The item with every reference in it renamed through `f`.
pub open spec fn rename_item(item: HeapItemView, f: Map<usize, usize>) -> HeapItemView {
    match item {
        HeapItemView::Object { type_tag, fields } => HeapItemView::Object {
            type_tag,
            fields: fields.map_values(|v: Value| rename_value(v, f)),
        },
        HeapItemView::Array(fields) => HeapItemView::Array(
            fields.map_values(|v: Value| rename_value(v, f)),
        ),
        HeapItemView::Forwarded(to) => HeapItemView::Forwarded(to),
    }
}

/// Every reference held by `item` is an index of `f`.
pub open spec fn refs_forwarded(item: HeapItemView, f: Map<usize, usize>) -> bool {
    forall|k: int|
        0 <= k < item_fields(item).len() && is_ref(#[trigger] item_fields(item)[k])
            ==> f.contains_key(ref_index(item_fields(item)[k]))
}

/// `v` refers to nothing, or to an item of `items` that is not a
/// forwarding slot.
pub open spec fn points_into(items: Seq<HeapItemView>, v: Value) -> bool {
    is_ref(v) ==> ref_index(v) < items.len() && !(items[ref_index(v) as int] is Forwarded)
}

/// A set of items of the heap, each of them live, whose fields refer only
/// to items of the set.
pub open spec fn closed_items(items: Seq<HeapItemView>, s: Set<usize>) -> bool {
    forall|i: usize|
        #[trigger] s.contains(i) ==> i < items.len() && !(items[i as int] is Forwarded) && forall|
            k: int,
        |
            0 <= k < item_fields(items[i as int]).len() && is_ref(
                #[trigger] item_fields(items[i as int])[k],
            ) ==> s.contains(ref_index(item_fields(items[i as int])[k]))
}

/// Everything that `v` reaches in the heap is live: its item, if it refers
/// to one, lies in a closed set of live items.
pub open spec fn reaches_live(items: Seq<HeapItemView>, v: Value) -> bool {
    exists|s: Set<usize>| closed_items(items, s) && (is_ref(v) ==> s.contains(ref_index(v)))
}

/// A closed set of live items that holds the item of `v`, if `v` reaches
/// only live items.
spec fn live_items_of(items: Seq<HeapItemView>, v: Value) -> Set<usize> {
    choose|s: Set<usize>| closed_items(items, s) && (is_ref(v) ==> s.contains(ref_index(v)))
}

proof fn lemma_live_items_of(items: Seq<HeapItemView>, v: Value)
    requires
        reaches_live(items, v),
    ensures
        closed_items(items, live_items_of(items, v)),
        is_ref(v) ==> live_items_of(items, v).contains(ref_index(v)),
{
    let s = choose|s: Set<usize>| closed_items(items, s) && (is_ref(v) ==> s.contains(ref_index(v)));
    assert(closed_items(items, s) && (is_ref(v) ==> s.contains(ref_index(v))));
}

/// A field of an item of a closed set points into the heap, to an item of
/// the set.
proof fn lemma_closed_field(items: Seq<HeapItemView>, s: Set<usize>, i: usize, k: int)
    requires
        closed_items(items, s),
        s.contains(i),
        0 <= k < item_fields(items[i as int]).len(),
    ensures
        points_into(items, item_fields(items[i as int])[k]),
        is_ref(item_fields(items[i as int])[k]) ==> s.contains(
            ref_index(item_fields(items[i as int])[k]),
        ),
{
    let field = item_fields(items[i as int])[k];
    if is_ref(field) {
        assert(s.contains(ref_index(field)));
    }
}

/// Item `i` of `a` is referred to by a field of item `j`.
pub open spec fn refers_to(a: Seq<HeapItemView>, j: usize, i: usize) -> bool {
    exists|k: int|
        0 <= k < item_fields(a[j as int]).len() && is_ref(#[trigger] item_fields(a[j as int])[k])
            && ref_index(item_fields(a[j as int])[k]) == i
}

/// `b1` is `b0` with the part of `a` reachable from `root` copied onto its
/// end through the renaming `f` (old index to new index), and `result` is
/// `root` renamed.
///
/// Each copied item is its original with every reference renamed; the
/// copies take exactly the indices after the old end of `b0`, one per
/// copied item; the root's item is copied first and every other copied item
/// is referred to by an item copied before it, so exactly the reachable
/// items are copied.
pub open spec fn migration_via(
    a: Seq<HeapItemView>,
    b0: Seq<HeapItemView>,
    b1: Seq<HeapItemView>,
    root: Value,
    result: Value,
    f: Map<usize, usize>,
) -> bool {
    &&& f.dom().finite()
    &&& b1.len() == b0.len() + f.dom().len()
    &&& b1.subrange(0, b0.len() as int) == b0
    &&& forall|i: usize|
        #[trigger] f.contains_key(i) ==> {
            &&& i < a.len()
            &&& !(a[i as int] is Forwarded)
            &&& b0.len() <= f[i] < b1.len()
            &&& b1[f[i] as int] == rename_item(a[i as int], f)
            &&& refs_forwarded(a[i as int], f)
        }
    &&& forall|i: usize, j: usize|
        #![trigger f[i], f[j]]
        f.contains_key(i) && f.contains_key(j) && i != j ==> f[i] != f[j]
    &&& if is_ref(root) {
        f.contains_key(ref_index(root)) && f[ref_index(root)] == b0.len()
    } else {
        f.dom().len() == 0
    }
    &&& result == rename_value(root, f)
    &&& forall|i: usize|
        #[trigger] f.contains_key(i) && f[i] != b0.len() ==> exists|j: usize|
            #[trigger] f.contains_key(j) && f[j] < f[i] && refers_to(a, j, i)
}

/// `b1` is `b0` with the part of `a` reachable from `root` copied onto it,
/// and `result` is `root` renamed into `b1` (see `migration_via`).
pub open spec fn is_migration(
    a: Seq<HeapItemView>,
    b0: Seq<HeapItemView>,
    b1: Seq<HeapItemView>,
    root: Value,
    result: Value,
) -> bool {
    exists|f: Map<usize, usize>| migration_via(a, b0, b1, root, result, f)
}

/// A sequence of distinct indices below `n` has at most `n` entries.
proof fn lemma_distinct_indices_bounded(s: Seq<usize>, n: usize)
    requires
        s.no_duplicates(),
        forall|k: int| 0 <= k < s.len() ==> s[k] < n,
    ensures
        s.len() <= n,
{
    let t = s.map_values(|x: usize| x as int);
    assert(t.no_duplicates()) by {
        assert forall|i: int, j: int| 0 <= i < t.len() && 0 <= j < t.len() && i != j implies t[i]
            != t[j] by {
            assert(s[i] != s[j]);
        }
    }
    t.unique_seq_to_set();
    lemma_int_range(0, n as int);
    assert(t.to_set().subset_of(set_int_range(0, n as int))) by {
        assert forall|x: int| t.to_set().contains(x) implies set_int_range(0, n as int).contains(
            x,
        ) by {
            let k = choose|k: int| 0 <= k < t.len() && t[k] == x;
        }
    }
    lemma_len_subset(t.to_set(), set_int_range(0, n as int));
}

/// Renaming through a larger map changes nothing for an item whose
/// references are all in the smaller one.
proof fn lemma_rename_stable(item: HeapItemView, f: Map<usize, usize>, g: Map<usize, usize>)
    requires
        refs_forwarded(item, f),
        f.submap_of(g),
    ensures
        rename_item(item, g) == rename_item(item, f),
        refs_forwarded(item, g),
{
    let fields = item_fields(item);
    assert(fields.map_values(|v: Value| rename_value(v, g)) =~= fields.map_values(
        |v: Value| rename_value(v, f),
    )) by {
        assert forall|k: int| 0 <= k < fields.len() implies rename_value(fields[k], g)
            == rename_value(fields[k], f) by {
            if is_ref(fields[k]) {
                assert(f.contains_key(ref_index(fields[k])));
                assert(g.contains_key(ref_index(fields[k])));
                assert(g[ref_index(fields[k])] == f[ref_index(fields[k])]);
            }
        }
    }
    assert forall|k: int|
        0 <= k < item_fields(item).len() && is_ref(#[trigger] item_fields(item)[k]) implies g.contains_key(
        ref_index(item_fields(item)[k]),
    ) by {
        assert(f.contains_key(ref_index(item_fields(item)[k])));
    }
}

/// The copy of the item at `dst` (copied from `src`) is in the state that
/// its presence in `pending` says: not yet scanned, so an exact copy, or
/// scanned, so renamed with all its references forwarded.
pub open spec fn copy_ok(
    a: Seq<HeapItemView>,
    b: Seq<HeapItemView>,
    f: Map<usize, usize>,
    pending: Seq<usize>,
    src: usize,
    dst: int,
) -> bool {
    if pending.contains(dst as usize) {
        b[dst] == a[src as int]
    } else {
        b[dst] == rename_item(a[src as int], f) && refs_forwarded(a[src as int], f)
    }
}

/// The bookkeeping of a migration in progress: `order` lists the source
/// indices in the order they were copied, `f` maps each to its copy, and
/// `pending` holds the copies still to be scanned, and `parents[t]` is the
/// position in `order` of an item that refers to `order[t]`. The copy at
/// `busy` is being scanned and is exempt.
pub open spec fn progress(
    a: Seq<HeapItemView>,
    b0: Seq<HeapItemView>,
    b: Seq<HeapItemView>,
    f: Map<usize, usize>,
    order: Seq<usize>,
    parents: Seq<int>,
    pending: Seq<usize>,
    busy: int,
) -> bool {
    &&& b.len() == b0.len() + order.len()
    &&& b.len() <= usize::MAX
    &&& b.subrange(0, b0.len() as int) == b0
    &&& order.no_duplicates()
    &&& f.dom() == order.to_set()
    &&& forall|t: int|
        0 <= t < order.len() ==> #[trigger] f[order[t]] == b0.len() + t && order[t] < a.len()
            && !(a[order[t] as int] is Forwarded)
    &&& pending.no_duplicates()
    &&& forall|q: int| 0 <= q < pending.len() ==> b0.len() <= #[trigger] pending[q] < b.len()
    &&& forall|t: int|
        #![trigger order[t]]
        0 <= t < order.len() && b0.len() + t != busy ==> copy_ok(
            a,
            b,
            f,
            pending,
            order[t],
            b0.len() + t,
        )
    &&& parents.len() == order.len()
    &&& forall|t: int|
        #![trigger parents[t]]
        0 < t < order.len() ==> 0 <= parents[t] < t && refers_to(a, order[parents[t]], order[t])
}

/// Copies the item at `old_idx` of `a` onto the end of `b`, unless it was
/// already copied, and returns the index of its copy in `b`.
///
/// A new copy is recorded in `forwarded` and queued in `pending` so that
/// its own references get copied later.
fn copy_item(
    a: &Heap,
    b: &mut Heap,
    forwarded: &mut ForwardingTable,
    pending: &mut Vec<usize>,
    old_idx: usize,
) -> (new_idx: usize)
    requires
        old_idx < a@.len(),
        !(a@[old_idx as int] is Forwarded),
        !forwarding_entries(*old(forwarded)).contains_key(old_idx) ==> old(b)@.len() < usize::MAX,
    ensures
        forwarding_entries(*old(forwarded)).contains_key(old_idx) ==> {
            &&& new_idx == forwarding_entries(*old(forwarded))[old_idx]
            &&& final(b)@ == old(b)@
            &&& forwarding_entries(*final(forwarded)) == forwarding_entries(*old(forwarded))
            &&& final(pending)@ == old(pending)@
        },
        !forwarding_entries(*old(forwarded)).contains_key(old_idx) ==> {
            &&& new_idx == old(b)@.len()
            &&& final(b)@ == old(b)@.push(a@[old_idx as int])
            &&& forwarding_entries(*final(forwarded)) == forwarding_entries(*old(forwarded)).insert(
                old_idx,
                new_idx,
            )
            &&& final(pending)@ == old(pending)@.push(new_idx)
        },
{
    // This item was already copied earlier in this migration.
    if let Some(new_idx) = forwarded.get(old_idx) {
        return new_idx;
    }
    // First time we see it: copy it over and queue its contents.

    let item = a.get_item(old_idx).duplicate();
    let new_idx = b.alloc_raw(item);
    forwarded.insert(old_idx, new_idx);
    pending.push(new_idx);
    new_idx
}

/// Migrates one value from `a` to `b`: values that live inline are simply
/// copied, objects and arrays are copied over by `copy_item`.
fn migrate_value(
    a: &Heap,
    b: &mut Heap,
    forwarded: &mut ForwardingTable,
    pending: &mut Vec<usize>,
    val: Value,
) -> (migrated: Value)
    requires
        points_into(a@, val),
        is_ref(val) && !forwarding_entries(*old(forwarded)).contains_key(ref_index(val))
            ==> old(b)@.len() < usize::MAX,
    ensures
        !is_ref(val) || forwarding_entries(*old(forwarded)).contains_key(ref_index(val)) ==> {
            &&& final(b)@ == old(b)@
            &&& forwarding_entries(*final(forwarded)) == forwarding_entries(*old(forwarded))
            &&& final(pending)@ == old(pending)@
        },
        is_ref(val) && !forwarding_entries(*old(forwarded)).contains_key(ref_index(val)) ==> {
            &&& final(b)@ == old(b)@.push(a@[ref_index(val) as int])
            &&& forwarding_entries(*final(forwarded)) == forwarding_entries(*old(forwarded)).insert(
                ref_index(val),
                old(b)@.len() as usize,
            )
            &&& final(pending)@ == old(pending)@.push(old(b)@.len() as usize)
        },
        migrated == rename_value(val, forwarding_entries(*final(forwarded))),
{
    match val {
        Value::Object(old_idx) => Value::Object(copy_item(a, b, forwarded, pending, old_idx)),
        Value::Array(old_idx) => Value::Array(copy_item(a, b, forwarded, pending, old_idx)),
        _ => val,
    }
}


/// Renaming a value through a larger map changes nothing when its
/// reference is in the smaller one.
proof fn lemma_rename_value_stable(v: Value, f: Map<usize, usize>, g: Map<usize, usize>)
    requires
        is_ref(v) ==> f.contains_key(ref_index(v)),
        f.submap_of(g),
    ensures
        rename_value(v, g) == rename_value(v, f),
        is_ref(v) ==> g.contains_key(ref_index(v)),
{
    if is_ref(v) {
        assert(f.contains_key(ref_index(v)));
        assert(g.contains_key(ref_index(v)));
        assert(g[ref_index(v)] == f[ref_index(v)]);
    }
}

/// Copying a fresh item `r`, referred to by the item being scanned at
/// `busy`, keeps the bookkeeping of the migration.
proof fn lemma_progress_after_copy(
    a: Seq<HeapItemView>,
    b0: Seq<HeapItemView>,
    b: Seq<HeapItemView>,
    f: Map<usize, usize>,
    order: Seq<usize>,
    parents: Seq<int>,
    pending: Seq<usize>,
    busy: int,
    r: usize,
)
    requires
        progress(a, b0, b, f, order, parents, pending, busy),
        !f.contains_key(r),
        r < a.len(),
        !(a[r as int] is Forwarded),
        b.len() < usize::MAX,
        0 <= busy - b0.len() < order.len(),
        refers_to(a, order[busy - b0.len()], r),
    ensures
        progress(
            a,
            b0,
            b.push(a[r as int]),
            f.insert(r, b.len() as usize),
            order.push(r),
            parents.push(busy - b0.len()),
            pending.push(b.len() as usize),
            busy,
        ),
{
    let parents2 = parents.push(busy - b0.len());
    let b2 = b.push(a[r as int]);
    let f2 = f.insert(r, b.len() as usize);
    let order2 = order.push(r);
    let pending2 = pending.push(b.len() as usize);
    let n = b.len() as usize;
    assert(b2.subrange(0, b0.len() as int) =~= b.subrange(0, b0.len() as int));
    assert(!order.contains(r)) by {
        if order.contains(r) {
            assert(order.to_set().contains(r));
        }
    }
    assert(order2.no_duplicates()) by {
        assert forall|i: int, j: int| 0 <= i < order2.len() && 0 <= j < order2.len() && i != j
            implies order2[i] != order2[j] by {
            if i < order.len() && j < order.len() {
            } else if i < order.len() {
                assert(order.contains(order[i]));
            } else {
                assert(order.contains(order[j]));
            }
        }
    }
    assert(f2.dom() =~= order2.to_set()) by {
        assert forall|x: usize| f2.dom().contains(x) <==> order2.to_set().contains(x) by {
            if f2.dom().contains(x) && x != r {
                assert(order.to_set().contains(x));
                let k = choose|k: int| 0 <= k < order.len() && order[k] == x;
                assert(order2[k] == x);
            }
            if x == r {
                assert(order2[order.len() as int] == r);
            }
            if order2.to_set().contains(x) {
                let k = choose|k: int| 0 <= k < order2.len() && order2[k] == x;
                if k < order.len() {
                    assert(order[k] == x);
                    assert(order.to_set().contains(x));
                }
            }
        }
    }
    assert(!pending.contains(n)) by {
        if pending.contains(n) {
            let q = choose|q: int| 0 <= q < pending.len() && pending[q] == n;
        }
    }
    assert(pending2.no_duplicates()) by {
        assert forall|i: int, j: int|
            0 <= i < pending2.len() && 0 <= j < pending2.len() && i != j implies pending2[i]
            != pending2[j] by {
            if i < pending.len() && j < pending.len() {
            } else if i < pending.len() {
                assert(pending.contains(pending[i]));
            } else {
                assert(pending.contains(pending[j]));
            }
        }
    }
    assert forall|t: int| 0 <= t < order2.len() implies #[trigger] f2[order2[t]] == b0.len() + t
        && order2[t] < a.len() && !(a[order2[t] as int] is Forwarded) by {
        if t < order.len() {
            assert(order2[t] == order[t]);
            assert(f[order[t]] == b0.len() + t);
            assert(order[t] != r) by {
                assert(order.contains(order[t]));
            }
        }
    }
    assert forall|q: int| 0 <= q < pending2.len() implies b0.len() <= #[trigger] pending2[q]
        < b2.len() by {
        if q < pending.len() {
            assert(pending2[q] == pending[q]);
        }
    }
    assert forall|t: int|
        #![trigger order2[t]]
        0 <= t < order2.len() && b0.len() + t != busy implies copy_ok(
        a,
        b2,
        f2,
        pending2,
        order2[t],
        b0.len() + t,
    ) by {
        if t < order.len() {
            let dst = b0.len() + t;
            assert(order2[t] == order[t]);
            assert(copy_ok(a, b, f, pending, order[t], dst));
            assert(b2[dst] == b[dst]);
            assert(pending2.contains(dst as usize) <==> pending.contains(dst as usize)) by {
                if pending2.contains(dst as usize) {
                    let q = choose|q: int| 0 <= q < pending2.len() && pending2[q] == dst as usize;
                    if q < pending.len() {
                        assert(pending[q] == dst as usize);
                    }
                }
                if pending.contains(dst as usize) {
                    let q = choose|q: int| 0 <= q < pending.len() && pending[q] == dst as usize;
                    assert(pending2[q] == dst as usize);
                }
            }
            if !pending.contains(dst as usize) {
                assert(f.submap_of(f2));
                lemma_rename_stable(a[order[t] as int], f, f2);
            }
        } else {
            assert(order2[t] == r);
            assert(pending2[pending.len() as int] == n);
            assert(pending2.contains(n));
        }
    }
    assert forall|t: int|
        #![trigger parents2[t]]
        0 < t < order2.len() implies 0 <= parents2[t] < t && refers_to(
        a,
        order2[parents2[t]],
        order2[t],
    ) by {
        if t < order.len() {
            assert(order2[t] == order[t]);
            assert(parents2[t] == parents[t]);
            assert(order2[parents[t]] == order[parents[t]]);
        } else {
            let s = busy - b0.len();
            assert(parents2[t] == s);
            assert(order2[s] == order[s]);
        }
    }
}


/// Taking the copy at `p` out of the heap to scan it, after popping `p`
/// off the pending queue, keeps the bookkeeping with `p` as the busy copy.
proof fn lemma_progress_take(
    a: Seq<HeapItemView>,
    b0: Seq<HeapItemView>,
    b: Seq<HeapItemView>,
    f: Map<usize, usize>,
    order: Seq<usize>,
    parents: Seq<int>,
    rest: Seq<usize>,
    p: usize,
)
    requires
        progress(a, b0, b, f, order, parents, rest.push(p), -1),
    ensures
        progress(a, b0, b.update(p as int, HeapItemView::Forwarded(0)), f, order, parents, rest, p as int),
        !rest.contains(p),
        b0.len() <= p < b.len(),
        b[p as int] == a[order[p - b0.len()] as int],
{
    let pending = rest.push(p);
    let b2 = b.update(p as int, HeapItemView::Forwarded(0));
    assert(pending[rest.len() as int] == p);
    assert(!rest.contains(p)) by {
        if rest.contains(p) {
            let q = choose|q: int| 0 <= q < rest.len() && rest[q] == p;
            assert(pending[q] == p);
        }
    }
    assert(b2.subrange(0, b0.len() as int) =~= b.subrange(0, b0.len() as int));
    assert(rest.no_duplicates()) by {
        assert forall|i: int, j: int| 0 <= i < rest.len() && 0 <= j < rest.len() && i != j
            implies rest[i] != rest[j] by {
            assert(pending[i] == rest[i]);
            assert(pending[j] == rest[j]);
        }
    }
    assert forall|q: int| 0 <= q < rest.len() implies b0.len() <= #[trigger] rest[q] < b2.len() by {
        assert(pending[q] == rest[q]);
    }
    let t0 = p - b0.len();
    assert(order[t0] == order[t0]);
    assert(pending.contains(p));
    assert(copy_ok(a, b, f, pending, order[t0], b0.len() + t0));
    assert forall|t: int|
        #![trigger order[t]]
        0 <= t < order.len() && b0.len() + t != p implies copy_ok(
        a,
        b2,
        f,
        rest,
        order[t],
        b0.len() + t,
    ) by {
        let dst = b0.len() + t;
        assert(copy_ok(a, b, f, pending, order[t], dst));
        assert(b2[dst] == b[dst]);
        assert(dst as usize != p);
        assert(pending.contains(dst as usize) <==> rest.contains(dst as usize)) by {
            if pending.contains(dst as usize) {
                let q = choose|q: int| 0 <= q < pending.len() && pending[q] == dst as usize;
                if q < rest.len() {
                    assert(rest[q] == dst as usize);
                } else {
                    assert(pending[q] == p);
                }
            }
            if rest.contains(dst as usize) {
                let q = choose|q: int| 0 <= q < rest.len() && rest[q] == dst as usize;
                assert(pending[q] == dst as usize);
            }
        }
    }
}

/// Putting the scanned copy back at `p`, renamed, ends the scan of `p`.
proof fn lemma_progress_put(
    a: Seq<HeapItemView>,
    b0: Seq<HeapItemView>,
    b: Seq<HeapItemView>,
    f: Map<usize, usize>,
    order: Seq<usize>,
    parents: Seq<int>,
    pending: Seq<usize>,
    p: usize,
)
    requires
        progress(a, b0, b, f, order, parents, pending, p as int),
        b0.len() <= p < b.len(),
        !pending.contains(p),
        refs_forwarded(a[order[p - b0.len()] as int], f),
    ensures
        progress(
            a,
            b0,
            b.update(p as int, rename_item(a[order[p - b0.len()] as int], f)),
            f,
            order,
            parents,
            pending,
            -1,
        ),
{
    let src = order[p - b0.len()];
    let b2 = b.update(p as int, rename_item(a[src as int], f));
    assert(b2.subrange(0, b0.len() as int) =~= b.subrange(0, b0.len() as int));
    assert forall|t: int|
        #![trigger order[t]]
        0 <= t < order.len() && b0.len() + t != -1 implies copy_ok(
        a,
        b2,
        f,
        pending,
        order[t],
        b0.len() + t,
    ) by {
        let dst = b0.len() + t;
        if dst != p {
            assert(copy_ok(a, b, f, pending, order[t], dst));
            assert(b2[dst] == b[dst]);
        } else {
            assert(order[t] == src);
            assert(b2[dst] == rename_item(a[src as int], f));
            assert(!pending.contains(dst as usize));
        }
    }
    assert(b2.len() == b0.len() + order.len());
    assert(b2.subrange(0, b0.len() as int) == b0);
    assert(forall|q: int| 0 <= q < pending.len() ==> b0.len() <= #[trigger] pending[q] < b2.len());
}

/// A migration whose queue ran empty is complete.
proof fn lemma_progress_done(
    a: Seq<HeapItemView>,
    b0: Seq<HeapItemView>,
    b: Seq<HeapItemView>,
    f: Map<usize, usize>,
    order: Seq<usize>,
    parents: Seq<int>,
    root: Value,
    result: Value,
)
    requires
        progress(a, b0, b, f, order, parents, Seq::empty(), -1),
        is_ref(root) ==> order.len() >= 1 && order[0] == ref_index(root),
        !is_ref(root) ==> order.len() == 0,
        result == rename_value(root, f),
    ensures
        migration_via(a, b0, b, root, result, f),
{
    order.unique_seq_to_set();
    assert forall|i: usize| #[trigger] f.contains_key(i) implies {
        &&& i < a.len()
        &&& !(a[i as int] is Forwarded)
        &&& b0.len() <= f[i] < b.len()
        &&& b[f[i] as int] == rename_item(a[i as int], f)
        &&& refs_forwarded(a[i as int], f)
    } by {
        assert(order.to_set().contains(i));
        let t = choose|t: int| 0 <= t < order.len() && order[t] == i;
        assert(copy_ok(a, b, f, Seq::empty(), order[t], b0.len() + t));
    }
    assert forall|i: usize, j: usize|
        #![trigger f[i], f[j]]
        f.contains_key(i) && f.contains_key(j) && i != j implies f[i] != f[j] by {
        assert(order.to_set().contains(i));
        assert(order.to_set().contains(j));
        let ti = choose|t: int| 0 <= t < order.len() && order[t] == i;
        let tj = choose|t: int| 0 <= t < order.len() && order[t] == j;
        assert(f[order[ti]] == b0.len() + ti);
        assert(f[order[tj]] == b0.len() + tj);
    }
    if is_ref(root) {
        assert(f[order[0]] == b0.len() + 0);
        assert(order.to_set().contains(order[0]));
    } else {
        assert(f.dom() =~= Set::empty());
    }
    assert forall|i: usize| #[trigger] f.contains_key(i) && f[i] != b0.len() implies exists|j: usize|
        #[trigger] f.contains_key(j) && f[j] < f[i] && refers_to(a, j, i) by {
        assert(order.to_set().contains(i));
        let t = choose|t: int| 0 <= t < order.len() && order[t] == i;
        assert(f[order[t]] == b0.len() + t);
        assert(t > 0);
        assert(parents[t] == parents[t]);
        let j = order[parents[t]];
        assert(f[order[parents[t]]] == b0.len() + parents[t]);
        assert(order.to_set().contains(j));
        assert(f.contains_key(j));
    }
}

/// Migrates the contents of the copy at `busy`, which are the fields of
/// the source item `order0[busy - b0.len()]`, renaming each into `b`.
fn migrate_fields(
    a: &Heap,
    b: &mut Heap,
    forwarded: &mut ForwardingTable,
    pending: &mut Vec<usize>,
    fields: Vec<Value>,
    Ghost(b0): Ghost<Seq<HeapItemView>>,
    Ghost(order0): Ghost<Seq<usize>>,
    Ghost(parents0): Ghost<Seq<int>>,
    Ghost(busy): Ghost<int>,
    Ghost(live): Ghost<Set<usize>>,
) -> (out: (Vec<Value>, Ghost<Seq<usize>>, Ghost<Seq<int>>))
    requires
        closed_items(a@, live),
        forall|k: int| 0 <= k < order0.len() ==> live.contains(#[trigger] order0[k]),
        b0.len() + a@.len() <= usize::MAX,
        progress(
            a@,
            b0,
            old(b)@,
            forwarding_entries(*old(forwarded)),
            order0,
            parents0,
            old(pending)@,
            busy,
        ),
        0 <= busy - b0.len() < order0.len(),
        fields@ == item_fields(a@[order0[busy - b0.len()] as int]),
        !old(pending)@.contains(busy as usize),
    ensures
        progress(
            a@,
            b0,
            final(b)@,
            forwarding_entries(*final(forwarded)),
            out.1@,
            out.2@,
            final(pending)@,
            busy,
        ),
        out.1@.len() >= order0.len(),
        out.1@.subrange(0, order0.len() as int) == order0,
        forall|k: int| 0 <= k < out.1@.len() ==> live.contains(#[trigger] out.1@[k]),
        forwarding_entries(*old(forwarded)).submap_of(forwarding_entries(*final(forwarded))),
        out.0@ == fields@.map_values(
            |v: Value| rename_value(v, forwarding_entries(*final(forwarded))),
        ),
        refs_forwarded(a@[order0[busy - b0.len()] as int], forwarding_entries(*final(forwarded))),
        !final(pending)@.contains(busy as usize),
        final(b)@[busy] == old(b)@[busy],
        final(pending)@.len() == old(pending)@.len() + (out.1@.len() - order0.len()),
{
    let ghost src = order0[busy - b0.len()];
    let ghost f0 = forwarding_entries(*forwarded);
    let ghost b_entry = b@;
    let ghost pending_entry = pending@;
    let ghost mut order = order0;
    let ghost mut parents = parents0;
    let mut out: Vec<Value> = Vec::new();
    let mut i: usize = 0;
    while i < fields.len()
        invariant
            closed_items(a@, live),
            forall|k: int| 0 <= k < order.len() ==> live.contains(#[trigger] order[k]),
            b0.len() + a@.len() <= usize::MAX,
            0 <= busy - b0.len() < order0.len(),
            src == order0[busy - b0.len()],
            fields@ == item_fields(a@[src as int]),
            i <= fields.len(),
            progress(
                a@,
                b0,
                b@,
                forwarding_entries(*forwarded),
                order,
                parents,
                pending@,
                busy,
            ),
            order.len() >= order0.len(),
            order.subrange(0, order0.len() as int) == order0,
            f0.submap_of(forwarding_entries(*forwarded)),
            out@ == fields@.subrange(0, i as int).map_values(
                |v: Value| rename_value(v, forwarding_entries(*forwarded)),
            ),
            forall|k: int|
                0 <= k < i && is_ref(#[trigger] fields@[k]) ==> forwarding_entries(
                    *forwarded,
                ).contains_key(ref_index(fields@[k])),
            !pending@.contains(busy as usize),
            b@[busy] == b_entry[busy],
            pending@.len() == pending_entry.len() + (order.len() - order0.len()),
        decreases fields.len() - i,
    {
        let v = fields[i];
        let ghost fb = forwarding_entries(*forwarded);
        let ghost bb = b@;
        let ghost pb = pending@;
        let ghost out_before = out@;
        proof {
            assert(order.subrange(0, order0.len() as int)[busy - b0.len()] == order[busy
                - b0.len()]);
            assert(order[busy - b0.len()] == order0[busy - b0.len()]);
            assert(order.contains(src));
            assert(order.to_set().contains(src));
            assert(fb.contains_key(src));
            assert(!(a@[src as int] is Forwarded)) by {
                assert(fb[order[busy - b0.len()]] == b0.len() + (busy - b0.len()));
            }
            assert(src < a@.len()) by {
                assert(fb[order[busy - b0.len()]] == b0.len() + (busy - b0.len()));
            }
            assert(live.contains(order[busy - b0.len()]));
            lemma_closed_field(a@, live, src, i as int);
            if is_ref(v) && !fb.contains_key(ref_index(v)) {
                assert(!order.contains(ref_index(v))) by {
                    if order.contains(ref_index(v)) {
                        assert(order.to_set().contains(ref_index(v)));
                    }
                }
                let pushed = order.push(ref_index(v));
                assert(pushed.no_duplicates()) by {
                    assert forall|x: int, y: int|
                        0 <= x < pushed.len() && 0 <= y < pushed.len() && x != y implies pushed[x]
                        != pushed[y] by {
                        if x < order.len() && y < order.len() {
                        } else if x < order.len() {
                            assert(order.contains(order[x]));
                        } else {
                            assert(order.contains(order[y]));
                        }
                    }
                }
                assert forall|k: int| 0 <= k < pushed.len() implies pushed[k] < a@.len() by {
                    if k < order.len() {
                        assert(fb[order[k]] == b0.len() + k);
                    }
                }
                lemma_distinct_indices_bounded(pushed, a@.len() as usize);
            }
        }
        let nv = migrate_value(a, b, forwarded, pending, v);
        proof {
            let fa = forwarding_entries(*forwarded);
            if is_ref(v) && !fb.contains_key(ref_index(v)) {
                let r = ref_index(v);
                assert(is_ref(item_fields(a@[order[busy - b0.len()] as int])[i as int]));
                assert(refers_to(a@, order[busy - b0.len()], r));
                lemma_progress_after_copy(a@, b0, bb, fb, order, parents, pb, busy, r);
                assert(live.contains(r)) by {
                    lemma_closed_field(a@, live, src, i as int);
                }
                order = order.push(r);
                parents = parents.push(busy - b0.len());
                assert(order.subrange(0, order0.len() as int) =~= order0);
                assert(!pending@.contains(busy as usize)) by {
                    if pending@.contains(busy as usize) {
                        let q = choose|q: int| 0 <= q < pending@.len() && pending@[q] == busy as usize;
                        if q < pb.len() {
                            assert(pb[q] == busy as usize);
                        }
                    }
                }
            }
            assert(fb.submap_of(fa));
            assert(f0.submap_of(fa)) by {
                assert forall|k: usize| #[trigger] f0.contains_key(k) implies fa.contains_key(k)
                    && f0[k] == fa[k] by {
                    assert(fb.contains_key(k));
                    assert(fa.contains_key(k));
                }
            }
            assert forall|k: int| 0 <= k < i implies rename_value(#[trigger] fields@[k], fa)
                == rename_value(fields@[k], fb) by {
                lemma_rename_value_stable(fields@[k], fb, fa);
            }
            assert forall|k: int| 0 <= k < i + 1 && is_ref(#[trigger] fields@[k]) implies fa.contains_key(
                ref_index(fields@[k]),
            ) by {
                if k < i {
                    lemma_rename_value_stable(fields@[k], fb, fa);
                }
            }
        }
        out.push(nv);
        i = i + 1;
        proof {
            let fa = forwarding_entries(*forwarded);
            assert(out@ =~= fields@.subrange(0, i as int).map_values(
                |v: Value| rename_value(v, fa),
            ));
        }
    }
    proof {
        assert(fields@.subrange(0, fields@.len() as int) =~= fields@);
        assert forall|k: int|
            0 <= k < item_fields(a@[src as int]).len() && is_ref(
                #[trigger] item_fields(a@[src as int])[k],
            ) implies forwarding_entries(*forwarded).contains_key(
            ref_index(item_fields(a@[src as int])[k]),
        ) by {
            assert(fields@[k] == item_fields(a@[src as int])[k]);
        }
    }
    (out, Ghost(order), Ghost(parents))
}

/// Migrates the value `migratee` of heap `a` into heap `b` and returns the
/// value that refers to its copy.
///
/// Values that live inline are simply copied. An object or array is copied
/// into `b` together with everything reachable from it, each item exactly
/// once however often it is referred to, and with all references renamed
/// to the copies; `a` is left as it was.
pub fn migrate(a: &mut Heap, b: &mut Heap, migratee: Value) -> (migrated: Value)
    requires
        reaches_live(old(a)@, migratee),
        old(b)@.len() + old(a)@.len() <= usize::MAX,
    ensures
        final(a)@ == old(a)@,
        is_migration(old(a)@, old(b)@, final(b)@, migratee, migrated),
{
    // Items already copied from `a` to `b`, with where they went, so that
    // nothing is copied twice.
    let mut forwarded = ForwardingTable::new();

    // Copies in `b` whose own contents still need to be copied over.
    let mut pending: Vec<usize> = Vec::new();
    let ghost b0 = b@;
    let ghost live = live_items_of(a@, migratee);
    proof {
        lemma_live_items_of(a@, migratee);
    }

    // Copy the initial value over
    let migrated = migrate_value(a, b, &mut forwarded, &mut pending, migratee);
    let ghost mut order: Seq<usize> = if is_ref(migratee) {
        seq![ref_index(migratee)]
    } else {
        Seq::empty()
    };
    let ghost mut parents: Seq<int> = if is_ref(migratee) {
        seq![0int]
    } else {
        Seq::empty()
    };
    proof {
        let f = forwarding_entries(forwarded);
        if is_ref(migratee) {
            assert(order.to_set() =~= set![ref_index(migratee)]) by {
                assert(order[0] == ref_index(migratee));
            }
            assert(f.dom() =~= set![ref_index(migratee)]);
            assert(b@.subrange(0, b0.len() as int) =~= b0);
            assert(pending@[0] == b0.len());
            assert(pending@.contains(b0.len() as usize));
            assert(order[0] == order[0]);
            assert(copy_ok(a@, b@, f, pending@, order[0], b0.len() as int));
        } else {
            assert(order.to_set() =~= Set::empty());
            assert(f.dom() =~= Set::empty());
            assert(b@.subrange(0, b0.len() as int) =~= b0);
        }
        assert(progress(a@, b0, b@, f, order, parents, pending@, -1));
        if is_ref(migratee) {
            assert(f.contains_key(ref_index(migratee)));
        }
    }

    // Migrate all of the pending copies' contents
    while pending.len() > 0
        invariant
            closed_items(a@, live),
            forall|k: int| 0 <= k < order.len() ==> live.contains(#[trigger] order[k]),
            b0.len() + a@.len() <= usize::MAX,
            progress(a@, b0, b@, forwarding_entries(forwarded), order, parents, pending@, -1),
            is_ref(migratee) ==> order.len() >= 1 && order[0] == ref_index(migratee),
            !is_ref(migratee) ==> order.len() == 0,
            is_ref(migratee) ==> forwarding_entries(forwarded).contains_key(ref_index(migratee)),
            migrated == rename_value(migratee, forwarding_entries(forwarded)),
            order.len() <= a@.len(),
        decreases 2 * (a@.len() - order.len()) + pending.len(),
    {
        let ghost f_before = forwarding_entries(forwarded);
        let ghost order_before = order;
        let ghost pending_before = pending@;
        let p = pending.pop().unwrap();
        proof {
            assert(pending_before =~= pending@.push(p));
            lemma_progress_take(a@, b0, b@, f_before, order, parents, pending@, p);
        }
        let ghost src = order[p - b0.len()];
        let item = b.take_item(p);
        let (processed, Ghost(order2), Ghost(parents2)) = match item {
            HeapItem::Object { type_tag, fields } => {
                let (renamed, go, gp) = migrate_fields(
                    a,
                    b,
                    &mut forwarded,
                    &mut pending,
                    fields,
                    Ghost(b0),
                    Ghost(order),
                    Ghost(parents),
                    Ghost(p as int),
                    Ghost(live),
                );
                (HeapItem::Object { type_tag, fields: renamed }, go, gp)
            },
            HeapItem::Array(fields) => {
                let (renamed, go, gp) = migrate_fields(
                    a,
                    b,
                    &mut forwarded,
                    &mut pending,
                    fields,
                    Ghost(b0),
                    Ghost(order),
                    Ghost(parents),
                    Ghost(p as int),
                    Ghost(live),
                );
                (HeapItem::Array(renamed), go, gp)
            },
            HeapItem::Forwarded(_) => {
                // A copy of a live item is never a forwarding slot.
                proof {
                    assert(f_before[order[p - b0.len()]] == b0.len() + (p - b0.len()));
                }
                vstd::pervasive::unreached()
            },
        };
        proof {
            let f = forwarding_entries(forwarded);
            assert(processed@ == rename_item(a@[src as int], f));
        }
        let ghost b_scanned = b@;
        b.put_item(p, processed);
        proof {
            let f = forwarding_entries(forwarded);
            order = order2;
            parents = parents2;
            assert(order.subrange(0, order_before.len() as int)[p - b0.len()] == order[p
                - b0.len()]);
            assert(order[p - b0.len()] == order_before[p - b0.len()]);
            lemma_progress_put(a@, b0, b_scanned, f, order, parents, pending@, p);
            if is_ref(migratee) {
                assert(order.subrange(0, order_before.len() as int)[0] == order[0]);
                assert(order[0] == order_before[0]);
            }
            assert(f_before.submap_of(f));
            lemma_rename_value_stable(migratee, f_before, f);
            assert forall|k: int| 0 <= k < order.len() implies order[k] < a@.len() by {
                assert(f[order[k]] == b0.len() + k);
            }
            lemma_distinct_indices_bounded(order, a@.len() as usize);
        }
    }
    proof {
        let f = forwarding_entries(forwarded);
        assert(pending@ =~= Seq::<usize>::empty());
        lemma_progress_done(a@, b0, b@, f, order, parents, migratee, migrated);
    }
    migrated
}

/// A value that lives inline is not migrated but simply copied: the
/// destination heap is left as it was.
pub proof fn lemma_inline_value_is_copied(
    a: Seq<HeapItemView>,
    b0: Seq<HeapItemView>,
    b1: Seq<HeapItemView>,
    root: Value,
    result: Value,
)
    requires
        is_migration(a, b0, b1, root, result),
        !is_ref(root),
    ensures
        result == root,
        b1 == b0,
{
    let f = choose|f: Map<usize, usize>| migration_via(a, b0, b1, root, result, f);
    assert(b1 =~= b1.subrange(0, b0.len() as int));
}

} // verus!
