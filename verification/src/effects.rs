//! What each operation does to a heap, a store and the pointers, field by field and color by color.
use vstd::prelude::*;
use vstd::std_specs::cmp::PartialEqSpec;

use crate::flags::GcColor;
use crate::gray_queue::{GcBoxHeader, GrayLink};
use crate::heap::{Gc, GcBox, GcContext, GcLeaf, GcObject, GcPhase, Rgc};
use crate::model::{HeapView, ObjectView, Place, StoreView};

verus! {

/// A place leads to an object of a heap exactly when it carries the identity of the heap and its
/// index is that of an object.  The next object comes behind all others.
pub proof fn law_place_leads_to_an_object(heap: HeapView, place: Place)
    ensures
        heap.has(place) <==> place.context == heap.identity && place.index < heap.objects.len(),
        heap.at(place) == heap.objects[place.index as int],
        heap.next_place().context == heap.identity,
        heap.objects.len() <= usize::MAX ==> heap.next_place().index == heap.objects.len(),
        heap.objects.len() <= usize::MAX ==> !heap.has(heap.next_place()),
{
}

/// Each color is white, light-gray, dark-gray or black, and only the last two are those of objects
/// that were reached.
pub proof fn law_kinds_of_colors(color: GcColor)
    ensures
        color.white() <==> color is White1 || color is White2,
        color.gray() <==> color is LightGray || color is DarkGray,
        color.reached() <==> color is DarkGray || color is Black,
{
}

/// A counter of zero stands for no guard, the largest machine word for a write guard, and any
/// other for read guards.
pub proof fn law_counter_tells_the_guards(counter: nat)
    ensures
        crate::borrow_state::mode_of(counter) is Unused <==> counter == 0,
        crate::borrow_state::mode_of(counter) is Writing <==> counter == usize::MAX,
        crate::borrow_state::mode_of(counter) is Reading <==> counter != 0 && counter
            != usize::MAX,
{
}

/// An object can be read unless a write guard is out, and written only when no guard is out.
pub proof fn law_guards_allow(object: ObjectView)
    ensures
        object.mode() is Unused <==> object.borrows == 0,
        object.mode() is Writing <==> object.borrows == usize::MAX,
        object.mode() is Reading <==> object.borrows != 0 && object.borrows != usize::MAX,
        object.readable() <==> object.borrows != usize::MAX,
        object.writable() <==> object.borrows == 0,
{
}

/// A new heap has no objects and nothing in its lists, counts no bytes, sleeps, makes objects of
/// the first white, upholds no invariant and keeps its two multipliers apart.
pub proof fn law_new_heap_is_empty(identity: usize, pause: u64, timing: u64)
    ensures
        HeapView::empty(identity, pause, timing) == (HeapView {
            identity,
            objects: seq![],
            sizes: seq![],
            all: seq![],
            primary: seq![],
            secondary: seq![],
            uphold_invariant: false,
            total_allocated: 0,
            phase: GcPhase::Sleeping,
            current_white: GcColor::White1,
            sweep_position: None,
            pause_multiplier: pause,
            timing_multiplier: timing,
        }),
{
}

/// An allocation makes one object, of the current white, with no root and no guard, and counts its
/// bytes.
pub proof fn law_allocation_makes_one_white_object(heap: HeapView, size: nat)
    requires
        heap.objects.len() <= usize::MAX,
        heap.sizes.len() == heap.objects.len(),
    ensures
        heap.allocated(size).objects.len() == heap.objects.len() + 1,
        heap.allocated(size).objects.last().color == heap.current_white,
        heap.allocated(size).objects.last().roots == 0,
        heap.allocated(size).objects.last().borrows == 0,
        heap.allocated(size).sizes.len() == heap.objects.len() + 1,
        heap.allocated(size).sizes.last() == size,
        heap.allocated(size).total_allocated == heap.total_allocated + size,
        heap.allocated(size).all.len() == heap.all.len() + 1,
        heap.allocated(size).all.first() == heap.objects.len(),
        heap.allocated(size).has(heap.next_place()),
        heap.allocated(size).at(heap.next_place()) == heap.allocated(size).objects.last(),
{
}

/// An allocation leaves everything that was there before as it was.
pub proof fn law_allocation_keeps_what_was_there(heap: HeapView, size: nat)
    ensures
        heap.allocated(size).objects.drop_last() == heap.objects,
        heap.allocated(size).sizes.drop_last() == heap.sizes,
        heap.allocated(size).all.drop_first() == heap.all,
        heap.allocated(size) == (HeapView {
            objects: heap.allocated(size).objects,
            sizes: heap.allocated(size).sizes,
            all: heap.allocated(size).all,
            total_allocated: heap.allocated(size).total_allocated,
            ..heap
        }),
{
    assert(heap.allocated(size).objects.drop_last() =~= heap.objects);
    assert(heap.allocated(size).sizes.drop_last() =~= heap.sizes);
    assert(heap.allocated(size).all.drop_first() =~= heap.all);
}

/// A root counts once on its object, whatever the color of the object and the guards on it, and
/// leaves the guards as they are.
pub proof fn law_root_counts_once_and_leaves_guards(heap: HeapView, index: usize)
    requires
        index < heap.objects.len(),
    ensures
        heap.rooted(index).objects[index as int].roots == heap.objects[index as int].roots + 1,
        heap.rooted(index).objects[index as int].borrows == heap.objects[index as int].borrows,
        heap.rooted(index).objects[index as int].mode() == heap.objects[index as int].mode(),
        heap.rooted(index).objects[index as int].readable()
            == heap.objects[index as int].readable(),
        heap.rooted(index).objects[index as int].writable()
            == heap.objects[index as int].writable(),
{
}

/// A root turns a white object light-gray and puts it first in the secondary part of the gray
/// queue.  An object of another color stays where it is and as it is.
pub proof fn law_root_queues_a_white_object(heap: HeapView, index: usize)
    requires
        index < heap.objects.len(),
    ensures
        heap.objects[index as int].color is White1 || heap.objects[index as int].color is White2
            ==> {
            &&& heap.rooted(index).objects[index as int].color is LightGray
            &&& heap.rooted(index).secondary.len() == heap.secondary.len() + 1
            &&& heap.rooted(index).secondary.first() == index
            &&& heap.rooted(index).secondary.drop_first() == heap.secondary
        },
        heap.objects[index as int].color is LightGray
            || heap.objects[index as int].color is DarkGray
            || heap.objects[index as int].color is Black ==> {
            &&& heap.rooted(index).objects[index as int].color == heap.objects[index as int].color
            &&& heap.rooted(index).secondary == heap.secondary
        },
{
    assert((seq![index] + heap.secondary).drop_first() =~= heap.secondary);
}

/// A root changes its object and the secondary part of the gray queue, and nothing else.
pub proof fn law_root_touches_one_object(heap: HeapView, index: usize)
    requires
        index < heap.objects.len(),
    ensures
        heap.rooted(index).objects.len() == heap.objects.len(),
        forall|other: int|
            0 <= other < heap.objects.len() && other != index ==> #[trigger] heap.rooted(
                index,
            ).objects[other] == heap.objects[other],
        heap.rooted(index) == (HeapView {
            objects: heap.rooted(index).objects,
            secondary: heap.rooted(index).secondary,
            ..heap
        }),
{
}

/// Another root on an object that is rooted changes its root count alone.
pub proof fn law_root_on_a_rooted_object_only_counts(heap: HeapView, index: usize)
    requires
        heap.inv(),
        index < heap.objects.len(),
        heap.objects[index as int].roots > 0,
    ensures
        heap.rooted(index).objects[index as int].color == heap.objects[index as int].color,
        heap.rooted(index).objects[index as int].borrows == heap.objects[index as int].borrows,
        heap.rooted(index).objects[index as int].roots == heap.objects[index as int].roots + 1,
        heap.rooted(index) == (HeapView { objects: heap.rooted(index).objects, ..heap }),
{
}

/// A root that is given up, the last one too, changes the root count of its object alone.
pub proof fn law_unroot_changes_the_root_count_alone(heap: HeapView, index: usize)
    requires
        index < heap.objects.len(),
        heap.objects[index as int].roots > 0,
    ensures
        heap.unrooted(index).objects[index as int].roots + 1 == heap.objects[index as int].roots,
        heap.unrooted(index).objects[index as int].borrows == heap.objects[index as int].borrows,
        heap.unrooted(index).objects[index as int].mode() == heap.objects[index as int].mode(),
        heap.unrooted(index).objects[index as int].color == heap.objects[index as int].color,
        heap.unrooted(index).objects.len() == heap.objects.len(),
        forall|other: int|
            0 <= other < heap.objects.len() && other != index ==> #[trigger] heap.unrooted(
                index,
            ).objects[other] == heap.objects[other],
        heap.unrooted(index) == (HeapView { objects: heap.unrooted(index).objects, ..heap }),
{
}

/// A read guard counts once on its object, and changes neither its color nor its roots nor
/// anything else.
pub proof fn law_read_changes_the_guards_alone(heap: HeapView, index: usize)
    requires
        index < heap.objects.len(),
    ensures
        heap.reading(index).objects[index as int].borrows == heap.objects[index as int].borrows + 1,
        heap.reading(index).objects[index as int].roots == heap.objects[index as int].roots,
        heap.reading(index).objects[index as int].color == heap.objects[index as int].color,
        heap.reading(index).objects.len() == heap.objects.len(),
        forall|other: int|
            0 <= other < heap.objects.len() && other != index ==> #[trigger] heap.reading(
                index,
            ).objects[other] == heap.objects[other],
        heap.reading(index) == (HeapView { objects: heap.reading(index).objects, ..heap }),
{
}

/// A read guard that is given back counts once less, and changes neither the color nor the roots
/// of its object nor anything else.
pub proof fn law_read_given_back_changes_the_guards_alone(heap: HeapView, index: usize)
    requires
        index < heap.objects.len(),
        heap.objects[index as int].borrows > 0,
    ensures
        heap.read_done(index).objects[index as int].borrows + 1
            == heap.objects[index as int].borrows,
        heap.read_done(index).objects[index as int].roots == heap.objects[index as int].roots,
        heap.read_done(index).objects[index as int].color == heap.objects[index as int].color,
        heap.read_done(index).objects.len() == heap.objects.len(),
        forall|other: int|
            0 <= other < heap.objects.len() && other != index ==> #[trigger] heap.read_done(
                index,
            ).objects[other] == heap.objects[other],
        heap.read_done(index) == (HeapView { objects: heap.read_done(index).objects, ..heap }),
{
}

/// A write guard marks its object as being written and leaves its roots as they are.  It changes
/// the object, its color only from black to dark-gray, and at most the primary part of the gray
/// queue.
pub proof fn law_write_keeps_the_roots(heap: HeapView, index: usize)
    requires
        index < heap.objects.len(),
    ensures
        heap.writing(index).objects[index as int].borrows == usize::MAX,
        heap.writing(index).objects[index as int].roots == heap.objects[index as int].roots,
        !(heap.objects[index as int].color is Black) ==> heap.writing(
            index,
        ).objects[index as int].color == heap.objects[index as int].color,
        heap.writing(index).objects.len() == heap.objects.len(),
        forall|other: int|
            0 <= other < heap.objects.len() && other != index ==> #[trigger] heap.writing(
                index,
            ).objects[other] == heap.objects[other],
        heap.writing(index) == (HeapView {
            objects: heap.writing(index).objects,
            primary: heap.writing(index).primary,
            ..heap
        }),
{
}

/// A write to a black object, while the invariant is upheld, turns it dark-gray and puts it first
/// in the primary part of the gray queue.  Any other write leaves the color and the queue alone.
pub proof fn law_write_queues_a_black_object(heap: HeapView, index: usize)
    requires
        index < heap.objects.len(),
    ensures
        heap.uphold_invariant && heap.objects[index as int].color is Black ==> {
            &&& heap.writing(index).objects[index as int].color is DarkGray
            &&& heap.writing(index).primary.len() == heap.primary.len() + 1
            &&& heap.writing(index).primary.first() == index
            &&& heap.writing(index).primary.drop_first() == heap.primary
        },
        !heap.uphold_invariant || !(heap.objects[index as int].color is Black) ==> {
            &&& heap.writing(index).objects[index as int].color == heap.objects[index as int].color
            &&& heap.writing(index).primary == heap.primary
        },
{
    assert((seq![index] + heap.primary).drop_first() =~= heap.primary);
}

/// A write guard that is given back leaves no guard on its object, and changes neither its color
/// nor its roots nor anything else.
pub proof fn law_write_given_back_changes_the_guards_alone(heap: HeapView, index: usize)
    requires
        index < heap.objects.len(),
    ensures
        heap.write_done(index).objects[index as int].borrows == 0,
        heap.write_done(index).objects[index as int].roots == heap.objects[index as int].roots,
        heap.write_done(index).objects[index as int].color == heap.objects[index as int].color,
        heap.write_done(index).objects.len() == heap.objects.len(),
        forall|other: int|
            0 <= other < heap.objects.len() && other != index ==> #[trigger] heap.write_done(
                index,
            ).objects[other] == heap.objects[other],
        heap.write_done(index) == (HeapView { objects: heap.write_done(index).objects, ..heap }),
{
}

/// Tracing an object leaves its roots and its guards as they are, and changes at most its color and
/// the primary part of the gray queue.
pub proof fn law_trace_keeps_roots_and_guards(heap: HeapView, index: usize)
    requires
        index < heap.objects.len(),
    ensures
        heap.traced(index).objects[index as int].roots == heap.objects[index as int].roots,
        heap.traced(index).objects[index as int].borrows == heap.objects[index as int].borrows,
        heap.traced(index).objects.len() == heap.objects.len(),
        forall|other: int|
            0 <= other < heap.objects.len() && other != index ==> #[trigger] heap.traced(
                index,
            ).objects[other] == heap.objects[other],
        heap.traced(index) == (HeapView {
            objects: heap.traced(index).objects,
            primary: heap.traced(index).primary,
            ..heap
        }),
{
}

/// Tracing leaves a black object as it is and turns every other object dark-gray.  Only a white
/// object enters the gray queue by it, first in the primary part.
pub proof fn law_trace_darkens(heap: HeapView, index: usize)
    requires
        index < heap.objects.len(),
    ensures
        heap.objects[index as int].color is Black ==> heap.traced(index) == heap,
        !(heap.objects[index as int].color is Black) ==> heap.traced(
            index,
        ).objects[index as int].color is DarkGray,
        heap.objects[index as int].color is White1 || heap.objects[index as int].color is White2
            ==> {
            &&& heap.traced(index).primary.len() == heap.primary.len() + 1
            &&& heap.traced(index).primary.first() == index
            &&& heap.traced(index).primary.drop_first() == heap.primary
        },
        heap.objects[index as int].color is LightGray
            || heap.objects[index as int].color is DarkGray ==> heap.traced(index).primary
            == heap.primary,
{
    assert((seq![index] + heap.primary).drop_first() =~= heap.primary);
}

/// Roots and read guards do not meddle with each other: it makes no difference which comes first.
pub proof fn law_roots_and_reads_commute(heap: HeapView, rooted: usize, read: usize)
    requires
        rooted < heap.objects.len(),
        read < heap.objects.len(),
    ensures
        heap.rooted(rooted).reading(read) == heap.reading(read).rooted(rooted),
        heap.rooted(rooted).read_done(read) == heap.read_done(read).rooted(rooted),
        heap.unrooted(rooted).reading(read) == heap.reading(read).unrooted(rooted),
        heap.unrooted(rooted).read_done(read) == heap.read_done(read).unrooted(rooted),
{
    assert(heap.rooted(rooted).reading(read) =~= heap.reading(read).rooted(rooted));
    assert(heap.rooted(rooted).read_done(read) =~= heap.read_done(read).rooted(rooted));
    assert(heap.unrooted(rooted).reading(read) =~= heap.reading(read).unrooted(rooted));
    assert(heap.unrooted(rooted).read_done(read) =~= heap.read_done(read).unrooted(rooted));
}

/// Roots and write guards do not meddle with each other: it makes no difference which comes first.
pub proof fn law_roots_and_writes_commute(heap: HeapView, rooted: usize, written: usize)
    requires
        rooted < heap.objects.len(),
        written < heap.objects.len(),
    ensures
        heap.rooted(rooted).writing(written) == heap.writing(written).rooted(rooted),
        heap.rooted(rooted).write_done(written) == heap.write_done(written).rooted(rooted),
        heap.unrooted(rooted).writing(written) == heap.writing(written).unrooted(rooted),
        heap.unrooted(rooted).write_done(written) == heap.write_done(written).unrooted(rooted),
{
    assert(heap.rooted(rooted).writing(written) =~= heap.writing(written).rooted(rooted));
    assert(heap.rooted(rooted).write_done(written) =~= heap.write_done(written).rooted(rooted));
    assert(heap.unrooted(rooted).writing(written) =~= heap.writing(written).unrooted(rooted));
    assert(heap.unrooted(rooted).write_done(written) =~= heap.write_done(written).unrooted(rooted));
}

/// Tracing does not meddle with reads or with guards that are given back: it makes no difference
/// which comes first.
pub proof fn law_traces_and_reads_commute(heap: HeapView, traced: usize, read: usize)
    requires
        traced < heap.objects.len(),
        read < heap.objects.len(),
    ensures
        heap.traced(traced).reading(read) == heap.reading(read).traced(traced),
        heap.traced(traced).read_done(read) == heap.read_done(read).traced(traced),
        heap.traced(traced).write_done(read) == heap.write_done(read).traced(traced),
{
    assert(heap.traced(traced).reading(read) =~= heap.reading(read).traced(traced));
    assert(heap.traced(traced).read_done(read) =~= heap.read_done(read).traced(traced));
    assert(heap.traced(traced).write_done(read) =~= heap.write_done(read).traced(traced));
}

/// Where nothing was done but to trace some objects, roots and guards are as they were, and a color
/// is as it was or was white or light-gray and is now dark-gray.  The primary part of the gray
/// queue got longer in front, and nothing else changed.
pub proof fn law_tracing_changes_colors_alone(heap: HeapView, after: HeapView, index: int)
    requires
        heap.only_traced(after),
        0 <= index < heap.objects.len(),
    ensures
        after.objects.len() == heap.objects.len(),
        after.objects[index].roots == heap.objects[index].roots,
        after.objects[index].borrows == heap.objects[index].borrows,
        after.objects[index].color != heap.objects[index].color ==> {
            &&& after.objects[index].color is DarkGray
            &&& !(heap.objects[index].color is Black)
        },
        after.primary.len() >= heap.primary.len(),
        after.primary.skip(after.primary.len() - heap.primary.len()) == heap.primary,
        after == (HeapView { objects: after.objects, primary: after.primary, ..heap }),
{
    assert(after.primary.skip(after.primary.len() - heap.primary.len()) =~= heap.primary);
}

/// Objects are all reached exactly when none of them is white or light-gray.
pub proof fn law_all_reached_means_each(heap: HeapView, places: Set<Place>)
    ensures
        heap.all_reached(places) <==> forall|place: Place| #[trigger]
            places.contains(place) ==> heap.objects[place.index as int].color is DarkGray
                || heap.objects[place.index as int].color is Black,
{
}

/// A leaf owns no pointers.
pub proof fn law_leaf_owns_nothing<T: GcLeaf>(leaf: T, place: Place)
    ensures
        !leaf.owned().contains(place),
{
}

/// Every gray object is in exactly one part of the gray queue, every other object in none, and the
/// queue holds nothing but objects.
pub proof fn law_gray_objects_are_in_one_part(heap: HeapView, index: usize)
    requires
        heap.inv(),
    ensures
        index < heap.objects.len() ==> {
            (heap.primary.contains(index) || heap.secondary.contains(index)) <==> {
                ||| heap.objects[index as int].color is LightGray
                ||| heap.objects[index as int].color is DarkGray
            }
        },
        index >= heap.objects.len() ==> !heap.primary.contains(index)
            && !heap.secondary.contains(index),
        !(heap.primary.contains(index) && heap.secondary.contains(index)),
        heap.primary.no_duplicates(),
        heap.secondary.no_duplicates(),
{
    assert(heap.queued(index) == (heap.primary.contains(index) || heap.secondary.contains(index)));
}

/// New objects are white.
pub proof fn law_current_white_is_white(heap: HeapView)
    requires
        heap.inv(),
    ensures
        heap.current_white is White1 || heap.current_white is White2,
{
}

/// A new store has no values, and belongs to its heap.
pub proof fn law_new_store_is_empty<T>(context: usize, place: Place)
    ensures
        StoreView::<T>::empty(context).context == context,
        !StoreView::<T>::empty(context).has(place),
        StoreView::<T>::empty(context).values.dom() == Set::<usize>::empty(),
{
    assert(StoreView::<T>::empty(context).values.dom() =~= Set::<usize>::empty());
}

/// A store has the value of an object exactly when it is one of the heap of the object and has a
/// value in its place.
pub proof fn law_store_has_by_place<T>(store: StoreView<T>, place: Place)
    ensures
        store.has(place) <==> store.context == place.context && store.values.dom().contains(
            place.index,
        ),
        store.at(place) == store.values[place.index],
{
}

/// A value that is put in a store is the one that comes out of its place.  The other values, and
/// the heap that the store is for, stay.
pub proof fn law_store_gives_back_what_was_put_in<T>(
    store: StoreView<T>,
    index: usize,
    value: T,
    other: usize,
)
    ensures
        store.with(index, value).context == store.context,
        store.with(index, value).values.dom().contains(index),
        store.with(index, value).values[index] == value,
        other != index ==> store.with(index, value).values.dom().contains(other)
            == store.values.dom().contains(other),
        other != index && store.values.dom().contains(other) ==> store.with(
            index,
            value,
        ).values[other] == store.values[other],
{
}

/// A store is one of a heap exactly when it carries its identity and has values of its objects
/// alone.
pub proof fn law_store_is_one_of_a_heap<T>(store: StoreView<T>, heap: HeapView)
    ensures
        store.of(heap) <==> store.context == heap.identity && forall|index: usize| #[trigger]
            store.values.dom().contains(index) ==> index < heap.objects.len(),
{
    assert(forall|index: usize| #[trigger]
        store.values.dom().contains(index) == store.values.contains_key(index));
}

/// Pointers are equal exactly when they lead to the same object of the same heap.
pub proof fn law_pointers_are_equal_by_place<T>(one: Gc<T>, other: Gc<T>)
    ensures
        Gc::<T>::obeys_eq_spec(),
        one.eq_spec(&other) <==> one@ == other@,
        one.eq_spec(&other) <==> one@.context == other@.context && one@.index == other@.index,
{
}

/// Rooted pointers are equal exactly when they lead to the same object of the same heap.
pub proof fn law_rooted_pointers_are_equal_by_place<T>(one: Rgc<T>, other: Rgc<T>)
    ensures
        Rgc::<T>::obeys_eq_spec(),
        one.eq_spec(&other) <==> one@ == other@,
        one.eq_spec(&other) <==> one@.context == other@.context && one@.index == other@.index,
{
}

/// Equality of pointers is an equivalence.
pub proof fn law_equality_of_pointers_is_an_equivalence<T>(
    one: Gc<T>,
    other: Gc<T>,
    third: Gc<T>,
)
    ensures
        one.eq_spec(&one),
        one.eq_spec(&other) == other.eq_spec(&one),
        one.eq_spec(&other) && other.eq_spec(&third) ==> one.eq_spec(&third),
{
}

/// Equality of rooted pointers is an equivalence.
pub proof fn law_equality_of_rooted_pointers_is_an_equivalence<T>(
    one: Rgc<T>,
    other: Rgc<T>,
    third: Rgc<T>,
)
    ensures
        one.eq_spec(&one),
        one.eq_spec(&other) == other.eq_spec(&one),
        one.eq_spec(&other) && other.eq_spec(&third) ==> one.eq_spec(&third),
{
}

/// A rooted pointer is good in a heap exactly when it leads to an object of the heap that has a
/// root.
pub proof fn law_rooted_pointer_leads_to_a_rooted_object<T>(rooted: Rgc<T>, context: GcContext)
    ensures
        rooted.rooted_in(context) <==> {
            &&& rooted@.context == context@.identity
            &&& rooted@.index < context@.objects.len()
            &&& context@.objects[rooted@.index as int].roots > 0
        },
{
}

/// The bytes of boxes are those of each box, added up.
pub proof fn law_bytes_add_up(sizes: Seq<nat>, more: Seq<nat>, size: nat)
    ensures
        crate::model::sum(seq![]) == 0,
        crate::model::sum(seq![size]) == size,
        crate::model::sum(sizes + more) == crate::model::sum(sizes) + crate::model::sum(more),
    decreases more.len(),
{
    assert(seq![size].drop_last() =~= seq![]);
    reveal_with_fuel(crate::model::sum, 2);
    if more.len() == 0 {
        assert(sizes + more =~= sizes);
    } else {
        assert((sizes + more).drop_last() =~= sizes + more.drop_last());
        law_bytes_add_up(sizes, more.drop_last(), size);
    }
}

/// A box takes the bytes of its header and its value together.
pub proof fn law_box_takes_its_bytes<T>()
    ensures
        crate::heap::box_size::<T>() == vstd::layout::size_of::<GcBox<T>>() as usize,
{
}

/// The element of a list at a number is there exactly when the list is longer than the number.
pub proof fn law_element_of_a_list(list: Seq<usize>, k: int)
    ensures
        0 <= k < list.len() ==> crate::heap::nth(list, k) == Some(list[k]),
        k < 0 || k >= list.len() ==> crate::heap::nth(list, k) is None,
{
}

/// A header that is turned has the new color and link; its guards, its place in the list of all
/// boxes and the upper bits of its flags are as they were.
pub proof fn law_turned_header_keeps_the_rest(
    before: GcBoxHeader,
    after: GcBoxHeader,
    color: GcColor,
    next: Option<usize>,
)
    requires
        before.turned(after, color, next),
    ensures
        after.flags.valid(),
        after.flags@ == color,
        after.flags.upper() == before.flags.upper(),
        after.borrow_state == before.borrow_state,
        after.next_all == before.next_all,
        after.gray_link == GrayLink::Next(next),
{
}

} // verus!
