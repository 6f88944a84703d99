//! What the operations of a heap keep, undo and leave alone.
use vstd::prelude::*;

use crate::borrow_state::BorrowMode;
use crate::flags::GcColor;
use crate::heap::GcObject;
use crate::model::{HeapView, ObjectView, Place, StoreView};

verus! {

/// The gray queue holds every light-gray or dark-gray object, and no white or black one.
pub proof fn law_gray_queue_holds_the_gray_objects(heap: HeapView, index: usize)
    requires
        heap.inv(),
        index < heap.objects.len(),
    ensures
        (heap.primary + heap.secondary).contains(index)
            <==> heap.objects[index as int].color.gray(),
        heap.objects[index as int].color.white() || heap.objects[index as int].color
            == GcColor::Black ==> !(heap.primary + heap.secondary).contains(index),
{
    lemma_both_parts(heap, index);
    assert(heap.queued(index) <==> heap.objects[index as int].color.gray());
}

/// No object is in the gray queue twice.
pub proof fn law_gray_queue_holds_an_object_once(heap: HeapView)
    requires
        heap.inv(),
    ensures
        (heap.primary + heap.secondary).no_duplicates(),
{
    let queue = heap.primary + heap.secondary;
    assert forall|j: int, k: int| 0 <= j < k < queue.len() implies queue[j] != queue[k] by {
        if j < heap.primary.len() {
            assert(heap.primary.contains(queue[j]));
        }
        if k >= heap.primary.len() {
            assert(heap.secondary.contains(queue[k]));
        }
    }
}

proof fn lemma_both_parts(heap: HeapView, index: usize)
    ensures
        (heap.primary + heap.secondary).contains(index) <==> heap.queued(index),
{
    let queue = heap.primary + heap.secondary;
    if heap.primary.contains(index) {
        let k = choose|k: int| 0 <= k < heap.primary.len() && heap.primary[k] == index;
        assert(queue[k] == index);
    }
    if heap.secondary.contains(index) {
        let k = choose|k: int| 0 <= k < heap.secondary.len() && heap.secondary[k] == index;
        assert(queue[k + heap.primary.len()] == index);
    }
    if queue.contains(index) {
        let k = choose|k: int| 0 <= k < queue.len() && queue[k] == index;
        if k < heap.primary.len() {
            assert(heap.primary[k] == index);
        } else {
            assert(heap.secondary[k - heap.primary.len()] == index);
        }
    }
}

/// White objects are un-rooted.
pub proof fn law_white_objects_are_unrooted(heap: HeapView, index: usize)
    requires
        heap.inv(),
        index < heap.objects.len(),
        heap.objects[index as int].color.white(),
    ensures
        heap.objects[index as int].roots == 0,
{
}

/// An allocation makes a new object and leaves the others, their places and the gray queue alone.
pub proof fn law_allocation_leaves_the_others_alone(heap: HeapView, size: nat, index: usize)
    requires
        index < heap.objects.len(),
    ensures
        heap.allocated(size).objects[index as int] == heap.objects[index as int],
        heap.allocated(size).objects.len() == heap.objects.len() + 1,
        heap.allocated(size).primary == heap.primary,
        heap.allocated(size).secondary == heap.secondary,
{
}

/// A rooted allocation makes a light-gray object with one root and no guard, first in the
/// secondary part of the gray queue.
pub proof fn law_allocated_root(heap: HeapView, size: nat)
    requires
        heap.inv(),
    ensures
        ({
            let index = heap.objects.len() as usize;
            let after = heap.allocated(size).rooted(index);
            &&& after.objects[index as int] == ObjectView {
                color: GcColor::LightGray,
                roots: 1,
                borrows: 0,
            }
            &&& after.secondary == seq![index] + heap.secondary
            &&& after.primary == heap.primary
        }),
{
}

/// A read gives back what a write wrote, once the write guard was given back; the write leaves the
/// object as free to borrow as it was, and changes no other object and no other value.
pub proof fn law_read_gives_back_what_write_wrote<T>(
    heap: HeapView,
    store: StoreView<T>,
    written: Place,
    value: T,
    other: Place,
)
    requires
        heap.has(written),
        store.has(written),
        heap.at(written).writable(),
        heap.has(other),
        other != written,
    ensures
        ({
            let heap_after = heap.writing(written.index).write_done(written.index);
            let store_after = store.with(written.index, value);
            &&& heap_after.at(written).writable()
            &&& store_after.has(written)
            &&& store_after.at(written) == value
            &&& heap_after.at(other) == heap.at(other)
            &&& store_after.has(other) == store.has(other)
            &&& store.has(other) ==> store_after.at(other) == store.at(other)
        }),
{
}

/// While a write guard is out, an object can neither be read nor be written.
pub proof fn law_writing_excludes_guards(heap: HeapView, index: usize)
    requires
        index < heap.objects.len(),
    ensures
        heap.writing(index).objects[index as int].mode() == BorrowMode::Writing,
        !heap.writing(index).objects[index as int].readable(),
        !heap.writing(index).objects[index as int].writable(),
{
}

/// While a read guard is out, an object can be read but not be written, as long as the counter of
/// read guards stays below the largest machine word, which stands for a write guard.
pub proof fn law_reading_excludes_writing(heap: HeapView, index: usize)
    requires
        index < heap.objects.len(),
        heap.objects[index as int].borrows + 1 < usize::MAX,
    ensures
        heap.reading(index).objects[index as int].mode() == BorrowMode::Reading,
        heap.reading(index).objects[index as int].readable(),
        !heap.reading(index).objects[index as int].writable(),
{
}

/// The heap after `count` reads of an object.
pub open spec fn readings(heap: HeapView, index: usize, count: nat) -> HeapView
    decreases count,
{
    if count == 0 {
        heap
    } else {
        readings(heap, index, (count - 1) as nat).reading(index)
    }
}

/// The heap after `count` read guards on an object were given back.
pub open spec fn reads_done(heap: HeapView, index: usize, count: nat) -> HeapView
    decreases count,
{
    if count == 0 {
        heap
    } else {
        reads_done(heap.read_done(index), index, (count - 1) as nat)
    }
}

/// An object that is not being written can be read any number of times at once, as long as the
/// counter of read guards stays below the largest machine word.  Read guards that are given back
/// leave the heap as it was before them.
pub proof fn law_read_guards_given_back(heap: HeapView, index: usize, count: nat)
    requires
        index < heap.objects.len(),
        heap.objects[index as int].borrows + count < usize::MAX,
    ensures
        readings(heap, index, count).objects[index as int].mode() == if count == 0 {
            heap.objects[index as int].mode()
        } else {
            BorrowMode::Reading
        },
        reads_done(readings(heap, index, count), index, count) == heap,
    decreases count,
{
    lemma_readings(heap, index, count);
    if count > 0 {
        let fewer = readings(heap, index, (count - 1) as nat);
        lemma_readings(heap, index, (count - 1) as nat);
        assert(fewer.reading(index).read_done(index) =~= fewer);
        law_read_guards_given_back(heap, index, (count - 1) as nat);
    }
}

proof fn lemma_readings(heap: HeapView, index: usize, count: nat)
    requires
        index < heap.objects.len(),
    ensures
        readings(heap, index, count).objects.len() == heap.objects.len(),
        readings(heap, index, count).objects[index as int].borrows
            == heap.objects[index as int].borrows + count,
    decreases count,
{
    if count > 0 {
        lemma_readings(heap, index, (count - 1) as nat);
    }
}

/// A write guard that is given back leaves of its borrow the write barrier alone.
pub proof fn law_write_guard_given_back(heap: HeapView, index: usize)
    requires
        index < heap.objects.len(),
        heap.objects[index as int].writable(),
    ensures
        heap.writing(index).write_done(index) == heap.barred(index),
{
    assert(heap.writing(index).write_done(index) =~= heap.barred(index));
}

/// A rooted object is not white, and a root that is given up leaves the root count as it was.
pub proof fn law_root_given_up(heap: HeapView, index: usize)
    requires
        index < heap.objects.len(),
    ensures
        !heap.rooted(index).objects[index as int].color.white(),
        heap.rooted(index).objects[index as int].roots > 0,
        heap.rooted(index).unrooted(index).objects[index as int].roots
            == heap.objects[index as int].roots,
        !heap.objects[index as int].color.white() ==> heap.rooted(index).unrooted(index) == heap,
{
    if !heap.objects[index as int].color.white() {
        assert(heap.rooted(index).unrooted(index) =~= heap);
    }
}

/// An object enters the gray queue with its first root; another root on it changes its root count
/// alone.
pub proof fn law_second_root_only_counts(heap: HeapView, index: usize)
    requires
        index < heap.objects.len(),
    ensures
        heap.rooted(index).rooted(index) == heap.rooted(index).with(
            index,
            ObjectView {
                roots: heap.objects[index as int].roots + 2,
                ..heap.rooted(index).objects[index as int]
            },
        ),
{
}

/// A traced object is dark-gray or black, and to trace it again changes nothing.
pub proof fn law_traced_once_is_enough(heap: HeapView, index: usize)
    requires
        index < heap.objects.len(),
    ensures
        heap.traced(index).objects[index as int].color.reached(),
        heap.traced(index).traced(index) == heap.traced(index),
{
}

/// A rooted object that is traced turns dark-gray where it is in the gray queue.
pub proof fn law_trace_of_a_light_gray_object(heap: HeapView, index: usize)
    requires
        index < heap.objects.len(),
        heap.objects[index as int].color == GcColor::LightGray,
    ensures
        heap.traced(index).objects[index as int].color == GcColor::DarkGray,
        heap.traced(index).primary == heap.primary,
        heap.traced(index).secondary == heap.secondary,
{
}

/// The heap after the objects in the places `list` were traced in turn.
pub open spec fn traces(heap: HeapView, list: Seq<Place>) -> HeapView
    decreases list.len(),
{
    if list.len() == 0 {
        heap
    } else {
        traces(heap, list.drop_last()).traced(list.last().index)
    }
}

/// Objects that are traced in turn are all dark-gray or black in the end, and to trace them does
/// nothing else.  So an object that traces its pointers in turn does as `GcObject::trace` asks.
pub proof fn law_tracing_each_reaches_all(heap: HeapView, list: Seq<Place>)
    requires
        forall|k: int| 0 <= k < list.len() ==> heap.has(#[trigger] list[k]),
    ensures
        heap.only_traced(traces(heap, list)),
        traces(heap, list).all_reached(list.to_set()),
    decreases list.len(),
{
    if list.len() > 0 {
        let fewer = list.drop_last();
        let before = traces(heap, fewer);
        assert forall|k: int| 0 <= k < fewer.len() implies heap.has(#[trigger] fewer[k]) by {
            assert(fewer[k] == list[k]);
        }
        law_tracing_each_reaches_all(heap, fewer);
        assert(list.last() == list[list.len() - 1]);
        law_tracing_one_more(heap, before, list.last().index);
        assert forall|place: Place| #[trigger] list.to_set().contains(place) implies traces(
            heap,
            list,
        ).at(place).color.reached() by {
            let k = choose|k: int| 0 <= k < list.len() && list[k] == place;
            if k < fewer.len() {
                assert(fewer[k] == place);
                assert(fewer.to_set().contains(place));
            }
        }
    } else {
        law_tracing_nothing(heap);
    }
}

/// A heap to which nothing is done is one in which nothing was done but to trace some objects.
pub proof fn law_tracing_nothing(heap: HeapView)
    ensures
        heap.only_traced(heap),
{
    assert(heap.primary.subrange(0, heap.primary.len() as int) =~= heap.primary);
}

/// A heap in which nothing was done but to trace some objects is still such a heap when another
/// object is traced.
pub proof fn law_tracing_one_more(heap: HeapView, before: HeapView, index: usize)
    requires
        heap.only_traced(before),
        index < heap.objects.len(),
    ensures
        heap.only_traced(before.traced(index)),
{
    let after = before.traced(index);
    assert(before.primary.is_suffix_of(after.primary)) by {
        let more = after.primary.len() - before.primary.len();
        assert(after.primary.subrange(more, after.primary.len() as int) =~= before.primary);
    }
    assert(heap.primary.is_suffix_of(after.primary)) by {
        let more = after.primary.len() - heap.primary.len();
        assert(after.primary.subrange(more, after.primary.len() as int) =~= heap.primary);
    }
}

/// While the invariant is upheld, the sub-objects of a black object of the store are all dark-gray
/// or black.
pub open spec fn black_invariant<T: GcObject>(heap: HeapView, store: StoreView<T>) -> bool {
    heap.uphold_invariant ==> forall|index: usize, place: Place|
        store.values.contains_key(index) && heap.objects[index as int].color == GcColor::Black
            && #[trigger] store.values[index].owned().contains(place) ==> {
            &&& heap.has(place)
            &&& heap.at(place).color.reached()
        }
}

/// While the invariant is upheld, an object that is being written is not black.
pub open spec fn no_black_written(heap: HeapView) -> bool {
    heap.uphold_invariant ==> forall|index: int|
        0 <= index < heap.objects.len() && (#[trigger] heap.objects[index]).mode()
            == BorrowMode::Writing ==> heap.objects[index].color != GcColor::Black
}

/// Every operation keeps the black invariant of every store; an assignment keeps it because the
/// write barrier leaves no object black that is being written.
pub proof fn law_black_invariant_is_kept<T: GcObject>(
    heap: HeapView,
    store: StoreView<T>,
    index: usize,
    value: T,
    size: nat,
)
    requires
        heap.inv(),
        store.of(heap),
        index < heap.objects.len(),
        black_invariant(heap, store),
    ensures
        black_invariant(heap.allocated(size), store),
        black_invariant(heap.allocated(size), store.with(heap.next_place().index, value)),
        black_invariant(heap.rooted(index), store),
        black_invariant(heap.unrooted(index), store),
        black_invariant(heap.traced(index), store),
        black_invariant(heap.reading(index), store),
        black_invariant(heap.read_done(index), store),
        black_invariant(heap.writing(index), store),
        black_invariant(heap.writing(index), store.with(index, value)),
        no_black_written(heap) && heap.objects[index as int].mode() == BorrowMode::Writing
            ==> black_invariant(heap, store.with(index, value)),
        black_invariant(heap.write_done(index), store),
{
}

/// An object that traces its pointers keeps the black invariant.
pub proof fn law_black_invariant_is_kept_by_tracing<T: GcObject>(
    heap: HeapView,
    after: HeapView,
    store: StoreView<T>,
)
    requires
        store.of(heap),
        black_invariant(heap, store),
        heap.only_traced(after),
    ensures
        black_invariant(after, store),
{
}

/// Every operation keeps objects that are being written from being black.  A read does so as long
/// as the counter of read guards stays below the largest machine word.
pub proof fn law_no_black_object_is_written(heap: HeapView, index: usize, size: nat)
    requires
        heap.inv(),
        index < heap.objects.len(),
        no_black_written(heap),
    ensures
        no_black_written(heap.allocated(size)),
        no_black_written(heap.rooted(index)),
        no_black_written(heap.unrooted(index)),
        no_black_written(heap.traced(index)),
        heap.objects[index as int].borrows + 1 < usize::MAX ==> no_black_written(
            heap.reading(index),
        ),
        heap.objects[index as int].mode() == BorrowMode::Reading ==> no_black_written(
            heap.read_done(index),
        ),
        no_black_written(heap.writing(index)),
        no_black_written(heap.write_done(index)),
{
}

/// An object that is dark-gray or black stays so, whatever is done to it or to another object.
pub proof fn law_reached_objects_stay_reached(
    heap: HeapView,
    reached: usize,
    index: usize,
    size: nat,
)
    requires
        reached < heap.objects.len(),
        index < heap.objects.len(),
        heap.objects[reached as int].color.reached(),
    ensures
        heap.allocated(size).objects[reached as int].color.reached(),
        heap.rooted(index).objects[reached as int].color.reached(),
        heap.unrooted(index).objects[reached as int].color.reached(),
        heap.traced(index).objects[reached as int].color.reached(),
        heap.reading(index).objects[reached as int].color.reached(),
        heap.read_done(index).objects[reached as int].color.reached(),
        heap.writing(index).objects[reached as int].color.reached(),
        heap.write_done(index).objects[reached as int].color.reached(),
{
}

/// While the invariant is upheld, an object that is being written is not black: if it was, it is
/// first in the primary part of the gray queue.
pub proof fn law_write_barrier(heap: HeapView, index: usize)
    requires
        index < heap.objects.len(),
        heap.uphold_invariant,
    ensures
        heap.writing(index).objects[index as int].color != GcColor::Black,
        heap.objects[index as int].color == GcColor::Black ==> heap.writing(index).primary
            == seq![index] + heap.primary,
{
}

/// The write barrier leaves an object alone that is not black, and every object while the
/// invariant is not upheld.
pub proof fn law_no_write_barrier(heap: HeapView, index: usize)
    requires
        index < heap.objects.len(),
        heap.objects[index as int].color != GcColor::Black || !heap.uphold_invariant,
    ensures
        heap.barred(index) == heap,
{
}

/// An allocation changes no value that was there before; an assignment changes the value of its
/// object alone.
pub proof fn law_values_change_by_assignment<T>(
    heap: HeapView,
    store: StoreView<T>,
    watched: Place,
    assigned: Place,
    value: T,
)
    requires
        heap.inv(),
        store.of(heap),
        store.has(watched),
        store.has(assigned),
    ensures
        store.with(heap.next_place().index, value).at(watched) == store.at(watched),
        store.with(assigned.index, value).at(watched) == if watched == assigned {
            value
        } else {
            store.at(watched)
        },
{
}

/// A new store is one of its heap, and what is done to the heap or to a value keeps a store one of
/// its heap.
pub proof fn law_stores_stay_with_their_heap<T>(
    heap: HeapView,
    store: StoreView<T>,
    index: usize,
    assigned: Place,
    value: T,
    size: nat,
)
    requires
        heap.inv(),
        store.of(heap),
        index < heap.objects.len(),
        store.has(assigned),
    ensures
        StoreView::<T>::empty(heap.identity).of(heap),
        store.of(heap.allocated(size)),
        store.with(heap.next_place().index, value).of(heap.allocated(size)),
        store.of(heap.rooted(index)),
        store.of(heap.unrooted(index)),
        store.of(heap.traced(index)),
        store.of(heap.reading(index)),
        store.of(heap.read_done(index)),
        store.of(heap.writing(index)),
        store.of(heap.write_done(index)),
        store.with(assigned.index, value).of(heap),
{
}

/// An operation on one object leaves every other object alone.
pub proof fn law_operations_touch_one_object(heap: HeapView, index: usize, other: usize)
    requires
        index < heap.objects.len(),
        other < heap.objects.len(),
        other != index,
    ensures
        heap.rooted(index).objects[other as int] == heap.objects[other as int],
        heap.unrooted(index).objects[other as int] == heap.objects[other as int],
        heap.traced(index).objects[other as int] == heap.objects[other as int],
        heap.reading(index).objects[other as int] == heap.objects[other as int],
        heap.read_done(index).objects[other as int] == heap.objects[other as int],
        heap.writing(index).objects[other as int] == heap.objects[other as int],
        heap.write_done(index).objects[other as int] == heap.objects[other as int],
{
}

/// The byte count is the sum of the sizes of the boxes, and an allocation adds a box of its size.
pub proof fn law_every_box_counts_with_its_size(heap: HeapView, size: nat)
    requires
        heap.inv(),
    ensures
        heap.sizes.len() == heap.objects.len(),
        heap.total_allocated == crate::model::sum(heap.sizes),
        heap.allocated(size).sizes == heap.sizes.push(size),
        heap.allocated(size).total_allocated == heap.total_allocated + size,
{
}

} // verus!
