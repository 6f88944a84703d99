//! What a heap is, and what each operation makes of it.
use vstd::prelude::*;

use crate::borrow_state::BorrowMode;
use crate::flags::GcColor;
use crate::heap::GcPhase;

verus! {

/// An object of the heap, without its value.
pub ghost struct ObjectView {
    /// The mark color.
    pub color: GcColor,
    /// The number of roots.
    pub roots: nat,
    /// The counter of the borrow state: zero, the number of read guards, or `usize::MAX` for a
    /// write guard.
    pub borrows: nat,
}

impl ObjectView {
    /// What the guards that are out on the object allow.
    pub open spec fn mode(self) -> BorrowMode {
        crate::borrow_state::mode_of(self.borrows)
    }

    /// The object can be read: it is not being written.
    pub open spec fn readable(self) -> bool {
        self.mode() != BorrowMode::Writing
    }

    /// The object can be written: it is neither being read nor being written.
    pub open spec fn writable(self) -> bool {
        self.mode() == BorrowMode::Unused
    }

    /// What holds of every object: if it is white, it is un-rooted, and its counters fit in a
    /// machine word.
    pub open spec fn inv(self) -> bool {
        &&& self.color.white() ==> self.roots == 0
        &&& self.roots <= usize::MAX
        &&& self.borrows <= usize::MAX
    }
}

/// Where an object is: its heap, and its place among the objects of that heap.
pub ghost struct Place {
    /// The identity of the heap.
    pub context: usize,
    /// The place in `HeapView::objects`.
    pub index: usize,
}

/// The bytes in boxes of these sizes.
pub open spec fn sum(sizes: Seq<nat>) -> nat
    decreases sizes.len(),
{
    if sizes.len() == 0 {
        0
    } else {
        sum(sizes.drop_last()) + sizes.last()
    }
}

/// A heap.  An object is known by its place in `objects`.
#[verifier::ext_equal]
pub ghost struct HeapView {
    /// The number that tells the heap from other heaps.
    pub identity: usize,
    /// The objects, in the order of their allocation.
    pub objects: Seq<ObjectView>,
    /// The bytes in the box of each object.
    pub sizes: Seq<nat>,
    /// The list of all objects.
    pub all: Seq<usize>,
    /// The primary part of the gray queue.
    pub primary: Seq<usize>,
    /// The secondary part of the gray queue.
    pub secondary: Seq<usize>,
    /// Whether a black object may have no white or light-gray sub-objects.
    pub uphold_invariant: bool,
    /// The bytes in all boxes.
    pub total_allocated: nat,
    /// What the collector is at.
    pub phase: GcPhase,
    /// The color of new objects.
    pub current_white: GcColor,
    /// Where the sweep phase is in the list of all objects.
    pub sweep_position: Option<usize>,
    /// The pause multiplier, as a binary64 bit pattern.
    pub pause_multiplier: u64,
    /// The timing multiplier, as a binary64 bit pattern.
    pub timing_multiplier: u64,
}

impl HeapView {
    /// A heap without objects, with the collector asleep.
    pub open spec fn empty(
        identity: usize,
        pause_multiplier: u64,
        timing_multiplier: u64,
    ) -> HeapView {
        HeapView {
            identity,
            objects: Seq::empty(),
            sizes: Seq::empty(),
            all: Seq::empty(),
            primary: Seq::empty(),
            secondary: Seq::empty(),
            uphold_invariant: false,
            total_allocated: 0,
            phase: GcPhase::Sleeping,
            current_white: GcColor::White1,
            sweep_position: None,
            pause_multiplier,
            timing_multiplier,
        }
    }

    /// There is an object of this heap in the place.
    pub open spec fn has(self, place: Place) -> bool {
        place.context == self.identity && place.index < self.objects.len()
    }

    /// The object in a place of this heap.
    pub open spec fn at(self, place: Place) -> ObjectView {
        self.objects[place.index as int]
    }

    /// Where the next object will be.
    pub open spec fn next_place(self) -> Place {
        Place { context: self.identity, index: self.objects.len() as usize }
    }

    /// The object is in the gray queue.
    pub open spec fn queued(self, index: usize) -> bool {
        self.primary.contains(index) || self.secondary.contains(index)
    }

    /// What holds of every heap.
    pub open spec fn inv(self) -> bool {
        &&& crate::multiplier::one_or_more(self.pause_multiplier)
        &&& crate::multiplier::zero_or_more(self.timing_multiplier)
        &&& self.current_white.white()
        &&& self.objects.len() <= usize::MAX
        // Every box counts with its size.
        &&& self.sizes.len() == self.objects.len()
        &&& self.total_allocated == sum(self.sizes)
        // The list of all objects holds each of them once, the newest first.
        &&& forall|j: int, k: int| 0 <= j < k < self.all.len() ==> self.all[j] > self.all[k]
        &&& forall|index: usize| self.all.contains(index) <==> index < self.objects.len()
        // The gray queue holds the gray objects, each of them once.
        &&& self.primary.no_duplicates()
        &&& self.secondary.no_duplicates()
        &&& forall|index: usize|
            !(self.primary.contains(index) && self.secondary.contains(index))
        &&& forall|index: usize| #[trigger]
            self.queued(index) <==> index < self.objects.len()
                && self.objects[index as int].color.gray()
        &&& forall|index: int|
            0 <= index < self.objects.len() ==> (#[trigger] self.objects[index]).inv()
    }

    /// The heap with another object in the place `index`.
    pub open spec fn with(self, index: usize, object: ObjectView) -> HeapView {
        HeapView { objects: self.objects.update(index as int, object), ..self }
    }

    /// The heap after an allocation of so many bytes: a new object that is white, un-rooted and not
    /// borrowed, in front of the list of all objects.
    pub open spec fn allocated(self, size: nat) -> HeapView {
        HeapView {
            objects: self.objects.push(
                ObjectView { color: self.current_white, roots: 0, borrows: 0 },
            ),
            sizes: self.sizes.push(size),
            all: seq![self.objects.len() as usize] + self.all,
            total_allocated: self.total_allocated + size,
            ..self
        }
    }

    /// The heap with one more root on an object.  A white object turns light-gray and enters the
    /// secondary part of the gray queue in front.
    pub open spec fn rooted(self, index: usize) -> HeapView {
        let object = self.objects[index as int];
        if object.color.white() {
            HeapView { secondary: seq![index] + self.secondary, ..self }.with(
                index,
                ObjectView { color: GcColor::LightGray, roots: object.roots + 1, ..object },
            )
        } else {
            self.with(index, ObjectView { roots: object.roots + 1, ..object })
        }
    }

    /// The heap with one root less on an object, which keeps its color.
    pub open spec fn unrooted(self, index: usize) -> HeapView {
        let object = self.objects[index as int];
        self.with(index, ObjectView { roots: (object.roots - 1) as nat, ..object })
    }

    /// The heap with an object turned dark-gray and put in front of the primary part of the gray
    /// queue.
    pub open spec fn darkened(self, index: usize) -> HeapView {
        HeapView { primary: seq![index] + self.primary, ..self }.with(
            index,
            ObjectView { color: GcColor::DarkGray, ..self.objects[index as int] },
        )
    }

    /// The heap after an object was traced.  A white object is darkened, a light-gray one turns
    /// dark-gray where it is in the queue, and the others are reached already.
    pub open spec fn traced(self, index: usize) -> HeapView {
        let object = self.objects[index as int];
        if object.color.white() {
            self.darkened(index)
        } else if object.color == GcColor::LightGray {
            self.with(index, ObjectView { color: GcColor::DarkGray, ..object })
        } else {
            self
        }
    }

    /// `after` is this heap with some objects traced, and nothing else done.
    pub open spec fn only_traced(self, after: HeapView) -> bool {
        &&& after == (HeapView { objects: after.objects, primary: after.primary, ..self })
        &&& after.objects.len() == self.objects.len()
        &&& forall|index: int|
            0 <= index < self.objects.len() ==> {
                ||| #[trigger] after.objects[index] == self.objects[index]
                ||| !self.objects[index].color.reached() && after.objects[index] == ObjectView {
                    color: GcColor::DarkGray,
                    ..self.objects[index]
                }
            }
        &&& self.primary.is_suffix_of(after.primary)
    }

    /// The objects in the places are all dark-gray or black.
    pub open spec fn all_reached(self, places: Set<Place>) -> bool {
        forall|place: Place| #[trigger] places.contains(place) ==> self.at(place).color.reached()
    }

    /// The heap after the write barrier: while the invariant is upheld, a black object is
    /// darkened.
    pub open spec fn barred(self, index: usize) -> HeapView {
        if self.objects[index as int].color == GcColor::Black && self.uphold_invariant {
            self.darkened(index)
        } else {
            self
        }
    }

    /// The heap with one more read guard on an object.
    pub open spec fn reading(self, index: usize) -> HeapView {
        let object = self.objects[index as int];
        self.with(index, ObjectView { borrows: object.borrows + 1, ..object })
    }

    /// The heap with one read guard less on an object.
    pub open spec fn read_done(self, index: usize) -> HeapView {
        let object = self.objects[index as int];
        self.with(index, ObjectView { borrows: (object.borrows - 1) as nat, ..object })
    }

    /// The heap with a write guard on an object, after the write barrier.
    pub open spec fn writing(self, index: usize) -> HeapView {
        let barred = self.barred(index);
        barred.with(
            index,
            ObjectView { borrows: usize::MAX as nat, ..barred.objects[index as int] },
        )
    }

    /// The heap with no guard on an object.
    pub open spec fn write_done(self, index: usize) -> HeapView {
        self.with(index, ObjectView { borrows: 0, ..self.objects[index as int] })
    }

    /// The list of all objects runs from the newest to the oldest and leaves none out.
    pub proof fn lemma_all_is_newest_first(self)
        requires
            self.inv(),
        ensures
            self.all.len() == self.objects.len(),
            forall|k: int|
                0 <= k < self.all.len() ==> #[trigger] self.all[k] == self.objects.len() - 1 - k,
    {
        lemma_descending(self.all, self.objects.len() as int);
    }

    /// An allocation keeps the invariant.
    pub proof fn lemma_allocated_inv(self, size: nat)
        requires
            self.inv(),
            self.objects.len() < usize::MAX,
        ensures
            self.allocated(size).inv(),
    {
        let after = self.allocated(size);
        let count = self.objects.len();
        assert(after.sizes.drop_last() =~= self.sizes);
        lemma_in_front(count as usize, self.all);
        assert forall|j: int, k: int| 0 <= j < k < after.all.len() implies after.all[j]
            > after.all[k] by {
            assert(self.all[k - 1] == after.all[k]);
            assert(self.all.contains(self.all[k - 1]));
        }
        assert forall|index: usize| #[trigger] after.queued(index) <==> index
            < after.objects.len() && after.objects[index as int].color.gray() by {
            assert(after.queued(index) == self.queued(index));
        }
    }

    /// A change of an object that keeps its color keeps the invariant.
    pub proof fn lemma_with_inv(self, index: usize, object: ObjectView)
        requires
            self.inv(),
            index < self.objects.len(),
            object.color.gray() == self.objects[index as int].color.gray(),
            object.inv(),
        ensures
            self.with(index, object).inv(),
    {
        let after = self.with(index, object);
        assert forall|other: usize| #[trigger] after.queued(other) <==> other
            < after.objects.len() && after.objects[other as int].color.gray() by {
            assert(after.queued(other) == self.queued(other));
        }
    }

    /// Rooting keeps the invariant.
    pub proof fn lemma_rooted_inv(self, index: usize)
        requires
            self.inv(),
            index < self.objects.len(),
            self.objects[index as int].roots < usize::MAX,
        ensures
            self.rooted(index).inv(),
    {
        let object = self.objects[index as int];
        let after = self.rooted(index);
        if object.color.white() {
            assert(!self.queued(index));
            lemma_in_front(index, self.secondary);
            assert forall|other: usize| #[trigger] after.queued(other) <==> other
                < after.objects.len() && after.objects[other as int].color.gray() by {
                assert(after.queued(other) == (self.queued(other) || other == index));
            }
        } else {
            self.lemma_with_inv(index, ObjectView { roots: object.roots + 1, ..object });
        }
    }

    /// Darkening an object that is not in the gray queue keeps the invariant.
    pub proof fn lemma_darkened_inv(self, index: usize)
        requires
            self.inv(),
            index < self.objects.len(),
            !self.objects[index as int].color.gray(),
        ensures
            self.darkened(index).inv(),
    {
        let after = self.darkened(index);
        assert(!self.queued(index));
        lemma_in_front(index, self.primary);
        assert forall|other: usize| #[trigger] after.queued(other) <==> other
            < after.objects.len() && after.objects[other as int].color.gray() by {
            assert(after.queued(other) == (self.queued(other) || other == index));
        }
    }
}

/// The values of the objects of one type, of one heap.
#[verifier::ext_equal]
pub ghost struct StoreView<T> {
    /// The identity of the heap.
    pub context: usize,
    /// The values, each by the place of its object in `HeapView::objects`.
    pub values: Map<usize, T>,
}

impl<T> StoreView<T> {
    /// A store without values.
    pub open spec fn empty(context: usize) -> StoreView<T> {
        StoreView { context, values: Map::empty() }
    }

    /// The value of the object in the place is in this store.
    pub open spec fn has(self, place: Place) -> bool {
        place.context == self.context && self.values.contains_key(place.index)
    }

    /// The value of the object in a place.
    pub open spec fn at(self, place: Place) -> T {
        self.values[place.index]
    }

    /// The store with a value in the place `index`.
    pub open spec fn with(self, index: usize, value: T) -> StoreView<T> {
        StoreView { values: self.values.insert(index, value), ..self }
    }

    /// The store is one of this heap.
    pub open spec fn of(self, heap: HeapView) -> bool {
        &&& self.context == heap.identity
        &&& forall|index: usize| #[trigger]
            self.values.contains_key(index) ==> index < heap.objects.len()
    }
}

/// A descending list that holds exactly the numbers below a bound.
proof fn lemma_descending(list: Seq<usize>, bound: int)
    requires
        0 <= bound <= usize::MAX,
        forall|j: int, k: int| 0 <= j < k < list.len() ==> list[j] > list[k],
        forall|index: usize| list.contains(index) <==> index < bound,
    ensures
        list.len() == bound,
        forall|k: int| 0 <= k < list.len() ==> #[trigger] list[k] == bound - 1 - k,
    decreases bound,
{
    if bound == 0 {
        if list.len() > 0 {
            assert(list.contains(list[0]));
        }
    } else {
        let newest = (bound - 1) as usize;
        assert(list.contains(newest));
        let place = choose|k: int| 0 <= k < list.len() && list[k] == newest;
        assert(list.contains(list[0]));
        assert(place == 0);
        let rest = list.subrange(1, list.len() as int);
        assert forall|index: usize| rest.contains(index) <==> index < newest by {
            if rest.contains(index) {
                let k = choose|k: int| 0 <= k < rest.len() && rest[k] == index;
                assert(list[k + 1] == index);
            }
            if index < newest {
                assert(list.contains(index));
                let k = choose|k: int| 0 <= k < list.len() && list[k] == index;
                assert(rest[k - 1] == index);
            }
        }
        lemma_descending(rest, bound - 1);
        assert forall|k: int| 0 <= k < list.len() implies #[trigger] list[k] == bound - 1 - k by {
            if k > 0 {
                assert(rest[k - 1] == list[k]);
            }
        }
    }
}

/// What a list with a new element in front holds.
proof fn lemma_in_front(index: usize, list: Seq<usize>)
    ensures
        forall|other: usize| #[trigger]
            (seq![index] + list).contains(other) <==> other == index || list.contains(other),
        list.no_duplicates() && !list.contains(index) ==> (seq![index] + list).no_duplicates(),
{
    let after = seq![index] + list;
    assert forall|other: usize| #[trigger] after.contains(other) <==> other == index
        || list.contains(other) by {
        if list.contains(other) {
            let k = choose|k: int| 0 <= k < list.len() && list[k] == other;
            assert(after[k + 1] == other);
        }
        assert(after[0] == index);
        if after.contains(other) && other != index {
            let k = choose|k: int| 0 <= k < after.len() && after[k] == other;
            assert(list[k - 1] == other);
        }
    }
}

} // verus!
