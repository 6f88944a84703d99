//! The heap and the pointers into it.
use std::marker::PhantomData;
use std::mem::ManuallyDrop;
use std::ops::Deref;
use std::rc::Rc;

use vstd::prelude::*;

use crate::borrow_state::{BorrowMode, BorrowState};
use crate::flags::{GcColor, GcFlags};
use crate::gray_queue::{GcBoxHeader, GrayLink, GrayQueue};
use crate::held::held_mut;
use crate::model::{HeapView, ObjectView, Place};
use crate::multiplier::{ONE, ONE_AND_A_HALF};
use crate::root_count::RootCount;
use crate::store::GcStore;

verus! {

/// An object that can be garbage collected.  Tracing of an object will not occur until it is
/// itself allocated, so allocated `Gc` pointers must immediately be placed into an object which is
/// itself also held by a `Gc` or `Rgc` pointer.  An object must not change its held `Gc` pointers
/// without writing through the `GcContext`, so that any necessary write barrier is executed.
pub trait GcObject: Sized {
    /// Where the `Gc` pointers lead to that the object owns.  Every kind of object says so for
    /// itself; by default nothing is known of it, and so no `trace` can be proved to reach them.
    open spec fn owned(&self) -> Set<Place> {
        arbitrary()
    }

    /// Must trace through all owned `Gc` pointers, and every owned `Gc` pointer must be created
    /// from the same `GcContext` that holds this object.
    fn trace(&self, context: &mut GcContext)
        requires
            old(context).wf(),
            forall|place: Place| #[trigger]
                self.owned().contains(place) ==> old(context)@.has(place),
        ensures
            final(context).wf(),
            old(context)@.only_traced(final(context)@),
            final(context)@.all_reached(self.owned()),
    ;
}

/// An object that owns no `Gc` pointers, and so has nothing to trace.
pub trait GcLeaf: Sized {

}

impl<T: GcLeaf> GcObject for T {
    open spec fn owned(&self) -> Set<Place> {
        Set::empty()
    }

    fn trace(&self, context: &mut GcContext)
        ensures
            *final(context) == *old(context),
    {
    }
}

/// What the collector is at.
#[derive(Copy, Clone, Debug, Eq, PartialEq, Structural)]
pub enum GcPhase {
    /// Waits for the next collection.
    Sleeping,
    /// Processes the gray queue.
    Propagate,
    /// Finishes the mark phase.
    Atomic,
    /// Frees the white objects.
    Sweeping,
}

/// An object with its header.
pub struct GcBox<T> {
    header: GcBoxHeader,
    data: T,
}

/// The size of a box in bytes.
pub open spec fn box_size<T>() -> usize {
    vstd::layout::size_of::<GcBox<T>>() as usize
}

/// A garbage collected heap, whose objects may be of many types.  It holds what the collector needs
/// to know of each object; the values are beside it, in a `GcStore` for each type.  Nothing is
/// freed when a heap goes out of scope.
pub struct GcContext {
    // The address of `anchor`, which is never freed.
    identity: usize,
    anchor: ManuallyDrop<Box<u8>>,
    // The garbage collector will wait until the live size reaches <previous live size> *
    // pause_multiplier before beginning a new collection.  Must be >= 1.0, setting this to 1.0
    // causes the collector to run continuously.
    pause_multiplier: u64,
    // The garbage collector will try and finish a collection by the time <current live size> *
    // timing_multiplier additional bytes are allocated.  For example, if the collection is started
    // when the GcContext has 100KB live data, and the timing_multiplier is 1.0, the collector
    // should finish its final phase of this collection when another 100KB has been allocated.  Must
    // be >= 0.0, setting this to 0.0 causes the collector to behave like a stop-the-world mark and
    // sweep.
    timing_multiplier: u64,
    total_allocated: usize,
    phase: GcPhase,
    current_white: GcColor,
    // All garbage collected objects are kept in the all list.
    all: Option<usize>,
    gray_queue: GrayQueue,
    // During the sweep phase, the `all` list is scanned.  Black objects are turned white and white
    // objects are freed.
    sweep_position: Option<usize>,
    // The headers of the boxes; a box is named by its index.
    headers: ManuallyDrop<Vec<GcBoxHeader>>,
    // The sizes of the boxes.
    sizes: Ghost<Seq<nat>>,
    // The boxes that `all` and the two parts of `gray_queue` lead to, in order.
    all_list: Ghost<Seq<usize>>,
    primary_list: Ghost<Seq<usize>>,
    secondary_list: Ghost<Seq<usize>>,
}

/// `std::ptr::from_ref`: where a byte is in memory, the pointer taken as a number.  Nothing is
/// claimed of the number, which depends on the place of the byte and not on its value; that bytes
/// which exist at the same time are in different places is not stated.
#[verifier::external_body]
fn address(byte: &u8) -> (address: usize) {
    std::ptr::from_ref(byte).addr()
}

/// The element at `k` of a list, if there is one.
pub open spec fn nth(list: Seq<usize>, k: int) -> Option<usize> {
    if 0 <= k < list.len() {
        Some(list[k])
    } else {
        None
    }
}

spec fn object(b: GcBoxHeader) -> ObjectView {
    ObjectView {
        color: b.flags@,
        roots: b.root_count@ as nat,
        borrows: b.borrow_state@ as nat,
    }
}

/// `head` and the gray links lead through the boxes in `list`.
spec fn gray_linked(headers: Seq<GcBoxHeader>, head: Option<usize>, list: Seq<usize>) -> bool {
    &&& head == nth(list, 0)
    &&& forall|k: int|
        0 <= k < list.len() ==> headers[(#[trigger] list[k]) as int].gray_link
            == GrayLink::Next(nth(list, k + 1))
}

/// `head` and the links of the list of all boxes lead through the boxes in `list`.
spec fn all_linked(headers: Seq<GcBoxHeader>, head: Option<usize>, list: Seq<usize>) -> bool {
    &&& head == nth(list, 0)
    &&& forall|k: int|
        0 <= k < list.len() ==> headers[(#[trigger] list[k]) as int].next_all == nth(
            list,
            k + 1,
        )
}

/// The links of a list of all boxes that runs from the newest to the oldest.
proof fn lemma_newest_first(
    headers: Seq<GcBoxHeader>,
    head: Option<usize>,
    list: Seq<usize>,
    index: usize,
)
    requires
        all_linked(headers, head, list),
        index < list.len(),
        forall|k: int| 0 <= k < list.len() ==> #[trigger] list[k] == list.len() - 1 - k,
    ensures
        nth(list, 0) == Some((list.len() - 1) as usize),
        headers[index as int].next_all == if index == 0 {
            None
        } else {
            Some((index - 1) as usize)
        },
{
    let k = list.len() - 1 - index;
    assert(headers[list[k] as int].next_all == nth(list, k + 1));
}

impl View for GcContext {
    type V = HeapView;

    closed spec fn view(&self) -> HeapView {
        HeapView {
            identity: self.identity,
            objects: Seq::new(self.headers@@.len(), |k: int| object(self.headers@@[k])),
            sizes: self.sizes@,
            all: self.all_list@,
            primary: self.primary_list@,
            secondary: self.secondary_list@,
            uphold_invariant: self.gray_queue.uphold_invariant,
            total_allocated: self.total_allocated as nat,
            phase: self.phase,
            current_white: self.current_white,
            sweep_position: self.sweep_position,
            pause_multiplier: self.pause_multiplier,
            timing_multiplier: self.timing_multiplier,
        }
    }
}

impl GcContext {
    /// The links in the boxes are those of the lists, and the flag bytes hold colors and
    /// nothing else.
    pub closed spec fn linked(&self) -> bool {
        &&& all_linked(self.headers@@, self.all, self.all_list@)
        &&& gray_linked(self.headers@@, self.gray_queue.primary, self.primary_list@)
        &&& gray_linked(self.headers@@, self.gray_queue.secondary, self.secondary_list@)
        &&& forall|k: int|
            0 <= k < self.headers@@.len() ==> {
                &&& (#[trigger] self.headers@@[k]).flags.valid()
                &&& self.headers@@[k].flags.upper() == 0
                &&& self.headers@@[k].gray_link is Next <==> self.headers@@[k].flags@.gray()
            }
    }

    /// The header of the box at `index`.
    pub closed spec fn header_at(&self, index: usize) -> GcBoxHeader {
        self.headers@@[index as int]
    }

    /// What holds of every heap.
    pub open spec fn wf(&self) -> bool {
        self@.inv() && self.linked()
    }
}

impl GcContext {
    /// A heap without objects.  The multipliers are binary64 bit patterns.
    pub fn new(pause_multiplier: u64, timing_multiplier: u64) -> (context: GcContext)
        requires
            crate::multiplier::one_or_more(pause_multiplier),
            crate::multiplier::zero_or_more(timing_multiplier),
        ensures
            context.wf(),
            context@ == HeapView::empty(
                context@.identity,
                pause_multiplier,
                timing_multiplier,
            ),
    {
        let anchor: Box<u8> = Box::new(0);
        let context = GcContext {
            identity: address(&anchor),
            anchor: ManuallyDrop::new(anchor),
            pause_multiplier,
            timing_multiplier,
            total_allocated: 0,
            phase: GcPhase::Sleeping,
            current_white: GcColor::White1,
            all: None,
            gray_queue: GrayQueue::new(),
            sweep_position: None,
            headers: ManuallyDrop::new(Vec::new()),
            sizes: Ghost(Seq::empty()),
            all_list: Ghost(Seq::empty()),
            primary_list: Ghost(Seq::empty()),
            secondary_list: Ghost(Seq::empty()),
        };
        assert(context@ =~= HeapView::empty(
            context@.identity,
            pause_multiplier,
            timing_multiplier,
        ));
        context
    }

    /// Moves a value of type T into a `Gc<T>`.
    pub fn allocate<T: GcObject>(&mut self, store: &mut GcStore<T>, value: T) -> (gc: Gc<T>)
        requires
            old(self).wf(),
            old(self)@.total_allocated + box_size::<T>() <= usize::MAX,
            old(store)@.context == old(self)@.identity,
        ensures
            final(self).wf(),
            final(self)@ == old(self)@.allocated(box_size::<T>() as nat),
            final(store)@ == old(store)@.with(gc@.index, value),
            gc@ == old(self)@.next_place(),
    {
        self.do_work();

        let ghost before = *self;
        let index: usize = self.headers.deref().len();
        let gc_box = GcBox {
            header: GcBoxHeader {
                flags: GcFlags::new(self.current_white),
                root_count: RootCount::new(),
                borrow_state: BorrowState::new(),
                next_all: self.all,
                gray_link: GrayLink::Queue,
            },
            data: value,
        };
        held_mut(&mut self.headers).push(gc_box.header);
        store.insert(index, gc_box.data);
        self.all = Some(index);
        self.total_allocated = self.total_allocated + core::mem::size_of::<GcBox<T>>();
        proof {
            self.sizes@ = self.sizes@.push(box_size::<T>() as nat);
            self.all_list@ = seq![index] + self.all_list@;
            assert(self.headers@.len() == index + 1);
            before@.lemma_allocated_inv(box_size::<T>() as nat);
            before.lemma_box_pushed(*self, index);
        }

        Gc { context: self.identity, index, marker: PhantomData }
    }

    /// Allocates a rooted `Rgc<T>`.
    pub fn allocate_root<T: GcObject>(&mut self, store: &mut GcStore<T>, value: T) -> (rooted: Rgc<
        T,
    >)
        requires
            old(self).wf(),
            old(self)@.total_allocated + box_size::<T>() <= usize::MAX,
            old(store)@.context == old(self)@.identity,
        ensures
            final(self).wf(),
            final(self)@ == old(self)@.allocated(box_size::<T>() as nat).rooted(rooted@.index),
            final(store)@ == old(store)@.with(rooted@.index, value),
            rooted@ == old(self)@.next_place(),
    {
        self.allocate(store, value).root(self)
    }

    // The collector does no work between allocations yet.
    fn do_work(&mut self)
        ensures
            *final(self) == *old(self),
    {
    }
}

impl GcContext {
    /// The number that pointers and stores carry to tell this heap from others.
    pub(crate) fn identity(&self) -> (identity: usize)
        ensures
            identity == self@.identity,
    {
        self.identity
    }

    /// Whether the byte count has room for another box.
    pub fn has_room<T>(&self) -> (room: bool)
        ensures
            room == (self@.total_allocated + box_size::<T>() <= usize::MAX),
    {
        self.total_allocated <= usize::MAX - core::mem::size_of::<GcBox<T>>()
    }

    /// Whether a pointer leads to an object of this heap.
    pub fn contains<T>(&self, gc: &Gc<T>) -> (contained: bool)
        ensures
            contained == self@.has(gc@),
    {
        gc.context == self.identity && gc.index < self.headers.deref().len()
    }

    /// The header of an object.
    pub fn header<T>(&self, gc: &Gc<T>) -> (header: &GcBoxHeader)
        requires
            self.wf(),
            self@.has(gc@),
        ensures
            *header == self.header_at(gc@.index),
            header.flags.valid(),
            header.flags.upper() == 0,
            header.flags@ == self@.at(gc@).color,
            header.root_count@ == self@.at(gc@).roots,
            header.borrow_state@ == self@.at(gc@).borrows,
    {
        &self.headers.deref()[gc.index]
    }

    /// The gray queue.
    pub fn gray_queue(&self) -> (queue: &GrayQueue)
        requires
            self.wf(),
        ensures
            queue.uphold_invariant == self@.uphold_invariant,
            queue.primary == nth(self@.primary, 0),
            queue.secondary == nth(self@.secondary, 0),
            queue.primary is None <==> self@.primary.len() == 0,
            queue.secondary is None <==> self@.secondary.len() == 0,
            queue.primary is Some ==> queue.primary == Some(self@.primary.first()),
            queue.secondary is Some ==> queue.secondary == Some(self@.secondary.first()),
    {
        &self.gray_queue
    }
}

impl Default for GcContext {
    /// A heap without objects, with the pause multiplier 1.5 and the timing multiplier 1.0.
    fn default() -> (context: GcContext)
        ensures
            context.wf(),
            context@ == HeapView::empty(context@.identity, ONE_AND_A_HALF, ONE),
            context@.pause_multiplier == 0x3ff8_0000_0000_0000,
            context@.timing_multiplier == 0x3ff0_0000_0000_0000,
    {
        GcContext::new(ONE_AND_A_HALF, ONE)
    }
}

/// A pointer to an object of a heap.  It is used with the heap that it came from, whose identity it
/// carries.
#[derive(Debug)]
pub struct Gc<T> {
    context: usize,
    index: usize,
    marker: PhantomData<Rc<T>>,
}

/// A rooted pointer to an object of a heap.  The root lasts until it is given up with `drop`.
#[must_use]
#[derive(Debug)]
pub struct Rgc<T>(Gc<T>);

impl<T> View for Gc<T> {
    type V = Place;

    closed spec fn view(&self) -> Place {
        Place { context: self.context, index: self.index }
    }
}

impl<T> View for Rgc<T> {
    type V = Place;

    closed spec fn view(&self) -> Place {
        self.0@
    }
}

/// The links of a list lead through the same boxes when another box changes.
proof fn lemma_gray_links_kept(
    headers: Seq<GcBoxHeader>,
    index: usize,
    b: GcBoxHeader,
    head: Option<usize>,
    list: Seq<usize>,
)
    requires
        gray_linked(headers, head, list),
        index < headers.len(),
        forall|k: int| 0 <= k < list.len() ==> (#[trigger] list[k]) < headers.len(),
        list.contains(index) ==> b.gray_link == headers[index as int].gray_link,
    ensures
        gray_linked(headers.update(index as int, b), head, list),
{
    let after = headers.update(index as int, b);
    assert forall|k: int| 0 <= k < list.len() implies after[(
    #[trigger] list[k]) as int].gray_link == GrayLink::Next(nth(list, k + 1)) by {
        assert(list.contains(list[k]));
    }
}

/// A box that is not in a list and is linked to its head makes the list longer in front.
proof fn lemma_gray_link_in_front(
    headers: Seq<GcBoxHeader>,
    index: usize,
    b: GcBoxHeader,
    head: Option<usize>,
    list: Seq<usize>,
)
    requires
        gray_linked(headers, head, list),
        index < headers.len(),
        forall|k: int| 0 <= k < list.len() ==> (#[trigger] list[k]) < headers.len(),
        !list.contains(index),
        b.gray_link == GrayLink::Next(head),
    ensures
        gray_linked(headers.update(index as int, b), Some(index), seq![index] + list),
{
    let after = headers.update(index as int, b);
    let longer = seq![index] + list;
    lemma_gray_links_kept(headers, index, b, head, list);
    assert forall|k: int| 0 <= k < longer.len() implies after[(
    #[trigger] longer[k]) as int].gray_link == GrayLink::Next(nth(longer, k + 1)) by {
        if k > 0 {
            assert(longer[k] == list[k - 1]);
            assert(nth(longer, k + 1) == nth(list, k));
        } else {
            assert(nth(longer, 1) == nth(list, 0));
        }
    }
}

impl GcContext {
    /// The lists of a heap hold boxes of the heap.
    proof fn lemma_lists_in_range(self)
        requires
            self@.inv(),
        ensures
            forall|k: int|
                0 <= k < self.all_list@.len() ==> (#[trigger] self.all_list@[k])
                    < self.headers@@.len(),
            forall|k: int|
                0 <= k < self.primary_list@.len() ==> (#[trigger] self.primary_list@[k])
                    < self.headers@@.len(),
            forall|k: int|
                0 <= k < self.secondary_list@.len() ==> (#[trigger] self.secondary_list@[k])
                    < self.headers@@.len(),
    {
        assert forall|k: int| 0 <= k < self.all_list@.len() implies (#[trigger] self.all_list@[k])
            < self.headers@@.len() by {
            assert(self@.all.contains(self.all_list@[k]));
        }
        assert forall|k: int| 0 <= k < self.primary_list@.len() implies (
        #[trigger] self.primary_list@[k]) < self.headers@@.len() by {
            assert(self@.queued(self.primary_list@[k]));
        }
        assert forall|k: int| 0 <= k < self.secondary_list@.len() implies (
        #[trigger] self.secondary_list@[k]) < self.headers@@.len() by {
            assert(self@.queued(self.secondary_list@[k]));
        }
    }

    /// A new box that is in no part of the gray queue and is linked to the list of all boxes.
    proof fn lemma_box_pushed(self, after: GcContext, index: usize)
        requires
            self.wf(),
            index == self.headers@@.len(),
            after.headers@@ == self.headers@@.push(after.headers@@[index as int]),
            after == (GcContext {
                headers: after.headers,
                sizes: after.sizes,
                all: Some(index),
                all_list: after.all_list,
                total_allocated: after.total_allocated,
                ..self
            }),
            after.all_list@ == seq![index] + self.all_list@,
            after.headers@@[index as int].next_all == self.all,
            after.headers@@[index as int].gray_link == GrayLink::Queue,
            after.headers@@[index as int].flags.valid(),
            after.headers@@[index as int].flags.upper() == 0,
            !after.headers@@[index as int].flags@.gray(),
        ensures
            after.linked(),
            after@ == (HeapView {
                objects: self@.objects.push(object(after.headers@@[index as int])),
                sizes: after.sizes@,
                all: seq![index] + self@.all,
                total_allocated: after.total_allocated as nat,
                ..self@
            }),
    {
        self.lemma_lists_in_range();
        let longer = after.all_list@;
        assert forall|k: int| 0 <= k < longer.len() implies after.headers@@[(
        #[trigger] longer[k]) as int].next_all == nth(longer, k + 1) by {
            if k > 0 {
                assert(longer[k] == self.all_list@[k - 1]);
                assert(nth(longer, k + 1) == nth(self.all_list@, k));
            } else {
                assert(nth(longer, 1) == nth(self.all_list@, 0));
            }
        }
        assert(after@ =~= (HeapView {
            objects: self@.objects.push(object(after.headers@@[index as int])),
            sizes: after.sizes@,
            all: seq![index] + self@.all,
            total_allocated: after.total_allocated as nat,
            ..self@
        }));
    }

    /// A change of one box that leaves its links alone.
    proof fn lemma_box_changed(self, after: GcContext, index: usize)
        requires
            self.wf(),
            index < self.headers@@.len(),
            after.headers@@ == self.headers@@.update(index as int, after.headers@@[index as int]),
            after == (GcContext { headers: after.headers, ..self }),
            after.headers@@[index as int].next_all
                == self.headers@@[index as int].next_all,
            after.headers@@[index as int].gray_link
                == self.headers@@[index as int].gray_link,
            after.headers@@[index as int].flags.valid(),
            after.headers@@[index as int].flags.upper() == 0,
            after.headers@@[index as int].flags@.gray()
                == self.headers@@[index as int].flags@.gray(),
        ensures
            after.linked(),
            after@ == self@.with(index, object(after.headers@@[index as int])),
    {
        let b = after.headers@@[index as int];
        self.lemma_lists_in_range();
        lemma_gray_links_kept(
            self.headers@@,
            index,
            b,
            self.gray_queue.primary,
            self.primary_list@,
        );
        lemma_gray_links_kept(
            self.headers@@,
            index,
            b,
            self.gray_queue.secondary,
            self.secondary_list@,
        );
        assert(after@ =~= self@.with(index, object(b)));
    }

    /// `after` is this heap with a box put in front of the primary part of the gray queue.
    spec fn enters_primary(self, after: GcContext, index: usize) -> bool {
        &&& after == GcContext {
            headers: after.headers,
            gray_queue: GrayQueue { primary: Some(index), ..self.gray_queue },
            primary_list: after.primary_list,
            ..self
        }
        &&& after.headers@@[index as int].gray_link == GrayLink::Next(self.gray_queue.primary)
        &&& after.primary_list@ == seq![index] + self.primary_list@
    }

    /// `after` is this heap with a box put in front of the secondary part of the gray queue.
    spec fn enters_secondary(self, after: GcContext, index: usize) -> bool {
        &&& after == GcContext {
            headers: after.headers,
            gray_queue: GrayQueue { secondary: Some(index), ..self.gray_queue },
            secondary_list: after.secondary_list,
            ..self
        }
        &&& after.headers@@[index as int].gray_link == GrayLink::Next(self.gray_queue.secondary)
        &&& after.secondary_list@ == seq![index] + self.secondary_list@
    }

    /// A box that is in no part of the gray queue enters one of its parts in front.
    proof fn lemma_entered(self, after: GcContext, index: usize)
        requires
            self.wf(),
            index < self.headers@@.len(),
            !self@.queued(index),
            after.headers@@ == self.headers@@.update(index as int, after.headers@@[index as int]),
            after.headers@@[index as int].next_all == self.headers@@[index as int].next_all,
            after.headers@@[index as int].flags.valid(),
            after.headers@@[index as int].flags.upper() == 0,
            after.headers@@[index as int].flags@.gray(),
            self.enters_primary(after, index) || self.enters_secondary(after, index),
        ensures
            after.linked(),
            after@ == (HeapView {
                primary: after.primary_list@,
                secondary: after.secondary_list@,
                ..self@
            }).with(index, object(after.headers@@[index as int])),
    {
        let b = after.headers@@[index as int];
        let queue = self.gray_queue;
        self.lemma_lists_in_range();
        lemma_gray_links_kept(self.headers@@, index, b, queue.primary, self.primary_list@);
        lemma_gray_links_kept(self.headers@@, index, b, queue.secondary, self.secondary_list@);
        if self.enters_primary(after, index) {
            lemma_gray_link_in_front(self.headers@@, index, b, queue.primary, self.primary_list@);
        } else {
            lemma_gray_link_in_front(
                self.headers@@,
                index,
                b,
                queue.secondary,
                self.secondary_list@,
            );
        }
        assert(after@ =~= (HeapView {
            primary: after.primary_list@,
            secondary: after.secondary_list@,
            ..self@
        }).with(index, object(b)));
    }
}

impl<T> Gc<T> {
    /// The identity of the heap.
    pub(crate) fn context(&self) -> (context: usize)
        ensures
            context == self@.context,
    {
        self.context
    }

    /// The place among the objects of the heap.
    pub(crate) fn index(&self) -> (index: usize)
        ensures
            index == self@.index,
    {
        self.index
    }

    /// Roots this pointer.
    pub fn root(&self, context: &mut GcContext) -> (rooted: Rgc<T>)
        requires
            old(context).wf(),
            old(context)@.has(self@),
            old(context)@.at(self@).roots < usize::MAX,
        ensures
            final(context).wf(),
            final(context)@ == old(context)@.rooted(self@.index),
            rooted@ == self@,
    {
        let ghost before = *context;
        let index: usize = self.index;
        assert(before@.queued(index) == before.headers@@[index as int].flags@.gray());
        context.gray_queue.root(index, &mut held_mut(&mut context.headers)[index]);
        proof {
            if before.headers@@[index as int].flags@.white() {
                context.secondary_list@ = seq![index] + context.secondary_list@;
                before.lemma_entered(*context, index);
            } else {
                before.lemma_box_changed(*context, index);
            }
            before@.lemma_rooted_inv(index);
        }
        Rgc(*self)
    }

    /// Reads the contents of this `Gc`, which must not be written on this or another cloned `Gc`.
    pub fn read(&self, context: &mut GcContext) -> (guard: GcRead<T>)
        requires
            old(context).wf(),
            old(context)@.has(self@),
            old(context)@.at(self@).readable(),
        ensures
            final(context).wf(),
            final(context)@ == old(context)@.reading(self@.index),
            guard@ == self@,
    {
        let ghost before = *context;
        let index: usize = self.index;
        held_mut(&mut context.headers)[index].borrow_state.inc_reading();
        proof {
            before.lemma_box_changed(*context, index);
            before@.lemma_with_inv(index, object(context.headers@@[index as int]));
        }
        GcRead(*self)
    }

    /// Writes to the contents of this `Gc`, which must not be read or written already on this or
    /// another cloned `Gc`.  Writing to a `Gc` will potentially execute a write barrier on the
    /// object.
    pub fn write(&self, context: &mut GcContext) -> (guard: GcWrite<T>)
        requires
            old(context).wf(),
            old(context)@.has(self@),
            old(context)@.at(self@).writable(),
        ensures
            final(context).wf(),
            final(context)@ == old(context)@.writing(self@.index),
            guard@ == self@,
    {
        let ghost before = *context;
        let index: usize = self.index;
        assert(before@.queued(index) == before.headers@@[index as int].flags@.gray());
        context.gray_queue.write_barrier(index, &mut held_mut(&mut context.headers)[index]);
        proof {
            if before.headers@@[index as int].flags@ == GcColor::Black
                && before.gray_queue.uphold_invariant {
                context.primary_list@ = seq![index] + context.primary_list@;
                before.lemma_entered(*context, index);
                before@.lemma_darkened_inv(index);
            } else {
                before.lemma_box_changed(*context, index);
                assert(context@ =~= before@);
            }
        }
        let ghost barred = *context;
        held_mut(&mut context.headers)[index].borrow_state.set_writing();
        proof {
            barred.lemma_box_changed(*context, index);
            barred@.lemma_with_inv(index, object(context.headers@@[index as int]));
        }
        GcWrite(*self)
    }

    /// Traces the object.  Only call inside `GcObject::trace`.
    pub fn trace(&self, context: &mut GcContext)
        requires
            old(context).wf(),
            old(context)@.has(self@),
        ensures
            final(context).wf(),
            final(context)@ == old(context)@.traced(self@.index),
    {
        let ghost before = *context;
        let index: usize = self.index;
        assert(before@.queued(index) == before.headers@@[index as int].flags@.gray());
        context.gray_queue.trace(index, &mut held_mut(&mut context.headers)[index]);
        proof {
            if before.headers@@[index as int].flags@.white() {
                context.primary_list@ = seq![index] + context.primary_list@;
                before.lemma_entered(*context, index);
                before@.lemma_darkened_inv(index);
            } else {
                before.lemma_box_changed(*context, index);
                before@.lemma_with_inv(index, object(context.headers@@[index as int]));
                assert(context@ =~= before@.traced(index));
            }
        }
    }
}

impl<T> Rgc<T> {
    /// The pointer leads to a rooted object of the heap.
    pub open spec fn rooted_in(self, context: GcContext) -> bool {
        context@.has(self@) && context@.at(self@).roots > 0
    }

    /// Another root on the same object.
    pub fn clone(&self, context: &mut GcContext) -> (rooted: Rgc<T>)
        requires
            old(context).wf(),
            self.rooted_in(*old(context)),
            old(context)@.at(self@).roots < usize::MAX,
        ensures
            final(context).wf(),
            final(context)@ == old(context)@.rooted(self@.index),
            rooted@ == self@,
    {
        let ghost before = *context;
        let index: usize = self.0.index;
        held_mut(&mut context.headers)[index].root_count.increment();
        proof {
            before.lemma_box_changed(*context, index);
            before@.lemma_rooted_inv(index);
        }
        Rgc(self.0)
    }

    /// Gives this root up.
    pub fn drop(self, context: &mut GcContext)
        requires
            old(context).wf(),
            self.rooted_in(*old(context)),
        ensures
            final(context).wf(),
            final(context)@ == old(context)@.unrooted(self@.index),
    {
        let ghost before = *context;
        let index: usize = self.0.index;
        held_mut(&mut context.headers)[index].root_count.decrement();
        proof {
            before.lemma_box_changed(*context, index);
            before@.lemma_with_inv(index, object(context.headers@@[index as int]));
        }
    }

    /// The pointer without its root.
    pub fn unroot(&self) -> (gc: Gc<T>)
        ensures
            gc@ == self@,
    {
        self.0
    }

    /// Same as `Gc::read`.
    pub fn read(&self, context: &mut GcContext) -> (guard: GcRead<T>)
        requires
            old(context).wf(),
            old(context)@.has(self@),
            old(context)@.at(self@).readable(),
        ensures
            final(context).wf(),
            final(context)@ == old(context)@.reading(self@.index),
            guard@ == self@,
    {
        self.0.read(context)
    }

    /// Same as `Gc::write`.
    pub fn write(&self, context: &mut GcContext) -> (guard: GcWrite<T>)
        requires
            old(context).wf(),
            old(context)@.has(self@),
            old(context)@.at(self@).writable(),
        ensures
            final(context).wf(),
            final(context)@ == old(context)@.writing(self@.index),
            guard@ == self@,
    {
        self.0.write(context)
    }
}

impl<T> Copy for Gc<T> {

}

impl<T> Clone for Gc<T> {
    fn clone(&self) -> (gc: Gc<T>)
        ensures
            gc == *self,
    {
        *self
    }
}

impl<T> PartialEq for Gc<T> {
    fn eq(&self, other: &Gc<T>) -> (same: bool) {
        self.context == other.context && self.index == other.index
    }
}

impl<T> vstd::std_specs::cmp::PartialEqSpecImpl for Gc<T> {
    open spec fn obeys_eq_spec() -> bool {
        true
    }

    open spec fn eq_spec(&self, other: &Gc<T>) -> bool {
        self@ == other@
    }
}

impl<T> Eq for Gc<T> {

}

impl<T> PartialEq for Rgc<T> {
    fn eq(&self, other: &Rgc<T>) -> (same: bool) {
        self.0 == other.0
    }
}

impl<T> vstd::std_specs::cmp::PartialEqSpecImpl for Rgc<T> {
    open spec fn obeys_eq_spec() -> bool {
        true
    }

    open spec fn eq_spec(&self, other: &Rgc<T>) -> bool {
        self@ == other@
    }
}

impl<T> Eq for Rgc<T> {

}

/// A read guard on an object.  It is out until it is given back with `drop`.
#[must_use]
pub struct GcRead<T>(Gc<T>);

/// A write guard on an object.  It is out until it is given back with `drop`.
#[must_use]
pub struct GcWrite<T>(Gc<T>);

impl<T> View for GcRead<T> {
    type V = Place;

    closed spec fn view(&self) -> Place {
        self.0@
    }
}

impl<T> View for GcWrite<T> {
    type V = Place;

    closed spec fn view(&self) -> Place {
        self.0@
    }
}

impl<T> GcRead<T> {
    /// The contents.
    pub fn deref<'a>(&self, store: &'a GcStore<T>) -> (value: &'a T)
        requires
            store@.has(self@),
        ensures
            *value == store@.at(self@),
    {
        store.value(self.0.index)
    }

    /// Gives the guard back.
    pub fn drop(self, context: &mut GcContext)
        requires
            old(context).wf(),
            old(context)@.has(self@),
            old(context)@.at(self@).mode() == BorrowMode::Reading,
        ensures
            final(context).wf(),
            final(context)@ == old(context)@.read_done(self@.index),
    {
        let ghost before = *context;
        let index: usize = self.0.index;
        held_mut(&mut context.headers)[index].borrow_state.dec_reading();
        proof {
            before.lemma_box_changed(*context, index);
            before@.lemma_with_inv(index, object(context.headers@@[index as int]));
        }
    }
}

impl<T> GcWrite<T> {
    /// The contents.
    pub fn deref<'a>(&self, store: &'a GcStore<T>) -> (value: &'a T)
        requires
            store@.has(self@),
        ensures
            *value == store@.at(self@),
    {
        store.value(self.0.index)
    }

    /// The contents, to be changed.
    pub fn deref_mut<'a>(&mut self, store: &'a mut GcStore<T>) -> (value: &'a mut T)
        requires
            old(store)@.has(old(self)@),
        ensures
            *final(self) == *old(self),
            *value == old(store)@.at(old(self)@),
            final(store)@ == old(store)@.with(old(self)@.index, *final(value)),
    {
        store.value_mut(self.0.index)
    }

    /// Gives the guard back.
    pub fn drop(self, context: &mut GcContext)
        requires
            old(context).wf(),
            old(context)@.has(self@),
        ensures
            final(context).wf(),
            final(context)@ == old(context)@.write_done(self@.index),
    {
        let ghost before = *context;
        let index: usize = self.0.index;
        held_mut(&mut context.headers)[index].borrow_state.set_unused();
        proof {
            before.lemma_box_changed(*context, index);
            before@.lemma_with_inv(index, object(context.headers@@[index as int]));
        }
    }
}

impl GcContext {
    /// The box at the head of a part of the gray queue, and from each box the box that its gray
    /// link names, are those of `list`, to its end.
    pub open spec fn gray_links_lead(&self, head: Option<usize>, list: Seq<usize>) -> bool {
        &&& head == nth(list, 0)
        &&& forall|k: int|
            0 <= k < list.len() ==> self.header_at(#[trigger] list[k]).gray_link == GrayLink::Next(
                nth(list, k + 1),
            )
    }

    /// The links of the gray queue lead through the objects of its two parts.
    pub proof fn law_gray_links_lead_through_the_queue(&self)
        requires
            self.wf(),
        ensures
            self.gray_links_lead(nth(self@.primary, 0), self@.primary),
            self.gray_links_lead(nth(self@.secondary, 0), self@.secondary),
    {
    }

    /// The links of the gray queue lead through no other list from the same head.
    pub proof fn law_gray_links_lead_one_way(
        &self,
        head: Option<usize>,
        one: Seq<usize>,
        other: Seq<usize>,
    )
        requires
            self.gray_links_lead(head, one),
            self.gray_links_lead(head, other),
        ensures
            one == other,
    {
        self.lemma_same_prefix(head, one, other, one.len());
        assert(nth(other, one.len() as int) is None) by {
            if one.len() > 0 {
                assert(nth(one, one.len() - 1) == nth(other, one.len() - 1));
                assert(one[one.len() - 1] == other[one.len() - 1]);
            }
        }
        assert forall|k: int| 0 <= k < one.len() implies one[k] == other[k] by {
            assert(nth(one, k) == nth(other, k));
        }
        assert(one =~= other);
    }

    proof fn lemma_same_prefix(
        &self,
        head: Option<usize>,
        one: Seq<usize>,
        other: Seq<usize>,
        count: nat,
    )
        requires
            self.gray_links_lead(head, one),
            self.gray_links_lead(head, other),
            count <= one.len(),
        ensures
            forall|k: int| 0 <= k < count ==> nth(one, k) == nth(other, k),
        decreases count,
    {
        if count > 0 {
            self.lemma_same_prefix(head, one, other, (count - 1) as nat);
            if count > 1 {
                assert(nth(one, count - 2) == nth(other, count - 2));
                assert(one[count - 2] == other[count - 2]);
            }
        }
    }

    /// A gray link names the next object exactly of the gray objects; that of a white or a black
    /// object says that it is not in the queue.
    pub proof fn law_gray_link_goes_by_color(&self, index: usize)
        requires
            self.wf(),
            index < self@.objects.len(),
        ensures
            self.header_at(index).gray_link is Next <==> self@.objects[index as int].color.gray(),
            self.header_at(index).gray_link is Queue <==> {
                ||| self@.objects[index as int].color.white()
                ||| self@.objects[index as int].color == GcColor::Black
            },
    {
    }

    /// The five bits of a flag byte above the color are clear.
    pub proof fn law_flags_hold_a_color_alone(&self, index: usize)
        requires
            self.wf(),
            index < self@.objects.len(),
        ensures
            self.header_at(index).flags.valid(),
            self.header_at(index).flags.upper() == 0,
            self.header_at(index).flags@ == self@.objects[index as int].color,
    {
    }

    /// The links of the list of all objects lead through every object once, the newest first.
    pub proof fn law_all_links_lead_from_newest_to_oldest(&self, index: usize)
        requires
            self.wf(),
            index < self@.objects.len(),
        ensures
            nth(self@.all, 0) == Some((self@.objects.len() - 1) as usize),
            self.header_at(index).next_all == if index == 0 {
                None
            } else {
                Some((index - 1) as usize)
            },
    {
        self@.lemma_all_is_newest_first();
        lemma_newest_first(self.headers@@, self.all, self.all_list@, index);
    }
}

} // verus!
