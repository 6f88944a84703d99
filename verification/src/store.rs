//! The values of the objects of one type.
use std::collections::hash_map::Entry;
use std::collections::HashMap;
use std::mem::ManuallyDrop;
use std::ops::Deref;

use vstd::prelude::*;

use crate::heap::{Gc, GcContext};
use crate::held::held_mut;
use crate::model::StoreView;

verus! {

broadcast use vstd::std_specs::hash::group_hash_axioms;

/// The values of the objects of one type, of one heap.  Nothing is freed when a store goes out of
/// scope.
pub struct GcStore<T> {
    context: usize,
    values: ManuallyDrop<HashMap<usize, T>>,
}

impl<T> View for GcStore<T> {
    type V = StoreView<T>;

    closed spec fn view(&self) -> StoreView<T> {
        StoreView { context: self.context, values: self.values@@ }
    }
}

impl<T> GcStore<T> {
    /// A store without values, for objects of a heap.
    pub fn new(context: &GcContext) -> (store: GcStore<T>)
        ensures
            store@ == StoreView::<T>::empty(context@.identity),
    {
        GcStore { context: context.identity(), values: ManuallyDrop::new(HashMap::new()) }
    }

    /// Whether the store is for objects of this heap.
    pub fn belongs_to(&self, context: &GcContext) -> (same: bool)
        ensures
            same == (self@.context == context@.identity),
    {
        self.context == context.identity()
    }

    /// Whether the value of an object is in this store.
    pub fn contains(&self, gc: &Gc<T>) -> (contained: bool)
        ensures
            contained == self@.has(gc@),
    {
        gc.context() == self.context && self.values.deref().contains_key(&gc.index())
    }

    /// Puts the value of an object in.
    pub(crate) fn insert(&mut self, index: usize, value: T)
        ensures
            final(self)@ == old(self)@.with(index, value),
    {
        held_mut(&mut self.values).insert(index, value);
    }

    /// The value of an object.
    pub(crate) fn value(&self, index: usize) -> (value: &T)
        requires
            self@.values.contains_key(index),
        ensures
            *value == self@.values[index],
    {
        self.values.deref().get(&index).unwrap()
    }

    /// The value of an object, to be changed.
    pub(crate) fn value_mut(&mut self, index: usize) -> (value: &mut T)
        requires
            old(self)@.values.contains_key(index),
        ensures
            *value == old(self)@.values[index],
            final(self)@ == old(self)@.with(index, *final(value)),
    {
        match held_mut(&mut self.values).entry(index) {
            Entry::Occupied(occupied) => occupied.into_mut(),
            Entry::Vacant(_) => vstd::pervasive::unreached(),
        }
    }
}

} // verus!
