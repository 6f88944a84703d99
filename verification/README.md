# gc

The heap of an incremental mark and sweep garbage collector, verified with Verus: boxes with their
colors, root counts and dynamic borrow states, the list of all boxes, and the gray queue.  The
collector itself does no work between allocations yet, so nothing is freed, not even when a context
goes out of scope.

- `src/flags.rs`, `src/root_count.rs`, `src/borrow_state.rs`: the parts of a box's header
- `src/gray_queue.rs`: the header, and how rooting, tracing and the write barrier queue a box
- `src/model.rs`: what a heap and a store are, and what each operation makes of them
- `src/heap.rs`: `GcContext`, the pointers `Gc` and `Rgc`, the guards `GcRead` and `GcWrite`
- `src/store.rs`: `GcStore`, the values of the objects of one type
- `src/held.rs`: values that are never dropped
- `src/laws.rs`: what the operations keep, undo and leave alone
- `src/multiplier.rs`: the bounds on the pacing multipliers, over binary64 bit patterns
- `app/lib.rs`: a constructor that takes the multipliers as floating point numbers

A context holds objects of any number of types.  It knows the header of each object; the values are
beside it, in a store for each type, so that an object can be traced where it is.  An object that
owns pointers implements `GcObject`, and proves that its `trace` reaches them all; an object that
owns none implements `GcLeaf`.

Pointers and guards are plain values, used with the context that they came from, whose identity they
carry: a guard is given back, and a root given up, by calling its `drop` with the context.
