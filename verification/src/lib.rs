//! An incremental mark and sweep garbage collector's heap: traced boxes, root counts, dynamic
//! borrow states and the gray queue.
#![allow(dead_code, unused_imports)]

pub mod borrow_state;
pub mod effects;
pub mod flags;
pub mod gray_queue;
pub mod heap;
mod held;
pub mod laws;
pub mod model;
pub mod multiplier;
pub mod root_count;
pub mod store;

pub use crate::borrow_state::{BorrowMode, BorrowState};
pub use crate::flags::{GcColor, GcFlags};
pub use crate::gray_queue::{GcBoxHeader, GrayLink, GrayQueue};
pub use crate::heap::{Gc, GcBox, GcContext, GcLeaf, GcObject, GcPhase, GcRead, GcWrite, Rgc};
pub use crate::root_count::RootCount;
pub use crate::store::GcStore;
