//! Collections.

pub mod boxlist;
pub mod linked;
mod slab;
pub mod traces;

pub use boxlist::{BoxItem, BoxList, BoxListIntoIter, BoxListIter, BoxListIterMut};
pub use linked::Linked;
pub use slab::BoxRef;
