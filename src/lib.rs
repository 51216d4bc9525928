//! A minimal singly linked list built from owned nodes.
//!
//! Every list is modelled by the sequence of its elements, front to back
//! (`list@`). Operations that restructure the chain take the list by value and
//! hand back the new list; their contracts are stated over that sequence.

mod laws;
mod list;
mod text;

pub use laws::{add_to_empty_keeps_order, append_concatenates, reverse_twice_is_identity};
pub use list::{IntoListIter, List, ListIter, ListIterMut};
pub use text::join_bracketed;
