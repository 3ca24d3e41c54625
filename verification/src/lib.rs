//! Iteration over two-dimensional collections stored in row-major linear
//! memory, yielding each element together with its row and column index.
//!
//! The [`Iterator2d`] capability describes a sequential traversal that also
//! knows its row and column extent. Decorating such a traversal with
//! [`Enumerate2d`] (via `enumerate2d`) yields `(row, col, element)` triples,
//! with the coordinates derived purely from a running position counter and the
//! traversal's column count.

mod iter2d;
mod slices;
mod step;

pub use crate::iter2d::Enumerate2d;
pub use crate::iter2d::Enumerate2dExt;
pub use crate::iter2d::Iterator2d;
pub use crate::iter2d::Iterator2dMut;
pub use crate::slices::Iter;
pub use crate::slices::IterMut;
pub use crate::step::lemma_exhausted_idempotent;
pub use crate::step::lemma_sequential_coordinates;
pub use crate::step::lemma_skip_matches_sequential;
pub use crate::step::lemma_state_after;
pub use crate::step::produce_step;
pub use crate::step::skip_step;
pub use crate::step::state_after;
