//! The two concrete dimensioned sequences: a read-only traversal borrowing a
//! slice, and a mutable traversal owning its storage.
//!
//! Each wraps contiguous row-major storage together with the `rows` and `cols`
//! counts fixed at construction, and walks the storage front to back with a
//! position cursor. That `rows * cols` equals the element count is the
//! constructing caller's responsibility and is not checked, matching the
//! capability contract.

use vstd::prelude::*;

use crate::iter2d::Iterator2d;
use crate::iter2d::Iterator2dMut;

verus! {

/// Read-only two-dimensional collection traversal: borrows the backing slice
/// and produces copies of its elements in row-major order.
pub struct Iter<'a, T> {
    data: &'a [T],
    pos: usize,
    rows: usize,
    cols: usize,
}

impl<'a, T: Copy> Iter<'a, T> {
    /// Wraps `data`, declared to hold `rows` by `cols` elements; the traversal
    /// starts at the front.
    pub fn new(data: &'a [T], rows: usize, cols: usize) -> (r: Self)
        ensures
            r.storage() == data@,
            r.produced() == 0,
            r.rows_spec() == rows,
            r.cols_spec() == cols,
    {
        Iter { data: data, pos: 0, rows: rows, cols: cols }
    }
}

impl<'a, T: Copy> Iterator2d for Iter<'a, T> {
    type Item = T;

    closed spec fn storage(&self) -> Seq<T> {
        self.data@
    }

    closed spec fn produced(&self) -> nat {
        if self.pos <= self.data@.len() {
            self.pos as nat
        } else {
            self.data@.len()
        }
    }

    closed spec fn rows_spec(&self) -> usize {
        self.rows
    }

    closed spec fn cols_spec(&self) -> usize {
        self.cols
    }

    proof fn storage_bounds(&self) {
        broadcast use vstd::slice::axiom_spec_len;

        assert(vstd::slice::spec_slice_len(self.data) == self.data@.len());
    }

    fn rows(&self) -> (r: usize) {
        self.rows
    }

    fn cols(&self) -> (r: usize) {
        self.cols
    }

    fn produce_next(&mut self) -> (r: Option<T>) {
        if self.pos < self.data.len() {
            let a: T = *vstd::slice::slice_index_get(self.data, self.pos);
            self.pos = self.pos + 1;
            Some(a)
        } else {
            None
        }
    }

    fn skip(&mut self, n: usize) -> (r: Option<T>) {
        let len: usize = self.data.len();
        if self.pos < len && n < len - self.pos {
            let idx: usize = self.pos + n;
            let a: T = *vstd::slice::slice_index_get(self.data, idx);
            self.pos = idx + 1;
            Some(a)
        } else {
            self.pos = len;
            None
        }
    }

    fn remaining_count_hint(&self) -> (r: (usize, Option<usize>)) {
        let len: usize = self.data.len();
        if self.pos < len {
            let rem: usize = len - self.pos;
            (rem, Some(rem))
        } else {
            (0, Some(0))
        }
    }

    fn consume_count(self) -> (r: usize) {
        let len: usize = self.data.len();
        if self.pos < len {
            len - self.pos
        } else {
            0
        }
    }
}

/// Mutable two-dimensional collection traversal: owns the backing storage,
/// produces copies of its elements in row-major order, and lets the most
/// recently produced element be replaced in place. The storage is taken over
/// at construction and handed back by [`IterMut::into_data`].
pub struct IterMut<T> {
    data: Vec<T>,
    pos: usize,
    rows: usize,
    cols: usize,
}

impl<T: Copy> IterMut<T> {
    /// Takes over `data`, declared to hold `rows` by `cols` elements; the
    /// traversal starts at the front.
    pub fn new(data: Vec<T>, rows: usize, cols: usize) -> (r: Self)
        ensures
            r.storage() == data@,
            r.produced() == 0,
            r.rows_spec() == rows,
            r.cols_spec() == cols,
    {
        IterMut { data: data, pos: 0, rows: rows, cols: cols }
    }

    /// Hands the backing storage back, with all in-place replacements applied.
    pub fn into_data(self) -> (r: Vec<T>)
        ensures
            r@ == self.storage(),
    {
        self.data
    }
}

impl<T: Copy> Iterator2d for IterMut<T> {
    type Item = T;

    closed spec fn storage(&self) -> Seq<T> {
        self.data@
    }

    closed spec fn produced(&self) -> nat {
        if self.pos <= self.data@.len() {
            self.pos as nat
        } else {
            self.data@.len()
        }
    }

    closed spec fn rows_spec(&self) -> usize {
        self.rows
    }

    closed spec fn cols_spec(&self) -> usize {
        self.cols
    }

    proof fn storage_bounds(&self) {
        broadcast use vstd::std_specs::vec::axiom_spec_len;

        assert(vstd::std_specs::vec::spec_vec_len(&self.data) == self.data@.len());
    }

    fn rows(&self) -> (r: usize) {
        self.rows
    }

    fn cols(&self) -> (r: usize) {
        self.cols
    }

    fn produce_next(&mut self) -> (r: Option<T>) {
        if self.pos < self.data.len() {
            let a: T = self.data[self.pos];
            self.pos = self.pos + 1;
            Some(a)
        } else {
            None
        }
    }

    fn skip(&mut self, n: usize) -> (r: Option<T>) {
        let len: usize = self.data.len();
        if self.pos < len && n < len - self.pos {
            let idx: usize = self.pos + n;
            let a: T = self.data[idx];
            self.pos = idx + 1;
            Some(a)
        } else {
            self.pos = len;
            None
        }
    }

    fn remaining_count_hint(&self) -> (r: (usize, Option<usize>)) {
        let len: usize = self.data.len();
        if self.pos < len {
            let rem: usize = len - self.pos;
            (rem, Some(rem))
        } else {
            (0, Some(0))
        }
    }

    fn consume_count(self) -> (r: usize) {
        let len: usize = self.data.len();
        if self.pos < len {
            len - self.pos
        } else {
            0
        }
    }
}

impl<T: Copy> Iterator2dMut for IterMut<T> {
    fn set_last(&mut self, v: T) {
        let len: usize = self.data.len();
        let idx: usize = if self.pos <= len {
            self.pos - 1
        } else {
            len - 1
        };
        self.data[idx] = v;
    }
}

} // verus!
