//! The dimensioned-sequence capability and the coordinate-tracking adapter.
//!
//! [`Iterator2d`] is the capability: a sequential traversal over row-major
//! backing storage that also reports its row and column extent. Its model is
//! the backing storage (a sequence of elements, fixed up to in-place
//! replacement) and a count of elements consumed so far.
//!
//! [`Enumerate2d`] decorates any such traversal: each produced element comes
//! with its `(row, col)` coordinates, derived purely from a running position
//! counter and the wrapped traversal's column count. Its contracts are stated
//! against the step model in [`crate::step`].

use vstd::arithmetic::div_mod::lemma_div_multiples_vanish;
use vstd::arithmetic::div_mod::lemma_fundamental_div_mod;
use vstd::arithmetic::div_mod::lemma_fundamental_div_mod_converse;
use vstd::arithmetic::mul::lemma_mul_is_distributive_add_other_way;
use vstd::prelude::*;

use crate::step::produce_step;
use crate::step::skip_step;

verus! {

/// A sequential traversal of a two-dimensional collection stored in row-major
/// linear memory.
///
/// The traversal walks `storage()` from front to back; `produced()` counts the
/// elements already consumed. The collection reports `rows()` and `cols()`,
/// both fixed at construction. That `rows() * cols()` equals the element count
/// is the constructing collaborator's responsibility and is not checked here.
pub trait Iterator2d: Sized {
    type Item;

    /// The backing elements in row-major order. Traversal never changes it;
    /// mutable variants may replace elements in place, never add or remove.
    spec fn storage(&self) -> Seq<Self::Item>;

    /// How many elements the traversal has consumed so far.
    spec fn produced(&self) -> nat;

    /// Height of the collection, fixed at construction.
    spec fn rows_spec(&self) -> usize;

    /// Width of the collection, fixed at construction.
    spec fn cols_spec(&self) -> usize;

    /// The consumed count never passes the end, and the storage fits in
    /// memory.
    proof fn storage_bounds(&self)
        ensures
            self.produced() <= self.storage().len(),
            self.storage().len() <= usize::MAX,
    ;

    /// Returns the height of the two-dimensional collection.
    fn rows(&self) -> (r: usize)
        ensures
            r == self.rows_spec(),
    ;

    /// Returns the width of the two-dimensional collection.
    fn cols(&self) -> (r: usize)
        ensures
            r == self.cols_spec(),
    ;

    /// Produces the next element, or signals exhaustion.
    fn produce_next(&mut self) -> (r: Option<Self::Item>)
        ensures
            final(self).storage() == old(self).storage(),
            final(self).rows_spec() == old(self).rows_spec(),
            final(self).cols_spec() == old(self).cols_spec(),
            old(self).produced() < old(self).storage().len() ==> {
                &&& r == Some(old(self).storage()[old(self).produced() as int])
                &&& final(self).produced() == old(self).produced() + 1
            },
            old(self).produced() >= old(self).storage().len() ==> {
                &&& r is None
                &&& final(self).produced() == old(self).produced()
            },
    ;

    /// Advances past `n` elements and produces the one after, or drains the
    /// traversal and signals exhaustion if fewer than `n + 1` remain.
    fn skip(&mut self, n: usize) -> (r: Option<Self::Item>)
        ensures
            final(self).storage() == old(self).storage(),
            final(self).rows_spec() == old(self).rows_spec(),
            final(self).cols_spec() == old(self).cols_spec(),
            old(self).produced() + n < old(self).storage().len() ==> {
                &&& r == Some(old(self).storage()[old(self).produced() + n])
                &&& final(self).produced() == old(self).produced() + n + 1
            },
            old(self).produced() + n >= old(self).storage().len() ==> {
                &&& r is None
                &&& final(self).produced() == old(self).storage().len()
            },
    ;

    /// Estimates how many elements remain: a lower bound and an optional upper
    /// bound.
    fn remaining_count_hint(&self) -> (r: (usize, Option<usize>))
        ensures
            r.0 <= self.storage().len() - self.produced(),
            r.1 matches Some(u) ==> self.storage().len() - self.produced() <= u,
    ;

    /// Drains the rest of the traversal and returns how many elements
    /// remained.
    fn consume_count(self) -> (r: usize)
        ensures
            r == self.storage().len() - self.produced(),
    ;
}

/// The decoration entry point, provided for every [`Iterator2d`].
///
/// It stands apart from [`Iterator2d`] itself only so that its contract may
/// speak of [`Enumerate2d`]'s view of the wrapped traversal; the blanket
/// implementation below makes `enumerate2d` available on every dimensioned
/// sequence.
pub trait Enumerate2dExt: Iterator2d {
    /// Decorates this traversal with coordinate tracking: the adapter yields
    /// `(row, col, element)` triples, counting from `(0, 0)`.
    ///
    /// A traversal with zero columns that could still yield elements would
    /// have no consistent coordinates, so it is ruled out here.
    fn enumerate2d(self) -> (r: Enumerate2d<Self>)
        requires
            self.cols_spec() > 0 || self.produced() == self.storage().len(),
        ensures
            r.wf(),
            r.wrapped_rows() == self.rows_spec(),
            r.wrapped_cols() == self.cols_spec(),
            r.position() == 0,
            r.backing() == self.storage(),
            r.elems() == self.storage().skip(self.produced() as int),
            r.exhausted() <==> self.produced() == self.storage().len(),
    {
        proof {
            self.storage_bounds();
        }
        let ghost consumed: nat = self.produced();
        Enumerate2d { iter: self, row: 0, col: 0, start: Ghost(consumed) }
    }
}

impl<I: Iterator2d> Enumerate2dExt for I {
}

/// A traversal whose produced elements may be replaced in place in the backing
/// storage.
pub trait Iterator2dMut: Iterator2d {
    /// Replaces the most recently produced element with `v`.
    fn set_last(&mut self, v: Self::Item)
        requires
            0 < old(self).produced(),
        ensures
            final(self).storage() == old(self).storage().update(
                old(self).produced() - 1,
                v,
            ),
            final(self).produced() == old(self).produced(),
            final(self).rows_spec() == old(self).rows_spec(),
            final(self).cols_spec() == old(self).cols_spec(),
    ;
}

/// An iterator for a two-dimensional collection that yields the current row,
/// the current column and the element during iteration.
///
/// It owns the wrapped traversal and two counters, `row` and `col`, both
/// starting at zero; while elements keep coming, `row * cols + col` equals the
/// number of elements the adapter has produced.
pub struct Enumerate2d<I> {
    iter: I,
    row: usize,
    col: usize,
    /// How many elements the wrapped traversal had already consumed when the
    /// adapter was created; the adapter's coordinates count from there.
    start: Ghost<nat>,
}

impl<I: Iterator2d> Enumerate2d<I> {
    /// Height reported by the wrapped traversal.
    pub closed spec fn wrapped_rows(&self) -> usize {
        self.iter.rows_spec()
    }

    /// Width reported by the wrapped traversal.
    pub closed spec fn wrapped_cols(&self) -> usize {
        self.iter.cols_spec()
    }

    /// The wrapped traversal's full backing storage, kept up to date with
    /// in-place replacements.
    pub closed spec fn backing(&self) -> Seq<I::Item> {
        self.iter.storage()
    }

    /// The elements this adapter ranges over: what remained of the wrapped
    /// traversal's storage when the adapter was created, kept up to date with
    /// in-place replacements.
    pub closed spec fn elems(&self) -> Seq<I::Item> {
        self.iter.storage().skip(self.start@ as int)
    }

    /// The running flat position: how many triples the adapter has produced.
    pub closed spec fn position(&self) -> int {
        (self.row as int) * (self.iter.cols_spec() as int) + (self.col as int)
    }

    /// Whether the wrapped traversal is drained. Once true it stays true, and
    /// every further production returns `None`.
    pub closed spec fn exhausted(&self) -> bool {
        self.iter.produced() == self.iter.storage().len()
    }

    /// The wrapped traversal.
    pub closed spec fn inner(&self) -> I {
        self.iter
    }

    /// Well-formedness: the counters track the wrapped traversal. While
    /// elements keep coming, `start + row * cols + col` equals the wrapped
    /// traversal's consumed count; a drained traversal may be further ahead
    /// (a failed skip consumes the rest without producing). Zero columns can
    /// only occur with nothing left to yield.
    pub closed spec fn wf(&self) -> bool {
        &&& self.start@ + self.position() <= self.iter.produced()
        &&& self.iter.produced() < self.iter.storage().len() ==> self.start@ + self.position()
            == self.iter.produced()
        &&& self.iter.cols_spec() == 0 ==> (self.row == 0 && self.col == 0 && self.iter.produced()
            == self.iter.storage().len())
        &&& self.iter.cols_spec() > 0 ==> self.col < self.iter.cols_spec()
    }

    /// Produces the next `(row, col, element)` triple, or `None` once the
    /// wrapped traversal is drained; exhaustion is terminal. The result and
    /// the new state are exactly one production step of the model.
    pub fn produce_next(&mut self) -> (r: Option<(usize, usize, I::Item)>)
        requires
            old(self).wf(),
        ensures
            final(self).wf(),
            final(self).wrapped_rows() == old(self).wrapped_rows(),
            final(self).wrapped_cols() == old(self).wrapped_cols(),
            final(self).backing() == old(self).backing(),
            final(self).elems() == old(self).elems(),
            ({
                let stepped = produce_step(
                    old(self).wrapped_cols() as int,
                    old(self).elems(),
                    old(self).position(),
                    old(self).exhausted(),
                );
                &&& match r {
                    Some(t) => stepped.0 == Some((t.0 as int, t.1 as int, t.2)),
                    None => stepped.0 is None,
                }
                &&& final(self).position() == stepped.1
                &&& final(self).exhausted() == stepped.2
            }),
    {
        proof {
            self.iter.storage_bounds();
        }
        match self.iter.produce_next() {
            None => None,
            Some(a) => {
                let ret = (self.row, self.col, a);
                proof {
                    lemma_fundamental_div_mod_converse(
                        self.position(),
                        self.iter.cols_spec() as int,
                        self.row as int,
                        self.col as int,
                    );
                    assert(self.row as int <= (self.row as int) * (self.iter.cols_spec() as int))
                        by (nonlinear_arith)
                        requires
                            self.row >= 0,
                            self.iter.cols_spec() >= 1,
                    ;
                    lemma_mul_is_distributive_add_other_way(
                        self.iter.cols_spec() as int,
                        self.row as int,
                        1,
                    );
                    assert(self.row as int + 1 <= (self.row as int + 1) * (
                    self.iter.cols_spec() as int)) by (nonlinear_arith)
                        requires
                            self.row as int + 1 >= 0,
                            self.iter.cols_spec() >= 1,
                    ;
                }
                self.col = self.col + 1;
                if self.col == self.iter.cols() {
                    self.col = 0;
                    self.row = self.row + 1;
                }
                Some(ret)
            },
        }
    }

    /// Advances past `n` elements and produces the triple for the one after,
    /// or drains the traversal and returns `None` if fewer than `n + 1`
    /// remain. The yielded coordinates are those of the produced element; the
    /// counters are left pointing at the position after it. The result and
    /// the new state are exactly one skip step of the model.
    pub fn skip(&mut self, n: usize) -> (r: Option<(usize, usize, I::Item)>)
        requires
            old(self).wf(),
        ensures
            final(self).wf(),
            final(self).wrapped_rows() == old(self).wrapped_rows(),
            final(self).wrapped_cols() == old(self).wrapped_cols(),
            final(self).backing() == old(self).backing(),
            final(self).elems() == old(self).elems(),
            ({
                let stepped = skip_step(
                    old(self).wrapped_cols() as int,
                    old(self).elems(),
                    old(self).position(),
                    old(self).exhausted(),
                    n as int,
                );
                &&& match r {
                    Some(t) => stepped.0 == Some((t.0 as int, t.1 as int, t.2)),
                    None => stepped.0 is None,
                }
                &&& final(self).position() == stepped.1
                &&& final(self).exhausted() == stepped.2
            }),
    {
        proof {
            self.iter.storage_bounds();
        }
        match self.iter.skip(n) {
            None => None,
            Some(a) => {
                let cols: usize = self.iter.cols();
                let cur: usize = self.row * cols + self.col + n;
                let j: usize = cur % cols;
                proof {
                    lemma_fundamental_div_mod(cur as int, cols as int);
                    assert((cols as int) * ((cur as int) / (cols as int)) >= 0)
                        by (nonlinear_arith)
                        requires
                            cols >= 1,
                            (cur as int) / (cols as int) >= 0,
                    ;
                    lemma_div_multiples_vanish((cur as int) / (cols as int), cols as int);
                }
                let i: usize = (cur - j) / cols;
                proof {
                    assert((i as int) * (cols as int) + (j as int) == cur as int)
                        by (nonlinear_arith)
                        requires
                            i as int == (cur as int) / (cols as int),
                            j as int == (cur as int) % (cols as int),
                            cur as int == (cols as int) * ((cur as int) / (cols as int)) + ((
                            cur as int) % (cols as int)),
                    ;
                    assert(i as int <= (i as int) * (cols as int)) by (nonlinear_arith)
                        requires
                            i >= 0,
                            cols >= 1,
                    ;
                    lemma_mul_is_distributive_add_other_way(cols as int, i as int, 1);
                    assert(i as int + 1 <= (i as int + 1) * (cols as int)) by (nonlinear_arith)
                        requires
                            i as int + 1 >= 0,
                            cols >= 1,
                    ;
                }
                self.col = j + 1;
                self.row = i;
                if self.col == cols {
                    self.row = self.row + 1;
                    self.col = 0;
                }
                Some((i, j, a))
            },
        }
    }

    /// Delegates the wrapped traversal's size estimate, unadjusted.
    pub fn remaining_count_hint(&self) -> (r: (usize, Option<usize>))
        requires
            self.wf(),
        ensures
            self.exhausted() ==> r.0 == 0,
            !self.exhausted() ==> {
                &&& r.0 <= self.elems().len() - self.position()
                &&& (r.1 matches Some(u) ==> self.elems().len() - self.position() <= u)
            },
    {
        self.iter.remaining_count_hint()
    }

    /// Drains the wrapped traversal and returns how many elements remained;
    /// no coordinates are produced.
    pub fn consume_count(self) -> (r: usize)
        requires
            self.wf(),
        ensures
            r == if self.exhausted() {
                0int
            } else {
                self.elems().len() - self.position()
            },
    {
        proof {
            self.iter.storage_bounds();
        }
        self.iter.consume_count()
    }

    /// Gives the wrapped traversal back.
    pub fn into_inner(self) -> (r: I)
        requires
            self.wf(),
        ensures
            r == self.inner(),
            r.rows_spec() == self.wrapped_rows(),
            r.cols_spec() == self.wrapped_cols(),
            r.storage() == self.backing(),
            self.elems() == r.storage().skip(r.storage().len() - self.elems().len()),
            r.produced() == r.storage().len() - (if self.exhausted() {
                0int
            } else {
                self.elems().len() - self.position()
            }),
    {
        proof {
            self.iter.storage_bounds();
        }
        self.iter
    }
}

impl<I: Iterator2dMut> Enumerate2d<I> {
    /// Replaces the element most recently produced by this adapter — the one
    /// at position `position() - 1` — with `v`, in place in the backing
    /// storage.
    pub fn set_last(&mut self, v: I::Item)
        requires
            old(self).wf(),
            0 < old(self).position(),
            old(self).exhausted() ==> old(self).position() == old(self).elems().len(),
        ensures
            final(self).wf(),
            final(self).wrapped_rows() == old(self).wrapped_rows(),
            final(self).wrapped_cols() == old(self).wrapped_cols(),
            final(self).position() == old(self).position(),
            final(self).exhausted() == old(self).exhausted(),
            final(self).elems() == old(self).elems().update(old(self).position() - 1, v),
            final(self).backing() == old(self).backing().update(
                old(self).backing().len() - old(self).elems().len() + old(self).position() - 1,
                v,
            ),
    {
        proof {
            self.iter.storage_bounds();
            assert(self.start@ + self.position() == self.iter.produced());
        }
        let ghost previous: Seq<I::Item> = self.iter.storage();
        let ghost consumed: nat = self.iter.produced();
        self.iter.set_last(v);
        proof {
            assert(self.iter.storage().skip(self.start@ as int) =~= previous.skip(
                self.start@ as int,
            ).update(consumed - 1 - self.start@, v));
        }
    }
}

} // verus!
