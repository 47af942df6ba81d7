//! By-value iteration over an owned slice: two cursors that move towards
//! each other, and what is left to destroy when the iteration is abandoned.
use vstd::prelude::*;
use vstd::wrapping::usize_specs::wrapping_sub;
use crate::arith::{
    lemma_aligned_slot, lemma_exact, lemma_mul_le, lemma_mul_lt, lemma_mul_step, lemma_multiple,
};
use crate::effect::Release;
use crate::layout::{Slice, TypeInfo};
use crate::pointer::Pointer;

verus! {

/// How the caller obtains an element that the iterator hands out.
#[derive(Clone, Copy, PartialEq, Eq, Structural, Debug)]
pub enum Item {
    /// The element is read out of the slot at `addr`, which the iterator
    /// will not touch again.
    Read { addr: usize },
    /// The element has zero size: it is made up, and no memory is read.
    Conjure,
}

/// The end of an iterator at which a step is taken.
#[derive(Clone, Copy, PartialEq, Eq, Structural, Debug)]
pub enum Side {
    Front,
    Back,
}

/// The part of a slice that an iterator still owns: the elements with
/// indices from `front` up to, not including, `back`, in a slice of values
/// of type `elem` that starts at `base`.
pub struct Span {
    pub base: usize,
    pub elem: TypeInfo,
    pub front: nat,
    pub back: nat,
}

impl Span {
    /// The span is in order, and its slots are aligned and lie within the
    /// address space.
    pub open spec fn wf(&self) -> bool {
        &&& self.base != 0
        &&& self.front <= self.back <= usize::MAX
        &&& self.elem.align > 0
        &&& self.base as int % self.elem.align as int == 0
        &&& self.elem.size as int % self.elem.align as int == 0
        &&& self.back * self.elem.size <= isize::MAX
        &&& self.base + self.back * self.elem.size <= usize::MAX
    }

    /// The span that covers all of the slice behind `ptr`.
    pub open spec fn whole(ptr: Pointer<Slice>) -> Span {
        Span { base: ptr.addr, elem: ptr.meta.elem, front: 0, back: ptr.meta.len as nat }
    }

    /// How many elements are still owned.
    pub open spec fn remaining(&self) -> nat {
        (self.back - self.front) as nat
    }

    /// Address of the slot of the element with index `i`. Elements of zero
    /// size all share the slot at `base`.
    pub open spec fn slot(&self, i: int) -> int {
        self.base + i * self.elem.size
    }

    /// How the element with index `i` is obtained.
    pub open spec fn fetch(&self, i: int) -> Item {
        if self.elem.size == 0 {
            Item::Conjure
        } else {
            Item::Read { addr: self.slot(i) as usize }
        }
    }

    /// The span after a step at the front.
    pub open spec fn after_next(&self) -> Span {
        if self.front < self.back {
            Span { front: self.front + 1, ..*self }
        } else {
            *self
        }
    }

    /// The span after a step at the back.
    pub open spec fn after_next_back(&self) -> Span {
        if self.front < self.back {
            Span { back: (self.back - 1) as nat, ..*self }
        } else {
            *self
        }
    }

    /// The span after a step at `side`.
    pub open spec fn after_step(&self, side: Side) -> Span {
        match side {
            Side::Front => self.after_next(),
            Side::Back => self.after_next_back(),
        }
    }

    /// The span after `steps`, in order.
    pub open spec fn after_steps(&self, steps: Seq<Side>) -> Span
        decreases steps.len(),
    {
        if steps.len() == 0 {
            *self
        } else {
            self.after_steps(steps.drop_last()).after_step(steps.last())
        }
    }

    /// Every slot of the slice, up to the back of the span, lies within the
    /// region that starts at `base`, at an aligned address, and no two slots
    /// of positive size overlap.
    pub proof fn lemma_slot_within(&self, i: int)
        requires
            self.wf(),
            0 <= i < self.back,
        ensures
            self.base <= self.slot(i),
            self.slot(i) + self.elem.size == self.slot(i + 1),
            self.slot(i + 1) <= self.slot(self.back as int) <= usize::MAX,
            self.slot(i) % self.elem.align as int == 0,
    {
        let width = self.elem.size as int;
        lemma_mul_step(i, width);
        lemma_mul_le(i, self.back as int, width);
        lemma_mul_le(i + 1, self.back as int, width);
        lemma_aligned_slot(self.base as int, i, width, self.elem.align as int);
    }

    /// The plan for giving the allocation back while this span is still
    /// owned: the deallocation of `base` is secured first, then every
    /// element of the span is destroyed, from the front.
    pub open spec fn release(&self) -> Release {
        Release {
            first: self.slot(self.front as int) as usize,
            count: self.remaining() as usize,
            stride: self.elem.size,
            free: self.base,
            guarded: true,
        }
    }
}

/// An iterator that owns what is left of a `malloc`-ed slice.
#[derive(Debug)]
pub struct SliceIter {
    buf: usize,
    ptr: usize,
    end: usize,
    elem: TypeInfo,
}

impl SliceIter {
    #[verifier::type_invariant]
    spec fn inv(self) -> bool {
        &&& self.buf != 0
        &&& self.elem.align > 0
        &&& self.buf as int % self.elem.align as int == 0
        &&& self.elem.size as int % self.elem.align as int == 0
        &&& if self.elem.size == 0 {
            wrapping_sub(self.ptr, self.buf) + wrapping_sub(self.end, self.ptr) <= usize::MAX
        } else {
            &&& self.buf <= self.ptr <= self.end
            &&& (self.ptr - self.buf) % (self.elem.size as int) == 0
            &&& (self.end - self.buf) % (self.elem.size as int) == 0
            &&& self.end - self.buf <= isize::MAX
        }
    }

    /// The part of the slice that the iterator still owns.
    ///
    /// For elements of positive size the cursors are addresses, and an index
    /// is the distance from the base in elements. For elements of zero size
    /// the cursors only count: an index is the distance from the base as it
    /// stands, taken with wrap-around.
    pub closed spec fn view(&self) -> Span {
        if self.elem.size == 0 {
            Span {
                base: self.buf,
                elem: self.elem,
                front: wrapping_sub(self.ptr, self.buf) as nat,
                back: (wrapping_sub(self.ptr, self.buf) + wrapping_sub(self.end, self.ptr)) as nat,
            }
        } else {
            Span {
                base: self.buf,
                elem: self.elem,
                front: ((self.ptr - self.buf) / (self.elem.size as int)) as nat,
                back: ((self.end - self.buf) / (self.elem.size as int)) as nat,
            }
        }
    }

    proof fn lemma_cursors(self)
        requires
            self.inv(),
        ensures
            self@.wf(),
            self.elem.size > 0 ==> self.ptr == self@.slot(self@.front as int) && self.end
                == self@.slot(self@.back as int),
            self.elem.size > 0 ==> self.end - self.ptr == self@.remaining() * self.elem.size,
            self.elem.size == 0 ==> self@.remaining() == wrapping_sub(self.end, self.ptr),
            self.elem.size > 0 && self@.remaining() > 0 ==> self.end - self.ptr >= self.elem.size,
            (self.ptr == self.end) <==> self@.remaining() == 0,
    {
        let w = self.elem.size as int;
        if w > 0 {
            lemma_exact(self.ptr - self.buf, w);
            lemma_exact(self.end - self.buf, w);
            let f = (self.ptr - self.buf) / w;
            let b = (self.end - self.buf) / w;
            assert(f <= b) by (nonlinear_arith)
                requires
                    f * w <= b * w,
                    w > 0,
            ;
            assert(b <= b * w) by (nonlinear_arith)
                requires
                    0 <= b,
                    w > 0,
            ;
            assert((b - f) * w == b * w - f * w) by (nonlinear_arith);
            if f < b {
                lemma_mul_lt(f, b, w);
            }
        }
    }

    /// Takes over the slice behind `ptr`, with both cursors at its ends.
    pub(crate) fn over(ptr: Pointer<Slice>) -> (iter: SliceIter)
        requires
            ptr.valid(),
        ensures
            iter@ == Span::whole(ptr),
            iter@.wf(),
    {
        let size: usize = ptr.meta.elem.size;
        let end: usize = if size == 0 {
            // A count, not an address: it may wrap around.
            ptr.addr.wrapping_add(ptr.meta.len)
        } else {
            ptr.addr + ptr.meta.len * size
        };
        proof {
            if size > 0 {
                lemma_multiple(ptr.meta.len as int, size as int);
                lemma_multiple(0, size as int);
            }
        }
        let iter = SliceIter { buf: ptr.addr, ptr: ptr.addr, end, elem: ptr.meta.elem };
        proof {
            iter.lemma_cursors();
        }
        iter
    }

    /// Takes the element at the front, if one is left.
    pub fn next(&mut self) -> (item: Option<Item>)
        ensures
            final(self)@ == old(self)@.after_next(),
            final(self)@.wf(),
            item == if old(self)@.remaining() > 0 {
                Some(old(self)@.fetch(old(self)@.front as int))
            } else {
                None
            },
    {
        proof {
            use_type_invariant(&*self);
            self.lemma_cursors();
        }
        if self.ptr == self.end {
            None
        } else if self.elem.size == 0 {
            self.ptr = self.ptr.wrapping_add(1);
            proof {
                self.lemma_cursors();
            }
            Some(Item::Conjure)
        } else {
            let slot: usize = self.ptr;
            proof {
                let w = self.elem.size as int;
                let f = self@.front as int;
                lemma_mul_step(f, w);
                lemma_multiple(f + 1, w);
            }
            self.ptr = self.ptr + self.elem.size;
            proof {
                self.lemma_cursors();
            }
            Some(Item::Read { addr: slot })
        }
    }

    /// Takes the element at the back, if one is left.
    pub fn next_back(&mut self) -> (item: Option<Item>)
        ensures
            final(self)@ == old(self)@.after_next_back(),
            final(self)@.wf(),
            item == if old(self)@.remaining() > 0 {
                Some(old(self)@.fetch(old(self)@.back - 1))
            } else {
                None
            },
    {
        proof {
            use_type_invariant(&*self);
            self.lemma_cursors();
        }
        if self.end == self.ptr {
            None
        } else if self.elem.size == 0 {
            self.end = self.end.wrapping_sub(1);
            proof {
                self.lemma_cursors();
            }
            Some(Item::Conjure)
        } else {
            proof {
                let w = self.elem.size as int;
                let b = self@.back as int;
                lemma_mul_step(b, w);
                lemma_multiple(b - 1, w);
            }
            self.end = self.end - self.elem.size;
            proof {
                self.lemma_cursors();
            }
            Some(Item::Read { addr: self.end })
        }
    }

    /// How many elements are left.
    pub fn len(&self) -> (n: usize)
        ensures
            n == self@.remaining(),
    {
        proof {
            use_type_invariant(self);
            self.lemma_cursors();
            if self.elem.size > 0 {
                lemma_multiple(self@.remaining() as int, self.elem.size as int);
            }
        }
        let diff: usize = self.end.wrapping_sub(self.ptr);
        match diff.checked_div(self.elem.size) {
            Some(len) => len,
            // Elements of zero size: the distance is the count.
            None => diff,
        }
    }

    /// The bounds on how many elements are left: both are [`SliceIter::len`].
    pub fn size_hint(&self) -> (bounds: (usize, Option<usize>))
        ensures
            bounds.0 == self@.remaining(),
            bounds.1 == Some(bounds.0),
    {
        let len: usize = self.len();
        (len, Some(len))
    }

    /// Ends the iteration: the plan that destroys every element still owned
    /// and gives the allocation back. The deallocation is secured before the
    /// first destructor runs, so a destructor that fails cannot keep the
    /// block allocated.
    #[must_use]
    pub fn teardown(self) -> (plan: Release)
        ensures
            plan == self@.release(),
            plan.wf(),
    {
        proof {
            use_type_invariant(&self);
            self.lemma_cursors();
        }
        let count: usize = self.len();
        let first: usize = if self.elem.size == 0 {
            self.buf
        } else {
            self.ptr
        };
        Release { first, count, stride: self.elem.size, free: self.buf, guarded: true }
    }

    /// Counts the elements that are left and ends the iteration.
    #[must_use]
    pub fn count(self) -> (out: (usize, Release))
        ensures
            out.0 == self@.remaining(),
            out.1 == self@.release(),
            out.1.wf(),
    {
        let n: usize = self.len();
        (n, self.teardown())
    }

    /// Takes the element at the back, if one is left, and ends the
    /// iteration.
    #[must_use]
    pub fn last(self) -> (out: (Option<Item>, Release))
        ensures
            out.0 == if self@.remaining() > 0 {
                Some(self@.fetch(self@.back - 1))
            } else {
                None
            },
            out.1 == self@.after_next_back().release(),
            out.1.wf(),
    {
        let mut iter = self;
        let item = iter.next_back();
        (item, iter.teardown())
    }
}

} // verus!
