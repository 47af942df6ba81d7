//! Raw pointers as plain values: an address and the pointee's metadata.
use vstd::prelude::*;
use crate::arith::{lemma_aligned_slot, lemma_mul_le};
use crate::layout::{Capability, Dyn, Pointee, Slice, Thin, TypeTag};

verus! {

/// A raw pointer. It owns nothing and may be null or dangling.
#[derive(PartialEq, Eq, Debug)]
pub struct Pointer<S: Pointee> {
    pub addr: usize,
    pub meta: S,
}

impl<S: Pointee> Clone for Pointer<S> {
    fn clone(&self) -> (copy: Self)
        ensures
            copy == *self,
    {
        *self
    }
}

impl<S: Pointee> Copy for Pointer<S> {

}

impl<S: Pointee> Pointer<S> {
    /// What can be checked, on the numbers alone, of a pointer that is to be
    /// adopted: it is not null, it is aligned, and the objects it points to
    /// lie within the address space.
    pub open spec fn valid(&self) -> bool {
        &&& self.addr != 0
        &&& self.meta.wf()
        &&& self.meta.layout().wf()
        &&& self.addr as int % self.meta.layout().align as int == 0
        &&& self.addr + self.meta.layout().extent() <= usize::MAX
    }

    /// Address of the `i`-th object of the pointee.
    pub open spec fn slot(&self, i: int) -> int {
        self.addr + i * self.meta.layout().stride
    }

    /// Computes [`Pointer::valid`].
    pub fn is_valid(&self) -> (ok: bool)
        ensures
            ok == self.valid(),
    {
        if self.addr == 0 || !self.meta.check() {
            return false;
        }
        let layout = self.meta.measure();
        if !layout.check() || self.addr % layout.align != 0 {
            return false;
        }
        self.addr <= usize::MAX - layout.count * layout.stride
    }

    /// Computes [`Pointer::slot`]. The index may be one past the last
    /// object.
    pub fn slot_at(&self, i: usize) -> (addr: usize)
        requires
            self.valid(),
            i <= self.meta.layout().count,
        ensures
            addr == self.slot(i as int),
            addr as int % self.meta.layout().align as int == 0,
            self.addr <= addr <= self.addr + self.meta.layout().extent(),
    {
        let layout = self.meta.measure();
        proof {
            lemma_mul_le(i as int, layout.count as int, layout.stride as int);
            lemma_aligned_slot(
                self.addr as int,
                i as int,
                layout.stride as int,
                layout.align as int,
            );
        }
        self.addr + i * layout.stride
    }

    /// Whether the address is zero.
    pub fn is_null(&self) -> (b: bool)
        ensures
            b == (self.addr == 0),
    {
        self.addr == 0
    }
}

impl Pointer<Thin> {
    /// What the allocator's contract says of a pointer that is its answer to
    /// a request for `bytes` bytes and is not null: the block is aligned for
    /// the pointee's type, it is no larger than the largest offset, and it
    /// ends within the address space.
    pub open spec fn spec_answers(&self, bytes: usize) -> bool {
        &&& self.meta.ty.align > 0
        &&& self.meta.ty.size as int % self.meta.ty.align as int == 0
        &&& self.addr as int % self.meta.ty.align as int == 0
        &&& bytes <= isize::MAX
        &&& self.addr + bytes <= usize::MAX
    }

    /// Whether the pointer can be the allocator's answer to a request for
    /// `bytes` bytes.
    #[verifier::when_used_as_spec(spec_answers)]
    pub fn answers(&self, bytes: usize) -> (ok: bool)
        ensures
            ok == self.spec_answers(bytes),
    {
        let ty = self.meta.ty;
        ty.align != 0 && ty.size % ty.align == 0 && self.addr % ty.align == 0 && bytes
            <= isize::MAX as usize && self.addr <= usize::MAX - bytes
    }

    /// The same address seen as a type-erased pointer with capability `cap`.
    pub open spec fn spec_erased(&self, cap: Capability) -> Pointer<Dyn> {
        Pointer { addr: self.addr, meta: Dyn { ty: self.meta.ty, cap } }
    }

    /// The same address seen as a type-erased pointer with capability `cap`.
    #[verifier::when_used_as_spec(spec_erased)]
    pub fn erased(&self, cap: Capability) -> (any: Pointer<Dyn>)
        ensures
            any == self.spec_erased(cap),
    {
        Pointer { addr: self.addr, meta: Dyn { ty: self.meta.ty, cap } }
    }

    /// The same address seen as the start of `len` values of the pointee's
    /// type.
    pub open spec fn spec_as_slice(&self, len: usize) -> Pointer<Slice> {
        Pointer { addr: self.addr, meta: Slice { elem: self.meta.ty, len } }
    }

    /// The same address seen as the start of `len` values of the pointee's
    /// type.
    #[verifier::when_used_as_spec(spec_as_slice)]
    pub fn as_slice(&self, len: usize) -> (slice: Pointer<Slice>)
        ensures
            slice == self.spec_as_slice(len),
    {
        Pointer { addr: self.addr, meta: Slice { elem: self.meta.ty, len } }
    }
}

impl Pointer<Dyn> {
    /// Whether the concrete type behind the pointer is the one that `target`
    /// names.
    pub open spec fn spec_is_type(&self, target: TypeTag) -> bool {
        self.meta.ty.tag == target
    }

    /// Whether the concrete type behind the pointer is the one that `target`
    /// names.
    #[verifier::when_used_as_spec(spec_is_type)]
    pub fn is_type(&self, target: TypeTag) -> (same: bool)
        ensures
            same == self.spec_is_type(target),
    {
        self.meta.ty.tag.id == target.id
    }

    /// The same address seen as a pointer to the concrete type.
    pub open spec fn spec_concrete(&self) -> Pointer<Thin> {
        Pointer { addr: self.addr, meta: Thin { ty: self.meta.ty } }
    }

    /// The same address seen as a pointer to the concrete type.
    #[verifier::when_used_as_spec(spec_concrete)]
    pub fn concrete(&self) -> (thin: Pointer<Thin>)
        ensures
            thin == self.spec_concrete(),
    {
        Pointer { addr: self.addr, meta: Thin { ty: self.meta.ty } }
    }
}

} // verus!
