//! The owning handle and the conversions that pass its allocation on.
use vstd::prelude::*;
use crate::effect::Release;
use crate::iter::{SliceIter, Span};
use crate::c_str::{c_strlen, strlen, terminated};
use crate::layout::{CStr, Capability, Dyn, Pointee, Slice, Thin, TypeInfo, TypeTag};
use crate::pointer::Pointer;

verus! {

/// The one owner of a `malloc`-ed allocation.
///
/// A handle cannot be copied. Every function that consumes it either hands
/// the allocation to exactly one new owner or returns the plan by which the
/// allocation is given back.
#[derive(Debug)]
pub struct Malloced<S: Pointee> {
    ptr: Pointer<S>,
}

/// A handle whose pointee will stay where it is: the pointer can be read,
/// and the allocation given back, but the handle itself is not handed out
/// again.
#[derive(Debug)]
pub struct Pinned<S: Pointee> {
    inner: Malloced<S>,
}

impl<S: Pointee> Malloced<S> {
    #[verifier::type_invariant]
    spec fn inv(self) -> bool {
        self.ptr.valid()
    }

    /// The pointer that the handle owns.
    pub closed spec fn view(&self) -> Pointer<S> {
        self.ptr
    }

    /// The plan by which a handle that owns `ptr` gives it back: the pointee
    /// is destroyed in place, then its address is freed.
    pub open spec fn release_of(ptr: Pointer<S>) -> Release {
        Release {
            first: ptr.addr,
            count: ptr.meta.layout().count,
            stride: ptr.meta.layout().stride,
            free: ptr.addr,
            guarded: false,
        }
    }

    /// A handle is nothing but the pointer it owns: giving the pointer up
    /// and adopting it again yields the handle that was there before.
    pub proof fn lemma_raw_round_trip(handle: Self, readopted: Self)
        requires
            readopted@ == handle@,
        ensures
            readopted == handle,
    {
    }

    /// Takes ownership of the allocation behind `ptr`.
    ///
    /// The caller vouches for what cannot be checked here: that `ptr` came
    /// from `malloc`, points to initialised data, and has no other owner.
    pub fn from_raw(ptr: Pointer<S>) -> (this: Self)
        requires
            ptr.valid(),
        ensures
            this@ == ptr,
    {
        Malloced { ptr }
    }

    /// Gives up ownership without touching the allocation.
    pub fn into_raw(this: Self) -> (ptr: Pointer<S>)
        ensures
            ptr == this@,
            ptr.valid(),
    {
        Self::leak(this)
    }

    /// Pins the pointee. The allocation never moves, so this only changes
    /// what the handle lets its holder do.
    pub fn into_pin(this: Self) -> (pinned: Pinned<S>)
        ensures
            pinned == Pinned::pinning(this),
            pinned@ == this@,
    {
        Pinned { inner: this }
    }

    /// Gives up ownership for good: the allocation stays as it is unless
    /// the pointer is adopted again.
    pub fn leak(this: Self) -> (ptr: Pointer<S>)
        ensures
            ptr == this@,
            ptr.valid(),
    {
        proof {
            use_type_invariant(&this);
        }
        this.ptr
    }

    /// The pointer, for reading.
    pub fn as_ptr(this: &Self) -> (ptr: Pointer<S>)
        ensures
            ptr == this@,
            ptr.valid(),
    {
        proof {
            use_type_invariant(this);
        }
        this.ptr
    }

    /// The pointer, for writing.
    pub fn as_mut_ptr(this: &mut Self) -> (ptr: Pointer<S>)
        ensures
            ptr == old(this)@,
            ptr.valid(),
            *final(this) == *old(this),
    {
        proof {
            use_type_invariant(&*this);
        }
        this.ptr
    }

    /// Ends the handle's life: the plan that destroys the pointee in place
    /// and then frees its address.
    #[must_use]
    pub fn release(this: Self) -> (plan: Release)
        ensures
            plan == Self::release_of(this@),
            plan.wf(),
    {
        proof {
            use_type_invariant(&this);
        }
        let layout = this.ptr.meta.measure();
        Release {
            first: this.ptr.addr,
            count: layout.count,
            stride: layout.stride,
            free: this.ptr.addr,
            guarded: false,
        }
    }
}

impl<S: Pointee> Pinned<S> {
    /// The pointer that the pinned handle owns.
    pub closed spec fn view(&self) -> Pointer<S> {
        self.inner@
    }

    /// The pinned handle that `handle` turns into.
    pub closed spec fn pinning(handle: Malloced<S>) -> Pinned<S> {
        Pinned { inner: handle }
    }

    /// Pinning keeps the pointer.
    pub proof fn lemma_pinning_keeps_pointer(handle: Malloced<S>)
        ensures
            Self::pinning(handle)@ == handle@,
    {
    }

    /// The pointer, for reading.
    pub fn as_ptr(this: &Self) -> (ptr: Pointer<S>)
        ensures
            ptr == this@,
            ptr.valid(),
    {
        Malloced::as_ptr(&this.inner)
    }

    /// Ends the handle's life, as [`Malloced::release`] does.
    #[must_use]
    pub fn release(this: Self) -> (plan: Release)
        ensures
            plan == Malloced::<S>::release_of(this@),
            plan.wf(),
    {
        Malloced::release(this.inner)
    }
}

impl<S: Pointee> From<Malloced<S>> for Pinned<S> {
    fn from(handle: Malloced<S>) -> (pinned: Self) {
        Malloced::into_pin(handle)
    }
}

impl<S: Pointee> vstd::std_specs::convert::FromSpecImpl<Malloced<S>> for Pinned<S> {
    open spec fn obeys_from_spec() -> bool {
        true
    }

    open spec fn from_spec(handle: Malloced<S>) -> Self {
        Self::pinning(handle)
    }
}

impl Malloced<Thin> {
    /// Forgets the static type. The concrete type stays on record in the
    /// pointer's metadata.
    pub fn into_any(this: Self) -> (any: Malloced<Dyn>)
        ensures
            any@ == this@.erased(Capability::Local),
    {
        Self::erase(this, Capability::Local)
    }

    /// Forgets the static type of a pointee that may be sent to and shared
    /// with other threads.
    pub fn into_any_send(this: Self) -> (any: Malloced<Dyn>)
        ensures
            any@ == this@.erased(Capability::SendSync),
    {
        Self::erase(this, Capability::SendSync)
    }

    fn erase(this: Self, cap: Capability) -> (any: Malloced<Dyn>)
        ensures
            any@ == this@.erased(cap),
    {
        Malloced::from_raw(Self::into_raw(this).erased(cap))
    }
}

impl Malloced<Dyn> {
    /// Recovers the concrete type if it is the one that `target` names, and
    /// hands the handle back unchanged if it is not.
    pub fn downcast(self, target: TypeTag) -> (out: Result<Malloced<Thin>, Malloced<Dyn>>)
        ensures
            match out {
                Ok(typed) => self@.is_type(target) && typed@ == self@.concrete(),
                Err(any) => !self@.is_type(target) && any@ == self@,
            },
    {
        if self.ptr.is_type(target) {
            Ok(Malloced::from_raw(Malloced::into_raw(self).concrete()))
        } else {
            Err(self)
        }
    }
}

impl Malloced<Slice> {
    /// Takes ownership of `len` values that start at `data`.
    ///
    /// Beside what [`Malloced::from_raw`] asks, the caller vouches that all
    /// `len` values are initialised and lie in one allocation.
    pub fn slice_from_raw_parts(data: Pointer<Thin>, len: usize) -> (this: Self)
        requires
            data.as_slice(len).valid(),
        ensures
            this@ == data.as_slice(len),
    {
        Malloced::from_raw(data.as_slice(len))
    }

    /// Turns the handle into an iterator that owns every element.
    pub fn into_iter(self) -> (iter: SliceIter)
        ensures
            iter@ == Span::whole(self@),
            iter@.wf(),
    {
        let ptr = Malloced::into_raw(self);
        SliceIter::over(ptr)
    }

    /// Number of bytes to ask the allocator for when `len` values of type
    /// `elem` are to be stored: one byte for each value of zero size, so
    /// that the request is never for nothing.
    pub open spec fn alloc_bytes(elem: TypeInfo, len: usize) -> int {
        len * if elem.size == 0 {
            1int
        } else {
            elem.size as int
        }
    }

    /// Computes [`Malloced::alloc_bytes`], or `None` if that is more than
    /// can be asked for.
    pub fn alloc_size(elem: TypeInfo, len: usize) -> (size: Option<usize>)
        ensures
            size == if Self::alloc_bytes(elem, len) > usize::MAX {
                None
            } else {
                Some(Self::alloc_bytes(elem, len) as usize)
            },
    {
        let width: usize = if elem.size == 0 {
            1
        } else {
            elem.size
        };
        len.checked_mul(width)
    }

    /// Adopts what the allocator returned when it was asked for room for
    /// `len` values: nothing if it returned null, else the handle over the
    /// `len` values at `buf`.
    ///
    /// Of a `buf` that is not null the caller vouches that it is the answer
    /// to a request for [`Malloced::alloc_bytes`] bytes, and that the values
    /// have been written to their slots before the handle is used.
    pub fn from_alloc(buf: Pointer<Thin>, len: usize) -> (out: Option<Self>)
        requires
            buf.addr != 0 ==> Self::alloc_bytes(buf.meta.ty, len) <= usize::MAX && buf.answers(
                Self::alloc_bytes(buf.meta.ty, len) as usize,
            ),
        ensures
            match out {
                Some(this) => buf.addr != 0 && this@ == buf.as_slice(len),
                None => buf.addr == 0,
            },
    {
        if buf.is_null() {
            None
        } else {
            proof {
                let size = buf.meta.ty.size as int;
                if size == 0 {
                    assert(len * size == 0) by (nonlinear_arith)
                        requires
                            size == 0,
                    ;
                }
            }
            Some(Self::slice_from_raw_parts(buf, len))
        }
    }
}

impl Malloced<CStr> {
    /// The pointer to the C string at `addr`, of which `memory` holds the
    /// bytes: it spans the text and the terminator.
    pub open spec fn c_str_at(addr: usize, memory: Seq<u8>) -> Pointer<CStr> {
        Pointer { addr, meta: CStr { len: (c_strlen(memory) + 1) as usize } }
    }

    /// Takes ownership of the C string at `addr`. `memory` holds the bytes
    /// found from `addr` on, as far as the terminator at least.
    ///
    /// Beside what [`Malloced::from_raw`] asks, the caller vouches that the
    /// whole string lies in one allocation.
    pub fn from_ptr(addr: usize, memory: &[u8]) -> (this: Self)
        requires
            addr != 0,
            terminated(memory@),
            c_strlen(memory@) < isize::MAX,
            addr + c_strlen(memory@) + 1 <= usize::MAX,
        ensures
            this@ == Self::c_str_at(addr, memory@),
            this@.valid(),
    {
        let len: usize = strlen(memory) + 1;
        let ptr = Pointer { addr, meta: CStr { len } };
        assert(ptr.meta.layout().extent() == len) by (nonlinear_arith)
            requires
                ptr.meta.layout().extent() == len * 1,
        ;
        Malloced::from_raw(ptr)
    }

    /// The text of the string, without its terminator. `memory` holds the
    /// bytes found at the handle's address.
    pub fn to_bytes<'a>(this: &Self, memory: &'a [u8]) -> (text: &'a [u8])
        requires
            this@.meta.len <= memory@.len(),
        ensures
            text@ == memory@.subrange(0, this@.meta.len - 1),
    {
        proof {
            use_type_invariant(this);
        }
        vstd::slice::slice_subrange(memory, 0, this.ptr.meta.len - 1)
    }
}

} // verus!
