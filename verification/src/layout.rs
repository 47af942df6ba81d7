//! What is known about the target of a pointer without reading memory.
use vstd::prelude::*;

verus! {

/// Runtime identity of a fixed-size type. Two tags are equal exactly when
/// they name the same type.
#[derive(Clone, Copy, PartialEq, Eq, Structural, Debug)]
pub struct TypeTag {
    pub id: u64,
}

/// A fixed-size type: its identity, its size in bytes and its alignment.
#[derive(Clone, Copy, PartialEq, Eq, Structural, Debug)]
pub struct TypeInfo {
    pub tag: TypeTag,
    pub size: usize,
    pub align: usize,
}

/// The auto-trait promises that an erased handle still makes.
#[derive(Clone, Copy, PartialEq, Eq, Structural, Debug)]
pub enum Capability {
    /// Nothing beyond being destructible.
    Local,
    /// May be moved to another thread.
    Send,
    /// May be moved to, and shared with, another thread.
    SendSync,
}

/// The objects that a pointee is made of: `count` objects, each `stride`
/// bytes after the one before, every one aligned to `align`.
#[derive(Clone, Copy, PartialEq, Eq, Structural, Debug)]
pub struct Layout {
    pub count: usize,
    pub stride: usize,
    pub align: usize,
}

impl Layout {
    /// Bytes from the first object to one past the last.
    pub open spec fn extent(&self) -> nat {
        (self.count * self.stride) as nat
    }

    /// The alignment is positive, it divides the stride, and the extent is
    /// no larger than the largest offset a pointer can be moved by.
    pub open spec fn wf(&self) -> bool {
        &&& self.align > 0
        &&& self.stride as int % self.align as int == 0
        &&& self.extent() <= isize::MAX
    }

    /// Computes [`Layout::wf`].
    pub fn check(&self) -> (ok: bool)
        ensures
            ok == self.wf(),
    {
        if self.align == 0 || self.stride % self.align != 0 {
            return false;
        }
        match self.count.checked_mul(self.stride) {
            Some(extent) => extent <= isize::MAX as usize,
            None => false,
        }
    }
}

/// Pointer metadata: the static type of a pointer together with whatever a
/// wide pointer carries beside the address.
pub trait Pointee: Copy {
    /// Whether the metadata is consistent in itself.
    spec fn wf(&self) -> bool;

    /// The objects the pointee is made of.
    spec fn layout(&self) -> Layout;

    /// Computes [`Pointee::wf`].
    fn check(&self) -> (ok: bool)
        ensures
            ok == self.wf(),
    ;

    /// Computes [`Pointee::layout`].
    fn measure(&self) -> (l: Layout)
        ensures
            l == self.layout(),
    ;
}

/// Metadata of a thin pointer: one value of type `ty`.
#[derive(Clone, Copy, PartialEq, Eq, Structural, Debug)]
pub struct Thin {
    pub ty: TypeInfo,
}

/// Metadata of a slice pointer: `len` contiguous values of type `elem`.
#[derive(Clone, Copy, PartialEq, Eq, Structural, Debug)]
pub struct Slice {
    pub elem: TypeInfo,
    pub len: usize,
}

/// Metadata of a pointer to a NUL-terminated byte string: `len` bytes, the
/// terminator included.
#[derive(Clone, Copy, PartialEq, Eq, Structural, Debug)]
pub struct CStr {
    pub len: usize,
}

/// Metadata of a type-erased pointer: the concrete type `ty` behind it and
/// the capabilities the erased type still promises.
#[derive(Clone, Copy, PartialEq, Eq, Structural, Debug)]
pub struct Dyn {
    pub ty: TypeInfo,
    pub cap: Capability,
}

impl Pointee for Thin {
    open spec fn wf(&self) -> bool {
        true
    }

    fn check(&self) -> (ok: bool) {
        true
    }

    open spec fn layout(&self) -> Layout {
        Layout { count: 1, stride: self.ty.size, align: self.ty.align }
    }

    fn measure(&self) -> (l: Layout) {
        Layout { count: 1, stride: self.ty.size, align: self.ty.align }
    }
}

impl Pointee for Slice {
    open spec fn wf(&self) -> bool {
        true
    }

    fn check(&self) -> (ok: bool) {
        true
    }

    open spec fn layout(&self) -> Layout {
        Layout { count: self.len, stride: self.elem.size, align: self.elem.align }
    }

    fn measure(&self) -> (l: Layout) {
        Layout { count: self.len, stride: self.elem.size, align: self.elem.align }
    }
}

impl Pointee for CStr {
    open spec fn wf(&self) -> bool {
        self.len >= 1
    }

    fn check(&self) -> (ok: bool) {
        self.len >= 1
    }

    open spec fn layout(&self) -> Layout {
        Layout { count: self.len, stride: 1, align: 1 }
    }

    fn measure(&self) -> (l: Layout) {
        Layout { count: self.len, stride: 1, align: 1 }
    }
}

impl Pointee for Dyn {
    open spec fn wf(&self) -> bool {
        true
    }

    fn check(&self) -> (ok: bool) {
        true
    }

    open spec fn layout(&self) -> Layout {
        Layout { count: 1, stride: self.ty.size, align: self.ty.align }
    }

    fn measure(&self) -> (l: Layout) {
        Layout { count: 1, stride: self.ty.size, align: self.ty.align }
    }
}

} // verus!
