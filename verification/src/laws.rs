//! What holds of an allocation over the whole of its owned life, whatever
//! the sequence of conversions that it goes through.
use vstd::prelude::*;
use crate::arith::lemma_mul_le;
use crate::effect::{
    destroys, destructions, frees, lemma_run_destroys_once, lemma_run_misses, lemma_trace_frees,
    lemma_trace_order, Effect, Release,
};
use crate::handle::Malloced;
use crate::iter::{Side, Span};
use crate::layout::{CStr, Capability, Dyn, Slice, Thin, TypeTag};
use crate::pointer::Pointer;

verus! {

/// The pointer that a handle owns, of whichever kind.
pub enum Owned {
    Thin(Pointer<Thin>),
    Slice(Pointer<Slice>),
    CStr(Pointer<CStr>),
    Dyn(Pointer<Dyn>),
}

impl Owned {
    /// The address of the allocation.
    pub open spec fn addr(self) -> usize {
        match self {
            Owned::Thin(p) => p.addr,
            Owned::Slice(p) => p.addr,
            Owned::CStr(p) => p.addr,
            Owned::Dyn(p) => p.addr,
        }
    }

    /// The plan that [`Malloced::release`] returns for a handle that owns
    /// this pointer.
    pub open spec fn release(self) -> Release {
        match self {
            Owned::Thin(p) => Malloced::<Thin>::release_of(p),
            Owned::Slice(p) => Malloced::<Slice>::release_of(p),
            Owned::CStr(p) => Malloced::<CStr>::release_of(p),
            Owned::Dyn(p) => Malloced::<Dyn>::release_of(p),
        }
    }
}

/// Whoever owns the allocation at one moment: a handle, a pinned handle, or
/// an iterator.
pub enum Owner {
    Handle(Owned),
    Pinned(Owned),
    Iter(Span),
}

/// A conversion that passes the allocation from one owner to the next.
pub enum Step {
    /// [`Malloced::into_raw`] or [`Malloced::leak`], then
    /// [`Malloced::from_raw`] on the result.
    Readopt,
    /// [`Malloced::into_pin`].
    Pin,
    /// [`Malloced::into_any`] and [`Malloced::into_any_send`].
    Erase(Capability),
    /// [`Malloced::downcast`], whether it succeeds or not.
    Downcast(TypeTag),
    /// [`Malloced::into_iter`].
    IntoIter,
    /// [`crate::SliceIter::next`] and [`crate::SliceIter::next_back`].
    Take(Side),
}

/// How an owner's life ends.
pub enum End {
    /// The owner is released, or torn down; the destructor at index
    /// `fails_at`, if there is one, fails.
    Drop { fails_at: Option<usize> },
    /// The owner is leaked.
    Leak,
}

impl Owner {
    /// The address of the allocation.
    pub open spec fn base(self) -> usize {
        match self {
            Owner::Handle(owned) => owned.addr(),
            Owner::Pinned(owned) => owned.addr(),
            Owner::Iter(span) => span.base,
        }
    }

    /// The owner after `step`. A step that the owner's type does not offer
    /// leaves the owner as it is.
    pub open spec fn after(self, step: Step) -> Owner {
        match (self, step) {
            (Owner::Handle(owned), Step::Pin) => Owner::Pinned(owned),
            (Owner::Handle(Owned::Thin(p)), Step::Erase(cap)) => Owner::Handle(
                Owned::Dyn(p.erased(cap)),
            ),
            (Owner::Handle(Owned::Dyn(p)), Step::Downcast(target)) => if p.is_type(target) {
                Owner::Handle(Owned::Thin(p.concrete()))
            } else {
                self
            },
            (Owner::Handle(Owned::Slice(p)), Step::IntoIter) => Owner::Iter(Span::whole(p)),
            (Owner::Iter(span), Step::Take(side)) => Owner::Iter(span.after_step(side)),
            _ => self,
        }
    }

    /// The owner after all of `steps`, in order.
    pub open spec fn after_all(self, steps: Seq<Step>) -> Owner
        decreases steps.len(),
    {
        if steps.len() == 0 {
            self
        } else {
            self.after_all(steps.drop_last()).after(steps.last())
        }
    }

    /// The plan by which the owner gives the allocation back.
    pub open spec fn release(self) -> Release {
        match self {
            Owner::Handle(owned) => owned.release(),
            Owner::Pinned(owned) => owned.release(),
            Owner::Iter(span) => span.release(),
        }
    }

    /// Everything that is done to foreign memory when the allocation goes
    /// through `steps` and then meets `end`.
    pub open spec fn life(self, steps: Seq<Step>, end: End) -> Seq<Effect> {
        match end {
            End::Drop { fails_at } => self.after_all(steps).release().trace(fails_at),
            End::Leak => Seq::empty(),
        }
    }
}

/// No conversion moves the allocation.
pub proof fn lemma_base_is_kept(owner: Owner, steps: Seq<Step>)
    ensures
        owner.after_all(steps).base() == owner.base(),
        owner.after_all(steps).release().free == owner.base(),
    decreases steps.len(),
{
    if steps.len() > 0 {
        lemma_base_is_kept(owner, steps.drop_last());
    }
}

/// No double free. Whatever conversions an allocation goes through, the
/// deallocator is never called with another address than its own, and with
/// its own at most once: not at all if the last owner is leaked, once if
/// the last owner is dropped and no destructor fails, and once if the last
/// owner is an iterator that is dropped, whatever fails.
pub proof fn lemma_freed_once(owner: Owner, steps: Seq<Step>, end: End, addr: usize)
    ensures
        frees(owner.life(steps, end), addr) <= 1,
        addr != owner.base() ==> frees(owner.life(steps, end), addr) == 0,
        end is Leak ==> frees(owner.life(steps, end), addr) == 0,
        end == (End::Drop { fails_at: None }) ==> frees(owner.life(steps, end), owner.base())
            == 1,
        end is Drop && owner.after_all(steps) is Iter ==> frees(
            owner.life(steps, end),
            owner.base(),
        ) == 1,
{
    lemma_base_is_kept(owner, steps);
    match end {
        End::Drop { fails_at } => {
            lemma_trace_frees(owner.after_all(steps).release(), fails_at, addr);
            lemma_trace_frees(owner.after_all(steps).release(), fails_at, owner.base());
        },
        End::Leak => {},
    }
}

/// Destructor before deallocator. In the life of an allocation every
/// destruction comes before the call of the deallocator, and nothing but
/// the passing on of a failure comes after it.
pub proof fn lemma_destroyed_before_freed(
    owner: Owner,
    steps: Seq<Step>,
    end: End,
    i: int,
    j: int,
)
    requires
        0 <= i < owner.life(steps, end).len(),
        0 <= j < owner.life(steps, end).len(),
        owner.life(steps, end)[j] is Free,
    ensures
        owner.life(steps, end)[i] is Destroy <==> i < j,
        i > j ==> owner.life(steps, end)[i] is Fail && i == j + 1,
{
    match end {
        End::Drop { fails_at } => {
            let plan = owner.after_all(steps).release();
            lemma_trace_order(plan, fails_at);
            let done = plan.completed(fails_at) as int;
            if j < done {
                assert(plan.trace(fails_at)[j] is Destroy);
            }
            if i < done {
                assert(plan.trace(fails_at)[i] is Destroy);
            }
        },
        End::Leak => {},
    }
}

/// Each step of an iterator that has an element left takes exactly one
/// element, at the front or at the back, and a step of an iterator that has
/// none changes nothing.
pub proof fn lemma_step_takes_one(span: Span, side: Side)
    requires
        span.front <= span.back,
    ensures
        span.remaining() > 0 ==> span.after_step(side).remaining() == span.remaining() - 1,
        span.remaining() == 0 ==> span.after_step(side) == span,
        span.after_step(side).front <= span.after_step(side).back,
{
}

/// The iterator over a slice of `len` elements reports `len` at first and
/// one less after each step, from whichever end, until it reports zero;
/// from then on, and not before, it is exhausted.
pub proof fn lemma_count_after_steps(ptr: Pointer<Slice>, steps: Seq<Side>)
    ensures
        Span::whole(ptr).remaining() == ptr.meta.len,
        Span::whole(ptr).after_steps(steps).remaining() == if steps.len() <= ptr.meta.len {
            ptr.meta.len - steps.len()
        } else {
            0
        },
        Span::whole(ptr).after_steps(steps).front <= Span::whole(ptr).after_steps(steps).back
            <= ptr.meta.len,
        Span::whole(ptr).after_steps(steps).base == ptr.addr,
        Span::whole(ptr).after_steps(steps).elem == ptr.meta.elem,
    decreases steps.len(),
{
    if steps.len() > 0 {
        lemma_count_after_steps(ptr, steps.drop_last());
    }
}

/// The span that is left of the slice behind `ptr` after `taken` steps at
/// the front.
pub open spec fn after_prefix(ptr: Pointer<Slice>, taken: nat) -> Span {
    Span::whole(ptr).after_steps(Seq::new(taken, |i: int| Side::Front))
}

/// After `taken` steps at the front the iterator owns the elements from
/// index `taken` on.
pub proof fn lemma_after_prefix(ptr: Pointer<Slice>, taken: nat)
    requires
        taken <= ptr.meta.len,
    ensures
        after_prefix(ptr, taken) == (Span { front: taken, ..Span::whole(ptr) }),
    decreases taken,
{
    if taken > 0 {
        let steps = Seq::new(taken, |i: int| Side::Front);
        assert(steps.drop_last() == Seq::new((taken - 1) as nat, |i: int| Side::Front));
        lemma_after_prefix(ptr, (taken - 1) as nat);
    }
}

/// What the teardown of an iterator does, whatever steps came before. It
/// calls the deallocator exactly once, with the base address, whether or
/// not a destructor fails. If none fails, it destroys the elements that the
/// iterator still owns, each once and in order, and nothing else: no
/// element that was handed out at the front or at the back.
pub proof fn lemma_teardown_destroys_what_is_left(span: Span, fails_at: Option<usize>, i: nat)
    requires
        span.wf(),
        span.slot(i as int) <= usize::MAX,
    ensures
        frees(span.release().trace(fails_at), span.base) == 1,
        span.release().trace(None) == destroys(
            span.slot(span.front as int),
            span.elem.size as int,
            span.remaining(),
        ).push(Effect::Free { addr: span.base }),
        span.front <= i < span.back ==> span.release().trace(None)[i - span.front] == (
        Effect::Destroy { addr: span.slot(i as int) as usize }),
        span.elem.size > 0 ==> destructions(
            span.release().trace(None),
            span.slot(i as int) as usize,
        ) == if span.front <= i < span.back {
            1nat
        } else {
            0nat
        },
{
    let plan = span.release();
    let width = span.elem.size as int;
    lemma_trace_frees(plan, fails_at, span.base);
    lemma_mul_le(span.front as int, span.back as int, width);
    let run = destroys(span.slot(span.front as int), width, span.remaining());
    assert(plan.trace(None) == run.push(Effect::Free { addr: span.base }));
    if span.front <= i < span.back {
        assert(span.slot(span.front as int) + (i - span.front) * width == span.slot(i as int))
            by (nonlinear_arith)
            requires
                span.slot(span.front as int) == span.base + span.front * width,
                span.slot(i as int) == span.base + i * width,
        ;
    }
    if width > 0 {
        if i <= span.back {
            lemma_run_destroys_once(span.base as int, width, span.front, span.back, i);
        } else {
            lemma_run_misses(span.base as int, width, span.front, span.back, i);
        }
        assert(run.push(Effect::Free { addr: span.base }).drop_last() == run);
    }
}

/// Leak safety of a partial iteration. When an iterator is abandoned after
/// `taken` steps at the front, its teardown calls the deallocator exactly
/// once, with the base address, whether or not a destructor fails; and if
/// none fails, it destroys each element that was never handed out exactly
/// once, in order, and no element that was handed out.
pub proof fn lemma_abandoned_iteration(
    ptr: Pointer<Slice>,
    taken: nat,
    fails_at: Option<usize>,
    i: nat,
)
    requires
        ptr.valid(),
        taken <= ptr.meta.len,
        i < ptr.meta.len,
    ensures
        frees(after_prefix(ptr, taken).release().trace(fails_at), ptr.addr) == 1,
        after_prefix(ptr, taken).release().trace(None) == destroys(
            ptr.slot(taken as int),
            ptr.meta.elem.size as int,
            (ptr.meta.len - taken) as nat,
        ).push(Effect::Free { addr: ptr.addr }),
        taken <= i ==> after_prefix(ptr, taken).release().trace(None)[i - taken] == (
        Effect::Destroy { addr: ptr.slot(i as int) as usize }),
        ptr.meta.elem.size > 0 ==> destructions(
            after_prefix(ptr, taken).release().trace(None),
            ptr.slot(i as int) as usize,
        ) == if taken <= i {
            1nat
        } else {
            0nat
        },
{
    lemma_after_prefix(ptr, taken);
    lemma_mul_le(i as int, ptr.meta.len as int, ptr.meta.elem.size as int);
    lemma_teardown_destroys_what_is_left(after_prefix(ptr, taken), fails_at, i);
}

/// Downcast correctness. A handle erased from a handle of type `T` is
/// recognised as `T` and as no other type; recovering `T` gives back the
/// pointer that was erased, and erasing moves nothing.
pub proof fn lemma_downcast_recovers(ptr: Pointer<Thin>, cap: Capability, target: TypeTag)
    ensures
        ptr.erased(cap).is_type(target) <==> target == ptr.meta.ty.tag,
        ptr.erased(cap).concrete() == ptr,
        ptr.erased(cap).addr == ptr.addr,
        ptr.erased(cap).valid() <==> ptr.valid(),
{
}

} // verus!
