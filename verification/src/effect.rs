//! What giving an allocation back does to the world outside, and in which
//! order.
use vstd::prelude::*;
use crate::arith::{lemma_mul_le, lemma_mul_step};

verus! {

/// One thing done to foreign memory while an allocation is given back.
#[derive(Clone, Copy, PartialEq, Eq, Structural, Debug)]
pub enum Effect {
    /// The destructor of the object at `addr` ran in place, to completion.
    Destroy { addr: usize },
    /// The deallocator was called with `addr`.
    Free { addr: usize },
    /// The destructor of the object at `addr` failed, and the failure was
    /// passed on to whoever asked for the allocation to be given back.
    Fail { addr: usize },
}

/// The destruction, in order, of `count` objects of which the first is at
/// `first` and each next one `stride` bytes further.
pub open spec fn destroys(first: int, stride: int, count: nat) -> Seq<Effect> {
    Seq::new(count, |i: int| Effect::Destroy { addr: (first + i * stride) as usize })
}

/// How often `log` frees `addr`.
pub open spec fn frees(log: Seq<Effect>, addr: usize) -> nat
    decreases log.len(),
{
    if log.len() == 0 {
        0
    } else {
        frees(log.drop_last(), addr) + if log.last() == (Effect::Free { addr }) {
            1nat
        } else {
            0nat
        }
    }
}

/// How often `log` destroys the object at `addr`.
pub open spec fn destructions(log: Seq<Effect>, addr: usize) -> nat
    decreases log.len(),
{
    if log.len() == 0 {
        0
    } else {
        destructions(log.drop_last(), addr) + if log.last() == (Effect::Destroy { addr }) {
            1nat
        } else {
            0nat
        }
    }
}

/// A plan for giving an allocation back: destroy `count` objects in place,
/// the first at `first` and each next one `stride` bytes further, then call
/// the deallocator with `free`.
///
/// A destructor may fail. Nothing is destroyed after the first failure, and
/// the failure is always passed on. When the plan is `guarded`, the
/// deallocator is called all the same, before the failure is passed on;
/// when it is not, the failure leaves the block allocated.
#[derive(Clone, Copy, PartialEq, Eq, Structural, Debug)]
pub struct Release {
    pub first: usize,
    pub count: usize,
    pub stride: usize,
    pub free: usize,
    pub guarded: bool,
}

impl Release {
    /// Every object of the plan lies within the address space.
    pub open spec fn wf(&self) -> bool {
        self.first + self.count * self.stride <= usize::MAX
    }

    /// How many destructors run to completion when the one at index
    /// `fails_at` fails; with `None`, or an index past the last object, none
    /// fails.
    pub open spec fn completed(&self, fails_at: Option<usize>) -> nat {
        match fails_at {
            Some(k) => if k < self.count {
                k as nat
            } else {
                self.count as nat
            },
            None => self.count as nat,
        }
    }

    /// Whether the deallocator is called.
    pub open spec fn reaches_free(&self, fails_at: Option<usize>) -> bool {
        self.guarded || self.completed(fails_at) == self.count
    }

    /// Everything the plan does, in order: the destructions that complete,
    /// the call of the deallocator if it is reached, and the failure if
    /// there is one.
    pub open spec fn trace(&self, fails_at: Option<usize>) -> Seq<Effect> {
        let done = destroys(self.first as int, self.stride as int, self.completed(fails_at));
        let freed = if self.reaches_free(fails_at) {
            done.push(Effect::Free { addr: self.free })
        } else {
            done
        };
        if self.completed(fails_at) < self.count {
            freed.push(
                Effect::Fail {
                    addr: (self.first + self.completed(fails_at) * self.stride) as usize,
                },
            )
        } else {
            freed
        }
    }

    /// Writes out [`Release::trace`], one entry for each effect.
    pub fn effects(&self, fails_at: Option<usize>) -> (log: Vec<Effect>)
        requires
            self.wf(),
        ensures
            log@ == self.trace(fails_at),
    {
        let n: usize = match fails_at {
            Some(k) => if k < self.count {
                k
            } else {
                self.count
            },
            None => self.count,
        };
        let mut log: Vec<Effect> = Vec::new();
        let mut addr: usize = self.first;
        let mut i: usize = 0;
        while i < n
            invariant
                self.wf(),
                i <= n <= self.count,
                addr == self.first + i * self.stride,
                log@ == destroys(self.first as int, self.stride as int, i as nat),
            decreases n - i,
        {
            proof {
                lemma_mul_step(i as int, self.stride as int);
                lemma_mul_le(i + 1, self.count as int, self.stride as int);
            }
            log.push(Effect::Destroy { addr });
            addr = addr + self.stride;
            i = i + 1;
        }
        if self.guarded || n == self.count {
            log.push(Effect::Free { addr: self.free });
        }
        if n < self.count {
            log.push(Effect::Fail { addr });
        }
        log
    }
}

/// One more entry adds one to the count if it frees `addr`, and nothing if
/// it does not.
pub proof fn lemma_frees_push(log: Seq<Effect>, entry: Effect, addr: usize)
    ensures
        frees(log.push(entry), addr) == frees(log, addr) + if entry == (Effect::Free { addr }) {
            1nat
        } else {
            0nat
        },
{
    assert(log.push(entry).drop_last() == log);
}

/// Destroying objects frees nothing.
pub proof fn lemma_destroys_free_nothing(first: int, stride: int, count: nat, addr: usize)
    ensures
        frees(destroys(first, stride, count), addr) == 0,
    decreases count,
{
    if count > 0 {
        lemma_destroys_free_nothing(first, stride, (count - 1) as nat, addr);
        assert(destroys(first, stride, count).drop_last() == destroys(
            first,
            stride,
            (count - 1) as nat,
        ));
    }
}

/// Destructor before deallocator: a plan's trace begins with the
/// destructions that complete, in the order of the slots; the call of the
/// deallocator, where the plan reaches it, comes next; and the failure,
/// where there is one, comes last.
pub proof fn lemma_trace_order(plan: Release, fails_at: Option<usize>)
    ensures
        plan.trace(fails_at).len() == plan.completed(fails_at) + if plan.reaches_free(fails_at) {
            1nat
        } else {
            0nat
        } + if plan.completed(fails_at) < plan.count {
            1nat
        } else {
            0nat
        },
        forall|i: int|
            0 <= i < plan.completed(fails_at) ==> #[trigger] plan.trace(fails_at)[i] == (
            Effect::Destroy { addr: (plan.first + i * plan.stride) as usize }),
        plan.reaches_free(fails_at) ==> plan.trace(fails_at)[plan.completed(fails_at) as int] == (
        Effect::Free { addr: plan.free }),
        plan.completed(fails_at) < plan.count ==> plan.trace(fails_at).last() == (Effect::Fail {
            addr: (plan.first + plan.completed(fails_at) * plan.stride) as usize,
        }),
{
}

/// A plan calls the deallocator once, with the address it was made for, if
/// it reaches the call at all, and never with another address.
pub proof fn lemma_trace_frees(plan: Release, fails_at: Option<usize>, addr: usize)
    ensures
        frees(plan.trace(fails_at), addr) == if plan.reaches_free(fails_at) && addr == plan.free {
            1nat
        } else {
            0nat
        },
{
    let done = destroys(plan.first as int, plan.stride as int, plan.completed(fails_at));
    lemma_destroys_free_nothing(
        plan.first as int,
        plan.stride as int,
        plan.completed(fails_at),
        addr,
    );
    if plan.reaches_free(fails_at) {
        lemma_frees_push(done, Effect::Free { addr: plan.free }, addr);
    }
    if plan.completed(fails_at) < plan.count {
        let freed = if plan.reaches_free(fails_at) {
            done.push(Effect::Free { addr: plan.free })
        } else {
            done
        };
        let failure = Effect::Fail {
            addr: (plan.first + plan.completed(fails_at) * plan.stride) as usize,
        };
        lemma_frees_push(freed, failure, addr);
    }
}

/// A run of destructions over slots of positive size destroys each slot of
/// the run once and no other slot: of the slots `base + i * width`, those
/// with `from <= i < to`.
pub proof fn lemma_run_destroys_once(base: int, width: int, from: nat, to: nat, i: nat)
    requires
        0 <= base,
        0 < width,
        from <= to,
        i <= to,
        base + to * width <= usize::MAX,
    ensures
        destructions(
            destroys(base + from * width, width, (to - from) as nat),
            (base + i * width) as usize,
        ) == if from <= i < to {
            1nat
        } else {
            0nat
        },
    decreases to - from,
{
    if i == to {
        lemma_run_misses(base, width, from, to, i);
    } else if from < to {
        let run = destroys(base + from * width, width, (to - from) as nat);
        let last = (to - 1) as nat;
        lemma_mul_le(last as int, to as int, width);
        lemma_mul_le(i as int, last as int, width);
        lemma_run_destroys_once(base, width, from, last, i);
        assert(run.drop_last() == destroys(base + from * width, width, (last - from) as nat));
        assert(base + from * width + (last - from) * width == base + last * width)
            by (nonlinear_arith);
        assert(i != last ==> i * width != last * width) by (nonlinear_arith)
            requires
                0 < width,
        ;
    }
}

/// A run of destructions destroys no slot that lies behind its end.
pub proof fn lemma_run_misses(base: int, width: int, from: nat, to: nat, i: nat)
    requires
        0 <= base,
        0 < width,
        from <= to <= i,
        base + i * width <= usize::MAX,
    ensures
        destructions(
            destroys(base + from * width, width, (to - from) as nat),
            (base + i * width) as usize,
        ) == 0,
    decreases to - from,
{
    if from < to {
        let run = destroys(base + from * width, width, (to - from) as nat);
        let last = (to - 1) as nat;
        lemma_run_misses(base, width, from, last, i);
        assert(run.drop_last() == destroys(base + from * width, width, (last - from) as nat));
        assert(base + from * width + (last - from) * width == base + last * width)
            by (nonlinear_arith);
        lemma_mul_le(last as int, i as int, width);
        assert(last * width != i * width) by (nonlinear_arith)
            requires
                0 < width,
                last < i,
        ;
    }
}

} // verus!
