//! NUL-terminated byte strings: where the text ends.
use vstd::prelude::*;

verus! {

/// Number of bytes of `bytes`, from index `from` on, that come before the
/// first NUL; all of them if there is none.
pub open spec fn c_strlen_from(bytes: Seq<u8>, from: int) -> nat
    decreases bytes.len() - from,
{
    if 0 <= from < bytes.len() && bytes[from] != 0 {
        1 + c_strlen_from(bytes, from + 1)
    } else {
        0
    }
}

/// Length of the text of a C string that starts with `bytes`: the number of
/// bytes before the first NUL.
pub open spec fn c_strlen(bytes: Seq<u8>) -> nat {
    c_strlen_from(bytes, 0)
}

/// Whether `bytes` holds a NUL, and with it a whole C string.
pub open spec fn terminated(bytes: Seq<u8>) -> bool {
    c_strlen(bytes) < bytes.len()
}

/// A run without NUL adds its length to what follows it.
pub proof fn lemma_c_strlen_run(bytes: Seq<u8>, from: int, to: int)
    requires
        0 <= from <= to <= bytes.len(),
        forall|j: int| from <= j < to ==> bytes[j] != 0,
    ensures
        c_strlen_from(bytes, from) == (to - from) + c_strlen_from(bytes, to),
    decreases to - from,
{
    if from < to {
        lemma_c_strlen_run(bytes, from + 1, to);
    }
}

/// The text ends at the first NUL and nowhere else.
pub proof fn lemma_c_strlen_is_first_nul(bytes: Seq<u8>, n: int)
    requires
        0 <= n < bytes.len(),
        bytes[n] == 0,
        forall|j: int| 0 <= j < n ==> bytes[j] != 0,
    ensures
        c_strlen(bytes) == n,
{
    lemma_c_strlen_run(bytes, 0, n);
}

/// Counts the bytes before the first NUL.
pub fn strlen(memory: &[u8]) -> (n: usize)
    ensures
        n == c_strlen(memory@),
        n <= memory@.len() <= usize::MAX,
        n < memory@.len() ==> memory@[n as int] == 0,
        forall|j: int| 0 <= j < n ==> memory@[j] != 0,
{
    let mut i: usize = 0;
    while i < memory.len() && memory[i] != 0
        invariant
            i <= memory@.len(),
            forall|j: int| 0 <= j < i ==> memory@[j] != 0,
        decreases memory@.len() - i,
    {
        i = i + 1;
    }
    proof {
        lemma_c_strlen_run(memory@, 0, i as int);
    }
    i
}

} // verus!
