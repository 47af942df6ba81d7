//! Ownership bookkeeping for a single block of `malloc`-ed memory.
//!
//! A [`Malloced`] handle owns one foreign allocation. This crate holds the
//! part of that job that is pure computation on addresses: which pointer a
//! handle owns after each conversion, where each element of an owned slice
//! lives, how many elements an iterator still owns, and which objects are
//! destroyed, in which order, before the block is handed to `free`.
//! Reading and writing the memory itself, and the call of `free`, are left to
//! the caller, who carries out the plans computed here.
//!
//! - [`layout`] and [`pointer`]: raw pointers as plain values, and what makes
//!   one fit to be adopted.
//! - [`handle`]: the owning handle, its conversions, and its release.
//! - [`iter`]: by-value iteration over an owned slice.
//! - [`c_str`]: where a NUL-terminated string ends.
//! - [`effect`]: the plan for giving an allocation back, and its trace.
//! - [`laws`]: what holds over the whole life of an allocation.
mod arith;
pub mod c_str;
pub mod effect;
pub mod handle;
pub mod iter;
pub mod laws;
pub mod layout;
pub mod pointer;

pub use effect::{Effect, Release};
pub use handle::{Malloced, Pinned};
pub use iter::{Item, Side, SliceIter, Span};
pub use layout::{CStr, Capability, Dyn, Layout, Pointee, Slice, Thin, TypeInfo, TypeTag};
pub use pointer::Pointer;
