//! Bounds-check elimination by loop versioning.
//!
//! A read or write of an unboxed numeric `Vector` element checks its index.
//! In a counted loop `for (var i = C; i < B; i++)` (or `i <= B`) with `C >= 0`
//! the check of `v[i]` can be made once, before the loop: the loop is
//! rewritten to
//!
//! ```text
//! if (B <= v.length && ...) { loop without the checks } else { loop }
//! ```
//!
//! A vector `v` qualifies if it is a plain local of an unboxed numeric type,
//! is never written in the loop, and every occurrence of it there is `v[i]`
//! with the bare induction variable or `v.length`. That rules out everything
//! that could change its length: `push`, `v.length = ..`, an append through
//! `v[k]`, and handing it to a call. The bound must be invariant, and no closure
//! that can run in the loop may write the induction variable or what the bound
//! reads.

pub mod facts;
pub mod laws;
pub mod mark;
pub mod pairs;
pub mod version;
pub mod walk;
