//! Bounded sub-view extraction over sequences, and a first-token boundary
//! scan built on its semantics.
//!
//! A *sequence* here is any slice of homogeneous elements; a *view* is a
//! non-owning borrow of a contiguous span of it, addressed by a half-open
//! `[start, end)` range of positions.  The extractor builds such views and
//! rejects invalid ranges with `OutOfBounds`; the scanner finds the first
//! token of a byte sequence, either as an offset or as a view.

pub mod extract;
pub mod scan;
