//! Core of a square-lattice record tool: window extraction over a store of
//! per-site record blocks, with alignment parsing and text-format framing.
//!
//! A lattice of `side * side` sites is stored as one flat sequence of
//! records, five consecutive records per site. The library selects a square
//! window of sites from a chosen corner or the center, repacks the selected
//! blocks in row-major order and renumbers the record identifiers
//! sequentially. Floating-point work (the dipole energy reduction and its
//! statistics) lives outside the verified core, which carries the numeric
//! components of each record as opaque bit patterns.

use vstd::prelude::*;

pub mod corner;
pub mod extract;
pub mod system;

verus! {

/// The failures the core can signal; the surrounding tool decides whether to
/// abort or skip.
#[derive(Clone, Copy, Debug, PartialEq, Eq, Structural)]
pub enum ObrezError {
    /// A requested extraction size is not smaller than the source lattice side.
    PreconditionViolation,
    /// A record row is missing a field or holds a non-numeric one.
    MalformedRecord,
    /// Statistics were requested over an empty set of corner alignments.
    EmptyCornerSet,
    /// A file could not be opened, read or written.
    IoFailure,
}

} // verus!
