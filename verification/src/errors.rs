use vstd::prelude::*;

verus! {

/// The error taxonomy of the sequence core. Every failure here is local,
/// deterministic and non-retryable; none is recovered silently.
#[derive(Clone, Copy, Debug, PartialEq, Eq, Structural)]
pub enum BowError {
    /// Arithmetic or comparison attempted across different term domains.
    TagMismatch,
    /// A cast between domains that has no defined meaning.
    UnrepresentableCast,
    /// The requested row count implies a buffer beyond the supported
    /// capacity. `length` reports the offending term count so the caller can
    /// fall back to on-demand evaluation; it saturates at `u64::MAX` when
    /// even that type cannot hold the count.
    CapacityExceeded { length: u64 },
    /// A position outside `1 ..= len`, checked at the domain boundary.
    IndexOutOfRange,
    /// The symbolic domain accepts only the canonical seed pair.
    NonCanonicalSeeds,
}

} // verus!
