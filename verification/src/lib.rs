//! Generation and analysis of a self-referential binary recurrence (a "bow"
//! sequence) laid out over a complete, implicitly indexed binary tree.
//!
//! Two seed terms occupy positions 1 and 2; every later term at position `n`
//! is `term[n/2] + term[n/2 + 1]` when `n` is even and `term[(n - 1) / 2]`
//! when `n` is odd. Because both dependencies of position `n` lie strictly
//! before `n`, a single forward pass over a pre-sized buffer materializes the
//! whole sequence. A constant-memory alternative recomputes any one term by
//! re-descending the recurrence instead of storing the buffer.
//!
//! Terms come in exact numeric domains: machine integers and symbolic
//! coefficient pairs. Evaluating a coefficient pair against real-valued
//! weights is floating-point work and lives outside this verified core, which
//! is why every contract here speaks of integer coefficients only.

pub mod alpha_beta;
pub mod analysis;
pub mod errors;
pub mod recurrence;
pub mod render;
pub mod sequence;
pub mod standalone;
pub mod term;

pub use alpha_beta::AlphaBeta;
pub use errors::BowError;
pub use sequence::Sequence;
pub use standalone::StandaloneSequence;
pub use standalone::new_standalone;
pub use term::Domain;
pub use term::Term;
