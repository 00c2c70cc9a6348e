//! Startup-configuration decoding for two small numeric command-line
//! tools, written so that every decoder carries a proved contract.
//!
//! The heart of the crate is a fixed-arity, positional, strongly typed
//! configuration loader for a parallel series approximator: five textual
//! tokens become a validated [`params::Params`] record, or a precise,
//! causally chained [`errors::Error`] that says exactly what was wrong and
//! why. Beside it stands the two-line input-file decoder of a
//! resource-contention simulation ([`input::Input`]). Both are pure
//! functions of their tokens; reading files or process arguments is left
//! to callers.

pub mod decimal;
pub mod errors;
pub mod input;
pub mod laws;
pub mod numeric;
pub mod params;
pub mod philosopher;
pub mod text;

pub use text::parse_u64_digits;
