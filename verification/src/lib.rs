//! Codec for fixed-shape numeric aggregates.
//!
//! Aggregates (2/3/4-component vectors, column-major matrices, and rotors)
//! are read from and written to two wire shapes: a bare positional sequence
//! of scalars, and an associative list of named fields. Scalars travel as
//! the raw bit patterns of 32-bit IEEE-754 values, so a round trip through
//! the codec is exact, bit for bit. The decoder enforces arity, rejects
//! unknown and duplicated field names, and demands that every field of an
//! associative input be present.

pub mod types;
pub mod field;
pub mod codec;
pub mod tolerance;
pub mod laws;

