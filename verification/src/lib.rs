//! A bit-width-bounded enumeration transformer.
//!
//! An annotated enumeration whose variants carry literal integer discriminants
//! is turned into a compact value type of a declared bit width (1 to 64),
//! together with two operations: extracting the packed integer representation
//! and reconstructing an instance from a packed integer. The transformer
//! parses the small configuration grammar, resolves the width to a storage
//! strategy, statically analyzes every discriminant, cross-checks the declared
//! exhaustiveness, and describes the replacement declaration.

pub mod args;
pub mod expand;
pub mod laws;
pub mod model;
pub mod numeral;
pub mod text;
pub mod variants;
pub mod width;
