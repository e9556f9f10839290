//! A bit-field pattern engine: compiles a template string describing a
//! fixed-width binary encoding into a per-bit model, generates random
//! instances that honor the fixed bits, and tests whether a concrete value
//! satisfies the pattern.

pub mod bitspattern;
pub mod isa;

pub use bitspattern::BitsPattern;
