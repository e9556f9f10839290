//! Instruction-set registries: a mnemonic names a compiled bit pattern,
//! and a registry generates concrete encodings by mnemonic.

use vstd::prelude::*;

pub mod la32r;

pub use la32r::LAS32R;

verus! {

/// An instruction-set architecture: a set of supported mnemonics, each
/// backed by a bit pattern from which concrete encodings are generated.
pub trait ISA {
    type InstrType;

    /// The mnemonics this architecture supports.
    fn support_instrs(&self) -> &Vec<&'static str>;

    /// Generates one concrete encoding of the named instruction, or `None`
    /// when the mnemonic is not supported.
    fn generate_instr(&self, instr: &str) -> Option<Self::InstrType>;
}

} // verus!
