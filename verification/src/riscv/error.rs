//! Errors raised while lowering Koopa IR to RISC-V assembly.
use vstd::prelude::*;

verus! {

/// Why a Koopa program could not be lowered to assembly.
#[derive(Debug)]
pub enum GenerateAsmError {
    /// A name does not start with `@` or `%`.
    Parse,
    /// The Koopa text could not be parsed.
    KoopaParse(::koopa::front::span::Error),
    MissingStackSlot,
    BBNoName,
    GlobalValueNoName,
    UnsupportedGlobalInitializer,
    ExpectedPointer,
    UnsupportedValue(String),
    /// A jump passes a number of arguments that its target does not take.
    Unknown,
    /// The stack frame of a function would exceed 2 GiB.
    FrameTooLarge,
}

} // verus!
