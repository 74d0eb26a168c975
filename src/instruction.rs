//! Movement instructions for an agent's body.

use crate::body::PeripheralKey;
use vstd::prelude::*;

verus! {

/// A single actuation command: which peripheral, for how long, and four raw bytes
/// to write to it. Sixteen bytes, four-byte aligned, no padding.
#[derive(Clone, Copy, Debug, Default, PartialEq, Eq)]
pub struct Instruction {
    /// The peripheral the instruction targets
    pub node: PeripheralKey,
    /// How long the action lasts, in milliseconds
    pub lasts_for_ms: u32,
    /// The payload written to the peripheral
    pub instructions: [u8; 4],
}

impl Instruction {
    pub fn new(node: PeripheralKey, lasts_for_ms: u32, instructions: [u8; 4]) -> (r: Self)
        ensures
            r == (Instruction { node, lasts_for_ms, instructions }),
    {
        Instruction { node, lasts_for_ms, instructions }
    }
}

} // verus!
