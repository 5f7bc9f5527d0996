//! Multi-byte opcodes with the `FD` prefix (vector instructions)
use super::WasmProposalType;
use vstd::prelude::*;

verus! {

/// Multi-byte opcodes (FD, vector instructions)
#[derive(Debug, Clone, Copy, PartialEq, Eq, Structural)]
pub enum WasmOpcodeFD {
    /// `FD 00 v128.load` (simd)
    V128Load,
}

impl WasmOpcodeFD {
    /// Decodes the value that follows the `FD` prefix: `v128.load` for 0, none otherwise.
    pub fn new(value: u32) -> (r: Option<Self>)
        ensures
            value == 0 ==> r == Some(WasmOpcodeFD::V128Load),
            value != 0 ==> r is None,
    {
        if value == 0 {
            Some(WasmOpcodeFD::V128Load)
        } else {
            None
        }
    }

    /// The text format name shared by all vector instructions
    pub fn to_str(&self) -> (r: &'static str)
        ensures
            r@ == "(simd)"@,
    {
        proof {
            reveal_strlit("(simd)");
        }
        "(simd)"
    }

    /// The proposal that introduced the instruction
    pub fn proposal_type(&self) -> (r: WasmProposalType)
        ensures
            r == WasmProposalType::Simd,
    {
        WasmProposalType::Simd
    }
}

} // verus!
