//! Multi-byte opcodes with the `FC` prefix
use super::{WasmMnemonic, WasmProposalType};
use vstd::prelude::*;

verus! {

/// Multi-byte opcodes (FC)
#[derive(Debug, Clone, Copy, PartialEq, Eq, Structural)]
pub enum WasmOpcodeFC {
    /// `FC 00 i32.trunc_sat_f32_s` (NontrappingFloatToIntConversion)
    I32TruncSatF32S,
    /// `FC 01 i32.trunc_sat_f32_u` (NontrappingFloatToIntConversion)
    I32TruncSatF32U,
    /// `FC 02 i32.trunc_sat_f64_s` (NontrappingFloatToIntConversion)
    I32TruncSatF64S,
    /// `FC 03 i32.trunc_sat_f64_u` (NontrappingFloatToIntConversion)
    I32TruncSatF64U,
    /// `FC 04 i64.trunc_sat_f32_s` (NontrappingFloatToIntConversion)
    I64TruncSatF32S,
    /// `FC 05 i64.trunc_sat_f32_u` (NontrappingFloatToIntConversion)
    I64TruncSatF32U,
    /// `FC 06 i64.trunc_sat_f64_s` (NontrappingFloatToIntConversion)
    I64TruncSatF64S,
    /// `FC 07 i64.trunc_sat_f64_u` (NontrappingFloatToIntConversion)
    I64TruncSatF64U,
    /// `FC 08 memory.init` (BulkMemoryOperations)
    MemoryInit,
    /// `FC 09 data.drop` (BulkMemoryOperations)
    DataDrop,
    /// `FC 0A memory.copy` (BulkMemoryOperations)
    MemoryCopy,
    /// `FC 0B memory.fill` (BulkMemoryOperations)
    MemoryFill,
    /// `FC 0C table.init` (BulkMemoryOperations)
    TableInit,
    /// `FC 0D elem.drop` (BulkMemoryOperations)
    ElemDrop,
    /// `FC 0E table.copy` (BulkMemoryOperations)
    TableCopy,
}

/// The second-byte value that encodes an `FC` opcode
pub open spec fn fc_code(op: WasmOpcodeFC) -> u32 {
    match op {
        WasmOpcodeFC::I32TruncSatF32S => 0x00,
        WasmOpcodeFC::I32TruncSatF32U => 0x01,
        WasmOpcodeFC::I32TruncSatF64S => 0x02,
        WasmOpcodeFC::I32TruncSatF64U => 0x03,
        WasmOpcodeFC::I64TruncSatF32S => 0x04,
        WasmOpcodeFC::I64TruncSatF32U => 0x05,
        WasmOpcodeFC::I64TruncSatF64S => 0x06,
        WasmOpcodeFC::I64TruncSatF64U => 0x07,
        WasmOpcodeFC::MemoryInit => 0x08,
        WasmOpcodeFC::DataDrop => 0x09,
        WasmOpcodeFC::MemoryCopy => 0x0A,
        WasmOpcodeFC::MemoryFill => 0x0B,
        WasmOpcodeFC::TableInit => 0x0C,
        WasmOpcodeFC::ElemDrop => 0x0D,
        WasmOpcodeFC::TableCopy => 0x0E,
    }
}

/// The text format name of an `FC` opcode
pub open spec fn fc_text(op: WasmOpcodeFC) -> Seq<char> {
    match op {
        WasmOpcodeFC::I32TruncSatF32S => "i32.trunc_sat_f32_s"@,
        WasmOpcodeFC::I32TruncSatF32U => "i32.trunc_sat_f32_u"@,
        WasmOpcodeFC::I32TruncSatF64S => "i32.trunc_sat_f64_s"@,
        WasmOpcodeFC::I32TruncSatF64U => "i32.trunc_sat_f64_u"@,
        WasmOpcodeFC::I64TruncSatF32S => "i64.trunc_sat_f32_s"@,
        WasmOpcodeFC::I64TruncSatF32U => "i64.trunc_sat_f32_u"@,
        WasmOpcodeFC::I64TruncSatF64S => "i64.trunc_sat_f64_s"@,
        WasmOpcodeFC::I64TruncSatF64U => "i64.trunc_sat_f64_u"@,
        WasmOpcodeFC::MemoryInit => "memory.init"@,
        WasmOpcodeFC::DataDrop => "data.drop"@,
        WasmOpcodeFC::MemoryCopy => "memory.copy"@,
        WasmOpcodeFC::MemoryFill => "memory.fill"@,
        WasmOpcodeFC::TableInit => "table.init"@,
        WasmOpcodeFC::ElemDrop => "elem.drop"@,
        WasmOpcodeFC::TableCopy => "table.copy"@,
    }
}

impl WasmOpcodeFC {
    /// Decodes the value that follows the `FC` prefix.
    pub fn new(value: u32) -> (r: Option<Self>)
        ensures
            r matches Some(op) ==> fc_code(op) == value,
            r is None <==> value > 0x0E,
    {
        match value {
            0x00 => Some(Self::I32TruncSatF32S),
            0x01 => Some(Self::I32TruncSatF32U),
            0x02 => Some(Self::I32TruncSatF64S),
            0x03 => Some(Self::I32TruncSatF64U),
            0x04 => Some(Self::I64TruncSatF32S),
            0x05 => Some(Self::I64TruncSatF32U),
            0x06 => Some(Self::I64TruncSatF64S),
            0x07 => Some(Self::I64TruncSatF64U),
            0x08 => Some(Self::MemoryInit),
            0x09 => Some(Self::DataDrop),
            0x0A => Some(Self::MemoryCopy),
            0x0B => Some(Self::MemoryFill),
            0x0C => Some(Self::TableInit),
            0x0D => Some(Self::ElemDrop),
            0x0E => Some(Self::TableCopy),
            _ => None,
        }
    }

    /// The text format name
    pub fn to_str(&self) -> (r: &'static str)
        ensures
            r@ == fc_text(*self),
    {
        match *self {
            Self::I32TruncSatF32S => {
                proof { reveal_strlit("i32.trunc_sat_f32_s"); }
                "i32.trunc_sat_f32_s"
            },
            Self::I32TruncSatF32U => {
                proof { reveal_strlit("i32.trunc_sat_f32_u"); }
                "i32.trunc_sat_f32_u"
            },
            Self::I32TruncSatF64S => {
                proof { reveal_strlit("i32.trunc_sat_f64_s"); }
                "i32.trunc_sat_f64_s"
            },
            Self::I32TruncSatF64U => {
                proof { reveal_strlit("i32.trunc_sat_f64_u"); }
                "i32.trunc_sat_f64_u"
            },
            Self::I64TruncSatF32S => {
                proof { reveal_strlit("i64.trunc_sat_f32_s"); }
                "i64.trunc_sat_f32_s"
            },
            Self::I64TruncSatF32U => {
                proof { reveal_strlit("i64.trunc_sat_f32_u"); }
                "i64.trunc_sat_f32_u"
            },
            Self::I64TruncSatF64S => {
                proof { reveal_strlit("i64.trunc_sat_f64_s"); }
                "i64.trunc_sat_f64_s"
            },
            Self::I64TruncSatF64U => {
                proof { reveal_strlit("i64.trunc_sat_f64_u"); }
                "i64.trunc_sat_f64_u"
            },
            Self::MemoryInit => {
                proof { reveal_strlit("memory.init"); }
                "memory.init"
            },
            Self::DataDrop => {
                proof { reveal_strlit("data.drop"); }
                "data.drop"
            },
            Self::MemoryCopy => {
                proof { reveal_strlit("memory.copy"); }
                "memory.copy"
            },
            Self::MemoryFill => {
                proof { reveal_strlit("memory.fill"); }
                "memory.fill"
            },
            Self::TableInit => {
                proof { reveal_strlit("table.init"); }
                "table.init"
            },
            Self::ElemDrop => {
                proof { reveal_strlit("elem.drop"); }
                "elem.drop"
            },
            Self::TableCopy => {
                proof { reveal_strlit("table.copy"); }
                "table.copy"
            },
        }
    }

    /// The proposal that introduced the instruction
    pub fn proposal_type(&self) -> (r: WasmProposalType)
        ensures
            (fc_code(*self) < 8) ==> r == WasmProposalType::NontrappingFloatToIntConversion,
            (fc_code(*self) >= 8) ==> r == WasmProposalType::BulkMemoryOperations,
    {
        match *self {
            Self::I32TruncSatF32S | Self::I32TruncSatF32U | Self::I32TruncSatF64S
            | Self::I32TruncSatF64U | Self::I64TruncSatF32S | Self::I64TruncSatF32U
            | Self::I64TruncSatF64S | Self::I64TruncSatF64U => WasmProposalType::NontrappingFloatToIntConversion,
            Self::MemoryInit | Self::DataDrop | Self::MemoryCopy | Self::MemoryFill
            | Self::TableInit | Self::ElemDrop | Self::TableCopy => WasmProposalType::BulkMemoryOperations,
        }
    }

    /// The mnemonic of the instruction
    pub fn mnemonic(&self) -> (r: WasmMnemonic)
        ensures
            crate::opcode::mnemonic_text(r) == fc_text(*self),
    {
        match *self {
            Self::I32TruncSatF32S => WasmMnemonic::I32TruncSatF32S,
            Self::I32TruncSatF32U => WasmMnemonic::I32TruncSatF32U,
            Self::I32TruncSatF64S => WasmMnemonic::I32TruncSatF64S,
            Self::I32TruncSatF64U => WasmMnemonic::I32TruncSatF64U,
            Self::I64TruncSatF32S => WasmMnemonic::I64TruncSatF32S,
            Self::I64TruncSatF32U => WasmMnemonic::I64TruncSatF32U,
            Self::I64TruncSatF64S => WasmMnemonic::I64TruncSatF64S,
            Self::I64TruncSatF64U => WasmMnemonic::I64TruncSatF64U,
            Self::MemoryInit => WasmMnemonic::MemoryInit,
            Self::DataDrop => WasmMnemonic::DataDrop,
            Self::MemoryCopy => WasmMnemonic::MemoryCopy,
            Self::MemoryFill => WasmMnemonic::MemoryFill,
            Self::TableInit => WasmMnemonic::TableInit,
            Self::ElemDrop => WasmMnemonic::ElemDrop,
            Self::TableCopy => WasmMnemonic::TableCopy,
        }
    }
}

} // verus!
