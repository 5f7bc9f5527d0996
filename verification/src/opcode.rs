//! Opcodes of the WebAssembly binary format
use vstd::prelude::*;

pub mod opcode_fc;
pub mod opcode_fd;

verus! {

/// The proposal that introduced an instruction
#[derive(Debug, Clone, Copy, PartialEq, Eq, Structural)]
pub enum WasmProposalType {
    /// The minimum viable product: control and variable instructions
    Mvp,
    /// The minimum viable product: integer instructions
    MvpI,
    /// The minimum viable product: floating-point instructions
    MvpF,
    /// Sign extension instructions
    SignExtend,
    /// Non-trapping float-to-int conversions
    NontrappingFloatToIntConversion,
    /// Bulk memory operations
    BulkMemoryOperations,
    /// Vector instructions
    Simd,
}

/// The kind of an instruction, without its immediates
#[derive(Debug, Clone, Copy, PartialEq, Eq, Structural)]
pub enum WasmMnemonic {
    /// `00 unreachable`
    Unreachable,
    /// `01 nop`
    Nop,
    /// `02 block`
    Block,
    /// `03 loop`
    Loop,
    /// `04 if`
    If,
    /// `05 else`
    Else,
    /// `0B end`
    End,
    /// `0C br`
    Br,
    /// `0D br_if`
    BrIf,
    /// `0E br_table`
    BrTable,
    /// `0F return`
    Return,
    /// `10 call`
    Call,
    /// `11 call_indirect`
    CallIndirect,
    /// `1A drop`
    Drop,
    /// `1B select`
    Select,
    /// `20 local.get`
    LocalGet,
    /// `21 local.set`
    LocalSet,
    /// `22 local.tee`
    LocalTee,
    /// `23 global.get`
    GlobalGet,
    /// `24 global.set`
    GlobalSet,
    /// `28 i32.load`
    I32Load,
    /// `29 i64.load`
    I64Load,
    /// `2A f32.load`
    F32Load,
    /// `2B f64.load`
    F64Load,
    /// `2C i32.load8_s`
    I32Load8S,
    /// `2D i32.load8_u`
    I32Load8U,
    /// `2E i32.load16_s`
    I32Load16S,
    /// `2F i32.load16_u`
    I32Load16U,
    /// `30 i64.load8_s`
    I64Load8S,
    /// `31 i64.load8_u`
    I64Load8U,
    /// `32 i64.load16_s`
    I64Load16S,
    /// `33 i64.load16_u`
    I64Load16U,
    /// `34 i64.load32_s`
    I64Load32S,
    /// `35 i64.load32_u`
    I64Load32U,
    /// `36 i32.store`
    I32Store,
    /// `37 i64.store`
    I64Store,
    /// `38 f32.store`
    F32Store,
    /// `39 f64.store`
    F64Store,
    /// `3A i32.store8`
    I32Store8,
    /// `3B i32.store16`
    I32Store16,
    /// `3C i64.store8`
    I64Store8,
    /// `3D i64.store16`
    I64Store16,
    /// `3E i64.store32`
    I64Store32,
    /// `3F memory.size`
    MemorySize,
    /// `40 memory.grow`
    MemoryGrow,
    /// `41 i32.const`
    I32Const,
    /// `42 i64.const`
    I64Const,
    /// `43 f32.const`
    F32Const,
    /// `44 f64.const`
    F64Const,
    /// `45 i32.eqz`
    I32Eqz,
    /// `46 i32.eq`
    I32Eq,
    /// `47 i32.ne`
    I32Ne,
    /// `48 i32.lt_s`
    I32LtS,
    /// `49 i32.lt_u`
    I32LtU,
    /// `4A i32.gt_s`
    I32GtS,
    /// `4B i32.gt_u`
    I32GtU,
    /// `4C i32.le_s`
    I32LeS,
    /// `4D i32.le_u`
    I32LeU,
    /// `4E i32.ge_s`
    I32GeS,
    /// `4F i32.ge_u`
    I32GeU,
    /// `50 i64.eqz`
    I64Eqz,
    /// `51 i64.eq`
    I64Eq,
    /// `52 i64.ne`
    I64Ne,
    /// `53 i64.lt_s`
    I64LtS,
    /// `54 i64.lt_u`
    I64LtU,
    /// `55 i64.gt_s`
    I64GtS,
    /// `56 i64.gt_u`
    I64GtU,
    /// `57 i64.le_s`
    I64LeS,
    /// `58 i64.le_u`
    I64LeU,
    /// `59 i64.ge_s`
    I64GeS,
    /// `5A i64.ge_u`
    I64GeU,
    /// `5B f32.eq`
    F32Eq,
    /// `5C f32.ne`
    F32Ne,
    /// `5D f32.lt`
    F32Lt,
    /// `5E f32.gt`
    F32Gt,
    /// `5F f32.le`
    F32Le,
    /// `60 f32.ge`
    F32Ge,
    /// `61 f64.eq`
    F64Eq,
    /// `62 f64.ne`
    F64Ne,
    /// `63 f64.lt`
    F64Lt,
    /// `64 f64.gt`
    F64Gt,
    /// `65 f64.le`
    F64Le,
    /// `66 f64.ge`
    F64Ge,
    /// `67 i32.clz`
    I32Clz,
    /// `68 i32.ctz`
    I32Ctz,
    /// `69 i32.popcnt`
    I32Popcnt,
    /// `6A i32.add`
    I32Add,
    /// `6B i32.sub`
    I32Sub,
    /// `6C i32.mul`
    I32Mul,
    /// `6D i32.div_s`
    I32DivS,
    /// `6E i32.div_u`
    I32DivU,
    /// `6F i32.rem_s`
    I32RemS,
    /// `70 i32.rem_u`
    I32RemU,
    /// `71 i32.and`
    I32And,
    /// `72 i32.or`
    I32Or,
    /// `73 i32.xor`
    I32Xor,
    /// `74 i32.shl`
    I32Shl,
    /// `75 i32.shr_s`
    I32ShrS,
    /// `76 i32.shr_u`
    I32ShrU,
    /// `77 i32.rotl`
    I32Rotl,
    /// `78 i32.rotr`
    I32Rotr,
    /// `79 i64.clz`
    I64Clz,
    /// `7A i64.ctz`
    I64Ctz,
    /// `7B i64.popcnt`
    I64Popcnt,
    /// `7C i64.add`
    I64Add,
    /// `7D i64.sub`
    I64Sub,
    /// `7E i64.mul`
    I64Mul,
    /// `7F i64.div_s`
    I64DivS,
    /// `80 i64.div_u`
    I64DivU,
    /// `81 i64.rem_s`
    I64RemS,
    /// `82 i64.rem_u`
    I64RemU,
    /// `83 i64.and`
    I64And,
    /// `84 i64.or`
    I64Or,
    /// `85 i64.xor`
    I64Xor,
    /// `86 i64.shl`
    I64Shl,
    /// `87 i64.shr_s`
    I64ShrS,
    /// `88 i64.shr_u`
    I64ShrU,
    /// `89 i64.rotl`
    I64Rotl,
    /// `8A i64.rotr`
    I64Rotr,
    /// `8B f32.abs`
    F32Abs,
    /// `8C f32.neg`
    F32Neg,
    /// `8D f32.ceil`
    F32Ceil,
    /// `8E f32.floor`
    F32Floor,
    /// `8F f32.trunc`
    F32Trunc,
    /// `90 f32.nearest`
    F32Nearest,
    /// `91 f32.sqrt`
    F32Sqrt,
    /// `92 f32.add`
    F32Add,
    /// `93 f32.sub`
    F32Sub,
    /// `94 f32.mul`
    F32Mul,
    /// `95 f32.div`
    F32Div,
    /// `96 f32.min`
    F32Min,
    /// `97 f32.max`
    F32Max,
    /// `98 f32.copysign`
    F32Copysign,
    /// `99 f64.abs`
    F64Abs,
    /// `9A f64.neg`
    F64Neg,
    /// `9B f64.ceil`
    F64Ceil,
    /// `9C f64.floor`
    F64Floor,
    /// `9D f64.trunc`
    F64Trunc,
    /// `9E f64.nearest`
    F64Nearest,
    /// `9F f64.sqrt`
    F64Sqrt,
    /// `A0 f64.add`
    F64Add,
    /// `A1 f64.sub`
    F64Sub,
    /// `A2 f64.mul`
    F64Mul,
    /// `A3 f64.div`
    F64Div,
    /// `A4 f64.min`
    F64Min,
    /// `A5 f64.max`
    F64Max,
    /// `A6 f64.copysign`
    F64Copysign,
    /// `A7 i32.wrap_i64`
    I32WrapI64,
    /// `A8 i32.trunc_f32_s`
    I32TruncF32S,
    /// `A9 i32.trunc_f32_u`
    I32TruncF32U,
    /// `AA i32.trunc_f64_s`
    I32TruncF64S,
    /// `AB i32.trunc_f64_u`
    I32TruncF64U,
    /// `AC i64.extend_i32_s`
    I64ExtendI32S,
    /// `AD i64.extend_i32_u`
    I64ExtendI32U,
    /// `AE i64.trunc_f32_s`
    I64TruncF32S,
    /// `AF i64.trunc_f32_u`
    I64TruncF32U,
    /// `B0 i64.trunc_f64_s`
    I64TruncF64S,
    /// `B1 i64.trunc_f64_u`
    I64TruncF64U,
    /// `B2 f32.convert_i32_s`
    F32ConvertI32S,
    /// `B3 f32.convert_i32_u`
    F32ConvertI32U,
    /// `B4 f32.convert_i64_s`
    F32ConvertI64S,
    /// `B5 f32.convert_i64_u`
    F32ConvertI64U,
    /// `B6 f32.demote_f64`
    F32DemoteF64,
    /// `B7 f64.convert_i32_s`
    F64ConvertI32S,
    /// `B8 f64.convert_i32_u`
    F64ConvertI32U,
    /// `B9 f64.convert_i64_s`
    F64ConvertI64S,
    /// `BA f64.convert_i64_u`
    F64ConvertI64U,
    /// `BB f64.promote_f32`
    F64PromoteF32,
    /// `BC i32.reinterpret_f32`
    I32ReinterpretF32,
    /// `BD i64.reinterpret_f64`
    I64ReinterpretF64,
    /// `BE f32.reinterpret_i32`
    F32ReinterpretI32,
    /// `BF f64.reinterpret_i64`
    F64ReinterpretI64,
    /// `C0 i32.extend8_s`
    I32Extend8S,
    /// `C1 i32.extend16_s`
    I32Extend16S,
    /// `C2 i64.extend8_s`
    I64Extend8S,
    /// `C3 i64.extend16_s`
    I64Extend16S,
    /// `C4 i64.extend32_s`
    I64Extend32S,
    /// `FC 00 i32.trunc_sat_f32_s`
    I32TruncSatF32S,
    /// `FC 01 i32.trunc_sat_f32_u`
    I32TruncSatF32U,
    /// `FC 02 i32.trunc_sat_f64_s`
    I32TruncSatF64S,
    /// `FC 03 i32.trunc_sat_f64_u`
    I32TruncSatF64U,
    /// `FC 04 i64.trunc_sat_f32_s`
    I64TruncSatF32S,
    /// `FC 05 i64.trunc_sat_f32_u`
    I64TruncSatF32U,
    /// `FC 06 i64.trunc_sat_f64_s`
    I64TruncSatF64S,
    /// `FC 07 i64.trunc_sat_f64_u`
    I64TruncSatF64U,
    /// `FC 08 memory.init`
    MemoryInit,
    /// `FC 09 data.drop`
    DataDrop,
    /// `FC 0A memory.copy`
    MemoryCopy,
    /// `FC 0B memory.fill`
    MemoryFill,
    /// `FC 0C table.init`
    TableInit,
    /// `FC 0D elem.drop`
    ElemDrop,
    /// `FC 0E table.copy`
    TableCopy,
    /// A vector instruction
    Simd,
}

/// The single-byte opcode that encodes a mnemonic, if it has one
pub open spec fn opcode_byte(m: WasmMnemonic) -> Option<u8> {
    match m {
        WasmMnemonic::Unreachable => Some(0x00u8),
        WasmMnemonic::Nop => Some(0x01u8),
        WasmMnemonic::Block => Some(0x02u8),
        WasmMnemonic::Loop => Some(0x03u8),
        WasmMnemonic::If => Some(0x04u8),
        WasmMnemonic::Else => Some(0x05u8),
        WasmMnemonic::End => Some(0x0Bu8),
        WasmMnemonic::Br => Some(0x0Cu8),
        WasmMnemonic::BrIf => Some(0x0Du8),
        WasmMnemonic::BrTable => Some(0x0Eu8),
        WasmMnemonic::Return => Some(0x0Fu8),
        WasmMnemonic::Call => Some(0x10u8),
        WasmMnemonic::CallIndirect => Some(0x11u8),
        WasmMnemonic::Drop => Some(0x1Au8),
        WasmMnemonic::Select => Some(0x1Bu8),
        WasmMnemonic::LocalGet => Some(0x20u8),
        WasmMnemonic::LocalSet => Some(0x21u8),
        WasmMnemonic::LocalTee => Some(0x22u8),
        WasmMnemonic::GlobalGet => Some(0x23u8),
        WasmMnemonic::GlobalSet => Some(0x24u8),
        WasmMnemonic::I32Load => Some(0x28u8),
        WasmMnemonic::I64Load => Some(0x29u8),
        WasmMnemonic::F32Load => Some(0x2Au8),
        WasmMnemonic::F64Load => Some(0x2Bu8),
        WasmMnemonic::I32Load8S => Some(0x2Cu8),
        WasmMnemonic::I32Load8U => Some(0x2Du8),
        WasmMnemonic::I32Load16S => Some(0x2Eu8),
        WasmMnemonic::I32Load16U => Some(0x2Fu8),
        WasmMnemonic::I64Load8S => Some(0x30u8),
        WasmMnemonic::I64Load8U => Some(0x31u8),
        WasmMnemonic::I64Load16S => Some(0x32u8),
        WasmMnemonic::I64Load16U => Some(0x33u8),
        WasmMnemonic::I64Load32S => Some(0x34u8),
        WasmMnemonic::I64Load32U => Some(0x35u8),
        WasmMnemonic::I32Store => Some(0x36u8),
        WasmMnemonic::I64Store => Some(0x37u8),
        WasmMnemonic::F32Store => Some(0x38u8),
        WasmMnemonic::F64Store => Some(0x39u8),
        WasmMnemonic::I32Store8 => Some(0x3Au8),
        WasmMnemonic::I32Store16 => Some(0x3Bu8),
        WasmMnemonic::I64Store8 => Some(0x3Cu8),
        WasmMnemonic::I64Store16 => Some(0x3Du8),
        WasmMnemonic::I64Store32 => Some(0x3Eu8),
        WasmMnemonic::MemorySize => Some(0x3Fu8),
        WasmMnemonic::MemoryGrow => Some(0x40u8),
        WasmMnemonic::I32Const => Some(0x41u8),
        WasmMnemonic::I64Const => Some(0x42u8),
        WasmMnemonic::F32Const => Some(0x43u8),
        WasmMnemonic::F64Const => Some(0x44u8),
        WasmMnemonic::I32Eqz => Some(0x45u8),
        WasmMnemonic::I32Eq => Some(0x46u8),
        WasmMnemonic::I32Ne => Some(0x47u8),
        WasmMnemonic::I32LtS => Some(0x48u8),
        WasmMnemonic::I32LtU => Some(0x49u8),
        WasmMnemonic::I32GtS => Some(0x4Au8),
        WasmMnemonic::I32GtU => Some(0x4Bu8),
        WasmMnemonic::I32LeS => Some(0x4Cu8),
        WasmMnemonic::I32LeU => Some(0x4Du8),
        WasmMnemonic::I32GeS => Some(0x4Eu8),
        WasmMnemonic::I32GeU => Some(0x4Fu8),
        WasmMnemonic::I64Eqz => Some(0x50u8),
        WasmMnemonic::I64Eq => Some(0x51u8),
        WasmMnemonic::I64Ne => Some(0x52u8),
        WasmMnemonic::I64LtS => Some(0x53u8),
        WasmMnemonic::I64LtU => Some(0x54u8),
        WasmMnemonic::I64GtS => Some(0x55u8),
        WasmMnemonic::I64GtU => Some(0x56u8),
        WasmMnemonic::I64LeS => Some(0x57u8),
        WasmMnemonic::I64LeU => Some(0x58u8),
        WasmMnemonic::I64GeS => Some(0x59u8),
        WasmMnemonic::I64GeU => Some(0x5Au8),
        WasmMnemonic::F32Eq => Some(0x5Bu8),
        WasmMnemonic::F32Ne => Some(0x5Cu8),
        WasmMnemonic::F32Lt => Some(0x5Du8),
        WasmMnemonic::F32Gt => Some(0x5Eu8),
        WasmMnemonic::F32Le => Some(0x5Fu8),
        WasmMnemonic::F32Ge => Some(0x60u8),
        WasmMnemonic::F64Eq => Some(0x61u8),
        WasmMnemonic::F64Ne => Some(0x62u8),
        WasmMnemonic::F64Lt => Some(0x63u8),
        WasmMnemonic::F64Gt => Some(0x64u8),
        WasmMnemonic::F64Le => Some(0x65u8),
        WasmMnemonic::F64Ge => Some(0x66u8),
        WasmMnemonic::I32Clz => Some(0x67u8),
        WasmMnemonic::I32Ctz => Some(0x68u8),
        WasmMnemonic::I32Popcnt => Some(0x69u8),
        WasmMnemonic::I32Add => Some(0x6Au8),
        WasmMnemonic::I32Sub => Some(0x6Bu8),
        WasmMnemonic::I32Mul => Some(0x6Cu8),
        WasmMnemonic::I32DivS => Some(0x6Du8),
        WasmMnemonic::I32DivU => Some(0x6Eu8),
        WasmMnemonic::I32RemS => Some(0x6Fu8),
        WasmMnemonic::I32RemU => Some(0x70u8),
        WasmMnemonic::I32And => Some(0x71u8),
        WasmMnemonic::I32Or => Some(0x72u8),
        WasmMnemonic::I32Xor => Some(0x73u8),
        WasmMnemonic::I32Shl => Some(0x74u8),
        WasmMnemonic::I32ShrS => Some(0x75u8),
        WasmMnemonic::I32ShrU => Some(0x76u8),
        WasmMnemonic::I32Rotl => Some(0x77u8),
        WasmMnemonic::I32Rotr => Some(0x78u8),
        WasmMnemonic::I64Clz => Some(0x79u8),
        WasmMnemonic::I64Ctz => Some(0x7Au8),
        WasmMnemonic::I64Popcnt => Some(0x7Bu8),
        WasmMnemonic::I64Add => Some(0x7Cu8),
        WasmMnemonic::I64Sub => Some(0x7Du8),
        WasmMnemonic::I64Mul => Some(0x7Eu8),
        WasmMnemonic::I64DivS => Some(0x7Fu8),
        WasmMnemonic::I64DivU => Some(0x80u8),
        WasmMnemonic::I64RemS => Some(0x81u8),
        WasmMnemonic::I64RemU => Some(0x82u8),
        WasmMnemonic::I64And => Some(0x83u8),
        WasmMnemonic::I64Or => Some(0x84u8),
        WasmMnemonic::I64Xor => Some(0x85u8),
        WasmMnemonic::I64Shl => Some(0x86u8),
        WasmMnemonic::I64ShrS => Some(0x87u8),
        WasmMnemonic::I64ShrU => Some(0x88u8),
        WasmMnemonic::I64Rotl => Some(0x89u8),
        WasmMnemonic::I64Rotr => Some(0x8Au8),
        WasmMnemonic::F32Abs => Some(0x8Bu8),
        WasmMnemonic::F32Neg => Some(0x8Cu8),
        WasmMnemonic::F32Ceil => Some(0x8Du8),
        WasmMnemonic::F32Floor => Some(0x8Eu8),
        WasmMnemonic::F32Trunc => Some(0x8Fu8),
        WasmMnemonic::F32Nearest => Some(0x90u8),
        WasmMnemonic::F32Sqrt => Some(0x91u8),
        WasmMnemonic::F32Add => Some(0x92u8),
        WasmMnemonic::F32Sub => Some(0x93u8),
        WasmMnemonic::F32Mul => Some(0x94u8),
        WasmMnemonic::F32Div => Some(0x95u8),
        WasmMnemonic::F32Min => Some(0x96u8),
        WasmMnemonic::F32Max => Some(0x97u8),
        WasmMnemonic::F32Copysign => Some(0x98u8),
        WasmMnemonic::F64Abs => Some(0x99u8),
        WasmMnemonic::F64Neg => Some(0x9Au8),
        WasmMnemonic::F64Ceil => Some(0x9Bu8),
        WasmMnemonic::F64Floor => Some(0x9Cu8),
        WasmMnemonic::F64Trunc => Some(0x9Du8),
        WasmMnemonic::F64Nearest => Some(0x9Eu8),
        WasmMnemonic::F64Sqrt => Some(0x9Fu8),
        WasmMnemonic::F64Add => Some(0xA0u8),
        WasmMnemonic::F64Sub => Some(0xA1u8),
        WasmMnemonic::F64Mul => Some(0xA2u8),
        WasmMnemonic::F64Div => Some(0xA3u8),
        WasmMnemonic::F64Min => Some(0xA4u8),
        WasmMnemonic::F64Max => Some(0xA5u8),
        WasmMnemonic::F64Copysign => Some(0xA6u8),
        WasmMnemonic::I32WrapI64 => Some(0xA7u8),
        WasmMnemonic::I32TruncF32S => Some(0xA8u8),
        WasmMnemonic::I32TruncF32U => Some(0xA9u8),
        WasmMnemonic::I32TruncF64S => Some(0xAAu8),
        WasmMnemonic::I32TruncF64U => Some(0xABu8),
        WasmMnemonic::I64ExtendI32S => Some(0xACu8),
        WasmMnemonic::I64ExtendI32U => Some(0xADu8),
        WasmMnemonic::I64TruncF32S => Some(0xAEu8),
        WasmMnemonic::I64TruncF32U => Some(0xAFu8),
        WasmMnemonic::I64TruncF64S => Some(0xB0u8),
        WasmMnemonic::I64TruncF64U => Some(0xB1u8),
        WasmMnemonic::F32ConvertI32S => Some(0xB2u8),
        WasmMnemonic::F32ConvertI32U => Some(0xB3u8),
        WasmMnemonic::F32ConvertI64S => Some(0xB4u8),
        WasmMnemonic::F32ConvertI64U => Some(0xB5u8),
        WasmMnemonic::F32DemoteF64 => Some(0xB6u8),
        WasmMnemonic::F64ConvertI32S => Some(0xB7u8),
        WasmMnemonic::F64ConvertI32U => Some(0xB8u8),
        WasmMnemonic::F64ConvertI64S => Some(0xB9u8),
        WasmMnemonic::F64ConvertI64U => Some(0xBAu8),
        WasmMnemonic::F64PromoteF32 => Some(0xBBu8),
        WasmMnemonic::I32ReinterpretF32 => Some(0xBCu8),
        WasmMnemonic::I64ReinterpretF64 => Some(0xBDu8),
        WasmMnemonic::F32ReinterpretI32 => Some(0xBEu8),
        WasmMnemonic::F64ReinterpretI64 => Some(0xBFu8),
        WasmMnemonic::I32Extend8S => Some(0xC0u8),
        WasmMnemonic::I32Extend16S => Some(0xC1u8),
        WasmMnemonic::I64Extend8S => Some(0xC2u8),
        WasmMnemonic::I64Extend16S => Some(0xC3u8),
        WasmMnemonic::I64Extend32S => Some(0xC4u8),
        _ => None,
    }
}

/// The text format name of a mnemonic
pub open spec fn mnemonic_text(m: WasmMnemonic) -> Seq<char> {
    match m {
        WasmMnemonic::Unreachable => "unreachable"@,
        WasmMnemonic::Nop => "nop"@,
        WasmMnemonic::Block => "block"@,
        WasmMnemonic::Loop => "loop"@,
        WasmMnemonic::If => "if"@,
        WasmMnemonic::Else => "else"@,
        WasmMnemonic::End => "end"@,
        WasmMnemonic::Br => "br"@,
        WasmMnemonic::BrIf => "br_if"@,
        WasmMnemonic::BrTable => "br_table"@,
        WasmMnemonic::Return => "return"@,
        WasmMnemonic::Call => "call"@,
        WasmMnemonic::CallIndirect => "call_indirect"@,
        WasmMnemonic::Drop => "drop"@,
        WasmMnemonic::Select => "select"@,
        WasmMnemonic::LocalGet => "local.get"@,
        WasmMnemonic::LocalSet => "local.set"@,
        WasmMnemonic::LocalTee => "local.tee"@,
        WasmMnemonic::GlobalGet => "global.get"@,
        WasmMnemonic::GlobalSet => "global.set"@,
        WasmMnemonic::I32Load => "i32.load"@,
        WasmMnemonic::I64Load => "i64.load"@,
        WasmMnemonic::F32Load => "f32.load"@,
        WasmMnemonic::F64Load => "f64.load"@,
        WasmMnemonic::I32Load8S => "i32.load8_s"@,
        WasmMnemonic::I32Load8U => "i32.load8_u"@,
        WasmMnemonic::I32Load16S => "i32.load16_s"@,
        WasmMnemonic::I32Load16U => "i32.load16_u"@,
        WasmMnemonic::I64Load8S => "i64.load8_s"@,
        WasmMnemonic::I64Load8U => "i64.load8_u"@,
        WasmMnemonic::I64Load16S => "i64.load16_s"@,
        WasmMnemonic::I64Load16U => "i64.load16_u"@,
        WasmMnemonic::I64Load32S => "i64.load32_s"@,
        WasmMnemonic::I64Load32U => "i64.load32_u"@,
        WasmMnemonic::I32Store => "i32.store"@,
        WasmMnemonic::I64Store => "i64.store"@,
        WasmMnemonic::F32Store => "f32.store"@,
        WasmMnemonic::F64Store => "f64.store"@,
        WasmMnemonic::I32Store8 => "i32.store8"@,
        WasmMnemonic::I32Store16 => "i32.store16"@,
        WasmMnemonic::I64Store8 => "i64.store8"@,
        WasmMnemonic::I64Store16 => "i64.store16"@,
        WasmMnemonic::I64Store32 => "i64.store32"@,
        WasmMnemonic::MemorySize => "memory.size"@,
        WasmMnemonic::MemoryGrow => "memory.grow"@,
        WasmMnemonic::I32Const => "i32.const"@,
        WasmMnemonic::I64Const => "i64.const"@,
        WasmMnemonic::F32Const => "f32.const"@,
        WasmMnemonic::F64Const => "f64.const"@,
        WasmMnemonic::I32Eqz => "i32.eqz"@,
        WasmMnemonic::I32Eq => "i32.eq"@,
        WasmMnemonic::I32Ne => "i32.ne"@,
        WasmMnemonic::I32LtS => "i32.lt_s"@,
        WasmMnemonic::I32LtU => "i32.lt_u"@,
        WasmMnemonic::I32GtS => "i32.gt_s"@,
        WasmMnemonic::I32GtU => "i32.gt_u"@,
        WasmMnemonic::I32LeS => "i32.le_s"@,
        WasmMnemonic::I32LeU => "i32.le_u"@,
        WasmMnemonic::I32GeS => "i32.ge_s"@,
        WasmMnemonic::I32GeU => "i32.ge_u"@,
        WasmMnemonic::I64Eqz => "i64.eqz"@,
        WasmMnemonic::I64Eq => "i64.eq"@,
        WasmMnemonic::I64Ne => "i64.ne"@,
        WasmMnemonic::I64LtS => "i64.lt_s"@,
        WasmMnemonic::I64LtU => "i64.lt_u"@,
        WasmMnemonic::I64GtS => "i64.gt_s"@,
        WasmMnemonic::I64GtU => "i64.gt_u"@,
        WasmMnemonic::I64LeS => "i64.le_s"@,
        WasmMnemonic::I64LeU => "i64.le_u"@,
        WasmMnemonic::I64GeS => "i64.ge_s"@,
        WasmMnemonic::I64GeU => "i64.ge_u"@,
        WasmMnemonic::F32Eq => "f32.eq"@,
        WasmMnemonic::F32Ne => "f32.ne"@,
        WasmMnemonic::F32Lt => "f32.lt"@,
        WasmMnemonic::F32Gt => "f32.gt"@,
        WasmMnemonic::F32Le => "f32.le"@,
        WasmMnemonic::F32Ge => "f32.ge"@,
        WasmMnemonic::F64Eq => "f64.eq"@,
        WasmMnemonic::F64Ne => "f64.ne"@,
        WasmMnemonic::F64Lt => "f64.lt"@,
        WasmMnemonic::F64Gt => "f64.gt"@,
        WasmMnemonic::F64Le => "f64.le"@,
        WasmMnemonic::F64Ge => "f64.ge"@,
        WasmMnemonic::I32Clz => "i32.clz"@,
        WasmMnemonic::I32Ctz => "i32.ctz"@,
        WasmMnemonic::I32Popcnt => "i32.popcnt"@,
        WasmMnemonic::I32Add => "i32.add"@,
        WasmMnemonic::I32Sub => "i32.sub"@,
        WasmMnemonic::I32Mul => "i32.mul"@,
        WasmMnemonic::I32DivS => "i32.div_s"@,
        WasmMnemonic::I32DivU => "i32.div_u"@,
        WasmMnemonic::I32RemS => "i32.rem_s"@,
        WasmMnemonic::I32RemU => "i32.rem_u"@,
        WasmMnemonic::I32And => "i32.and"@,
        WasmMnemonic::I32Or => "i32.or"@,
        WasmMnemonic::I32Xor => "i32.xor"@,
        WasmMnemonic::I32Shl => "i32.shl"@,
        WasmMnemonic::I32ShrS => "i32.shr_s"@,
        WasmMnemonic::I32ShrU => "i32.shr_u"@,
        WasmMnemonic::I32Rotl => "i32.rotl"@,
        WasmMnemonic::I32Rotr => "i32.rotr"@,
        WasmMnemonic::I64Clz => "i64.clz"@,
        WasmMnemonic::I64Ctz => "i64.ctz"@,
        WasmMnemonic::I64Popcnt => "i64.popcnt"@,
        WasmMnemonic::I64Add => "i64.add"@,
        WasmMnemonic::I64Sub => "i64.sub"@,
        WasmMnemonic::I64Mul => "i64.mul"@,
        WasmMnemonic::I64DivS => "i64.div_s"@,
        WasmMnemonic::I64DivU => "i64.div_u"@,
        WasmMnemonic::I64RemS => "i64.rem_s"@,
        WasmMnemonic::I64RemU => "i64.rem_u"@,
        WasmMnemonic::I64And => "i64.and"@,
        WasmMnemonic::I64Or => "i64.or"@,
        WasmMnemonic::I64Xor => "i64.xor"@,
        WasmMnemonic::I64Shl => "i64.shl"@,
        WasmMnemonic::I64ShrS => "i64.shr_s"@,
        WasmMnemonic::I64ShrU => "i64.shr_u"@,
        WasmMnemonic::I64Rotl => "i64.rotl"@,
        WasmMnemonic::I64Rotr => "i64.rotr"@,
        WasmMnemonic::F32Abs => "f32.abs"@,
        WasmMnemonic::F32Neg => "f32.neg"@,
        WasmMnemonic::F32Ceil => "f32.ceil"@,
        WasmMnemonic::F32Floor => "f32.floor"@,
        WasmMnemonic::F32Trunc => "f32.trunc"@,
        WasmMnemonic::F32Nearest => "f32.nearest"@,
        WasmMnemonic::F32Sqrt => "f32.sqrt"@,
        WasmMnemonic::F32Add => "f32.add"@,
        WasmMnemonic::F32Sub => "f32.sub"@,
        WasmMnemonic::F32Mul => "f32.mul"@,
        WasmMnemonic::F32Div => "f32.div"@,
        WasmMnemonic::F32Min => "f32.min"@,
        WasmMnemonic::F32Max => "f32.max"@,
        WasmMnemonic::F32Copysign => "f32.copysign"@,
        WasmMnemonic::F64Abs => "f64.abs"@,
        WasmMnemonic::F64Neg => "f64.neg"@,
        WasmMnemonic::F64Ceil => "f64.ceil"@,
        WasmMnemonic::F64Floor => "f64.floor"@,
        WasmMnemonic::F64Trunc => "f64.trunc"@,
        WasmMnemonic::F64Nearest => "f64.nearest"@,
        WasmMnemonic::F64Sqrt => "f64.sqrt"@,
        WasmMnemonic::F64Add => "f64.add"@,
        WasmMnemonic::F64Sub => "f64.sub"@,
        WasmMnemonic::F64Mul => "f64.mul"@,
        WasmMnemonic::F64Div => "f64.div"@,
        WasmMnemonic::F64Min => "f64.min"@,
        WasmMnemonic::F64Max => "f64.max"@,
        WasmMnemonic::F64Copysign => "f64.copysign"@,
        WasmMnemonic::I32WrapI64 => "i32.wrap_i64"@,
        WasmMnemonic::I32TruncF32S => "i32.trunc_f32_s"@,
        WasmMnemonic::I32TruncF32U => "i32.trunc_f32_u"@,
        WasmMnemonic::I32TruncF64S => "i32.trunc_f64_s"@,
        WasmMnemonic::I32TruncF64U => "i32.trunc_f64_u"@,
        WasmMnemonic::I64ExtendI32S => "i64.extend_i32_s"@,
        WasmMnemonic::I64ExtendI32U => "i64.extend_i32_u"@,
        WasmMnemonic::I64TruncF32S => "i64.trunc_f32_s"@,
        WasmMnemonic::I64TruncF32U => "i64.trunc_f32_u"@,
        WasmMnemonic::I64TruncF64S => "i64.trunc_f64_s"@,
        WasmMnemonic::I64TruncF64U => "i64.trunc_f64_u"@,
        WasmMnemonic::F32ConvertI32S => "f32.convert_i32_s"@,
        WasmMnemonic::F32ConvertI32U => "f32.convert_i32_u"@,
        WasmMnemonic::F32ConvertI64S => "f32.convert_i64_s"@,
        WasmMnemonic::F32ConvertI64U => "f32.convert_i64_u"@,
        WasmMnemonic::F32DemoteF64 => "f32.demote_f64"@,
        WasmMnemonic::F64ConvertI32S => "f64.convert_i32_s"@,
        WasmMnemonic::F64ConvertI32U => "f64.convert_i32_u"@,
        WasmMnemonic::F64ConvertI64S => "f64.convert_i64_s"@,
        WasmMnemonic::F64ConvertI64U => "f64.convert_i64_u"@,
        WasmMnemonic::F64PromoteF32 => "f64.promote_f32"@,
        WasmMnemonic::I32ReinterpretF32 => "i32.reinterpret_f32"@,
        WasmMnemonic::I64ReinterpretF64 => "i64.reinterpret_f64"@,
        WasmMnemonic::F32ReinterpretI32 => "f32.reinterpret_i32"@,
        WasmMnemonic::F64ReinterpretI64 => "f64.reinterpret_i64"@,
        WasmMnemonic::I32Extend8S => "i32.extend8_s"@,
        WasmMnemonic::I32Extend16S => "i32.extend16_s"@,
        WasmMnemonic::I64Extend8S => "i64.extend8_s"@,
        WasmMnemonic::I64Extend16S => "i64.extend16_s"@,
        WasmMnemonic::I64Extend32S => "i64.extend32_s"@,
        WasmMnemonic::I32TruncSatF32S => "i32.trunc_sat_f32_s"@,
        WasmMnemonic::I32TruncSatF32U => "i32.trunc_sat_f32_u"@,
        WasmMnemonic::I32TruncSatF64S => "i32.trunc_sat_f64_s"@,
        WasmMnemonic::I32TruncSatF64U => "i32.trunc_sat_f64_u"@,
        WasmMnemonic::I64TruncSatF32S => "i64.trunc_sat_f32_s"@,
        WasmMnemonic::I64TruncSatF32U => "i64.trunc_sat_f32_u"@,
        WasmMnemonic::I64TruncSatF64S => "i64.trunc_sat_f64_s"@,
        WasmMnemonic::I64TruncSatF64U => "i64.trunc_sat_f64_u"@,
        WasmMnemonic::MemoryInit => "memory.init"@,
        WasmMnemonic::DataDrop => "data.drop"@,
        WasmMnemonic::MemoryCopy => "memory.copy"@,
        WasmMnemonic::MemoryFill => "memory.fill"@,
        WasmMnemonic::TableInit => "table.init"@,
        WasmMnemonic::ElemDrop => "elem.drop"@,
        WasmMnemonic::TableCopy => "table.copy"@,
        WasmMnemonic::Simd => "(simd)"@,
    }
}

/// The proposal of a mnemonic
pub open spec fn mnemonic_proposal(m: WasmMnemonic) -> WasmProposalType {
    match m {
        WasmMnemonic::Unreachable | WasmMnemonic::Nop | WasmMnemonic::Block | WasmMnemonic::Loop | WasmMnemonic::If | WasmMnemonic::Else | WasmMnemonic::End | WasmMnemonic::Br | WasmMnemonic::BrIf | WasmMnemonic::BrTable | WasmMnemonic::Return | WasmMnemonic::Call | WasmMnemonic::CallIndirect | WasmMnemonic::Drop | WasmMnemonic::Select | WasmMnemonic::LocalGet | WasmMnemonic::LocalSet | WasmMnemonic::LocalTee | WasmMnemonic::GlobalGet | WasmMnemonic::GlobalSet | WasmMnemonic::MemorySize | WasmMnemonic::MemoryGrow => WasmProposalType::Mvp,
        WasmMnemonic::I32Load | WasmMnemonic::I64Load | WasmMnemonic::I32Load8S | WasmMnemonic::I32Load8U | WasmMnemonic::I32Load16S | WasmMnemonic::I32Load16U | WasmMnemonic::I64Load8S | WasmMnemonic::I64Load8U | WasmMnemonic::I64Load16S | WasmMnemonic::I64Load16U | WasmMnemonic::I64Load32S | WasmMnemonic::I64Load32U | WasmMnemonic::I32Store | WasmMnemonic::I64Store | WasmMnemonic::I32Store8 | WasmMnemonic::I32Store16 | WasmMnemonic::I64Store8 | WasmMnemonic::I64Store16 | WasmMnemonic::I64Store32 | WasmMnemonic::I32Const | WasmMnemonic::I64Const | WasmMnemonic::I32Eqz | WasmMnemonic::I32Eq | WasmMnemonic::I32Ne | WasmMnemonic::I32LtS | WasmMnemonic::I32LtU | WasmMnemonic::I32GtS | WasmMnemonic::I32GtU | WasmMnemonic::I32LeS | WasmMnemonic::I32LeU | WasmMnemonic::I32GeS | WasmMnemonic::I32GeU | WasmMnemonic::I64Eqz | WasmMnemonic::I64Eq | WasmMnemonic::I64Ne | WasmMnemonic::I64LtS | WasmMnemonic::I64LtU | WasmMnemonic::I64GtS | WasmMnemonic::I64GtU | WasmMnemonic::I64LeS | WasmMnemonic::I64LeU | WasmMnemonic::I64GeS | WasmMnemonic::I64GeU | WasmMnemonic::I32Clz | WasmMnemonic::I32Ctz | WasmMnemonic::I32Popcnt | WasmMnemonic::I32Add | WasmMnemonic::I32Sub | WasmMnemonic::I32Mul | WasmMnemonic::I32DivS | WasmMnemonic::I32DivU | WasmMnemonic::I32RemS | WasmMnemonic::I32RemU | WasmMnemonic::I32And | WasmMnemonic::I32Or | WasmMnemonic::I32Xor | WasmMnemonic::I32Shl | WasmMnemonic::I32ShrS | WasmMnemonic::I32ShrU | WasmMnemonic::I32Rotl | WasmMnemonic::I32Rotr | WasmMnemonic::I64Clz | WasmMnemonic::I64Ctz | WasmMnemonic::I64Popcnt | WasmMnemonic::I64Add | WasmMnemonic::I64Sub | WasmMnemonic::I64Mul | WasmMnemonic::I64DivS | WasmMnemonic::I64DivU | WasmMnemonic::I64RemS | WasmMnemonic::I64RemU | WasmMnemonic::I64And | WasmMnemonic::I64Or | WasmMnemonic::I64Xor | WasmMnemonic::I64Shl | WasmMnemonic::I64ShrS | WasmMnemonic::I64ShrU | WasmMnemonic::I64Rotl | WasmMnemonic::I64Rotr | WasmMnemonic::I32WrapI64 | WasmMnemonic::I64ExtendI32S | WasmMnemonic::I64ExtendI32U => WasmProposalType::MvpI,
        WasmMnemonic::F32Load | WasmMnemonic::F64Load | WasmMnemonic::F32Store | WasmMnemonic::F64Store | WasmMnemonic::F32Const | WasmMnemonic::F64Const | WasmMnemonic::F32Eq | WasmMnemonic::F32Ne | WasmMnemonic::F32Lt | WasmMnemonic::F32Gt | WasmMnemonic::F32Le | WasmMnemonic::F32Ge | WasmMnemonic::F64Eq | WasmMnemonic::F64Ne | WasmMnemonic::F64Lt | WasmMnemonic::F64Gt | WasmMnemonic::F64Le | WasmMnemonic::F64Ge | WasmMnemonic::F32Abs | WasmMnemonic::F32Neg | WasmMnemonic::F32Ceil | WasmMnemonic::F32Floor | WasmMnemonic::F32Trunc | WasmMnemonic::F32Nearest | WasmMnemonic::F32Sqrt | WasmMnemonic::F32Add | WasmMnemonic::F32Sub | WasmMnemonic::F32Mul | WasmMnemonic::F32Div | WasmMnemonic::F32Min | WasmMnemonic::F32Max | WasmMnemonic::F32Copysign | WasmMnemonic::F64Abs | WasmMnemonic::F64Neg | WasmMnemonic::F64Ceil | WasmMnemonic::F64Floor | WasmMnemonic::F64Trunc | WasmMnemonic::F64Nearest | WasmMnemonic::F64Sqrt | WasmMnemonic::F64Add | WasmMnemonic::F64Sub | WasmMnemonic::F64Mul | WasmMnemonic::F64Div | WasmMnemonic::F64Min | WasmMnemonic::F64Max | WasmMnemonic::F64Copysign | WasmMnemonic::I32TruncF32S | WasmMnemonic::I32TruncF32U | WasmMnemonic::I32TruncF64S | WasmMnemonic::I32TruncF64U | WasmMnemonic::I64TruncF32S | WasmMnemonic::I64TruncF32U | WasmMnemonic::I64TruncF64S | WasmMnemonic::I64TruncF64U | WasmMnemonic::F32ConvertI32S | WasmMnemonic::F32ConvertI32U | WasmMnemonic::F32ConvertI64S | WasmMnemonic::F32ConvertI64U | WasmMnemonic::F32DemoteF64 | WasmMnemonic::F64ConvertI32S | WasmMnemonic::F64ConvertI32U | WasmMnemonic::F64ConvertI64S | WasmMnemonic::F64ConvertI64U | WasmMnemonic::F64PromoteF32 | WasmMnemonic::I32ReinterpretF32 | WasmMnemonic::I64ReinterpretF64 | WasmMnemonic::F32ReinterpretI32 | WasmMnemonic::F64ReinterpretI64 => WasmProposalType::MvpF,
        WasmMnemonic::I32Extend8S | WasmMnemonic::I32Extend16S | WasmMnemonic::I64Extend8S | WasmMnemonic::I64Extend16S | WasmMnemonic::I64Extend32S => WasmProposalType::SignExtend,
        WasmMnemonic::I32TruncSatF32S | WasmMnemonic::I32TruncSatF32U | WasmMnemonic::I32TruncSatF64S | WasmMnemonic::I32TruncSatF64U | WasmMnemonic::I64TruncSatF32S | WasmMnemonic::I64TruncSatF32U | WasmMnemonic::I64TruncSatF64S | WasmMnemonic::I64TruncSatF64U => WasmProposalType::NontrappingFloatToIntConversion,
        WasmMnemonic::MemoryInit | WasmMnemonic::DataDrop | WasmMnemonic::MemoryCopy | WasmMnemonic::MemoryFill | WasmMnemonic::TableInit | WasmMnemonic::ElemDrop | WasmMnemonic::TableCopy => WasmProposalType::BulkMemoryOperations,
        WasmMnemonic::Simd => WasmProposalType::Simd,
    }
}

/// The instruction of a single-byte opcode
pub open spec fn mnemonic_of_byte(b: u8) -> Option<WasmMnemonic> {
    match b {
        0x00 => Some(WasmMnemonic::Unreachable),
        0x01 => Some(WasmMnemonic::Nop),
        0x02 => Some(WasmMnemonic::Block),
        0x03 => Some(WasmMnemonic::Loop),
        0x04 => Some(WasmMnemonic::If),
        0x05 => Some(WasmMnemonic::Else),
        0x0B => Some(WasmMnemonic::End),
        0x0C => Some(WasmMnemonic::Br),
        0x0D => Some(WasmMnemonic::BrIf),
        0x0E => Some(WasmMnemonic::BrTable),
        0x0F => Some(WasmMnemonic::Return),
        0x10 => Some(WasmMnemonic::Call),
        0x11 => Some(WasmMnemonic::CallIndirect),
        0x1A => Some(WasmMnemonic::Drop),
        0x1B => Some(WasmMnemonic::Select),
        0x20 => Some(WasmMnemonic::LocalGet),
        0x21 => Some(WasmMnemonic::LocalSet),
        0x22 => Some(WasmMnemonic::LocalTee),
        0x23 => Some(WasmMnemonic::GlobalGet),
        0x24 => Some(WasmMnemonic::GlobalSet),
        0x28 => Some(WasmMnemonic::I32Load),
        0x29 => Some(WasmMnemonic::I64Load),
        0x2A => Some(WasmMnemonic::F32Load),
        0x2B => Some(WasmMnemonic::F64Load),
        0x2C => Some(WasmMnemonic::I32Load8S),
        0x2D => Some(WasmMnemonic::I32Load8U),
        0x2E => Some(WasmMnemonic::I32Load16S),
        0x2F => Some(WasmMnemonic::I32Load16U),
        0x30 => Some(WasmMnemonic::I64Load8S),
        0x31 => Some(WasmMnemonic::I64Load8U),
        0x32 => Some(WasmMnemonic::I64Load16S),
        0x33 => Some(WasmMnemonic::I64Load16U),
        0x34 => Some(WasmMnemonic::I64Load32S),
        0x35 => Some(WasmMnemonic::I64Load32U),
        0x36 => Some(WasmMnemonic::I32Store),
        0x37 => Some(WasmMnemonic::I64Store),
        0x38 => Some(WasmMnemonic::F32Store),
        0x39 => Some(WasmMnemonic::F64Store),
        0x3A => Some(WasmMnemonic::I32Store8),
        0x3B => Some(WasmMnemonic::I32Store16),
        0x3C => Some(WasmMnemonic::I64Store8),
        0x3D => Some(WasmMnemonic::I64Store16),
        0x3E => Some(WasmMnemonic::I64Store32),
        0x3F => Some(WasmMnemonic::MemorySize),
        0x40 => Some(WasmMnemonic::MemoryGrow),
        0x41 => Some(WasmMnemonic::I32Const),
        0x42 => Some(WasmMnemonic::I64Const),
        0x43 => Some(WasmMnemonic::F32Const),
        0x44 => Some(WasmMnemonic::F64Const),
        0x45 => Some(WasmMnemonic::I32Eqz),
        0x46 => Some(WasmMnemonic::I32Eq),
        0x47 => Some(WasmMnemonic::I32Ne),
        0x48 => Some(WasmMnemonic::I32LtS),
        0x49 => Some(WasmMnemonic::I32LtU),
        0x4A => Some(WasmMnemonic::I32GtS),
        0x4B => Some(WasmMnemonic::I32GtU),
        0x4C => Some(WasmMnemonic::I32LeS),
        0x4D => Some(WasmMnemonic::I32LeU),
        0x4E => Some(WasmMnemonic::I32GeS),
        0x4F => Some(WasmMnemonic::I32GeU),
        0x50 => Some(WasmMnemonic::I64Eqz),
        0x51 => Some(WasmMnemonic::I64Eq),
        0x52 => Some(WasmMnemonic::I64Ne),
        0x53 => Some(WasmMnemonic::I64LtS),
        0x54 => Some(WasmMnemonic::I64LtU),
        0x55 => Some(WasmMnemonic::I64GtS),
        0x56 => Some(WasmMnemonic::I64GtU),
        0x57 => Some(WasmMnemonic::I64LeS),
        0x58 => Some(WasmMnemonic::I64LeU),
        0x59 => Some(WasmMnemonic::I64GeS),
        0x5A => Some(WasmMnemonic::I64GeU),
        0x5B => Some(WasmMnemonic::F32Eq),
        0x5C => Some(WasmMnemonic::F32Ne),
        0x5D => Some(WasmMnemonic::F32Lt),
        0x5E => Some(WasmMnemonic::F32Gt),
        0x5F => Some(WasmMnemonic::F32Le),
        0x60 => Some(WasmMnemonic::F32Ge),
        0x61 => Some(WasmMnemonic::F64Eq),
        0x62 => Some(WasmMnemonic::F64Ne),
        0x63 => Some(WasmMnemonic::F64Lt),
        0x64 => Some(WasmMnemonic::F64Gt),
        0x65 => Some(WasmMnemonic::F64Le),
        0x66 => Some(WasmMnemonic::F64Ge),
        0x67 => Some(WasmMnemonic::I32Clz),
        0x68 => Some(WasmMnemonic::I32Ctz),
        0x69 => Some(WasmMnemonic::I32Popcnt),
        0x6A => Some(WasmMnemonic::I32Add),
        0x6B => Some(WasmMnemonic::I32Sub),
        0x6C => Some(WasmMnemonic::I32Mul),
        0x6D => Some(WasmMnemonic::I32DivS),
        0x6E => Some(WasmMnemonic::I32DivU),
        0x6F => Some(WasmMnemonic::I32RemS),
        0x70 => Some(WasmMnemonic::I32RemU),
        0x71 => Some(WasmMnemonic::I32And),
        0x72 => Some(WasmMnemonic::I32Or),
        0x73 => Some(WasmMnemonic::I32Xor),
        0x74 => Some(WasmMnemonic::I32Shl),
        0x75 => Some(WasmMnemonic::I32ShrS),
        0x76 => Some(WasmMnemonic::I32ShrU),
        0x77 => Some(WasmMnemonic::I32Rotl),
        0x78 => Some(WasmMnemonic::I32Rotr),
        0x79 => Some(WasmMnemonic::I64Clz),
        0x7A => Some(WasmMnemonic::I64Ctz),
        0x7B => Some(WasmMnemonic::I64Popcnt),
        0x7C => Some(WasmMnemonic::I64Add),
        0x7D => Some(WasmMnemonic::I64Sub),
        0x7E => Some(WasmMnemonic::I64Mul),
        0x7F => Some(WasmMnemonic::I64DivS),
        0x80 => Some(WasmMnemonic::I64DivU),
        0x81 => Some(WasmMnemonic::I64RemS),
        0x82 => Some(WasmMnemonic::I64RemU),
        0x83 => Some(WasmMnemonic::I64And),
        0x84 => Some(WasmMnemonic::I64Or),
        0x85 => Some(WasmMnemonic::I64Xor),
        0x86 => Some(WasmMnemonic::I64Shl),
        0x87 => Some(WasmMnemonic::I64ShrS),
        0x88 => Some(WasmMnemonic::I64ShrU),
        0x89 => Some(WasmMnemonic::I64Rotl),
        0x8A => Some(WasmMnemonic::I64Rotr),
        0x8B => Some(WasmMnemonic::F32Abs),
        0x8C => Some(WasmMnemonic::F32Neg),
        0x8D => Some(WasmMnemonic::F32Ceil),
        0x8E => Some(WasmMnemonic::F32Floor),
        0x8F => Some(WasmMnemonic::F32Trunc),
        0x90 => Some(WasmMnemonic::F32Nearest),
        0x91 => Some(WasmMnemonic::F32Sqrt),
        0x92 => Some(WasmMnemonic::F32Add),
        0x93 => Some(WasmMnemonic::F32Sub),
        0x94 => Some(WasmMnemonic::F32Mul),
        0x95 => Some(WasmMnemonic::F32Div),
        0x96 => Some(WasmMnemonic::F32Min),
        0x97 => Some(WasmMnemonic::F32Max),
        0x98 => Some(WasmMnemonic::F32Copysign),
        0x99 => Some(WasmMnemonic::F64Abs),
        0x9A => Some(WasmMnemonic::F64Neg),
        0x9B => Some(WasmMnemonic::F64Ceil),
        0x9C => Some(WasmMnemonic::F64Floor),
        0x9D => Some(WasmMnemonic::F64Trunc),
        0x9E => Some(WasmMnemonic::F64Nearest),
        0x9F => Some(WasmMnemonic::F64Sqrt),
        0xA0 => Some(WasmMnemonic::F64Add),
        0xA1 => Some(WasmMnemonic::F64Sub),
        0xA2 => Some(WasmMnemonic::F64Mul),
        0xA3 => Some(WasmMnemonic::F64Div),
        0xA4 => Some(WasmMnemonic::F64Min),
        0xA5 => Some(WasmMnemonic::F64Max),
        0xA6 => Some(WasmMnemonic::F64Copysign),
        0xA7 => Some(WasmMnemonic::I32WrapI64),
        0xA8 => Some(WasmMnemonic::I32TruncF32S),
        0xA9 => Some(WasmMnemonic::I32TruncF32U),
        0xAA => Some(WasmMnemonic::I32TruncF64S),
        0xAB => Some(WasmMnemonic::I32TruncF64U),
        0xAC => Some(WasmMnemonic::I64ExtendI32S),
        0xAD => Some(WasmMnemonic::I64ExtendI32U),
        0xAE => Some(WasmMnemonic::I64TruncF32S),
        0xAF => Some(WasmMnemonic::I64TruncF32U),
        0xB0 => Some(WasmMnemonic::I64TruncF64S),
        0xB1 => Some(WasmMnemonic::I64TruncF64U),
        0xB2 => Some(WasmMnemonic::F32ConvertI32S),
        0xB3 => Some(WasmMnemonic::F32ConvertI32U),
        0xB4 => Some(WasmMnemonic::F32ConvertI64S),
        0xB5 => Some(WasmMnemonic::F32ConvertI64U),
        0xB6 => Some(WasmMnemonic::F32DemoteF64),
        0xB7 => Some(WasmMnemonic::F64ConvertI32S),
        0xB8 => Some(WasmMnemonic::F64ConvertI32U),
        0xB9 => Some(WasmMnemonic::F64ConvertI64S),
        0xBA => Some(WasmMnemonic::F64ConvertI64U),
        0xBB => Some(WasmMnemonic::F64PromoteF32),
        0xBC => Some(WasmMnemonic::I32ReinterpretF32),
        0xBD => Some(WasmMnemonic::I64ReinterpretF64),
        0xBE => Some(WasmMnemonic::F32ReinterpretI32),
        0xBF => Some(WasmMnemonic::F64ReinterpretI64),
        0xC0 => Some(WasmMnemonic::I32Extend8S),
        0xC1 => Some(WasmMnemonic::I32Extend16S),
        0xC2 => Some(WasmMnemonic::I64Extend8S),
        0xC3 => Some(WasmMnemonic::I64Extend16S),
        0xC4 => Some(WasmMnemonic::I64Extend32S),
        _ => None,
    }
}

impl WasmMnemonic {
    /// Decodes a single-byte opcode.
    pub fn from_u8(val: u8) -> (r: Option<Self>)
        ensures
            r == mnemonic_of_byte(val),
            r matches Some(m) ==> opcode_byte(m) == Some(val),
            r is None ==> forall|m: WasmMnemonic| opcode_byte(m) != Some(val),
    {
        match val {
            0x00 => Some(Self::Unreachable),
            0x01 => Some(Self::Nop),
            0x02 => Some(Self::Block),
            0x03 => Some(Self::Loop),
            0x04 => Some(Self::If),
            0x05 => Some(Self::Else),
            0x0B => Some(Self::End),
            0x0C => Some(Self::Br),
            0x0D => Some(Self::BrIf),
            0x0E => Some(Self::BrTable),
            0x0F => Some(Self::Return),
            0x10 => Some(Self::Call),
            0x11 => Some(Self::CallIndirect),
            0x1A => Some(Self::Drop),
            0x1B => Some(Self::Select),
            0x20 => Some(Self::LocalGet),
            0x21 => Some(Self::LocalSet),
            0x22 => Some(Self::LocalTee),
            0x23 => Some(Self::GlobalGet),
            0x24 => Some(Self::GlobalSet),
            0x28 => Some(Self::I32Load),
            0x29 => Some(Self::I64Load),
            0x2A => Some(Self::F32Load),
            0x2B => Some(Self::F64Load),
            0x2C => Some(Self::I32Load8S),
            0x2D => Some(Self::I32Load8U),
            0x2E => Some(Self::I32Load16S),
            0x2F => Some(Self::I32Load16U),
            0x30 => Some(Self::I64Load8S),
            0x31 => Some(Self::I64Load8U),
            0x32 => Some(Self::I64Load16S),
            0x33 => Some(Self::I64Load16U),
            0x34 => Some(Self::I64Load32S),
            0x35 => Some(Self::I64Load32U),
            0x36 => Some(Self::I32Store),
            0x37 => Some(Self::I64Store),
            0x38 => Some(Self::F32Store),
            0x39 => Some(Self::F64Store),
            0x3A => Some(Self::I32Store8),
            0x3B => Some(Self::I32Store16),
            0x3C => Some(Self::I64Store8),
            0x3D => Some(Self::I64Store16),
            0x3E => Some(Self::I64Store32),
            0x3F => Some(Self::MemorySize),
            0x40 => Some(Self::MemoryGrow),
            0x41 => Some(Self::I32Const),
            0x42 => Some(Self::I64Const),
            0x43 => Some(Self::F32Const),
            0x44 => Some(Self::F64Const),
            0x45 => Some(Self::I32Eqz),
            0x46 => Some(Self::I32Eq),
            0x47 => Some(Self::I32Ne),
            0x48 => Some(Self::I32LtS),
            0x49 => Some(Self::I32LtU),
            0x4A => Some(Self::I32GtS),
            0x4B => Some(Self::I32GtU),
            0x4C => Some(Self::I32LeS),
            0x4D => Some(Self::I32LeU),
            0x4E => Some(Self::I32GeS),
            0x4F => Some(Self::I32GeU),
            0x50 => Some(Self::I64Eqz),
            0x51 => Some(Self::I64Eq),
            0x52 => Some(Self::I64Ne),
            0x53 => Some(Self::I64LtS),
            0x54 => Some(Self::I64LtU),
            0x55 => Some(Self::I64GtS),
            0x56 => Some(Self::I64GtU),
            0x57 => Some(Self::I64LeS),
            0x58 => Some(Self::I64LeU),
            0x59 => Some(Self::I64GeS),
            0x5A => Some(Self::I64GeU),
            0x5B => Some(Self::F32Eq),
            0x5C => Some(Self::F32Ne),
            0x5D => Some(Self::F32Lt),
            0x5E => Some(Self::F32Gt),
            0x5F => Some(Self::F32Le),
            0x60 => Some(Self::F32Ge),
            0x61 => Some(Self::F64Eq),
            0x62 => Some(Self::F64Ne),
            0x63 => Some(Self::F64Lt),
            0x64 => Some(Self::F64Gt),
            0x65 => Some(Self::F64Le),
            0x66 => Some(Self::F64Ge),
            0x67 => Some(Self::I32Clz),
            0x68 => Some(Self::I32Ctz),
            0x69 => Some(Self::I32Popcnt),
            0x6A => Some(Self::I32Add),
            0x6B => Some(Self::I32Sub),
            0x6C => Some(Self::I32Mul),
            0x6D => Some(Self::I32DivS),
            0x6E => Some(Self::I32DivU),
            0x6F => Some(Self::I32RemS),
            0x70 => Some(Self::I32RemU),
            0x71 => Some(Self::I32And),
            0x72 => Some(Self::I32Or),
            0x73 => Some(Self::I32Xor),
            0x74 => Some(Self::I32Shl),
            0x75 => Some(Self::I32ShrS),
            0x76 => Some(Self::I32ShrU),
            0x77 => Some(Self::I32Rotl),
            0x78 => Some(Self::I32Rotr),
            0x79 => Some(Self::I64Clz),
            0x7A => Some(Self::I64Ctz),
            0x7B => Some(Self::I64Popcnt),
            0x7C => Some(Self::I64Add),
            0x7D => Some(Self::I64Sub),
            0x7E => Some(Self::I64Mul),
            0x7F => Some(Self::I64DivS),
            0x80 => Some(Self::I64DivU),
            0x81 => Some(Self::I64RemS),
            0x82 => Some(Self::I64RemU),
            0x83 => Some(Self::I64And),
            0x84 => Some(Self::I64Or),
            0x85 => Some(Self::I64Xor),
            0x86 => Some(Self::I64Shl),
            0x87 => Some(Self::I64ShrS),
            0x88 => Some(Self::I64ShrU),
            0x89 => Some(Self::I64Rotl),
            0x8A => Some(Self::I64Rotr),
            0x8B => Some(Self::F32Abs),
            0x8C => Some(Self::F32Neg),
            0x8D => Some(Self::F32Ceil),
            0x8E => Some(Self::F32Floor),
            0x8F => Some(Self::F32Trunc),
            0x90 => Some(Self::F32Nearest),
            0x91 => Some(Self::F32Sqrt),
            0x92 => Some(Self::F32Add),
            0x93 => Some(Self::F32Sub),
            0x94 => Some(Self::F32Mul),
            0x95 => Some(Self::F32Div),
            0x96 => Some(Self::F32Min),
            0x97 => Some(Self::F32Max),
            0x98 => Some(Self::F32Copysign),
            0x99 => Some(Self::F64Abs),
            0x9A => Some(Self::F64Neg),
            0x9B => Some(Self::F64Ceil),
            0x9C => Some(Self::F64Floor),
            0x9D => Some(Self::F64Trunc),
            0x9E => Some(Self::F64Nearest),
            0x9F => Some(Self::F64Sqrt),
            0xA0 => Some(Self::F64Add),
            0xA1 => Some(Self::F64Sub),
            0xA2 => Some(Self::F64Mul),
            0xA3 => Some(Self::F64Div),
            0xA4 => Some(Self::F64Min),
            0xA5 => Some(Self::F64Max),
            0xA6 => Some(Self::F64Copysign),
            0xA7 => Some(Self::I32WrapI64),
            0xA8 => Some(Self::I32TruncF32S),
            0xA9 => Some(Self::I32TruncF32U),
            0xAA => Some(Self::I32TruncF64S),
            0xAB => Some(Self::I32TruncF64U),
            0xAC => Some(Self::I64ExtendI32S),
            0xAD => Some(Self::I64ExtendI32U),
            0xAE => Some(Self::I64TruncF32S),
            0xAF => Some(Self::I64TruncF32U),
            0xB0 => Some(Self::I64TruncF64S),
            0xB1 => Some(Self::I64TruncF64U),
            0xB2 => Some(Self::F32ConvertI32S),
            0xB3 => Some(Self::F32ConvertI32U),
            0xB4 => Some(Self::F32ConvertI64S),
            0xB5 => Some(Self::F32ConvertI64U),
            0xB6 => Some(Self::F32DemoteF64),
            0xB7 => Some(Self::F64ConvertI32S),
            0xB8 => Some(Self::F64ConvertI32U),
            0xB9 => Some(Self::F64ConvertI64S),
            0xBA => Some(Self::F64ConvertI64U),
            0xBB => Some(Self::F64PromoteF32),
            0xBC => Some(Self::I32ReinterpretF32),
            0xBD => Some(Self::I64ReinterpretF64),
            0xBE => Some(Self::F32ReinterpretI32),
            0xBF => Some(Self::F64ReinterpretI64),
            0xC0 => Some(Self::I32Extend8S),
            0xC1 => Some(Self::I32Extend16S),
            0xC2 => Some(Self::I64Extend8S),
            0xC3 => Some(Self::I64Extend16S),
            0xC4 => Some(Self::I64Extend32S),
            _ => None,
        }
    }

    /// The text format name
    pub fn to_str(&self) -> (r: &'static str)
        ensures
            r@ == mnemonic_text(*self),
    {
        match *self {
            Self::Unreachable => {
                proof { reveal_strlit("unreachable"); }
                "unreachable"
            },
            Self::Nop => {
                proof { reveal_strlit("nop"); }
                "nop"
            },
            Self::Block => {
                proof { reveal_strlit("block"); }
                "block"
            },
            Self::Loop => {
                proof { reveal_strlit("loop"); }
                "loop"
            },
            Self::If => {
                proof { reveal_strlit("if"); }
                "if"
            },
            Self::Else => {
                proof { reveal_strlit("else"); }
                "else"
            },
            Self::End => {
                proof { reveal_strlit("end"); }
                "end"
            },
            Self::Br => {
                proof { reveal_strlit("br"); }
                "br"
            },
            Self::BrIf => {
                proof { reveal_strlit("br_if"); }
                "br_if"
            },
            Self::BrTable => {
                proof { reveal_strlit("br_table"); }
                "br_table"
            },
            Self::Return => {
                proof { reveal_strlit("return"); }
                "return"
            },
            Self::Call => {
                proof { reveal_strlit("call"); }
                "call"
            },
            Self::CallIndirect => {
                proof { reveal_strlit("call_indirect"); }
                "call_indirect"
            },
            Self::Drop => {
                proof { reveal_strlit("drop"); }
                "drop"
            },
            Self::Select => {
                proof { reveal_strlit("select"); }
                "select"
            },
            Self::LocalGet => {
                proof { reveal_strlit("local.get"); }
                "local.get"
            },
            Self::LocalSet => {
                proof { reveal_strlit("local.set"); }
                "local.set"
            },
            Self::LocalTee => {
                proof { reveal_strlit("local.tee"); }
                "local.tee"
            },
            Self::GlobalGet => {
                proof { reveal_strlit("global.get"); }
                "global.get"
            },
            Self::GlobalSet => {
                proof { reveal_strlit("global.set"); }
                "global.set"
            },
            Self::I32Load => {
                proof { reveal_strlit("i32.load"); }
                "i32.load"
            },
            Self::I64Load => {
                proof { reveal_strlit("i64.load"); }
                "i64.load"
            },
            Self::F32Load => {
                proof { reveal_strlit("f32.load"); }
                "f32.load"
            },
            Self::F64Load => {
                proof { reveal_strlit("f64.load"); }
                "f64.load"
            },
            Self::I32Load8S => {
                proof { reveal_strlit("i32.load8_s"); }
                "i32.load8_s"
            },
            Self::I32Load8U => {
                proof { reveal_strlit("i32.load8_u"); }
                "i32.load8_u"
            },
            Self::I32Load16S => {
                proof { reveal_strlit("i32.load16_s"); }
                "i32.load16_s"
            },
            Self::I32Load16U => {
                proof { reveal_strlit("i32.load16_u"); }
                "i32.load16_u"
            },
            Self::I64Load8S => {
                proof { reveal_strlit("i64.load8_s"); }
                "i64.load8_s"
            },
            Self::I64Load8U => {
                proof { reveal_strlit("i64.load8_u"); }
                "i64.load8_u"
            },
            Self::I64Load16S => {
                proof { reveal_strlit("i64.load16_s"); }
                "i64.load16_s"
            },
            Self::I64Load16U => {
                proof { reveal_strlit("i64.load16_u"); }
                "i64.load16_u"
            },
            Self::I64Load32S => {
                proof { reveal_strlit("i64.load32_s"); }
                "i64.load32_s"
            },
            Self::I64Load32U => {
                proof { reveal_strlit("i64.load32_u"); }
                "i64.load32_u"
            },
            Self::I32Store => {
                proof { reveal_strlit("i32.store"); }
                "i32.store"
            },
            Self::I64Store => {
                proof { reveal_strlit("i64.store"); }
                "i64.store"
            },
            Self::F32Store => {
                proof { reveal_strlit("f32.store"); }
                "f32.store"
            },
            Self::F64Store => {
                proof { reveal_strlit("f64.store"); }
                "f64.store"
            },
            Self::I32Store8 => {
                proof { reveal_strlit("i32.store8"); }
                "i32.store8"
            },
            Self::I32Store16 => {
                proof { reveal_strlit("i32.store16"); }
                "i32.store16"
            },
            Self::I64Store8 => {
                proof { reveal_strlit("i64.store8"); }
                "i64.store8"
            },
            Self::I64Store16 => {
                proof { reveal_strlit("i64.store16"); }
                "i64.store16"
            },
            Self::I64Store32 => {
                proof { reveal_strlit("i64.store32"); }
                "i64.store32"
            },
            Self::MemorySize => {
                proof { reveal_strlit("memory.size"); }
                "memory.size"
            },
            Self::MemoryGrow => {
                proof { reveal_strlit("memory.grow"); }
                "memory.grow"
            },
            Self::I32Const => {
                proof { reveal_strlit("i32.const"); }
                "i32.const"
            },
            Self::I64Const => {
                proof { reveal_strlit("i64.const"); }
                "i64.const"
            },
            Self::F32Const => {
                proof { reveal_strlit("f32.const"); }
                "f32.const"
            },
            Self::F64Const => {
                proof { reveal_strlit("f64.const"); }
                "f64.const"
            },
            Self::I32Eqz => {
                proof { reveal_strlit("i32.eqz"); }
                "i32.eqz"
            },
            Self::I32Eq => {
                proof { reveal_strlit("i32.eq"); }
                "i32.eq"
            },
            Self::I32Ne => {
                proof { reveal_strlit("i32.ne"); }
                "i32.ne"
            },
            Self::I32LtS => {
                proof { reveal_strlit("i32.lt_s"); }
                "i32.lt_s"
            },
            Self::I32LtU => {
                proof { reveal_strlit("i32.lt_u"); }
                "i32.lt_u"
            },
            Self::I32GtS => {
                proof { reveal_strlit("i32.gt_s"); }
                "i32.gt_s"
            },
            Self::I32GtU => {
                proof { reveal_strlit("i32.gt_u"); }
                "i32.gt_u"
            },
            Self::I32LeS => {
                proof { reveal_strlit("i32.le_s"); }
                "i32.le_s"
            },
            Self::I32LeU => {
                proof { reveal_strlit("i32.le_u"); }
                "i32.le_u"
            },
            Self::I32GeS => {
                proof { reveal_strlit("i32.ge_s"); }
                "i32.ge_s"
            },
            Self::I32GeU => {
                proof { reveal_strlit("i32.ge_u"); }
                "i32.ge_u"
            },
            Self::I64Eqz => {
                proof { reveal_strlit("i64.eqz"); }
                "i64.eqz"
            },
            Self::I64Eq => {
                proof { reveal_strlit("i64.eq"); }
                "i64.eq"
            },
            Self::I64Ne => {
                proof { reveal_strlit("i64.ne"); }
                "i64.ne"
            },
            Self::I64LtS => {
                proof { reveal_strlit("i64.lt_s"); }
                "i64.lt_s"
            },
            Self::I64LtU => {
                proof { reveal_strlit("i64.lt_u"); }
                "i64.lt_u"
            },
            Self::I64GtS => {
                proof { reveal_strlit("i64.gt_s"); }
                "i64.gt_s"
            },
            Self::I64GtU => {
                proof { reveal_strlit("i64.gt_u"); }
                "i64.gt_u"
            },
            Self::I64LeS => {
                proof { reveal_strlit("i64.le_s"); }
                "i64.le_s"
            },
            Self::I64LeU => {
                proof { reveal_strlit("i64.le_u"); }
                "i64.le_u"
            },
            Self::I64GeS => {
                proof { reveal_strlit("i64.ge_s"); }
                "i64.ge_s"
            },
            Self::I64GeU => {
                proof { reveal_strlit("i64.ge_u"); }
                "i64.ge_u"
            },
            Self::F32Eq => {
                proof { reveal_strlit("f32.eq"); }
                "f32.eq"
            },
            Self::F32Ne => {
                proof { reveal_strlit("f32.ne"); }
                "f32.ne"
            },
            Self::F32Lt => {
                proof { reveal_strlit("f32.lt"); }
                "f32.lt"
            },
            Self::F32Gt => {
                proof { reveal_strlit("f32.gt"); }
                "f32.gt"
            },
            Self::F32Le => {
                proof { reveal_strlit("f32.le"); }
                "f32.le"
            },
            Self::F32Ge => {
                proof { reveal_strlit("f32.ge"); }
                "f32.ge"
            },
            Self::F64Eq => {
                proof { reveal_strlit("f64.eq"); }
                "f64.eq"
            },
            Self::F64Ne => {
                proof { reveal_strlit("f64.ne"); }
                "f64.ne"
            },
            Self::F64Lt => {
                proof { reveal_strlit("f64.lt"); }
                "f64.lt"
            },
            Self::F64Gt => {
                proof { reveal_strlit("f64.gt"); }
                "f64.gt"
            },
            Self::F64Le => {
                proof { reveal_strlit("f64.le"); }
                "f64.le"
            },
            Self::F64Ge => {
                proof { reveal_strlit("f64.ge"); }
                "f64.ge"
            },
            Self::I32Clz => {
                proof { reveal_strlit("i32.clz"); }
                "i32.clz"
            },
            Self::I32Ctz => {
                proof { reveal_strlit("i32.ctz"); }
                "i32.ctz"
            },
            Self::I32Popcnt => {
                proof { reveal_strlit("i32.popcnt"); }
                "i32.popcnt"
            },
            Self::I32Add => {
                proof { reveal_strlit("i32.add"); }
                "i32.add"
            },
            Self::I32Sub => {
                proof { reveal_strlit("i32.sub"); }
                "i32.sub"
            },
            Self::I32Mul => {
                proof { reveal_strlit("i32.mul"); }
                "i32.mul"
            },
            Self::I32DivS => {
                proof { reveal_strlit("i32.div_s"); }
                "i32.div_s"
            },
            Self::I32DivU => {
                proof { reveal_strlit("i32.div_u"); }
                "i32.div_u"
            },
            Self::I32RemS => {
                proof { reveal_strlit("i32.rem_s"); }
                "i32.rem_s"
            },
            Self::I32RemU => {
                proof { reveal_strlit("i32.rem_u"); }
                "i32.rem_u"
            },
            Self::I32And => {
                proof { reveal_strlit("i32.and"); }
                "i32.and"
            },
            Self::I32Or => {
                proof { reveal_strlit("i32.or"); }
                "i32.or"
            },
            Self::I32Xor => {
                proof { reveal_strlit("i32.xor"); }
                "i32.xor"
            },
            Self::I32Shl => {
                proof { reveal_strlit("i32.shl"); }
                "i32.shl"
            },
            Self::I32ShrS => {
                proof { reveal_strlit("i32.shr_s"); }
                "i32.shr_s"
            },
            Self::I32ShrU => {
                proof { reveal_strlit("i32.shr_u"); }
                "i32.shr_u"
            },
            Self::I32Rotl => {
                proof { reveal_strlit("i32.rotl"); }
                "i32.rotl"
            },
            Self::I32Rotr => {
                proof { reveal_strlit("i32.rotr"); }
                "i32.rotr"
            },
            Self::I64Clz => {
                proof { reveal_strlit("i64.clz"); }
                "i64.clz"
            },
            Self::I64Ctz => {
                proof { reveal_strlit("i64.ctz"); }
                "i64.ctz"
            },
            Self::I64Popcnt => {
                proof { reveal_strlit("i64.popcnt"); }
                "i64.popcnt"
            },
            Self::I64Add => {
                proof { reveal_strlit("i64.add"); }
                "i64.add"
            },
            Self::I64Sub => {
                proof { reveal_strlit("i64.sub"); }
                "i64.sub"
            },
            Self::I64Mul => {
                proof { reveal_strlit("i64.mul"); }
                "i64.mul"
            },
            Self::I64DivS => {
                proof { reveal_strlit("i64.div_s"); }
                "i64.div_s"
            },
            Self::I64DivU => {
                proof { reveal_strlit("i64.div_u"); }
                "i64.div_u"
            },
            Self::I64RemS => {
                proof { reveal_strlit("i64.rem_s"); }
                "i64.rem_s"
            },
            Self::I64RemU => {
                proof { reveal_strlit("i64.rem_u"); }
                "i64.rem_u"
            },
            Self::I64And => {
                proof { reveal_strlit("i64.and"); }
                "i64.and"
            },
            Self::I64Or => {
                proof { reveal_strlit("i64.or"); }
                "i64.or"
            },
            Self::I64Xor => {
                proof { reveal_strlit("i64.xor"); }
                "i64.xor"
            },
            Self::I64Shl => {
                proof { reveal_strlit("i64.shl"); }
                "i64.shl"
            },
            Self::I64ShrS => {
                proof { reveal_strlit("i64.shr_s"); }
                "i64.shr_s"
            },
            Self::I64ShrU => {
                proof { reveal_strlit("i64.shr_u"); }
                "i64.shr_u"
            },
            Self::I64Rotl => {
                proof { reveal_strlit("i64.rotl"); }
                "i64.rotl"
            },
            Self::I64Rotr => {
                proof { reveal_strlit("i64.rotr"); }
                "i64.rotr"
            },
            Self::F32Abs => {
                proof { reveal_strlit("f32.abs"); }
                "f32.abs"
            },
            Self::F32Neg => {
                proof { reveal_strlit("f32.neg"); }
                "f32.neg"
            },
            Self::F32Ceil => {
                proof { reveal_strlit("f32.ceil"); }
                "f32.ceil"
            },
            Self::F32Floor => {
                proof { reveal_strlit("f32.floor"); }
                "f32.floor"
            },
            Self::F32Trunc => {
                proof { reveal_strlit("f32.trunc"); }
                "f32.trunc"
            },
            Self::F32Nearest => {
                proof { reveal_strlit("f32.nearest"); }
                "f32.nearest"
            },
            Self::F32Sqrt => {
                proof { reveal_strlit("f32.sqrt"); }
                "f32.sqrt"
            },
            Self::F32Add => {
                proof { reveal_strlit("f32.add"); }
                "f32.add"
            },
            Self::F32Sub => {
                proof { reveal_strlit("f32.sub"); }
                "f32.sub"
            },
            Self::F32Mul => {
                proof { reveal_strlit("f32.mul"); }
                "f32.mul"
            },
            Self::F32Div => {
                proof { reveal_strlit("f32.div"); }
                "f32.div"
            },
            Self::F32Min => {
                proof { reveal_strlit("f32.min"); }
                "f32.min"
            },
            Self::F32Max => {
                proof { reveal_strlit("f32.max"); }
                "f32.max"
            },
            Self::F32Copysign => {
                proof { reveal_strlit("f32.copysign"); }
                "f32.copysign"
            },
            Self::F64Abs => {
                proof { reveal_strlit("f64.abs"); }
                "f64.abs"
            },
            Self::F64Neg => {
                proof { reveal_strlit("f64.neg"); }
                "f64.neg"
            },
            Self::F64Ceil => {
                proof { reveal_strlit("f64.ceil"); }
                "f64.ceil"
            },
            Self::F64Floor => {
                proof { reveal_strlit("f64.floor"); }
                "f64.floor"
            },
            Self::F64Trunc => {
                proof { reveal_strlit("f64.trunc"); }
                "f64.trunc"
            },
            Self::F64Nearest => {
                proof { reveal_strlit("f64.nearest"); }
                "f64.nearest"
            },
            Self::F64Sqrt => {
                proof { reveal_strlit("f64.sqrt"); }
                "f64.sqrt"
            },
            Self::F64Add => {
                proof { reveal_strlit("f64.add"); }
                "f64.add"
            },
            Self::F64Sub => {
                proof { reveal_strlit("f64.sub"); }
                "f64.sub"
            },
            Self::F64Mul => {
                proof { reveal_strlit("f64.mul"); }
                "f64.mul"
            },
            Self::F64Div => {
                proof { reveal_strlit("f64.div"); }
                "f64.div"
            },
            Self::F64Min => {
                proof { reveal_strlit("f64.min"); }
                "f64.min"
            },
            Self::F64Max => {
                proof { reveal_strlit("f64.max"); }
                "f64.max"
            },
            Self::F64Copysign => {
                proof { reveal_strlit("f64.copysign"); }
                "f64.copysign"
            },
            Self::I32WrapI64 => {
                proof { reveal_strlit("i32.wrap_i64"); }
                "i32.wrap_i64"
            },
            Self::I32TruncF32S => {
                proof { reveal_strlit("i32.trunc_f32_s"); }
                "i32.trunc_f32_s"
            },
            Self::I32TruncF32U => {
                proof { reveal_strlit("i32.trunc_f32_u"); }
                "i32.trunc_f32_u"
            },
            Self::I32TruncF64S => {
                proof { reveal_strlit("i32.trunc_f64_s"); }
                "i32.trunc_f64_s"
            },
            Self::I32TruncF64U => {
                proof { reveal_strlit("i32.trunc_f64_u"); }
                "i32.trunc_f64_u"
            },
            Self::I64ExtendI32S => {
                proof { reveal_strlit("i64.extend_i32_s"); }
                "i64.extend_i32_s"
            },
            Self::I64ExtendI32U => {
                proof { reveal_strlit("i64.extend_i32_u"); }
                "i64.extend_i32_u"
            },
            Self::I64TruncF32S => {
                proof { reveal_strlit("i64.trunc_f32_s"); }
                "i64.trunc_f32_s"
            },
            Self::I64TruncF32U => {
                proof { reveal_strlit("i64.trunc_f32_u"); }
                "i64.trunc_f32_u"
            },
            Self::I64TruncF64S => {
                proof { reveal_strlit("i64.trunc_f64_s"); }
                "i64.trunc_f64_s"
            },
            Self::I64TruncF64U => {
                proof { reveal_strlit("i64.trunc_f64_u"); }
                "i64.trunc_f64_u"
            },
            Self::F32ConvertI32S => {
                proof { reveal_strlit("f32.convert_i32_s"); }
                "f32.convert_i32_s"
            },
            Self::F32ConvertI32U => {
                proof { reveal_strlit("f32.convert_i32_u"); }
                "f32.convert_i32_u"
            },
            Self::F32ConvertI64S => {
                proof { reveal_strlit("f32.convert_i64_s"); }
                "f32.convert_i64_s"
            },
            Self::F32ConvertI64U => {
                proof { reveal_strlit("f32.convert_i64_u"); }
                "f32.convert_i64_u"
            },
            Self::F32DemoteF64 => {
                proof { reveal_strlit("f32.demote_f64"); }
                "f32.demote_f64"
            },
            Self::F64ConvertI32S => {
                proof { reveal_strlit("f64.convert_i32_s"); }
                "f64.convert_i32_s"
            },
            Self::F64ConvertI32U => {
                proof { reveal_strlit("f64.convert_i32_u"); }
                "f64.convert_i32_u"
            },
            Self::F64ConvertI64S => {
                proof { reveal_strlit("f64.convert_i64_s"); }
                "f64.convert_i64_s"
            },
            Self::F64ConvertI64U => {
                proof { reveal_strlit("f64.convert_i64_u"); }
                "f64.convert_i64_u"
            },
            Self::F64PromoteF32 => {
                proof { reveal_strlit("f64.promote_f32"); }
                "f64.promote_f32"
            },
            Self::I32ReinterpretF32 => {
                proof { reveal_strlit("i32.reinterpret_f32"); }
                "i32.reinterpret_f32"
            },
            Self::I64ReinterpretF64 => {
                proof { reveal_strlit("i64.reinterpret_f64"); }
                "i64.reinterpret_f64"
            },
            Self::F32ReinterpretI32 => {
                proof { reveal_strlit("f32.reinterpret_i32"); }
                "f32.reinterpret_i32"
            },
            Self::F64ReinterpretI64 => {
                proof { reveal_strlit("f64.reinterpret_i64"); }
                "f64.reinterpret_i64"
            },
            Self::I32Extend8S => {
                proof { reveal_strlit("i32.extend8_s"); }
                "i32.extend8_s"
            },
            Self::I32Extend16S => {
                proof { reveal_strlit("i32.extend16_s"); }
                "i32.extend16_s"
            },
            Self::I64Extend8S => {
                proof { reveal_strlit("i64.extend8_s"); }
                "i64.extend8_s"
            },
            Self::I64Extend16S => {
                proof { reveal_strlit("i64.extend16_s"); }
                "i64.extend16_s"
            },
            Self::I64Extend32S => {
                proof { reveal_strlit("i64.extend32_s"); }
                "i64.extend32_s"
            },
            Self::I32TruncSatF32S => {
                proof { reveal_strlit("i32.trunc_sat_f32_s"); }
                "i32.trunc_sat_f32_s"
            },
            Self::I32TruncSatF32U => {
                proof { reveal_strlit("i32.trunc_sat_f32_u"); }
                "i32.trunc_sat_f32_u"
            },
            Self::I32TruncSatF64S => {
                proof { reveal_strlit("i32.trunc_sat_f64_s"); }
                "i32.trunc_sat_f64_s"
            },
            Self::I32TruncSatF64U => {
                proof { reveal_strlit("i32.trunc_sat_f64_u"); }
                "i32.trunc_sat_f64_u"
            },
            Self::I64TruncSatF32S => {
                proof { reveal_strlit("i64.trunc_sat_f32_s"); }
                "i64.trunc_sat_f32_s"
            },
            Self::I64TruncSatF32U => {
                proof { reveal_strlit("i64.trunc_sat_f32_u"); }
                "i64.trunc_sat_f32_u"
            },
            Self::I64TruncSatF64S => {
                proof { reveal_strlit("i64.trunc_sat_f64_s"); }
                "i64.trunc_sat_f64_s"
            },
            Self::I64TruncSatF64U => {
                proof { reveal_strlit("i64.trunc_sat_f64_u"); }
                "i64.trunc_sat_f64_u"
            },
            Self::MemoryInit => {
                proof { reveal_strlit("memory.init"); }
                "memory.init"
            },
            Self::DataDrop => {
                proof { reveal_strlit("data.drop"); }
                "data.drop"
            },
            Self::MemoryCopy => {
                proof { reveal_strlit("memory.copy"); }
                "memory.copy"
            },
            Self::MemoryFill => {
                proof { reveal_strlit("memory.fill"); }
                "memory.fill"
            },
            Self::TableInit => {
                proof { reveal_strlit("table.init"); }
                "table.init"
            },
            Self::ElemDrop => {
                proof { reveal_strlit("elem.drop"); }
                "elem.drop"
            },
            Self::TableCopy => {
                proof { reveal_strlit("table.copy"); }
                "table.copy"
            },
            Self::Simd => {
                proof { reveal_strlit("(simd)"); }
                "(simd)"
            },
        }
    }

    /// The proposal that introduced the instruction
    pub fn proposal_type(&self) -> (r: WasmProposalType)
        ensures
            r == mnemonic_proposal(*self),
    {
        match *self {
            Self::Unreachable | Self::Nop | Self::Block | Self::Loop | Self::If | Self::Else | Self::End | Self::Br | Self::BrIf | Self::BrTable | Self::Return | Self::Call | Self::CallIndirect | Self::Drop | Self::Select | Self::LocalGet | Self::LocalSet | Self::LocalTee | Self::GlobalGet | Self::GlobalSet | Self::MemorySize | Self::MemoryGrow => WasmProposalType::Mvp,
            Self::I32Load | Self::I64Load | Self::I32Load8S | Self::I32Load8U | Self::I32Load16S | Self::I32Load16U | Self::I64Load8S | Self::I64Load8U | Self::I64Load16S | Self::I64Load16U | Self::I64Load32S | Self::I64Load32U | Self::I32Store | Self::I64Store | Self::I32Store8 | Self::I32Store16 | Self::I64Store8 | Self::I64Store16 | Self::I64Store32 | Self::I32Const | Self::I64Const | Self::I32Eqz | Self::I32Eq | Self::I32Ne | Self::I32LtS | Self::I32LtU | Self::I32GtS | Self::I32GtU | Self::I32LeS | Self::I32LeU | Self::I32GeS | Self::I32GeU | Self::I64Eqz | Self::I64Eq | Self::I64Ne | Self::I64LtS | Self::I64LtU | Self::I64GtS | Self::I64GtU | Self::I64LeS | Self::I64LeU | Self::I64GeS | Self::I64GeU | Self::I32Clz | Self::I32Ctz | Self::I32Popcnt | Self::I32Add | Self::I32Sub | Self::I32Mul | Self::I32DivS | Self::I32DivU | Self::I32RemS | Self::I32RemU | Self::I32And | Self::I32Or | Self::I32Xor | Self::I32Shl | Self::I32ShrS | Self::I32ShrU | Self::I32Rotl | Self::I32Rotr | Self::I64Clz | Self::I64Ctz | Self::I64Popcnt | Self::I64Add | Self::I64Sub | Self::I64Mul | Self::I64DivS | Self::I64DivU | Self::I64RemS | Self::I64RemU | Self::I64And | Self::I64Or | Self::I64Xor | Self::I64Shl | Self::I64ShrS | Self::I64ShrU | Self::I64Rotl | Self::I64Rotr | Self::I32WrapI64 | Self::I64ExtendI32S | Self::I64ExtendI32U => WasmProposalType::MvpI,
            Self::F32Load | Self::F64Load | Self::F32Store | Self::F64Store | Self::F32Const | Self::F64Const | Self::F32Eq | Self::F32Ne | Self::F32Lt | Self::F32Gt | Self::F32Le | Self::F32Ge | Self::F64Eq | Self::F64Ne | Self::F64Lt | Self::F64Gt | Self::F64Le | Self::F64Ge | Self::F32Abs | Self::F32Neg | Self::F32Ceil | Self::F32Floor | Self::F32Trunc | Self::F32Nearest | Self::F32Sqrt | Self::F32Add | Self::F32Sub | Self::F32Mul | Self::F32Div | Self::F32Min | Self::F32Max | Self::F32Copysign | Self::F64Abs | Self::F64Neg | Self::F64Ceil | Self::F64Floor | Self::F64Trunc | Self::F64Nearest | Self::F64Sqrt | Self::F64Add | Self::F64Sub | Self::F64Mul | Self::F64Div | Self::F64Min | Self::F64Max | Self::F64Copysign | Self::I32TruncF32S | Self::I32TruncF32U | Self::I32TruncF64S | Self::I32TruncF64U | Self::I64TruncF32S | Self::I64TruncF32U | Self::I64TruncF64S | Self::I64TruncF64U | Self::F32ConvertI32S | Self::F32ConvertI32U | Self::F32ConvertI64S | Self::F32ConvertI64U | Self::F32DemoteF64 | Self::F64ConvertI32S | Self::F64ConvertI32U | Self::F64ConvertI64S | Self::F64ConvertI64U | Self::F64PromoteF32 | Self::I32ReinterpretF32 | Self::I64ReinterpretF64 | Self::F32ReinterpretI32 | Self::F64ReinterpretI64 => WasmProposalType::MvpF,
            Self::I32Extend8S | Self::I32Extend16S | Self::I64Extend8S | Self::I64Extend16S | Self::I64Extend32S => WasmProposalType::SignExtend,
            Self::I32TruncSatF32S | Self::I32TruncSatF32U | Self::I32TruncSatF64S | Self::I32TruncSatF64U | Self::I64TruncSatF32S | Self::I64TruncSatF32U | Self::I64TruncSatF64S | Self::I64TruncSatF64U => WasmProposalType::NontrappingFloatToIntConversion,
            Self::MemoryInit | Self::DataDrop | Self::MemoryCopy | Self::MemoryFill | Self::TableInit | Self::ElemDrop | Self::TableCopy => WasmProposalType::BulkMemoryOperations,
            Self::Simd => WasmProposalType::Simd,
        }
    }
}

} // verus!
