//! The check of a function body before it runs: the types of the operands, the blocks, and the
//! indices of the locals, globals, functions, types and memories it names
use crate::error::{read_error_kind, CompileErrorKind};
use crate::leb128::{decode_i32, decode_i64, decode_u32, decode_u64, Leb128Reader, ReadError};
use crate::module::{decode_u32s, WasmModule};
use crate::opcode::opcode_fc::{fc_code, WasmOpcodeFC};
use crate::opcode::{mnemonic_of_byte, WasmMnemonic};
use crate::wasm::{block_result, block_type_of_signed, WasmBlockType, WasmValType};
use crate::wasmrt::WasmCodeBlock;
use vstd::prelude::*;

verus! {

/// How a block began
#[derive(Debug, Clone, Copy, PartialEq, Eq, Structural)]
pub enum BlockKind {
    Block,
    Loop,
    If,
}

/// A block open during the check: how it began, the type of the value it gives, and the number
/// of operand types below it
#[derive(Debug, Clone, Copy, PartialEq, Eq, Structural)]
pub struct BlockFrame {
    pub kind: BlockKind,
    pub result: Option<WasmValType>,
    pub height: usize,
}

/// What the check of a body knows: the types of its locals (the parameters first), its result
/// types, the parameter and result types of the functions and of the types of the module, the
/// type and mutability of each global, the number of memories, and whether the first memory has
/// a page
pub struct CodeContext {
    pub locals: Seq<WasmValType>,
    pub results: Seq<WasmValType>,
    pub funcs: Seq<(Seq<WasmValType>, Seq<WasmValType>)>,
    pub types: Seq<(Seq<WasmValType>, Seq<WasmValType>)>,
    pub globals: Seq<(WasmValType, bool)>,
    pub memories: nat,
    pub has_memory: bool,
}

/// What checking one instruction gives: the position of the next one with the operand types
/// and blocks after it, the end of the body, or an error
pub enum Check {
    Next(nat, Seq<WasmValType>, Seq<BlockFrame>),
    Done,
    Fail(CompileErrorKind),
}

/// The type of the operand that a unary operator reads and writes
pub open spec fn unary_type(m: WasmMnemonic) -> Option<WasmValType> {
    match m {
        WasmMnemonic::I32Eqz | WasmMnemonic::I32Clz | WasmMnemonic::I32Ctz | WasmMnemonic::I32Popcnt
        | WasmMnemonic::I32Extend8S | WasmMnemonic::I32Extend16S => Some(WasmValType::I32),
        WasmMnemonic::I64Clz | WasmMnemonic::I64Ctz | WasmMnemonic::I64Popcnt | WasmMnemonic::I64Extend8S
        | WasmMnemonic::I64Extend16S | WasmMnemonic::I64Extend32S => Some(WasmValType::I64),
        WasmMnemonic::F32Abs | WasmMnemonic::F32Neg | WasmMnemonic::F32Ceil | WasmMnemonic::F32Floor
        | WasmMnemonic::F32Trunc | WasmMnemonic::F32Nearest | WasmMnemonic::F32Sqrt => Some(WasmValType::F32),
        WasmMnemonic::F64Abs | WasmMnemonic::F64Neg | WasmMnemonic::F64Ceil | WasmMnemonic::F64Floor
        | WasmMnemonic::F64Trunc | WasmMnemonic::F64Nearest | WasmMnemonic::F64Sqrt => Some(WasmValType::F64),
        _ => None,
    }
}

/// The types that a conversion reads and gives
pub open spec fn convert_types(m: WasmMnemonic) -> Option<(WasmValType, WasmValType)> {
    match m {
        WasmMnemonic::I64Eqz | WasmMnemonic::I32WrapI64 => Some((WasmValType::I64, WasmValType::I32)),
        WasmMnemonic::I64ExtendI32S | WasmMnemonic::I64ExtendI32U => Some((WasmValType::I32, WasmValType::I64)),
        WasmMnemonic::I32TruncF32S | WasmMnemonic::I32TruncF32U | WasmMnemonic::I32ReinterpretF32
        | WasmMnemonic::I32TruncSatF32S | WasmMnemonic::I32TruncSatF32U => Some((WasmValType::F32, WasmValType::I32)),
        WasmMnemonic::I32TruncF64S | WasmMnemonic::I32TruncF64U | WasmMnemonic::I32TruncSatF64S
        | WasmMnemonic::I32TruncSatF64U => Some((WasmValType::F64, WasmValType::I32)),
        WasmMnemonic::I64TruncF32S | WasmMnemonic::I64TruncF32U | WasmMnemonic::I64TruncSatF32S
        | WasmMnemonic::I64TruncSatF32U => Some((WasmValType::F32, WasmValType::I64)),
        WasmMnemonic::I64TruncF64S | WasmMnemonic::I64TruncF64U | WasmMnemonic::I64ReinterpretF64
        | WasmMnemonic::I64TruncSatF64S | WasmMnemonic::I64TruncSatF64U => Some((WasmValType::F64, WasmValType::I64)),
        WasmMnemonic::F32ConvertI32S | WasmMnemonic::F32ConvertI32U | WasmMnemonic::F32ReinterpretI32 => Some(
            (WasmValType::I32, WasmValType::F32),
        ),
        WasmMnemonic::F32ConvertI64S | WasmMnemonic::F32ConvertI64U => Some((WasmValType::I64, WasmValType::F32)),
        WasmMnemonic::F32DemoteF64 => Some((WasmValType::F64, WasmValType::F32)),
        WasmMnemonic::F64ConvertI32S | WasmMnemonic::F64ConvertI32U => Some((WasmValType::I32, WasmValType::F64)),
        WasmMnemonic::F64ConvertI64S | WasmMnemonic::F64ConvertI64U | WasmMnemonic::F64ReinterpretI64 => Some(
            (WasmValType::I64, WasmValType::F64),
        ),
        WasmMnemonic::F64PromoteF32 => Some((WasmValType::F32, WasmValType::F64)),
        _ => None,
    }
}

/// The type of the two operands of a comparison, which gives an `i32`
pub open spec fn compare_type(m: WasmMnemonic) -> Option<WasmValType> {
    match m {
        WasmMnemonic::I32Eq | WasmMnemonic::I32Ne | WasmMnemonic::I32LtS | WasmMnemonic::I32LtU
        | WasmMnemonic::I32GtS | WasmMnemonic::I32GtU | WasmMnemonic::I32LeS | WasmMnemonic::I32LeU
        | WasmMnemonic::I32GeS | WasmMnemonic::I32GeU => Some(WasmValType::I32),
        WasmMnemonic::I64Eq | WasmMnemonic::I64Ne | WasmMnemonic::I64LtS | WasmMnemonic::I64LtU
        | WasmMnemonic::I64GtS | WasmMnemonic::I64GtU | WasmMnemonic::I64LeS | WasmMnemonic::I64LeU
        | WasmMnemonic::I64GeS | WasmMnemonic::I64GeU => Some(WasmValType::I64),
        WasmMnemonic::F32Eq | WasmMnemonic::F32Ne | WasmMnemonic::F32Lt | WasmMnemonic::F32Gt
        | WasmMnemonic::F32Le | WasmMnemonic::F32Ge => Some(WasmValType::F32),
        WasmMnemonic::F64Eq | WasmMnemonic::F64Ne | WasmMnemonic::F64Lt | WasmMnemonic::F64Gt
        | WasmMnemonic::F64Le | WasmMnemonic::F64Ge => Some(WasmValType::F64),
        _ => None,
    }
}

/// The type of the two operands of a binary operator, which gives one of that type
pub open spec fn binary_type(m: WasmMnemonic) -> Option<WasmValType> {
    match m {
        WasmMnemonic::I32Add | WasmMnemonic::I32Sub | WasmMnemonic::I32Mul | WasmMnemonic::I32DivS
        | WasmMnemonic::I32DivU | WasmMnemonic::I32RemS | WasmMnemonic::I32RemU | WasmMnemonic::I32And
        | WasmMnemonic::I32Or | WasmMnemonic::I32Xor | WasmMnemonic::I32Shl | WasmMnemonic::I32ShrS
        | WasmMnemonic::I32ShrU | WasmMnemonic::I32Rotl | WasmMnemonic::I32Rotr => Some(WasmValType::I32),
        WasmMnemonic::I64Add | WasmMnemonic::I64Sub | WasmMnemonic::I64Mul | WasmMnemonic::I64DivS
        | WasmMnemonic::I64DivU | WasmMnemonic::I64RemS | WasmMnemonic::I64RemU | WasmMnemonic::I64And
        | WasmMnemonic::I64Or | WasmMnemonic::I64Xor | WasmMnemonic::I64Shl | WasmMnemonic::I64ShrS
        | WasmMnemonic::I64ShrU | WasmMnemonic::I64Rotl | WasmMnemonic::I64Rotr => Some(WasmValType::I64),
        WasmMnemonic::F32Add | WasmMnemonic::F32Sub | WasmMnemonic::F32Mul | WasmMnemonic::F32Div
        | WasmMnemonic::F32Min | WasmMnemonic::F32Max | WasmMnemonic::F32Copysign => Some(WasmValType::F32),
        WasmMnemonic::F64Add | WasmMnemonic::F64Sub | WasmMnemonic::F64Mul | WasmMnemonic::F64Div
        | WasmMnemonic::F64Min | WasmMnemonic::F64Max | WasmMnemonic::F64Copysign => Some(WasmValType::F64),
        _ => None,
    }
}

/// The type of the value a load gives
pub open spec fn load_type(m: WasmMnemonic) -> Option<WasmValType> {
    match m {
        WasmMnemonic::I32Load | WasmMnemonic::I32Load8S | WasmMnemonic::I32Load8U | WasmMnemonic::I32Load16S
        | WasmMnemonic::I32Load16U => Some(WasmValType::I32),
        WasmMnemonic::I64Load | WasmMnemonic::I64Load8S | WasmMnemonic::I64Load8U | WasmMnemonic::I64Load16S
        | WasmMnemonic::I64Load16U | WasmMnemonic::I64Load32S | WasmMnemonic::I64Load32U => Some(WasmValType::I64),
        WasmMnemonic::F32Load => Some(WasmValType::F32),
        WasmMnemonic::F64Load => Some(WasmValType::F64),
        _ => None,
    }
}

/// The type of the value a store writes
pub open spec fn store_type(m: WasmMnemonic) -> Option<WasmValType> {
    match m {
        WasmMnemonic::I32Store | WasmMnemonic::I32Store8 | WasmMnemonic::I32Store16 => Some(WasmValType::I32),
        WasmMnemonic::I64Store | WasmMnemonic::I64Store8 | WasmMnemonic::I64Store16 | WasmMnemonic::I64Store32 => Some(
            WasmValType::I64,
        ),
        WasmMnemonic::F32Store => Some(WasmValType::F32),
        WasmMnemonic::F64Store => Some(WasmValType::F64),
        _ => None,
    }
}

/// The type of the value a constant pushes
pub open spec fn const_type(m: WasmMnemonic) -> Option<WasmValType> {
    match m {
        WasmMnemonic::I32Const => Some(WasmValType::I32),
        WasmMnemonic::I64Const => Some(WasmValType::I64),
        WasmMnemonic::F32Const => Some(WasmValType::F32),
        WasmMnemonic::F64Const => Some(WasmValType::F64),
        _ => None,
    }
}

/// The size of the immediate of a constant, an error when it does not decode
pub open spec fn const_len(m: WasmMnemonic, s: Seq<u8>) -> Result<nat, CompileErrorKind> {
    match m {
        WasmMnemonic::I32Const => match decode_i32(s) {
            Ok((_, n)) => Ok(n),
            Err(e) => Err(read_error_kind(e)),
        },
        WasmMnemonic::I64Const => match decode_i64(s) {
            Ok((_, n)) => Ok(n),
            Err(e) => Err(read_error_kind(e)),
        },
        WasmMnemonic::F32Const => if s.len() < 4 {
            Err(CompileErrorKind::UnexpectedEof)
        } else {
            Ok(4)
        },
        _ => if s.len() < 8 {
            Err(CompileErrorKind::UnexpectedEof)
        } else {
            Ok(8)
        },
    }
}

/// The operand types after an operator that only reads and writes operands, or the error
pub open spec fn operands(m: WasmMnemonic, vs: Seq<WasmValType>) -> Result<Seq<WasmValType>, CompileErrorKind> {
    let n = vs.len();
    if unary_type(m) is Some {
        if n == 0 {
            Err(CompileErrorKind::OutOfStack)
        } else if Some(vs.last()) != unary_type(m) {
            Err(CompileErrorKind::TypeMismatch)
        } else {
            Ok(vs)
        }
    } else if convert_types(m) is Some {
        let (a, b) = convert_types(m).unwrap();
        if n == 0 {
            Err(CompileErrorKind::OutOfStack)
        } else if vs.last() != a {
            Err(CompileErrorKind::TypeMismatch)
        } else {
            Ok(vs.drop_last().push(b))
        }
    } else if compare_type(m) is Some || binary_type(m) is Some {
        if n < 2 {
            Err(CompileErrorKind::OutOfStack)
        } else if vs[n - 1] != vs[n - 2] || (compare_type(m) is Some && Some(vs[n - 1]) != compare_type(m))
            || (binary_type(m) is Some && Some(vs[n - 1]) != binary_type(m)) {
            Err(CompileErrorKind::TypeMismatch)
        } else if compare_type(m) is Some {
            Ok(vs.take(n - 2).push(WasmValType::I32))
        } else {
            Ok(vs.drop_last())
        }
    } else if m is Drop {
        if n == 0 {
            Err(CompileErrorKind::OutOfStack)
        } else {
            Ok(vs.drop_last())
        }
    } else {
        if n < 3 {
            Err(CompileErrorKind::OutOfStack)
        } else if vs[n - 3] != vs[n - 2] || vs[n - 1] != WasmValType::I32 {
            Err(CompileErrorKind::TypeMismatch)
        } else {
            Ok(vs.take(n - 2))
        }
    }
}

/// Whether `m` only reads and writes operands
pub open spec fn is_operator(m: WasmMnemonic) -> bool {
    unary_type(m) is Some || convert_types(m) is Some || compare_type(m) is Some || binary_type(m) is Some
        || m is Drop || m is Select
}

/// The checks of an instruction that touches no block, whose immediate `s` follows the opcode:
/// the size of the immediate and the operand types after it, or the error
pub open spec fn check_plain(m: WasmMnemonic, s: Seq<u8>, vs: Seq<WasmValType>, ctx: CodeContext) -> Result<
    (nat, Seq<WasmValType>),
    CompileErrorKind,
> {
    let n = vs.len();
    if is_operator(m) {
        match operands(m, vs) {
            Ok(v) => Ok((0, v)),
            Err(e) => Err(e),
        }
    } else if const_type(m) is Some {
        match const_len(m, s) {
            Ok(k) => Ok((k, vs.push(const_type(m).unwrap()))),
            Err(e) => Err(e),
        }
    } else if m is LocalGet || m is LocalSet || m is LocalTee || m is GlobalGet || m is GlobalSet {
        match decode_u32(s) {
            Err(e) => Err(read_error_kind(e)),
            Ok((i, k)) => if m is LocalGet || m is LocalSet || m is LocalTee {
                if i >= ctx.locals.len() {
                    Err(CompileErrorKind::InvalidLocal)
                } else if m is LocalGet {
                    Ok((k, vs.push(ctx.locals[i as int])))
                } else if n == 0 {
                    Err(CompileErrorKind::OutOfStack)
                } else if vs.last() != ctx.locals[i as int] {
                    Err(CompileErrorKind::TypeMismatch)
                } else if m is LocalSet {
                    Ok((k, vs.drop_last()))
                } else {
                    Ok((k, vs))
                }
            } else if i >= ctx.globals.len() {
                Err(CompileErrorKind::InvalidGlobal)
            } else if m is GlobalGet {
                Ok((k, vs.push(ctx.globals[i as int].0)))
            } else if !ctx.globals[i as int].1 {
                Err(CompileErrorKind::InvalidGlobal)
            } else if n == 0 {
                Err(CompileErrorKind::OutOfStack)
            } else if vs.last() != ctx.globals[i as int].0 {
                Err(CompileErrorKind::TypeMismatch)
            } else {
                Ok((k, vs.drop_last()))
            },
        }
    } else if load_type(m) is Some || store_type(m) is Some {
        match decode_u32(s) {
            Err(e) => Err(read_error_kind(e)),
            Ok((_, k1)) => match decode_u32(s.skip(k1 as int)) {
                Err(e) => Err(read_error_kind(e)),
                Ok((_, k2)) => if !ctx.has_memory {
                    Err(CompileErrorKind::OutOfMemory)
                } else if load_type(m) is Some {
                    if n == 0 {
                        Err(CompileErrorKind::OutOfStack)
                    } else if vs.last() != WasmValType::I32 {
                        Err(CompileErrorKind::TypeMismatch)
                    } else {
                        Ok((k1 + k2, vs.drop_last().push(load_type(m).unwrap())))
                    }
                } else if n < 2 {
                    Err(CompileErrorKind::OutOfStack)
                } else if vs[n - 2] != WasmValType::I32 && Some(vs[n - 1]) != store_type(m) {
                    Err(CompileErrorKind::TypeMismatch)
                } else {
                    Ok((k1 + k2, vs.take(n - 2)))
                },
            },
        }
    } else if m is MemorySize || m is MemoryGrow {
        if s.len() == 0 {
            Err(CompileErrorKind::UnexpectedEof)
        } else if s[0] as nat >= ctx.memories {
            Err(CompileErrorKind::OutOfMemory)
        } else if m is MemorySize {
            Ok((1, vs.push(WasmValType::I32)))
        } else if n == 0 {
            Err(CompileErrorKind::OutOfStack)
        } else if vs.last() != WasmValType::I32 {
            Err(CompileErrorKind::TypeMismatch)
        } else {
            Ok((1, vs))
        }
    } else {
        Err(CompileErrorKind::UnsupportedBytecode(m))
    }
}

/// The operand types left after popping `p` of them, as many as there are
pub open spec fn pop_types(vs: Seq<WasmValType>, p: nat) -> Seq<WasmValType> {
    if vs.len() >= p {
        vs.take(vs.len() - p)
    } else {
        Seq::empty()
    }
}

/// The check of a `br_if` or `br_table` after its labels: the `i32` condition it pops
pub open spec fn pop_condition(vs: Seq<WasmValType>) -> Result<Seq<WasmValType>, CompileErrorKind> {
    if vs.len() == 0 {
        Err(CompileErrorKind::OutOfStack)
    } else if vs.last() != WasmValType::I32 {
        Err(CompileErrorKind::TypeMismatch)
    } else {
        Ok(vs.drop_last())
    }
}

/// Whether `m` opens, closes or leaves a block, or calls
pub open spec fn is_structured(m: WasmMnemonic) -> bool {
    match m {
        WasmMnemonic::Unreachable | WasmMnemonic::Nop | WasmMnemonic::Block | WasmMnemonic::Loop
        | WasmMnemonic::If | WasmMnemonic::Else | WasmMnemonic::End | WasmMnemonic::Br | WasmMnemonic::BrIf
        | WasmMnemonic::BrTable | WasmMnemonic::Return | WasmMnemonic::Call | WasmMnemonic::CallIndirect => true,
        _ => false,
    }
}

/// The checks of the block, branch, return and call instruction `m` at `pos`; the `end` of a
/// block that gives a value wants that value, of its type, on top of the operands
pub open spec fn check_structured(
    code: Seq<u8>,
    pos: nat,
    m: WasmMnemonic,
    vs: Seq<WasmValType>,
    bs: Seq<BlockFrame>,
    ctx: CodeContext,
) -> Check {
    let n = vs.len();
    let s = code.skip((pos + 1) as int);
    match m {
        WasmMnemonic::Unreachable | WasmMnemonic::Nop => Check::Next(pos + 1, vs, bs),
        WasmMnemonic::Block | WasmMnemonic::Loop | WasmMnemonic::If => match decode_i64(s) {
            Err(e) => Check::Fail(read_error_kind(e)),
            Ok((v, k)) => match block_type_of_signed(v) {
                None => Check::Fail(CompileErrorKind::InvalidData),
                Some(bt) => if m is If {
                    match pop_condition(vs) {
                        Err(e) => Check::Fail(e),
                        Ok(rest) => Check::Next(
                            pos + 1 + k,
                            rest,
                            bs.push(BlockFrame { kind: BlockKind::If, result: block_result(bt), height: rest.len() as usize }),
                        ),
                    }
                } else {
                    Check::Next(
                        pos + 1 + k,
                        vs,
                        bs.push(
                            BlockFrame {
                                kind: if m is Loop {
                                    BlockKind::Loop
                                } else {
                                    BlockKind::Block
                                },
                                result: block_result(bt),
                                height: n as usize,
                            },
                        ),
                    )
                },
            },
        },
        WasmMnemonic::Else => if bs.len() == 0 || bs.last().kind != BlockKind::If {
            Check::Fail(CompileErrorKind::ElseWithoutIf)
        } else if n < bs.last().height {
            Check::Fail(CompileErrorKind::OutOfStack)
        } else {
            Check::Next(pos + 1, vs.take(bs.last().height as int), bs)
        },
        WasmMnemonic::End => if bs.len() > 0 {
            let f = bs.last();
            if n < f.height || (f.result is Some && n == f.height) {
                Check::Fail(CompileErrorKind::OutOfStack)
            } else if f.result is Some && vs.last() != f.result.unwrap() {
                Check::Fail(CompileErrorKind::TypeMismatch)
            } else {
                let kept = vs.take(f.height as int);
                Check::Next(
                    pos + 1,
                    match f.result {
                        Some(t) => kept.push(t),
                        None => kept,
                    },
                    bs.drop_last(),
                )
            }
        } else if ctx.results.len() > 0 {
            if n == 0 {
                Check::Fail(CompileErrorKind::OutOfStack)
            } else if vs.last() != ctx.results[0] {
                Check::Fail(CompileErrorKind::TypeMismatch)
            } else {
                Check::Done
            }
        } else if n > 0 {
            Check::Fail(CompileErrorKind::InvalidStackLevel)
        } else {
            Check::Done
        },
        WasmMnemonic::Br | WasmMnemonic::BrIf => match decode_u32(s) {
            Err(e) => Check::Fail(read_error_kind(e)),
            Ok((l, k)) => if l >= bs.len() {
                Check::Fail(CompileErrorKind::OutOfBranch)
            } else if m is Br {
                Check::Next(pos + 1 + k, vs, bs)
            } else {
                match pop_condition(vs) {
                    Err(e) => Check::Fail(e),
                    Ok(rest) => Check::Next(pos + 1 + k, rest, bs),
                }
            },
        },
        WasmMnemonic::BrTable => match decode_u32(s) {
            Err(e) => Check::Fail(read_error_kind(e)),
            Ok((count, k)) => match decode_u32s(s.skip(k as int), count + 1) {
                Err(e) => Check::Fail(e),
                Ok((ls, k2)) => if exists|i: int| 0 <= i < ls.len() && ls[i] >= bs.len() {
                    Check::Fail(CompileErrorKind::OutOfBranch)
                } else {
                    match pop_condition(vs) {
                        Err(e) => Check::Fail(e),
                        Ok(rest) => Check::Next(pos + 1 + k + k2, rest, bs),
                    }
                },
            },
        },
        WasmMnemonic::Return => if ctx.results.len() > 0 {
            if n == 0 {
                Check::Fail(CompileErrorKind::OutOfStack)
            } else if vs.last() != ctx.results[0] {
                Check::Fail(CompileErrorKind::TypeMismatch)
            } else {
                Check::Next(pos + 1, vs.drop_last(), bs)
            }
        } else {
            Check::Next(pos + 1, vs, bs)
        },
        WasmMnemonic::Call => match decode_u32(s) {
            Err(e) => Check::Fail(read_error_kind(e)),
            Ok((f, k)) => if f >= ctx.funcs.len() {
                Check::Fail(CompileErrorKind::InvalidData)
            } else {
                let (params, results) = ctx.funcs[f as int];
                Check::Next(pos + 1 + k, pop_types(vs, params.len()) + results, bs)
            },
        },
        _ => match decode_u32(s) {
            Err(e) => Check::Fail(read_error_kind(e)),
            Ok((t, k)) => if s.len() <= k {
                Check::Fail(CompileErrorKind::UnexpectedEof)
            } else if t >= ctx.types.len() {
                Check::Fail(CompileErrorKind::InvalidData)
            } else {
                match pop_condition(vs) {
                    Err(e) => Check::Fail(e),
                    Ok(rest) => {
                        let (params, results) = ctx.types[t as int];
                        Check::Next(pos + 2 + k, pop_types(rest, params.len()) + results, bs)
                    },
                }
            },
        },
    }
}

/// The checks of an instruction with the `FC` prefix, whose second part `s` follows the prefix:
/// the size of what follows the prefix and the operand types after it, or the error
pub open spec fn check_fc(s: Seq<u8>, vs: Seq<WasmValType>, ctx: CodeContext) -> Result<
    (nat, Seq<WasmValType>),
    CompileErrorKind,
> {
    let n = vs.len();
    match decode_u32(s) {
        Err(e) => Err(read_error_kind(e)),
        Ok((v, k)) => if v > 0x0E {
            Err(CompileErrorKind::InvalidBytecode2(0xFC, v as u32))
        } else if v < 8 {
            let m = fc_mnemonic(v);
            match operands(m, vs) {
                Ok(w) => Ok((k, w)),
                Err(e) => Err(e),
            }
        } else if v == 0x0A || v == 0x0B {
            if !ctx.has_memory {
                Err(CompileErrorKind::OutOfMemory)
            } else {
                match decode_u64(s.skip(k as int)) {
                    Err(e) => Err(read_error_kind(e)),
                    Ok((first, k1)) => if first >= ctx.memories {
                        Err(CompileErrorKind::OutOfMemory)
                    } else {
                        let more: Result<nat, CompileErrorKind> = if v == 0x0B {
                            Ok(0)
                        } else {
                            match decode_u64(s.skip((k + k1) as int)) {
                                Err(e) => Err(read_error_kind(e)),
                                Ok((second, k2)) => if second >= ctx.memories {
                                    Err(CompileErrorKind::OutOfMemory)
                                } else {
                                    Ok(k2)
                                },
                            }
                        };
                        match more {
                            Err(e) => Err(e),
                            Ok(k2) => if n < 3 {
                                Err(CompileErrorKind::OutOfStack)
                            } else if vs[n - 1] != WasmValType::I32 || vs[n - 2] != WasmValType::I32 || vs[n
                                - 3] != WasmValType::I32 {
                                Err(CompileErrorKind::TypeMismatch)
                            } else {
                                Ok((k + k1 + k2, vs.take(n - 3)))
                            },
                        }
                    },
                }
            }
        } else {
            Err(CompileErrorKind::UnsupportedBytecode(fc_mnemonic(v)))
        },
    }
}

/// The mnemonic of the `FC` instruction `v`
pub open spec fn fc_mnemonic(v: nat) -> WasmMnemonic {
    if v == 0 {
        WasmMnemonic::I32TruncSatF32S
    } else if v == 1 {
        WasmMnemonic::I32TruncSatF32U
    } else if v == 2 {
        WasmMnemonic::I32TruncSatF64S
    } else if v == 3 {
        WasmMnemonic::I32TruncSatF64U
    } else if v == 4 {
        WasmMnemonic::I64TruncSatF32S
    } else if v == 5 {
        WasmMnemonic::I64TruncSatF32U
    } else if v == 6 {
        WasmMnemonic::I64TruncSatF64S
    } else if v == 7 {
        WasmMnemonic::I64TruncSatF64U
    } else if v == 8 {
        WasmMnemonic::MemoryInit
    } else if v == 9 {
        WasmMnemonic::DataDrop
    } else if v == 10 {
        WasmMnemonic::MemoryCopy
    } else if v == 11 {
        WasmMnemonic::MemoryFill
    } else if v == 12 {
        WasmMnemonic::TableInit
    } else if v == 13 {
        WasmMnemonic::ElemDrop
    } else {
        WasmMnemonic::TableCopy
    }
}

/// The check of the instruction at `pos`
pub open spec fn check_step(code: Seq<u8>, pos: nat, vs: Seq<WasmValType>, bs: Seq<BlockFrame>, ctx: CodeContext) -> Check {
    let b = code[pos as int];
    let s = code.skip((pos + 1) as int);
    if b == 0xFC {
        match check_fc(s, vs, ctx) {
            Ok((k, w)) => Check::Next(pos + 1 + k, w, bs),
            Err(e) => Check::Fail(e),
        }
    } else {
        match mnemonic_of_byte(b) {
            None => Check::Fail(CompileErrorKind::InvalidBytecode(b)),
            Some(m) => if is_structured(m) {
                check_structured(code, pos, m, vs, bs, ctx)
            } else {
                match check_plain(m, s, vs, ctx) {
                    Ok((k, w)) => Check::Next(pos + 1 + k, w, bs),
                    Err(e) => Check::Fail(e),
                }
            },
        }
    }
}

/// The check of the instructions from `pos` to the `end` of the body
pub open spec fn check_from(code: Seq<u8>, pos: nat, vs: Seq<WasmValType>, bs: Seq<BlockFrame>, ctx: CodeContext) -> Result<
    (),
    CompileErrorKind,
>
    decreases code.len() - pos,
{
    if pos >= code.len() {
        Err(CompileErrorKind::UnexpectedEof)
    } else {
        match check_step(code, pos, vs, bs, ctx) {
            Check::Next(p, w, b2) => if pos < p <= code.len() {
                check_from(code, p, w, b2, ctx)
            } else {
                Err(CompileErrorKind::UnexpectedEof)
            },
            Check::Done => Ok(()),
            Check::Fail(e) => Err(e),
        }
    }
}

/// Whether an instruction from `pos` to the `end` of the body, as the check walks them, is a
/// `call` or a `call_indirect`
pub open spec fn calls_from(code: Seq<u8>, pos: nat, vs: Seq<WasmValType>, bs: Seq<BlockFrame>, ctx: CodeContext) -> bool
    decreases code.len() - pos,
{
    if pos >= code.len() {
        false
    } else if code[pos as int] == 0x10 || code[pos as int] == 0x11 {
        true
    } else {
        match check_step(code, pos, vs, bs, ctx) {
            Check::Next(p, w, b2) => if pos < p <= code.len() {
                calls_from(code, p, w, b2, ctx)
            } else {
                false
            },
            _ => false,
        }
    }
}

/// The largest number of operands on the stack before an instruction from `pos` to the `end`
/// of the body, as the check walks them
pub open spec fn depth_from(code: Seq<u8>, pos: nat, vs: Seq<WasmValType>, bs: Seq<BlockFrame>, ctx: CodeContext) -> nat
    decreases code.len() - pos,
{
    if pos >= code.len() {
        vs.len()
    } else {
        match check_step(code, pos, vs, bs, ctx) {
            Check::Next(p, w, b2) => if pos < p <= code.len() {
                let d = depth_from(code, p, w, b2, ctx);
                if d > vs.len() {
                    d
                } else {
                    vs.len()
                }
            } else {
                vs.len()
            },
            _ => vs.len(),
        }
    }
}

/// The largest number of operands on the stack before an instruction of a body
pub open spec fn body_max_stack(code: Seq<u8>, ctx: CodeContext) -> nat {
    depth_from(code, 0, Seq::empty(), Seq::empty(), ctx)
}

/// Whether a body calls a function: a `call` or a `call_indirect` among its instructions
pub open spec fn body_calls(code: Seq<u8>, ctx: CodeContext) -> bool {
    calls_from(code, 0, Seq::empty(), Seq::empty(), ctx)
}

/// The check of a whole body: its instructions up to the `end` that closes it
pub open spec fn check_body(code: Seq<u8>, ctx: CodeContext) -> Result<(), CompileErrorKind> {
    check_from(code, 0, Seq::empty(), Seq::empty(), ctx)
}

/// What the check of a body of module `m` with `locals` and `results` knows
pub open spec fn code_context(m: WasmModule, locals: Seq<WasmValType>, results: Seq<WasmValType>) -> CodeContext {
    CodeContext {
        locals,
        results,
        funcs: Seq::new(m.functions_view().len(), |i: int| (m.functions_view()[i].params(), m.functions_view()[i].results())),
        types: m.types_view(),
        globals: Seq::new(m.globals_view().len(), |i: int| (m.globals_view()[i].spec_val_type(), m.globals_view()[i].spec_is_mutable())),
        memories: m.memories_view().len(),
        has_memory: m.memories_view().len() > 0 && m.memories_view()[0].pages() > 0,
    }
}

/// The type of the operand that a unary operator reads and writes
fn unary_of(m: WasmMnemonic) -> (r: Option<WasmValType>)
    ensures
        r == unary_type(m),
{
    match m {
        WasmMnemonic::I32Eqz | WasmMnemonic::I32Clz | WasmMnemonic::I32Ctz | WasmMnemonic::I32Popcnt
        | WasmMnemonic::I32Extend8S | WasmMnemonic::I32Extend16S => Some(WasmValType::I32),
        WasmMnemonic::I64Clz | WasmMnemonic::I64Ctz | WasmMnemonic::I64Popcnt | WasmMnemonic::I64Extend8S
        | WasmMnemonic::I64Extend16S | WasmMnemonic::I64Extend32S => Some(WasmValType::I64),
        WasmMnemonic::F32Abs | WasmMnemonic::F32Neg | WasmMnemonic::F32Ceil | WasmMnemonic::F32Floor
        | WasmMnemonic::F32Trunc | WasmMnemonic::F32Nearest | WasmMnemonic::F32Sqrt => Some(WasmValType::F32),
        WasmMnemonic::F64Abs | WasmMnemonic::F64Neg | WasmMnemonic::F64Ceil | WasmMnemonic::F64Floor
        | WasmMnemonic::F64Trunc | WasmMnemonic::F64Nearest | WasmMnemonic::F64Sqrt => Some(WasmValType::F64),
        _ => None,
    }
}

/// The types that a conversion reads and gives
fn convert_of(m: WasmMnemonic) -> (r: Option<(WasmValType, WasmValType)>)
    ensures
        r == convert_types(m),
{
    match m {
        WasmMnemonic::I64Eqz | WasmMnemonic::I32WrapI64 => Some((WasmValType::I64, WasmValType::I32)),
        WasmMnemonic::I64ExtendI32S | WasmMnemonic::I64ExtendI32U => Some((WasmValType::I32, WasmValType::I64)),
        WasmMnemonic::I32TruncF32S | WasmMnemonic::I32TruncF32U | WasmMnemonic::I32ReinterpretF32
        | WasmMnemonic::I32TruncSatF32S | WasmMnemonic::I32TruncSatF32U => Some((WasmValType::F32, WasmValType::I32)),
        WasmMnemonic::I32TruncF64S | WasmMnemonic::I32TruncF64U | WasmMnemonic::I32TruncSatF64S
        | WasmMnemonic::I32TruncSatF64U => Some((WasmValType::F64, WasmValType::I32)),
        WasmMnemonic::I64TruncF32S | WasmMnemonic::I64TruncF32U | WasmMnemonic::I64TruncSatF32S
        | WasmMnemonic::I64TruncSatF32U => Some((WasmValType::F32, WasmValType::I64)),
        WasmMnemonic::I64TruncF64S | WasmMnemonic::I64TruncF64U | WasmMnemonic::I64ReinterpretF64
        | WasmMnemonic::I64TruncSatF64S | WasmMnemonic::I64TruncSatF64U => Some((WasmValType::F64, WasmValType::I64)),
        WasmMnemonic::F32ConvertI32S | WasmMnemonic::F32ConvertI32U | WasmMnemonic::F32ReinterpretI32 => Some(
            (WasmValType::I32, WasmValType::F32),
        ),
        WasmMnemonic::F32ConvertI64S | WasmMnemonic::F32ConvertI64U => Some((WasmValType::I64, WasmValType::F32)),
        WasmMnemonic::F32DemoteF64 => Some((WasmValType::F64, WasmValType::F32)),
        WasmMnemonic::F64ConvertI32S | WasmMnemonic::F64ConvertI32U => Some((WasmValType::I32, WasmValType::F64)),
        WasmMnemonic::F64ConvertI64S | WasmMnemonic::F64ConvertI64U | WasmMnemonic::F64ReinterpretI64 => Some(
            (WasmValType::I64, WasmValType::F64),
        ),
        WasmMnemonic::F64PromoteF32 => Some((WasmValType::F32, WasmValType::F64)),
        _ => None,
    }
}

/// The type of the two operands of a comparison
fn compare_of(m: WasmMnemonic) -> (r: Option<WasmValType>)
    ensures
        r == compare_type(m),
{
    match m {
        WasmMnemonic::I32Eq | WasmMnemonic::I32Ne | WasmMnemonic::I32LtS | WasmMnemonic::I32LtU
        | WasmMnemonic::I32GtS | WasmMnemonic::I32GtU | WasmMnemonic::I32LeS | WasmMnemonic::I32LeU
        | WasmMnemonic::I32GeS | WasmMnemonic::I32GeU => Some(WasmValType::I32),
        WasmMnemonic::I64Eq | WasmMnemonic::I64Ne | WasmMnemonic::I64LtS | WasmMnemonic::I64LtU
        | WasmMnemonic::I64GtS | WasmMnemonic::I64GtU | WasmMnemonic::I64LeS | WasmMnemonic::I64LeU
        | WasmMnemonic::I64GeS | WasmMnemonic::I64GeU => Some(WasmValType::I64),
        WasmMnemonic::F32Eq | WasmMnemonic::F32Ne | WasmMnemonic::F32Lt | WasmMnemonic::F32Gt
        | WasmMnemonic::F32Le | WasmMnemonic::F32Ge => Some(WasmValType::F32),
        WasmMnemonic::F64Eq | WasmMnemonic::F64Ne | WasmMnemonic::F64Lt | WasmMnemonic::F64Gt
        | WasmMnemonic::F64Le | WasmMnemonic::F64Ge => Some(WasmValType::F64),
        _ => None,
    }
}

/// The type of the two operands of a binary operator
fn binary_of(m: WasmMnemonic) -> (r: Option<WasmValType>)
    ensures
        r == binary_type(m),
{
    match m {
        WasmMnemonic::I32Add | WasmMnemonic::I32Sub | WasmMnemonic::I32Mul | WasmMnemonic::I32DivS
        | WasmMnemonic::I32DivU | WasmMnemonic::I32RemS | WasmMnemonic::I32RemU | WasmMnemonic::I32And
        | WasmMnemonic::I32Or | WasmMnemonic::I32Xor | WasmMnemonic::I32Shl | WasmMnemonic::I32ShrS
        | WasmMnemonic::I32ShrU | WasmMnemonic::I32Rotl | WasmMnemonic::I32Rotr => Some(WasmValType::I32),
        WasmMnemonic::I64Add | WasmMnemonic::I64Sub | WasmMnemonic::I64Mul | WasmMnemonic::I64DivS
        | WasmMnemonic::I64DivU | WasmMnemonic::I64RemS | WasmMnemonic::I64RemU | WasmMnemonic::I64And
        | WasmMnemonic::I64Or | WasmMnemonic::I64Xor | WasmMnemonic::I64Shl | WasmMnemonic::I64ShrS
        | WasmMnemonic::I64ShrU | WasmMnemonic::I64Rotl | WasmMnemonic::I64Rotr => Some(WasmValType::I64),
        WasmMnemonic::F32Add | WasmMnemonic::F32Sub | WasmMnemonic::F32Mul | WasmMnemonic::F32Div
        | WasmMnemonic::F32Min | WasmMnemonic::F32Max | WasmMnemonic::F32Copysign => Some(WasmValType::F32),
        WasmMnemonic::F64Add | WasmMnemonic::F64Sub | WasmMnemonic::F64Mul | WasmMnemonic::F64Div
        | WasmMnemonic::F64Min | WasmMnemonic::F64Max | WasmMnemonic::F64Copysign => Some(WasmValType::F64),
        _ => None,
    }
}

/// The type of the value a load gives
fn load_of(m: WasmMnemonic) -> (r: Option<WasmValType>)
    ensures
        r == load_type(m),
{
    match m {
        WasmMnemonic::I32Load | WasmMnemonic::I32Load8S | WasmMnemonic::I32Load8U | WasmMnemonic::I32Load16S
        | WasmMnemonic::I32Load16U => Some(WasmValType::I32),
        WasmMnemonic::I64Load | WasmMnemonic::I64Load8S | WasmMnemonic::I64Load8U | WasmMnemonic::I64Load16S
        | WasmMnemonic::I64Load16U | WasmMnemonic::I64Load32S | WasmMnemonic::I64Load32U => Some(WasmValType::I64),
        WasmMnemonic::F32Load => Some(WasmValType::F32),
        WasmMnemonic::F64Load => Some(WasmValType::F64),
        _ => None,
    }
}

/// The type of the value a store writes
fn store_of(m: WasmMnemonic) -> (r: Option<WasmValType>)
    ensures
        r == store_type(m),
{
    match m {
        WasmMnemonic::I32Store | WasmMnemonic::I32Store8 | WasmMnemonic::I32Store16 => Some(WasmValType::I32),
        WasmMnemonic::I64Store | WasmMnemonic::I64Store8 | WasmMnemonic::I64Store16 | WasmMnemonic::I64Store32 => Some(
            WasmValType::I64,
        ),
        WasmMnemonic::F32Store => Some(WasmValType::F32),
        WasmMnemonic::F64Store => Some(WasmValType::F64),
        _ => None,
    }
}

/// The type of the value a constant pushes
fn const_of(m: WasmMnemonic) -> (r: Option<WasmValType>)
    ensures
        r == const_type(m),
{
    match m {
        WasmMnemonic::I32Const => Some(WasmValType::I32),
        WasmMnemonic::I64Const => Some(WasmValType::I64),
        WasmMnemonic::F32Const => Some(WasmValType::F32),
        WasmMnemonic::F64Const => Some(WasmValType::F64),
        _ => None,
    }
}

/// The mnemonic of the `FC` instruction `v`
pub(crate) fn fc_of(v: u32) -> (r: WasmMnemonic)
    ensures
        r == fc_mnemonic(v as nat),
{
    match v {
        0 => WasmMnemonic::I32TruncSatF32S,
        1 => WasmMnemonic::I32TruncSatF32U,
        2 => WasmMnemonic::I32TruncSatF64S,
        3 => WasmMnemonic::I32TruncSatF64U,
        4 => WasmMnemonic::I64TruncSatF32S,
        5 => WasmMnemonic::I64TruncSatF32U,
        6 => WasmMnemonic::I64TruncSatF64S,
        7 => WasmMnemonic::I64TruncSatF64U,
        8 => WasmMnemonic::MemoryInit,
        9 => WasmMnemonic::DataDrop,
        10 => WasmMnemonic::MemoryCopy,
        11 => WasmMnemonic::MemoryFill,
        12 => WasmMnemonic::TableInit,
        13 => WasmMnemonic::ElemDrop,
        _ => WasmMnemonic::TableCopy,
    }
}

/// Checks an operator that only reads and writes operands.
fn exec_operands(m: WasmMnemonic, vs: &mut Vec<WasmValType>) -> (r: Result<(), CompileErrorKind>)
    requires
        is_operator(m),
    ensures
        match operands(m, old(vs)@) {
            Ok(w) => r is Ok && final(vs)@ == w,
            Err(e) => r == Err::<(), CompileErrorKind>(e),
        },
{
    let n = vs.len();
    if let Some(t) = unary_of(m) {
        if n == 0 {
            return Err(CompileErrorKind::OutOfStack);
        }
        if vs[n - 1] != t {
            return Err(CompileErrorKind::TypeMismatch);
        }
        return Ok(());
    }
    if let Some((a, b)) = convert_of(m) {
        if n == 0 {
            return Err(CompileErrorKind::OutOfStack);
        }
        if vs[n - 1] != a {
            return Err(CompileErrorKind::TypeMismatch);
        }
        vs.pop();
        vs.push(b);
        return Ok(());
    }
    let cmp = compare_of(m);
    let bin = binary_of(m);
    if cmp.is_some() || bin.is_some() {
        if n < 2 {
            return Err(CompileErrorKind::OutOfStack);
        }
        let t = vs[n - 1];
        let mismatch = match cmp {
            Some(c) => t != c,
            None => false,
        } || match bin {
            Some(c) => t != c,
            None => false,
        };
        if t != vs[n - 2] || mismatch {
            return Err(CompileErrorKind::TypeMismatch);
        }
        vs.pop();
        if cmp.is_some() {
            vs.pop();
            vs.push(WasmValType::I32);
        }
        proof {
            if cmp is Some {
                assert(vs@ =~= old(vs)@.take(n - 2).push(WasmValType::I32));
            }
        }
        return Ok(());
    }
    if matches!(m, WasmMnemonic::Drop) {
        if n == 0 {
            return Err(CompileErrorKind::OutOfStack);
        }
        vs.pop();
        return Ok(());
    }
    if n < 3 {
        return Err(CompileErrorKind::OutOfStack);
    }
    if vs[n - 3] != vs[n - 2] || vs[n - 1] != WasmValType::I32 {
        return Err(CompileErrorKind::TypeMismatch);
    }
    vs.pop();
    vs.pop();
    proof {
        assert(vs@ =~= old(vs)@.take(n - 2));
    }
    Ok(())
}

/// The types of the memories, functions and globals that the check of a body needs
fn has_first_memory(module: &WasmModule) -> (r: bool)
    ensures
        r == (module.memories_view().len() > 0 && module.memories_view()[0].pages() > 0),
{
    let memories = module.memories();
    memories.len() > 0 && memories[0].size() > 0
}

/// Checks an instruction that touches no block, reading its immediate from `reader`.
#[verifier::rlimit(40)]
fn exec_plain(
    m: WasmMnemonic,
    reader: &mut Leb128Reader,
    vs: &mut Vec<WasmValType>,
    module: &WasmModule,
    locals: &[WasmValType],
    results: &[WasmValType],
) -> (r: Result<(), CompileErrorKind>)
    requires
        !is_structured(m),
    ensures
        final(reader).bytes() == old(reader).bytes(),
        match check_plain(m, old(reader).rest(), old(vs)@, code_context(*module, locals@, results@)) {
            Ok((k, w)) => r is Ok && old(reader).advanced(&*final(reader), k) && final(vs)@ == w,
            Err(e) => r == Err::<(), CompileErrorKind>(e),
        },
{
    let ghost ctx = code_context(*module, locals@, results@);
    let ghost s = reader.rest();
    let n = vs.len();
    if unary_of(m).is_some() || convert_of(m).is_some() || compare_of(m).is_some() || binary_of(m).is_some()
        || matches!(m, WasmMnemonic::Drop) || matches!(m, WasmMnemonic::Select) {
        return exec_operands(m, vs);
    }
    if let Some(t) = const_of(m) {
        let ok = match m {
            WasmMnemonic::I32Const => match reader.read_i32() {
                Ok(_) => Ok(()),
                Err(e) => Err(CompileErrorKind::from_read_error(e)),
            },
            WasmMnemonic::I64Const => match reader.read_signed() {
                Ok(_) => Ok(()),
                Err(e) => Err(CompileErrorKind::from_read_error(e)),
            },
            _ => {
                let size: usize = if matches!(m, WasmMnemonic::F32Const) {
                    4
                } else {
                    8
                };
                match reader.read_bytes(size) {
                    Ok(_) => Ok(()),
                    Err(_) => Err(CompileErrorKind::UnexpectedEof),
                }
            },
        };
        if let Err(e) = ok {
            return Err(e);
        }
        vs.push(t);
        return Ok(());
    }
    if matches!(m, WasmMnemonic::LocalGet) || matches!(m, WasmMnemonic::LocalSet) || matches!(
        m,
        WasmMnemonic::LocalTee
    ) || matches!(m, WasmMnemonic::GlobalGet) || matches!(m, WasmMnemonic::GlobalSet) {
        let i = match reader.read_u32() {
            Ok(v) => v as usize,
            Err(e) => {
                return Err(CompileErrorKind::from_read_error(e));
            },
        };
        if matches!(m, WasmMnemonic::LocalGet) || matches!(m, WasmMnemonic::LocalSet) || matches!(
            m,
            WasmMnemonic::LocalTee
        ) {
            if i >= locals.len() {
                return Err(CompileErrorKind::InvalidLocal);
            }
            let t = locals[i];
            if matches!(m, WasmMnemonic::LocalGet) {
                vs.push(t);
                return Ok(());
            }
            if n == 0 {
                return Err(CompileErrorKind::OutOfStack);
            }
            if vs[n - 1] != t {
                return Err(CompileErrorKind::TypeMismatch);
            }
            if matches!(m, WasmMnemonic::LocalSet) {
                vs.pop();
            }
            return Ok(());
        }
        let globals = module.globals();
        if i >= globals.len() {
            return Err(CompileErrorKind::InvalidGlobal);
        }
        let t = globals[i].val_type();
        if matches!(m, WasmMnemonic::GlobalGet) {
            vs.push(t);
            return Ok(());
        }
        if !globals[i].is_mutable() {
            return Err(CompileErrorKind::InvalidGlobal);
        }
        if n == 0 {
            return Err(CompileErrorKind::OutOfStack);
        }
        if vs[n - 1] != t {
            return Err(CompileErrorKind::TypeMismatch);
        }
        vs.pop();
        return Ok(());
    }
    let load = load_of(m);
    let store = store_of(m);
    if load.is_some() || store.is_some() {
        if let Err(e) = reader.read_u32() {
            return Err(CompileErrorKind::from_read_error(e));
        }
        proof {
            crate::leb128::lemma_decode_unsigned_bounds(s, 5, 16);
            let k1 = decode_u32(s).unwrap().1;
            assert(reader.rest() =~= s.skip(k1 as int));
        }
        if let Err(e) = reader.read_u32() {
            return Err(CompileErrorKind::from_read_error(e));
        }
        if !has_first_memory(module) {
            return Err(CompileErrorKind::OutOfMemory);
        }
        match load {
            Some(t) => {
                if n == 0 {
                    return Err(CompileErrorKind::OutOfStack);
                }
                if vs[n - 1] != WasmValType::I32 {
                    return Err(CompileErrorKind::TypeMismatch);
                }
                vs.pop();
                vs.push(t);
                return Ok(());
            },
            None => {
                if n < 2 {
                    return Err(CompileErrorKind::OutOfStack);
                }
                let wrong_value = match store {
                    Some(t) => vs[n - 1] != t,
                    None => true,
                };
                if vs[n - 2] != WasmValType::I32 && wrong_value {
                    return Err(CompileErrorKind::TypeMismatch);
                }
                vs.pop();
                vs.pop();
                proof {
                    assert(vs@ =~= old(vs)@.take(n - 2));
                }
                return Ok(());
            },
        }
    }
    if matches!(m, WasmMnemonic::MemorySize) || matches!(m, WasmMnemonic::MemoryGrow) {
        let index = match reader.read_byte() {
            Ok(b) => b,
            Err(_) => {
                return Err(CompileErrorKind::UnexpectedEof);
            },
        };
        if index as usize >= module.memories().len() {
            return Err(CompileErrorKind::OutOfMemory);
        }
        if matches!(m, WasmMnemonic::MemorySize) {
            vs.push(WasmValType::I32);
            return Ok(());
        }
        if n == 0 {
            return Err(CompileErrorKind::OutOfStack);
        }
        if vs[n - 1] != WasmValType::I32 {
            return Err(CompileErrorKind::TypeMismatch);
        }
        return Ok(());
    }
    Err(CompileErrorKind::UnsupportedBytecode(m))
}

/// Checks the `i32` condition on top of the operand types and pops it.
fn exec_condition(vs: &mut Vec<WasmValType>) -> (r: Result<(), CompileErrorKind>)
    ensures
        match pop_condition(old(vs)@) {
            Ok(w) => r is Ok && final(vs)@ == w,
            Err(e) => r == Err::<(), CompileErrorKind>(e),
        },
{
    let n = vs.len();
    if n == 0 {
        return Err(CompileErrorKind::OutOfStack);
    }
    if vs[n - 1] != WasmValType::I32 {
        return Err(CompileErrorKind::TypeMismatch);
    }
    vs.pop();
    Ok(())
}

/// Pops `p` operand types, as many as there are, and pushes `results`.
fn exec_call_types(vs: &mut Vec<WasmValType>, p: usize, results: &[WasmValType])
    ensures
        final(vs)@ == pop_types(old(vs)@, p as nat) + results@,
{
    if vs.len() >= p {
        let keep = vs.len() - p;
        vs.truncate(keep);
    } else {
        vs.clear();
    }
    let ghost base = vs@;
    let mut i: usize = 0;
    while i < results.len()
        invariant
            i <= results@.len(),
            vs@ == base + results@.take(i as int),
        decreases results.len() - i,
    {
        vs.push(results[i]);
        proof {
            assert(base + results@.take(i + 1) =~= (base + results@.take(i as int)).push(results@[i as int]));
        }
        i = i + 1;
    }
    proof {
        assert(results@.take(results@.len() as int) =~= results@);
    }
}

/// Reads the `count` labels of a `br_table`: whether one of them lies beyond `depth` blocks.
fn read_labels(reader: &mut Leb128Reader, count: u64, depth: usize) -> (r: Result<bool, CompileErrorKind>)
    ensures
        final(reader).bytes() == old(reader).bytes(),
        match decode_u32s(old(reader).rest(), count as nat) {
            Ok((ls, k)) => r == Ok::<bool, CompileErrorKind>(exists|i: int| 0 <= i < ls.len() && ls[i] >= depth)
                && old(reader).advanced(&*final(reader), k),
            Err(e) => r == Err::<bool, CompileErrorKind>(e),
        },
{
    let ghost s0 = reader.rest();
    let ghost r0 = *reader;
    let _ = reader.position();
    let ghost mut acc: Seq<nat> = Seq::empty();
    let mut beyond = false;
    let mut j: u64 = 0;
    while j < count
        invariant
            j <= count,
            r0 == *old(reader),
            reader.bytes() == r0.bytes(),
            s0 == r0.rest(),
            r0.pos() <= reader.pos() <= reader.bytes().len(),
            acc.len() == j,
            beyond == exists|i: int| 0 <= i < acc.len() && acc[i] >= depth,
            decode_u32s(s0, count as nat) == match decode_u32s(reader.rest(), (count - j) as nat) {
                Ok((vs, k)) => Ok((acc + vs, (reader.pos() - r0.pos() + k) as nat)),
                Err(e) => Err(e),
            },
        decreases count - j,
    {
        let ghost rs = reader.rest();
        let ghost r1 = *reader;
        proof {
            crate::leb128::lemma_decode_unsigned_bounds(rs, 5, 16);
        }
        let v = match reader.read_u32() {
            Ok(v) => v,
            Err(e) => {
                proof {
                    assert(decode_u32s(rs, (count - j) as nat) == Err::<(Seq<nat>, nat), CompileErrorKind>(read_error_kind(e)));
                }
                return Err(CompileErrorKind::from_read_error(e));
            },
        };
        proof {
            let n = decode_u32(rs).unwrap().1;
            r1.lemma_advanced_rest(&*reader, n);
            let c1 = (count - j - 1) as nat;
            assert(decode_u32s(rs, (count - j) as nat) == match decode_u32s(reader.rest(), c1) {
                Ok((vs, k)) => Ok((seq![v as nat].add(vs), n + k)),
                Err(e) => Err(e),
            });
            match decode_u32s(reader.rest(), c1) {
                Ok((vs, k)) => {
                    assert(acc + seq![v as nat].add(vs) =~= acc.push(v as nat) + vs);
                },
                Err(_) => {},
            }
            let old_acc = acc;
            acc = acc.push(v as nat);
            assert forall|i: int| 0 <= i < acc.len() && acc[i] >= depth implies (0 <= i < old_acc.len()
                && old_acc[i] >= depth) || v as usize >= depth by {}
            if v as usize >= depth {
                assert(acc[old_acc.len() as int] >= depth);
            }
            if beyond {
                let w = choose|i: int| 0 <= i < old_acc.len() && old_acc[i] >= depth;
                assert(acc[w] >= depth);
            }
        }
        if v as usize >= depth {
            beyond = true;
        }
        j = j + 1;
    }
    proof {
        assert(acc + Seq::<nat>::empty() =~= acc);
    }
    Ok(beyond)
}

/// Checks a block, branch, return or call instruction at `pos`, whose opcode byte has been
/// read: `true` at the `end` of the body.
#[verifier::rlimit(40)]
fn exec_structured(
    m: WasmMnemonic,
    pos: usize,
    reader: &mut Leb128Reader,
    vs: &mut Vec<WasmValType>,
    bs: &mut Vec<BlockFrame>,
    module: &WasmModule,
    locals: &[WasmValType],
    results: &[WasmValType],
) -> (r: Result<bool, CompileErrorKind>)
    requires
        is_structured(m),
        pos < old(reader).bytes().len(),
        old(reader).pos() == pos + 1,
    ensures
        final(reader).bytes() == old(reader).bytes(),
        match check_structured(old(reader).bytes(), pos as nat, m, old(vs)@, old(bs)@, code_context(*module, locals@, results@)) {
            Check::Next(p, w, b) => r == Ok::<bool, CompileErrorKind>(false) && final(reader).pos() == p
                && final(vs)@ == w && final(bs)@ == b,
            Check::Done => r == Ok::<bool, CompileErrorKind>(true),
            Check::Fail(e) => r == Err::<bool, CompileErrorKind>(e),
        },
{
    let ghost code = reader.bytes();
    let ghost s = code.skip(pos + 1);
    proof {
        assert(reader.rest() =~= s);
    }
    let n = vs.len();
    match m {
        WasmMnemonic::Unreachable | WasmMnemonic::Nop => Ok(false),
        WasmMnemonic::Block | WasmMnemonic::Loop | WasmMnemonic::If => {
            let v = match reader.read_signed() {
                Ok(v) => v,
                Err(e) => {
                    return Err(CompileErrorKind::from_read_error(e));
                },
            };
            let bt = match WasmBlockType::from_i64(v) {
                Ok(bt) => bt,
                Err(e) => {
                    return Err(e);
                },
            };
            if matches!(m, WasmMnemonic::If) {
                if let Err(e) = exec_condition(vs) {
                    return Err(e);
                }
                let height = vs.len();
                bs.push(BlockFrame { kind: BlockKind::If, result: bt.into_type(), height });
            } else {
                let kind = if matches!(m, WasmMnemonic::Loop) {
                    BlockKind::Loop
                } else {
                    BlockKind::Block
                };
                bs.push(BlockFrame { kind, result: bt.into_type(), height: n });
            }
            Ok(false)
        },
        WasmMnemonic::Else => {
            let depth = bs.len();
            if depth == 0 || !matches!(bs[depth - 1].kind, BlockKind::If) {
                return Err(CompileErrorKind::ElseWithoutIf);
            }
            let height = bs[depth - 1].height;
            if n < height {
                return Err(CompileErrorKind::OutOfStack);
            }
            vs.truncate(height);
            Ok(false)
        },
        WasmMnemonic::End => {
            let depth = bs.len();
            if depth > 0 {
                let f = bs[depth - 1];
                if n < f.height {
                    return Err(CompileErrorKind::OutOfStack);
                }
                if let Some(t) = f.result {
                    if n == f.height {
                        return Err(CompileErrorKind::OutOfStack);
                    }
                    if vs[n - 1] != t {
                        return Err(CompileErrorKind::TypeMismatch);
                    }
                }
                vs.truncate(f.height);
                if let Some(t) = f.result {
                    vs.push(t);
                }
                bs.pop();
                Ok(false)
            } else if results.len() > 0 {
                if n == 0 {
                    return Err(CompileErrorKind::OutOfStack);
                }
                if vs[n - 1] != results[0] {
                    return Err(CompileErrorKind::TypeMismatch);
                }
                Ok(true)
            } else if n > 0 {
                Err(CompileErrorKind::InvalidStackLevel)
            } else {
                Ok(true)
            }
        },
        WasmMnemonic::Br | WasmMnemonic::BrIf => {
            let l = match reader.read_u32() {
                Ok(v) => v,
                Err(e) => {
                    return Err(CompileErrorKind::from_read_error(e));
                },
            };
            if l as usize >= bs.len() {
                return Err(CompileErrorKind::OutOfBranch);
            }
            if matches!(m, WasmMnemonic::BrIf) {
                if let Err(e) = exec_condition(vs) {
                    return Err(e);
                }
            }
            Ok(false)
        },
        WasmMnemonic::BrTable => {
            let count = match reader.read_u32() {
                Ok(v) => v,
                Err(e) => {
                    return Err(CompileErrorKind::from_read_error(e));
                },
            };
            proof {
                crate::leb128::lemma_decode_unsigned_bounds(s, 5, 16);
                let k = decode_u32(s).unwrap().1;
                assert(reader.rest() =~= s.skip(k as int));
            }
            let beyond = match read_labels(reader, count as u64 + 1, bs.len()) {
                Ok(b) => b,
                Err(e) => {
                    return Err(e);
                },
            };
            if beyond {
                return Err(CompileErrorKind::OutOfBranch);
            }
            if let Err(e) = exec_condition(vs) {
                return Err(e);
            }
            Ok(false)
        },
        WasmMnemonic::Return => {
            if results.len() > 0 {
                if n == 0 {
                    return Err(CompileErrorKind::OutOfStack);
                }
                if vs[n - 1] != results[0] {
                    return Err(CompileErrorKind::TypeMismatch);
                }
                vs.pop();
            }
            Ok(false)
        },
        WasmMnemonic::Call => {
            let f = match reader.read_u32() {
                Ok(v) => v as usize,
                Err(e) => {
                    return Err(CompileErrorKind::from_read_error(e));
                },
            };
            let functions = module.functions();
            if f >= functions.len() {
                return Err(CompileErrorKind::InvalidData);
            }
            exec_call_types(vs, functions[f].param_types().len(), functions[f].result_types());
            Ok(false)
        },
        _ => {
            let t = match reader.read_u32() {
                Ok(v) => v,
                Err(e) => {
                    return Err(CompileErrorKind::from_read_error(e));
                },
            };
            proof {
                crate::leb128::lemma_decode_unsigned_bounds(s, 5, 16);
                let k = decode_u32(s).unwrap().1;
                assert(reader.rest() =~= s.skip(k as int));
            }
            if reader.read_byte().is_err() {
                return Err(CompileErrorKind::UnexpectedEof);
            }
            if t as usize >= module.type_count() {
                return Err(CompileErrorKind::InvalidData);
            }
            if let Err(e) = exec_condition(vs) {
                return Err(e);
            }
            let func_type = module.type_by_index(crate::wasm::WasmTypeIndex(t));
            exec_call_types(vs, func_type.param_types().len(), func_type.result_types());
            Ok(false)
        },
    }
}

/// Checks an instruction with the `FC` prefix, reading what follows the prefix from `reader`.
fn exec_fc(reader: &mut Leb128Reader, vs: &mut Vec<WasmValType>, module: &WasmModule) -> (r: Result<
    (),
    CompileErrorKind,
>)
    ensures
        final(reader).bytes() == old(reader).bytes(),
        forall|locals: Seq<WasmValType>, results: Seq<WasmValType>|
            match #[trigger] check_fc(old(reader).rest(), old(vs)@, code_context(*module, locals, results)) {
                Ok((k, w)) => r is Ok && old(reader).advanced(&*final(reader), k) && final(vs)@ == w,
                Err(e) => r == Err::<(), CompileErrorKind>(e),
            },
{
    let ghost s = reader.rest();
    let ghost r0 = *reader;
    let n = vs.len();
    let v = match reader.read_u32() {
        Ok(v) => v,
        Err(e) => {
            return Err(CompileErrorKind::from_read_error(e));
        },
    };
    proof {
        crate::leb128::lemma_decode_unsigned_bounds(s, 5, 16);
    }
    if v > 0x0E {
        return Err(CompileErrorKind::InvalidBytecode2(0xFC, v));
    }
    let m = fc_of(v);
    if v < 8 {
        return exec_operands(m, vs);
    }
    if v == 0x0A || v == 0x0B {
        if !has_first_memory(module) {
            return Err(CompileErrorKind::OutOfMemory);
        }
        let memories = module.memories().len();
        let ghost k = decode_u32(s).unwrap().1;
        proof {
            assert(reader.rest() =~= s.skip(k as int));
        }
        let first = match reader.read_unsigned() {
            Ok(x) => x,
            Err(e) => {
                return Err(CompileErrorKind::from_read_error(e));
            },
        };
        if first as usize >= memories || first > usize::MAX as u64 {
            return Err(CompileErrorKind::OutOfMemory);
        }
        if v == 0x0A {
            proof {
                crate::leb128::lemma_decode_unsigned_bounds(s.skip(k as int), 10, 2);
                let k1 = decode_u64(s.skip(k as int)).unwrap().1;
                assert(reader.rest() =~= s.skip((k + k1) as int));
            }
            let second = match reader.read_unsigned() {
                Ok(x) => x,
                Err(e) => {
                    return Err(CompileErrorKind::from_read_error(e));
                },
            };
            if second as usize >= memories || second > usize::MAX as u64 {
                return Err(CompileErrorKind::OutOfMemory);
            }
        }
        if n < 3 {
            return Err(CompileErrorKind::OutOfStack);
        }
        if vs[n - 1] != WasmValType::I32 || vs[n - 2] != WasmValType::I32 || vs[n - 3] != WasmValType::I32 {
            return Err(CompileErrorKind::TypeMismatch);
        }
        vs.truncate(n - 3);
        return Ok(());
    }
    Err(CompileErrorKind::UnsupportedBytecode(m))
}

impl WasmCodeBlock {
    /// Checks the body of function `func_index`, at `file_position` in the file, whose locals
    /// (the parameters first) have `local_types` and whose results have `result_types`, as a
    /// body of `module`, and gives a code block over it to run: the operand types of each
    /// instruction, the blocks, and the locals, globals, functions, types and memories it
    /// names; see `check_body`. The block is a leaf when the body calls no function, and it
    /// knows the largest number of operands on the stack before an instruction.
    pub fn generate(
        func_index: usize,
        file_position: usize,
        code: &[u8],
        local_types: &[WasmValType],
        result_types: &[WasmValType],
        module: &WasmModule,
    ) -> (r: Result<Self, CompileErrorKind>)
        ensures
            match check_body(code@, code_context(*module, local_types@, result_types@)) {
                Ok(()) => r matches Ok(b) && b.code() == code@ && b.pc() == 0 && b.spec_func_index() == func_index
                    && b.spec_file_position() == file_position && b.spec_local_types() == local_types@
                    && b.spec_is_leaf() == !body_calls(code@, code_context(*module, local_types@, result_types@))
                    && b.spec_max_stack() == body_max_stack(code@, code_context(*module, local_types@, result_types@)),
                Err(e) => r matches Err(x) && x == e,
            },
    {
        let ghost ctx = code_context(*module, local_types@, result_types@);
        let mut reader = Leb128Reader::from_slice(code);
        let ghost c = reader.bytes();
        let mut vs: Vec<WasmValType> = Vec::new();
        let mut bs: Vec<BlockFrame> = Vec::new();
        let mut calls = false;
        let mut max_stack: usize = 0;
        loop
            invariant
                reader.bytes() == c,
                c == code@,
                ctx == code_context(*module, local_types@, result_types@),
                reader.pos() <= c.len(),
                check_body(c, ctx) == check_from(c, reader.pos(), vs@, bs@, ctx),
                body_calls(c, ctx) == (calls || calls_from(c, reader.pos(), vs@, bs@, ctx)),
                body_max_stack(c, ctx) == if max_stack > depth_from(c, reader.pos(), vs@, bs@, ctx) {
                    max_stack as nat
                } else {
                    depth_from(c, reader.pos(), vs@, bs@, ctx)
                },
            decreases c.len() - reader.pos(),
        {
            if vs.len() > max_stack {
                max_stack = vs.len();
            }
            let pos = reader.position();
            let b = match reader.read_byte() {
                Ok(b) => b,
                Err(_) => {
                    return Err(CompileErrorKind::UnexpectedEof);
                },
            };
            proof {
                assert(c[pos as int] == b);
                assert(reader.rest() =~= c.skip(pos + 1));
            }
            let ghost vs0 = vs@;
            let ghost bs0 = bs@;
            let ghost calls0 = calls;
            if b == 0x10 || b == 0x11 {
                calls = true;
            }
            if b == 0xFC {
                if let Err(e) = exec_fc(&mut reader, &mut vs, module) {
                    proof {
                        assert(check_fc(c.skip(pos + 1), vs0, ctx) is Err);
                    }
                    return Err(e);
                }
                proof {
                    assert(check_fc(c.skip(pos + 1), vs0, ctx) is Ok);
                }
            } else {
                let m = match WasmMnemonic::from_u8(b) {
                    Some(m) => m,
                    None => {
                        return Err(CompileErrorKind::InvalidBytecode(b));
                    },
                };
                if is_structured_instruction(m) {
                    match exec_structured(m, pos, &mut reader, &mut vs, &mut bs, module, local_types, result_types) {
                        Ok(true) => {
                            return Ok(
                                WasmCodeBlock::of_function(code, func_index, file_position, local_types, !calls, max_stack),
                            );
                        },
                        Ok(false) => {},
                        Err(e) => {
                            return Err(e);
                        },
                    }
                } else {
                    if let Err(e) = exec_plain(m, &mut reader, &mut vs, module, local_types, result_types) {
                        return Err(e);
                    }
                }
            }
            let _ = reader.position();
        }
    }
}

/// Whether `m` opens, closes or leaves a block, or calls
fn is_structured_instruction(m: WasmMnemonic) -> (r: bool)
    ensures
        r == is_structured(m),
{
    matches!(
        m,
        WasmMnemonic::Unreachable | WasmMnemonic::Nop | WasmMnemonic::Block | WasmMnemonic::Loop
            | WasmMnemonic::If | WasmMnemonic::Else | WasmMnemonic::End | WasmMnemonic::Br | WasmMnemonic::BrIf
            | WasmMnemonic::BrTable | WasmMnemonic::Return | WasmMnemonic::Call | WasmMnemonic::CallIndirect
    )
}

} // verus!
