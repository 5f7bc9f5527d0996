//! A straight-line interpreter for the integer instructions of WebAssembly bytecode
use crate::error::WasmRuntimeErrorKind;
use crate::leb128::{decode_i32, decode_i64, decode_u32, decode_u64, Leb128Reader};
use crate::memory::{le_bytes, le_value, page_size, zeros, WasmMemory};
use crate::module::{decode_u32s, WasmFunction, WasmFunctionContent};
use crate::global::WasmGlobal;
use crate::cg::fc_mnemonic;
use crate::opcode::{mnemonic_of_byte, WasmMnemonic};
use crate::value::{value_type, WasmValue};
use crate::wasm::WasmValType;
use vstd::prelude::*;

verus! {

/// A slot of the value stack: the 64 bits that hold an `i32`, `u32`, `i64` or `u64`.
/// A 32-bit value is read from the low half; an `i32` is stored sign-extended and a `u32`
/// zero-extended.
#[derive(Debug, Clone, Copy, PartialEq, Eq, Structural)]
pub struct WasmStackValue {
    pub bits: u64,
}

/// The slot of a boolean: 1 or 0
pub open spec fn sv_bool(v: bool) -> WasmStackValue {
    WasmStackValue {
        bits: if v {
            1
        } else {
            0
        },
    }
}

/// The slot of an `i32`, sign-extended
pub open spec fn sv_i32(v: i32) -> WasmStackValue {
    WasmStackValue { bits: (v as i64) as u64 }
}

/// The slot of a `u32`, zero-extended
pub open spec fn sv_u32(v: u32) -> WasmStackValue {
    WasmStackValue { bits: v as u64 }
}

/// The slot of an `i64`
pub open spec fn sv_i64(v: i64) -> WasmStackValue {
    WasmStackValue { bits: v as u64 }
}

/// The slot of a `u64`
pub open spec fn sv_u64(v: u64) -> WasmStackValue {
    WasmStackValue { bits: v }
}

/// The slot of a typed value; a floating-point value is held by its bits
pub open spec fn sv_of_value(v: WasmValue) -> WasmStackValue {
    match v {
        WasmValue::I32(a) => sv_i64(a as i64),
        WasmValue::I64(a) => sv_i64(a),
        WasmValue::F32(b) => sv_u32(b),
        WasmValue::F64(b) => sv_u64(b),
    }
}

impl WasmStackValue {
    /// The slot of a boolean: 1 or 0
    pub fn bool(v: bool) -> (r: Self)
        ensures
            r == sv_bool(v),
    {
        if v {
            Self::i64(1)
        } else {
            Self::i64(0)
        }
    }

    /// The low half as an `i32`
    pub fn get_i32(&self) -> (r: i32)
        ensures
            r == self.bits as i32,
    {
        self.bits as i32
    }

    /// The low half as a `u32`
    pub fn get_u32(&self) -> (r: u32)
        ensures
            r == self.bits as u32,
    {
        self.bits as u32
    }

    /// The bits as an `i64`
    pub fn get_i64(&self) -> (r: i64)
        ensures
            r == self.bits as i64,
    {
        self.bits as i64
    }

    /// The bits as a `u64`
    pub fn get_u64(&self) -> (r: u64)
        ensures
            r == self.bits,
    {
        self.bits
    }

    /// The slot of an `i32`, sign-extended
    pub fn i32(v: i32) -> (r: Self)
        ensures
            r == sv_i32(v),
    {
        Self { bits: (v as i64) as u64 }
    }

    /// The slot of a `u32`, zero-extended
    pub fn u32(v: u32) -> (r: Self)
        ensures
            r == sv_u32(v),
    {
        Self { bits: v as u64 }
    }

    /// The slot of an `i64`
    pub fn i64(v: i64) -> (r: Self)
        ensures
            r == sv_i64(v),
    {
        Self { bits: v as u64 }
    }

    /// The slot of a `u64`
    pub fn u64(v: u64) -> (r: Self)
        ensures
            r == sv_u64(v),
    {
        Self { bits: v }
    }

    /// The slot of a typed value; a floating-point value is held by its bits.
    pub fn from_value(v: WasmValue) -> (r: Self)
        ensures
            r == sv_of_value(v),
    {
        match v {
            WasmValue::I32(a) => Self::i64(a as i64),
            WasmValue::I64(a) => Self::i64(a),
            WasmValue::F32(b) => Self::u32(b),
            WasmValue::F64(b) => Self::u64(b),
        }
    }
}

/// A value stored in a slot is read back from it: an `i32` or `u32` from the low half, an
/// `i64` or `u64` from all the bits.
pub proof fn lemma_stack_value_roundtrip(a: i32, b: u32, c: i64, d: u64)
    ensures
        sv_i32(a).bits as i32 == a,
        sv_u32(b).bits as u32 == b,
        sv_i64(c).bits as i64 == c,
        sv_u64(d).bits == d,
        sv_i32(a).bits as i64 == a as i64,
{
    assert(((a as i64) as u64) as i32 == a) by (bit_vector);
    assert((b as u64) as u32 == b) by (bit_vector);
    assert((c as u64) as i64 == c) by (bit_vector);
    assert(((a as i64) as u64) as i64 == a as i64) by (bit_vector);
}

/// The number of bits set among the `n` low bits of `x`
pub open spec fn popcount(x: u64, n: nat) -> nat
    decreases n,
{
    if n == 0 {
        0
    } else {
        popcount(x, (n - 1) as nat) + ((x >> ((n - 1) as u64)) & 1u64) as nat
    }
}

/// `a` rotated left by `k` bits, modulo 32
pub open spec fn rotl32(a: u32, k: u32) -> u32 {
    let s = k % 32;
    if s == 0 {
        a
    } else {
        (a << s) | (a >> ((32 - s) as u32))
    }
}

/// `a` rotated right by `k` bits, modulo 32
pub open spec fn rotr32(a: u32, k: u32) -> u32 {
    let s = k % 32;
    if s == 0 {
        a
    } else {
        (a >> s) | (a << ((32 - s) as u32))
    }
}

/// `a` rotated left by `k` bits, modulo 64
pub open spec fn rotl64(a: u64, k: u64) -> u64 {
    let s = k % 64;
    if s == 0 {
        a
    } else {
        (a << s) | (a >> ((64 - s) as u64))
    }
}

/// `a` rotated right by `k` bits, modulo 64
pub open spec fn rotr64(a: u64, k: u64) -> u64 {
    let s = k % 64;
    if s == 0 {
        a
    } else {
        (a >> s) | (a << ((64 - s) as u64))
    }
}

/// Signed division that wraps `MIN / -1` to `MIN`; the divisor is not zero.
pub open spec fn div_s32(a: i32, b: i32) -> i32 {
    match a.checked_div(b) {
        Some(q) => q,
        None => i32::MIN,
    }
}

/// Signed remainder that gives 0 for `MIN % -1`; the divisor is not zero.
pub open spec fn rem_s32(a: i32, b: i32) -> i32 {
    match a.checked_rem(b) {
        Some(q) => q,
        None => 0,
    }
}

/// Signed division that wraps `MIN / -1` to `MIN`; the divisor is not zero.
pub open spec fn div_s64(a: i64, b: i64) -> i64 {
    match a.checked_div(b) {
        Some(q) => q,
        None => i64::MIN,
    }
}

/// Signed remainder that gives 0 for `MIN % -1`; the divisor is not zero.
pub open spec fn rem_s64(a: i64, b: i64) -> i64 {
    match a.checked_rem(b) {
        Some(q) => q,
        None => 0,
    }
}

/// The instructions that replace the top of the stack by a function of it
pub open spec fn is_unop(m: WasmMnemonic) -> bool {
    match m {
        WasmMnemonic::I32Eqz | WasmMnemonic::I64Eqz | WasmMnemonic::I32Clz | WasmMnemonic::I32Ctz
        | WasmMnemonic::I32Popcnt | WasmMnemonic::I64Clz | WasmMnemonic::I64Ctz
        | WasmMnemonic::I64Popcnt | WasmMnemonic::I32WrapI64 | WasmMnemonic::I64ExtendI32S
        | WasmMnemonic::I64ExtendI32U | WasmMnemonic::I32Extend8S | WasmMnemonic::I32Extend16S
        | WasmMnemonic::I64Extend8S | WasmMnemonic::I64Extend16S | WasmMnemonic::I64Extend32S
        | WasmMnemonic::I32ReinterpretF32 | WasmMnemonic::I64ReinterpretF64
        | WasmMnemonic::F32ReinterpretI32 | WasmMnemonic::F64ReinterpretI64 => true,
        _ => false,
    }
}

/// The result of a unary instruction on the top slot `x`
pub open spec fn unop(m: WasmMnemonic, x: WasmStackValue) -> WasmStackValue {
    let v = x.bits;
    match m {
        WasmMnemonic::I32Eqz => sv_bool(v as i32 == 0),
        WasmMnemonic::I64Eqz => sv_bool(v as i64 == 0),
        WasmMnemonic::I32Clz => sv_u32((v as u32).leading_zeros()),
        WasmMnemonic::I32Ctz => sv_u32((v as u32).trailing_zeros()),
        WasmMnemonic::I32Popcnt => sv_u32(popcount((v as u32) as u64, 32) as u32),
        WasmMnemonic::I64Clz => sv_i64(vstd::std_specs::bits::u64_leading_zeros(v) as i64),
        WasmMnemonic::I64Ctz => sv_i64(v.trailing_zeros() as i64),
        WasmMnemonic::I64Popcnt => sv_i64(popcount(v, 64) as i64),
        WasmMnemonic::I64ExtendI32S => sv_i64((v as i32) as i64),
        WasmMnemonic::I64ExtendI32U => sv_u64((v as u32) as u64),
        WasmMnemonic::I32Extend8S => sv_i32((v as i8) as i32),
        WasmMnemonic::I32Extend16S => sv_i32((v as i16) as i32),
        WasmMnemonic::I64Extend8S => sv_i64((v as i8) as i64),
        WasmMnemonic::I64Extend16S => sv_i64((v as i16) as i64),
        WasmMnemonic::I64Extend32S => sv_i64((v as i32) as i64),
        _ => x,
    }
}

/// The instructions that replace the two top slots by a function of them
pub open spec fn is_binop(m: WasmMnemonic) -> bool {
    match m {
        WasmMnemonic::I32Eq | WasmMnemonic::I32Ne | WasmMnemonic::I32LtS | WasmMnemonic::I32LtU
        | WasmMnemonic::I32LeS | WasmMnemonic::I32LeU | WasmMnemonic::I32GtS | WasmMnemonic::I32GtU
        | WasmMnemonic::I32GeS | WasmMnemonic::I32GeU | WasmMnemonic::I64Eq | WasmMnemonic::I64Ne
        | WasmMnemonic::I64LtS | WasmMnemonic::I64LtU | WasmMnemonic::I64LeS | WasmMnemonic::I64LeU
        | WasmMnemonic::I64GtS | WasmMnemonic::I64GtU | WasmMnemonic::I64GeS | WasmMnemonic::I64GeU
        | WasmMnemonic::I32Add | WasmMnemonic::I32Sub | WasmMnemonic::I32Mul | WasmMnemonic::I32DivS
        | WasmMnemonic::I32DivU | WasmMnemonic::I32RemS | WasmMnemonic::I32RemU | WasmMnemonic::I32And
        | WasmMnemonic::I32Or | WasmMnemonic::I32Xor | WasmMnemonic::I32Shl | WasmMnemonic::I32ShrS
        | WasmMnemonic::I32ShrU | WasmMnemonic::I32Rotl | WasmMnemonic::I32Rotr | WasmMnemonic::I64Add
        | WasmMnemonic::I64Sub | WasmMnemonic::I64Mul | WasmMnemonic::I64DivS | WasmMnemonic::I64DivU
        | WasmMnemonic::I64RemS | WasmMnemonic::I64RemU | WasmMnemonic::I64And | WasmMnemonic::I64Or
        | WasmMnemonic::I64Xor | WasmMnemonic::I64Shl | WasmMnemonic::I64ShrS | WasmMnemonic::I64ShrU
        | WasmMnemonic::I64Rotl | WasmMnemonic::I64Rotr => true,
        _ => false,
    }
}

/// The result of a binary instruction on the slots `x` (pushed first) and `y`: a slot, or
/// `DivideByZero` for a division or remainder by zero. Shift counts are taken modulo the width.
pub open spec fn binop(m: WasmMnemonic, x: WasmStackValue, y: WasmStackValue) -> Result<
    WasmStackValue,
    WasmRuntimeErrorKind,
> {
    let (a32, b32) = (x.bits as i32, y.bits as i32);
    let (ua32, ub32) = (x.bits as u32, y.bits as u32);
    let (a64, b64) = (x.bits as i64, y.bits as i64);
    let (ua64, ub64) = (x.bits, y.bits);
    match m {
        WasmMnemonic::I32Eq => Ok(sv_bool(a32 == b32)),
        WasmMnemonic::I32Ne => Ok(sv_bool(a32 != b32)),
        WasmMnemonic::I32LtS => Ok(sv_bool(a32 < b32)),
        WasmMnemonic::I32LtU => Ok(sv_bool(ua32 < ub32)),
        WasmMnemonic::I32LeS => Ok(sv_bool(a32 <= b32)),
        WasmMnemonic::I32LeU => Ok(sv_bool(ua32 <= ub32)),
        WasmMnemonic::I32GtS => Ok(sv_bool(a32 > b32)),
        WasmMnemonic::I32GtU => Ok(sv_bool(ua32 > ub32)),
        WasmMnemonic::I32GeS => Ok(sv_bool(a32 >= b32)),
        WasmMnemonic::I32GeU => Ok(sv_bool(ua32 >= ub32)),
        WasmMnemonic::I64Eq => Ok(sv_bool(a64 == b64)),
        WasmMnemonic::I64Ne => Ok(sv_bool(a64 != b64)),
        WasmMnemonic::I64LtS => Ok(sv_bool(a64 < b64)),
        WasmMnemonic::I64LtU => Ok(sv_bool(ua64 < ub64)),
        WasmMnemonic::I64LeS => Ok(sv_bool(a64 <= b64)),
        WasmMnemonic::I64LeU => Ok(sv_bool(ua64 <= ub64)),
        WasmMnemonic::I64GtS => Ok(sv_bool(a64 > b64)),
        WasmMnemonic::I64GtU => Ok(sv_bool(ua64 > ub64)),
        WasmMnemonic::I64GeS => Ok(sv_bool(a64 >= b64)),
        WasmMnemonic::I64GeU => Ok(sv_bool(ua64 >= ub64)),
        WasmMnemonic::I32Add => Ok(sv_u32(((ua32 + ub32) % 0x1_0000_0000) as u32)),
        WasmMnemonic::I32Sub => Ok(sv_u32(((ua32 - ub32) % 0x1_0000_0000) as u32)),
        WasmMnemonic::I32Mul => Ok(sv_u32(((ua32 * ub32) % 0x1_0000_0000) as u32)),
        WasmMnemonic::I32DivS => if b32 == 0 {
            Err(WasmRuntimeErrorKind::DivideByZero)
        } else {
            Ok(sv_i32(div_s32(a32, b32)))
        },
        WasmMnemonic::I32DivU => if ub32 == 0 {
            Err(WasmRuntimeErrorKind::DivideByZero)
        } else {
            Ok(sv_u32(ua32 / ub32))
        },
        WasmMnemonic::I32RemS => if b32 == 0 {
            Err(WasmRuntimeErrorKind::DivideByZero)
        } else {
            Ok(sv_i32(rem_s32(a32, b32)))
        },
        WasmMnemonic::I32RemU => if ub32 == 0 {
            Err(WasmRuntimeErrorKind::DivideByZero)
        } else {
            Ok(sv_u32(ua32 % ub32))
        },
        WasmMnemonic::I32And => Ok(sv_u32(ua32 & ub32)),
        WasmMnemonic::I32Or => Ok(sv_u32(ua32 | ub32)),
        WasmMnemonic::I32Xor => Ok(sv_u32(ua32 ^ ub32)),
        WasmMnemonic::I32Shl => Ok(sv_u32(ua32 << (ub32 % 32))),
        WasmMnemonic::I32ShrS => Ok(sv_i32(a32 >> (ub32 % 32))),
        WasmMnemonic::I32ShrU => Ok(sv_u32(ua32 >> (ub32 % 32))),
        WasmMnemonic::I32Rotl => Ok(sv_u32(rotl32(ua32, ub32))),
        WasmMnemonic::I32Rotr => Ok(sv_u32(rotr32(ua32, ub32))),
        WasmMnemonic::I64Add => Ok(sv_u64(((ua64 + ub64) % 0x1_0000_0000_0000_0000) as u64)),
        WasmMnemonic::I64Sub => Ok(sv_u64(((ua64 - ub64) % 0x1_0000_0000_0000_0000) as u64)),
        WasmMnemonic::I64Mul => Ok(sv_u64(((ua64 * ub64) % 0x1_0000_0000_0000_0000) as u64)),
        WasmMnemonic::I64DivS => if b64 == 0 {
            Err(WasmRuntimeErrorKind::DivideByZero)
        } else {
            Ok(sv_i64(div_s64(a64, b64)))
        },
        WasmMnemonic::I64DivU => if ub64 == 0 {
            Err(WasmRuntimeErrorKind::DivideByZero)
        } else {
            Ok(sv_u64(ua64 / ub64))
        },
        WasmMnemonic::I64RemS => if b64 == 0 {
            Err(WasmRuntimeErrorKind::DivideByZero)
        } else {
            Ok(sv_i64(rem_s64(a64, b64)))
        },
        WasmMnemonic::I64RemU => if ub64 == 0 {
            Err(WasmRuntimeErrorKind::DivideByZero)
        } else {
            Ok(sv_u64(ua64 % ub64))
        },
        WasmMnemonic::I64And => Ok(sv_u64(ua64 & ub64)),
        WasmMnemonic::I64Or => Ok(sv_u64(ua64 | ub64)),
        WasmMnemonic::I64Xor => Ok(sv_u64(ua64 ^ ub64)),
        WasmMnemonic::I64Shl => Ok(sv_u64(ua64 << (ub64 % 64))),
        WasmMnemonic::I64ShrS => Ok(sv_i64(a64 >> (ub64 % 64))),
        WasmMnemonic::I64ShrU => Ok(sv_u64(ua64 >> (ub64 % 64))),
        WasmMnemonic::I64Rotl => Ok(sv_u64(rotl64(ua64, ub64))),
        WasmMnemonic::I64Rotr => Ok(sv_u64(rotr64(ua64, ub64))),
        _ => Ok(x),
    }
}

/// A block being run: the number of values it gives, the height of the stack at its start,
/// where a branch to it goes, and the position of its `end`
#[derive(Debug, Clone, Copy, PartialEq, Eq, Structural)]
pub struct Label {
    pub arity: usize,
    pub height: usize,
    pub target: usize,
    pub end: usize,
}

/// Whether `m` reads or writes memory, with a memory argument as its immediate
pub open spec fn is_memory_access(m: WasmMnemonic) -> bool {
    match m {
        WasmMnemonic::I32Load | WasmMnemonic::I64Load | WasmMnemonic::F32Load | WasmMnemonic::F64Load
        | WasmMnemonic::I32Load8S | WasmMnemonic::I32Load8U | WasmMnemonic::I32Load16S
        | WasmMnemonic::I32Load16U | WasmMnemonic::I64Load8S | WasmMnemonic::I64Load8U
        | WasmMnemonic::I64Load16S | WasmMnemonic::I64Load16U | WasmMnemonic::I64Load32S
        | WasmMnemonic::I64Load32U | WasmMnemonic::I32Store | WasmMnemonic::I64Store
        | WasmMnemonic::F32Store | WasmMnemonic::F64Store | WasmMnemonic::I32Store8
        | WasmMnemonic::I32Store16 | WasmMnemonic::I64Store8 | WasmMnemonic::I64Store16
        | WasmMnemonic::I64Store32 => true,
        _ => false,
    }
}

/// The size of an unsigned LEB128 number of at most 32 bits
pub open spec fn u32_len(s: Seq<u8>) -> Option<nat> {
    match decode_u32(s) {
        Ok((_, n)) => Some(n),
        Err(_) => None,
    }
}

/// The size of the immediate of instruction `m`, which `s` starts with
pub open spec fn imm_len(m: WasmMnemonic, s: Seq<u8>) -> Option<nat> {
    match m {
        WasmMnemonic::Block | WasmMnemonic::Loop | WasmMnemonic::If | WasmMnemonic::I64Const => match decode_i64(s) {
            Ok((_, n)) => Some(n),
            Err(_) => None,
        },
        WasmMnemonic::LocalGet | WasmMnemonic::LocalSet | WasmMnemonic::LocalTee => match decode_u64(s) {
            Ok((_, n)) => Some(n),
            Err(_) => None,
        },
        WasmMnemonic::Br | WasmMnemonic::BrIf | WasmMnemonic::Call | WasmMnemonic::GlobalGet
        | WasmMnemonic::GlobalSet => u32_len(s),
        WasmMnemonic::BrTable => match decode_u32(s) {
            Err(_) => None,
            Ok((count, n)) => match decode_u32s(s.skip(n as int), count + 1) {
                Ok((_, k)) => Some(n + k),
                Err(_) => None,
            },
        },
        WasmMnemonic::CallIndirect => match decode_u32(s) {
            Ok((_, n)) => if n < s.len() {
                Some(n + 1)
            } else {
                None
            },
            Err(_) => None,
        },
        WasmMnemonic::MemorySize | WasmMnemonic::MemoryGrow => if s.len() >= 1 {
            Some(1)
        } else {
            None
        },
        WasmMnemonic::I32Const => match decode_i32(s) {
            Ok((_, n)) => Some(n),
            Err(_) => None,
        },
        WasmMnemonic::F32Const => if s.len() >= 4 {
            Some(4)
        } else {
            None
        },
        WasmMnemonic::F64Const => if s.len() >= 8 {
            Some(8)
        } else {
            None
        },
        _ => if is_memory_access(m) {
            match decode_u32(s) {
                Ok((_, n1)) => match decode_u32(s.skip(n1 as int)) {
                    Ok((_, n2)) => Some(n1 + n2),
                    Err(_) => None,
                },
                Err(_) => None,
            }
        } else {
            Some(0)
        },
    }
}

/// The size of what follows the `FC` prefix of the conversions, `memory.copy` and
/// `memory.fill`; none for the others or when it does not decode
pub open spec fn fc_len(s: Seq<u8>) -> Option<nat> {
    match decode_u32(s) {
        Err(_) => None,
        Ok((v, k)) => if v < 8 {
            Some(k)
        } else if v == 0x0A || v == 0x0B {
            match decode_u64(s.skip(k as int)) {
                Err(_) => None,
                Ok((_, k1)) => if v == 0x0B {
                    Some(k + k1)
                } else {
                    match decode_u64(s.skip((k + k1) as int)) {
                        Err(_) => None,
                        Ok((_, k2)) => Some(k + k1 + k2),
                    }
                },
            }
        } else {
            None
        },
    }
}

/// The matching `end` of a block whose body starts at `pos`, `depth` blocks deep, and the
/// position of its `else` if it has one: none when an instruction does not decode before it.
pub open spec fn scan_end(code: Seq<u8>, pos: nat, depth: nat, else_at: Option<nat>) -> Option<(nat, Option<nat>)>
    decreases code.len() - pos,
{
    if pos >= code.len() {
        None
    } else if code[pos as int] == 0xFC {
        match fc_len(code.skip((pos + 1) as int)) {
            None => None,
            Some(n) => if pos + 1 + n > code.len() {
                None
            } else {
                scan_end(code, pos + 1 + n, depth, else_at)
            },
        }
    } else {
        match mnemonic_of_byte(code[pos as int]) {
            None => None,
            Some(m) => if m is End {
                if depth == 0 {
                    Some((pos, else_at))
                } else {
                    scan_end(code, pos + 1, (depth - 1) as nat, else_at)
                }
            } else if m is Else && depth == 0 {
                scan_end(code, pos + 1, depth, Some(pos))
            } else {
                match imm_len(m, code.skip((pos + 1) as int)) {
                    None => None,
                    Some(n) => if pos + 1 + n > code.len() {
                        None
                    } else {
                        scan_end(
                            code,
                            pos + 1 + n,
                            if m is Block || m is Loop || m is If {
                                depth + 1
                            } else {
                                depth
                            },
                            else_at,
                        )
                    },
                }
            },
        }
    }
}

/// The number of values a block type gives: 0 for the empty type, 1 for a value type
pub open spec fn block_arity(s: Seq<u8>) -> Option<nat> {
    if s.len() == 0 {
        None
    } else if s[0] == 0x40 {
        Some(0)
    } else if crate::wasm::val_type_of_code(s[0]) is Some {
        Some(1)
    } else {
        None
    }
}

/// The stack after leaving block `lb`: the slots below it, then the values it gives
pub open spec fn keep(stack: Seq<WasmStackValue>, lb: Label) -> Seq<WasmStackValue> {
    stack.take(lb.height as int) + stack.skip(stack.len() - lb.arity)
}

/// Where an error happened: the function (none for the function of the run itself), the
/// position of the instruction in its body, and the instruction
#[derive(Clone, Copy)]
pub struct TrapSite {
    pub func: Option<usize>,
    pub pos: usize,
    pub mnemonic: WasmMnemonic,
}

/// An error of a run, and the instruction that raised it, if one did
#[derive(Clone, Copy)]
pub struct Fault {
    pub kind: WasmRuntimeErrorKind,
    pub site: Option<TrapSite>,
}

/// What one instruction does
pub enum Step {
    /// Go on at a position with new locals, stack and blocks
    Next(nat, Seq<WasmStackValue>, Seq<WasmStackValue>, Seq<Label>),
    /// The run stops with this stack: `end` or `return` of the function, or a branch out of it
    Finish(Seq<WasmStackValue>),
    /// The instruction fails with an error
    Trap(WasmRuntimeErrorKind),
    /// A function that the instruction calls fails with this error
    Fault(Fault),
    /// The instruction cannot run: too few slots on the stack, no such local or no such block
    Stuck,
}

/// How a run ends
pub enum Outcome {
    /// At the end of the function, with this stack
    Done(Seq<WasmStackValue>),
    /// With an error
    Trap(Fault),
    /// On an instruction that cannot run
    Stuck,
}

/// The instruction at `pos` as an error names it: an `FC` instruction by its second opcode,
/// `nop` for a byte that is no instruction
pub open spec fn site_mnemonic(code: Seq<u8>, pos: nat) -> WasmMnemonic {
    if code[pos as int] == 0xFC {
        match decode_u32(code.skip((pos + 1) as int)) {
            Ok((v, _)) => fc_mnemonic(v),
            Err(_) => WasmMnemonic::Nop,
        }
    } else {
        match mnemonic_of_byte(code[pos as int]) {
            Some(m) => m,
            None => WasmMnemonic::Nop,
        }
    }
}

/// An error of the instruction at `pos` of the running function
pub open spec fn fault_at(e: WasmRuntimeErrorKind, code: Seq<u8>, pos: nat) -> Fault {
    Fault { kind: e, site: Some(TrapSite { func: None, pos: pos as usize, mnemonic: site_mnemonic(code, pos) }) }
}

/// An error without an instruction that raised it
pub open spec fn bare_fault(e: WasmRuntimeErrorKind) -> Fault {
    Fault { kind: e, site: None }
}

/// An error of a called function whose index is `f`, as its caller sees it: one of the
/// function that ran is one of `f`
pub open spec fn in_callee(flt: Fault, f: nat) -> Fault {
    match flt.site {
        Some(s) => if s.func is None {
            Fault { site: Some(TrapSite { func: Some(f as usize), ..s }), ..flt }
        } else {
            flt
        },
        None => flt,
    }
}

/// A branch to the block `l` levels out: it leaves that block and the ones inside it, keeps
/// the values it gives, and goes on where a branch to it goes; `l` equal to the number of
/// blocks leaves the function.
pub open spec fn branch(
    l: nat,
    locals: Seq<WasmStackValue>,
    stack: Seq<WasmStackValue>,
    labels: Seq<Label>,
) -> Step {
    if l < labels.len() {
        let lb = labels[labels.len() - 1 - l];
        if stack.len() < lb.height + lb.arity {
            Step::Stuck
        } else {
            Step::Next(lb.target as nat, locals, keep(stack, lb), labels.take(labels.len() - 1 - l))
        }
    } else if l == labels.len() {
        Step::Finish(stack)
    } else {
        Step::Stuck
    }
}

/// The instructions that steer the run: blocks, branches, `return`, `nop` and `unreachable`
pub open spec fn is_control(m: WasmMnemonic) -> bool {
    match m {
        WasmMnemonic::Unreachable | WasmMnemonic::Nop | WasmMnemonic::Return | WasmMnemonic::Block
        | WasmMnemonic::Loop | WasmMnemonic::If | WasmMnemonic::Else | WasmMnemonic::End
        | WasmMnemonic::Br | WasmMnemonic::BrIf | WasmMnemonic::BrTable => true,
        _ => false,
    }
}

/// What the control instruction `m` at `pos` does
pub open spec fn control_step(
    code: Seq<u8>,
    pos: nat,
    m: WasmMnemonic,
    locals: Seq<WasmStackValue>,
    stack: Seq<WasmStackValue>,
    labels: Seq<Label>,
) -> Step {
    let n = stack.len();
    let imm = code.skip((pos + 1) as int);
    match m {
        WasmMnemonic::Nop => Step::Next(pos + 1, locals, stack, labels),
        WasmMnemonic::Unreachable => Step::Trap(WasmRuntimeErrorKind::Unreachable),
        WasmMnemonic::Return => Step::Finish(stack),
        WasmMnemonic::Block | WasmMnemonic::Loop | WasmMnemonic::If => match block_arity(imm) {
            None => Step::Trap(WasmRuntimeErrorKind::NotSupported),
            Some(a) => match scan_end(code, pos + 2, 0, None) {
                None => Step::Trap(WasmRuntimeErrorKind::NotSupported),
                Some((e, el)) => if m is Loop {
                    Step::Next(
                        pos + 2,
                        locals,
                        stack,
                        labels.push(Label { arity: 0, height: n as usize, target: pos as usize, end: e as usize }),
                    )
                } else if m is Block {
                    Step::Next(
                        pos + 2,
                        locals,
                        stack,
                        labels.push(
                            Label { arity: a as usize, height: n as usize, target: (e + 1) as usize, end: e as usize },
                        ),
                    )
                } else if n == 0 {
                    Step::Stuck
                } else {
                    let lb = Label {
                        arity: a as usize,
                        height: (n - 1) as usize,
                        target: (e + 1) as usize,
                        end: e as usize,
                    };
                    let start = if stack.last().bits as i32 != 0 {
                        pos + 2
                    } else {
                        match el {
                            Some(x) => x + 1,
                            None => e,
                        }
                    };
                    Step::Next(start, locals, stack.drop_last(), labels.push(lb))
                },
            },
        },
        WasmMnemonic::Else => if labels.len() == 0 {
            Step::Stuck
        } else {
            Step::Next(labels.last().end as nat, locals, stack, labels)
        },
        WasmMnemonic::End => if labels.len() == 0 {
            Step::Finish(stack)
        } else {
            let lb = labels.last();
            if n < lb.height + lb.arity {
                Step::Stuck
            } else {
                Step::Next(pos + 1, locals, keep(stack, lb), labels.drop_last())
            }
        },
        WasmMnemonic::Br => match decode_u32(imm) {
            Err(_) => Step::Trap(WasmRuntimeErrorKind::InternalInconsistency),
            Ok((l, _)) => branch(l, locals, stack, labels),
        },
        WasmMnemonic::BrIf => match decode_u32(imm) {
            Err(_) => Step::Trap(WasmRuntimeErrorKind::InternalInconsistency),
            Ok((l, k)) => if n == 0 {
                Step::Stuck
            } else if stack.last().bits as i32 != 0 {
                branch(l, locals, stack.drop_last(), labels)
            } else {
                Step::Next(pos + 1 + k, locals, stack.drop_last(), labels)
            },
        },
        WasmMnemonic::BrTable => match decode_u32(imm) {
            Err(_) => Step::Trap(WasmRuntimeErrorKind::InternalInconsistency),
            Ok((count, k)) => match decode_u32s(imm.skip(k as int), count + 1) {
                Err(_) => Step::Trap(WasmRuntimeErrorKind::InternalInconsistency),
                Ok((ls, _)) => if n == 0 {
                    Step::Stuck
                } else {
                    let index = stack.last().bits as u32;
                    let l = if index < count {
                        ls[index as int]
                    } else {
                        ls[count as int]
                    };
                    branch(l, locals, stack.drop_last(), labels)
                },
            },
        },
        _ => Step::Trap(WasmRuntimeErrorKind::NotSupported),
    }
}

/// What the instruction `m` at `pos` does when it is no control instruction: an operator on
/// the stack, a local, a constant, `drop` or `select`
pub open spec fn plain_step(
    code: Seq<u8>,
    pos: nat,
    m: WasmMnemonic,
    locals: Seq<WasmStackValue>,
    stack: Seq<WasmStackValue>,
    labels: Seq<Label>,
) -> Step {
    let n = stack.len();
    let imm = code.skip((pos + 1) as int);
    if is_unop(m) {
        if n == 0 {
            Step::Stuck
        } else {
            Step::Next(pos + 1, locals, stack.drop_last().push(unop(m, stack.last())), labels)
        }
    } else if is_binop(m) {
        if n < 2 {
            Step::Stuck
        } else {
            match binop(m, stack[n - 2], stack[n - 1]) {
                Ok(v) => Step::Next(pos + 1, locals, stack.take(n - 2).push(v), labels),
                Err(e) => Step::Trap(e),
            }
        }
    } else {
        match m {
            WasmMnemonic::Drop => Step::Next(
                pos + 1,
                locals,
                if n == 0 {
                    stack
                } else {
                    stack.drop_last()
                },
                labels,
            ),
            WasmMnemonic::Select => if n < 3 {
                Step::Stuck
            } else {
                let c = if stack[n - 1].bits as i32 != 0 {
                    stack[n - 3]
                } else {
                    stack[n - 2]
                };
                Step::Next(pos + 1, locals, stack.take(n - 3).push(c), labels)
            },
            WasmMnemonic::LocalGet | WasmMnemonic::LocalSet | WasmMnemonic::LocalTee => match decode_u64(imm) {
                Err(_) => Step::Trap(WasmRuntimeErrorKind::InternalInconsistency),
                Ok((v, k)) => {
                    let i = (v as u64) as usize;
                    if i >= locals.len() {
                        Step::Stuck
                    } else if m is LocalGet {
                        Step::Next(pos + 1 + k, locals, stack.push(locals[i as int]), labels)
                    } else if n == 0 {
                        Step::Stuck
                    } else if m is LocalSet {
                        Step::Next(pos + 1 + k, locals.update(i as int, stack.last()), stack.drop_last(), labels)
                    } else {
                        Step::Next(pos + 1 + k, locals.update(i as int, stack.last()), stack, labels)
                    }
                },
            },
            WasmMnemonic::I32Const => match decode_i64(imm) {
                Err(_) => Step::Trap(WasmRuntimeErrorKind::InternalInconsistency),
                Ok((v, k)) => Step::Next(pos + 1 + k, locals, stack.push(sv_i32((v as i64) as i32)), labels),
            },
            WasmMnemonic::I64Const => match decode_i64(imm) {
                Err(_) => Step::Trap(WasmRuntimeErrorKind::InternalInconsistency),
                Ok((v, k)) => Step::Next(pos + 1 + k, locals, stack.push(sv_i64(v as i64)), labels),
            },
            WasmMnemonic::F32Const => if imm.len() < 4 {
                Step::Trap(WasmRuntimeErrorKind::InternalInconsistency)
            } else {
                Step::Next(pos + 5, locals, stack.push(sv_u64(le_value(imm.take(4)) as u64)), labels)
            },
            WasmMnemonic::F64Const => if imm.len() < 8 {
                Step::Trap(WasmRuntimeErrorKind::InternalInconsistency)
            } else {
                Step::Next(pos + 9, locals, stack.push(sv_u64(le_value(imm.take(8)) as u64)), labels)
            },
            _ => Step::Trap(WasmRuntimeErrorKind::NotSupported),
        }
    }
}

/// What the memory and the globals hold during a run: the bytes of the memory, its number of
/// pages and the most pages it may have, and for each global its bits, whether it may be
/// written and its type
pub struct StoreState {
    pub memory: Seq<u8>,
    pub pages: nat,
    pub max_pages: nat,
    pub globals: Seq<(u64, bool, WasmValType)>,
}

/// The integer loads
pub open spec fn is_load(m: WasmMnemonic) -> bool {
    match m {
        WasmMnemonic::I32Load | WasmMnemonic::I64Load | WasmMnemonic::I32Load8S | WasmMnemonic::I32Load8U
        | WasmMnemonic::I32Load16S | WasmMnemonic::I32Load16U | WasmMnemonic::I64Load8S
        | WasmMnemonic::I64Load8U | WasmMnemonic::I64Load16S | WasmMnemonic::I64Load16U
        | WasmMnemonic::I64Load32S | WasmMnemonic::I64Load32U | WasmMnemonic::F32Load
        | WasmMnemonic::F64Load => true,
        _ => false,
    }
}

/// The stores
pub open spec fn is_store(m: WasmMnemonic) -> bool {
    match m {
        WasmMnemonic::I32Store | WasmMnemonic::I64Store | WasmMnemonic::I32Store8
        | WasmMnemonic::I32Store16 | WasmMnemonic::I64Store8 | WasmMnemonic::I64Store16
        | WasmMnemonic::I64Store32 | WasmMnemonic::F32Store | WasmMnemonic::F64Store => true,
        _ => false,
    }
}

/// The number of bytes a load or a store reads or writes
pub open spec fn access_width(m: WasmMnemonic) -> nat {
    match m {
        WasmMnemonic::I64Load | WasmMnemonic::I64Store | WasmMnemonic::F64Load
        | WasmMnemonic::F64Store => 8,
        WasmMnemonic::I32Load8S | WasmMnemonic::I32Load8U | WasmMnemonic::I64Load8S
        | WasmMnemonic::I64Load8U | WasmMnemonic::I32Store8 | WasmMnemonic::I64Store8 => 1,
        WasmMnemonic::I32Load16S | WasmMnemonic::I32Load16U | WasmMnemonic::I64Load16S
        | WasmMnemonic::I64Load16U | WasmMnemonic::I32Store16 | WasmMnemonic::I64Store16 => 2,
        _ => 4,
    }
}

/// The slot a load gives for the little-endian value `v` it read: sign-extended for the
/// signed loads, zero-extended otherwise
pub open spec fn loaded(m: WasmMnemonic, v: nat) -> WasmStackValue {
    match m {
        WasmMnemonic::I32Load8S => sv_i32(((v as u8) as i8) as i32),
        WasmMnemonic::I32Load16S => sv_i32(((v as u16) as i16) as i32),
        WasmMnemonic::I64Load8S => sv_i64(((v as u8) as i8) as i64),
        WasmMnemonic::I64Load16S => sv_i64(((v as u16) as i16) as i64),
        WasmMnemonic::I64Load32S => sv_i64(((v as u32) as i32) as i64),
        _ => sv_u64(v as u64),
    }
}

/// The instructions that read or write the memory or the globals
pub open spec fn is_state_op(m: WasmMnemonic) -> bool {
    is_load(m) || is_store(m) || m is GlobalGet || m is GlobalSet || m is MemorySize || m is MemoryGrow
}

/// What the memory or global instruction `m` at `pos` does, and the store after it. A load or
/// a store past the end of the memory gives `OutOfBounds`; `memory.grow` gives the former number
/// of pages, or `u32::MAX` when the memory would exceed its limit.
pub open spec fn state_step(
    code: Seq<u8>,
    pos: nat,
    m: WasmMnemonic,
    locals: Seq<WasmStackValue>,
    stack: Seq<WasmStackValue>,
    labels: Seq<Label>,
    st: StoreState,
) -> (Step, StoreState) {
    let n = stack.len();
    let imm = code.skip((pos + 1) as int);
    if is_load(m) || is_store(m) {
        match decode_u32(imm) {
            Err(_) => (Step::Trap(WasmRuntimeErrorKind::InternalInconsistency), st),
            Ok((_, k1)) => match decode_u32(imm.skip(k1 as int)) {
                Err(_) => (Step::Trap(WasmRuntimeErrorKind::InternalInconsistency), st),
                Ok((offset, k2)) => {
                    let next = pos + 1 + k1 + k2;
                    let w = access_width(m);
                    if is_load(m) {
                        if n == 0 {
                            (Step::Stuck, st)
                        } else {
                            let ea = offset + (stack.last().bits as u32);
                            if ea + w > st.memory.len() {
                                (Step::Trap(WasmRuntimeErrorKind::OutOfBounds), st)
                            } else {
                                let v = le_value(st.memory.subrange(ea, ea + w));
                                (Step::Next(next, locals, stack.drop_last().push(loaded(m, v)), labels), st)
                            }
                        }
                    } else if n < 2 {
                        (Step::Stuck, st)
                    } else {
                        let ea = offset + (stack[n - 2].bits as u32);
                        if ea + w > st.memory.len() {
                            (Step::Trap(WasmRuntimeErrorKind::OutOfBounds), st)
                        } else {
                            let bytes = st.memory.subrange(0, ea) + le_bytes(stack[n - 1].bits as nat, w)
                                + st.memory.subrange(ea + w, st.memory.len() as int);
                            (Step::Next(next, locals, stack.take(n - 2), labels), StoreState { memory: bytes, ..st })
                        }
                    }
                },
            },
        }
    } else if m is GlobalGet || m is GlobalSet {
        match decode_u32(imm) {
            Err(_) => (Step::Trap(WasmRuntimeErrorKind::InternalInconsistency), st),
            Ok((i, k)) => if i >= st.globals.len() {
                (Step::Stuck, st)
            } else if m is GlobalGet {
                (Step::Next(pos + 1 + k, locals, stack.push(WasmStackValue { bits: st.globals[i as int].0 }), labels), st)
            } else if !st.globals[i as int].1 || n == 0 {
                (Step::Stuck, st)
            } else {
                (
                    Step::Next(pos + 1 + k, locals, stack.drop_last(), labels),
                    StoreState { globals: st.globals.update(i as int, (stack.last().bits, true, st.globals[i as int].2)), ..st },
                )
            },
        }
    } else if imm.len() == 0 {
        (Step::Trap(WasmRuntimeErrorKind::InternalInconsistency), st)
    } else if m is MemorySize {
        (Step::Next(pos + 2, locals, stack.push(sv_i32(st.pages as i32)), labels), st)
    } else if n == 0 {
        (Step::Stuck, st)
    } else {
        let delta = stack.last().bits as u32;
        let rest = stack.drop_last();
        if delta == 0 {
            (Step::Next(pos + 2, locals, rest.push(sv_u32(st.pages as u32)), labels), st)
        } else if st.pages + delta > st.max_pages {
            (Step::Next(pos + 2, locals, rest.push(sv_u32(u32::MAX)), labels), st)
        } else {
            (
                Step::Next(pos + 2, locals, rest.push(sv_u32(st.pages as u32)), labels),
                StoreState {
                    memory: st.memory + zeros((delta * page_size()) as nat),
                    pages: (st.pages + delta) as nat,
                    ..st
                },
            )
        }
    }
}

/// The instruction at `pos`, whose opcode byte is `code[pos]` and whose immediate follows it,
/// and the store after it. A truncated or malformed immediate gives `InternalInconsistency`; an
/// instruction outside the supported subset, or a block whose end does not decode, gives
/// `NotSupported`.
pub open spec fn step(
    code: Seq<u8>,
    pos: nat,
    locals: Seq<WasmStackValue>,
    stack: Seq<WasmStackValue>,
    labels: Seq<Label>,
    st: StoreState,
) -> (Step, StoreState) {
    if code[pos as int] == 0xFC {
        bulk_step(code, pos, locals, stack, labels, st)
    } else {
        match mnemonic_of_byte(code[pos as int]) {
        None => (Step::Trap(WasmRuntimeErrorKind::NotSupported), st),
        Some(m) => if is_control(m) {
            (control_step(code, pos, m, locals, stack, labels), st)
        } else if is_state_op(m) {
            state_step(code, pos, m, locals, stack, labels, st)
        } else {
            (plain_step(code, pos, m, locals, stack, labels), st)
        },
        }
    }
}

/// What the instruction with the `FC` prefix at `pos` does, and the store after it:
/// `memory.copy` copies the bytes of a range of the memory to another, as if through a buffer,
/// and `memory.fill` sets the bytes of a range to a value (`OutOfBounds` when a range does not
/// lie within the memory); the others are not supported.
pub open spec fn bulk_step(
    code: Seq<u8>,
    pos: nat,
    locals: Seq<WasmStackValue>,
    stack: Seq<WasmStackValue>,
    labels: Seq<Label>,
    st: StoreState,
) -> (Step, StoreState) {
    let n = stack.len();
    let s = code.skip((pos + 1) as int);
    match decode_u32(s) {
        Err(_) => (Step::Trap(WasmRuntimeErrorKind::InternalInconsistency), st),
        Ok((v, k)) => if v != 0x0A && v != 0x0B {
            (Step::Trap(WasmRuntimeErrorKind::NotSupported), st)
        } else {
            match fc_len(s) {
                None => (Step::Trap(WasmRuntimeErrorKind::InternalInconsistency), st),
                Some(len) => if n < 3 {
                    (Step::Stuck, st)
                } else {
                    let a = stack[n - 3].bits as u32;
                    let b = stack[n - 2].bits as u32;
                    let c = stack[n - 1].bits as u32;
                    let mem = st.memory;
                    let next = Step::Next(pos + 1 + len, locals, stack.take(n - 3), labels);
                    if v == 0x0A {
                        if a + c > mem.len() || b + c > mem.len() {
                            (Step::Trap(WasmRuntimeErrorKind::OutOfBounds), st)
                        } else {
                            (next, StoreState { memory: mem.take(a as int) + mem.subrange(b as int, b + c) + mem.skip(a + c), ..st })
                        }
                    } else if a + c > mem.len() {
                        (Step::Trap(WasmRuntimeErrorKind::OutOfBounds), st)
                    } else {
                        (next, StoreState { memory: mem.take(a as int) + Seq::new(c as nat, |i: int| b as u8) + mem.skip(a + c), ..st })
                    }
                },
            }
        },
    }
}

/// `n` slots of zero bits: the locals a body declares, before it runs
pub open spec fn zero_slots(n: nat) -> Seq<WasmStackValue> {
    Seq::new(n, |i: int| WasmStackValue { bits: 0 })
}

/// What a call of a host function gives: from the handle that bound the import, the arguments
/// and the bytes of the memory
pub type HostResult = spec_fn(nat, Seq<WasmValue>, Seq<u8>) -> Result<Option<WasmValue>, WasmRuntimeErrorKind>;

/// What a run may call: the functions of the module, the elements of its first table (indices
/// of functions, for `call_indirect`), and what the host functions give
pub struct CallEnv {
    pub funcs: Seq<WasmFunction>,
    pub table: Seq<usize>,
    pub host: HostResult,
}

/// The functions `funcs`, the table `table` and the host functions `host`, as a run sees them
pub open spec fn call_env(funcs: Seq<WasmFunction>, table: Seq<usize>, host: HostResult) -> CallEnv {
    CallEnv { funcs, table, host }
}

/// What no host functions give: `NotSupported` for every call
pub open spec fn no_host_result() -> HostResult {
    |handle: nat, args: Seq<WasmValue>, memory: Seq<u8>| Err::<Option<WasmValue>, WasmRuntimeErrorKind>(WasmRuntimeErrorKind::NotSupported)
}

/// Nothing to call
pub open spec fn no_calls() -> CallEnv {
    CallEnv { funcs: Seq::empty(), table: Seq::empty(), host: no_host_result() }
}

/// Whether the host functions of `host` may be called with any handle, arguments and memory,
/// and always give what `spec` says
pub open spec fn host_agrees<F: Fn(usize, &[WasmValue], &[u8]) -> Result<Option<WasmValue>, WasmRuntimeErrorKind>>(
    host: F,
    spec: HostResult,
) -> bool {
    forall|handle: usize, args: &[WasmValue], memory: &[u8]|
        #[trigger] call_requires(host, (handle, args, memory)) && forall|r: Result<Option<WasmValue>, WasmRuntimeErrorKind>|
            call_ensures(host, (handle, args, memory), r) ==> r == spec(handle as nat, args@, memory@)
}

/// What the host functions of `host` give, when they agree with one such description
pub open spec fn host_spec<F: Fn(usize, &[WasmValue], &[u8]) -> Result<Option<WasmValue>, WasmRuntimeErrorKind>>(
    host: F,
) -> HostResult {
    choose|spec: HostResult| host_agrees(host, spec)
}

/// No host functions: every call of one gives `NotSupported`.
pub fn no_host(handle: usize, args: &[WasmValue], memory: &[u8]) -> (r: Result<Option<WasmValue>, WasmRuntimeErrorKind>)
    ensures
        r == Err::<Option<WasmValue>, WasmRuntimeErrorKind>(WasmRuntimeErrorKind::NotSupported),
{
    Err(WasmRuntimeErrorKind::NotSupported)
}

/// The arguments of a call: the `params.len()` slots the stack ends with, read as the
/// parameter types
pub open spec fn call_args(stack: Seq<WasmStackValue>, params: Seq<WasmValType>) -> Seq<WasmValue> {
    Seq::new(params.len(), |i: int| slot_value(stack[stack.len() - params.len() + i], params[i]))
}

/// What a call of a host function that gave `v` leaves the caller with: the stack without
/// the arguments, then the value if the type of the function has a result of its type;
/// `TypeMismatch` otherwise
pub open spec fn host_return(v: Option<WasmValue>, results: Seq<WasmValType>, rest: Seq<WasmStackValue>) -> CallEnd {
    if results.len() == 0 {
        if v is None {
            CallEnd::Back(rest)
        } else {
            CallEnd::Trap(WasmRuntimeErrorKind::TypeMismatch)
        }
    } else {
        match v {
            Some(val) => if value_type(val) == results[0] {
                CallEnd::Back(rest.push(sv_of_value(val)))
            } else {
                CallEnd::Trap(WasmRuntimeErrorKind::TypeMismatch)
            },
            None => CallEnd::Trap(WasmRuntimeErrorKind::TypeMismatch),
        }
    }
}

/// How a call ends: back in the caller with this stack, with an error, or on an instruction
/// that cannot run
pub enum CallEnd {
    Back(Seq<WasmStackValue>),
    /// An error of the call instruction itself
    Trap(WasmRuntimeErrorKind),
    /// An error of the called function
    Fault(Fault),
    Stuck,
}

/// A call of the function `f` of `env` from a run whose stack is `stack`, and the store it
/// leaves: the body runs, at most `fuel` instructions deep, on the arguments that the stack ends
/// with, then zeroed locals; the caller goes on with the arguments replaced by the value the
/// body gives, if the function's type has one. A host function is called with the arguments
/// read as its parameter types and the bytes of the memory, and what it gives goes by
/// `host_return`; a call of an unbound import gives `NoMethod`.
pub open spec fn call_step(
    env: CallEnv,
    f: nat,
    fuel: nat,
    stack: Seq<WasmStackValue>,
    st: StoreState,
) -> (CallEnd, StoreState)
    decreases fuel, 1nat,
{
    if f >= env.funcs.len() {
        (CallEnd::Stuck, st)
    } else {
        let callee = env.funcs[f as int];
        match callee.body() {
            None => match callee.handle() {
                Some(h) => {
                    let p = callee.params().len();
                    let n = stack.len();
                    if n < p {
                        (CallEnd::Stuck, st)
                    } else {
                        match (env.host)(h as nat, call_args(stack, callee.params()), st.memory) {
                            Err(e) => (CallEnd::Fault(bare_fault(e)), st),
                            Ok(v) => (host_return(v, callee.results(), stack.take(n - p)), st),
                        }
                    }
                },
                None => (CallEnd::Trap(WasmRuntimeErrorKind::NoMethod), st),
            },
            Some((local_types, body)) => {
                let p = callee.params().len();
                let n = stack.len();
                if n < p {
                    (CallEnd::Stuck, st)
                } else {
                    let args = stack.skip(n - p) + zero_slots(local_types.len());
                    let (o, st2) = run_from(env, body, fuel, 0, args, Seq::empty(), Seq::empty(), st);
                    match o {
                        Outcome::Done(s) => if callee.results().len() == 0 {
                            (CallEnd::Back(stack.take(n - p)), st2)
                        } else if s.len() == 0 {
                            (CallEnd::Stuck, st2)
                        } else {
                            (CallEnd::Back(stack.take(n - p).push(s.last())), st2)
                        },
                        Outcome::Trap(flt) => (CallEnd::Fault(in_callee(flt, callee.spec_index())), st2),
                        Outcome::Stuck => (CallEnd::Stuck, st2),
                    }
                }
            },
        }
    }
}

/// The instruction at `pos` with the functions and the table of `env` to call, and the store
/// after it: a `call` goes by `call_step`, with calls at most `fuel` instructions deep; a
/// `call_indirect` calls the function that the element of the table at the index on top of the
/// stack names, `NoMethod` when there is none and `TypeMismatch` when its type is not the one the
/// instruction names; any other instruction goes by `step`
pub open spec fn run_step(
    env: CallEnv,
    code: Seq<u8>,
    fuel: nat,
    pos: nat,
    locals: Seq<WasmStackValue>,
    stack: Seq<WasmStackValue>,
    labels: Seq<Label>,
    st: StoreState,
) -> (Step, StoreState)
    decreases fuel, 2nat,
{
    if pos >= code.len() {
        (Step::Trap(WasmRuntimeErrorKind::InternalInconsistency), st)
    } else if mnemonic_of_byte(code[pos as int]) == Some(WasmMnemonic::Call) {
        match decode_u32(code.skip((pos + 1) as int)) {
            Err(_) => (Step::Trap(WasmRuntimeErrorKind::InternalInconsistency), st),
            Ok((f, k)) => match call_step(env, f, fuel, stack, st) {
                (CallEnd::Back(s), st2) => (Step::Next(pos + 1 + k, locals, s, labels), st2),
                (CallEnd::Trap(e), st2) => (Step::Trap(e), st2),
                (CallEnd::Fault(flt), st2) => (Step::Fault(flt), st2),
                (CallEnd::Stuck, st2) => (Step::Stuck, st2),
            },
        }
    } else if mnemonic_of_byte(code[pos as int]) == Some(WasmMnemonic::CallIndirect) {
        let imm = code.skip((pos + 1) as int);
        match decode_u32(imm) {
            Err(_) => (Step::Trap(WasmRuntimeErrorKind::InternalInconsistency), st),
            Ok((t, k)) => if imm.len() <= k {
                (Step::Trap(WasmRuntimeErrorKind::InternalInconsistency), st)
            } else if stack.len() == 0 {
                (Step::Stuck, st)
            } else {
                let index = (stack.last().bits as i32) as usize;
                if index >= env.table.len() || env.table[index as int] >= env.funcs.len() {
                    (Step::Trap(WasmRuntimeErrorKind::NoMethod), st)
                } else if env.funcs[env.table[index as int] as int].spec_type_index().0 != t {
                    (Step::Trap(WasmRuntimeErrorKind::TypeMismatch), st)
                } else {
                    match call_step(env, env.table[index as int] as nat, fuel, stack.drop_last(), st) {
                        (CallEnd::Back(s), st2) => (Step::Next(pos + 2 + k, locals, s, labels), st2),
                        (CallEnd::Trap(e), st2) => (Step::Trap(e), st2),
                        (CallEnd::Fault(flt), st2) => (Step::Fault(flt), st2),
                        (CallEnd::Stuck, st2) => (Step::Stuck, st2),
                    }
                }
            },
        }
    } else {
        step(code, pos, locals, stack, labels, st)
    }
}

/// The run from `pos` on, at most `fuel` instructions deep, and the store it leaves: one
/// instruction after another by `run_step`, with one unit of fuel less for the calls, until the
/// function ends, an error, or an instruction that cannot run. Running past the last byte or
/// out of fuel gives `InternalInconsistency`.
pub open spec fn run_from(
    env: CallEnv,
    code: Seq<u8>,
    fuel: nat,
    pos: nat,
    locals: Seq<WasmStackValue>,
    stack: Seq<WasmStackValue>,
    labels: Seq<Label>,
    st: StoreState,
) -> (Outcome, StoreState)
    decreases fuel, 0nat,
{
    if fuel == 0 || pos >= code.len() {
        (Outcome::Trap(bare_fault(WasmRuntimeErrorKind::InternalInconsistency)), st)
    } else {
        match run_step(env, code, (fuel - 1) as nat, pos, locals, stack, labels, st) {
            (Step::Next(p, l, s, b), st2) => run_from(env, code, (fuel - 1) as nat, p, l, s, b, st2),
            (Step::Finish(s), st2) => (Outcome::Done(s), st2),
            (Step::Trap(e), st2) => (Outcome::Trap(fault_at(e, code, pos)), st2),
            (Step::Fault(flt), st2) => (Outcome::Trap(flt), st2),
            (Step::Stuck, st2) => (Outcome::Stuck, st2),
        }
    }
}

/// The most instructions a run may take
pub open spec fn max_fuel() -> nat {
    u64::MAX as nat
}

/// The slots of the locals of a run
pub open spec fn locals_of(params: Seq<WasmValue>) -> Seq<WasmStackValue> {
    Seq::new(params.len(), |i: int| sv_of_value(params[i]))
}

/// The value of slot `v` read as type `t`
pub open spec fn slot_value(v: WasmStackValue, t: WasmValType) -> WasmValue {
    match t {
        WasmValType::I32 => WasmValue::I32(v.bits as i32),
        WasmValType::I64 => WasmValue::I64(v.bits as i64),
        WasmValType::F32 => WasmValue::F32(v.bits as u32),
        WasmValType::F64 => WasmValue::F64(v.bits),
    }
}

/// What a run of `code` with `params` as its locals, what `env` gives to call and the store `st`
/// returns for `result_types`: `None` when an instruction cannot run or the stack holds no
/// result; otherwise the error, no value when no result is expected, or the top slot read as
/// the first result type.
pub open spec fn run_result(
    env: CallEnv,
    code: Seq<u8>,
    params: Seq<WasmValue>,
    result_types: Seq<WasmValType>,
    st: StoreState,
) -> Option<Result<Option<WasmValue>, WasmRuntimeErrorKind>> {
    match run_from(env, code, max_fuel(), 0, locals_of(params), Seq::empty(), Seq::empty(), st).0 {
        Outcome::Stuck => None,
        Outcome::Trap(flt) => Some(Err(flt.kind)),
        Outcome::Done(s) => if result_types.len() == 0 {
            Some(Ok(None))
        } else if s.len() == 0 {
            None
        } else {
            Some(Ok(Some(slot_value(s.last(), result_types[0]))))
        },
    }
}

/// What a run of `code` with `params` as its locals gives without functions to call, memory
/// pages or globals, where only integer results are read: a float result type refuses the
/// result with `InvalidParameter`
pub open spec fn context_result(
    code: Seq<u8>,
    params: Seq<WasmValue>,
    result_types: Seq<WasmValType>,
) -> Option<Result<Option<WasmValue>, WasmRuntimeErrorKind>> {
    let r = run_result(no_calls(), code, params, result_types, empty_state());
    if (r matches Some(Ok(Some(_)))) && (result_types[0] is F32 || result_types[0] is F64) {
        Some(Err(WasmRuntimeErrorKind::InvalidParameter))
    } else {
        r
    }
}

/// The store a run of `code` with `params` as its locals leaves
pub open spec fn run_store(
    env: CallEnv,
    code: Seq<u8>,
    params: Seq<WasmValue>,
    st: StoreState,
) -> StoreState {
    run_from(env, code, max_fuel(), 0, locals_of(params), Seq::empty(), Seq::empty(), st).1
}

/// The error that a run of `code` with `params` as its locals ends with, with the instruction
/// that raised it, if the run ends with one
pub open spec fn run_fault(env: CallEnv, code: Seq<u8>, params: Seq<WasmValue>, st: StoreState) -> Option<Fault> {
    match run_from(env, code, max_fuel(), 0, locals_of(params), Seq::empty(), Seq::empty(), st).0 {
        Outcome::Trap(flt) => Some(flt),
        _ => None,
    }
}

/// The number of bits set among the 64 bits of `x`
fn count_ones(x: u64) -> (r: u64)
    ensures
        r == popcount(x, 64),
{
    let mut c: u64 = 0;
    let mut i: u64 = 0;
    while i < 64
        invariant
            i <= 64,
            c == popcount(x, i as nat),
            c <= i,
        decreases 64 - i,
    {
        let bit = (x >> i) & 1;
        assert(bit <= 1) by (bit_vector)
            requires
                bit == (x >> i) & 1,
        ;
        c = c + bit;
        i = i + 1;
    }
    c
}

/// A unary instruction on the top slot
fn eval_unop(m: WasmMnemonic, x: WasmStackValue) -> (r: WasmStackValue)
    requires
        is_unop(m),
    ensures
        r == unop(m, x),
{
    let v = x.bits;
    match m {
        WasmMnemonic::I32Eqz => WasmStackValue::bool(v as i32 == 0),
        WasmMnemonic::I64Eqz => WasmStackValue::bool(v as i64 == 0),
        WasmMnemonic::I32Clz => WasmStackValue::u32((v as u32).leading_zeros()),
        WasmMnemonic::I32Ctz => WasmStackValue::u32((v as u32).trailing_zeros()),
        WasmMnemonic::I32Popcnt => {
            let c = count_ones((v as u32) as u64);
            proof {
                lemma_popcount_upper((v as u32) as u64, 32);
                lemma_popcount_high_zero((v as u32) as u64, 64);
            }
            WasmStackValue::u32(c as u32)
        },
        WasmMnemonic::I64Clz => WasmStackValue::i64(v.leading_zeros() as i64),
        WasmMnemonic::I64Ctz => WasmStackValue::i64(v.trailing_zeros() as i64),
        WasmMnemonic::I64Popcnt => {
            let c = count_ones(v);
            proof {
                lemma_popcount_upper(v, 64);
            }
            WasmStackValue::i64(c as i64)
        },
        WasmMnemonic::I64ExtendI32S => WasmStackValue::i64((v as i32) as i64),
        WasmMnemonic::I64ExtendI32U => WasmStackValue::u64((v as u32) as u64),
        WasmMnemonic::I32Extend8S => WasmStackValue::i32((v as i8) as i32),
        WasmMnemonic::I32Extend16S => WasmStackValue::i32((v as i16) as i32),
        WasmMnemonic::I64Extend8S => WasmStackValue::i64((v as i8) as i64),
        WasmMnemonic::I64Extend16S => WasmStackValue::i64((v as i16) as i64),
        WasmMnemonic::I64Extend32S => WasmStackValue::i64((v as i32) as i64),
        _ => x,
    }
}

/// At most `n` of the `n` low bits are set.
proof fn lemma_popcount_upper(x: u64, n: nat)
    ensures
        popcount(x, n) <= n,
    decreases n,
{
    if n > 0 {
        lemma_popcount_upper(x, (n - 1) as nat);
        let k = (n - 1) as u64;
        assert((x >> k) & 1u64 <= 1u64) by (bit_vector);
    }
}

/// A number below `2^32` has no bit set above the 32 low bits.
proof fn lemma_popcount_high_zero(x: u64, n: nat)
    requires
        x < 0x1_0000_0000,
        32 <= n <= 64,
    ensures
        popcount(x, n) == popcount(x, 32),
    decreases n,
{
    if n > 32 {
        lemma_popcount_high_zero(x, (n - 1) as nat);
        let k = (n - 1) as u64;
        assert(k >= 32);
        assert((x >> k) & 1u64 == 0u64) by (bit_vector)
            requires
                x < 0x1_0000_0000u64,
                k >= 32u64,
        ;
        assert(popcount(x, n) == popcount(x, (n - 1) as nat) + ((x >> k) & 1u64) as nat);
    }
}

/// `a` rotated left by `k` bits, modulo 32
fn rotate_left32(a: u32, k: u32) -> (r: u32)
    ensures
        r == rotl32(a, k),
{
    let s = k % 32;
    if s == 0 {
        a
    } else {
        (a << s) | (a >> (32 - s))
    }
}

/// `a` rotated right by `k` bits, modulo 32
fn rotate_right32(a: u32, k: u32) -> (r: u32)
    ensures
        r == rotr32(a, k),
{
    let s = k % 32;
    if s == 0 {
        a
    } else {
        (a >> s) | (a << (32 - s))
    }
}

/// `a` rotated left by `k` bits, modulo 64
fn rotate_left64(a: u64, k: u64) -> (r: u64)
    ensures
        r == rotl64(a, k),
{
    let s = k % 64;
    if s == 0 {
        a
    } else {
        (a << s) | (a >> (64 - s))
    }
}

/// `a` rotated right by `k` bits, modulo 64
fn rotate_right64(a: u64, k: u64) -> (r: u64)
    ensures
        r == rotr64(a, k),
{
    let s = k % 64;
    if s == 0 {
        a
    } else {
        (a >> s) | (a << (64 - s))
    }
}

/// A binary instruction on the slots `x` (pushed first) and `y`
fn eval_binop(m: WasmMnemonic, x: WasmStackValue, y: WasmStackValue) -> (r: Result<
    WasmStackValue,
    WasmRuntimeErrorKind,
>)
    requires
        is_binop(m),
    ensures
        r == binop(m, x, y),
{
    let a32 = x.get_i32();
    let b32 = y.get_i32();
    let ua32 = x.get_u32();
    let ub32 = y.get_u32();
    let a64 = x.get_i64();
    let b64 = y.get_i64();
    let ua64 = x.get_u64();
    let ub64 = y.get_u64();
    match m {
        WasmMnemonic::I32Eq => Ok(WasmStackValue::bool(a32 == b32)),
        WasmMnemonic::I32Ne => Ok(WasmStackValue::bool(a32 != b32)),
        WasmMnemonic::I32LtS => Ok(WasmStackValue::bool(a32 < b32)),
        WasmMnemonic::I32LtU => Ok(WasmStackValue::bool(ua32 < ub32)),
        WasmMnemonic::I32LeS => Ok(WasmStackValue::bool(a32 <= b32)),
        WasmMnemonic::I32LeU => Ok(WasmStackValue::bool(ua32 <= ub32)),
        WasmMnemonic::I32GtS => Ok(WasmStackValue::bool(a32 > b32)),
        WasmMnemonic::I32GtU => Ok(WasmStackValue::bool(ua32 > ub32)),
        WasmMnemonic::I32GeS => Ok(WasmStackValue::bool(a32 >= b32)),
        WasmMnemonic::I32GeU => Ok(WasmStackValue::bool(ua32 >= ub32)),
        WasmMnemonic::I64Eq => Ok(WasmStackValue::bool(a64 == b64)),
        WasmMnemonic::I64Ne => Ok(WasmStackValue::bool(a64 != b64)),
        WasmMnemonic::I64LtS => Ok(WasmStackValue::bool(a64 < b64)),
        WasmMnemonic::I64LtU => Ok(WasmStackValue::bool(ua64 < ub64)),
        WasmMnemonic::I64LeS => Ok(WasmStackValue::bool(a64 <= b64)),
        WasmMnemonic::I64LeU => Ok(WasmStackValue::bool(ua64 <= ub64)),
        WasmMnemonic::I64GtS => Ok(WasmStackValue::bool(a64 > b64)),
        WasmMnemonic::I64GtU => Ok(WasmStackValue::bool(ua64 > ub64)),
        WasmMnemonic::I64GeS => Ok(WasmStackValue::bool(a64 >= b64)),
        WasmMnemonic::I64GeU => Ok(WasmStackValue::bool(ua64 >= ub64)),
        WasmMnemonic::I32Add => Ok(WasmStackValue::u32(ua32.wrapping_add(ub32))),
        WasmMnemonic::I32Sub => Ok(WasmStackValue::u32(ua32.wrapping_sub(ub32))),
        WasmMnemonic::I32Mul => Ok(WasmStackValue::u32(ua32.wrapping_mul(ub32))),
        WasmMnemonic::I32DivS => if b32 == 0 {
            Err(WasmRuntimeErrorKind::DivideByZero)
        } else {
            let q = match a32.checked_div(b32) {
                Some(q) => q,
                None => i32::MIN,
            };
            Ok(WasmStackValue::i32(q))
        },
        WasmMnemonic::I32DivU => if ub32 == 0 {
            Err(WasmRuntimeErrorKind::DivideByZero)
        } else {
            Ok(WasmStackValue::u32(ua32 / ub32))
        },
        WasmMnemonic::I32RemS => if b32 == 0 {
            Err(WasmRuntimeErrorKind::DivideByZero)
        } else {
            let q = match a32.checked_rem(b32) {
                Some(q) => q,
                None => 0,
            };
            Ok(WasmStackValue::i32(q))
        },
        WasmMnemonic::I32RemU => if ub32 == 0 {
            Err(WasmRuntimeErrorKind::DivideByZero)
        } else {
            Ok(WasmStackValue::u32(ua32 % ub32))
        },
        WasmMnemonic::I32And => Ok(WasmStackValue::u32(ua32 & ub32)),
        WasmMnemonic::I32Or => Ok(WasmStackValue::u32(ua32 | ub32)),
        WasmMnemonic::I32Xor => Ok(WasmStackValue::u32(ua32 ^ ub32)),
        WasmMnemonic::I32Shl => Ok(WasmStackValue::u32(ua32 << (ub32 % 32))),
        WasmMnemonic::I32ShrS => Ok(WasmStackValue::i32(a32 >> (ub32 % 32))),
        WasmMnemonic::I32ShrU => Ok(WasmStackValue::u32(ua32 >> (ub32 % 32))),
        WasmMnemonic::I32Rotl => Ok(WasmStackValue::u32(rotate_left32(ua32, ub32))),
        WasmMnemonic::I32Rotr => Ok(WasmStackValue::u32(rotate_right32(ua32, ub32))),
        WasmMnemonic::I64Add => Ok(WasmStackValue::u64(ua64.wrapping_add(ub64))),
        WasmMnemonic::I64Sub => Ok(WasmStackValue::u64(ua64.wrapping_sub(ub64))),
        WasmMnemonic::I64Mul => Ok(WasmStackValue::u64(ua64.wrapping_mul(ub64))),
        WasmMnemonic::I64DivS => if b64 == 0 {
            Err(WasmRuntimeErrorKind::DivideByZero)
        } else {
            let q = match a64.checked_div(b64) {
                Some(q) => q,
                None => i64::MIN,
            };
            Ok(WasmStackValue::i64(q))
        },
        WasmMnemonic::I64DivU => if ub64 == 0 {
            Err(WasmRuntimeErrorKind::DivideByZero)
        } else {
            Ok(WasmStackValue::u64(ua64 / ub64))
        },
        WasmMnemonic::I64RemS => if b64 == 0 {
            Err(WasmRuntimeErrorKind::DivideByZero)
        } else {
            let q = match a64.checked_rem(b64) {
                Some(q) => q,
                None => 0,
            };
            Ok(WasmStackValue::i64(q))
        },
        WasmMnemonic::I64RemU => if ub64 == 0 {
            Err(WasmRuntimeErrorKind::DivideByZero)
        } else {
            Ok(WasmStackValue::u64(ua64 % ub64))
        },
        WasmMnemonic::I64And => Ok(WasmStackValue::u64(ua64 & ub64)),
        WasmMnemonic::I64Or => Ok(WasmStackValue::u64(ua64 | ub64)),
        WasmMnemonic::I64Xor => Ok(WasmStackValue::u64(ua64 ^ ub64)),
        WasmMnemonic::I64Shl => Ok(WasmStackValue::u64(ua64 << (ub64 % 64))),
        WasmMnemonic::I64ShrS => Ok(WasmStackValue::i64(a64 >> (ub64 % 64))),
        WasmMnemonic::I64ShrU => Ok(WasmStackValue::u64(ua64 >> (ub64 % 64))),
        WasmMnemonic::I64Rotl => Ok(WasmStackValue::u64(rotate_left64(ua64, ub64))),
        WasmMnemonic::I64Rotr => Ok(WasmStackValue::u64(rotate_right64(ua64, ub64))),
        _ => Ok(x),
    }
}

/// Whether `m` is a unary instruction
fn is_unary(m: WasmMnemonic) -> (r: bool)
    ensures
        r == is_unop(m),
{
    matches!(
        m,
        WasmMnemonic::I32Eqz | WasmMnemonic::I64Eqz | WasmMnemonic::I32Clz | WasmMnemonic::I32Ctz
            | WasmMnemonic::I32Popcnt | WasmMnemonic::I64Clz | WasmMnemonic::I64Ctz
            | WasmMnemonic::I64Popcnt | WasmMnemonic::I32WrapI64 | WasmMnemonic::I64ExtendI32S
            | WasmMnemonic::I64ExtendI32U | WasmMnemonic::I32Extend8S | WasmMnemonic::I32Extend16S
            | WasmMnemonic::I64Extend8S | WasmMnemonic::I64Extend16S | WasmMnemonic::I64Extend32S
            | WasmMnemonic::I32ReinterpretF32 | WasmMnemonic::I64ReinterpretF64
            | WasmMnemonic::F32ReinterpretI32 | WasmMnemonic::F64ReinterpretI64
    )
}

/// Whether `m` is a binary instruction
fn is_binary(m: WasmMnemonic) -> (r: bool)
    ensures
        r == is_binop(m),
{
    matches!(
        m,
        WasmMnemonic::I32Eq | WasmMnemonic::I32Ne | WasmMnemonic::I32LtS | WasmMnemonic::I32LtU
            | WasmMnemonic::I32LeS | WasmMnemonic::I32LeU | WasmMnemonic::I32GtS | WasmMnemonic::I32GtU
            | WasmMnemonic::I32GeS | WasmMnemonic::I32GeU | WasmMnemonic::I64Eq | WasmMnemonic::I64Ne
            | WasmMnemonic::I64LtS | WasmMnemonic::I64LtU | WasmMnemonic::I64LeS | WasmMnemonic::I64LeU
            | WasmMnemonic::I64GtS | WasmMnemonic::I64GtU | WasmMnemonic::I64GeS | WasmMnemonic::I64GeU
            | WasmMnemonic::I32Add | WasmMnemonic::I32Sub | WasmMnemonic::I32Mul | WasmMnemonic::I32DivS
            | WasmMnemonic::I32DivU | WasmMnemonic::I32RemS | WasmMnemonic::I32RemU | WasmMnemonic::I32And
            | WasmMnemonic::I32Or | WasmMnemonic::I32Xor | WasmMnemonic::I32Shl | WasmMnemonic::I32ShrS
            | WasmMnemonic::I32ShrU | WasmMnemonic::I32Rotl | WasmMnemonic::I32Rotr | WasmMnemonic::I64Add
            | WasmMnemonic::I64Sub | WasmMnemonic::I64Mul | WasmMnemonic::I64DivS | WasmMnemonic::I64DivU
            | WasmMnemonic::I64RemS | WasmMnemonic::I64RemU | WasmMnemonic::I64And | WasmMnemonic::I64Or
            | WasmMnemonic::I64Xor | WasmMnemonic::I64Shl | WasmMnemonic::I64ShrS | WasmMnemonic::I64ShrU
            | WasmMnemonic::I64Rotl | WasmMnemonic::I64Rotr
    )
}

/// Whether `m` reads or writes memory
fn is_memory_instruction(m: WasmMnemonic) -> (r: bool)
    ensures
        r == is_memory_access(m),
{
    matches!(
        m,
        WasmMnemonic::I32Load | WasmMnemonic::I64Load | WasmMnemonic::F32Load | WasmMnemonic::F64Load
            | WasmMnemonic::I32Load8S | WasmMnemonic::I32Load8U | WasmMnemonic::I32Load16S
            | WasmMnemonic::I32Load16U | WasmMnemonic::I64Load8S | WasmMnemonic::I64Load8U
            | WasmMnemonic::I64Load16S | WasmMnemonic::I64Load16U | WasmMnemonic::I64Load32S
            | WasmMnemonic::I64Load32U | WasmMnemonic::I32Store | WasmMnemonic::I64Store
            | WasmMnemonic::F32Store | WasmMnemonic::F64Store | WasmMnemonic::I32Store8
            | WasmMnemonic::I32Store16 | WasmMnemonic::I64Store8 | WasmMnemonic::I64Store16
            | WasmMnemonic::I64Store32
    )
}

/// Where the run goes after one instruction
enum Flow {
    /// On, at the position the code block now holds
    Continue,
    /// The function ends with the stack as it is
    Finish,
    /// The instruction fails with an error
    Trap(WasmRuntimeErrorKind),
    /// A function that the instruction calls fails with this error
    Fault(Fault),
    /// The instruction cannot run
    Stuck,
    /// The allocator refused the pages that a `memory.grow` asked for
    Refused,
}

/// Every block goes on and ends within code of `len` bytes.
spec fn labels_within(labels: Seq<Label>, len: nat) -> bool {
    forall|k: int| 0 <= k < labels.len() ==> (#[trigger] labels[k]).target <= len && labels[k].end <= len
}

/// Leaves block `lb`: keeps the values it gives on top of the slots below it.
fn leave_block(stack: &mut Vec<WasmStackValue>, lb: Label)
    requires
        old(stack)@.len() >= lb.height + lb.arity,
    ensures
        final(stack)@ == keep(old(stack)@, lb),
{
    let n = stack.len();
    let mut kept: Vec<WasmStackValue> = Vec::new();
    let mut i = n - lb.arity;
    while i < n
        invariant
            lb.height + lb.arity <= n,
            n - lb.arity <= i <= n,
            n == stack@.len(),
            stack@ == old(stack)@,
            kept@ == stack@.subrange(n - lb.arity, i as int),
        decreases n - i,
    {
        proof {
            assert(stack@.subrange(n - lb.arity, i + 1) =~= stack@.subrange(n - lb.arity, i as int).push(
                stack@[i as int],
            ));
        }
        kept.push(stack[i]);
        i = i + 1;
    }
    stack.truncate(lb.height);
    let mut j: usize = 0;
    while j < kept.len()
        invariant
            j <= kept@.len(),
            stack@ == old(stack)@.take(lb.height as int) + kept@.take(j as int),
        decreases kept.len() - j,
    {
        stack.push(kept[j]);
        proof {
            assert(kept@.take(j + 1) =~= kept@.take(j as int).push(kept@[j as int]));
        }
        j = j + 1;
    }
    proof {
        assert(kept@.take(kept@.len() as int) =~= kept@);
        assert(old(stack)@.skip(old(stack)@.len() - lb.arity) =~= kept@);
    }
}

/// A branch `l` levels out; see `branch`.
fn do_branch(
    l: u32,
    code_block: &mut WasmCodeBlock,
    lv: &Vec<WasmStackValue>,
    stack: &mut Vec<WasmStackValue>,
    labels: &mut Vec<Label>,
) -> (r: Flow)
    requires
        old(code_block).pc() <= old(code_block).code().len(),
        labels_within(old(labels)@, old(code_block).code().len()),
    ensures
        final(code_block).code() == old(code_block).code(),
        final(code_block).pc() <= final(code_block).code().len(),
        labels_within(final(labels)@, old(code_block).code().len()),
        match branch(l as nat, lv@, old(stack)@, old(labels)@) {
            Step::Next(p, lo, s, b) => r is Continue && final(code_block).pc() == p && lo == lv@
                && final(stack)@ == s && final(labels)@ == b,
            Step::Finish(s) => r is Finish && final(stack)@ == s,
            _ => r is Stuck,
        },
{
    let len = labels.len();
    if (l as usize) < len {
        let lb = labels[len - 1 - l as usize];
        if stack.len() < lb.height || stack.len() - lb.height < lb.arity {
            return Flow::Stuck;
        }
        leave_block(stack, lb);
        labels.truncate(len - 1 - l as usize);
        code_block.seek(lb.target);
        Flow::Continue
    } else if l as usize == len {
        Flow::Finish
    } else {
        Flow::Stuck
    }
}

/// Runs the control instruction `m` at `pos`, whose opcode byte has been read.
#[verifier::rlimit(40)]
fn exec_control(
    code_block: &mut WasmCodeBlock,
    m: WasmMnemonic,
    pos: usize,
    lv: &Vec<WasmStackValue>,
    stack: &mut Vec<WasmStackValue>,
    labels: &mut Vec<Label>,
) -> (r: Flow)
    requires
        is_control(m),
        pos < old(code_block).code().len(),
        old(code_block).pc() == pos + 1,
        old(code_block).code().len() <= usize::MAX,
        labels_within(old(labels)@, old(code_block).code().len()),
    ensures
        final(code_block).code() == old(code_block).code(),
        final(code_block).pc() <= final(code_block).code().len(),
        labels_within(final(labels)@, old(code_block).code().len()),
        match control_step(old(code_block).code(), pos as nat, m, lv@, old(stack)@, old(labels)@) {
            Step::Next(p, lo, s, b) => r is Continue && final(code_block).pc() == p && lo == lv@
                && final(stack)@ == s && final(labels)@ == b,
            Step::Finish(s) => r is Finish && final(stack)@ == s,
            Step::Trap(e) => r matches Flow::Trap(x) && x == e,
            Step::Stuck => r is Stuck,
            Step::Fault(_) => false,
        },
{
    let ghost code = code_block.code();
    let ghost imm = code.skip(pos + 1);
    let n = stack.len();
    match m {
        WasmMnemonic::Nop => Flow::Continue,
        WasmMnemonic::Unreachable => Flow::Trap(WasmRuntimeErrorKind::Unreachable),
        WasmMnemonic::Return => Flow::Finish,
        WasmMnemonic::Block | WasmMnemonic::Loop | WasmMnemonic::If => {
            let bt = match code_block.read_byte() {
                Some(b) => b,
                None => {
                    return Flow::Trap(WasmRuntimeErrorKind::NotSupported);
                },
            };
            proof {
                assert(imm[0] == bt);
            }
            let arity: usize = if bt == 0x40 {
                0
            } else if WasmValType::from_u8(bt).is_ok() {
                1
            } else {
                return Flow::Trap(WasmRuntimeErrorKind::NotSupported);
            };
            let body = code_block.position();
            let (e, el) = match code_block.find_end(body) {
                Some(found) => found,
                None => {
                    return Flow::Trap(WasmRuntimeErrorKind::NotSupported);
                },
            };
            proof {
                lemma_scan_end_bounds(code, body as nat, 0, None);
            }
            if matches!(m, WasmMnemonic::Loop) {
                labels.push(Label { arity: 0, height: n, target: pos, end: e });
            } else if matches!(m, WasmMnemonic::Block) {
                labels.push(Label { arity, height: n, target: e + 1, end: e });
            } else {
                if n == 0 {
                    return Flow::Stuck;
                }
                let cond = stack.pop().unwrap();
                labels.push(Label { arity, height: n - 1, target: e + 1, end: e });
                if cond.get_i32() == 0 {
                    match el {
                        Some(x) => code_block.seek(x + 1),
                        None => code_block.seek(e),
                    }
                }
            }
            Flow::Continue
        },
        WasmMnemonic::Else => {
            if labels.len() == 0 {
                return Flow::Stuck;
            }
            let end = labels[labels.len() - 1].end;
            code_block.seek(end);
            Flow::Continue
        },
        WasmMnemonic::End => {
            if labels.len() == 0 {
                return Flow::Finish;
            }
            let lb = labels[labels.len() - 1];
            if n < lb.height || n - lb.height < lb.arity {
                return Flow::Stuck;
            }
            leave_block(stack, lb);
            labels.pop();
            Flow::Continue
        },
        WasmMnemonic::Br | WasmMnemonic::BrIf | WasmMnemonic::BrTable => {
            let first = match code_block.read_index() {
                Ok(v) => v,
                Err(e) => {
                    return Flow::Trap(e);
                },
            };
            if matches!(m, WasmMnemonic::Br) {
                return do_branch(first, code_block, lv, stack, labels);
            }
            let mut table: Vec<u32> = Vec::new();
            if matches!(m, WasmMnemonic::BrTable) {
                proof {
                    crate::leb128::lemma_decode_unsigned_bounds(imm, 5, 16);
                    let k = decode_u32(imm).unwrap().1;
                    assert(code.skip(code_block.pc() as int) =~= imm.skip(k as int));
                    crate::module::lemma_u32s_len(imm.skip(k as int), first as nat + 1);
                }
                table = match code_block.read_indices(first as u64 + 1) {
                    Some(t) => t,
                    None => {
                        return Flow::Trap(WasmRuntimeErrorKind::InternalInconsistency);
                    },
                };
            }
            if n == 0 {
                return Flow::Stuck;
            }
            let cond = stack.pop().unwrap();
            if matches!(m, WasmMnemonic::BrTable) {
                let index = cond.get_u32();
                let level = if index < first {
                    table[index as usize]
                } else {
                    table[first as usize]
                };
                do_branch(level, code_block, lv, stack, labels)
            } else if cond.get_i32() != 0 {
                do_branch(first, code_block, lv, stack, labels)
            } else {
                Flow::Continue
            }
        },
        _ => Flow::Trap(WasmRuntimeErrorKind::NotSupported),
    }
}

/// Runs the instruction `m` at `pos`, whose opcode byte has been read, when it is no control
/// instruction.
#[verifier::rlimit(40)]
fn exec_plain(
    code_block: &mut WasmCodeBlock,
    m: WasmMnemonic,
    pos: usize,
    lv: &mut Vec<WasmStackValue>,
    stack: &mut Vec<WasmStackValue>,
    labels: &Vec<Label>,
) -> (r: Flow)
    requires
        !is_control(m),
        pos < old(code_block).code().len(),
        old(code_block).pc() == pos + 1,
    ensures
        final(code_block).code() == old(code_block).code(),
        final(code_block).pc() <= final(code_block).code().len(),
        match plain_step(old(code_block).code(), pos as nat, m, old(lv)@, old(stack)@, labels@) {
            Step::Next(p, lo, s, b) => r is Continue && final(code_block).pc() == p && final(lv)@ == lo
                && final(stack)@ == s && b == labels@,
            Step::Finish(s) => r is Finish && final(stack)@ == s,
            Step::Trap(e) => r matches Flow::Trap(x) && x == e,
            Step::Stuck => r is Stuck,
            Step::Fault(_) => false,
        },
{
    let ghost s0 = stack@;
    let n = stack.len();
    if is_unary(m) {
        if n == 0 {
            return Flow::Stuck;
        }
        let x = stack.pop().unwrap();
        stack.push(eval_unop(m, x));
        return Flow::Continue;
    }
    if is_binary(m) {
        if n < 2 {
            return Flow::Stuck;
        }
        let y = stack.pop().unwrap();
        let x = stack.pop().unwrap();
        match eval_binop(m, x, y) {
            Ok(v) => stack.push(v),
            Err(e) => {
                return Flow::Trap(e);
            },
        }
        proof {
            assert(stack@ =~= s0.take(n - 2).push(stack@.last()));
        }
        return Flow::Continue;
    }
    match m {
        WasmMnemonic::Drop => {
            if n > 0 {
                stack.pop();
            }
            assert(plain_step(code_block.code(), pos as nat, m, lv@, s0, labels@) == Step::Next(
                (pos + 1) as nat,
                lv@,
                if n == 0 {
                    s0
                } else {
                    s0.drop_last()
                },
                labels@,
            ));
            Flow::Continue
        },
        WasmMnemonic::Select => {
            if n < 3 {
                return Flow::Stuck;
            }
            let cc = stack.pop().unwrap();
            let b = stack.pop().unwrap();
            let a = stack.pop().unwrap();
            let c = if cc.get_i32() != 0 {
                a
            } else {
                b
            };
            stack.push(c);
            proof {
                assert(stack@ =~= s0.take(n - 3).push(c));
            }
            Flow::Continue
        },
        WasmMnemonic::LocalGet | WasmMnemonic::LocalSet | WasmMnemonic::LocalTee => {
            let index = match code_block.read_uint() {
                Ok(v) => v as usize,
                Err(e) => {
                    return Flow::Trap(e);
                },
            };
            if index >= lv.len() {
                return Flow::Stuck;
            }
            if matches!(m, WasmMnemonic::LocalGet) {
                let val = lv[index];
                stack.push(val);
            } else {
                if n == 0 {
                    return Flow::Stuck;
                }
                if matches!(m, WasmMnemonic::LocalSet) {
                    let val = stack.pop().unwrap();
                    lv.set(index, val);
                } else {
                    let val = stack[n - 1];
                    lv.set(index, val);
                }
            }
            Flow::Continue
        },
        WasmMnemonic::I32Const => {
            let val = match code_block.read_sint() {
                Ok(v) => v as i32,
                Err(e) => {
                    return Flow::Trap(e);
                },
            };
            stack.push(WasmStackValue::i32(val));
            Flow::Continue
        },
        WasmMnemonic::I64Const => {
            let val = match code_block.read_sint() {
                Ok(v) => v,
                Err(e) => {
                    return Flow::Trap(e);
                },
            };
            stack.push(WasmStackValue::i64(val));
            Flow::Continue
        },
        WasmMnemonic::F32Const | WasmMnemonic::F64Const => {
            let width: usize = if matches!(m, WasmMnemonic::F32Const) {
                4
            } else {
                8
            };
            let ghost code = code_block.code();
            proof {
                if pos + 1 + width <= code.len() {
                    assert(code.skip(pos + 1).take(width as int) =~= code.subrange(pos + 1, pos + 1 + width));
                }
            }
            let bits = match code_block.read_le(width) {
                Some(v) => v,
                None => {
                    return Flow::Trap(WasmRuntimeErrorKind::InternalInconsistency);
                },
            };
            stack.push(WasmStackValue::u64(bits));
            Flow::Continue
        },
        _ => Flow::Trap(WasmRuntimeErrorKind::NotSupported),
    }
}

/// The bits and the mutability of each global
pub open spec fn globals_state(gs: Seq<WasmGlobal>) -> Seq<(u64, bool, WasmValType)> {
    Seq::new(gs.len(), |i: int| (gs[i].bits(), gs[i].spec_is_mutable(), gs[i].spec_val_type()))
}

/// What a memory and globals hold
pub open spec fn memory_state(memory: WasmMemory, globals: Seq<WasmGlobal>) -> StoreState {
    StoreState {
        memory: memory.bytes(),
        pages: memory.pages(),
        max_pages: memory.max_pages(),
        globals: globals_state(globals),
    }
}

/// A store without memory pages and without globals
pub open spec fn empty_state() -> StoreState {
    StoreState { memory: Seq::empty(), pages: 0, max_pages: 0, globals: Seq::empty() }
}

/// The memory and the globals that a run reads and writes
pub struct WasmStore {
    memory: WasmMemory,
    globals: Vec<WasmGlobal>,
}

impl WasmStore {
    /// The memory
    pub closed spec fn spec_memory(&self) -> WasmMemory {
        self.memory
    }

    /// The globals
    pub closed spec fn spec_globals(&self) -> Seq<WasmGlobal> {
        self.globals@
    }

    /// What the memory and the globals hold
    pub open spec fn state(&self) -> StoreState {
        memory_state(self.spec_memory(), self.spec_globals())
    }

    /// A store of a memory and globals
    pub fn new(memory: WasmMemory, globals: Vec<WasmGlobal>) -> (r: Self)
        ensures
            r.spec_memory() == memory,
            r.spec_globals() == globals@,
    {
        Self { memory, globals }
    }

    /// A store without memory pages and without globals
    pub fn empty() -> (r: Self)
        ensures
            r.state() == empty_state(),
    {
        let r = Self { memory: WasmMemory::zero(), globals: Vec::new() };
        proof {
            assert(globals_state(r.spec_globals()) =~= Seq::<(u64, bool, WasmValType)>::empty());
        }
        r
    }

    /// The memory
    pub fn memory(&self) -> (r: &WasmMemory)
        ensures
            *r == self.spec_memory(),
    {
        &self.memory
    }

    /// The globals
    pub fn globals(&self) -> (r: &[WasmGlobal])
        ensures
            r@ == self.spec_globals(),
    {
        self.globals.as_slice()
    }

    /// The memory and the globals, taken apart
    pub fn into_parts(self) -> (r: (WasmMemory, Vec<WasmGlobal>))
        ensures
            r.0 == self.spec_memory(),
            r.1@ == self.spec_globals(),
    {
        (self.memory, self.globals)
    }
}

/// The little-endian value of at most eight bytes
fn little_endian(b: &[u8]) -> (r: u64)
    requires
        b@.len() <= 8,
    ensures
        r == le_value(b@),
{
    proof {
        crate::memory::lemma_le_value_bound(b@);
        crate::memory::lemma_pow256_8(b@.len());
    }
    let width = b.len();
    let mut v: u64 = 0;
    let mut i: usize = width;
    while i > 0
        invariant
            i <= width <= 8,
            width == b@.len(),
            v == le_value(b@.subrange(i as int, width as int)),
            le_value(b@.subrange(i as int, width as int)) < crate::memory::pow256((width - i) as nat),
            crate::memory::pow256(width as nat) <= 0x1_0000_0000_0000_0000,
        decreases i,
    {
        let ghost tail = b@.subrange(i as int, width as int);
        let ghost tail2 = b@.subrange(i - 1, width as int);
        proof {
            assert(tail2.drop_first() =~= tail);
            crate::memory::lemma_le_value_bound(tail2);
            crate::memory::lemma_pow256_mono((width - i + 1) as nat, width as nat);
        }
        v = v * 256 + b[i - 1] as u64;
        i = i - 1;
    }
    proof {
        assert(b@.subrange(0, width as int) =~= b@);
    }
    v
}

/// Whether `m` is a load
fn is_load_instruction(m: WasmMnemonic) -> (r: bool)
    ensures
        r == is_load(m),
{
    matches!(
        m,
        WasmMnemonic::I32Load | WasmMnemonic::I64Load | WasmMnemonic::I32Load8S | WasmMnemonic::I32Load8U
            | WasmMnemonic::I32Load16S | WasmMnemonic::I32Load16U | WasmMnemonic::I64Load8S
            | WasmMnemonic::I64Load8U | WasmMnemonic::I64Load16S | WasmMnemonic::I64Load16U
            | WasmMnemonic::I64Load32S | WasmMnemonic::I64Load32U | WasmMnemonic::F32Load
            | WasmMnemonic::F64Load
    )
}

/// Whether `m` is a store
fn is_store_instruction(m: WasmMnemonic) -> (r: bool)
    ensures
        r == is_store(m),
{
    matches!(
        m,
        WasmMnemonic::I32Store | WasmMnemonic::I64Store | WasmMnemonic::I32Store8
            | WasmMnemonic::I32Store16 | WasmMnemonic::I64Store8 | WasmMnemonic::I64Store16
            | WasmMnemonic::I64Store32 | WasmMnemonic::F32Store | WasmMnemonic::F64Store
    )
}

/// Whether `m` reads or writes the memory or the globals
fn is_state_instruction(m: WasmMnemonic) -> (r: bool)
    ensures
        r == is_state_op(m),
{
    is_load_instruction(m) || is_store_instruction(m) || matches!(
        m,
        WasmMnemonic::GlobalGet | WasmMnemonic::GlobalSet | WasmMnemonic::MemorySize | WasmMnemonic::MemoryGrow
    )
}

/// The number of bytes a load or a store reads or writes
fn width_of(m: WasmMnemonic) -> (r: usize)
    ensures
        r == access_width(m),
        r <= 8,
{
    match m {
        WasmMnemonic::I64Load | WasmMnemonic::I64Store | WasmMnemonic::F64Load
        | WasmMnemonic::F64Store => 8,
        WasmMnemonic::I32Load8S | WasmMnemonic::I32Load8U | WasmMnemonic::I64Load8S
        | WasmMnemonic::I64Load8U | WasmMnemonic::I32Store8 | WasmMnemonic::I64Store8 => 1,
        WasmMnemonic::I32Load16S | WasmMnemonic::I32Load16U | WasmMnemonic::I64Load16S
        | WasmMnemonic::I64Load16U | WasmMnemonic::I32Store16 | WasmMnemonic::I64Store16 => 2,
        _ => 4,
    }
}

/// The slot a load gives for the value it read
fn load_slot(m: WasmMnemonic, v: u64) -> (r: WasmStackValue)
    ensures
        r == loaded(m, v as nat),
{
    match m {
        WasmMnemonic::I32Load8S => WasmStackValue::i32(((v as u8) as i8) as i32),
        WasmMnemonic::I32Load16S => WasmStackValue::i32(((v as u16) as i16) as i32),
        WasmMnemonic::I64Load8S => WasmStackValue::i64(((v as u8) as i8) as i64),
        WasmMnemonic::I64Load16S => WasmStackValue::i64(((v as u16) as i16) as i64),
        WasmMnemonic::I64Load32S => WasmStackValue::i64(((v as u32) as i32) as i64),
        _ => WasmStackValue::u64(v),
    }
}

/// Runs the memory or global instruction `m` at `pos`, whose opcode byte has been read. When
/// the allocator refuses the pages that `memory.grow` asks for within the limit, the run stops
/// with `Refused`.
fn exec_state(
    code_block: &mut WasmCodeBlock,
    m: WasmMnemonic,
    pos: usize,
    lv: &Vec<WasmStackValue>,
    stack: &mut Vec<WasmStackValue>,
    labels: &Vec<Label>,
    store: &mut WasmStore,
) -> (r: Flow)
    requires
        is_state_op(m),
        pos < old(code_block).code().len(),
        old(code_block).pc() == pos + 1,
    ensures
        final(code_block).code() == old(code_block).code(),
        final(code_block).pc() <= final(code_block).code().len(),
        r is Refused ==> state_step(old(code_block).code(), pos as nat, m, lv@, old(stack)@, labels@, old(store).state()).1.pages
            > old(store).state().pages,
        !(r is Refused) ==> match state_step(old(code_block).code(), pos as nat, m, lv@, old(stack)@, labels@, old(store).state()) {
            (Step::Next(p, lo, s, b), st) => r is Continue && final(code_block).pc() == p && lo == lv@
                && final(stack)@ == s && b == labels@ && final(store).state() == st,
            (Step::Trap(e), st) => r matches Flow::Trap(x) && x == e && final(store).state() == st,
            (Step::Stuck, st) => r is Stuck && final(store).state() == st,
            (Step::Finish(_), _) => false,
            (Step::Fault(_), _) => false,
        },
{
    let ghost code = code_block.code();
    let ghost imm = code.skip(pos + 1);
    let n = stack.len();
    if is_load_instruction(m) || is_store_instruction(m) {
        let _align = match code_block.read_index() {
            Ok(v) => v,
            Err(e) => {
                return Flow::Trap(e);
            },
        };
        proof {
            crate::leb128::lemma_decode_unsigned_bounds(imm, 5, 16);
            let k1 = decode_u32(imm).unwrap().1;
            assert(code.skip(code_block.pc() as int) =~= imm.skip(k1 as int));
        }
        let offset = match code_block.read_index() {
            Ok(v) => v,
            Err(e) => {
                return Flow::Trap(e);
            },
        };
        let w = width_of(m);
        if is_load_instruction(m) {
            if n == 0 {
                return Flow::Stuck;
            }
            let index = stack[n - 1].get_u32();
            match store.memory.load(offset, index, w) {
                Ok(v) => {
                    stack.pop();
                    stack.push(load_slot(m, v));
                    Flow::Continue
                },
                Err(e) => Flow::Trap(e),
            }
        } else {
            if n < 2 {
                return Flow::Stuck;
            }
            let value = stack[n - 1].get_u64();
            let index = stack[n - 2].get_u32();
            match store.memory.store(offset, index, w, value) {
                Ok(()) => {
                    stack.pop();
                    stack.pop();
                    proof {
                        assert(stack@ =~= old(stack)@.take(n - 2));
                    }
                    Flow::Continue
                },
                Err(e) => Flow::Trap(e),
            }
        }
    } else if matches!(m, WasmMnemonic::GlobalGet) || matches!(m, WasmMnemonic::GlobalSet) {
        let i = match code_block.read_index() {
            Ok(v) => v,
            Err(e) => {
                return Flow::Trap(e);
            },
        };
        if i as usize >= store.globals.len() {
            return Flow::Stuck;
        }
        if matches!(m, WasmMnemonic::GlobalGet) {
            let bits = store.globals[i as usize].raw_value();
            stack.push(WasmStackValue::u64(bits));
            Flow::Continue
        } else {
            if !store.globals[i as usize].is_mutable() || n == 0 {
                return Flow::Stuck;
            }
            let v = stack.pop().unwrap();
            let ghost g0 = store.globals@;
            store.globals[i as usize].set_raw_value(v.get_u64());
            proof {
                assert(globals_state(store.globals@) =~= globals_state(g0).update(i as int, (v.bits, true, g0[i as int].spec_val_type())));
            }
            Flow::Continue
        }
    } else {
        match code_block.read_byte() {
            Some(_) => {},
            None => {
                return Flow::Trap(WasmRuntimeErrorKind::InternalInconsistency);
            },
        }
        if matches!(m, WasmMnemonic::MemorySize) {
            let pages = store.memory.size();
            stack.push(WasmStackValue::i32(pages as i32));
            return Flow::Continue;
        }
        if n == 0 {
            return Flow::Stuck;
        }
        let delta = stack[n - 1].get_u32();
        let pages = store.memory.size();
        let result = if delta == 0 {
            pages
        } else if pages as u64 + delta as u64 > store.memory.limit() as u64 {
            u32::MAX
        } else {
            match store.memory.grow(delta) {
                Ok(p) => p,
                Err(_) => {
                    return Flow::Refused;
                },
            }
        };
        stack.pop();
        stack.push(WasmStackValue::u32(result));
        Flow::Continue
    }
}

/// How the run of a body ends
enum RunEnd {
    /// At the end of the body, with this stack
    Done(Vec<WasmStackValue>),
    /// With an error
    Trap(Fault),
    /// On an instruction that cannot run
    Stuck,
    /// The allocator refused the pages that a `memory.grow` asked for
    Refused,
}

/// One step keeps the limit of the memory, never takes pages away, and keeps the pages within
/// the limit.
proof fn lemma_step_pages(
    code: Seq<u8>,
    pos: nat,
    locals: Seq<WasmStackValue>,
    stack: Seq<WasmStackValue>,
    labels: Seq<Label>,
    st: StoreState,
)
    requires
        pos < code.len(),
    ensures
        step(code, pos, locals, stack, labels, st).1.pages >= st.pages,
        step(code, pos, locals, stack, labels, st).1.max_pages == st.max_pages,
        st.pages <= st.max_pages ==> step(code, pos, locals, stack, labels, st).1.pages
            <= step(code, pos, locals, stack, labels, st).1.max_pages,
{
}

/// A run keeps the limit of the memory, never takes pages away, and keeps the pages within
/// the limit.
proof fn lemma_run_pages(
    env: CallEnv,
    code: Seq<u8>,
    fuel: nat,
    pos: nat,
    locals: Seq<WasmStackValue>,
    stack: Seq<WasmStackValue>,
    labels: Seq<Label>,
    st: StoreState,
)
    ensures
        run_from(env, code, fuel, pos, locals, stack, labels, st).1.pages >= st.pages,
        run_from(env, code, fuel, pos, locals, stack, labels, st).1.max_pages == st.max_pages,
        st.pages <= st.max_pages ==> run_from(env, code, fuel, pos, locals, stack, labels, st).1.pages
            <= run_from(env, code, fuel, pos, locals, stack, labels, st).1.max_pages,
    decreases fuel, 0nat,
{
    if fuel > 0 && pos < code.len() {
        lemma_run_step_pages(env, code, (fuel - 1) as nat, pos, locals, stack, labels, st);
        match run_step(env, code, (fuel - 1) as nat, pos, locals, stack, labels, st) {
            (Step::Next(p, l, s, b), st2) => {
                lemma_run_pages(env, code, (fuel - 1) as nat, p, l, s, b, st2);
            },
            _ => {},
        }
    }
}

/// A run of a body never takes pages of memory away, keeps the limit of the memory, and
/// keeps the pages within that limit.
pub proof fn lemma_run_store_pages(env: CallEnv, code: Seq<u8>, params: Seq<WasmValue>, st: StoreState)
    ensures
        run_store(env, code, params, st).pages >= st.pages,
        run_store(env, code, params, st).max_pages == st.max_pages,
        st.pages <= st.max_pages ==> run_store(env, code, params, st).pages <= run_store(env, code, params, st).max_pages,
{
    lemma_run_pages(env, code, max_fuel(), 0, locals_of(params), Seq::empty(), Seq::empty(), st);
}

/// One instruction, a call among them, keeps the limit of the memory, never takes pages away,
/// and keeps the pages within the limit.
proof fn lemma_run_step_pages(
    env: CallEnv,
    code: Seq<u8>,
    fuel: nat,
    pos: nat,
    locals: Seq<WasmStackValue>,
    stack: Seq<WasmStackValue>,
    labels: Seq<Label>,
    st: StoreState,
)
    ensures
        run_step(env, code, fuel, pos, locals, stack, labels, st).1.pages >= st.pages,
        run_step(env, code, fuel, pos, locals, stack, labels, st).1.max_pages == st.max_pages,
        st.pages <= st.max_pages ==> run_step(env, code, fuel, pos, locals, stack, labels, st).1.pages
            <= run_step(env, code, fuel, pos, locals, stack, labels, st).1.max_pages,
    decreases fuel, 2nat,
{
    if pos < code.len() {
        if mnemonic_of_byte(code[pos as int]) == Some(WasmMnemonic::Call) {
            match decode_u32(code.skip((pos + 1) as int)) {
                Err(_) => {},
                Ok((f, k)) => {
                    lemma_call_pages(env, f, fuel, stack, st);
                },
            }
        } else if mnemonic_of_byte(code[pos as int]) == Some(WasmMnemonic::CallIndirect) {
            if stack.len() > 0 {
                let index = (stack.last().bits as i32) as usize;
                if index < env.table.len() {
                    lemma_call_pages(env, env.table[index as int] as nat, fuel, stack.drop_last(), st);
                }
            }
        } else {
            lemma_step_pages(code, pos, locals, stack, labels, st);
        }
    }
}

/// A call keeps the limit of the memory, never takes pages away, and keeps the pages within
/// the limit.
proof fn lemma_call_pages(
    env: CallEnv,
    f: nat,
    fuel: nat,
    stack: Seq<WasmStackValue>,
    st: StoreState,
)
    ensures
        call_step(env, f, fuel, stack, st).1.pages >= st.pages,
        call_step(env, f, fuel, stack, st).1.max_pages == st.max_pages,
        st.pages <= st.max_pages ==> call_step(env, f, fuel, stack, st).1.pages <= call_step(
            env,
            f,
            fuel,
            stack,
            st,
        ).1.max_pages,
    decreases fuel, 1nat,
{
    if f < env.funcs.len() {
        let callee = env.funcs[f as int];
        match callee.body() {
            None => {},
            Some((local_types, body)) => {
                let p = callee.params().len();
                let n = stack.len();
                if n >= p {
                    let args = stack.skip(n - p) + zero_slots(local_types.len());
                    lemma_run_pages(env, body, fuel, 0, args, Seq::empty(), Seq::empty(), st);
                }
            },
        }
    }
}

/// Runs the instruction `m` at `pos`, whose opcode byte has been read, with calls at most
/// `fuel` instructions deep; see `run_step`.
fn exec_instruction<F: Fn(usize, &[WasmValue], &[u8]) -> Result<Option<WasmValue>, WasmRuntimeErrorKind>>(
    funcs: &[WasmFunction],
    table: &[usize],
    host: &F,
    Ghost(spec): Ghost<HostResult>,
    code_block: &mut WasmCodeBlock,
    m: WasmMnemonic,
    pos: usize,
    fuel: u64,
    lv: &mut Vec<WasmStackValue>,
    stack: &mut Vec<WasmStackValue>,
    labels: &mut Vec<Label>,
    store: &mut WasmStore,
) -> (r: Flow)
    requires
        host_agrees(*host, spec),
        pos < old(code_block).code().len(),
        old(code_block).pc() == pos + 1,
        old(code_block).code().len() <= usize::MAX,
        mnemonic_of_byte(old(code_block).code()[pos as int]) == Some(m),
        labels_within(old(labels)@, old(code_block).code().len()),
    ensures
        final(code_block).code() == old(code_block).code(),
        final(code_block).pc() <= final(code_block).code().len(),
        labels_within(final(labels)@, old(code_block).code().len()),
        r is Refused ==> run_step(call_env(funcs@, table@, spec), old(code_block).code(), fuel as nat, pos as nat, old(lv)@, old(stack)@, old(labels)@, old(store).state()).1.pages
            > old(store).state().pages,
        !(r is Refused) ==> match run_step(
            call_env(funcs@, table@, spec),
            old(code_block).code(),
            fuel as nat,
            pos as nat,
            old(lv)@,
            old(stack)@,
            old(labels)@,
            old(store).state(),
        ) {
            (Step::Next(p, l, s, b), st) => r is Continue && final(code_block).pc() == p && final(lv)@ == l
                && final(stack)@ == s && final(labels)@ == b && final(store).state() == st,
            (Step::Finish(s), st) => r is Finish && final(stack)@ == s && final(store).state() == st,
            (Step::Trap(e), st) => r matches Flow::Trap(x) && x == e && final(store).state() == st,
            (Step::Fault(flt), st) => r matches Flow::Fault(x) && x == flt && final(store).state() == st,
            (Step::Stuck, st) => r is Stuck && final(store).state() == st,
        },
    decreases fuel, 2nat,
{
    if matches!(m, WasmMnemonic::Call) {
        let f = match code_block.read_index() {
            Ok(v) => v,
            Err(e) => {
                return Flow::Trap(e);
            },
        };
        exec_call(funcs, table, host, Ghost(spec), f as usize, fuel, stack, store)
    } else if matches!(m, WasmMnemonic::CallIndirect) {
        let t = match code_block.read_index() {
            Ok(v) => v,
            Err(e) => {
                return Flow::Trap(e);
            },
        };
        proof {
            let s = old(code_block).code().skip(pos + 1);
            crate::leb128::lemma_decode_unsigned_bounds(s, 5, 16);
        }
        if code_block.read_byte().is_none() {
            return Flow::Trap(WasmRuntimeErrorKind::InternalInconsistency);
        }
        let n = stack.len();
        if n == 0 {
            return Flow::Stuck;
        }
        let index = stack[n - 1].get_i32() as usize;
        if index >= table.len() || table[index] >= funcs.len() {
            return Flow::Trap(WasmRuntimeErrorKind::NoMethod);
        }
        let f = table[index];
        if funcs[f].type_index().0 != t {
            return Flow::Trap(WasmRuntimeErrorKind::TypeMismatch);
        }
        stack.pop();
        exec_call(funcs, table, host, Ghost(spec), f, fuel, stack, store)
    } else if is_control_instruction(m) {
        exec_control(code_block, m, pos, lv, stack, labels)
    } else if is_state_instruction(m) {
        exec_state(code_block, m, pos, lv, stack, labels, store)
    } else {
        exec_plain(code_block, m, pos, lv, stack, labels)
    }
}

/// Runs the body in `code_block` from its start with `lv` as its locals, at most `fuel`
/// instructions deep; see `run_from`.
fn run_code<F: Fn(usize, &[WasmValue], &[u8]) -> Result<Option<WasmValue>, WasmRuntimeErrorKind>>(
    funcs: &[WasmFunction],
    table: &[usize],
    host: &F,
    Ghost(spec): Ghost<HostResult>,
    code_block: &mut WasmCodeBlock,
    fuel: u64,
    locals: Vec<WasmStackValue>,
    store: &mut WasmStore,
) -> (r: RunEnd)
    requires
        host_agrees(*host, spec),
    ensures
        final(code_block).code() == old(code_block).code(),
        r is Refused ==> run_from(call_env(funcs@, table@, spec), old(code_block).code(), fuel as nat, 0, locals@, Seq::empty(), Seq::empty(), old(store).state()).1.pages
            > old(store).state().pages,
        !(r is Refused) ==> ({
            let (o, st) = run_from(call_env(funcs@, table@, spec), old(code_block).code(), fuel as nat, 0, locals@, Seq::empty(), Seq::empty(), old(store).state());
            &&& final(store).state() == st
            &&& match r {
                RunEnd::Done(s) => o == Outcome::Done(s@),
                RunEnd::Trap(flt) => o == Outcome::Trap(flt),
                RunEnd::Stuck => o is Stuck,
                RunEnd::Refused => false,
            }
        }),
    decreases fuel, 0nat,
{
    let ghost code0 = code_block.code();
    let ghost st0 = store.state();
    let ghost lv0 = locals@;
    let ghost outcome = run_from(call_env(funcs@, table@, spec), code0, fuel as nat, 0, lv0, Seq::empty(), Seq::empty(), st0);
    let mut lv = locals;
    let mut stack: Vec<WasmStackValue> = Vec::new();
    let mut labels: Vec<Label> = Vec::new();
    let mut left: u64 = fuel;
    let size = code_block.size();
    code_block.reset();
    loop
        invariant_except_break
            run_from(call_env(funcs@, table@, spec), code0, left as nat, code_block.pc(), lv@, stack@, labels@, store.state()) == outcome,
        invariant
            code0 == old(code_block).code(),
            code_block.code() == code0,
            size == code0.len(),
            code_block.pc() <= code0.len(),
            labels_within(labels@, code0.len()),
            left <= fuel,
            st0 == old(store).state(),
            store.state().pages >= st0.pages,
            outcome == run_from(call_env(funcs@, table@, spec), code0, fuel as nat, 0, lv0, Seq::empty(), Seq::empty(), st0),
            lv0 == locals@,
            host_agrees(*host, spec),
        ensures
            outcome == (Outcome::Done(stack@), store.state()),
        decreases left,
    {
        if left == 0 {
            return RunEnd::Trap(Fault { kind: WasmRuntimeErrorKind::InternalInconsistency, site: None });
        }
        let pos = code_block.position();
        let byte = match code_block.read_byte() {
            Some(b) => b,
            None => {
                return RunEnd::Trap(Fault { kind: WasmRuntimeErrorKind::InternalInconsistency, site: None });
            },
        };
        let ghost l0 = lv@;
        let ghost s0 = stack@;
        let ghost b0 = labels@;
        let ghost t0 = store.state();
        let flow = if byte == 0xFC {
            exec_bulk(code_block, pos, &lv, &mut stack, &labels, store)
        } else {
            let m = match WasmMnemonic::from_u8(byte) {
                Some(m) => m,
                None => {
                    assert(run_step(call_env(funcs@, table@, spec), code0, (left - 1) as nat, pos as nat, lv@, stack@, labels@, store.state())
                        == (Step::Trap(WasmRuntimeErrorKind::NotSupported), store.state()));
                    return RunEnd::Trap(
                        Fault {
                            kind: WasmRuntimeErrorKind::NotSupported,
                            site: Some(TrapSite { func: None, pos, mnemonic: WasmMnemonic::Nop }),
                        },
                    );
                },
            };
            exec_instruction(funcs, table, host, Ghost(spec), code_block, m, pos, left - 1, &mut lv, &mut stack, &mut labels, store)
        };
        proof {
            lemma_run_step_pages(call_env(funcs@, table@, spec), code0, (left - 1) as nat, pos as nat, l0, s0, b0, t0);
            match run_step(call_env(funcs@, table@, spec), code0, (left - 1) as nat, pos as nat, l0, s0, b0, t0) {
                (Step::Next(p, l, s, b), st2) => {
                    lemma_run_pages(call_env(funcs@, table@, spec), code0, (left - 1) as nat, p, l, s, b, st2);
                },
                _ => {},
            }
        }
        match flow {
            Flow::Continue => {},
            Flow::Finish => {
                break;
            },
            Flow::Trap(e) => {
                let mnemonic = code_block.mnemonic_at(pos);
                return RunEnd::Trap(Fault { kind: e, site: Some(TrapSite { func: None, pos, mnemonic }) });
            },
            Flow::Fault(flt) => {
                return RunEnd::Trap(flt);
            },
            Flow::Stuck => {
                return RunEnd::Stuck;
            },
            Flow::Refused => {
                return RunEnd::Refused;
            },
        }
        left = left - 1;
    }
    RunEnd::Done(stack)
}

/// A call of the host function of `handle` whose type has `params` and `results`; see
/// `call_step`.
fn call_host<F: Fn(usize, &[WasmValue], &[u8]) -> Result<Option<WasmValue>, WasmRuntimeErrorKind>>(
    host: &F,
    Ghost(spec): Ghost<HostResult>,
    handle: usize,
    params: &[WasmValType],
    results: &[WasmValType],
    stack: &mut Vec<WasmStackValue>,
    store: &WasmStore,
) -> (r: Flow)
    requires
        host_agrees(*host, spec),
    ensures
        old(stack)@.len() < params@.len() ==> r is Stuck,
        old(stack)@.len() >= params@.len() ==> match spec(handle as nat, call_args(old(stack)@, params@), store.state().memory) {
            Err(e) => r matches Flow::Fault(x) && x == bare_fault(e),
            Ok(v) => match host_return(v, results@, old(stack)@.take(old(stack)@.len() - params@.len())) {
                CallEnd::Back(s) => r is Continue && final(stack)@ == s,
                CallEnd::Trap(e) => r matches Flow::Trap(x) && x == e,
                CallEnd::Stuck => r is Stuck,
                CallEnd::Fault(_) => false,
            },
        },
{
    let p = params.len();
    let n = stack.len();
    if n < p {
        return Flow::Stuck;
    }
    let mut args: Vec<WasmValue> = Vec::new();
    let mut i: usize = 0;
    while i < p
        invariant
            i <= p,
            p == params@.len(),
            p <= n,
            n == stack@.len(),
            args@ == Seq::new(i as nat, |j: int| slot_value(stack@[n - p + j], params@[j])),
        decreases p - i,
    {
        args.push(read_slot(stack[n - p + i], params[i]));
        proof {
            assert(args@ =~= Seq::new((i + 1) as nat, |j: int| slot_value(stack@[n - p + j], params@[j])));
        }
        i = i + 1;
    }
    proof {
        assert(args@ =~= call_args(stack@, params@));
    }
    let memory = match store.memory.try_borrow() {
        Ok(d) => d.as_slice(),
        Err(e) => {
            return Flow::Trap(e);
        },
    };
    let arg_slice = args.as_slice();
    let given = (*host)(handle, arg_slice, memory);
    proof {
        assert(call_requires(*host, (handle, arg_slice, memory)));
        assert(call_ensures(*host, (handle, arg_slice, memory), given));
        assert(given == spec(handle as nat, arg_slice@, memory@));
    }
    match given {
        Err(e) => Flow::Fault(Fault { kind: e, site: None }),
        Ok(v) => {
            if results.len() == 0 {
                match v {
                    None => {
                        stack.truncate(n - p);
                        Flow::Continue
                    },
                    Some(_) => Flow::Trap(WasmRuntimeErrorKind::TypeMismatch),
                }
            } else {
                match v {
                    Some(val) => {
                        if val.is_valid_type(results[0]) {
                            stack.truncate(n - p);
                            stack.push(WasmStackValue::from_value(val));
                            Flow::Continue
                        } else {
                            Flow::Trap(WasmRuntimeErrorKind::TypeMismatch)
                        }
                    },
                    None => Flow::Trap(WasmRuntimeErrorKind::TypeMismatch),
                }
            }
        },
    }
}

/// A call of the function `f` of `funcs`, whose body runs at most `fuel` instructions deep, with
/// `table` for the `call_indirect` instructions it runs;
/// see `call_step`.
fn exec_call<F: Fn(usize, &[WasmValue], &[u8]) -> Result<Option<WasmValue>, WasmRuntimeErrorKind>>(
    funcs: &[WasmFunction],
    table: &[usize],
    host: &F,
    Ghost(spec): Ghost<HostResult>,
    f: usize,
    fuel: u64,
    stack: &mut Vec<WasmStackValue>,
    store: &mut WasmStore,
) -> (r: Flow)
    requires
        host_agrees(*host, spec),
    ensures
        r is Refused ==> call_step(call_env(funcs@, table@, spec), f as nat, fuel as nat, old(stack)@, old(store).state()).1.pages
            > old(store).state().pages,
        !(r is Refused) ==> match call_step(call_env(funcs@, table@, spec), f as nat, fuel as nat, old(stack)@, old(store).state()) {
            (CallEnd::Back(s), st) => r is Continue && final(stack)@ == s && final(store).state() == st,
            (CallEnd::Trap(e), st) => r matches Flow::Trap(x) && x == e && final(store).state() == st,
            (CallEnd::Fault(flt), st) => r matches Flow::Fault(x) && x == flt && final(store).state() == st,
            (CallEnd::Stuck, st) => r is Stuck && final(store).state() == st,
        },
    decreases fuel, 1nat,
{
    if f >= funcs.len() {
        return Flow::Stuck;
    }
    let callee = &funcs[f];
    let body = match callee.content() {
        WasmFunctionContent::CodeBlock(b) => b,
        WasmFunctionContent::Dynamic(h) => {
            return call_host(host, Ghost(spec), *h, callee.param_types(), callee.result_types(), stack, store);
        },
        WasmFunctionContent::Unresolved => {
            return Flow::Trap(WasmRuntimeErrorKind::NoMethod);
        },
    };
    let p = callee.param_types().len();
    let n = stack.len();
    if n < p {
        return Flow::Stuck;
    }
    let local_types = body.local_types();
    let mut args: Vec<WasmStackValue> = Vec::new();
    let mut i = n - p;
    while i < n
        invariant
            p <= n,
            n - p <= i <= n,
            n == stack@.len(),
            args@ == stack@.subrange(n - p, i as int),
        decreases n - i,
    {
        proof {
            assert(stack@.subrange(n - p, i + 1) =~= stack@.subrange(n - p, i as int).push(stack@[i as int]));
        }
        args.push(stack[i]);
        i = i + 1;
    }
    let ghost given = args@;
    let mut j: usize = 0;
    while j < local_types.len()
        invariant
            j <= local_types@.len(),
            args@ == given + zero_slots(j as nat),
        decreases local_types.len() - j,
    {
        args.push(WasmStackValue::u64(0));
        proof {
            assert(args@ =~= given + zero_slots((j + 1) as nat));
        }
        j = j + 1;
    }
    proof {
        assert(given =~= old(stack)@.skip(n - p));
    }
    stack.truncate(n - p);
    let mut code_block = WasmCodeBlock::from_slice(body.code());
    match run_code(funcs, table, host, Ghost(spec), &mut code_block, fuel, args, store) {
        RunEnd::Done(s) => {
            if callee.result_types().len() == 0 {
                Flow::Continue
            } else if s.len() == 0 {
                Flow::Stuck
            } else {
                stack.push(s[s.len() - 1]);
                Flow::Continue
            }
        },
        RunEnd::Trap(flt) => Flow::Fault(callee_fault(flt, callee.index())),
        RunEnd::Stuck => Flow::Stuck,
        RunEnd::Refused => Flow::Refused,
    }
}

/// An error of the called function `f`, as its caller sees it; see `in_callee`.
fn callee_fault(flt: Fault, f: usize) -> (r: Fault)
    ensures
        r == in_callee(flt, f as nat),
{
    match flt.site {
        Some(s) => match s.func {
            None => Fault { kind: flt.kind, site: Some(TrapSite { func: Some(f), pos: s.pos, mnemonic: s.mnemonic }) },
            Some(_) => flt,
        },
        None => flt,
    }
}

/// Runs the instruction with the `FC` prefix at `pos`, whose prefix has been read; see
/// `bulk_step`.
fn exec_bulk(
    code_block: &mut WasmCodeBlock,
    pos: usize,
    lv: &Vec<WasmStackValue>,
    stack: &mut Vec<WasmStackValue>,
    labels: &Vec<Label>,
    store: &mut WasmStore,
) -> (r: Flow)
    requires
        pos < old(code_block).code().len(),
        old(code_block).pc() == pos + 1,
    ensures
        final(code_block).code() == old(code_block).code(),
        final(code_block).pc() <= final(code_block).code().len(),
        match bulk_step(old(code_block).code(), pos as nat, lv@, old(stack)@, labels@, old(store).state()) {
            (Step::Next(p, lo, s, b), st) => r is Continue && final(code_block).pc() == p && lo == lv@
                && final(stack)@ == s && b == labels@ && final(store).state() == st,
            (Step::Trap(e), st) => r matches Flow::Trap(x) && x == e && final(store).state() == st,
            (Step::Stuck, st) => r is Stuck && final(store).state() == st,
            (Step::Finish(_), _) => false,
            (Step::Fault(_), _) => false,
        },
{
    let ghost s = code_block.code().skip(pos + 1);
    let v = match code_block.read_index() {
        Ok(v) => v,
        Err(e) => {
            return Flow::Trap(e);
        },
    };
    if v != 0x0A && v != 0x0B {
        return Flow::Trap(WasmRuntimeErrorKind::NotSupported);
    }
    proof {
        crate::leb128::lemma_decode_unsigned_bounds(s, 5, 16);
        let k = decode_u32(s).unwrap().1;
        assert(code_block.code().skip(code_block.pc() as int) =~= s.skip(k as int));
    }
    if let Err(e) = code_block.read_uint() {
        return Flow::Trap(e);
    }
    if v == 0x0A {
        proof {
            let k = decode_u32(s).unwrap().1;
            crate::leb128::lemma_decode_unsigned_bounds(s.skip(k as int), 10, 2);
            let k1 = decode_u64(s.skip(k as int)).unwrap().1;
            assert(code_block.code().skip(code_block.pc() as int) =~= s.skip((k + k1) as int));
        }
        if let Err(e) = code_block.read_uint() {
            return Flow::Trap(e);
        }
    }
    let n = stack.len();
    if n < 3 {
        return Flow::Stuck;
    }
    let a = stack[n - 3].get_u32();
    let b = stack[n - 2].get_u32();
    let c = stack[n - 1].get_u32();
    let done = if v == 0x0A {
        store.memory.copy_within(a, b, c)
    } else {
        store.memory.fill_range(a, b as u8, c)
    };
    match done {
        Ok(()) => {
            stack.truncate(n - 3);
            Flow::Continue
        },
        Err(e) => Flow::Trap(e),
    }
}

/// Whether `m` is a control instruction
fn is_control_instruction(m: WasmMnemonic) -> (r: bool)
    ensures
        r == is_control(m),
{
    matches!(
        m,
        WasmMnemonic::Unreachable | WasmMnemonic::Nop | WasmMnemonic::Return | WasmMnemonic::Block
            | WasmMnemonic::Loop | WasmMnemonic::If | WasmMnemonic::Else | WasmMnemonic::End
            | WasmMnemonic::Br | WasmMnemonic::BrIf | WasmMnemonic::BrTable
    )
}

/// The end a scan finds lies within the code, after the start, and so does the `else`.
pub proof fn lemma_scan_end_bounds(code: Seq<u8>, pos: nat, depth: nat, else_at: Option<nat>)
    requires
        else_at matches Some(x) ==> x < code.len(),
    ensures
        scan_end(code, pos, depth, else_at) matches Some((e, el)) ==> pos <= e < code.len() && (el matches Some(
            x,
        ) ==> x < code.len()),
    decreases code.len() - pos,
{
    if pos < code.len() && code[pos as int] == 0xFC {
        if let Some(n) = fc_len(code.skip((pos + 1) as int)) {
            if pos + 1 + n <= code.len() {
                lemma_scan_end_bounds(code, pos + 1 + n, depth, else_at);
            }
        }
    } else if pos < code.len() {
        match mnemonic_of_byte(code[pos as int]) {
            None => {},
            Some(m) => {
                if m is End {
                    if depth > 0 {
                        lemma_scan_end_bounds(code, pos + 1, (depth - 1) as nat, else_at);
                    }
                } else if m is Else && depth == 0 {
                    lemma_scan_end_bounds(code, pos + 1, depth, Some(pos));
                } else {
                    match imm_len(m, code.skip((pos + 1) as int)) {
                        None => {},
                        Some(n) => {
                            let d = if m is Block || m is Loop || m is If {
                                depth + 1
                            } else {
                                depth
                            };
                            if pos + 1 + n <= code.len() {
                                lemma_scan_end_bounds(code, pos + 1 + n, d, else_at);
                            }
                        },
                    }
                }
            },
        }
    }
}

/// A function body in bytecode, read from its start to its `end`
pub struct WasmCodeBlock {
    reader: Leb128Reader,
    func_index: usize,
    file_position: usize,
    local_types: Vec<WasmValType>,
    leaf: bool,
    max_stack: usize,
}

impl WasmCodeBlock {
    /// The bytecode
    pub closed spec fn code(&self) -> Seq<u8> {
        self.reader.bytes()
    }

    /// The position of the next instruction
    pub closed spec fn pc(&self) -> nat {
        self.reader.pos()
    }

    /// The index of the function whose body this is
    pub closed spec fn spec_func_index(&self) -> usize {
        self.func_index
    }

    /// The position of the body in the file
    pub closed spec fn spec_file_position(&self) -> usize {
        self.file_position
    }

    /// The types of all locals, the parameters first
    pub closed spec fn spec_local_types(&self) -> Seq<WasmValType> {
        self.local_types@
    }

    /// Whether the body is known to call no function
    pub closed spec fn spec_is_leaf(&self) -> bool {
        self.leaf
    }

    /// The largest number of operands on the stack before an instruction, as the check found it
    pub closed spec fn spec_max_stack(&self) -> usize {
        self.max_stack
    }

    /// A code block over a copy of `slice`, at its start. Made from bytes alone, it belongs to
    /// no function (index and position 0, no locals) and is not known to be a leaf.
    pub fn from_slice(slice: &[u8]) -> (r: Self)
        ensures
            r.code() == slice@,
            r.pc() == 0,
            r.spec_func_index() == 0,
            r.spec_file_position() == 0,
            r.spec_local_types() == Seq::<WasmValType>::empty(),
            !r.spec_is_leaf(),
            r.spec_max_stack() == 0,
    {
        Self {
            reader: Leb128Reader::from_slice(slice),
            func_index: 0,
            file_position: 0,
            local_types: Vec::new(),
            leaf: false,
            max_stack: 0,
        }
    }

    /// A code block over a copy of `slice`, at its start, for the body of function
    /// `func_index` at `file_position` with `local_types`, a leaf or not, with at most
    /// `max_stack` operands on the stack
    pub(crate) fn of_function(
        slice: &[u8],
        func_index: usize,
        file_position: usize,
        local_types: &[WasmValType],
        leaf: bool,
        max_stack: usize,
    ) -> (r: Self)
        ensures
            r.code() == slice@,
            r.pc() == 0,
            r.spec_func_index() == func_index,
            r.spec_file_position() == file_position,
            r.spec_local_types() == local_types@,
            r.spec_is_leaf() == leaf,
            r.spec_max_stack() == max_stack,
    {
        Self {
            reader: Leb128Reader::from_slice(slice),
            func_index,
            file_position,
            local_types: vstd::slice::slice_to_vec(local_types),
            leaf,
            max_stack,
        }
    }

    /// The index of the function whose body this is
    pub fn func_index(&self) -> (r: usize)
        ensures
            r == self.spec_func_index(),
    {
        self.func_index
    }

    /// The position of the body in the file
    pub fn file_position(&self) -> (r: usize)
        ensures
            r == self.spec_file_position(),
    {
        self.file_position
    }

    /// The types of all locals, the parameters first
    pub fn local_types(&self) -> (r: &[WasmValType])
        ensures
            r@ == self.spec_local_types(),
    {
        self.local_types.as_slice()
    }

    /// Whether the body is known to call no function
    pub fn is_leaf(&self) -> (r: bool)
        ensures
            r == self.spec_is_leaf(),
    {
        self.leaf
    }

    /// The largest number of operands on the stack before an instruction
    pub fn max_value_stack(&self) -> (r: usize)
        ensures
            r == self.spec_max_stack(),
    {
        self.max_stack
    }

    /// The size of the bytecode
    fn size(&self) -> (r: usize)
        ensures
            r == self.code().len(),
    {
        self.reader.len()
    }

    /// Goes back to the start.
    pub fn reset(&mut self)
        ensures
            final(self).code() == old(self).code(),
            final(self).pc() == 0,
    {
        self.reader.reset();
    }

    /// The position of the next instruction
    pub fn position(&self) -> (r: usize)
        ensures
            r == self.pc(),
            r <= self.code().len(),
    {
        self.reader.position()
    }

    /// Reads an opcode byte: the instruction it encodes, if any; `InternalInconsistency`
    /// past the end.
    pub fn read_opcode(&mut self) -> (r: Result<Option<WasmMnemonic>, WasmRuntimeErrorKind>)
        requires
            old(self).pc() <= old(self).code().len(),
        ensures
            final(self).code() == old(self).code(),
            final(self).pc() <= final(self).code().len(),
            old(self).pc() == old(self).code().len() ==> r == Err::<Option<WasmMnemonic>, WasmRuntimeErrorKind>(
                WasmRuntimeErrorKind::InternalInconsistency,
            ) && final(self).pc() == old(self).pc(),
            old(self).pc() < old(self).code().len() ==> r == Ok::<Option<WasmMnemonic>, WasmRuntimeErrorKind>(
                mnemonic_of_byte(old(self).code()[old(self).pc() as int]),
            ) && final(self).pc() == old(self).pc() + 1,
    {
        match self.reader.read_byte() {
            Ok(b) => Ok(WasmMnemonic::from_u8(b)),
            Err(_) => Err(WasmRuntimeErrorKind::InternalInconsistency),
        }
    }

    /// Reads an unsigned LEB128 immediate; `InternalInconsistency` if there is none.
    pub fn read_uint(&mut self) -> (r: Result<u64, WasmRuntimeErrorKind>)
        requires
            old(self).pc() <= old(self).code().len(),
        ensures
            final(self).code() == old(self).code(),
            final(self).pc() <= final(self).code().len(),
            match decode_u64(old(self).code().skip(old(self).pc() as int)) {
                Ok((v, n)) => r == Ok::<u64, WasmRuntimeErrorKind>(v as u64) && final(self).pc()
                    == old(self).pc() + n,
                Err(_) => r == Err::<u64, WasmRuntimeErrorKind>(WasmRuntimeErrorKind::InternalInconsistency),
            },
    {
        assert(self.reader.rest() =~= self.code().skip(self.pc() as int));
        let r = match self.reader.read_unsigned() {
            Ok(v) => Ok(v),
            Err(_) => Err(WasmRuntimeErrorKind::InternalInconsistency),
        };
        let _ = self.reader.position();
        r
    }

    /// Reads a signed LEB128 immediate; `InternalInconsistency` if there is none.
    pub fn read_sint(&mut self) -> (r: Result<i64, WasmRuntimeErrorKind>)
        requires
            old(self).pc() <= old(self).code().len(),
        ensures
            final(self).code() == old(self).code(),
            final(self).pc() <= final(self).code().len(),
            match decode_i64(old(self).code().skip(old(self).pc() as int)) {
                Ok((v, n)) => r == Ok::<i64, WasmRuntimeErrorKind>(v as i64) && final(self).pc()
                    == old(self).pc() + n,
                Err(_) => r == Err::<i64, WasmRuntimeErrorKind>(WasmRuntimeErrorKind::InternalInconsistency),
            },
    {
        assert(self.reader.rest() =~= self.code().skip(self.pc() as int));
        let r = match self.reader.read_signed() {
            Ok(v) => Ok(v),
            Err(_) => Err(WasmRuntimeErrorKind::InternalInconsistency),
        };
        let _ = self.reader.position();
        r
    }

    /// Moves to a position of the code.
    pub fn seek(&mut self, pos: usize)
        requires
            pos <= old(self).code().len(),
        ensures
            final(self).code() == old(self).code(),
            final(self).pc() == pos,
    {
        self.reader.seek(pos);
    }

    /// The instruction at `pos` as an error names it; see `site_mnemonic`.
    fn mnemonic_at(&mut self, pos: usize) -> (r: WasmMnemonic)
        requires
            pos < old(self).code().len(),
        ensures
            final(self).code() == old(self).code(),
            r == site_mnemonic(old(self).code(), pos as nat),
    {
        self.seek(pos);
        let byte = match self.read_byte() {
            Some(b) => b,
            None => {
                return WasmMnemonic::Nop;
            },
        };
        if byte == 0xFC {
            match self.read_index() {
                Ok(v) => crate::cg::fc_of(v),
                Err(_) => WasmMnemonic::Nop,
            }
        } else {
            match WasmMnemonic::from_u8(byte) {
                Some(m) => m,
                None => WasmMnemonic::Nop,
            }
        }
    }

    /// Reads one byte; none past the end.
    pub fn read_byte(&mut self) -> (r: Option<u8>)
        requires
            old(self).pc() <= old(self).code().len(),
        ensures
            final(self).code() == old(self).code(),
            final(self).pc() <= final(self).code().len(),
            old(self).pc() == old(self).code().len() ==> r is None,
            old(self).pc() < old(self).code().len() ==> r == Some(old(self).code()[old(self).pc() as int])
                && final(self).pc() == old(self).pc() + 1,
    {
        match self.reader.read_byte() {
            Ok(b) => Some(b),
            Err(_) => None,
        }
    }

    /// Reads the little-endian number of `width` bytes; none when fewer bytes are left.
    pub fn read_le(&mut self, width: usize) -> (r: Option<u64>)
        requires
            old(self).pc() <= old(self).code().len(),
            width <= 8,
        ensures
            final(self).code() == old(self).code(),
            final(self).pc() <= final(self).code().len(),
            old(self).pc() + width <= old(self).code().len() ==> r == Some(
                le_value(old(self).code().subrange(old(self).pc() as int, old(self).pc() + width)) as u64,
            ) && final(self).pc() == old(self).pc() + width,
            old(self).pc() + width > old(self).code().len() ==> r is None,
    {
        let r = match self.reader.read_bytes(width) {
            Ok(b) => {
                proof {
                    assert(b@ =~= self.code().subrange(old(self).pc() as int, old(self).pc() + width));
                }
                Some(little_endian(b.as_slice()))
            },
            Err(_) => None,
        };
        let _ = self.reader.position();
        r
    }

    /// Reads an unsigned LEB128 immediate of at most 32 bits; `InternalInconsistency` if there
    /// is none.
    pub fn read_index(&mut self) -> (r: Result<u32, WasmRuntimeErrorKind>)
        requires
            old(self).pc() <= old(self).code().len(),
        ensures
            final(self).code() == old(self).code(),
            final(self).pc() <= final(self).code().len(),
            match decode_u32(old(self).code().skip(old(self).pc() as int)) {
                Ok((v, n)) => r == Ok::<u32, WasmRuntimeErrorKind>(v as u32) && v < 0x1_0000_0000
                    && final(self).pc() == old(self).pc() + n,
                Err(_) => r == Err::<u32, WasmRuntimeErrorKind>(WasmRuntimeErrorKind::InternalInconsistency),
            },
    {
        assert(self.reader.rest() =~= self.code().skip(self.pc() as int));
        let r = match self.reader.read_u32() {
            Ok(v) => Ok(v),
            Err(_) => Err(WasmRuntimeErrorKind::InternalInconsistency),
        };
        let _ = self.reader.position();
        r
    }

    /// Reads `count` indices one after another.
    fn read_indices(&mut self, count: u64) -> (r: Option<Vec<u32>>)
        requires
            old(self).pc() <= old(self).code().len(),
        ensures
            final(self).code() == old(self).code(),
            final(self).pc() <= final(self).code().len(),
            match decode_u32s(old(self).code().skip(old(self).pc() as int), count as nat) {
                Ok((vs, k)) => r matches Some(v) && v@.len() == vs.len() && (forall|i: int|
                    0 <= i < vs.len() ==> v@[i] as nat == vs[i]) && final(self).pc() == old(self).pc() + k,
                Err(_) => r is None,
            },
    {
        let ghost s0 = self.code().skip(self.pc() as int);
        let ghost p0 = self.pc();
        let mut out: Vec<u32> = Vec::new();
        let ghost mut acc: Seq<nat> = Seq::empty();
        let mut j: u64 = 0;
        while j < count
            invariant
                j <= count,
                self.code() == old(self).code(),
                self.pc() <= self.code().len(),
                p0 == old(self).pc(),
                s0 == self.code().skip(p0 as int),
                p0 <= self.pc(),
                out@.len() == acc.len(),
                forall|i: int| 0 <= i < acc.len() ==> out@[i] as nat == acc[i],
                decode_u32s(s0, count as nat) == match decode_u32s(self.code().skip(self.pc() as int), (count - j) as nat) {
                    Ok((vs, k)) => Ok((acc + vs, ((self.pc() - p0) + k) as nat)),
                    Err(e) => Err(e),
                },
            decreases count - j,
        {
            let ghost rs = self.code().skip(self.pc() as int);
            let ghost pc = self.pc();
            proof {
                crate::leb128::lemma_decode_unsigned_bounds(rs, 5, 16);
            }
            let v = match self.read_index() {
                Ok(v) => v,
                Err(_) => {
                    proof {
                        assert(decode_u32s(rs, (count - j) as nat) is Err);
                    }
                    return None;
                },
            };
            proof {
                let n = decode_u32(rs).unwrap().1;
                let rest = rs.skip(n as int);
                let c1 = (count - j - 1) as nat;
                assert(self.code().skip(self.pc() as int) =~= rest);
                assert(decode_u32s(rs, (count - j) as nat) == match decode_u32s(rest, c1) {
                    Ok((vs, k)) => Ok((seq![v as nat].add(vs), n + k)),
                    Err(e) => Err(e),
                });
                match decode_u32s(rest, c1) {
                    Ok((vs, k)) => {
                        assert(acc + seq![v as nat].add(vs) =~= acc.push(v as nat) + vs);
                    },
                    Err(_) => {},
                }
                acc = acc.push(v as nat);
            }
            out.push(v);
            j = j + 1;
        }
        proof {
            assert(acc + Seq::<nat>::empty() =~= acc);
        }
        Some(out)
    }

    /// Skips the immediate of instruction `m`; false when it does not decode.
    fn skip_immediate(&mut self, m: WasmMnemonic) -> (r: bool)
        requires
            old(self).pc() <= old(self).code().len(),
        ensures
            final(self).code() == old(self).code(),
            final(self).pc() <= final(self).code().len(),
            match imm_len(m, old(self).code().skip(old(self).pc() as int)) {
                Some(n) => r && final(self).pc() == old(self).pc() + n,
                None => !r,
            },
    {
        let ghost s = self.code().skip(self.pc() as int);
        match m {
            WasmMnemonic::Block | WasmMnemonic::Loop | WasmMnemonic::If | WasmMnemonic::I64Const => {
                self.read_sint().is_ok()
            },
            WasmMnemonic::LocalGet | WasmMnemonic::LocalSet | WasmMnemonic::LocalTee => self.read_uint().is_ok(),
            WasmMnemonic::Br | WasmMnemonic::BrIf | WasmMnemonic::Call | WasmMnemonic::GlobalGet
            | WasmMnemonic::GlobalSet => self.read_index().is_ok(),
            WasmMnemonic::BrTable => {
                let count = match self.read_index() {
                    Ok(c) => c,
                    Err(_) => return false,
                };
                proof {
                    crate::leb128::lemma_decode_unsigned_bounds(s, 5, 16);
                    let n = decode_u32(s).unwrap().1;
                    assert(self.code().skip(self.pc() as int) =~= s.skip(n as int));
                }
                self.read_indices(count as u64 + 1).is_some()
            },
            WasmMnemonic::CallIndirect => {
                if self.read_index().is_err() {
                    return false;
                }
                proof {
                    crate::leb128::lemma_decode_unsigned_bounds(s, 5, 16);
                }
                self.read_byte().is_some()
            },
            WasmMnemonic::MemorySize | WasmMnemonic::MemoryGrow => self.read_byte().is_some(),
            WasmMnemonic::I32Const => {
                assert(self.reader.rest() =~= s);
                let r = self.reader.read_i32().is_ok();
                let _ = self.reader.position();
                r
            },
            WasmMnemonic::F32Const | WasmMnemonic::F64Const => {
                assert(self.reader.rest() =~= s);
                let size: usize = if matches!(m, WasmMnemonic::F32Const) {
                    4
                } else {
                    8
                };
                let r = self.reader.read_bytes(size).is_ok();
                let _ = self.reader.position();
                r
            },
            _ => {
                if is_memory_instruction(m) {
                    if self.read_index().is_err() {
                        return false;
                    }
                    proof {
                        crate::leb128::lemma_decode_unsigned_bounds(s, 5, 16);
                        let n = decode_u32(s).unwrap().1;
                        assert(self.code().skip(self.pc() as int) =~= s.skip(n as int));
                    }
                    self.read_index().is_ok()
                } else {
                    true
                }
            },
        }
    }

    /// Skips what follows the `FC` prefix of a conversion, `memory.copy` or `memory.fill`; false
    /// for the other instructions or when it does not decode.
    fn skip_fc(&mut self) -> (r: bool)
        requires
            old(self).pc() <= old(self).code().len(),
        ensures
            final(self).code() == old(self).code(),
            final(self).pc() <= final(self).code().len(),
            match fc_len(old(self).code().skip(old(self).pc() as int)) {
                Some(n) => r && final(self).pc() == old(self).pc() + n,
                None => !r,
            },
    {
        let ghost s = self.code().skip(self.pc() as int);
        let v = match self.read_index() {
            Ok(v) => v,
            Err(_) => {
                return false;
            },
        };
        if v < 8 {
            return true;
        }
        if v != 0x0A && v != 0x0B {
            return false;
        }
        proof {
            crate::leb128::lemma_decode_unsigned_bounds(s, 5, 16);
            let k = decode_u32(s).unwrap().1;
            assert(self.code().skip(self.pc() as int) =~= s.skip(k as int));
        }
        if self.read_uint().is_err() {
            return false;
        }
        if v == 0x0A {
            proof {
                let k = decode_u32(s).unwrap().1;
                crate::leb128::lemma_decode_unsigned_bounds(s.skip(k as int), 10, 2);
                let k1 = decode_u64(s.skip(k as int)).unwrap().1;
                assert(self.code().skip(self.pc() as int) =~= s.skip((k + k1) as int));
            }
            if self.read_uint().is_err() {
                return false;
            }
        }
        true
    }

    /// The matching `end` of a block whose body starts at `start`, and its `else` if any; the
    /// position of the code block does not change.
    pub fn find_end(&mut self, start: usize) -> (r: Option<(usize, Option<usize>)>)
        requires
            start <= old(self).code().len(),
        ensures
            final(self).code() == old(self).code(),
            final(self).pc() == old(self).pc(),
            match scan_end(old(self).code(), start as nat, 0, None) {
                Some((e, el)) => r == Some(
                    (
                        e as usize,
                        match el {
                            Some(x) => Some(x as usize),
                            None => None::<usize>,
                        },
                    ),
                ),
                None => r is None,
            },
    {
        let saved = self.position();
        let ghost code = self.code();
        self.seek(start);
        let mut depth: usize = 0;
        let mut else_at: Option<usize> = None;
        loop
            invariant
                self.code() == code,
                code == old(self).code(),
                saved == old(self).pc(),
                saved <= code.len(),
                self.pc() <= code.len(),
                depth <= self.pc(),
                else_at matches Some(x) ==> x < code.len(),
                scan_end(code, start as nat, 0, None) == scan_end(
                    code,
                    self.pc(),
                    depth as nat,
                    match else_at {
                        Some(x) => Some(x as nat),
                        None => None::<nat>,
                    },
                ),
            decreases code.len() - self.pc(),
        {
            let pos = self.position();
            let b = match self.read_byte() {
                Some(b) => b,
                None => {
                    self.seek(saved);
                    return None;
                },
            };
            if b == 0xFC {
                if !self.skip_fc() {
                    self.seek(saved);
                    return None;
                }
                continue;
            }
            let m = match WasmMnemonic::from_u8(b) {
                Some(m) => m,
                None => {
                    self.seek(saved);
                    return None;
                },
            };
            if matches!(m, WasmMnemonic::End) {
                if depth == 0 {
                    self.seek(saved);
                    return Some((pos, else_at));
                }
                depth = depth - 1;
            } else if matches!(m, WasmMnemonic::Else) && depth == 0 {
                else_at = Some(pos);
            } else {
                if !self.skip_immediate(m) {
                    self.seek(saved);
                    return None;
                }
                let after = self.position();
                if matches!(m, WasmMnemonic::Block) || matches!(m, WasmMnemonic::Loop) || matches!(
                    m,
                    WasmMnemonic::If
                ) {
                    assert(depth < after);
                    depth = depth + 1;
                }
            }
        }
    }

    /// Runs the block from its start with `params` as its locals, without functions to call,
    /// memory pages or globals, and reads the result as `result_types` says.
    pub fn invoke(&mut self, params: &[WasmValue], result_types: &[WasmValType]) -> (r: Result<
        Option<WasmValue>,
        WasmRuntimeErrorKind,
    >)
        requires
            run_result(no_calls(), old(self).code(), params@, result_types@, empty_state()) is Some,
        ensures
            final(self).code() == old(self).code(),
            Some(r) == run_result(no_calls(), old(self).code(), params@, result_types@, empty_state()),
    {
        match WasmRuntimeContext::run_alone(self, params, result_types) {
            Some(r) => r,
            None => Err(WasmRuntimeErrorKind::InternalInconsistency),
        }
    }
}

/// The value of slot `v` read as type `t`
fn read_slot(v: WasmStackValue, t: WasmValType) -> (r: WasmValue)
    ensures
        r == slot_value(v, t),
{
    match t {
        WasmValType::I32 => WasmValue::I32(v.get_i32()),
        WasmValType::I64 => WasmValue::I64(v.get_i64()),
        WasmValType::F32 => WasmValue::F32(v.get_u32()),
        WasmValType::F64 => WasmValue::F64(v.get_u64()),
    }
}

/// The state of the interpreter between runs
pub struct WasmRuntimeContext {
    call_stack: Vec<WasmCodeBlock>,
}

impl WasmRuntimeContext {
    /// The depth of the call stack
    pub closed spec fn depth(&self) -> nat {
        self.call_stack@.len()
    }

    /// A context with an empty call stack
    pub fn new() -> (r: Self)
        ensures
            r.depth() == 0,
    {
        Self { call_stack: Vec::new() }
    }

    /// Runs `code_block` from its start with `locals`, without functions to call, memory pages
    /// or globals; the result is `context_result`: an integer result, `InvalidParameter` for
    /// a float one. Every instruction runs as the interpreter runs it, blocks, branches and
    /// memory instructions included: a run goes on to the `end` that closes the body rather
    /// than stopping at the first `end`, and no instruction is refused as unknown to a
    /// smaller instruction set. An instruction that needs what is not there (a function to
    /// call, a page of memory) stops the run as the interpreter stops it.
    pub fn run(&mut self, code_block: &mut WasmCodeBlock, locals: &[WasmValue], result_types: &[WasmValType]) -> (r: Result<
        Option<WasmValue>,
        WasmRuntimeErrorKind,
    >)
        requires
            context_result(old(code_block).code(), locals@, result_types@) is Some,
        ensures
            final(code_block).code() == old(code_block).code(),
            Some(r) == context_result(old(code_block).code(), locals@, result_types@),
    {
        match Self::try_run(code_block, locals, result_types) {
            Some(r) => r,
            None => Err(WasmRuntimeErrorKind::InternalInconsistency),
        }
    }

    /// Runs `code_block` from its start with `locals`, without functions to call, memory pages
    /// or globals: `None` where an instruction cannot run (too few slots, no such local) or
    /// where the stack holds no result; otherwise the result that `context_result` gives, an
    /// integer result or `InvalidParameter` for a float one.
    pub fn try_run(code_block: &mut WasmCodeBlock, locals: &[WasmValue], result_types: &[WasmValType]) -> (r: Option<
        Result<Option<WasmValue>, WasmRuntimeErrorKind>,
    >)
        ensures
            final(code_block).code() == old(code_block).code(),
            r == context_result(old(code_block).code(), locals@, result_types@),
    {
        let r = Self::run_alone(code_block, locals, result_types);
        match r {
            Some(Ok(Some(_))) => match result_types[0] {
                WasmValType::F32 | WasmValType::F64 => Some(Err(WasmRuntimeErrorKind::InvalidParameter)),
                _ => r,
            },
            _ => r,
        }
    }

    /// Runs `code_block` from its start with `locals`, without functions to call, memory pages
    /// or globals: the result that `run_result` gives, of any type.
    fn run_alone(code_block: &mut WasmCodeBlock, locals: &[WasmValue], result_types: &[WasmValType]) -> (r: Option<
        Result<Option<WasmValue>, WasmRuntimeErrorKind>,
    >)
        ensures
            final(code_block).code() == old(code_block).code(),
            r == run_result(no_calls(), old(code_block).code(), locals@, result_types@, empty_state()),
    {
        let mut store = WasmStore::empty();
        let no_functions: Vec<WasmFunction> = Vec::new();
        let no_elements: Vec<usize> = Vec::new();
        proof {
            lemma_no_host_agrees();
        }
        let r = kinds_of(
            run_with_host(
                code_block,
                locals,
                result_types,
                no_functions.as_slice(),
                no_elements.as_slice(),
                &no_host,
                Ghost(no_host_result()),
                &mut store,
            ),
        );
        proof {
            lemma_run_pages(
                no_calls(),
                old(code_block).code(),
                max_fuel(),
                0,
                locals_of(locals@),
                Seq::empty(),
                Seq::empty(),
                empty_state(),
            );
            assert(call_env(no_functions@, no_elements@, no_host_result()) =~= no_calls());
        }
        r
    }

    /// Runs `code_block` from its start with `locals`, calling into `funcs`, the elements of
    /// `table` and the host functions of `host`, and reading and writing `store`: the result
    /// that `run_result` gives and the store that `run_store` gives, unless the allocator
    /// refuses the pages that a `memory.grow` asks for within the limit of the memory, which
    /// stops the run with `OutOfMemory`. `host` must give the same for the same handle,
    /// arguments and memory.
    pub fn try_run_with<F: Fn(usize, &[WasmValue], &[u8]) -> Result<Option<WasmValue>, WasmRuntimeErrorKind>>(
        code_block: &mut WasmCodeBlock,
        locals: &[WasmValue],
        result_types: &[WasmValType],
        funcs: &[WasmFunction],
        table: &[usize],
        host: &F,
        store: &mut WasmStore,
    ) -> (r: Option<Result<Option<WasmValue>, WasmRuntimeErrorKind>>)
        requires
            exists|spec: HostResult| host_agrees(*host, spec),
        ensures
            final(code_block).code() == old(code_block).code(),
            (r == Some(Err::<Option<WasmValue>, WasmRuntimeErrorKind>(WasmRuntimeErrorKind::OutOfMemory))
                && run_store(call_env(funcs@, table@, host_spec(*host)), old(code_block).code(), locals@, old(store).state()).pages > old(
                store,
            ).state().pages) || (r == run_result(call_env(funcs@, table@, host_spec(*host)), old(code_block).code(), locals@, result_types@, old(store).state())
                && final(store).state() == run_store(call_env(funcs@, table@, host_spec(*host)), old(code_block).code(), locals@, old(store).state())),
    {
        kinds_of(run_with_host(code_block, locals, result_types, funcs, table, host, Ghost(host_spec(*host)), store))
    }
}

/// `no_host` gives what `no_host_result` says.
pub(crate) proof fn lemma_no_host_agrees()
    ensures
        host_agrees(no_host, no_host_result()),
{
    assert forall|handle: usize, args: &[WasmValue], memory: &[u8]|
        #[trigger] call_requires(no_host, (handle, args, memory)) && forall|r: Result<Option<WasmValue>, WasmRuntimeErrorKind>|
            call_ensures(no_host, (handle, args, memory), r) ==> r == (no_host_result())(handle as nat, args@, memory@) by {
    }
}

/// Runs `code_block` from its start with `locals`, calling into `funcs`, the elements of
/// `table` and `host`, whose calls give what `spec` says, and reading and writing `store`;
/// see `WasmRuntimeContext::try_run_with`.
pub(crate) fn run_with_host<F: Fn(usize, &[WasmValue], &[u8]) -> Result<Option<WasmValue>, WasmRuntimeErrorKind>>(
    code_block: &mut WasmCodeBlock,
    locals: &[WasmValue],
    result_types: &[WasmValType],
    funcs: &[WasmFunction],
    table: &[usize],
    host: &F,
    Ghost(spec): Ghost<HostResult>,
    store: &mut WasmStore,
) -> (r: Option<Result<Option<WasmValue>, Fault>>)
    requires
        host_agrees(*host, spec),
    ensures
        final(code_block).code() == old(code_block).code(),
        (r == Some(Err::<Option<WasmValue>, Fault>(bare_fault(WasmRuntimeErrorKind::OutOfMemory))) && run_store(
            call_env(funcs@, table@, spec),
            old(code_block).code(),
            locals@,
            old(store).state(),
        ).pages > old(store).state().pages) || (fault_kinds(r) == run_result(
            call_env(funcs@, table@, spec),
            old(code_block).code(),
            locals@,
            result_types@,
            old(store).state(),
        ) && final(store).state() == run_store(call_env(funcs@, table@, spec), old(code_block).code(), locals@, old(store).state())
            && (r matches Some(Err(flt)) ==> run_fault(call_env(funcs@, table@, spec), old(code_block).code(), locals@, old(store).state())
            == Some(flt))),
{
    let mut lv: Vec<WasmStackValue> = Vec::new();
    let mut i: usize = 0;
    while i < locals.len()
        invariant
            i <= locals@.len(),
            lv@.len() == i,
            forall|j: int| 0 <= j < i ==> lv@[j] == sv_of_value(#[trigger] locals@[j]),
        decreases locals.len() - i,
    {
        lv.push(WasmStackValue::from_value(locals[i]));
        i = i + 1;
    }
    proof {
        assert(lv@ =~= locals_of(locals@));
    }
    match run_code(funcs, table, host, Ghost(spec), code_block, u64::MAX, lv, store) {
        RunEnd::Done(stack) => {
            if result_types.len() == 0 {
                Some(Ok(None))
            } else if stack.len() == 0 {
                None
            } else {
                Some(Ok(Some(read_slot(stack[stack.len() - 1], result_types[0]))))
            }
        },
        RunEnd::Trap(flt) => Some(Err(flt)),
        RunEnd::Stuck => None,
        RunEnd::Refused => Some(Err(Fault { kind: WasmRuntimeErrorKind::OutOfMemory, site: None })),
    }
}

/// A result with the error reduced to its kind
pub open spec fn fault_kinds(r: Option<Result<Option<WasmValue>, Fault>>) -> Option<Result<Option<WasmValue>, WasmRuntimeErrorKind>> {
    match r {
        Some(Ok(v)) => Some(Ok(v)),
        Some(Err(flt)) => Some(Err(flt.kind)),
        None => None,
    }
}

/// A result with the error reduced to its kind; see `fault_kinds`.
pub(crate) fn kinds_of(r: Option<Result<Option<WasmValue>, Fault>>) -> (k: Option<Result<Option<WasmValue>, WasmRuntimeErrorKind>>)
    ensures
        k == fault_kinds(r),
{
    match r {
        Some(Ok(v)) => Some(Ok(v)),
        Some(Err(flt)) => Some(Err(flt.kind)),
        None => None,
    }
}

} // verus!
