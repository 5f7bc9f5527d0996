//! Laws of decoding, checking and running, stated over all inputs
use crate::error::CompileErrorKind;
use crate::leb128::{decode_u32, decode_u64};
use crate::names::{apply_name_subsection, decode_name_map, decode_name_vec, NameList, NameState};
use crate::types::{decode_export_desc, decode_import_desc, export_kind, import_kind, WasmExportDesc, WasmImportDescriptor};
use crate::cg::{check_plain, check_step, BlockFrame, Check, CodeContext};
use crate::memory::{le_bytes, le_value, lemma_le_roundtrip, lemma_le_value_bound, pow256};
use crate::wasm::{ImportExportKind, WasmValType};
use crate::wasmrt::{step, Label, Step, StoreState, WasmStackValue};
use crate::error::WasmRuntimeErrorKind;
use crate::opcode::WasmMnemonic;
use vstd::prelude::*;

verus! {

/// An export descriptor is its kind byte, then the index of what it exports: kind 0 is a
/// function, kind 1 a table, kind 2 a memory, each with the index that follows.
pub proof fn law_export_kinds(s: Seq<u8>, n_globals: nat)
    requires
        s.len() > 0,
        s[0] <= 2,
        decode_u32(s.skip(1)) is Ok,
    ensures
        ({
            let (v, n) = decode_u32(s.skip(1)).unwrap();
            decode_export_desc(s, n_globals) matches Ok((d, k)) && k == n + 1 && export_kind(d) == (if s[0] == 0 {
                ImportExportKind::Function
            } else if s[0] == 1 {
                ImportExportKind::Table
            } else {
                ImportExportKind::Memory
            }) && (match d {
                WasmExportDesc::Function(i) => s[0] == 0 && i == v as usize,
                WasmExportDesc::Table(i) => s[0] == 1 && i == v as usize,
                WasmExportDesc::Memory(i) => s[0] == 2 && i == v as usize,
                WasmExportDesc::Global(_) => false,
            })
        }),
{
}

/// Decoding a name map after names `acc` gives `acc` followed by what decoding it alone gives.
pub proof fn lemma_name_map_after(s: Seq<u8>, count: nat, acc: NameList, b: NameList)
    ensures
        decode_name_map(s, count, acc + b) == match decode_name_map(s, count, b) {
            Ok(l) => Ok::<NameList, CompileErrorKind>(acc + l),
            Err(e) => Err(e),
        },
    decreases count,
{
    if count > 0 {
        match decode_u32(s) {
            Err(_) => {},
            Ok((idx, n1)) => match crate::types::decode_name_string(s.skip(n1 as int)) {
                Err(_) => {},
                Ok((t, n2)) => {
                    let p = (idx as usize, t);
                    assert((acc + b).push(p) =~= acc + b.push(p));
                    lemma_name_map_after(s.skip((n1 + n2) as int), (count - 1) as nat, acc, b.push(p));
                },
            },
        }
    }
}

/// A subsection of the name section adds names by its identifier: 1 appends the names of
/// functions it holds, 7 the names of globals, each to those read before and leaving the
/// others as they were; 0 sets the name of the module; any other identifier changes nothing.
pub proof fn law_name_subsections(id: u8, blob: Seq<u8>, acc: NameState)
    ensures
        id != 0 && id != 1 && id != 7 ==> apply_name_subsection(id, blob, acc) == Ok::<NameState, CompileErrorKind>(acc),
        id == 0 ==> apply_name_subsection(id, blob, acc) == Ok::<NameState, CompileErrorKind>(
            (
                match crate::types::decode_name_string(blob) {
                    Ok((t, _)) => Some(t),
                    Err(_) => None,
                },
                acc.1,
                acc.2,
            ),
        ),
        id == 7 ==> match decode_name_vec(blob, Seq::empty()) {
            Ok(g) => apply_name_subsection(id, blob, acc) == Ok::<NameState, CompileErrorKind>((acc.0, acc.1, acc.2 + g)),
            Err(e) => apply_name_subsection(id, blob, acc) == Err::<NameState, CompileErrorKind>(e),
        },
        id == 1 ==> match decode_name_vec(blob, Seq::empty()) {
            Ok(f) => apply_name_subsection(id, blob, acc) == Ok::<NameState, CompileErrorKind>((acc.0, acc.1 + f, acc.2)),
            Err(e) => apply_name_subsection(id, blob, acc) == Err::<NameState, CompileErrorKind>(e),
        },
{
    if let Ok((count, n)) = decode_u32(blob) {
        assert(acc.2 + Seq::<(usize, Seq<char>)>::empty() =~= acc.2);
        assert(acc.1 + Seq::<(usize, Seq<char>)>::empty() =~= acc.1);
        lemma_name_map_after(blob.skip(n as int), count, acc.2, Seq::empty());
        lemma_name_map_after(blob.skip(n as int), count, acc.1, Seq::empty());
    }
}

/// The value of `w` little-endian bytes holding `v`, read as a signed number
pub open spec fn signed_value(v: nat, w: nat) -> int {
    if v >= pow256(w) / 2 {
        v - pow256(w)
    } else {
        v as int
    }
}

/// The bytes that a load reads and whether it sign-extends them, by opcode
pub open spec fn load_shape(op: u8) -> Option<(nat, bool)> {
    if op == 0x28 || op == 0x2A {
        Some((4, false))
    } else if op == 0x29 || op == 0x2B {
        Some((8, false))
    } else if op == 0x2C || op == 0x30 {
        Some((1, true))
    } else if op == 0x2D || op == 0x31 {
        Some((1, false))
    } else if op == 0x2E || op == 0x32 {
        Some((2, true))
    } else if op == 0x2F || op == 0x33 {
        Some((2, false))
    } else if op == 0x34 {
        Some((4, true))
    } else if op == 0x35 {
        Some((4, false))
    } else {
        None
    }
}

/// The bytes that a store writes, by opcode
pub open spec fn store_width(op: u8) -> Option<nat> {
    if op == 0x36 || op == 0x38 || op == 0x3E {
        Some(4)
    } else if op == 0x37 || op == 0x39 {
        Some(8)
    } else if op == 0x3A || op == 0x3C {
        Some(1)
    } else if op == 0x3B || op == 0x3D {
        Some(2)
    } else {
        None
    }
}

proof fn lemma_sext8(b: u8)
    ensures
        ((b as i8) as i32) as i64 == (if b >= 128 { b - 256 } else { b as int }),
        (b as i8) as i64 == (if b >= 128 { b - 256 } else { b as int }),
{
    assert(((b as i8) as i32) as i64 == (if b >= 128 { b - 256 } else { b as int })) by (bit_vector);
    assert((b as i8) as i64 == (if b >= 128 { b - 256 } else { b as int })) by (bit_vector);
}

proof fn lemma_sext16(h: u16)
    ensures
        ((h as i16) as i32) as i64 == (if h >= 0x8000 { h - 0x10000 } else { h as int }),
        (h as i16) as i64 == (if h >= 0x8000 { h - 0x10000 } else { h as int }),
{
    assert(((h as i16) as i32) as i64 == (if h >= 0x8000 { h - 0x10000 } else { h as int })) by (bit_vector);
    assert((h as i16) as i64 == (if h >= 0x8000 { h - 0x10000 } else { h as int })) by (bit_vector);
}

proof fn lemma_sext32(x: u32)
    ensures
        (x as i32) as i64 == (if x >= 0x8000_0000 { x - 0x1_0000_0000 } else { x as int }),
{
    assert((x as i32) as i64 == (if x >= 0x8000_0000 { x - 0x1_0000_0000 } else { x as int })) by (bit_vector);
}

proof fn lemma_i64_bits(y: i64)
    ensures
        ((y as u64) as i64) == y,
{
    assert(((y as u64) as i64) == y) by (bit_vector);
}

/// A load reads the bytes of its width at the effective address, the offset of its immediate
/// plus the address on the stack, as a little-endian number: `OutOfBounds` when they do not all
/// lie in the memory; otherwise the address is replaced by the number, sign-extended for the
/// signed loads (`i32.load16_s` of the bytes `FF FF` gives -1) and zero-extended for the
/// others. The memory and the globals stay as they were.
pub proof fn law_loads(
    code: Seq<u8>,
    pos: nat,
    locals: Seq<WasmStackValue>,
    stack: Seq<WasmStackValue>,
    labels: Seq<Label>,
    st: StoreState,
)
    requires
        pos < code.len(),
        load_shape(code[pos as int]) is Some,
        decode_u32(code.skip((pos + 1) as int)) is Ok,
        decode_u32(code.skip((pos + 1) as int).skip(decode_u32(code.skip((pos + 1) as int)).unwrap().1 as int)) is Ok,
        stack.len() > 0,
    ensures
        ({
            let (w, signed) = load_shape(code[pos as int]).unwrap();
            let k1 = decode_u32(code.skip((pos + 1) as int)).unwrap().1;
            let (offset, k2) = decode_u32(code.skip((pos + 1) as int).skip(k1 as int)).unwrap();
            let ea = offset + (stack.last().bits as u32);
            let r = step(code, pos, locals, stack, labels, st);
            &&& ea + w > st.memory.len() ==> r == (Step::Trap(WasmRuntimeErrorKind::OutOfBounds), st)
            &&& ea + w <= st.memory.len() ==> {
                let v = le_value(st.memory.subrange(ea, ea + w));
                &&& r.1 == st
                &&& r.0 matches Step::Next(p, l2, s2, b2) && p == pos + 1 + k1 + k2 && l2 == locals && b2 == labels
                    && s2.len() == stack.len() && s2.drop_last() == stack.drop_last() && (if signed {
                    (s2.last().bits as i64) as int == signed_value(v, w)
                } else {
                    s2.last().bits as int == v
                })
            }
        }),
{
    let (w, signed) = load_shape(code[pos as int]).unwrap();
    let k1 = decode_u32(code.skip((pos + 1) as int)).unwrap().1;
    let (offset, k2) = decode_u32(code.skip((pos + 1) as int).skip(k1 as int)).unwrap();
    let ea = offset + (stack.last().bits as u32);
    reveal_with_fuel(pow256, 9);
    if ea + w <= st.memory.len() {
        let b = st.memory.subrange(ea, ea + w);
        let v = le_value(b);
        lemma_le_value_bound(b);
        lemma_sext8(v as u8);
        lemma_sext16(v as u16);
        lemma_sext32(v as u32);
        lemma_i64_bits(((v as u8) as i8) as i64);
        lemma_i64_bits(((v as u16) as i16) as i64);
        lemma_i64_bits(((v as u32) as i32) as i64);
        lemma_i64_bits((((v as u8) as i8) as i32) as i64);
        lemma_i64_bits((((v as u16) as i16) as i32) as i64);
    }
}

/// A store writes the bytes of its width at the effective address, the offset of its
/// immediate plus the address under the value on the stack: the low bytes of the value,
/// little-endian (`i64.store32` writes four). `OutOfBounds` when they do not all lie in the
/// memory; otherwise every other byte of the memory stays as it was, the memory keeps its
/// length, and the address and the value leave the stack.
pub proof fn law_stores(
    code: Seq<u8>,
    pos: nat,
    locals: Seq<WasmStackValue>,
    stack: Seq<WasmStackValue>,
    labels: Seq<Label>,
    st: StoreState,
)
    requires
        pos < code.len(),
        store_width(code[pos as int]) is Some,
        decode_u32(code.skip((pos + 1) as int)) is Ok,
        decode_u32(code.skip((pos + 1) as int).skip(decode_u32(code.skip((pos + 1) as int)).unwrap().1 as int)) is Ok,
        stack.len() >= 2,
    ensures
        ({
            let w = store_width(code[pos as int]).unwrap();
            let k1 = decode_u32(code.skip((pos + 1) as int)).unwrap().1;
            let (offset, k2) = decode_u32(code.skip((pos + 1) as int).skip(k1 as int)).unwrap();
            let n = stack.len();
            let ea = offset + (stack[n - 2].bits as u32);
            let r = step(code, pos, locals, stack, labels, st);
            &&& ea + w > st.memory.len() ==> r == (Step::Trap(WasmRuntimeErrorKind::OutOfBounds), st)
            &&& ea + w <= st.memory.len() ==> {
                &&& r.0 == Step::Next(pos + 1 + k1 + k2, locals, stack.take(n - 2), labels)
                &&& r.1.pages == st.pages && r.1.max_pages == st.max_pages && r.1.globals == st.globals
                &&& r.1.memory.len() == st.memory.len()
                &&& forall|i: int|
                    0 <= i < st.memory.len() && (i < ea || i >= ea + w) ==> #[trigger] r.1.memory[i] == st.memory[i]
                &&& le_value(r.1.memory.subrange(ea, ea + w)) == (stack[n - 1].bits as nat) % pow256(w)
            }
        }),
{
    let w = store_width(code[pos as int]).unwrap();
    let k1 = decode_u32(code.skip((pos + 1) as int)).unwrap().1;
    let (offset, k2) = decode_u32(code.skip((pos + 1) as int).skip(k1 as int)).unwrap();
    let n = stack.len();
    let ea = offset + (stack[n - 2].bits as u32);
    if ea + w <= st.memory.len() {
        let v = stack[n - 1].bits as nat;
        lemma_le_roundtrip(v, w);
        let m2 = st.memory.subrange(0, ea) + le_bytes(v, w) + st.memory.subrange(ea + w, st.memory.len() as int);
        assert(m2.subrange(ea, ea + w) =~= le_bytes(v, w));
    }
}

/// Checking `i32.wrap_i64`, `i64.eqz`, `i64.extend_i32_s` or `i64.extend_i32_u` reads one
/// operand of the type it converts from and gives one of the type it converts to:
/// `i64.extend_i32_s` and `i64.extend_i32_u` take an `i32` and give an `i64`, the other two
/// take an `i64` and give an `i32`. An operand of another type is `TypeMismatch`, none at all
/// `OutOfStack`; the instruction has no immediate.
pub proof fn law_integer_conversion_checks(m: WasmMnemonic, s: Seq<u8>, vs: Seq<WasmValType>, ctx: CodeContext)
    requires
        m is I32WrapI64 || m is I64Eqz || m is I64ExtendI32S || m is I64ExtendI32U,
    ensures
        ({
            let (from, to) = if m is I64ExtendI32S || m is I64ExtendI32U {
                (WasmValType::I32, WasmValType::I64)
            } else {
                (WasmValType::I64, WasmValType::I32)
            };
            &&& vs.len() == 0 ==> check_plain(m, s, vs, ctx) == Err::<(nat, Seq<WasmValType>), CompileErrorKind>(
                CompileErrorKind::OutOfStack,
            )
            &&& vs.len() > 0 && vs.last() == from ==> check_plain(m, s, vs, ctx) == Ok::<
                (nat, Seq<WasmValType>),
                CompileErrorKind,
            >((0, vs.drop_last().push(to)))
            &&& vs.len() > 0 && vs.last() != from ==> check_plain(m, s, vs, ctx) == Err::<
                (nat, Seq<WasmValType>),
                CompileErrorKind,
            >(CompileErrorKind::TypeMismatch)
        }),
{
}

/// What a conversion with opcode `op` makes of the slot bits `v`: whether `x` is its result
pub open spec fn converts(op: u8, v: u64, x: WasmStackValue) -> bool {
    if op == 0xA7 {
        (x.bits as i32) as int == signed_value(v as nat % 0x1_0000_0000, 4)
    } else if op == 0xAC || op == 0xC4 {
        (x.bits as i64) as int == signed_value(v as nat % 0x1_0000_0000, 4)
    } else if op == 0xAD {
        x.bits as int == v as nat % 0x1_0000_0000
    } else if op == 0xC0 || op == 0xC2 {
        (x.bits as i64) as int == signed_value(v as nat % 0x100, 1)
    } else if op == 0xC1 || op == 0xC3 {
        (x.bits as i64) as int == signed_value(v as nat % 0x1_0000, 2)
    } else {
        false
    }
}

proof fn lemma_low_bits(v: u64)
    ensures
        (v as u32) as int == v % 0x1_0000_0000,
        (v as u16) as int == v % 0x1_0000,
        (v as u8) as int == v % 0x100,
        (v as i32) == ((v as u32) as i32),
        (v as i16) == ((v as u16) as i16),
        (v as i8) == ((v as u8) as i8),
{
    assert((v as u32) as int == v % 0x1_0000_0000) by (bit_vector);
    assert((v as u16) as int == v % 0x1_0000) by (bit_vector);
    assert((v as u8) as int == v % 0x100) by (bit_vector);
    assert((v as i32) == ((v as u32) as i32)) by (bit_vector);
    assert((v as i16) == ((v as u16) as i16)) by (bit_vector);
    assert((v as i8) == ((v as u8) as i8)) by (bit_vector);
}

proof fn lemma_i32_of_i64_bits(y: i32)
    ensures
        (((y as i64) as u64) as i32) == y,
{
    assert((((y as i64) as u64) as i32) == y) by (bit_vector);
}

/// A conversion between integers replaces the top of the stack by the converted value:
/// `i32.wrap_i64` keeps the low 32 bits, `i64.extend_i32_s` sign-extends them and
/// `i64.extend_i32_u` zero-extends them; `i32.extend8_s`, `i32.extend16_s`, `i64.extend8_s`,
/// `i64.extend16_s` and `i64.extend32_s` sign-extend the low 8, 16 or 32 bits.
pub proof fn law_integer_conversions(
    code: Seq<u8>,
    pos: nat,
    locals: Seq<WasmStackValue>,
    stack: Seq<WasmStackValue>,
    labels: Seq<Label>,
    st: StoreState,
)
    requires
        pos < code.len(),
        code[pos as int] == 0xA7 || code[pos as int] == 0xAC || code[pos as int] == 0xAD || (0xC0 <= code[pos as int]
            <= 0xC4),
        stack.len() > 0,
    ensures
        ({
            let r = step(code, pos, locals, stack, labels, st);
            &&& r.1 == st
            &&& r.0 matches Step::Next(p, l2, s2, b2) && p == pos + 1 && l2 == locals && b2 == labels && s2.len()
                == stack.len() && s2.drop_last() == stack.drop_last() && converts(code[pos as int], stack.last().bits, s2.last())
        }),
{
    let v = stack.last().bits;
    reveal_with_fuel(pow256, 5);
    lemma_low_bits(v);
    lemma_sext8(v as u8);
    lemma_sext16(v as u16);
    lemma_sext32(v as u32);
    lemma_i64_bits((v as i32) as i64);
    lemma_i64_bits(((v as i8) as i32) as i64);
    lemma_i64_bits(((v as i16) as i32) as i64);
    lemma_i64_bits((v as i8) as i64);
    lemma_i64_bits((v as i16) as i64);
    lemma_i32_of_i64_bits(v as i32);
}

/// An export of kind 3 is a global, with the index that follows when the module has such a
/// global, and `InvalidGlobal` otherwise; a kind byte above 3 is `UnexpectedToken`.
pub proof fn law_export_globals(s: Seq<u8>, n_globals: nat)
    requires
        s.len() > 0,
        s[0] >= 3,
    ensures
        s[0] > 3 ==> decode_export_desc(s, n_globals) == Err::<(WasmExportDesc, nat), CompileErrorKind>(
            CompileErrorKind::UnexpectedToken,
        ),
        s[0] == 3 && decode_u32(s.skip(1)) is Ok ==> ({
            let (v, n) = decode_u32(s.skip(1)).unwrap();
            &&& v < n_globals ==> (decode_export_desc(s, n_globals) matches Ok((d, k)) && k == n + 1
                && export_kind(d) == ImportExportKind::Global && (d matches WasmExportDesc::Global(g) && g.0 == v as u32))
            &&& v >= n_globals ==> decode_export_desc(s, n_globals) == Err::<(WasmExportDesc, nat), CompileErrorKind>(
                CompileErrorKind::InvalidGlobal,
            )
        }),
{
}

/// An import descriptor of kind 0 is a function of the type whose index follows, one of kind
/// 2 a memory of the limit that follows; other kinds are `UnexpectedToken`.
pub proof fn law_import_kinds(s: Seq<u8>)
    requires
        s.len() > 0,
    ensures
        s[0] == 0 && decode_u32(s.skip(1)) is Ok ==> (decode_import_desc(s) matches Ok((d, k)) && import_kind(d)
            == ImportExportKind::Function && (d matches WasmImportDescriptor::Function(t) && t.0
            == decode_u32(s.skip(1)).unwrap().0 as u32) && k == decode_u32(s.skip(1)).unwrap().1 + 1),
        s[0] == 2 && crate::wasm::decode_limit(s.skip(1)) is Ok ==> (decode_import_desc(s) matches Ok((d, k))
            && import_kind(d) == ImportExportKind::Memory && (d matches WasmImportDescriptor::Memory(l) && l
            == crate::wasm::decode_limit(s.skip(1)).unwrap().0)),
        s[0] != 0 && s[0] != 2 ==> decode_import_desc(s) == Err::<(WasmImportDescriptor, nat), CompileErrorKind>(
            CompileErrorKind::UnexpectedToken,
        ),
{
}

/// The type of the value a load gives, by opcode
pub open spec fn loaded_type(op: u8) -> Option<WasmValType> {
    if op == 0x28 || (0x2C <= op <= 0x2F) {
        Some(WasmValType::I32)
    } else if op == 0x29 || (0x30 <= op <= 0x35) {
        Some(WasmValType::I64)
    } else if op == 0x2A {
        Some(WasmValType::F32)
    } else if op == 0x2B {
        Some(WasmValType::F64)
    } else {
        None
    }
}

/// Checking a load in a module with memory pages: it reads an `i32` address and gives a value
/// of its type (`i32` for the `i32` loads, the 8-, 16- and 32-bit ones included, `i64` for the
/// `i64` loads), after an immediate of two numbers; an address of another type is
/// `TypeMismatch`, none at all `OutOfStack`.
pub proof fn law_load_checks(code: Seq<u8>, pos: nat, vs: Seq<WasmValType>, bs: Seq<BlockFrame>, ctx: CodeContext)
    requires
        pos < code.len(),
        loaded_type(code[pos as int]) is Some,
        ctx.has_memory,
        decode_u32(code.skip((pos + 1) as int)) is Ok,
        decode_u32(code.skip((pos + 1) as int).skip(decode_u32(code.skip((pos + 1) as int)).unwrap().1 as int)) is Ok,
    ensures
        ({
            let k1 = decode_u32(code.skip((pos + 1) as int)).unwrap().1;
            let k2 = decode_u32(code.skip((pos + 1) as int).skip(k1 as int)).unwrap().1;
            let r = check_step(code, pos, vs, bs, ctx);
            &&& vs.len() == 0 ==> r == Check::Fail(CompileErrorKind::OutOfStack)
            &&& vs.len() > 0 && vs.last() == WasmValType::I32 ==> r == Check::Next(
                pos + 1 + k1 + k2,
                vs.drop_last().push(loaded_type(code[pos as int]).unwrap()),
                bs,
            )
            &&& vs.len() > 0 && vs.last() != WasmValType::I32 ==> r == Check::Fail(CompileErrorKind::TypeMismatch)
        }),
{
}

/// Whether `r` is the truth of the comparison with opcode `op` of the operands `a` and `b`:
/// `i32` comparisons look at the low 32 bits, read as signed for the `_s` ones and as
/// unsigned for the `_u` ones; `i64` comparisons likewise at all 64 bits
pub open spec fn compares(op: u8, a: u64, b: u64, r: bool) -> bool {
    let (ua, ub) = (a as nat % 0x1_0000_0000, b as nat % 0x1_0000_0000);
    let (sa, sb) = (signed_value(ua, 4), signed_value(ub, 4));
    let (la, lb) = (a as nat, b as nat);
    let (ta, tb) = (signed_value(la, 8), signed_value(lb, 8));
    if op == 0x46 {
        r == (ua == ub)
    } else if op == 0x47 {
        r == (ua != ub)
    } else if op == 0x48 {
        r == (sa < sb)
    } else if op == 0x49 {
        r == (ua < ub)
    } else if op == 0x4A {
        r == (sa > sb)
    } else if op == 0x4B {
        r == (ua > ub)
    } else if op == 0x4C {
        r == (sa <= sb)
    } else if op == 0x4D {
        r == (ua <= ub)
    } else if op == 0x4E {
        r == (sa >= sb)
    } else if op == 0x4F {
        r == (ua >= ub)
    } else if op == 0x51 {
        r == (la == lb)
    } else if op == 0x52 {
        r == (la != lb)
    } else if op == 0x53 {
        r == (ta < tb)
    } else if op == 0x54 {
        r == (la < lb)
    } else if op == 0x55 {
        r == (ta > tb)
    } else if op == 0x56 {
        r == (la > lb)
    } else if op == 0x57 {
        r == (ta <= tb)
    } else if op == 0x58 {
        r == (la <= lb)
    } else if op == 0x59 {
        r == (ta >= tb)
    } else if op == 0x5A {
        r == (la >= lb)
    } else {
        false
    }
}

proof fn lemma_i64_of_u64(a: u64)
    ensures
        (a as i64) as int == (if a >= 0x8000_0000_0000_0000 { a - 0x1_0000_0000_0000_0000 } else { a as int }),
{
    assert((a as i64) as int == (if a >= 0x8000_0000_0000_0000 { a - 0x1_0000_0000_0000_0000 } else { a as int }))
        by (bit_vector);
}

/// A comparison replaces its two operands by 1 when the comparison holds and by 0 when it does
/// not: `lt_s` compares the operands as signed numbers, `lt_u` as unsigned ones, and so on.
pub proof fn law_comparisons(
    code: Seq<u8>,
    pos: nat,
    locals: Seq<WasmStackValue>,
    stack: Seq<WasmStackValue>,
    labels: Seq<Label>,
    st: StoreState,
)
    requires
        pos < code.len(),
        (0x46 <= code[pos as int] <= 0x4F) || (0x51 <= code[pos as int] <= 0x5A),
        stack.len() >= 2,
    ensures
        ({
            let n = stack.len();
            let r = step(code, pos, locals, stack, labels, st);
            &&& r.1 == st
            &&& r.0 matches Step::Next(p, l2, s2, b2) && p == pos + 1 && l2 == locals && b2 == labels && s2.len()
                == n - 1 && s2.drop_last() == stack.take(n - 2) && (s2.last().bits == 0 || s2.last().bits == 1)
                && compares(code[pos as int], stack[n - 2].bits, stack[n - 1].bits, s2.last().bits == 1)
        }),
{
    let n = stack.len();
    let (a, b) = (stack[n - 2].bits, stack[n - 1].bits);
    reveal_with_fuel(pow256, 9);
    lemma_low_bits(a);
    lemma_low_bits(b);
    lemma_sext32(a as u32);
    lemma_sext32(b as u32);
    lemma_i64_of_u64(a);
    lemma_i64_of_u64(b);
    assert(stack.take(n - 2).push(stack[n - 1]).drop_last() =~= stack.take(n - 2));
}

/// Whether `x` is the result of the arithmetic with opcode `op` on the operands `a` and `b`:
/// the `i32` operations work on the low 32 bits and give a number below 2^32, the `i64` ones on
/// all 64 bits; sums, differences and products wrap around, the unsigned quotient and
/// remainder are those of the operands as unsigned numbers
pub open spec fn computes(op: u8, a: u64, b: u64, x: u64) -> bool {
    let (ua, ub) = (a as nat % 0x1_0000_0000, b as nat % 0x1_0000_0000);
    let (la, lb) = (a as nat, b as nat);
    if op == 0x6A {
        x == (ua + ub) % 0x1_0000_0000
    } else if op == 0x6B {
        x == (ua - ub) % 0x1_0000_0000
    } else if op == 0x6C {
        x == (ua * ub) % 0x1_0000_0000
    } else if op == 0x6E {
        x == ua / ub
    } else if op == 0x70 {
        x == ua % ub
    } else if op == 0x7C {
        x == (la + lb) % 0x1_0000_0000_0000_0000
    } else if op == 0x7D {
        x == (la - lb) % 0x1_0000_0000_0000_0000
    } else if op == 0x7E {
        x == (la * lb) % 0x1_0000_0000_0000_0000
    } else if op == 0x80 {
        x == la / lb
    } else if op == 0x82 {
        x == la % lb
    } else {
        false
    }
}

/// Integer sums, differences, products and unsigned quotients and remainders replace their two
/// operands by the result (see `computes`); an unsigned quotient or remainder by zero is
/// `DivideByZero`.
pub proof fn law_integer_arithmetic(
    code: Seq<u8>,
    pos: nat,
    locals: Seq<WasmStackValue>,
    stack: Seq<WasmStackValue>,
    labels: Seq<Label>,
    st: StoreState,
)
    requires
        pos < code.len(),
        ({
            let op = code[pos as int];
            op == 0x6A || op == 0x6B || op == 0x6C || op == 0x6E || op == 0x70 || op == 0x7C || op == 0x7D || op
                == 0x7E || op == 0x80 || op == 0x82
        }),
        stack.len() >= 2,
    ensures
        ({
            let op = code[pos as int];
            let n = stack.len();
            let (a, b) = (stack[n - 2].bits, stack[n - 1].bits);
            let zero = ((op == 0x6E || op == 0x70) && b as nat % 0x1_0000_0000 == 0) || ((op == 0x80 || op == 0x82)
                && b == 0);
            let r = step(code, pos, locals, stack, labels, st);
            &&& r.1 == st
            &&& zero ==> r.0 == Step::Trap(WasmRuntimeErrorKind::DivideByZero)
            &&& !zero ==> (r.0 matches Step::Next(p, l2, s2, b2) && p == pos + 1 && l2 == locals && b2 == labels
                && s2.len() == n - 1 && s2.drop_last() == stack.take(n - 2) && computes(op, a, b, s2.last().bits))
        }),
{
    let n = stack.len();
    let (a, b) = (stack[n - 2].bits, stack[n - 1].bits);
    lemma_low_bits(a);
    lemma_low_bits(b);
    assert(stack.take(n - 2).push(stack[n - 1]).drop_last() =~= stack.take(n - 2));
}

/// The quotient of `x` by `d`, rounded toward zero
pub open spec fn trunc_div(x: int, d: int) -> int {
    if x == 0 {
        0
    } else if x > 0 && d > 0 {
        x / d
    } else if x < 0 && d < 0 {
        (x * -1) / (d * -1)
    } else if x < 0 {
        ((x * -1) / d) * -1
    } else {
        (x / (d * -1)) * -1
    }
}

/// The remainder of `x` by `d` that goes with `trunc_div`
pub open spec fn trunc_rem(x: int, d: int) -> int {
    if x == 0 {
        0
    } else if x > 0 && d > 0 {
        x % d
    } else if x < 0 && d < 0 {
        ((x * -1) % (d * -1)) * -1
    } else if x < 0 {
        ((x * -1) % d) * -1
    } else {
        x % (d * -1)
    }
}

/// `|x|`
pub open spec fn abs(x: int) -> int {
    if x < 0 {
        -x
    } else {
        x
    }
}

proof fn lemma_trunc(x: int, d: int)
    requires
        d != 0,
    ensures
        x == trunc_div(x, d) * d + trunc_rem(x, d),
        abs(trunc_rem(x, d)) < abs(d),
        trunc_rem(x, d) == 0 || (trunc_rem(x, d) < 0) == (x < 0),
        abs(trunc_div(x, d)) <= abs(x),
        abs(d) >= 2 ==> abs(trunc_div(x, d)) <= abs(x) / 2,
{
    let (ax, ad) = (abs(x), abs(d));
    if ad >= 2 {
        vstd::arithmetic::div_mod::lemma_div_is_ordered_by_denominator(ax, 2, ad);
    }
    vstd::arithmetic::div_mod::lemma_fundamental_div_mod(ax, ad);
    vstd::arithmetic::div_mod::lemma_mod_bound(ax, ad);
    vstd::arithmetic::div_mod::lemma_div_is_ordered_by_denominator(ax, 1, ad);
    vstd::arithmetic::div_mod::lemma_div_basics(ax);
    vstd::arithmetic::div_mod::lemma_div_pos_is_pos(ax, ad);
    if x == 0 {
    } else if x > 0 && d > 0 {
        assert(x == (ax / ad) * d + ax % ad) by (nonlinear_arith)
            requires
                ax == ad * (ax / ad) + ax % ad,
                ax == x,
                ad == d,
        ;
    } else if x < 0 && d < 0 {
        assert(x * -1 == ax && d * -1 == ad);
        assert(x == (ax / ad) * d + (ax % ad) * -1) by (nonlinear_arith)
            requires
                ax == ad * (ax / ad) + ax % ad,
                ax == -x,
                ad == -d,
        ;
    } else if x < 0 {
        assert(x * -1 == ax && d == ad);
        assert(x == ((ax / ad) * -1) * d + (ax % ad) * -1) by (nonlinear_arith)
            requires
                ax == ad * (ax / ad) + ax % ad,
                ax == -x,
                ad == d,
        ;
    } else {
        assert(x == ax && d * -1 == ad);
        assert(x == ((ax / ad) * -1) * d + ax % ad) by (nonlinear_arith)
            requires
                ax == ad * (ax / ad) + ax % ad,
                ax == x,
                ad == -d,
        ;
    }
}

/// Whether `q` and `r` are the quotient and the remainder of a signed division of `sa` by a
/// nonzero `sb`, on numbers whose smallest value is `min`: the quotient is rounded toward zero,
/// so that `sa == q * sb + r` with `|r| < |sb|` and `r` of the sign of `sa`; dividing `min` by
/// -1 gives `min` and the remainder 0
pub open spec fn divides(sa: int, sb: int, q: int, r: int, min: int) -> bool {
    if sa == min && sb == -1 {
        q == min && r == 0
    } else {
        &&& sa == q * sb + r
        &&& abs(r) < abs(sb)
        &&& r == 0 || (r < 0) == (sa < 0)
    }
}

/// The operands of a signed division of width `w` bytes, read as signed numbers
pub open spec fn signed_operand(v: u64, w: nat) -> int {
    signed_value(v as nat % pow256(w), w)
}

proof fn lemma_i32_slot(q: i32)
    ensures
        signed_operand(((q as i64) as u64), 4) == q,
{
    reveal_with_fuel(pow256, 5);
    let bits = (q as i64) as u64;
    lemma_low_bits(bits);
    lemma_sext32(bits as u32);
    lemma_i32_of_i64_bits(q);
}

proof fn lemma_i64_slot(q: i64)
    ensures
        signed_operand(q as u64, 8) == q,
{
    reveal_with_fuel(pow256, 9);
    let bits = q as u64;
    assert(pow256(8) == 0x1_0000_0000_0000_0000);
    vstd::arithmetic::div_mod::lemma_small_mod(bits as nat, 0x1_0000_0000_0000_0000);
    lemma_i64_of_u64(bits);
    lemma_i64_bits(q);
}

proof fn lemma_div32(a: u64, b: u64)
    requires
        signed_operand(b, 4) != 0,
    ensures
        divides(
            signed_operand(a, 4),
            signed_operand(b, 4),
            signed_operand(crate::wasmrt::sv_i32(crate::wasmrt::div_s32(a as i32, b as i32)).bits, 4),
            signed_operand(crate::wasmrt::sv_i32(crate::wasmrt::rem_s32(a as i32, b as i32)).bits, 4),
            -0x8000_0000,
        ),
        (b as i32) != 0,
{
    reveal_with_fuel(pow256, 5);
    lemma_low_bits(a);
    lemma_low_bits(b);
    lemma_sext32(a as u32);
    lemma_sext32(b as u32);
    let (a32, b32) = (a as i32, b as i32);
    assert(signed_operand(a, 4) == a32);
    assert(signed_operand(b, 4) == b32);
    lemma_trunc(a32 as int, b32 as int);
    if !(a32 == i32::MIN && b32 == -1) {
        assert(crate::wasmrt::div_s32(a32, b32) as int == trunc_div(a32 as int, b32 as int));
        assert(crate::wasmrt::rem_s32(a32, b32) as int == trunc_rem(a32 as int, b32 as int));
    }
    lemma_i32_slot(crate::wasmrt::div_s32(a32, b32));
    lemma_i32_slot(crate::wasmrt::rem_s32(a32, b32));
}

proof fn lemma_div64(a: u64, b: u64)
    requires
        signed_operand(b, 8) != 0,
    ensures
        divides(
            signed_operand(a, 8),
            signed_operand(b, 8),
            signed_operand(crate::wasmrt::sv_i64(crate::wasmrt::div_s64(a as i64, b as i64)).bits, 8),
            signed_operand(crate::wasmrt::sv_i64(crate::wasmrt::rem_s64(a as i64, b as i64)).bits, 8),
            -0x8000_0000_0000_0000,
        ),
        (b as i64) != 0,
{
    reveal_with_fuel(pow256, 9);
    let (a64, b64) = (a as i64, b as i64);
    lemma_i64_slot(a64);
    lemma_i64_slot(b64);
    lemma_i64_bits(a64);
    lemma_i64_bits(b64);
    lemma_i64_of_u64(a);
    lemma_i64_of_u64(b);
    assert(a64 as u64 == a) by (bit_vector)
        requires
            a64 == a as i64,
    ;
    assert(b64 as u64 == b) by (bit_vector)
        requires
            b64 == b as i64,
    ;
    lemma_trunc(a64 as int, b64 as int);
    assert(signed_operand(a, 8) == a64);
    assert(signed_operand(b, 8) == b64);
    if !(a64 == i64::MIN && b64 == -1) {
        assert(crate::wasmrt::div_s64(a64, b64) as int == trunc_div(a64 as int, b64 as int));
        assert(crate::wasmrt::rem_s64(a64, b64) as int == trunc_rem(a64 as int, b64 as int));
    }
    let q = crate::wasmrt::div_s64(a64, b64);
    let r = crate::wasmrt::rem_s64(a64, b64);
    lemma_i64_slot(q);
    lemma_i64_slot(r);
    assert(signed_operand(crate::wasmrt::sv_i64(q).bits, 8) == q);
    assert(signed_operand(crate::wasmrt::sv_i64(r).bits, 8) == r);
    if a64 == i64::MIN && b64 == -1 {
        vstd::arithmetic::div_mod::lemma_div_basics(0x8000_0000_0000_0000);
        assert((a64 as int * -1) / (b64 as int * -1) == 0x8000_0000_0000_0000);
        assert(q == i64::MIN);
        assert(r == 0);
    } else {
        assert(a64 == q * b64 + r);
        assert(abs(r as int) < abs(b64 as int));
    }
    lemma_i64_slot(crate::wasmrt::div_s64(a64, b64));
    lemma_i64_slot(crate::wasmrt::rem_s64(a64, b64));
}

/// A signed division (`div_s`) and a signed remainder (`rem_s`) of the same operands go
/// together: both are `DivideByZero` when the divisor is zero; otherwise the quotient is
/// rounded toward zero and the remainder has the sign of the dividend, with
/// `dividend == quotient * divisor + remainder` (see `divides`).
pub proof fn law_signed_division(
    code: Seq<u8>,
    pos: nat,
    code2: Seq<u8>,
    pos2: nat,
    locals: Seq<WasmStackValue>,
    stack: Seq<WasmStackValue>,
    labels: Seq<Label>,
    st: StoreState,
)
    requires
        pos < code.len(),
        pos2 < code2.len(),
        (code[pos as int] == 0x6D && code2[pos2 as int] == 0x6F) || (code[pos as int] == 0x7F && code2[pos2 as int]
            == 0x81),
        stack.len() >= 2,
    ensures
        ({
            let w: nat = if code[pos as int] == 0x6D {
                4
            } else {
                8
            };
            let n = stack.len();
            let sa = signed_operand(stack[n - 2].bits, w);
            let sb = signed_operand(stack[n - 1].bits, w);
            let rq = step(code, pos, locals, stack, labels, st);
            let rr = step(code2, pos2, locals, stack, labels, st);
            &&& rq.1 == st && rr.1 == st
            &&& sb == 0 ==> rq.0 == Step::Trap(WasmRuntimeErrorKind::DivideByZero) && rr.0 == Step::Trap(
                WasmRuntimeErrorKind::DivideByZero,
            )
            &&& sb != 0 ==> (rq.0 matches Step::Next(p, l2, s2, b2) && p == pos + 1 && l2 == locals && b2 == labels
                && s2.len() == n - 1 && s2.drop_last() == stack.take(n - 2) && (rr.0 matches Step::Next(
                p3,
                l3,
                s3,
                b3,
            ) && p3 == pos2 + 1 && l3 == locals && b3 == labels && s3.len() == n - 1 && s3.drop_last() == stack.take(
                n - 2,
            ) && divides(
                sa,
                sb,
                signed_operand(s2.last().bits, w),
                signed_operand(s3.last().bits, w),
                -(pow256(w) / 2),
            )))
        }),
{
    let n = stack.len();
    let (a, b) = (stack[n - 2].bits, stack[n - 1].bits);
    reveal_with_fuel(pow256, 9);
    if code[pos as int] == 0x6D {
        lemma_low_bits(b);
        lemma_sext32(b as u32);
        assert(signed_operand(b, 4) == b as i32);
        if (b as i32) != 0 {
            lemma_div32(a, b);
        }
    } else {
        lemma_i64_slot(b as i64);
        assert((b as i64) as u64 == b) by (bit_vector);
        if (b as i64) != 0 {
            lemma_div64(a, b);
        }
    }
    assert(stack.take(n - 2).push(stack[n - 1]).drop_last() =~= stack.take(n - 2));
}

/// `memory.grow` takes the number of pages to add from the stack (its low 32 bits) and gives
/// the former number of pages, adding that many pages of 65536 zero bytes after the bytes the
/// memory had, when the memory stays within its most pages; otherwise it gives -1 (all 32
/// bits set) and leaves the memory as it was. `memory.size` gives the number of pages.
pub proof fn law_memory_grow(
    code: Seq<u8>,
    pos: nat,
    locals: Seq<WasmStackValue>,
    stack: Seq<WasmStackValue>,
    labels: Seq<Label>,
    st: StoreState,
)
    requires
        pos + 1 < code.len(),
        code[pos as int] == 0x40 || code[pos as int] == 0x3F,
        code[pos as int] == 0x40 ==> stack.len() > 0,
        st.pages <= st.max_pages,
        st.pages <= 0x1_0000,
    ensures
        code[pos as int] == 0x3F ==> step(code, pos, locals, stack, labels, st).1 == st,
        code[pos as int] == 0x3F ==> (step(code, pos, locals, stack, labels, st).0 matches Step::Next(p, l2, s2, b2) && p
            == pos + 2 && l2 == locals && b2 == labels && s2.drop_last() == stack && s2.len() == stack.len() + 1
            && s2.last().bits as nat % 0x1_0000_0000 == st.pages),
        code[pos as int] == 0x40 ==> (step(code, pos, locals, stack, labels, st).0 matches Step::Next(p, l2, s2, b2) && p
            == pos + 2 && l2 == locals && b2 == labels && s2.drop_last() == stack.drop_last() && s2.len()
            == stack.len() && s2.last().bits as nat % 0x1_0000_0000 == if st.pages + stack.last().bits as nat
            % 0x1_0000_0000 <= st.max_pages {
            st.pages
        } else {
            0xFFFF_FFFF
        }),
        code[pos as int] == 0x40 && st.pages + stack.last().bits as nat % 0x1_0000_0000 > st.max_pages ==> step(
            code,
            pos,
            locals,
            stack,
            labels,
            st,
        ).1 == st,
        code[pos as int] == 0x40 && st.pages + stack.last().bits as nat % 0x1_0000_0000 <= st.max_pages ==> ({
            let delta = stack.last().bits as nat % 0x1_0000_0000;
            let st2 = step(code, pos, locals, stack, labels, st).1;
            &&& st2.pages == st.pages + delta && st2.max_pages == st.max_pages && st2.globals == st.globals
            &&& st2.memory.len() == st.memory.len() + delta * 65536
            &&& forall|i: int| 0 <= i < st.memory.len() ==> #[trigger] st2.memory[i] == st.memory[i]
            &&& forall|i: int| st.memory.len() <= i < st2.memory.len() ==> #[trigger] st2.memory[i] == 0
        }),
{
    let p = st.pages;
    assert((p as i32) as int == p);
    assert((p as u32) as int == p);
    let x = p as i32;
    assert(((x as i64) as u64) as nat % 0x1_0000_0000 == x) by (bit_vector)
        requires
            0 <= x <= 0x1_0000,
    ;
    let y = p as u32;
    assert((y as u64) as nat % 0x1_0000_0000 == y);
    assert((u32::MAX as u64) as nat % 0x1_0000_0000 == 0xFFFF_FFFF);
    let r = step(code, pos, locals, stack, labels, st);
    if code[pos as int] == 0x3F {
        assert(r.1 == st);
        assert(r.0 == Step::Next(pos + 2, locals, stack.push(crate::wasmrt::sv_i32(p as i32)), labels));
        assert(stack.push(crate::wasmrt::sv_i32(p as i32)).drop_last() =~= stack);
    }
    if code[pos as int] == 0x40 {
        let v = stack.last().bits;
        lemma_low_bits(v);
        let delta = v as u32;
        assert forall|x: WasmStackValue| #[trigger] stack.drop_last().push(x).drop_last() == stack.drop_last() by {
            assert(stack.drop_last().push(x).drop_last() =~= stack.drop_last());
        }
        if delta == 0 {
            assert(r.1 == st);
        } else if st.pages + delta > st.max_pages {
            assert(r.1 == st);
        } else {
            assert(r.1.pages == st.pages + delta);
        }
        if delta != 0 && st.pages + delta <= st.max_pages {
            let z = crate::memory::zeros((delta * crate::memory::page_size()) as nat);
            let m2 = st.memory + z;
            assert(z.len() == delta * 65536);
            assert forall|i: int| st.memory.len() <= i < m2.len() implies #[trigger] m2[i] == 0 by {
                assert(m2[i] == z[i - st.memory.len()]);
            }
        }
    }
}

/// `local.get` pushes the local whose index follows; `local.set` moves the top of the stack
/// into that local; `local.tee` copies it there and keeps it on the stack. The other locals
/// stay as they were.
pub proof fn law_locals(
    code: Seq<u8>,
    pos: nat,
    locals: Seq<WasmStackValue>,
    stack: Seq<WasmStackValue>,
    labels: Seq<Label>,
    st: StoreState,
)
    requires
        pos < code.len(),
        0x20 <= code[pos as int] <= 0x22,
        decode_u64(code.skip((pos + 1) as int)) is Ok,
        decode_u64(code.skip((pos + 1) as int)).unwrap().0 < locals.len(),
        locals.len() <= 0x1_0000_0000,
        code[pos as int] != 0x20 ==> stack.len() > 0,
    ensures
        ({
            let (i, k) = decode_u64(code.skip((pos + 1) as int)).unwrap();
            let r = step(code, pos, locals, stack, labels, st);
            &&& r.1 == st
            &&& code[pos as int] == 0x20 ==> r.0 == Step::Next(pos + 1 + k, locals, stack.push(locals[i as int]), labels)
            &&& code[pos as int] != 0x20 ==> (r.0 matches Step::Next(p, l2, s2, b2) && p == pos + 1 + k && b2 == labels
                && l2.len() == locals.len() && l2[i as int] == stack.last() && (forall|j: int|
                0 <= j < locals.len() && j != i ==> #[trigger] l2[j] == locals[j]) && s2 == if code[pos as int] == 0x21 {
                stack.drop_last()
            } else {
                stack
            })
        }),
{
}

/// `select` keeps the first of its two values when the condition on top of the stack (its low
/// 32 bits) is not zero, and the second when it is.
pub proof fn law_select(
    code: Seq<u8>,
    pos: nat,
    locals: Seq<WasmStackValue>,
    stack: Seq<WasmStackValue>,
    labels: Seq<Label>,
    st: StoreState,
)
    requires
        pos < code.len(),
        code[pos as int] == 0x1B,
        stack.len() >= 3,
    ensures
        ({
            let n = stack.len();
            let r = step(code, pos, locals, stack, labels, st);
            &&& r.1 == st
            &&& r.0 == Step::Next(
                pos + 1,
                locals,
                stack.take(n - 3).push(
                    if stack[n - 1].bits as nat % 0x1_0000_0000 != 0 {
                        stack[n - 3]
                    } else {
                        stack[n - 2]
                    },
                ),
                labels,
            )
        }),
{
    let c = stack[stack.len() - 1].bits;
    lemma_low_bits(c);
    assert((c as i32 != 0) == ((c as u32) != 0)) by (bit_vector);
}

/// `global.get` pushes the bits of the global whose index follows; `global.set` moves the top
/// of the stack into a mutable global, keeping its mutability and type and every other global,
/// and cannot run on an immutable one.
pub proof fn law_globals(
    code: Seq<u8>,
    pos: nat,
    locals: Seq<WasmStackValue>,
    stack: Seq<WasmStackValue>,
    labels: Seq<Label>,
    st: StoreState,
)
    requires
        pos < code.len(),
        code[pos as int] == 0x23 || code[pos as int] == 0x24,
        decode_u32(code.skip((pos + 1) as int)) is Ok,
        decode_u32(code.skip((pos + 1) as int)).unwrap().0 < st.globals.len(),
        code[pos as int] == 0x24 ==> stack.len() > 0,
    ensures
        ({
            let (i, k) = decode_u32(code.skip((pos + 1) as int)).unwrap();
            let g = st.globals[i as int];
            let r = step(code, pos, locals, stack, labels, st);
            &&& code[pos as int] == 0x23 ==> r.1 == st && r.0 == Step::Next(
                pos + 1 + k,
                locals,
                stack.push(WasmStackValue { bits: g.0 }),
                labels,
            )
            &&& code[pos as int] == 0x24 && !g.1 ==> r == (Step::Stuck, st)
            &&& code[pos as int] == 0x24 && g.1 ==> {
                &&& r.0 == Step::Next(pos + 1 + k, locals, stack.drop_last(), labels)
                &&& r.1.memory == st.memory && r.1.pages == st.pages && r.1.max_pages == st.max_pages
                &&& r.1.globals.len() == st.globals.len()
                &&& r.1.globals[i as int] == (stack.last().bits, true, g.2)
                &&& forall|j: int| 0 <= j < st.globals.len() && j != i ==> #[trigger] r.1.globals[j] == st.globals[j]
            }
        }),
{
}

/// An unsigned shift to the right divides by a power of two: `i32.shr_u` shifts the low 32 bits
/// by the second operand modulo 32, `i64.shr_u` all 64 bits by it modulo 64.
pub proof fn law_unsigned_shifts(
    code: Seq<u8>,
    pos: nat,
    locals: Seq<WasmStackValue>,
    stack: Seq<WasmStackValue>,
    labels: Seq<Label>,
    st: StoreState,
)
    requires
        pos < code.len(),
        code[pos as int] == 0x76 || code[pos as int] == 0x88,
        stack.len() >= 2,
    ensures
        ({
            let n = stack.len();
            let (a, b) = (stack[n - 2].bits as nat, stack[n - 1].bits as nat);
            let r = step(code, pos, locals, stack, labels, st);
            &&& r.1 == st
            &&& r.0 matches Step::Next(p, l2, s2, b2) && p == pos + 1 && l2 == locals && b2 == labels && s2.len() == n
                - 1 && s2.drop_last() == stack.take(n - 2) && s2.last().bits as nat == if code[pos as int] == 0x76 {
                (a % 0x1_0000_0000) / vstd::arithmetic::power2::pow2(b % 32)
            } else {
                a / vstd::arithmetic::power2::pow2(b % 64)
            }
        }),
{
    let n = stack.len();
    let (a, b) = (stack[n - 2].bits, stack[n - 1].bits);
    lemma_low_bits(a);
    lemma_low_bits(b);
    let k32 = (b as u32) % 32;
    assert(k32 as nat == (b as nat) % 32) by {
        assert((b as u32) as nat == b as nat % 0x1_0000_0000);
        vstd::arithmetic::div_mod::lemma_mod_mod(b as int, 32, 0x800_0000);
    }
    vstd::bits::lemma_u32_shr_is_div(a as u32, k32);
    vstd::bits::lemma_u64_shr_is_div(a, b % 64);
    assert(stack.take(n - 2).push(stack[n - 1]).drop_last() =~= stack.take(n - 2));
}

/// `i32.eqz` gives 1 when the low 32 bits of its operand are zero and 0 otherwise; `i64.eqz`
/// likewise for all 64 bits.
pub proof fn law_eqz(
    code: Seq<u8>,
    pos: nat,
    locals: Seq<WasmStackValue>,
    stack: Seq<WasmStackValue>,
    labels: Seq<Label>,
    st: StoreState,
)
    requires
        pos < code.len(),
        code[pos as int] == 0x45 || code[pos as int] == 0x50,
        stack.len() > 0,
    ensures
        ({
            let v = stack.last().bits as nat;
            let zero = if code[pos as int] == 0x45 {
                v % 0x1_0000_0000 == 0
            } else {
                v == 0
            };
            let r = step(code, pos, locals, stack, labels, st);
            &&& r.1 == st
            &&& r.0 == Step::Next(
                pos + 1,
                locals,
                stack.drop_last().push(WasmStackValue { bits: if zero { 1 } else { 0 } }),
                labels,
            )
        }),
{
    let v = stack.last().bits;
    lemma_low_bits(v);
    assert((v as i32 == 0) == ((v as u32) == 0)) by (bit_vector);
    assert((v as i64 == 0) == (v == 0)) by (bit_vector);
}

/// `i32.and`, `i32.or` and `i32.xor` combine the low 32 bits of their operands bit by bit and
/// give a number below 2^32; the `i64` ones combine all 64 bits.
pub proof fn law_bitwise(
    code: Seq<u8>,
    pos: nat,
    locals: Seq<WasmStackValue>,
    stack: Seq<WasmStackValue>,
    labels: Seq<Label>,
    st: StoreState,
)
    requires
        pos < code.len(),
        (0x71 <= code[pos as int] <= 0x73) || (0x83 <= code[pos as int] <= 0x85),
        stack.len() >= 2,
    ensures
        ({
            let n = stack.len();
            let (a, b) = (stack[n - 2].bits, stack[n - 1].bits);
            let op = code[pos as int];
            let x: u64 = if op == 0x71 {
                (a & b) & 0xFFFF_FFFF
            } else if op == 0x72 {
                (a | b) & 0xFFFF_FFFF
            } else if op == 0x73 {
                (a ^ b) & 0xFFFF_FFFF
            } else if op == 0x83 {
                a & b
            } else if op == 0x84 {
                a | b
            } else {
                a ^ b
            };
            let r = step(code, pos, locals, stack, labels, st);
            &&& r.1 == st
            &&& r.0 == Step::Next(pos + 1, locals, stack.take(n - 2).push(WasmStackValue { bits: x }), labels)
        }),
{
    let n = stack.len();
    let (a, b) = (stack[n - 2].bits, stack[n - 1].bits);
    assert(((a as u32) & (b as u32)) as u64 == (a & b) & 0xFFFF_FFFF) by (bit_vector);
    assert(((a as u32) | (b as u32)) as u64 == (a | b) & 0xFFFF_FFFF) by (bit_vector);
    assert(((a as u32) ^ (b as u32)) as u64 == (a ^ b) & 0xFFFF_FFFF) by (bit_vector);
}

/// Checking a store in a module with memory pages: it takes an address and a value, after an
/// immediate of two numbers; it is refused with `TypeMismatch` only when the address is not an
/// `i32` and the value is not of the type of the store either, as the original checker does;
/// fewer than two operands are `OutOfStack`.
pub proof fn law_store_checks(code: Seq<u8>, pos: nat, vs: Seq<WasmValType>, bs: Seq<BlockFrame>, ctx: CodeContext)
    requires
        pos < code.len(),
        store_width(code[pos as int]) is Some,
        ctx.has_memory,
        decode_u32(code.skip((pos + 1) as int)) is Ok,
        decode_u32(code.skip((pos + 1) as int).skip(decode_u32(code.skip((pos + 1) as int)).unwrap().1 as int)) is Ok,
    ensures
        ({
            let op = code[pos as int];
            let t = if op == 0x36 || op == 0x3A || op == 0x3B {
                WasmValType::I32
            } else if op == 0x38 {
                WasmValType::F32
            } else if op == 0x39 {
                WasmValType::F64
            } else {
                WasmValType::I64
            };
            let k1 = decode_u32(code.skip((pos + 1) as int)).unwrap().1;
            let k2 = decode_u32(code.skip((pos + 1) as int).skip(k1 as int)).unwrap().1;
            let n = vs.len();
            let r = check_step(code, pos, vs, bs, ctx);
            &&& n < 2 ==> r == Check::Fail(CompileErrorKind::OutOfStack)
            &&& n >= 2 && vs[n - 2] != WasmValType::I32 && vs[n - 1] != t ==> r == Check::Fail(
                CompileErrorKind::TypeMismatch,
            )
            &&& n >= 2 && (vs[n - 2] == WasmValType::I32 || vs[n - 1] == t) ==> r == Check::Next(
                pos + 1 + k1 + k2,
                vs.take(n - 2),
                bs,
            )
        }),
{
}

/// The operand type and the result type of an integer operator with two operands, by opcode:
/// the `i32` comparisons and operators read two `i32`, the `i64` ones two `i64`; comparisons
/// give an `i32`, the other operators a value of their operands' type
pub open spec fn binary_check(op: u8) -> Option<(WasmValType, WasmValType)> {
    if (0x46 <= op <= 0x4F) || (0x6A <= op <= 0x78) {
        Some((WasmValType::I32, WasmValType::I32))
    } else if 0x51 <= op <= 0x5A {
        Some((WasmValType::I64, WasmValType::I32))
    } else if 0x7C <= op <= 0x8A {
        Some((WasmValType::I64, WasmValType::I64))
    } else {
        None
    }
}

/// Checking an integer operator with two operands: both must be of its operand type, and they
/// are replaced by one value of its result type; operands of another type are `TypeMismatch`,
/// fewer than two `OutOfStack`. It has no immediate.
pub proof fn law_binary_checks(code: Seq<u8>, pos: nat, vs: Seq<WasmValType>, bs: Seq<BlockFrame>, ctx: CodeContext)
    requires
        pos < code.len(),
        binary_check(code[pos as int]) is Some,
    ensures
        ({
            let (t, u) = binary_check(code[pos as int]).unwrap();
            let n = vs.len();
            let r = check_step(code, pos, vs, bs, ctx);
            &&& n < 2 ==> r == Check::Fail(CompileErrorKind::OutOfStack)
            &&& n >= 2 && vs[n - 1] == t && vs[n - 2] == t ==> r == Check::Next(pos + 1, vs.take(n - 2).push(u), bs)
            &&& n >= 2 && (vs[n - 1] != t || vs[n - 2] != t) ==> r == Check::Fail(CompileErrorKind::TypeMismatch)
        }),
{
    let n = vs.len();
    if n >= 2 {
        assert(vs.drop_last() =~= vs.take(n - 2).push(vs[n - 2]));
    }
}

} // verus!
