//! WebAssembly modules: sections, compilation and instances
use crate::error::{
    read_error_kind, CompileError, CompileErrorKind, CompileErrorSource, ExceptionPosition, LinkError,
    WasmRuntimeErrorKind,
};
use crate::global::WasmGlobal;
use crate::leb128::{decode_i32, decode_i64, decode_string, decode_u32, Leb128Reader, ReadError};
use crate::memory::WasmMemory;
use crate::names::{decode_names, NameState, WasmName};
use crate::opcode::{mnemonic_of_byte, WasmMnemonic};
use crate::types::{
    decode_export, decode_func_type, decode_import, val_type_items, val_types_as_slice, val_types_from_slice, ValTypes,
    WasmExport, WasmExportDesc, WasmImport, WasmImportDescriptor, WasmType,
};
use crate::value::{value_type, WasmValue};
use crate::wasm::{
    decode_limit, decode_table, is_wasm_binary, section_of_code, section_rank, ImportExportKind,
    ImportResult, WasmLimit, WasmSectionId, WasmTable, WasmTypeIndex, WasmValType, WebAssembly,
};
use crate::cg::{check_body, code_context};
use crate::model::{
    add_bodies, add_code, add_function, body_step, compile_result, empty_model, allocates_pages, sections_allocate, section_allocates, vec_allocates, items_allocate, import_allocates, entry_allocates, limit_allocates, read_sections, unbound, add_import, add_items, add_memory, add_vec, first_open, model_context, func_model, mem_model, module_model, section_effect, FuncModel, MemModel, ModuleModel,
};
use crate::runtime::{is_bare, reports, WasmRuntimeError};
use crate::wasmrt::{call_env, host_agrees, host_spec, no_host, no_host_result, run_fault, run_with_host, CallEnv, Fault, HostResult, memory_state, run_result, run_store, StoreState, WasmCodeBlock, WasmRuntimeContext, WasmStore};
use vstd::prelude::*;

verus! {

/// The next section of `s`: none at the end of `s`; otherwise its id, its content and the
/// number of bytes it takes
pub open spec fn decode_section(s: Seq<u8>) -> Result<Option<(WasmSectionId, Seq<u8>, nat)>, CompileErrorKind> {
    if s.len() == 0 {
        Ok(None)
    } else {
        match section_of_code(s[0]) {
            None => Err(CompileErrorKind::UnexpectedToken),
            Some(id) => match decode_u32(s.skip(1)) {
                Err(e) => Err(read_error_kind(e)),
                Ok((len, n)) => if 1 + n + len <= s.len() {
                    Ok(Some((id, s.subrange((1 + n) as int, (1 + n + len) as int), 1 + n + len)))
                } else {
                    Err(CompileErrorKind::InternalInconsistency)
                },
            },
        }
    }
}

/// The sections of `s` after `acc`, or the first framing error
pub open spec fn section_list(s: Seq<u8>, acc: Seq<(WasmSectionId, Seq<u8>)>) -> Result<
    Seq<(WasmSectionId, Seq<u8>)>,
    CompileErrorKind,
>
    decreases s.len(),
{
    match decode_section(s) {
        Err(e) => Err(e),
        Ok(None) => Ok(acc),
        Ok(Some((id, content, n))) => if 0 < n <= s.len() {
            section_list(s.skip(n as int), acc.push((id, content)))
        } else {
            Ok(acc)
        },
    }
}

/// Whether the sections other than custom ones come in nondecreasing rank
pub open spec fn sections_ordered(secs: Seq<(WasmSectionId, Seq<u8>)>) -> bool {
    forall|i: int, j: int|
        #![trigger secs[i], secs[j]]
        0 <= i < j < secs.len() && secs[i].0 != WasmSectionId::Custom && secs[j].0
            != WasmSectionId::Custom ==> section_rank(secs[i].0) <= section_rank(secs[j].0)
}

/// The custom sections whose name decodes, with their names and the bytes after the name
pub open spec fn custom_sections_of(secs: Seq<(WasmSectionId, Seq<u8>)>) -> Seq<(Seq<char>, Seq<u8>)>
    decreases secs.len(),
{
    if secs.len() == 0 {
        Seq::empty()
    } else {
        let rest = custom_sections_of(secs.drop_last());
        let (id, content) = secs.last();
        if id == WasmSectionId::Custom {
            match decode_string(content) {
                Ok((name, n)) => rest.push((name, content.skip(n as int))),
                Err(_) => rest,
            }
        } else {
            rest
        }
    }
}

/// Items decoded one after another, `count` of them, after `acc`
pub open spec fn decode_items<T>(
    s: Seq<u8>,
    count: nat,
    dec: spec_fn(Seq<u8>) -> Result<(T, nat), CompileErrorKind>,
    acc: Seq<T>,
) -> Result<Seq<T>, CompileErrorKind>
    decreases count,
{
    if count == 0 {
        Ok(acc)
    } else {
        match dec(s) {
            Err(e) => Err(e),
            Ok((t, n)) => decode_items(s.skip(n as int), (count - 1) as nat, dec, acc.push(t)),
        }
    }
}

/// A vector of items: a 32-bit count, then the items
pub open spec fn decode_vec<T>(s: Seq<u8>, dec: spec_fn(Seq<u8>) -> Result<(T, nat), CompileErrorKind>) -> Result<
    Seq<T>,
    CompileErrorKind,
> {
    match decode_u32(s) {
        Err(e) => Err(read_error_kind(e)),
        Ok((count, n)) => decode_items(s.skip(n as int), count, dec, Seq::empty()),
    }
}

/// A function type as plain values
pub open spec fn type_item() -> spec_fn(Seq<u8>) -> Result<((Seq<WasmValType>, Seq<WasmValType>), nat), CompileErrorKind> {
    |s: Seq<u8>|
        match decode_func_type(s) {
            Ok((p, q, n)) => Ok(((p, q), n)),
            Err(e) => Err(e),
        }
}

/// An import as plain values
pub open spec fn import_item() -> spec_fn(Seq<u8>) -> Result<((Seq<char>, Seq<char>, WasmImportDescriptor), nat), CompileErrorKind> {
    |s: Seq<u8>|
        match decode_import(s) {
            Ok((m, t, d, n)) => Ok(((m, t, d), n)),
            Err(e) => Err(e),
        }
}

/// An export as plain values, in a module with `n_globals` globals
pub open spec fn export_item(n_globals: nat) -> spec_fn(Seq<u8>) -> Result<((Seq<char>, WasmExportDesc), nat), CompileErrorKind> {
    |s: Seq<u8>|
        match decode_export(s, n_globals) {
            Ok((t, d, n)) => Ok(((t, d), n)),
            Err(e) => Err(e),
        }
}

/// A 32-bit number
pub open spec fn u32_item() -> spec_fn(Seq<u8>) -> Result<(nat, nat), CompileErrorKind> {
    |s: Seq<u8>|
        match decode_u32(s) {
            Ok((v, n)) => Ok((v, n)),
            Err(e) => Err(read_error_kind(e)),
        }
}

/// A memory limit
pub open spec fn limit_item() -> spec_fn(Seq<u8>) -> Result<(WasmLimit, nat), CompileErrorKind> {
    |s: Seq<u8>| decode_limit(s)
}

/// A table limit
pub open spec fn table_item() -> spec_fn(Seq<u8>) -> Result<(WasmLimit, nat), CompileErrorKind> {
    |s: Seq<u8>| decode_table(s)
}

/// The little-endian number of four bytes
pub open spec fn le32(b: Seq<u8>) -> nat {
    (b[0] + 0x100 * b[1] + 0x1_0000 * b[2] + 0x100_0000 * b[3]) as nat
}

/// The little-endian number of eight bytes
pub open spec fn le64(b: Seq<u8>) -> nat {
    (le32(b) + 0x1_0000_0000 * le32(b.skip(4))) as nat
}

/// A constant instruction other than `end`: its value and the size of its immediate.
/// `UnsupportedBytecode` for another instruction and `InvalidBytecode` for a byte that is no
/// instruction.
pub open spec fn decode_const_instr(s: Seq<u8>) -> Result<(WasmValue, nat), CompileErrorKind> {
    let imm = s.skip(1);
    match mnemonic_of_byte(s[0]) {
        Some(WasmMnemonic::I32Const) => match decode_i32(imm) {
            Err(e) => Err(read_error_kind(e)),
            Ok((v, n)) => Ok((WasmValue::I32(v as i32), n)),
        },
        Some(WasmMnemonic::I64Const) => match decode_i64(imm) {
            Err(e) => Err(read_error_kind(e)),
            Ok((v, n)) => Ok((WasmValue::I64(v as i64), n)),
        },
        Some(WasmMnemonic::F32Const) => if imm.len() < 4 {
            Err(CompileErrorKind::UnexpectedEof)
        } else {
            Ok((WasmValue::F32(le32(imm) as u32), 4))
        },
        Some(WasmMnemonic::F64Const) => if imm.len() < 8 {
            Err(CompileErrorKind::UnexpectedEof)
        } else {
            Ok((WasmValue::F64(le64(imm) as u64), 8))
        },
        Some(m) => Err(CompileErrorKind::UnsupportedBytecode(m)),
        None => Err(CompileErrorKind::InvalidBytecode(s[0])),
    }
}

/// A constant expression: constants up to `end`, whose value is the last constant, and the
/// number of bytes it takes. `UnexpectedEof` at the end of the bytes and `InvalidData` for
/// `end` without a constant.
pub open spec fn decode_const_expr(s: Seq<u8>, last: Option<WasmValue>) -> Result<(WasmValue, nat), CompileErrorKind>
    decreases s.len(),
{
    if s.len() == 0 {
        Err(CompileErrorKind::UnexpectedEof)
    } else if mnemonic_of_byte(s[0]) == Some(WasmMnemonic::End) {
        match last {
            Some(v) => Ok((v, 1)),
            None => Err(CompileErrorKind::InvalidData),
        }
    } else {
        match decode_const_instr(s) {
            Err(e) => Err(e),
            Ok((v, n)) => if 1 + n <= s.len() {
                match decode_const_expr(s.skip((1 + n) as int), Some(v)) {
                    Ok((w, k)) => Ok((w, 1 + n + k)),
                    Err(e) => Err(e),
                }
            } else {
                Err(CompileErrorKind::UnexpectedEof)
            },
        }
    }
}

/// A constant expression takes at most the bytes it is read from.
pub proof fn lemma_const_expr_len(s: Seq<u8>, last: Option<WasmValue>)
    ensures
        decode_const_expr(s, last) matches Ok((v, n)) ==> 1 <= n <= s.len(),
    decreases s.len(),
{
    if s.len() > 0 && mnemonic_of_byte(s[0]) != Some(WasmMnemonic::End) {
        if let Ok((v, n)) = decode_const_instr(s) {
            if 1 + n <= s.len() {
                lemma_const_expr_len(s.skip((1 + n) as int), Some(v));
            }
        }
    }
}

/// A global: its value type, its mutability (byte 1), and its constant value, which must
/// have that type (`InvalidGlobal` otherwise)
pub open spec fn global_item() -> spec_fn(Seq<u8>) -> Result<((WasmValue, bool), nat), CompileErrorKind> {
    |s: Seq<u8>|
        if s.len() == 0 {
            Err(CompileErrorKind::UnexpectedEof)
        } else {
            match crate::wasm::val_type_of_code(s[0]) {
                None => Err(CompileErrorKind::UnexpectedToken),
                Some(t) => if s.len() < 2 {
                    Err(CompileErrorKind::UnexpectedEof)
                } else {
                    match decode_const_expr(s.skip(2), None) {
                        Err(e) => Err(e),
                        Ok((v, n)) => if value_type(v) != t {
                            Err(CompileErrorKind::InvalidGlobal)
                        } else {
                            Ok(((v, s[1] == 1), 2 + n))
                        },
                    }
                },
            }
        }
}

/// `count` 32-bit numbers one after another, and the number of bytes they take
pub open spec fn decode_u32s(s: Seq<u8>, count: nat) -> Result<(Seq<nat>, nat), CompileErrorKind>
    decreases count,
{
    if count == 0 {
        Ok((Seq::empty(), 0))
    } else {
        match decode_u32(s) {
            Err(e) => Err(read_error_kind(e)),
            Ok((v, n)) => if n <= s.len() {
                match decode_u32s(s.skip(n as int), (count - 1) as nat) {
                    Ok((vs, k)) => Ok((seq![v].add(vs), n + k)),
                    Err(e) => Err(e),
                }
            } else {
                Err(CompileErrorKind::UnexpectedEof)
            },
        }
    }
}

/// An offset given by a constant expression: an `i32`, as a `usize`; `InvalidData` for
/// another type
pub open spec fn decode_offset(s: Seq<u8>) -> Result<(usize, nat), CompileErrorKind> {
    match decode_const_expr(s, None) {
        Err(e) => Err(e),
        Ok((WasmValue::I32(a), n)) => Ok((a as usize, n)),
        Ok(_) => Err(CompileErrorKind::InvalidData),
    }
}

/// An element segment of a module with `n_tables` tables: the table, the offset, and the
/// function indices to write from the offset on. `InvalidData` for a table that does not
/// exist. When the end of the range passes `usize::MAX`, no index is read.
pub open spec fn elem_item(n_tables: nat) -> spec_fn(Seq<u8>) -> Result<((nat, usize, Seq<nat>), nat), CompileErrorKind> {
    |s: Seq<u8>| decode_elem(n_tables, s)
}

/// An element segment; see `elem_item`
pub open spec fn decode_elem(n_tables: nat, s: Seq<u8>) -> Result<((nat, usize, Seq<nat>), nat), CompileErrorKind> {
    match decode_u32(s) {
        Err(e) => Err(read_error_kind(e)),
        Ok((t, n1)) => match decode_offset(s.skip(n1 as int)) {
            Err(e) => Err(e),
            Ok((offset, n2)) => match decode_u32(s.skip((n1 + n2) as int)) {
                Err(e) => Err(read_error_kind(e)),
                Ok((count, n3)) => if t >= n_tables {
                    Err(CompileErrorKind::InvalidData)
                } else {
                    let k = if offset + count > usize::MAX {
                        0
                    } else {
                        count
                    };
                    match decode_u32s(s.skip((n1 + n2 + n3) as int), k) {
                        Err(e) => Err(e),
                        Ok((elems, n4)) => Ok(((t, offset, elems), n1 + n2 + n3 + n4)),
                    }
                },
            },
        },
    }
}

/// The elements of a table after writing `elems` from `offset` on; indices past the table are
/// left out.
pub open spec fn write_elems(elements: Seq<usize>, offset: nat, elems: Seq<nat>) -> Seq<usize> {
    Seq::new(
        elements.len(),
        |j: int|
            if offset <= j < offset + elems.len() {
                elems[j - offset] as usize
            } else {
                elements[j]
            },
    )
}

/// The elements of the tables after the element segments, one after another
pub open spec fn apply_elems(tables: Seq<Seq<usize>>, items: Seq<(nat, usize, Seq<nat>)>) -> Seq<Seq<usize>>
    decreases items.len(),
{
    if items.len() == 0 {
        tables
    } else {
        let before = apply_elems(tables, items.drop_last());
        let (t, offset, elems) = items.last();
        before.update(t as int, write_elems(before[t as int], offset as nat, elems))
    }
}

/// A data segment of a module whose memories have `mem_lens` bytes: the memory, the offset and
/// the bytes. `InvalidData` for a memory that does not exist or bytes that do not fit it from
/// the offset on.
pub open spec fn data_item(mem_lens: Seq<nat>) -> spec_fn(Seq<u8>) -> Result<((nat, usize, Seq<u8>), nat), CompileErrorKind> {
    |s: Seq<u8>| decode_data(mem_lens, s)
}

/// A data segment; see `data_item`
pub open spec fn decode_data(mem_lens: Seq<nat>, s: Seq<u8>) -> Result<((nat, usize, Seq<u8>), nat), CompileErrorKind> {
    match decode_u32(s) {
        Err(e) => Err(read_error_kind(e)),
        Ok((m, n1)) => match decode_offset(s.skip(n1 as int)) {
            Err(e) => Err(e),
            Ok((offset, n2)) => match crate::leb128::decode_blob(s.skip((n1 + n2) as int)) {
                Err(e) => Err(read_error_kind(e)),
                Ok((src, n3)) => if m >= mem_lens.len() {
                    Err(CompileErrorKind::InvalidData)
                } else if offset < mem_lens[m as int] && offset + src.len() <= mem_lens[m as int] {
                    Ok(((m, offset, src), n1 + n2 + n3))
                } else {
                    Err(CompileErrorKind::InvalidData)
                },
            },
        },
    }
}

/// The bytes of the memories after the data segments, one after another
pub open spec fn apply_data(mems: Seq<Seq<u8>>, items: Seq<(nat, usize, Seq<u8>)>) -> Seq<Seq<u8>>
    decreases items.len(),
{
    if items.len() == 0 {
        mems
    } else {
        let before = apply_data(mems, items.drop_last());
        let (m, offset, src) = items.last();
        let b = before[m as int];
        before.update(
            m as int,
            b.subrange(0, offset as int) + src + b.subrange(offset + src.len(), b.len() as int),
        )
    }
}

/// The local declarations of a body: how many locals of which type
pub open spec fn local_decl_item() -> spec_fn(Seq<u8>) -> Result<((nat, WasmValType), nat), CompileErrorKind> {
    |s: Seq<u8>|
        match decode_u32(s) {
            Err(e) => Err(read_error_kind(e)),
            Ok((count, n)) => if n < s.len() {
                match crate::wasm::val_type_of_code(s[n as int]) {
                    Some(t) => Ok(((count, t), n + 1)),
                    None => Err(CompileErrorKind::UnexpectedToken),
                }
            } else {
                Err(CompileErrorKind::UnexpectedEof)
            },
        }
}

/// The local types that declarations give, in order
pub open spec fn expand_locals(decls: Seq<(nat, WasmValType)>) -> Seq<WasmValType>
    decreases decls.len(),
{
    if decls.len() == 0 {
        Seq::empty()
    } else {
        expand_locals(decls.drop_last()) + Seq::new(decls.last().0, |i: int| decls.last().1)
    }
}

/// The elements of each table
pub open spec fn table_elements(ts: Seq<WasmTable>) -> Seq<Seq<usize>> {
    Seq::new(ts.len(), |k: int| ts[k].elements())
}

/// The sizes in bytes of the memories
pub open spec fn memory_lens(ms: Seq<WasmMemory>) -> Seq<nat> {
    Seq::new(ms.len(), |k: int| ms[k].bytes().len())
}

/// The bytes of each memory
pub open spec fn memory_bytes(ms: Seq<WasmMemory>) -> Seq<Seq<u8>> {
    Seq::new(ms.len(), |k: int| ms[k].bytes())
}

/// Numbers decoded one after another take at most the bytes they are read from.
pub proof fn lemma_u32s_len(s: Seq<u8>, count: nat)
    ensures
        decode_u32s(s, count) matches Ok((vs, n)) ==> n <= s.len() && vs.len() == count,
    decreases count,
{
    if count > 0 {
        if let Ok((v, n)) = decode_u32(s) {
            if n <= s.len() {
                lemma_u32s_len(s.skip(n as int), (count - 1) as nat);
            }
        }
    }
}

/// `count` local declarations one after another, and the number of bytes they take
pub open spec fn decode_local_decls(s: Seq<u8>, count: nat) -> Result<(Seq<(nat, WasmValType)>, nat), CompileErrorKind>
    decreases count,
{
    if count == 0 {
        Ok((Seq::empty(), 0))
    } else {
        match local_decl_item()(s) {
            Err(e) => Err(e),
            Ok((d, n)) => if n <= s.len() {
                match decode_local_decls(s.skip(n as int), (count - 1) as nat) {
                    Ok((ds, k)) => Ok((seq![d].add(ds), n + k)),
                    Err(e) => Err(e),
                }
            } else {
                Err(CompileErrorKind::UnexpectedEof)
            },
        }
    }
}

/// A function body: its size, then the vector of its local declarations, then its
/// instructions; the local types and the instructions. `UnexpectedEof` for a size that runs
/// past the end.
pub open spec fn code_item() -> spec_fn(Seq<u8>) -> Result<((Seq<WasmValType>, Seq<u8>), nat), CompileErrorKind> {
    |s: Seq<u8>| decode_code(s)
}

/// A function body; see `code_item`
pub open spec fn decode_code(s: Seq<u8>) -> Result<((Seq<WasmValType>, Seq<u8>), nat), CompileErrorKind> {
    match decode_u32(s) {
        Err(e) => Err(read_error_kind(e)),
        Ok((len, n)) => if n + len <= s.len() {
            let body = s.subrange(n as int, (n + len) as int);
            match decode_u32(body) {
                Err(e) => Err(read_error_kind(e)),
                Ok((count, n0)) => match decode_local_decls(body.skip(n0 as int), count) {
                    Err(e) => Err(e),
                    Ok((decls, k)) => Ok(((expand_locals(decls), body.skip((n0 + k) as int)), n + len)),
                },
            }
        } else {
            Err(CompileErrorKind::UnexpectedEof)
        },
    }
}

/// Whether `f` is a function of the module that has no body yet
pub open spec fn is_unresolved_internal(f: WasmFunction) -> bool {
    !f.spec_is_external() && f.body() is None && f.handle() is None
}

/// The first function from `i` on that is of the module and has no body yet
pub open spec fn first_unresolved(fs: Seq<WasmFunction>, i: nat) -> Option<nat>
    decreases fs.len() - i,
{
    if i >= fs.len() {
        None
    } else if is_unresolved_internal(fs[i as int]) {
        Some(i)
    } else {
        first_unresolved(fs, i + 1)
    }
}





/// The names of the last custom section named "name", if they decode
pub open spec fn names_of(customs: Seq<(Seq<char>, Seq<u8>)>) -> Option<NameState>
    decreases customs.len(),
{
    if customs.len() == 0 {
        None
    } else {
        let (name, blob) = customs.last();
        if name == "name"@ {
            match decode_names(blob, (None, Seq::empty(), Seq::empty())) {
                Ok(st) => Some(st),
                Err(_) => None,
            }
        } else {
            names_of(customs.drop_last())
        }
    }
}


/// A section of a module being read
pub struct WasmSection {
    section_id: WasmSectionId,
    file_position: usize,
    reader: Leb128Reader,
}

impl WasmSection {
    /// The identifier of the section
    pub closed spec fn spec_id(&self) -> WasmSectionId {
        self.section_id
    }

    /// The position of the content in the file
    pub closed spec fn spec_file_position(&self) -> nat {
        self.file_position as nat
    }

    /// The content of the section
    pub closed spec fn content(&self) -> Seq<u8> {
        self.reader.bytes()
    }

    /// The content not read yet
    pub closed spec fn rest(&self) -> Seq<u8> {
        self.reader.rest()
    }

    /// Reads the next section: none at the end of the stream; `UnexpectedToken` for an unknown
    /// identifier; a stream error for a bad length; `InternalInconsistency` when the length runs
    /// past the end. The file position counts the 8 bytes of the header.
    pub fn from_reader(reader: &mut Leb128Reader) -> (r: Result<Option<Self>, CompileErrorKind>)
        requires
            old(reader).bytes().len() + 8 <= usize::MAX,
        ensures
            final(reader).bytes() == old(reader).bytes(),
            match decode_section(old(reader).rest()) {
                Err(e) => r == Err::<Option<Self>, CompileErrorKind>(e),
                Ok(None) => r matches Ok(None) && old(reader).advanced(final(reader), 0),
                Ok(Some((id, content, n))) => (r matches Ok(Some(sec)) && sec.spec_id() == id
                    && sec.content() == content && sec.rest() == content && old(reader).advanced(
                    final(reader),
                    n,
                ) && sec.spec_file_position() == final(reader).pos() - content.len() + 8),
            },
    {
        if reader.is_eof() {
            return Ok(None);
        }
        let ghost r0 = *reader;
        let section_type = match reader.read_byte() {
            Ok(b) => b,
            Err(e) => return Err(CompileErrorKind::from_read_error(e)),
        };
        let section_id = match WasmSectionId::from_u8(section_type) {
            Some(id) => id,
            None => return Err(CompileErrorKind::UnexpectedToken),
        };
        let ghost r1 = *reader;
        proof {
            r0.lemma_advanced_rest(&r1, 1);
        }
        let length = match reader.read_usize() {
            Ok(v) => v,
            Err(e) => return Err(CompileErrorKind::from_read_error(e)),
        };
        let position = reader.position();
        let ghost r2 = *reader;
        proof {
            let n = (r2.pos() - r1.pos()) as nat;
            r1.lemma_advanced_rest(&r2, n);
            assert(r2.rest() =~= r0.rest().skip((1 + n) as int));
        }
        let file_position = position + 8;
        let sub = match reader.sub_slice(length) {
            Some(sub) => sub,
            None => return Err(CompileErrorKind::InternalInconsistency),
        };
        proof {
            let n = (r2.pos() - r1.pos()) as nat;
            assert(sub.bytes() =~= r0.rest().subrange((1 + n) as int, (1 + n + length) as int));
            assert(sub.rest() =~= sub.bytes());
        }
        Ok(Some(Self { section_id, file_position, reader: sub }))
    }

    /// The identifier of the section
    pub fn section_id(&self) -> (r: WasmSectionId)
        ensures
            r == self.spec_id(),
    {
        self.section_id
    }

    /// The position of the content in the file
    pub fn file_position(&self) -> (r: usize)
        ensures
            r == self.spec_file_position(),
    {
        self.file_position
    }

    /// The size of the content
    pub fn content_size(&self) -> (r: usize)
        ensures
            r == self.content().len(),
    {
        self.reader.len()
    }

    /// The name of a custom section; none for other sections or a name that does not decode
    pub fn custom_section_name(&self) -> (r: Option<String>)
        ensures
            self.spec_id() != WasmSectionId::Custom ==> r is None,
            self.spec_id() == WasmSectionId::Custom ==> match decode_string(self.content()) {
                Ok((name, n)) => r matches Some(s) && s@ == name,
                Err(_) => r is None,
            },
    {
        if !self.section_id.depends_on_order() {
            let mut blob = self.reader.cloned();
            blob.reset();
            proof {
                assert(blob.rest() =~= blob.bytes());
            }
            match blob.get_string() {
                Ok(s) => Some(s),
                Err(_) => None,
            }
        } else {
            None
        }
    }
}

/// Whether two strings are equal
fn str_equals(a: &str, b: &str) -> (r: bool)
    ensures
        r == (a@ == b@),
{
    let n = a.unicode_len();
    if n != b.unicode_len() {
        return false;
    }
    let mut i: usize = 0;
    while i < n
        invariant
            i <= n,
            n == a@.len(),
            n == b@.len(),
            forall|k: int| 0 <= k < i ==> a@[k] == b@[k],
        decreases n - i,
    {
        if a.get_char(i) != b.get_char(i) {
            return false;
        }
        i = i + 1;
    }
    proof {
        assert(a@ =~= b@);
    }
    true
}

/// The body of a function: its local variables after the parameters, and its instructions
pub struct FunctionBody {
    local_types: ValTypes,
    code: Vec<u8>,
    file_position: usize,
    code_offset: usize,
}

impl FunctionBody {
    /// The types of the local variables after the parameters
    pub closed spec fn spec_local_types(&self) -> Seq<WasmValType> {
        val_type_items(self.local_types)
    }

    /// The instructions
    pub closed spec fn spec_code(&self) -> Seq<u8> {
        self.code@
    }

    /// The types of the local variables after the parameters
    pub fn local_types(&self) -> (r: &[WasmValType])
        ensures
            r@ == self.spec_local_types(),
    {
        val_types_as_slice(&self.local_types)
    }

    /// The instructions
    pub fn code(&self) -> (r: &[u8])
        ensures
            r@ == self.spec_code(),
    {
        self.code.as_slice()
    }

    /// The position of the body in the file
    pub closed spec fn spec_file_position(&self) -> usize {
        self.file_position
    }

    /// The number of bytes of the local declarations: where the instructions start in the body
    pub closed spec fn spec_code_offset(&self) -> usize {
        self.code_offset
    }

    /// The number of bytes of the local declarations: where the instructions start in the body
    pub fn code_offset(&self) -> (r: usize)
        ensures
            r == self.spec_code_offset(),
    {
        self.code_offset
    }

    /// The position of the body in the file
    pub fn file_position(&self) -> (r: usize)
        ensures
            r == self.spec_file_position(),
    {
        self.file_position
    }
}

/// What a function runs
pub enum WasmFunctionContent {
    /// Nothing yet
    Unresolved,
    /// Its own body
    CodeBlock(FunctionBody),
    /// A host function, by the handle that resolved the import
    Dynamic(usize),
}

/// A function of a module: imported, or with a body in the module
pub struct WasmFunction {
    is_external: bool,
    index: usize,
    type_index: WasmTypeIndex,
    func_type: WasmType,
    content: WasmFunctionContent,
}

impl WasmFunction {
    /// Whether the function is imported
    pub closed spec fn spec_is_external(&self) -> bool {
        self.is_external
    }

    /// The index of the function in the module
    pub closed spec fn spec_index(&self) -> nat {
        self.index as nat
    }

    /// The index of its type
    pub closed spec fn spec_type_index(&self) -> WasmTypeIndex {
        self.type_index
    }

    /// The parameter types
    pub closed spec fn params(&self) -> Seq<WasmValType> {
        self.func_type.params()
    }

    /// The result types
    pub closed spec fn results(&self) -> Seq<WasmValType> {
        self.func_type.results()
    }

    /// The local types and instructions of the body, if it has one
    pub closed spec fn body(&self) -> Option<(Seq<WasmValType>, Seq<u8>)> {
        match self.content {
            WasmFunctionContent::CodeBlock(b) => Some((val_type_items(b.local_types), b.code@)),
            _ => None,
        }
    }

    /// The position of the body in the file, if it has one
    pub closed spec fn spec_body_position(&self) -> Option<usize> {
        match self.content {
            WasmFunctionContent::CodeBlock(b) => Some(b.spec_file_position()),
            _ => None,
        }
    }

    /// Where the instructions start in the body, after the local declarations; 0 without a body
    pub closed spec fn spec_code_offset(&self) -> usize {
        match self.content {
            WasmFunctionContent::CodeBlock(b) => b.code_offset,
            _ => 0,
        }
    }

    /// Where the instructions start in the body, after the local declarations; 0 without a body
    pub fn code_offset(&self) -> (r: usize)
        ensures
            r == self.spec_code_offset(),
    {
        match &self.content {
            WasmFunctionContent::CodeBlock(b) => b.code_offset,
            _ => 0,
        }
    }

    /// The handle of the host function, if it is one
    pub closed spec fn handle(&self) -> Option<usize> {
        match self.content {
            WasmFunctionContent::Dynamic(h) => Some(h),
            _ => None,
        }
    }

    /// An imported function, not resolved yet
    fn from_import(index: usize, type_index: WasmTypeIndex, func_type: WasmType) -> (r: Self)
        ensures
            r.spec_is_external(),
            r.spec_index() == index,
            r.spec_type_index() == type_index,
            r.params() == func_type.params(),
            r.results() == func_type.results(),
            r.body() is None && r.handle() is None,
            r.spec_code_offset() == 0,
    {
        Self { is_external: true, index, type_index, func_type, content: WasmFunctionContent::Unresolved }
    }

    /// A function of the module, its body not read yet
    fn internal(index: usize, type_index: WasmTypeIndex, func_type: WasmType) -> (r: Self)
        ensures
            !r.spec_is_external(),
            r.spec_index() == index,
            r.spec_type_index() == type_index,
            r.params() == func_type.params(),
            r.results() == func_type.results(),
            r.body() is None && r.handle() is None,
            r.spec_code_offset() == 0,
    {
        Self { is_external: false, index, type_index, func_type, content: WasmFunctionContent::Unresolved }
    }

    /// The index of the function in the module
    pub fn index(&self) -> (r: usize)
        ensures
            r == self.spec_index(),
    {
        self.index
    }

    /// The index of its type
    pub fn type_index(&self) -> (r: WasmTypeIndex)
        ensures
            r == self.spec_type_index(),
    {
        self.type_index
    }

    /// The parameter types
    pub fn param_types(&self) -> (r: &[WasmValType])
        ensures
            r@ == self.params(),
    {
        self.func_type.param_types()
    }

    /// The result types
    pub fn result_types(&self) -> (r: &[WasmValType])
        ensures
            r@ == self.results(),
    {
        self.func_type.result_types()
    }

    /// What the function runs
    pub fn content(&self) -> (r: &WasmFunctionContent)
        ensures
            r is Unresolved <==> self.body() is None && self.handle() is None,
            r matches WasmFunctionContent::CodeBlock(b) ==> self.body() == Some(
                (b.spec_local_types(), b.spec_code()),
            ),
            r matches WasmFunctionContent::Dynamic(h) ==> self.handle() == Some(*h) && self.body() is None,
            r matches WasmFunctionContent::CodeBlock(b) ==> self.spec_body_position() == Some(b.spec_file_position()),
            !(r is CodeBlock) ==> self.spec_body_position() is None,
            r matches WasmFunctionContent::CodeBlock(b) ==> self.spec_code_offset() == b.spec_code_offset(),
            !(r is CodeBlock) ==> self.spec_code_offset() == 0,
    {
        &self.content
    }

    /// Gives a function of the module its body: `OutOfFunction` for an imported function,
    /// `InternalInconsistency` when it has one already.
    fn set_code_block(&mut self, body: FunctionBody) -> (r: Result<(), CompileErrorKind>)
        ensures
            old(self).spec_is_external() ==> r == Err::<(), CompileErrorKind>(CompileErrorKind::OutOfFunction),
            !old(self).spec_is_external() && (old(self).body() is Some || old(self).handle() is Some)
                ==> r == Err::<(), CompileErrorKind>(CompileErrorKind::InternalInconsistency),
            r is Ok <==> !old(self).spec_is_external() && old(self).body() is None && old(self).handle() is None,
            r is Ok ==> final(self).body() == Some((body.spec_local_types(), body.spec_code()))
                && final(self).spec_code_offset() == body.spec_code_offset(),
            r is Err ==> *final(self) == *old(self),
            final(self).spec_is_external() == old(self).spec_is_external(),
            final(self).spec_index() == old(self).spec_index(),
            final(self).spec_type_index() == old(self).spec_type_index(),
            final(self).params() == old(self).params(),
            final(self).results() == old(self).results(),
            final(self).handle() == old(self).handle(),
    {
        if self.is_external {
            Err(CompileErrorKind::OutOfFunction)
        } else {
            match self.content {
                WasmFunctionContent::Unresolved => {
                    self.content = WasmFunctionContent::CodeBlock(body);
                    Ok(())
                },
                _ => Err(CompileErrorKind::InternalInconsistency),
            }
        }
    }

    /// Binds an imported function to a host function: `InternalInconsistency` for a function
    /// of the module or one that is bound already.
    fn resolve(&mut self, handle: usize) -> (r: Result<(), LinkError>)
        ensures
            r is Ok <==> old(self).spec_is_external() && old(self).body() is None && old(self).handle() is None,
            r matches Err(e) ==> e == LinkError::InternalInconsistency && *final(self) == *old(self),
            r is Ok ==> final(self).handle() == Some(handle),
            final(self).spec_is_external() == old(self).spec_is_external(),
            final(self).spec_index() == old(self).spec_index(),
            final(self).spec_type_index() == old(self).spec_type_index(),
            final(self).params() == old(self).params(),
            final(self).results() == old(self).results(),
            final(self).body() == old(self).body(),
            final(self).spec_code_offset() == old(self).spec_code_offset(),
    {
        if self.is_external {
            match self.content {
                WasmFunctionContent::Unresolved => {
                    self.content = WasmFunctionContent::Dynamic(handle);
                    Ok(())
                },
                _ => Err(LinkError::InternalInconsistency),
            }
        } else {
            Err(LinkError::InternalInconsistency)
        }
    }
}

/// The parts of a module that a section fills
#[derive(Debug, Clone, Copy, PartialEq, Eq, Structural)]
pub enum ModulePart {
    Types,
    Imports,
    Functions,
    Tables,
    Memories,
    Globals,
    Exports,
    Start,
    DataCount,
    Custom,
}

/// A decoded WebAssembly module
pub struct WasmModule {
    types: Vec<WasmType>,
    imports: Vec<WasmImport>,
    functions: Vec<WasmFunction>,
    tables: Vec<WasmTable>,
    memories: Vec<WasmMemory>,
    globals: Vec<WasmGlobal>,
    exports: Vec<WasmExport>,
    start: Option<usize>,
    data_count: Option<usize>,
    custom_sections: Vec<(String, Vec<u8>)>,
    names: Option<WasmName>,
}

impl WasmModule {
    /// The function types, as parameter and result types
    pub closed spec fn types_view(&self) -> Seq<(Seq<WasmValType>, Seq<WasmValType>)> {
        Seq::new(self.types@.len(), |i: int| (self.types@[i].params(), self.types@[i].results()))
    }

    /// The imports: module name, item name and descriptor
    pub closed spec fn imports_view(&self) -> Seq<(Seq<char>, Seq<char>, WasmImportDescriptor)> {
        Seq::new(
            self.imports@.len(),
            |i: int|
                (
                    self.imports@[i].spec_module_name(),
                    self.imports@[i].spec_name(),
                    self.imports@[i].spec_desc(),
                ),
        )
    }

    /// The exports: name and descriptor
    pub closed spec fn exports_view(&self) -> Seq<(Seq<char>, WasmExportDesc)> {
        Seq::new(self.exports@.len(), |i: int| (self.exports@[i].spec_name(), self.exports@[i].spec_desc()))
    }

    /// The functions, imported ones first
    pub closed spec fn functions_view(&self) -> Seq<WasmFunction> {
        self.functions@
    }

    /// The tables
    pub closed spec fn tables_view(&self) -> Seq<WasmTable> {
        self.tables@
    }

    /// The memories
    pub closed spec fn memories_view(&self) -> Seq<WasmMemory> {
        self.memories@
    }

    /// The globals
    pub closed spec fn globals_view(&self) -> Seq<WasmGlobal> {
        self.globals@
    }

    /// The start function
    pub closed spec fn spec_start(&self) -> Option<usize> {
        self.start
    }

    /// The number of data segments announced
    pub closed spec fn spec_data_count(&self) -> Option<usize> {
        self.data_count
    }

    /// The custom sections: name and content after the name
    pub closed spec fn custom_view(&self) -> Seq<(Seq<char>, Seq<u8>)> {
        Seq::new(
            self.custom_sections@.len(),
            |i: int| (self.custom_sections@[i].0@, self.custom_sections@[i].1@),
        )
    }

    /// The names of the name section, if it decoded
    pub closed spec fn names_view(&self) -> Option<NameState> {
        match self.names {
            Some(n) => Some(n.state()),
            None => None,
        }
    }

    /// Whether `self` and `other` agree on every part outside `changed`
    pub closed spec fn agrees_except(&self, other: &Self, changed: Set<ModulePart>) -> bool {
        &&& !changed.contains(ModulePart::Types) ==> self.types@ == other.types@
        &&& !changed.contains(ModulePart::Imports) ==> self.imports@ == other.imports@
        &&& !changed.contains(ModulePart::Functions) ==> self.functions@ == other.functions@
        &&& !changed.contains(ModulePart::Tables) ==> self.tables@ == other.tables@
        &&& !changed.contains(ModulePart::Memories) ==> self.memories@ == other.memories@
        &&& !changed.contains(ModulePart::Globals) ==> self.globals@ == other.globals@
        &&& !changed.contains(ModulePart::Exports) ==> self.exports@ == other.exports@
        &&& !changed.contains(ModulePart::Start) ==> self.start == other.start
        &&& !changed.contains(ModulePart::DataCount) ==> self.data_count == other.data_count
        &&& !changed.contains(ModulePart::Custom) ==> self.custom_sections@ == other.custom_sections@
            && self.names == other.names
    }

    /// An empty module
    fn empty_module() -> (r: Self)
        ensures
            r.types_view() == Seq::<(Seq<WasmValType>, Seq<WasmValType>)>::empty(),
            r.imports_view() == Seq::<(Seq<char>, Seq<char>, WasmImportDescriptor)>::empty(),
            r.exports_view() == Seq::<(Seq<char>, WasmExportDesc)>::empty(),
            r.functions_view() == Seq::<WasmFunction>::empty(),
            r.tables_view() == Seq::<WasmTable>::empty(),
            r.memories_view() == Seq::<WasmMemory>::empty(),
            r.globals_view() == Seq::<WasmGlobal>::empty(),
            r.spec_start() is None,
            r.spec_data_count() is None,
            r.custom_view() == Seq::<(Seq<char>, Seq<u8>)>::empty(),
            r.names_view() is None,
    {
        let r = Self {
            types: Vec::new(),
            imports: Vec::new(),
            functions: Vec::new(),
            tables: Vec::new(),
            memories: Vec::new(),
            globals: Vec::new(),
            exports: Vec::new(),
            start: None,
            data_count: None,
            custom_sections: Vec::new(),
            names: None,
        };
        proof {
            assert(r.types_view() =~= Seq::<(Seq<WasmValType>, Seq<WasmValType>)>::empty());
            assert(r.imports_view() =~= Seq::<(Seq<char>, Seq<char>, WasmImportDescriptor)>::empty());
            assert(r.exports_view() =~= Seq::<(Seq<char>, WasmExportDesc)>::empty());
            assert(r.custom_view() =~= Seq::<(Seq<char>, Seq<u8>)>::empty());
        }
        r
    }

    /// Reads the count of items of a section.
    fn read_count(section: &mut WasmSection) -> (r: Result<u32, CompileErrorKind>)
        ensures
            final(section).content() == old(section).content(),
            final(section).spec_id() == old(section).spec_id(),
            final(section).spec_file_position() == old(section).spec_file_position(),
            match decode_u32(old(section).rest()) {
                Ok((v, n)) => r == Ok::<u32, CompileErrorKind>(v as u32) && v < 0x1_0000_0000
                    && final(section).rest() == old(section).rest().skip(n as int),
                Err(e) => r == Err::<u32, CompileErrorKind>(read_error_kind(e)),
            },
    {
        let ghost r0 = section.reader;
        match section.reader.read_u32() {
            Ok(v) => {
                let _ = section.reader.position();
                proof {
                    let n = decode_u32(r0.rest()).unwrap().1;
                    r0.lemma_advanced_rest(&section.reader, n);
                }
                Ok(v)
            },
            Err(e) => Err(CompileErrorKind::from_read_error(e)),
        }
    }

    /// Reads the "type" section: its function types are appended.
    fn parse_sec_type(&mut self, section: &mut WasmSection) -> (r: Result<(), CompileErrorKind>)
        ensures
            match decode_vec(old(section).rest(), type_item()) {
                Ok(ts) => r is Ok && final(self).types_view() == old(self).types_view() + ts,
                Err(e) => r == Err::<(), CompileErrorKind>(e),
            },
            final(self).agrees_except(old(self), set![ModulePart::Types]),
    {
        let n_items = Self::read_count(section)?;
        let ghost s1 = section.rest();
        let ghost mut acc: Seq<(Seq<WasmValType>, Seq<WasmValType>)> = Seq::empty();
        let mut i: u32 = 0;
        while i < n_items
            invariant
                i <= n_items,
                decode_vec(old(section).rest(), type_item()) == decode_items(s1, n_items as nat, type_item(), Seq::empty()),
                decode_items(s1, n_items as nat, type_item(), Seq::empty()) == decode_items(
                    section.rest(),
                    (n_items - i) as nat,
                    type_item(),
                    acc,
                ),
                self.types_view() == old(self).types_view() + acc,
                self.agrees_except(old(self), set![ModulePart::Types]),
            decreases n_items - i,
        {
            let ghost r0 = section.reader;
            let ghost prev = self.types_view();
            proof {
                assert(type_item()(r0.rest()) == match decode_func_type(r0.rest()) {
                    Ok((p, q, n)) => Ok::<_, CompileErrorKind>(((p, q), n)),
                    Err(e) => Err(e),
                });
            }
            let ft = WasmType::from_reader(&mut section.reader)?;
            let _ = section.reader.position();
            let ghost item = (ft.params(), ft.results());
            proof {
                let n = decode_func_type(r0.rest()).unwrap().2;
                r0.lemma_advanced_rest(&section.reader, n);
                acc = acc.push(item);
            }
            self.types.push(ft);
            proof {
                assert(self.types_view() =~= prev.push(item));
                assert(prev.push(item) =~= old(self).types_view() + acc);
            }
            i = i + 1;
        }
        Ok(())
    }

    /// Reads the "import" section: its imports are appended; each function import adds an
    /// imported function of its type, each memory import a memory of its limit.
    fn parse_sec_import(&mut self, section: &mut WasmSection) -> (r: Result<(), CompileErrorKind>)
        ensures
            ({
                let eff = add_vec(module_model(*old(self)), old(section).rest(), import_item(), add_import());
                ||| eff matches Ok(mm) && r is Ok && module_model(*final(self)) == mm
                ||| eff matches Err(e) && r == Err::<(), CompileErrorKind>(e)
                ||| r == Err::<(), CompileErrorKind>(CompileErrorKind::OutOfMemory) && vec_allocates(
                    module_model(*old(self)),
                    old(section).rest(),
                    import_item(),
                    add_import(),
                    import_allocates(),
                )
            }),
            final(self).agrees_except(
                old(self),
                set![ModulePart::Imports, ModulePart::Functions, ModulePart::Memories],
            ),
    {
        let n_items = Self::read_count(section)?;
        let mut i: u32 = 0;
        while i < n_items
            invariant
                i <= n_items,
                add_vec(module_model(*old(self)), old(section).rest(), import_item(), add_import()) == add_items(
                    module_model(*self),
                    section.rest(),
                    (n_items - i) as nat,
                    i as nat,
                    import_item(),
                    add_import(),
                ),
                items_allocate(
                    module_model(*self),
                    section.rest(),
                    (n_items - i) as nat,
                    i as nat,
                    import_item(),
                    add_import(),
                    import_allocates(),
                ) ==> vec_allocates(module_model(*old(self)), old(section).rest(), import_item(), add_import(), import_allocates()),
                self.agrees_except(old(self), set![ModulePart::Imports, ModulePart::Functions, ModulePart::Memories]),
            decreases n_items - i,
        {
            let ghost r0 = section.reader;
            let ghost m0 = module_model(*self);
            let ghost before = *self;
            let import = WasmImport::from_reader(&mut section.reader)?;
            let _ = section.reader.position();
            let ghost item = (import.spec_module_name(), import.spec_name(), import.spec_desc());
            proof {
                let n = decode_import(r0.rest()).unwrap().3;
                r0.lemma_advanced_rest(&section.reader, n);
            }
            match import.desc() {
                WasmImportDescriptor::Function(type_index) => {
                    let index = self.functions.len();
                    if type_index.as_usize() >= self.types.len() {
                        return Err(CompileErrorKind::InvalidType(type_index));
                    }
                    let func_type = self.types[type_index.as_usize()].duplicate();
                    let f = WasmFunction::from_import(index, type_index, func_type);
                    let ghost fm = func_model(f);
                    self.functions.push(f);
                    proof {
                        assert(module_model(*self).functions =~= m0.functions.push(fm));
                    }
                },
                WasmImportDescriptor::Memory(limit) => {
                    let ghost rem = (n_items - i) as nat;
                    proof {
                        let n = decode_import(r0.rest()).unwrap().3;
                        assert(import_item()(r0.rest()) == Ok::<((Seq<char>, Seq<char>, WasmImportDescriptor), nat), CompileErrorKind>((item, n)));
                    }
                    let memory = match WasmMemory::new(limit) {
                        Ok(x) => x,
                        Err(e) => {
                            proof {
                                if crate::model::memory_fits(limit) {
                                    assert(add_import()(m0, i as nat, item) is Ok);
                                    assert(import_allocates()(item));
                                    assert(items_allocate(m0, r0.rest(), rem, i as nat, import_item(), add_import(), import_allocates()));
                                } else {
                                    assert(add_import()(m0, i as nat, item) == Err::<ModuleModel, CompileErrorKind>(CompileErrorKind::OutOfMemory));
                                    assert(add_items(m0, r0.rest(), rem, i as nat, import_item(), add_import())
                                        == Err::<ModuleModel, CompileErrorKind>(CompileErrorKind::OutOfMemory));
                                }
                            }
                            return Err(e);
                        },
                    };
                    let ghost mm = mem_model(memory);
                    self.memories.push(memory);
                    proof {
                        assert(module_model(*self).memories =~= m0.memories.push(mm));
                    }
                },
            }
            self.imports.push(import);
            proof {
                lemma_model_except(before, *self, set![ModulePart::Imports, ModulePart::Functions, ModulePart::Memories]);
                assert(self.imports_view() =~= before.imports_view().push(item));
                let m1 = add_import()(m0, i as nat, item);
                assert(m1 matches Ok(x) && x == module_model(*self));
            }
            i = i + 1;
        }
        Ok(())
    }

    /// Reads the "function" section: a function of the module is appended for each type
    /// index; its index counts every import before it. `InvalidType` for an index that names
    /// no type.
    fn parse_sec_func(&mut self, section: &mut WasmSection) -> (r: Result<(), CompileErrorKind>)
        ensures
            match add_vec(module_model(*old(self)), old(section).rest(), u32_item(), add_function()) {
                Ok(mm) => r is Ok && module_model(*final(self)) == mm,
                Err(e) => r == Err::<(), CompileErrorKind>(e),
            },
            final(self).agrees_except(old(self), set![ModulePart::Functions]),
    {
        let n_items = Self::read_count(section)?;
        let base_index = self.imports.len();
        let mut i: u32 = 0;
        while i < n_items
            invariant
                i <= n_items,
                base_index == self.imports_view().len(),
                add_vec(module_model(*old(self)), old(section).rest(), u32_item(), add_function()) == add_items(
                    module_model(*self),
                    section.rest(),
                    (n_items - i) as nat,
                    i as nat,
                    u32_item(),
                    add_function(),
                ),
                self.agrees_except(old(self), set![ModulePart::Functions]),
            decreases n_items - i,
        {
            let ghost rest0 = section.rest();
            let ghost m0 = module_model(*self);
            let ghost before = *self;
            let type_index = WasmTypeIndex(Self::read_count(section)?);
            let ghost v = decode_u32(rest0).unwrap().0;
            if type_index.as_usize() >= self.types.len() {
                return Err(CompileErrorKind::InvalidType(type_index));
            }
            let index = match base_index.checked_add(i as usize) {
                Some(v) => v,
                None => return Err(CompileErrorKind::InternalInconsistency),
            };
            let func_type = self.types[type_index.as_usize()].duplicate();
            let f = WasmFunction::internal(index, type_index, func_type);
            let ghost fm = func_model(f);
            self.functions.push(f);
            proof {
                lemma_model_except(before, *self, set![ModulePart::Functions]);
                assert(module_model(*self).functions =~= m0.functions.push(fm));
                let m1 = add_function()(m0, i as nat, v);
                assert(m1 matches Ok(x) && x == module_model(*self));
            }
            i = i + 1;
        }
        Ok(())
    }

    /// Reads the "export" section: its exports are appended.
    fn parse_sec_export(&mut self, section: &mut WasmSection) -> (r: Result<(), CompileErrorKind>)
        ensures
            match decode_vec(old(section).rest(), export_item(old(self).globals_view().len())) {
                Ok(xs) => r is Ok && final(self).exports_view() == old(self).exports_view() + xs,
                Err(e) => r == Err::<(), CompileErrorKind>(e),
            },
            final(self).agrees_except(old(self), set![ModulePart::Exports]),
    {
        let n_items = Self::read_count(section)?;
        let n_globals = self.globals.len();
        let ghost dec = export_item(n_globals as nat);
        let ghost s1 = section.rest();
        let ghost mut acc: Seq<(Seq<char>, WasmExportDesc)> = Seq::empty();
        let mut i: u32 = 0;
        while i < n_items
            invariant
                i <= n_items,
                n_globals == old(self).globals_view().len(),
                dec == export_item(n_globals as nat),
                decode_vec(old(section).rest(), dec) == decode_items(s1, n_items as nat, dec, Seq::empty()),
                decode_items(s1, n_items as nat, dec, Seq::empty()) == decode_items(
                    section.rest(),
                    (n_items - i) as nat,
                    dec,
                    acc,
                ),
                self.exports_view() == old(self).exports_view() + acc,
                self.agrees_except(old(self), set![ModulePart::Exports]),
            decreases n_items - i,
        {
            let ghost r0 = section.reader;
            let ghost prev = self.exports_view();
            let export = WasmExport::from_reader(&mut section.reader, n_globals)?;
            let _ = section.reader.position();
            let ghost item = (export.spec_name(), export.spec_desc());
            proof {
                let n = decode_export(r0.rest(), n_globals as nat).unwrap().2;
                r0.lemma_advanced_rest(&section.reader, n);
                acc = acc.push(item);
            }
            self.exports.push(export);
            proof {
                assert(self.exports_view() =~= prev.push(item));
                assert(prev.push(item) =~= old(self).exports_view() + acc);
            }
            i = i + 1;
        }
        Ok(())
    }

    /// Reads the "memory" section: a memory is appended for each limit; `OutOfMemory` when
    /// one cannot be made.
    fn parse_sec_memory(&mut self, section: &mut WasmSection) -> (r: Result<(), CompileErrorKind>)
        ensures
            ({
                let eff = add_vec(module_model(*old(self)), old(section).rest(), limit_item(), add_memory());
                ||| eff matches Ok(mm) && r is Ok && module_model(*final(self)) == mm
                ||| eff matches Err(e) && r == Err::<(), CompileErrorKind>(e)
                ||| r == Err::<(), CompileErrorKind>(CompileErrorKind::OutOfMemory) && vec_allocates(
                    module_model(*old(self)),
                    old(section).rest(),
                    limit_item(),
                    add_memory(),
                    entry_allocates(),
                )
            }),
            final(self).agrees_except(old(self), set![ModulePart::Memories]),
    {
        let n_items = Self::read_count(section)?;
        let mut i: u32 = 0;
        while i < n_items
            invariant
                i <= n_items,
                add_vec(module_model(*old(self)), old(section).rest(), limit_item(), add_memory()) == add_items(
                    module_model(*self),
                    section.rest(),
                    (n_items - i) as nat,
                    i as nat,
                    limit_item(),
                    add_memory(),
                ),
                items_allocate(
                    module_model(*self),
                    section.rest(),
                    (n_items - i) as nat,
                    i as nat,
                    limit_item(),
                    add_memory(),
                    entry_allocates(),
                ) ==> vec_allocates(module_model(*old(self)), old(section).rest(), limit_item(), add_memory(), entry_allocates()),
                self.agrees_except(old(self), set![ModulePart::Memories]),
            decreases n_items - i,
        {
            let ghost r0 = section.reader;
            let ghost m0 = module_model(*self);
            let ghost before = *self;
            let limit = WasmLimit::from_reader(&mut section.reader, true)?;
            let _ = section.reader.position();
            proof {
                let n = decode_limit(r0.rest()).unwrap().1;
                r0.lemma_advanced_rest(&section.reader, n);
            }
            let ghost rem = (n_items - i) as nat;
            proof {
                assert(limit_item()(r0.rest()) == Ok::<(WasmLimit, nat), CompileErrorKind>((limit, decode_limit(r0.rest()).unwrap().1)));
            }
            let memory = match WasmMemory::new(limit) {
                Ok(x) => x,
                Err(e) => {
                    proof {
                        if crate::model::memory_fits(limit) {
                            assert(add_memory()(m0, i as nat, limit) is Ok);
                            assert(entry_allocates()(limit));
                            assert(items_allocate(m0, r0.rest(), rem, i as nat, limit_item(), add_memory(), entry_allocates()));
                        } else {
                            assert(add_memory()(m0, i as nat, limit) == Err::<ModuleModel, CompileErrorKind>(CompileErrorKind::OutOfMemory));
                            assert(add_items(m0, r0.rest(), rem, i as nat, limit_item(), add_memory())
                                == Err::<ModuleModel, CompileErrorKind>(CompileErrorKind::OutOfMemory));
                        }
                    }
                    return Err(e);
                },
            };
            let ghost mm = mem_model(memory);
            self.memories.push(memory);
            proof {
                lemma_model_except(before, *self, set![ModulePart::Memories]);
                assert(module_model(*self).memories =~= m0.memories.push(mm));
                let m1 = add_memory()(m0, i as nat, limit);
                assert(m1 matches Ok(x) && x == module_model(*self));
            }
            i = i + 1;
        }
        Ok(())
    }

    /// Reads the "table" section: a table of zeroed elements is appended for each limit.
    fn parse_sec_table(&mut self, section: &mut WasmSection) -> (r: Result<(), CompileErrorKind>)
        ensures
            match decode_vec(old(section).rest(), table_item()) {
                Ok(ls) => r is Ok && final(self).tables_view().len() == old(self).tables_view().len()
                    + ls.len() && (forall|k: int|
                    0 <= k < old(self).tables_view().len() ==> final(self).tables_view()[k]
                    == old(self).tables_view()[k]) && forall|k: int|
                    0 <= k < ls.len() ==> {
                        let t = #[trigger] final(self).tables_view()[old(self).tables_view().len() + k];
                        t.spec_limit() == ls[k] && t.elements() == Seq::new(ls[k].min as nat, |j: int| 0usize)
                    },
                Err(e) => r == Err::<(), CompileErrorKind>(e),
            },
            final(self).agrees_except(old(self), set![ModulePart::Tables]),
    {
        let n_items = Self::read_count(section)?;
        let ghost s1 = section.rest();
        let ghost mut acc: Seq<WasmLimit> = Seq::empty();
        let ghost t0 = self.tables_view();
        let mut i: u32 = 0;
        while i < n_items
            invariant
                i <= n_items,
                t0 == old(self).tables_view(),
                decode_vec(old(section).rest(), table_item()) == decode_items(s1, n_items as nat, table_item(), Seq::empty()),
                decode_items(s1, n_items as nat, table_item(), Seq::empty()) == decode_items(
                    section.rest(),
                    (n_items - i) as nat,
                    table_item(),
                    acc,
                ),
                self.tables_view().len() == t0.len() + acc.len(),
                forall|k: int| 0 <= k < t0.len() ==> self.tables_view()[k] == t0[k],
                forall|k: int|
                    0 <= k < acc.len() ==> {
                        let t = #[trigger] self.tables_view()[t0.len() + k];
                        t.spec_limit() == acc[k] && t.elements() == Seq::new(acc[k].min as nat, |j: int| 0usize)
                    },
                self.agrees_except(old(self), set![ModulePart::Tables]),
            decreases n_items - i,
        {
            let ghost r0 = section.reader;
            let table = WasmTable::from_reader(&mut section.reader)?;
            let _ = section.reader.position();
            proof {
                let n = decode_table(r0.rest()).unwrap().1;
                r0.lemma_advanced_rest(&section.reader, n);
                acc = acc.push(table.spec_limit());
            }
            self.tables.push(table);
            i = i + 1;
        }
        proof {
            assert(decode_items(section.rest(), 0, table_item(), acc) == Ok::<Seq<WasmLimit>, CompileErrorKind>(acc));
        }
        Ok(())
    }

    /// Reads four little-endian bytes.
    fn read_le32(reader: &mut Leb128Reader) -> (r: Result<u32, CompileErrorKind>)
        ensures
            final(reader).bytes() == old(reader).bytes(),
            old(reader).rest().len() >= 4 ==> r == Ok::<u32, CompileErrorKind>(le32(old(reader).rest()) as u32)
                && old(reader).advanced(final(reader), 4),
            old(reader).rest().len() < 4 ==> r == Err::<u32, CompileErrorKind>(CompileErrorKind::UnexpectedEof),
    {
        let b = match reader.read_bytes(4) {
            Ok(b) => b,
            Err(_) => return Err(CompileErrorKind::UnexpectedEof),
        };
        Ok(b[0] as u32 + b[1] as u32 * 0x100 + b[2] as u32 * 0x1_0000 + b[3] as u32 * 0x100_0000)
    }

    /// Reads eight little-endian bytes.
    fn read_le64(reader: &mut Leb128Reader) -> (r: Result<u64, CompileErrorKind>)
        ensures
            final(reader).bytes() == old(reader).bytes(),
            old(reader).rest().len() >= 8 ==> r == Ok::<u64, CompileErrorKind>(le64(old(reader).rest()) as u64)
                && old(reader).advanced(final(reader), 8),
            old(reader).rest().len() < 8 ==> r == Err::<u64, CompileErrorKind>(CompileErrorKind::UnexpectedEof),
    {
        let b = match reader.read_bytes(8) {
            Ok(b) => b,
            Err(_) => return Err(CompileErrorKind::UnexpectedEof),
        };
        let lo = b[0] as u64 + b[1] as u64 * 0x100 + b[2] as u64 * 0x1_0000 + b[3] as u64 * 0x100_0000;
        let hi = b[4] as u64 + b[5] as u64 * 0x100 + b[6] as u64 * 0x1_0000 + b[7] as u64 * 0x100_0000;
        proof {
            assert(b@.skip(4)[0] == b@[4] && b@.skip(4)[1] == b@[5] && b@.skip(4)[2] == b@[6]
                && b@.skip(4)[3] == b@[7]);
        }
        Ok(lo + hi * 0x1_0000_0000)
    }

    /// Evaluates a constant expression; an error carries the position of the instruction that
    /// failed, in the file and in the section.
    #[verifier::rlimit(40)]
    fn eval_const_expr(section: &mut WasmSection) -> (r: Result<WasmValue, CompileError>)
        ensures
            final(section).content() == old(section).content(),
            final(section).spec_id() == old(section).spec_id(),
            final(section).spec_file_position() == old(section).spec_file_position(),
            match decode_const_expr(old(section).rest(), None) {
                Ok((v, n)) => r == Ok::<WasmValue, CompileError>(v) && final(section).rest() == old(
                    section,
                ).rest().skip(n as int),
                Err(e) => r matches Err(ce) && ce.spec_kind() == e,
            },
    {
        let base_position = section.file_position;
        let mut last: Option<WasmValue> = None;
        let ghost s0 = section.rest();
        let ghost mut used: nat = 0;
        loop
            invariant
                section.content() == old(section).content(),
                section.spec_id() == old(section).spec_id(),
                section.spec_file_position() == old(section).spec_file_position(),
                base_position == section.spec_file_position(),
                s0 == old(section).rest(),
                used <= s0.len(),
                section.rest() == s0.skip(used as int),
                decode_const_expr(s0, None) == match decode_const_expr(section.rest(), last) {
                    Ok((w, k)) => Ok((w, used + k)),
                    Err(e) => Err(e),
                },
            decreases section.rest().len(),
        {
            let ex_position = section.reader.position();
            let ghost r0 = section.reader;
            let ghost s = section.rest();
            let fail = |kind: CompileErrorKind| -> (e: CompileError)
                ensures
                    e.spec_kind() == kind,
                {
                    CompileError::new(
                        kind,
                        ExceptionPosition::new(base_position.wrapping_add(ex_position)),
                        CompileErrorSource::ConstantExpression(ExceptionPosition::new(ex_position)),
                    )
                };
            let opcode = match section.reader.read_byte() {
                Ok(b) => b,
                Err(_) => return Err(fail(CompileErrorKind::UnexpectedEof)),
            };
            proof {
                r0.lemma_advanced_rest(&section.reader, 1);
            }
            let ghost r1 = section.reader;
            let value = match WasmMnemonic::from_u8(opcode) {
                Some(WasmMnemonic::End) => {
                    return match last {
                        Some(v) => {
                            proof {
                                used = used + 1;
                                assert(section.rest() =~= s0.skip(used as int));
                            }
                            Ok(v)
                        },
                        None => Err(fail(CompileErrorKind::InvalidData)),
                    };
                },
                Some(WasmMnemonic::I32Const) => match section.reader.read_i32() {
                    Ok(v) => WasmValue::I32(v),
                    Err(e) => return Err(fail(CompileErrorKind::from_read_error(e))),
                },
                Some(WasmMnemonic::I64Const) => match section.reader.read_signed() {
                    Ok(v) => WasmValue::I64(v),
                    Err(e) => return Err(fail(CompileErrorKind::from_read_error(e))),
                },
                Some(WasmMnemonic::F32Const) => match Self::read_le32(&mut section.reader) {
                    Ok(v) => WasmValue::F32(v),
                    Err(e) => return Err(fail(e)),
                },
                Some(WasmMnemonic::F64Const) => match Self::read_le64(&mut section.reader) {
                    Ok(v) => WasmValue::F64(v),
                    Err(e) => return Err(fail(e)),
                },
                Some(m) => return Err(fail(CompileErrorKind::UnsupportedBytecode(m))),
                None => return Err(fail(CompileErrorKind::InvalidBytecode(opcode))),
            };
            let _ = section.reader.position();
            proof {
                let n = (section.reader.pos() - r1.pos()) as nat;
                r1.lemma_advanced_rest(&section.reader, n);
                assert(s[0] == opcode);
                assert(r1.rest() =~= s.skip(1));
                assert(decode_const_instr(s) == Ok::<(WasmValue, nat), CompileErrorKind>((value, n)));
                assert(section.rest() =~= s.skip((1 + n) as int));
                used = used + 1 + n;
                assert(section.rest() =~= s0.skip(used as int));
            }
            last = Some(value);
        }
    }

    /// Reads the "global" section: a global is appended for each item, with its constant
    /// value and its mutability.
    fn parse_sec_global(&mut self, section: &mut WasmSection) -> (r: Result<(), CompileError>)
        ensures
            match decode_vec(old(section).rest(), global_item()) {
                Ok(gs) => r is Ok && final(self).globals_view().len() == old(self).globals_view().len()
                    + gs.len() && (forall|k: int|
                    0 <= k < old(self).globals_view().len() ==> final(self).globals_view()[k]
                    == old(self).globals_view()[k]) && forall|k: int|
                    0 <= k < gs.len() ==> {
                        let g = #[trigger] final(self).globals_view()[old(self).globals_view().len() + k];
                        g.spec_value() == gs[k].0 && g.spec_is_mutable() == gs[k].1
                    },
                Err(e) => r matches Err(ce) && ce.spec_kind() == e,
            },
            final(self).agrees_except(old(self), set![ModulePart::Globals]),
    {
        let n_items = match Self::read_count(section) {
            Ok(n) => n,
            Err(e) => return Err(CompileError::from_kind(e)),
        };
        let ghost s1 = section.rest();
        let ghost mut acc: Seq<(WasmValue, bool)> = Seq::empty();
        let ghost g0 = self.globals_view();
        let mut i: u32 = 0;
        while i < n_items
            invariant
                i <= n_items,
                g0 == old(self).globals_view(),
                section.content() == old(section).content(),
                decode_vec(old(section).rest(), global_item()) == decode_items(s1, n_items as nat, global_item(), Seq::empty()),
                decode_items(s1, n_items as nat, global_item(), Seq::empty()) == decode_items(
                    section.rest(),
                    (n_items - i) as nat,
                    global_item(),
                    acc,
                ),
                self.globals_view().len() == g0.len() + acc.len(),
                forall|k: int| 0 <= k < g0.len() ==> self.globals_view()[k] == g0[k],
                forall|k: int|
                    0 <= k < acc.len() ==> {
                        let g = #[trigger] self.globals_view()[g0.len() + k];
                        g.spec_value() == acc[k].0 && g.spec_is_mutable() == acc[k].1
                    },
                self.agrees_except(old(self), set![ModulePart::Globals]),
            decreases n_items - i,
        {
            let ghost s = section.rest();
            let ghost r0 = section.reader;
            let type_byte = match section.reader.read_byte() {
                Ok(b) => b,
                Err(e) => return Err(CompileError::from_kind(CompileErrorKind::from_read_error(e))),
            };
            let val_type = match WasmValType::from_u8(type_byte) {
                Ok(t) => t,
                Err(e) => return Err(CompileError::from_kind(e)),
            };
            let mut_byte = match section.reader.read_byte() {
                Ok(b) => b,
                Err(e) => return Err(CompileError::from_kind(CompileErrorKind::from_read_error(e))),
            };
            let is_mutable = mut_byte == 1;
            proof {
                r0.lemma_advanced_rest(&section.reader, 2);
                assert(section.rest() =~= s.skip(2));
            }
            let value = Self::eval_const_expr(section)?;
            if !value.is_valid_type(val_type) {
                return Err(CompileError::from_kind(CompileErrorKind::InvalidGlobal));
            }
            let global = match WasmGlobal::new(value, is_mutable) {
                Ok(g) => g,
                Err(e) => return Err(CompileError::from_kind(e)),
            };
            self.globals.push(global);
            proof {
                let n = decode_const_expr(s.skip(2), None).unwrap().1;
                lemma_const_expr_len(s.skip(2), None);
                assert(section.rest() =~= s.skip((2 + n) as int));
                acc = acc.push((value, is_mutable));
            }
            i = i + 1;
        }
        proof {
            assert(decode_items(section.rest(), 0, global_item(), acc) == Ok::<Seq<(WasmValue, bool)>, CompileErrorKind>(acc));
        }
        Ok(())
    }

    /// Evaluates an offset: a constant expression of type `i32`, as a `usize`.
    fn eval_offset(section: &mut WasmSection) -> (r: Result<usize, CompileError>)
        ensures
            final(section).content() == old(section).content(),
            final(section).spec_id() == old(section).spec_id(),
            final(section).spec_file_position() == old(section).spec_file_position(),
            match decode_offset(old(section).rest()) {
                Ok((o, n)) => r == Ok::<usize, CompileError>(o) && final(section).rest() == old(
                    section,
                ).rest().skip(n as int),
                Err(e) => r matches Err(ce) && ce.spec_kind() == e,
            },
    {
        match Self::eval_const_expr(section)? {
            WasmValue::I32(a) => Ok(a as usize),
            _ => Err(CompileError::from_kind(CompileErrorKind::InvalidData)),
        }
    }

    /// Reads the "element" section: each segment writes function indices into a table from
    /// its offset on.
    fn parse_sec_elem(&mut self, section: &mut WasmSection) -> (r: Result<(), CompileError>)
        ensures
            match decode_vec(old(section).rest(), elem_item(old(self).tables_view().len())) {
                Ok(items) => r is Ok && final(self).tables_view().len() == old(self).tables_view().len()
                    && (forall|k: int|
                    0 <= k < old(self).tables_view().len() ==> (#[trigger] final(self).tables_view()[k]).spec_limit()
                    == old(self).tables_view()[k].spec_limit()) && table_elements(final(self).tables_view())
                    == apply_elems(table_elements(old(self).tables_view()), items),
                Err(e) => r matches Err(ce) && ce.spec_kind() == e,
            },
            final(self).agrees_except(old(self), set![ModulePart::Tables]),
    {
        let n_items = match Self::read_count(section) {
            Ok(n) => n,
            Err(e) => return Err(CompileError::from_kind(e)),
        };
        let n_tables = self.tables.len();
        let ghost dec = elem_item(n_tables as nat);
        let ghost s1 = section.rest();
        let ghost e0 = table_elements(old(self).tables_view());
        let ghost mut acc: Seq<(nat, usize, Seq<nat>)> = Seq::empty();
        let mut i: u32 = 0;
        while i < n_items
            invariant
                i <= n_items,
                n_tables == old(self).tables_view().len(),
                dec == elem_item(n_tables as nat),
                e0 == table_elements(old(self).tables_view()),
                section.content() == old(section).content(),
                section.spec_file_position() == old(section).spec_file_position(),
                decode_vec(old(section).rest(), dec) == decode_items(s1, n_items as nat, dec, Seq::empty()),
                decode_items(s1, n_items as nat, dec, Seq::empty()) == decode_items(
                    section.rest(),
                    (n_items - i) as nat,
                    dec,
                    acc,
                ),
                self.tables_view().len() == n_tables,
                forall|k: int|
                    0 <= k < n_tables ==> (#[trigger] self.tables_view()[k]).spec_limit()
                        == old(self).tables_view()[k].spec_limit(),
                table_elements(self.tables_view()) == apply_elems(e0, acc),
                self.agrees_except(old(self), set![ModulePart::Tables]),
            decreases n_items - i,
        {
            let ghost s = section.rest();
            proof {
                assert(dec(s) == decode_elem(n_tables as nat, s));
                crate::leb128::lemma_decode_unsigned_bounds(s, 5, 16);
            }
            let tabidx = match Self::read_count(section) {
                Ok(n) => n,
                Err(e) => return Err(CompileError::from_kind(e)),
            };
            let ghost n1 = decode_u32(s).unwrap().1;
            proof {
                assert(section.rest() =~= s.skip(n1 as int));
            }
            let offset = Self::eval_offset(section)?;
            let ghost n2 = decode_offset(s.skip(n1 as int)).unwrap().1;
            proof {
                lemma_const_expr_len(s.skip(n1 as int), None);
                assert(section.rest() =~= s.skip((n1 + n2) as int));
                crate::leb128::lemma_decode_unsigned_bounds(s.skip((n1 + n2) as int), 5, 16);
            }
            let n_elements = match Self::read_count(section) {
                Ok(n) => n,
                Err(e) => return Err(CompileError::from_kind(e)),
            };
            let ghost n3 = decode_u32(s.skip((n1 + n2) as int)).unwrap().1;
            if tabidx as usize >= self.tables.len() {
                return Err(CompileError::from_kind(CompileErrorKind::InvalidData));
            }
            let t = tabidx as usize;
            let end = match offset.checked_add(n_elements as usize) {
                Some(e) => e,
                None => offset,
            };
            let ghost k = (end - offset) as nat;
            let ghost s_e = section.rest();
            proof {
                assert(s_e =~= s.skip((n1 + n2 + n3) as int));
                assert(decode_elem(n_tables as nat, s) == match decode_u32s(s_e, k) {
                    Err(e) => Err(e),
                    Ok((elems, n4)) => Ok(((tabidx as nat, offset, elems), n1 + n2 + n3 + n4)),
                });
            }
            let ghost before = self.tables_view()[t as int].elements();
            let ghost mut elems: Seq<nat> = Seq::empty();
            let ghost mut used: nat = 0;
            let mut j = offset;
            while j < end
                invariant
                    offset <= j <= end,
                    t < self.tables_view().len(),
                    j - offset == elems.len(),
                    self.tables_view().len() == n_tables,
                    n_tables == old(self).tables_view().len(),
                    forall|q: int|
                        0 <= q < n_tables ==> (#[trigger] self.tables_view()[q]).spec_limit()
                            == old(self).tables_view()[q].spec_limit(),
                    forall|q: int|
                        0 <= q < n_tables && q != t ==> (#[trigger] self.tables_view()[q]).elements()
                            == apply_elems(e0, acc)[q],
                    self.tables_view()[t as int].elements() == write_elems(before, offset as nat, elems),
                    before == apply_elems(e0, acc)[t as int],
                    table_elements(self.tables_view()).len() == n_tables,
                    apply_elems(e0, acc).len() == n_tables,
                    section.content() == old(section).content(),
                    section.spec_file_position() == old(section).spec_file_position(),
                    used <= s_e.len(),
                    section.rest() == s_e.skip(used as int),
                    decode_u32s(s_e, k) == match decode_u32s(section.rest(), (k - elems.len()) as nat) {
                        Ok((vs, m)) => Ok((elems + vs, used + m)),
                        Err(e) => Err(e),
                    },
                    k == end - offset,
                    self.agrees_except(old(self), set![ModulePart::Tables]),
                    i < n_items,
                    dec == elem_item(n_tables as nat),
                    decode_vec(old(section).rest(), dec) == decode_items(s, (n_items - i) as nat, dec, acc),
                    dec(s) == decode_elem(n_tables as nat, s),
                    decode_elem(n_tables as nat, s) == match decode_u32s(s_e, k) {
                        Err(e) => Err(e),
                        Ok((elems, n4)) => Ok(((tabidx as nat, offset, elems), n1 + n2 + n3 + n4)),
                    },
                decreases end - j,
            {
                let ghost rs = section.rest();
                let elem = match Self::read_count(section) {
                    Ok(n) => n,
                    Err(e) => {
                        proof {
                            assert(decode_u32s(rs, (k - elems.len()) as nat) == Err::<(Seq<nat>, nat), CompileErrorKind>(e));
                            assert(decode_elem(n_tables as nat, s) == Err::<((nat, usize, Seq<nat>), nat), CompileErrorKind>(e));
                            assert(decode_items(s, (n_items - i) as nat, dec, acc) == Err::<Seq<(nat, usize, Seq<nat>)>, CompileErrorKind>(e));
                        }
                        return Err(CompileError::from_kind(e));
                    },
                };
                let ghost m = decode_u32(rs).unwrap().1;
                proof {
                    crate::leb128::lemma_decode_unsigned_bounds(rs, 5, 16);
                }
                self.tables[t].set_element(j, elem as usize);
                proof {
                    assert(decode_u32s(rs, (k - elems.len()) as nat) == match decode_u32s(rs.skip(m as int), (k - elems.len() - 1) as nat) {
                        Ok((vs, q)) => Ok((seq![elem as nat].add(vs), m + q)),
                        Err(e) => Err(e),
                    });
                    assert forall|vs: Seq<nat>| elems + (seq![elem as nat].add(vs)) =~= elems.push(elem as nat) + vs by {}
                    elems = elems.push(elem as nat);
                    used = used + m;
                    assert(section.rest() =~= s_e.skip(used as int));
                    assert(self.tables_view()[t as int].elements() =~= write_elems(before, offset as nat, elems));
                }
                j = j + 1;
            }
            proof {
                assert(decode_u32s(section.rest(), 0) == Ok::<(Seq<nat>, nat), CompileErrorKind>((Seq::empty(), 0)));
                assert(elems + Seq::<nat>::empty() =~= elems);
                let item = (tabidx as nat, offset, elems);
                assert(dec(s) == Ok::<((nat, usize, Seq<nat>), nat), CompileErrorKind>((item, n1 + n2 + n3 + used)));
                lemma_u32s_len(s_e, k);
                assert(section.rest() =~= s.skip((n1 + n2 + n3 + used) as int));
                let acc2 = acc.push(item);
                assert(acc2.drop_last() =~= acc);
                assert(table_elements(self.tables_view()) =~= apply_elems(e0, acc2));
                acc = acc2;
            }
            i = i + 1;
        }
        proof {
            assert(decode_items(section.rest(), 0, dec, acc) == Ok::<Seq<(nat, usize, Seq<nat>)>, CompileErrorKind>(acc));
        }
        Ok(())
    }

    /// Reads the "data" section: each segment writes its bytes into a memory from its offset
    /// on; `InvalidData` for a segment that does not fit its memory.
    fn parse_sec_data(&mut self, section: &mut WasmSection) -> (r: Result<(), CompileError>)
        ensures
            match decode_vec(old(section).rest(), data_item(memory_lens(old(self).memories_view()))) {
                Ok(items) => r is Ok && final(self).memories_view().len() == old(self).memories_view().len()
                    && (forall|k: int|
                    0 <= k < old(self).memories_view().len() ==> (#[trigger] final(self).memories_view()[k]).pages()
                    == old(self).memories_view()[k].pages() && final(self).memories_view()[k].max_pages()
                    == old(self).memories_view()[k].max_pages()) && memory_bytes(final(self).memories_view())
                    == apply_data(memory_bytes(old(self).memories_view()), items),
                Err(e) => r matches Err(ce) && ce.spec_kind() == e,
            },
            final(self).agrees_except(old(self), set![ModulePart::Memories]),
    {
        let n_items = match Self::read_count(section) {
            Ok(n) => n,
            Err(e) => return Err(CompileError::from_kind(e)),
        };
        let n_mems = self.memories.len();
        let ghost lens = memory_lens(old(self).memories_view());
        let ghost dec = data_item(lens);
        let ghost s1 = section.rest();
        let ghost b0 = memory_bytes(old(self).memories_view());
        let ghost mut acc: Seq<(nat, usize, Seq<u8>)> = Seq::empty();
        let mut i: u32 = 0;
        while i < n_items
            invariant
                i <= n_items,
                n_mems == old(self).memories_view().len(),
                lens == memory_lens(old(self).memories_view()),
                dec == data_item(lens),
                b0 == memory_bytes(old(self).memories_view()),
                section.content() == old(section).content(),
                section.spec_file_position() == old(section).spec_file_position(),
                decode_vec(old(section).rest(), dec) == decode_items(s1, n_items as nat, dec, Seq::empty()),
                decode_items(s1, n_items as nat, dec, Seq::empty()) == decode_items(
                    section.rest(),
                    (n_items - i) as nat,
                    dec,
                    acc,
                ),
                self.memories_view().len() == n_mems,
                forall|k: int|
                    0 <= k < n_mems ==> (#[trigger] self.memories_view()[k]).pages()
                        == old(self).memories_view()[k].pages() && self.memories_view()[k].max_pages()
                        == old(self).memories_view()[k].max_pages() && self.memories_view()[k].bytes().len()
                        == lens[k],
                memory_bytes(self.memories_view()) == apply_data(b0, acc),
                self.agrees_except(old(self), set![ModulePart::Memories]),
            decreases n_items - i,
        {
            let ghost s = section.rest();
            proof {
                assert(dec(s) == decode_data(lens, s));
                crate::leb128::lemma_decode_unsigned_bounds(s, 5, 16);
            }
            let memidx = match Self::read_count(section) {
                Ok(n) => n,
                Err(e) => return Err(CompileError::from_kind(e)),
            };
            let ghost n1 = decode_u32(s).unwrap().1;
            let offset = Self::eval_offset(section)?;
            let ghost n2 = decode_offset(s.skip(n1 as int)).unwrap().1;
            proof {
                lemma_const_expr_len(s.skip(n1 as int), None);
                assert(section.rest() =~= s.skip((n1 + n2) as int));
            }
            let ghost r2 = section.reader;
            let src = match section.reader.read_blob() {
                Ok(b) => b,
                Err(e) => return Err(CompileError::from_kind(CompileErrorKind::from_read_error(e))),
            };
            let _ = section.reader.position();
            let ghost n3 = crate::leb128::decode_blob(s.skip((n1 + n2) as int)).unwrap().1;
            proof {
                r2.lemma_advanced_rest(&section.reader, n3);
                assert(section.rest() =~= s.skip((n1 + n2 + n3) as int));
            }
            if memidx as usize >= self.memories.len() {
                return Err(CompileError::from_kind(CompileErrorKind::InvalidData));
            }
            let m = memidx as usize;
            let ghost before = memory_bytes(self.memories_view());
            proof {
                assert(self.memories_view()[m as int].bytes().len() == lens[m as int]);
            }
            match self.memories[m].write_slice(offset, src.as_slice()) {
                Ok(()) => {},
                Err(_) => return Err(CompileError::from_kind(CompileErrorKind::InvalidData)),
            }
            proof {
                let item = (memidx as nat, offset, src@);
                assert(dec(s) == Ok::<((nat, usize, Seq<u8>), nat), CompileErrorKind>((item, n1 + n2 + n3)));
                let acc2 = acc.push(item);
                assert(acc2.drop_last() =~= acc);
                assert(memory_bytes(self.memories_view()) =~= apply_data(b0, acc2));
                acc = acc2;
            }
            i = i + 1;
        }
        proof {
            assert(decode_items(section.rest(), 0, dec, acc) == Ok::<Seq<(nat, usize, Seq<u8>)>, CompileErrorKind>(acc));
        }
        Ok(())
    }

    /// Reads the local declarations and the instructions of a function body from its own
    /// reader.
    fn read_body_content(reader: &mut Leb128Reader) -> (r: Result<(Vec<WasmValType>, Vec<u8>), CompileErrorKind>)
        requires
            old(reader).pos() == 0,
        ensures
            match decode_u32(old(reader).bytes()) {
                Err(e) => r == Err::<(Vec<WasmValType>, Vec<u8>), CompileErrorKind>(read_error_kind(e)),
                Ok((count, n0)) => match decode_local_decls(old(reader).bytes().skip(n0 as int), count) {
                    Err(e) => r == Err::<(Vec<WasmValType>, Vec<u8>), CompileErrorKind>(e),
                    Ok((decls, k)) => r matches Ok((l, c)) && l@ == expand_locals(decls) && c@
                        == old(reader).bytes().skip((n0 + k) as int),
                },
            },
    {
        let ghost b = reader.bytes();
        proof {
            assert(reader.rest() =~= b);
        }
        let count = match reader.read_u32() {
            Ok(v) => v,
            Err(e) => return Err(CompileErrorKind::from_read_error(e)),
        };
        let ghost n0 = decode_u32(b).unwrap().1;
        let _ = reader.position();
        let ghost s0 = b.skip(n0 as int);
        proof {
            assert(reader.rest() =~= s0);
        }
        let ghost c0 = count as nat;
        let mut local_types: Vec<WasmValType> = Vec::new();
        let ghost mut decls: Seq<(nat, WasmValType)> = Seq::empty();
        let ghost mut used: nat = 0;
        let mut i: u32 = 0;
        while i < count
            invariant
                i <= count,
                i == decls.len(),
                c0 == count,
                decode_u32(b) == Ok::<(nat, nat), crate::leb128::ReadError>((c0, n0)),
                s0 == b.skip(n0 as int),
                b == old(reader).bytes(),
                reader.bytes() == b,
                used <= s0.len(),
                reader.rest() == s0.skip(used as int),
                local_types@ == expand_locals(decls),
                decode_local_decls(s0, count as nat) == match decode_local_decls(reader.rest(), (count - i) as nat) {
                    Ok((ds, k)) => Ok((decls + ds, used + k)),
                    Err(e) => Err(e),
                },
            decreases count - i,
        {
            let ghost rs = reader.rest();
            let ghost r0 = *reader;
            proof {
                assert(local_decl_item()(rs) == match decode_u32(rs) {
                    Err(e) => Err(read_error_kind(e)),
                    Ok((count, n)) => if n < rs.len() {
                        match crate::wasm::val_type_of_code(rs[n as int]) {
                            Some(t) => Ok(((count, t), n + 1)),
                            None => Err(CompileErrorKind::UnexpectedToken),
                        }
                    } else {
                        Err(CompileErrorKind::UnexpectedEof)
                    },
                });
            }
            let n = match reader.read_u32() {
                Ok(v) => v,
                Err(e) => return Err(CompileErrorKind::from_read_error(e)),
            };
            let ghost m = decode_u32(rs).unwrap().1;
            let _ = reader.position();
            proof {
                r0.lemma_advanced_rest(reader, m);
            }
            let t = match reader.read_byte() {
                Ok(v) => v,
                Err(e) => return Err(CompileErrorKind::from_read_error(e)),
            };
            let val_type = WasmValType::from_u8(t)?;
            proof {
                assert(rs[m as int] == t);
                assert(local_decl_item()(rs) == Ok::<((nat, WasmValType), nat), CompileErrorKind>(((n as nat, val_type), m + 1)));
                assert(reader.rest() =~= rs.skip((m + 1) as int));
            }
            let ghost prev = local_types@;
            let mut j: u32 = 0;
            while j < n
                invariant
                    j <= n,
                    local_types@ == prev + Seq::new(j as nat, |q: int| val_type),
                decreases n - j,
            {
                local_types.push(val_type);
                proof {
                    assert(local_types@ =~= prev + Seq::new((j + 1) as nat, |q: int| val_type));
                }
                j = j + 1;
            }
            proof {
                let d = (n as nat, val_type);
                let decls2 = decls.push(d);
                assert(decls2.drop_last() =~= decls);
                assert(local_types@ == expand_locals(decls2));
                assert forall|ds: Seq<(nat, WasmValType)>| decls + (seq![d].add(ds)) =~= decls2 + ds by {}
                decls = decls2;
                used = used + m + 1;
                assert(reader.rest() =~= s0.skip(used as int));
            }
            i = i + 1;
        }
        let mut code: Vec<u8> = Vec::new();
        let ghost rest = reader.rest();
        let _ = reader.read_to_end(&mut code);
        proof {
            assert(decode_local_decls(reader.rest(), 0) == Ok::<(Seq<(nat, WasmValType)>, nat), CompileErrorKind>((Seq::empty(), 0)));
            assert(decls + Seq::<(nat, WasmValType)>::empty() =~= decls);
            assert(code@ =~= rest);
            assert(rest =~= b.skip((n0 + used) as int));
        }
        Ok((local_types, code))
    }

    /// Reads the "code" section: the bodies go, in order, to the functions of the module from
    /// the first one that has none. `OutOfFunction` when there is no such function or a body
    /// has no function left.
    #[verifier::rlimit(50)]
    fn parse_sec_code(&mut self, section: &mut WasmSection) -> (r: Result<(), CompileError>)
        ensures
            match add_code(module_model(*old(self)), old(section).rest()) {
                Ok(mm) => r is Ok && module_model(*final(self)) == mm,
                Err(e) => r matches Err(ce) && ce.spec_kind() == e,
            },
            final(self).agrees_except(old(self), set![ModulePart::Functions]),
    {
        let mut base: usize = 0;
        while base < self.functions.len()
            invariant
                base <= self.functions_view().len(),
                first_unresolved(self.functions_view(), 0) == first_unresolved(self.functions_view(), base as nat),
            ensures
                base < self.functions_view().len() ==> is_unresolved_internal(self.functions_view()[base as int]),
                base <= self.functions_view().len(),
                first_unresolved(self.functions_view(), 0) == first_unresolved(self.functions_view(), base as nat),
            decreases self.functions.len() - base,
        {
            let f = &self.functions[base];
            if !f.is_external && matches!(f.content, WasmFunctionContent::Unresolved) {
                break;
            }
            base = base + 1;
        }
        proof {
            lemma_first_open(self.functions_view(), 0);
        }
        if base >= self.functions.len() {
            return Err(CompileError::from_kind(CompileErrorKind::OutOfFunction));
        }
        proof {
            assert(first_unresolved(self.functions_view(), 0) == Some(base as nat));
        }
        let n_items = match Self::read_count(section) {
            Ok(n) => n,
            Err(e) => return Err(CompileError::from_kind(e)),
        };
        let mut i: u32 = 0;
        while i < n_items
            invariant
                i <= n_items,
                add_code(module_model(*old(self)), old(section).rest()) == add_bodies(
                    module_model(*self),
                    section.rest(),
                    (n_items - i) as nat,
                    (base + i) as nat,
                ),
                section.content() == old(section).content(),
                section.spec_file_position() == old(section).spec_file_position(),
                self.agrees_except(old(self), set![ModulePart::Functions]),
            decreases n_items - i,
        {
            let index = match base.checked_add(i as usize) {
                Some(v) => v,
                None => return Err(CompileError::from_kind(CompileErrorKind::OutOfFunction)),
            };
            if index >= self.functions.len() {
                return Err(CompileError::from_kind(CompileErrorKind::OutOfFunction));
            }
            self.read_body(section, index)?;
            i = i + 1;
        }
        Ok(())
    }

    /// Reads the body at the start of the section for the function `index`; see `body_step`.
    fn read_body(&mut self, section: &mut WasmSection, index: usize) -> (r: Result<(), CompileError>)
        requires
            index < old(self).functions_view().len(),
        ensures
            match body_step(module_model(*old(self)), old(section).rest(), index as nat) {
                Ok((mm, n)) => r is Ok && module_model(*final(self)) == mm && final(section).rest() == old(
                    section,
                ).rest().skip(n as int),
                Err(e) => r matches Err(ce) && ce.spec_kind() == e,
            },
            final(section).content() == old(section).content(),
            final(section).spec_file_position() == old(section).spec_file_position(),
            final(self).agrees_except(old(self), set![ModulePart::Functions]),
    {
        let ghost m0 = module_model(*self);
        let ghost before = *self;
        let ghost s = section.rest();
        proof {
            crate::leb128::lemma_decode_unsigned_bounds(s, 5, 16);
        }
        let length = match Self::read_count(section) {
            Ok(n) => n as usize,
            Err(e) => return Err(CompileError::from_kind(e)),
        };
        let ghost n = decode_u32(s).unwrap().1;
        let position = section.reader.position();
        let file_position = section.file_position.wrapping_add(position);
        let ghost r1 = section.reader;
        let mut body_reader = match section.reader.sub_slice(length) {
            Some(b) => b,
            None => return Err(CompileError::from_kind(CompileErrorKind::UnexpectedEof)),
        };
        proof {
            r1.lemma_advanced_rest(&section.reader, length as nat);
            assert(body_reader.bytes() =~= s.subrange(n as int, (n + length) as int));
            assert(section.rest() =~= s.skip((n + length) as int));
        }
        let (local_types, code) = match Self::read_body_content(&mut body_reader) {
            Ok(v) => v,
            Err(e) => return Err(CompileError::from_kind(e)),
        };
        let ghost item = (local_types@, code@);
        let params = self.functions[index].param_types();
        let mut all_locals: Vec<WasmValType> = Vec::new();
        let mut p: usize = 0;
        while p < params.len()
            invariant
                p <= params@.len(),
                all_locals@ == params@.take(p as int),
            decreases params.len() - p,
        {
            all_locals.push(params[p]);
            proof {
                assert(params@.take(p + 1) =~= params@.take(p as int).push(params@[p as int]));
            }
            p = p + 1;
        }
        let mut q: usize = 0;
        while q < local_types.len()
            invariant
                q <= local_types@.len(),
                all_locals@ == params@ + local_types@.take(q as int),
            decreases local_types.len() - q,
        {
            proof {
                if q == 0 {
                    assert(params@.take(params@.len() as int) =~= params@);
                }
            }
            all_locals.push(local_types[q]);
            proof {
                assert(params@ + local_types@.take(q + 1) =~= (params@ + local_types@.take(q as int)).push(local_types@[q as int]));
            }
            q = q + 1;
        }
        proof {
            if local_types@.len() == 0 {
                assert(params@.take(params@.len() as int) =~= params@);
            }
            assert(local_types@.take(local_types@.len() as int) =~= local_types@);
        }
        let results = self.functions[index].result_types();
        proof {
            lemma_model_context(*self, all_locals@, results@);
            assert(decode_code(s) == Ok::<((Seq<WasmValType>, Seq<u8>), nat), CompileErrorKind>((item, (n + length) as nat)));
        }
        let ghost f = m0.functions[index as int];
        proof {
            assert(f == func_model(before.functions_view()[index as int]));
            assert(f.params + item.0 == all_locals@);
            assert(f.results == results@);
        }
        match WasmCodeBlock::generate(index, file_position, code.as_slice(), all_locals.as_slice(), results, &*self) {
            Ok(_) => {},
            Err(e) => return Err(CompileError::from_kind(e)),
        }
        let code_offset = if code.len() <= length {
            length - code.len()
        } else {
            0
        };
        let body = FunctionBody {
            local_types: val_types_from_slice(local_types.as_slice()),
            code,
            file_position,
            code_offset,
        };
        proof {
            assert(*self == before);
            assert(check_body(item.1, model_context(m0, f.params + item.0, f.results)) is Ok);
            assert(f.external == self.functions@[index as int].spec_is_external());
            assert(f.body == self.functions@[index as int].body());
            assert(f.handle == self.functions@[index as int].handle());
        }
        match self.functions[index].set_code_block(body) {
            Ok(()) => {},
            Err(e) => return Err(CompileError::from_kind(e)),
        }
        proof {
            lemma_model_except(before, *self, set![ModulePart::Functions]);
            assert(module_model(*self).functions =~= m0.functions.update(
                index as int,
                FuncModel { body: Some(item), code_offset: code_offset, ..f },
            ));
        }
        Ok(())
    }

    /// Reads the next section, following `section_list`.
    fn next_section(reader: &mut Leb128Reader, Ghost(acc): Ghost<Seq<(WasmSectionId, Seq<u8>)>>) -> (r: Result<
        Option<WasmSection>,
        CompileErrorKind,
    >)
        requires
            old(reader).bytes().len() + 8 <= usize::MAX,
        ensures
            final(reader).bytes() == old(reader).bytes(),
            r matches Err(k) ==> section_list(old(reader).rest(), acc) == Err::<Seq<(WasmSectionId, Seq<u8>)>, CompileErrorKind>(k),
            r matches Ok(None) ==> section_list(old(reader).rest(), acc) == Ok::<Seq<(WasmSectionId, Seq<u8>)>, CompileErrorKind>(acc),
            r matches Ok(Some(sec)) ==> section_list(old(reader).rest(), acc) == section_list(
                final(reader).rest(),
                acc.push((sec.spec_id(), sec.content())),
            ) && sec.rest() == sec.content() && final(reader).rest().len() < old(reader).rest().len(),
    {
        let ghost r0 = *reader;
        let res = WasmSection::from_reader(reader);
        let _ = reader.position();
        proof {
            if res matches Ok(Some(_)) {
                let n = decode_section(r0.rest()).unwrap().unwrap().2;
                r0.lemma_advanced_rest(reader, n);
            }
        }
        res
    }

    /// Reads one section into the module.
    fn parse_section(&mut self, section: &mut WasmSection) -> (r: Result<(), CompileError>)
        ensures
            ({
                let eff = section_effect(module_model(*old(self)), old(section).spec_id(), old(section).rest());
                ||| eff matches Ok(mm) && r is Ok && module_model(*final(self)) == mm
                ||| eff matches Err(e) && r matches Err(ce) && ce.spec_kind() == e
                ||| r matches Err(ce) && ce.spec_kind() == CompileErrorKind::OutOfMemory && section_allocates(
                    module_model(*old(self)),
                    old(section).spec_id(),
                    old(section).rest(),
                )
            }),
            final(self).agrees_except(old(self), set![
                ModulePart::Types, ModulePart::Imports, ModulePart::Functions, ModulePart::Tables,
                ModulePart::Memories, ModulePart::Globals, ModulePart::Exports, ModulePart::Start,
                ModulePart::DataCount,
            ]),
    {
        let ghost before = *self;
        let ghost content = section.rest();
        let ghost m0 = module_model(*self);
        proof {
            reveal(section_effect);
        }
        match section.section_id() {
            WasmSectionId::Custom => Ok(()),
            WasmSectionId::Type => match self.parse_sec_type(section) {
                Ok(()) => {
                    proof {
                        lemma_model_except(before, *self, set![ModulePart::Types]);
                    }
                    Ok(())
                },
                Err(e) => Err(CompileError::from_kind(e)),
            },
            WasmSectionId::Import => match self.parse_sec_import(section) {
                Ok(()) => Ok(()),
                Err(e) => Err(CompileError::from_kind(e)),
            },
            WasmSectionId::Function => match self.parse_sec_func(section) {
                Ok(()) => Ok(()),
                Err(e) => Err(CompileError::from_kind(e)),
            },
            WasmSectionId::Table => match self.parse_sec_table(section) {
                Ok(()) => {
                    proof {
                        lemma_tables_model(before, *self, decode_vec(content, table_item()).unwrap());
                    }
                    Ok(())
                },
                Err(e) => Err(CompileError::from_kind(e)),
            },
            WasmSectionId::Memory => match self.parse_sec_memory(section) {
                Ok(()) => Ok(()),
                Err(e) => Err(CompileError::from_kind(e)),
            },
            WasmSectionId::Global => {
                let r = self.parse_sec_global(section);
                proof {
                    if r is Ok {
                        lemma_globals_model(before, *self, decode_vec(content, global_item()).unwrap());
                    }
                }
                r
            },
            WasmSectionId::Export => match self.parse_sec_export(section) {
                Ok(()) => {
                    proof {
                        lemma_model_except(before, *self, set![ModulePart::Exports]);
                    }
                    Ok(())
                },
                Err(e) => Err(CompileError::from_kind(e)),
            },
            WasmSectionId::Start => match self.parse_sec_start(section) {
                Ok(()) => {
                    proof {
                        lemma_model_except(before, *self, set![ModulePart::Start]);
                    }
                    Ok(())
                },
                Err(e) => Err(CompileError::from_kind(e)),
            },
            WasmSectionId::Element => {
                let r = self.parse_sec_elem(section);
                proof {
                    if r is Ok {
                        lemma_elems_model(before, *self, decode_vec(content, elem_item(before.tables_view().len())).unwrap());
                    }
                }
                r
            },
            WasmSectionId::Code => self.parse_sec_code(section),
            WasmSectionId::Data => {
                let r = self.parse_sec_data(section);
                proof {
                    lemma_memory_lens_model(before);
                    if r is Ok {
                        lemma_data_model(
                            before,
                            *self,
                            decode_vec(content, data_item(memory_lens(before.memories_view()))).unwrap(),
                        );
                    }
                }
                r
            },
            WasmSectionId::DataCount => match self.parse_sec_data_count(section) {
                Ok(()) => {
                    proof {
                        lemma_model_except(before, *self, set![ModulePart::DataCount]);
                    }
                    Ok(())
                },
                Err(e) => Err(CompileError::from_kind(e)),
            },
        }
    }

    /// Keeps a custom section by its name, and the names of a name section.
    fn keep_custom_section(&mut self, section: &mut WasmSection)
        requires
            old(self).names_view() == names_of(old(self).custom_view()),
            old(section).rest() == old(section).content(),
        ensures
            match decode_string(old(section).content()) {
                Ok((name, n)) => final(self).custom_view() == old(self).custom_view().push(
                    (name, old(section).content().skip(n as int)),
                ),
                Err(_) => final(self).custom_view() == old(self).custom_view(),
            },
            final(self).names_view() == names_of(final(self).custom_view()),
            final(self).agrees_except(old(self), set![ModulePart::Custom]),
    {
        let ghost content = section.content();
        let ghost prev = self.custom_view();
        match section.reader.get_string() {
            Ok(name) => {
                let mut blob: Vec<u8> = Vec::new();
                let _ = section.reader.read_to_end(&mut blob);
                let is_name = str_equals(name.as_str(), WasmName::SECTION_NAME);
                if is_name {
                    let mut blob_reader = Leb128Reader::from_slice(blob.as_slice());
                    proof {
                        assert(blob_reader.rest() =~= blob@);
                    }
                    self.names = match WasmName::from_reader(&mut blob_reader) {
                        Ok(n) => Some(n),
                        Err(_) => None,
                    };
                }
                let ghost entry = (name@, blob@);
                self.custom_sections.push((name, blob));
                proof {
                    reveal_strlit("name");
                    let nn = decode_string(content).unwrap().1;
                    assert(blob@ =~= content.skip(nn as int));
                    assert(self.custom_view() =~= prev.push(entry));
                    assert(prev.push(entry).drop_last() =~= prev);
                }
            },
            Err(_) => {},
        }
    }

    /// Goes through the sections and keeps the custom ones by name, and the names of the name
    /// section.
    #[verifier::rlimit(40)]
    fn read_custom_sections(&mut self, reader: &mut Leb128Reader) -> (r: Result<(), CompileErrorKind>)
        requires
            old(reader).bytes().len() + 8 <= usize::MAX,
            old(self).custom_view() == Seq::<(Seq<char>, Seq<u8>)>::empty(),
            old(self).names_view() is None,
        ensures
            final(reader).bytes() == old(reader).bytes(),
            match section_list(old(reader).rest(), Seq::empty()) {
                Err(k) => r == Err::<(), CompileErrorKind>(k),
                Ok(secs) => r is Ok && final(self).custom_view() == custom_sections_of(secs) && final(self).names_view() == names_of(custom_sections_of(secs)),
            },
            final(self).agrees_except(old(self), set![ModulePart::Custom]),
    {
        let ghost s0 = reader.rest();
        let ghost mut processed: Seq<(WasmSectionId, Seq<u8>)> = Seq::empty();
        proof {
            assert(custom_sections_of(processed) =~= self.custom_view());
        }
        loop
            invariant
                reader.bytes() == old(reader).bytes(),
                old(reader).bytes().len() + 8 <= usize::MAX,
                s0 == old(reader).rest(),
                section_list(s0, Seq::empty()) == section_list(reader.rest(), processed),
                self.custom_view() == custom_sections_of(processed),
                self.names_view() == names_of(self.custom_view()),
                self.agrees_except(old(self), set![ModulePart::Custom]),
            decreases reader.rest().len(),
        {
            let section = match Self::next_section(reader, Ghost(processed)) {
                Ok(Some(sec)) => sec,
                Ok(None) => {
                    return Ok(());
                },
                Err(e) => {
                    return Err(e);
                },
            };
            let ghost item = (section.spec_id(), section.content());
            let mut section = section;
            if !section.section_id.depends_on_order() {
                self.keep_custom_section(&mut section);
            }
            proof {
                let p2 = processed.push(item);
                assert(p2.drop_last() =~= processed);
                processed = p2;
            }
        }
    }

    /// Reads the next of the sections `secs`, of which `processed` are read, after sections of
    /// rank up to `last_rank`: `Ok(false)` at the end, `Ok(true)` when it was read.
    fn parse_next_section(
        &mut self,
        reader: &mut Leb128Reader,
        Ghost(processed): Ghost<Seq<(WasmSectionId, Seq<u8>)>>,
        Ghost(secs): Ghost<Seq<(WasmSectionId, Seq<u8>)>>,
        last_rank: &mut u8,
    ) -> (r: Result<bool, CompileError>)
        requires
            old(reader).bytes().len() + 8 <= usize::MAX,
            section_list(old(reader).rest(), processed) == Ok::<Seq<(WasmSectionId, Seq<u8>)>, CompileErrorKind>(secs),
        ensures
            final(reader).bytes() == old(reader).bytes(),
            r == Ok::<bool, CompileError>(false) ==> processed == secs && *final(self) == *old(self),
            r != Ok::<bool, CompileError>(false) ==> processed.len() < secs.len() && ({
                let (id, content) = secs[processed.len() as int];
                let out_of_order = id != WasmSectionId::Custom && *old(last_rank) > section_rank(id);
                let eff = section_effect(module_model(*old(self)), id, content);
                &&& r == Ok::<bool, CompileError>(true) ==> !out_of_order && eff == Ok::<ModuleModel, CompileErrorKind>(
                    module_model(*final(self)),
                ) && section_list(final(reader).rest(), processed.push((id, content))) == Ok::<
                    Seq<(WasmSectionId, Seq<u8>)>,
                    CompileErrorKind,
                >(secs) && final(reader).rest().len() < old(reader).rest().len() && *final(last_rank) == if id
                    != WasmSectionId::Custom {
                    section_rank(id)
                } else {
                    *old(last_rank) as nat
                }
                &&& r matches Err(ce) ==> (out_of_order && ce.spec_kind() == CompileErrorKind::InvalidSectionOrder(id))
                    || (!out_of_order && (eff == Err::<ModuleModel, CompileErrorKind>(ce.spec_kind()) || (ce.spec_kind()
                    == CompileErrorKind::OutOfMemory && section_allocates(module_model(*old(self)), id, content))))
            }),
            final(self).agrees_except(old(self), set![
                ModulePart::Types, ModulePart::Imports, ModulePart::Functions, ModulePart::Tables,
                ModulePart::Memories, ModulePart::Globals, ModulePart::Exports, ModulePart::Start,
                ModulePart::DataCount,
            ]),
    {
        let mut section = match Self::next_section(reader, Ghost(processed)) {
            Ok(Some(sec)) => sec,
            Ok(None) => {
                return Ok(false);
            },
            Err(e) => {
                return Err(CompileError::from_kind(e));
            },
        };
        let id = section.section_id();
        let ghost item = (id, section.content());
        proof {
            lemma_section_list_prefix(reader.rest(), processed.push(item));
            assert(processed.push(item)[processed.len() as int] == item);
        }
        if id.depends_on_order() {
            let rank = id.rank();
            if *last_rank > rank {
                return Err(CompileError::from_kind(CompileErrorKind::InvalidSectionOrder(id)));
            }
            *last_rank = rank;
        }
        self.parse_section(&mut section)?;
        Ok(true)
    }

    /// Reads the sections in order: `InvalidSectionOrder` for a section other than a custom
    /// one that comes after one of a higher rank.
    fn parse_sections(&mut self, reader: &mut Leb128Reader) -> (r: Result<(), CompileError>)
        requires
            old(reader).bytes().len() + 8 <= usize::MAX,
            section_list(old(reader).rest(), Seq::empty()) is Ok,
        ensures
            section_list(old(reader).rest(), Seq::empty()) matches Ok(secs) && ({
                let eff = read_sections(module_model(*old(self)), secs, 0, 0);
                ||| eff matches Ok(mm) && r is Ok && module_model(*final(self)) == mm
                ||| eff matches Err(e) && r matches Err(ce) && ce.spec_kind() == e
                ||| r matches Err(ce) && ce.spec_kind() == CompileErrorKind::OutOfMemory && sections_allocate(
                    module_model(*old(self)),
                    secs,
                    0,
                    0,
                )
            }) && (r is Ok ==> sections_ordered(secs)),
            final(self).custom_view() == old(self).custom_view(),
            final(self).names_view() == old(self).names_view(),
    {
        let ghost s0 = reader.rest();
        let ghost secs = section_list(s0, Seq::empty()).unwrap();
        let ghost mut processed: Seq<(WasmSectionId, Seq<u8>)> = Seq::empty();
        let mut last_rank: u8 = 0;
        loop
            invariant
                reader.bytes() == old(reader).bytes(),
                old(reader).bytes().len() + 8 <= usize::MAX,
                section_list(reader.rest(), processed) == Ok::<Seq<(WasmSectionId, Seq<u8>)>, CompileErrorKind>(secs),
                secs == section_list(old(reader).rest(), Seq::empty()).unwrap(),
                section_list(old(reader).rest(), Seq::empty()) is Ok,
                processed.len() <= secs.len(),
                processed == secs.take(processed.len() as int),
                sections_ordered(processed),
                forall|k: int|
                    0 <= k < processed.len() && (#[trigger] processed[k]).0 != WasmSectionId::Custom
                        ==> section_rank(processed[k].0) <= last_rank,
                read_sections(module_model(*old(self)), secs, 0, 0) == read_sections(
                    module_model(*self),
                    secs,
                    processed.len(),
                    last_rank as nat,
                ),
                sections_allocate(module_model(*self), secs, processed.len(), last_rank as nat) ==> sections_allocate(
                    module_model(*old(self)),
                    secs,
                    0,
                    0,
                ),
                self.custom_view() == old(self).custom_view(),
                self.names_view() == old(self).names_view(),
            decreases reader.rest().len(),
        {
            let ghost mb = module_model(*self);
            let ghost lr = last_rank as nat;
            let ghost before = *self;
            let more = self.parse_next_section(reader, Ghost(processed), Ghost(secs), &mut last_rank);
            proof {
                if more != Ok::<bool, CompileError>(false) {
                    assert(secs[processed.len() as int] == secs[processed.len() as int]);
                }
            }
            match more {
                Ok(true) => {},
                Ok(false) => {
                    proof {
                        assert(processed == secs);
                    }
                    return Ok(());
                },
                Err(e) => {
                    return Err(e);
                },
            }
            proof {
                let item = secs[processed.len() as int];
                let p2 = processed.push(item);
                assert(p2 =~= secs.take(p2.len() as int));
                lemma_ordered_push(processed, item, lr);
                processed = p2;
            }
        }
    }

    /// Decodes a module: the header, then the custom sections, then every section in order.
    /// `BadExecutable` without the header; a framing error of any section comes first; a
    /// module is made only when the sections other than custom ones come in order.
    pub fn compile(bytes: &[u8]) -> (r: Result<Self, CompileError>)
        ensures
            ({
                let eff = compile_result(bytes@);
                ||| eff matches Ok(mm) && r matches Ok(m) && module_model(m) == mm
                ||| eff matches Err(e) && r matches Err(ce) && ce.spec_kind() == e
                ||| r matches Err(ce) && ce.spec_kind() == CompileErrorKind::OutOfMemory && is_wasm_binary(bytes@)
                    && (section_list(bytes@.skip(8), Seq::empty()) matches Ok(secs) && allocates_pages(secs))
            }),
            r matches Ok(m) ==> is_wasm_binary(bytes@) && (section_list(bytes@.skip(8), Seq::empty()) matches Ok(secs)
                && sections_ordered(secs) && m.custom_view() == custom_sections_of(secs) && m.names_view() == names_of(
                custom_sections_of(secs),
            )),
    {
        if !WebAssembly::identify(bytes) {
            return Err(CompileError::from_kind(CompileErrorKind::BadExecutable));
        }
        let mut data: Vec<u8> = Vec::new();
        let mut i: usize = 8;
        while i < bytes.len()
            invariant
                8 <= i <= bytes@.len(),
                data@ == bytes@.subrange(8, i as int),
            decreases bytes.len() - i,
        {
            data.push(bytes[i]);
            i = i + 1;
        }
        proof {
            assert(data@ =~= bytes@.skip(8));
        }
        let mut reader = Leb128Reader::from_vec(data);
        proof {
            assert(reader.rest() =~= bytes@.skip(8));
        }
        let mut module = Self::empty_module();
        match module.read_custom_sections(&mut reader) {
            Ok(()) => {},
            Err(k) => return Err(CompileError::from_kind(k)),
        }
        reader.reset();
        proof {
            assert(reader.rest() =~= bytes@.skip(8));
            assert(module_model(module) =~= empty_model()) by {
                assert(module.types_view() =~= Seq::<(Seq<WasmValType>, Seq<WasmValType>)>::empty());
                assert(module.imports_view() =~= Seq::<(Seq<char>, Seq<char>, WasmImportDescriptor)>::empty());
                assert(module.exports_view() =~= Seq::<(Seq<char>, WasmExportDesc)>::empty());
                assert(module_model(module).functions =~= Seq::<FuncModel>::empty());
                assert(module_model(module).tables =~= Seq::<(WasmLimit, Seq<usize>)>::empty());
                assert(module_model(module).memories =~= Seq::<MemModel>::empty());
                assert(module_model(module).globals =~= Seq::<(WasmValue, bool)>::empty());
            }
        }
        module.parse_sections(&mut reader)?;
        Ok(module)
    }

    /// Reads the "start" section: the index of the start function.
    fn parse_sec_start(&mut self, section: &mut WasmSection) -> (r: Result<(), CompileErrorKind>)
        ensures
            match decode_u32(old(section).rest()) {
                Ok((v, _)) => r is Ok && final(self).spec_start() == Some(v as usize),
                Err(e) => r == Err::<(), CompileErrorKind>(read_error_kind(e)),
            },
            final(self).agrees_except(old(self), set![ModulePart::Start]),
    {
        let index = Self::read_count(section)?;
        self.start = Some(index as usize);
        Ok(())
    }

    /// Reads the "datacount" section: the number of data segments.
    fn parse_sec_data_count(&mut self, section: &mut WasmSection) -> (r: Result<(), CompileErrorKind>)
        ensures
            match decode_u32(old(section).rest()) {
                Ok((v, _)) => r is Ok && final(self).spec_data_count() == Some(v as usize),
                Err(e) => r == Err::<(), CompileErrorKind>(read_error_kind(e)),
            },
            final(self).agrees_except(old(self), set![ModulePart::DataCount]),
    {
        let count = Self::read_count(section)?;
        self.data_count = Some(count as usize);
        Ok(())
    }
}

/// An import of a module, by name
pub struct ModuleImport {
    pub module: String,
    pub name: String,
    pub kind: ImportExportKind,
}

/// An export of a module, by name
pub struct ModuleExport {
    pub name: String,
    pub kind: ImportExportKind,
}

/// The position in the file of the body of the function `index` of `m`, if it has one
pub open spec fn body_position(m: WasmModule, index: nat) -> Option<usize> {
    if index < m.functions_view().len() {
        m.functions_view()[index as int].spec_body_position()
    } else {
        None
    }
}

/// How far into the body of function `index` of `m` its instructions begin (0 when the
/// function has no body)
pub open spec fn body_code_offset(m: WasmModule, index: nat) -> usize {
    if index < m.functions_view().len() {
        m.functions_view()[index as int].spec_code_offset()
    } else {
        0
    }
}

/// The global that an export gives under a name, in a module with `n_globals` globals
pub open spec fn exported_global(export: (Seq<char>, WasmExportDesc), name: Seq<char>, n_globals: nat) -> Option<nat> {
    match export.1 {
        WasmExportDesc::Global(x) => if export.0 == name && x.0 < n_globals {
            Some(x.0 as nat)
        } else {
            None
        },
        _ => None,
    }
}

/// The function that an export gives under a name
pub open spec fn exported_function(export: (Seq<char>, WasmExportDesc), name: Seq<char>) -> Option<nat> {
    match export.1 {
        WasmExportDesc::Function(x) => if export.0 == name {
            Some(x as nat)
        } else {
            None
        },
        _ => None,
    }
}

/// The last custom section of a name, with its index
pub open spec fn last_custom(customs: Seq<(Seq<char>, Seq<u8>)>, name: Seq<char>) -> Option<int> {
    if exists|i: int| 0 <= i < customs.len() && customs[i].0 == name {
        Some(choose|i: int| 0 <= i < customs.len() && customs[i].0 == name && forall|j: int| i < j < customs.len() ==> customs[j].0 != name)
    } else {
        None
    }
}

impl WasmModule {
    /// The imports, by name and kind
    pub fn imports(&self) -> (r: Vec<ModuleImport>)
        ensures
            r@.len() == self.imports_view().len(),
            forall|i: int|
                0 <= i < r@.len() ==> (#[trigger] r@[i]).module@ == self.imports_view()[i].0 && r@[i].name@
                    == self.imports_view()[i].1 && r@[i].kind == crate::types::import_kind(self.imports_view()[i].2),
    {
        let mut r: Vec<ModuleImport> = Vec::new();
        let mut i: usize = 0;
        while i < self.imports.len()
            invariant
                i <= self.imports@.len(),
                r@.len() == i,
                forall|k: int|
                    0 <= k < i ==> (#[trigger] r@[k]).module@ == self.imports_view()[k].0 && r@[k].name@
                        == self.imports_view()[k].1 && r@[k].kind == crate::types::import_kind(self.imports_view()[k].2),
            decreases self.imports.len() - i,
        {
            let import = &self.imports[i];
            let desc = import.desc();
            r.push(
                ModuleImport {
                    module: import.module_name().to_string(),
                    name: import.name().to_string(),
                    kind: ImportExportKind::from_import_desc(&desc),
                },
            );
            i = i + 1;
        }
        r
    }

    /// The exports, by name and kind
    pub fn exports(&self) -> (r: Vec<ModuleExport>)
        ensures
            r@.len() == self.exports_view().len(),
            forall|i: int|
                0 <= i < r@.len() ==> (#[trigger] r@[i]).name@ == self.exports_view()[i].0 && r@[i].kind
                    == crate::types::export_kind(self.exports_view()[i].1),
    {
        let mut r: Vec<ModuleExport> = Vec::new();
        let mut i: usize = 0;
        while i < self.exports.len()
            invariant
                i <= self.exports@.len(),
                r@.len() == i,
                forall|k: int|
                    0 <= k < i ==> (#[trigger] r@[k]).name@ == self.exports_view()[k].0 && r@[k].kind
                        == crate::types::export_kind(self.exports_view()[k].1),
            decreases self.exports.len() - i,
        {
            let export = &self.exports[i];
            let desc = export.desc();
            r.push(ModuleExport { name: export.name().to_string(), kind: ImportExportKind::from_export_desc(&desc) });
            i = i + 1;
        }
        r
    }

    /// The content of the last custom section of a name, after the name
    pub fn custom_sections(&self, section_name: &str) -> (r: Option<&[u8]>)
        ensures
            match last_custom(self.custom_view(), section_name@) {
                Some(i) => r matches Some(b) && b@ == self.custom_view()[i].1,
                None => r is None,
            },
    {
        let mut i: usize = self.custom_sections.len();
        while i > 0
            invariant
                i <= self.custom_sections@.len(),
                forall|j: int| i <= j < self.custom_view().len() ==> self.custom_view()[j].0 != section_name@,
            decreases i,
        {
            i = i - 1;
            let entry = &self.custom_sections[i];
            if str_equals(entry.0.as_str(), section_name) {
                proof {
                    let cv = self.custom_view();
                    let w = i as int;
                    assert(cv[w].0 == section_name@);
                    let c = choose|k: int| 0 <= k < cv.len() && cv[k].0 == section_name@ && forall|j: int| k < j < cv.len() ==> cv[j].0 != section_name@;
                    assert(c == w) by {
                        if c < w {
                            assert(cv[w].0 != section_name@);
                        } else if c > w {
                            assert(cv[c].0 != section_name@);
                        }
                    }
                }
                return Some(entry.1.as_slice());
            }
        }
        None
    }

    /// Whether the first memory has a page
    pub fn has_memory(&self) -> (r: bool)
        ensures
            r == (self.memories_view().len() > 0 && self.memories_view()[0].pages() > 0),
    {
        if self.memories.len() > 0 {
            self.memories[0].size() > 0
        } else {
            false
        }
    }

    /// The memories
    pub fn memories(&self) -> (r: &[WasmMemory])
        ensures
            r@ == self.memories_view(),
    {
        self.memories.as_slice()
    }

    /// The functions, imported ones first
    pub fn functions(&self) -> (r: &[WasmFunction])
        ensures
            r@ == self.functions_view(),
    {
        self.functions.as_slice()
    }

    /// The globals
    pub fn globals(&self) -> (r: &[WasmGlobal])
        ensures
            r@ == self.globals_view(),
    {
        self.globals.as_slice()
    }

    /// The number of data segments announced
    pub fn data_count(&self) -> (r: Option<usize>)
        ensures
            r == self.spec_data_count(),
    {
        self.data_count
    }

    /// The names of the name section
    pub fn names(&self) -> (r: Option<&WasmName>)
        ensures
            match r {
                Some(n) => self.names_view() == Some(n.state()),
                None => self.names_view() is None,
            },
    {
        match &self.names {
            Some(n) => Some(n),
            None => None,
        }
    }

    /// The number of function types
    pub fn type_count(&self) -> (r: usize)
        ensures
            r == self.types_view().len(),
    {
        self.types.len()
    }

    /// The type of an index that names one
    pub fn type_by_index(&self, index: WasmTypeIndex) -> (r: &WasmType)
        requires
            index.0 < self.types_view().len(),
        ensures
            (r.params(), r.results()) == self.types_view()[index.0 as int],
    {
        &self.types[index.as_usize()]
    }

    /// The function that element `index` of the first table names
    pub fn elem_get(&self, index: usize) -> (r: Option<&WasmFunction>)
        ensures
            r is Some <==> self.tables_view().len() > 0 && index < self.tables_view()[0].elements().len()
                && self.tables_view()[0].elements()[index as int] < self.functions_view().len(),
            r matches Some(f) ==> *f == self.functions_view()[self.tables_view()[0].elements()[index as int] as int],
    {
        if self.tables.len() == 0 {
            return None;
        }
        let table = self.tables[0].table();
        if index >= table.len() {
            return None;
        }
        let f = table[index];
        if f < self.functions.len() {
            Some(&self.functions[f])
        } else {
            None
        }
    }

    /// The position in the file of the body of a function
    pub fn func_position(&self, index: usize) -> (r: Option<usize>)
        ensures
            r == body_position(*self, index as nat),
            r is Some <==> index < self.functions_view().len() && self.functions_view()[index as int].body() is Some,
    {
        if index >= self.functions.len() {
            return None;
        }
        match self.functions[index].content() {
            WasmFunctionContent::CodeBlock(b) => Some(b.file_position()),
            _ => None,
        }
    }

    /// How far into the body of a function its instructions begin, past the declarations of
    /// its locals: 0 for a function without a body
    pub fn func_code_offset(&self, index: usize) -> (r: usize)
        ensures
            r == body_code_offset(*self, index as nat),
    {
        if index >= self.functions.len() {
            return 0;
        }
        self.functions[index].code_offset()
    }

    /// The global that an export of this name gives: `NoMethod` when no global is exported
    /// under the name
    pub fn global(&self, name: &str) -> (r: Result<&WasmGlobal, WasmRuntimeErrorKind>)
        ensures
            r matches Ok(g) ==> exists|i: int|
                0 <= i < self.exports_view().len() && (#[trigger] exported_global(
                    self.exports_view()[i],
                    name@,
                    self.globals_view().len(),
                ) matches Some(x) && *g == self.globals_view()[x as int]),
            r is Err ==> r == Err::<&WasmGlobal, WasmRuntimeErrorKind>(WasmRuntimeErrorKind::NoMethod),
            (exists|i: int|
                0 <= i < self.exports_view().len() && #[trigger] exported_global(
                    self.exports_view()[i],
                    name@,
                    self.globals_view().len(),
                ) is Some) ==> r is Ok,
    {
        let mut i: usize = 0;
        while i < self.exports.len()
            invariant
                i <= self.exports_view().len(),
                self.exports_view().len() == self.exports@.len(),
                forall|k: int|
                    0 <= k < i ==> #[trigger] exported_global(self.exports_view()[k], name@, self.globals_view().len()) is None,
            decreases self.exports.len() - i,
        {
            let export = &self.exports[i];
            if let WasmExportDesc::Global(index) = export.desc() {
                if str_equals(export.name(), name) && index.as_usize() < self.globals.len() {
                    proof {
                        assert(self.exports_view()[i as int] == (export.spec_name(), export.spec_desc()));
                        assert(exported_global(self.exports_view()[i as int], name@, self.globals_view().len())
                            == Some(index.0 as nat));
                    }
                    return Ok(&self.globals[index.as_usize()]);
                }
            }
            proof {
                assert(self.exports_view()[i as int] == (export.spec_name(), export.spec_desc()));
            }
            i = i + 1;
        }
        Err(WasmRuntimeErrorKind::NoMethod)
    }
}

/// The function imports, in order: module name, item name and type index
pub open spec fn function_imports(imports: Seq<(Seq<char>, Seq<char>, WasmImportDescriptor)>) -> Seq<(Seq<char>, Seq<char>, WasmTypeIndex)>
    decreases imports.len(),
{
    if imports.len() == 0 {
        Seq::empty()
    } else {
        let rest = function_imports(imports.drop_last());
        let (m, n, d) = imports.last();
        match d {
            WasmImportDescriptor::Function(t) => rest.push((m, n, t)),
            _ => rest,
        }
    }
}

/// Whether a resolver may give `res` for an import of these names and of this type
pub open spec fn resolves_to<F: Fn(&str, &str, &WasmType) -> ImportResult<usize>>(
    f: F,
    module: Seq<char>,
    name: Seq<char>,
    ty: (Seq<WasmValType>, Seq<WasmValType>),
    res: ImportResult<usize>,
) -> bool {
    exists|a: &str, b: &str, t: &WasmType|
        a@ == module && b@ == name && t.params() == ty.0 && t.results() == ty.1 && #[trigger] f.ensures(
            (a, b, t),
            res,
        )
}

/// Whether a resolver gives a host function whenever it is asked for an import of these names
/// and of this type
pub open spec fn only_finds<F: Fn(&str, &str, &WasmType) -> ImportResult<usize>>(
    f: F,
    module: Seq<char>,
    name: Seq<char>,
    ty: (Seq<WasmValType>, Seq<WasmValType>),
) -> bool {
    forall|a: &str, b: &str, t: &WasmType, res: ImportResult<usize>|
        a@ == module && b@ == name && t.params() == ty.0 && t.results() == ty.1 && #[trigger] f.ensures(
            (a, b, t),
            res,
        ) ==> res is Found
}

/// Whether a resolver gives a host function for every function import of a module with these
/// types and imports
pub open spec fn finds_all<F: Fn(&str, &str, &WasmType) -> ImportResult<usize>>(
    f: F,
    types: Seq<(Seq<WasmValType>, Seq<WasmValType>)>,
    imports: Seq<(Seq<char>, Seq<char>, WasmImportDescriptor)>,
) -> bool {
    let fi = function_imports(imports);
    forall|k: int| 0 <= k < fi.len() ==> #[trigger] only_finds(f, fi[k].0, fi[k].1, types[fi[k].2.0 as int])
}

/// Whether the resolver may give a host function for the `j`-th function import of a module
/// with these types and imports
pub open spec fn found_at<F: Fn(&str, &str, &WasmType) -> ImportResult<usize>>(
    f: F,
    types: Seq<(Seq<WasmValType>, Seq<WasmValType>)>,
    imports: Seq<(Seq<char>, Seq<char>, WasmImportDescriptor)>,
    j: int,
) -> bool {
    let fi = function_imports(imports);
    exists|h: usize| #[trigger] resolves_to(f, fi[j].0, fi[j].1, types[fi[j].2.0 as int], ImportResult::Found(h))
}

/// Whether the resolver may give a host function for each of the first `k` function imports of
/// a module with these types and imports
pub open spec fn found_before<F: Fn(&str, &str, &WasmType) -> ImportResult<usize>>(
    f: F,
    types: Seq<(Seq<WasmValType>, Seq<WasmValType>)>,
    imports: Seq<(Seq<char>, Seq<char>, WasmImportDescriptor)>,
    k: int,
) -> bool {
    forall|j: int| 0 <= j < k ==> #[trigger] found_at(f, types, imports, j)
}

/// Whether the `k`-th function import of a module with these types and imports is the first
/// for which the resolver may answer `res`: it may answer `res` for that import, and it may
/// give a host function for each import before it
pub open spec fn refused_at<F: Fn(&str, &str, &WasmType) -> ImportResult<usize>>(
    f: F,
    types: Seq<(Seq<WasmValType>, Seq<WasmValType>)>,
    imports: Seq<(Seq<char>, Seq<char>, WasmImportDescriptor)>,
    k: int,
    res: ImportResult<usize>,
) -> bool {
    let fi = function_imports(imports);
    &&& 0 <= k < fi.len()
    &&& resolves_to(f, fi[k].0, fi[k].1, types[fi[k].2.0 as int], res)
    &&& found_before(f, types, imports, k)
}

/// Whether `after` is `before` with some functions bound to host functions
pub open spec fn same_but_handles(before: Seq<WasmFunction>, after: Seq<WasmFunction>) -> bool {
    &&& after.len() == before.len()
    &&& forall|k: int|
        0 <= k < before.len() ==> {
            let f = #[trigger] after[k];
            let g = before[k];
            &&& f.spec_is_external() == g.spec_is_external()
            &&& f.spec_index() == g.spec_index()
            &&& f.spec_type_index() == g.spec_type_index()
            &&& f.params() == g.params()
            &&& f.results() == g.results()
            &&& f.body() == g.body()
            &&& f.spec_code_offset() == g.spec_code_offset()
        }
}

/// Whether the function imports of `m` can be bound: the `k`-th one names a type of the
/// module and is the `k`-th function, imported and bound to nothing yet, as a decoded module
/// has them
pub open spec fn bindable(m: WasmModule) -> bool {
    let fi = function_imports(m.imports_view());
    &&& fi.len() <= m.functions_view().len()
    &&& forall|k: int|
        0 <= k < fi.len() ==> fi[k].2.0 < m.types_view().len() && (#[trigger] m.functions_view()[k]).spec_is_external()
            && m.functions_view()[k].body() is None && m.functions_view()[k].handle() is None
}

/// Errors of compiling and instantiating a module
#[derive(Debug)]
pub enum WasmInstantiateError {
    /// The module does not decode
    Compile(CompileError),
    /// An import cannot be bound
    Link(LinkError),
}

impl WasmModule {
    /// Binds the function imports, in order, to the host functions that the resolver gives
    /// for their module name, item name and type; the `i`-th function import binds the
    /// `i`-th function. `NoModule` or `NoMethod` with the name of the first import for which
    /// the resolver says so; `InternalInconsistency` only for a module whose imports are not
    /// `bindable`. A bindable module whose imports the resolver always finds is bound.
    pub fn instantiate<F: Fn(&str, &str, &WasmType) -> ImportResult<usize>>(self, imports_resolver: F) -> (r: Result<
        WasmInstance,
        LinkError,
    >)
        requires
            forall|a: &str, b: &str, t: &WasmType| #[trigger] imports_resolver.requires((a, b, t)),
        ensures
            r matches Ok(inst) ==> {
                let m = inst.spec_module();
                let fi = function_imports(self.imports_view());
                &&& m.agrees_except(&self, set![ModulePart::Functions])
                &&& same_but_handles(self.functions_view(), m.functions_view())
                &&& fi.len() <= m.functions_view().len()
                &&& forall|k: int|
                    0 <= k < fi.len() ==> ((#[trigger] m.functions_view()[k]).handle() matches Some(h)
                        && fi[k].2.0 < self.types_view().len() && resolves_to(
                        imports_resolver,
                        fi[k].0,
                        fi[k].1,
                        self.types_view()[fi[k].2.0 as int],
                        ImportResult::Found(h),
                    ))
                &&& forall|k: int|
                    fi.len() <= k < m.functions_view().len() ==> (#[trigger] m.functions_view()[k])
                        == self.functions_view()[k]
            },
            r matches Err(LinkError::NoModule(mn)) ==> exists|k: int|
                #[trigger] refused_at(imports_resolver, self.types_view(), self.imports_view(), k, ImportResult::NoModule)
                    && function_imports(self.imports_view())[k].0 == mn@,
            r matches Err(LinkError::NoMethod(nm)) ==> exists|k: int|
                #[trigger] refused_at(imports_resolver, self.types_view(), self.imports_view(), k, ImportResult::NoMethod)
                    && function_imports(self.imports_view())[k].1 == nm@,
            bindable(self) && finds_all(imports_resolver, self.types_view(), self.imports_view()) ==> r is Ok,
            r matches Err(LinkError::InternalInconsistency) ==> !bindable(self),
    {
        let ghost m0 = self;
        let ghost iv = self.imports_view();
        let mut module = self;
        let mut func_idx: usize = 0;
        let mut i: usize = 0;
        while i < module.imports.len()
            invariant
                i <= iv.len(),
                m0 == self,
                iv == m0.imports_view(),
                module.imports_view() == iv,
                module.types_view() == m0.types_view(),
                forall|a: &str, b: &str, t: &WasmType| #[trigger] imports_resolver.requires((a, b, t)),
                func_idx == function_imports(iv.take(i as int)).len(),
                module.agrees_except(&m0, set![ModulePart::Functions]),
                same_but_handles(m0.functions_view(), module.functions_view()),
                func_idx <= module.functions_view().len(),
                forall|k: int|
                    0 <= k < func_idx ==> ((#[trigger] module.functions_view()[k]).handle() matches Some(h)
                        && function_imports(iv.take(i as int))[k].2.0 < m0.types_view().len() && resolves_to(
                        imports_resolver,
                        function_imports(iv.take(i as int))[k].0,
                        function_imports(iv.take(i as int))[k].1,
                        m0.types_view()[function_imports(iv.take(i as int))[k].2.0 as int],
                        ImportResult::Found(h),
                    )),
                forall|k: int|
                    func_idx <= k < module.functions_view().len() ==> (#[trigger] module.functions_view()[k])
                        == m0.functions_view()[k],
            decreases iv.len() - i,
        {
            let ghost fi0 = function_imports(iv.take(i as int));
            proof {
                assert(iv.take(i + 1).drop_last() =~= iv.take(i as int));
                assert(iv.take(i + 1).last() == iv[i as int]);
                assert(module.imports_view()[i as int] == (
                    module.imports@[i as int].spec_module_name(),
                    module.imports@[i as int].spec_name(),
                    module.imports@[i as int].spec_desc(),
                ));
            }
            let import = &module.imports[i];
            match import.desc() {
                WasmImportDescriptor::Function(type_index) => {
                    let ti = type_index.as_usize();
                    proof {
                        let fi1 = function_imports(iv.take(i + 1));
                        lemma_function_imports_prefix(iv, i as int + 1);
                        assert(fi1 == fi0.push((iv[i as int].0, iv[i as int].1, type_index)));
                        assert(function_imports(iv)[fi0.len() as int] == fi1[fi0.len() as int]);
                    }
                    if ti >= module.types.len() {
                        proof {
                            let k = fi0.len() as int;
                            if bindable(m0) {
                                assert(m0.functions_view()[k].spec_is_external());
                            }
                        }
                        return Err(LinkError::InternalInconsistency);
                    }
                    let ty = &module.types[ti];
                    let a = import.module_name();
                    let b = import.name();
                    let res = imports_resolver(a, b, ty);
                    proof {
                        assert(module.types_view()[ti as int] == (ty.params(), ty.results()));
                    }
                    match res {
                        ImportResult::Found(handle) => {
                            if func_idx >= module.functions.len() {
                                return Err(LinkError::InternalInconsistency);
                            }
                            let ghost fs = module.functions_view();
                            match module.functions[func_idx].resolve(handle) {
                                Ok(()) => {},
                                Err(e) => return Err(e),
                            }
                            proof {
                                let fi1 = function_imports(iv.take(i + 1));
                                assert(fi1 == fi0.push((iv[i as int].0, iv[i as int].1, type_index)));
                                assert(resolves_to(imports_resolver, fi1[func_idx as int].0, fi1[func_idx as int].1, m0.types_view()[ti as int], ImportResult::Found(handle))) by {
                                    assert(imports_resolver.ensures((a, b, ty), ImportResult::Found(handle)));
                                }
                                assert forall|k: int| 0 <= k < func_idx implies fi1[k] == fi0[k] by {}
                                assert(module.functions_view() =~= fs.update(func_idx as int, module.functions_view()[func_idx as int]));
                            }
                            func_idx = func_idx + 1;
                        },
                        ImportResult::NoModule => {
                            proof {
                                let fi1 = function_imports(iv.take(i + 1));
                                lemma_function_imports_prefix(iv, i as int + 1);
                                assert(imports_resolver.ensures((a, b, ty), ImportResult::NoModule));
                                assert(fi1[fi0.len() as int] == function_imports(iv)[fi0.len() as int]);
                            }
                            proof {
                                let k = fi0.len() as int;
                                let fi1 = function_imports(iv.take(i + 1));
                                assert(fi1 == fi0.push((iv[i as int].0, iv[i as int].1, type_index)));
                                assert(function_imports(iv)[k] == fi1[k]);
                                assert(function_imports(iv)[k].0 == a@);
                                assert(resolves_to(
                                    imports_resolver,
                                    function_imports(iv)[k].0,
                                    function_imports(iv)[k].1,
                                    m0.types_view()[function_imports(iv)[k].2.0 as int],
                                    ImportResult::NoModule,
                                ));
                            }
                            proof {
                                let k = fi0.len() as int;
                                let fi1 = function_imports(iv.take(i + 1));
                                let fi = function_imports(iv);
                                assert forall|j: int| 0 <= j < k implies #[trigger] found_at(imports_resolver, m0.types_view(), iv, j) by {
                                    let h = module.functions_view()[j].handle()->0;
                                    assert(fi1[j] == fi0[j]);
                                    assert(fi[j] == fi1[j]);
                                    assert(resolves_to(
                                        imports_resolver,
                                        fi[j].0,
                                        fi[j].1,
                                        m0.types_view()[fi[j].2.0 as int],
                                        ImportResult::Found(h),
                                    ));
                                }
                                assert(0 <= k < fi.len());
                                assert(resolves_to(imports_resolver, fi[k].0, fi[k].1, m0.types_view()[fi[k].2.0 as int], ImportResult::NoModule));
                                assert(found_before(imports_resolver, m0.types_view(), iv, k));
                                assert(refused_at(imports_resolver, m0.types_view(), iv, k, ImportResult::NoModule));
                                if finds_all(imports_resolver, m0.types_view(), iv) {
                                    assert(only_finds(imports_resolver, fi[k].0, fi[k].1, m0.types_view()[fi[k].2.0 as int]));
                                    assert(imports_resolver.ensures((a, b, ty), ImportResult::NoModule));
                                    assert(false);
                                }
                            }
                            return Err(LinkError::NoModule(a.to_owned()));
                        },
                        ImportResult::NoMethod => {
                            proof {
                                let fi1 = function_imports(iv.take(i + 1));
                                lemma_function_imports_prefix(iv, i as int + 1);
                                assert(imports_resolver.ensures((a, b, ty), ImportResult::NoMethod));
                                assert(fi1[fi0.len() as int] == function_imports(iv)[fi0.len() as int]);
                            }
                            proof {
                                let k = fi0.len() as int;
                                let fi1 = function_imports(iv.take(i + 1));
                                assert(fi1 == fi0.push((iv[i as int].0, iv[i as int].1, type_index)));
                                assert(function_imports(iv)[k] == fi1[k]);
                                assert(function_imports(iv)[k].1 == b@);
                                assert(resolves_to(
                                    imports_resolver,
                                    function_imports(iv)[k].0,
                                    function_imports(iv)[k].1,
                                    m0.types_view()[function_imports(iv)[k].2.0 as int],
                                    ImportResult::NoMethod,
                                ));
                            }
                            proof {
                                let k = fi0.len() as int;
                                let fi1 = function_imports(iv.take(i + 1));
                                let fi = function_imports(iv);
                                assert forall|j: int| 0 <= j < k implies #[trigger] found_at(imports_resolver, m0.types_view(), iv, j) by {
                                    let h = module.functions_view()[j].handle()->0;
                                    assert(fi1[j] == fi0[j]);
                                    assert(fi[j] == fi1[j]);
                                    assert(resolves_to(
                                        imports_resolver,
                                        fi[j].0,
                                        fi[j].1,
                                        m0.types_view()[fi[j].2.0 as int],
                                        ImportResult::Found(h),
                                    ));
                                }
                                assert(0 <= k < fi.len());
                                assert(resolves_to(imports_resolver, fi[k].0, fi[k].1, m0.types_view()[fi[k].2.0 as int], ImportResult::NoMethod));
                                assert(found_before(imports_resolver, m0.types_view(), iv, k));
                                assert(refused_at(imports_resolver, m0.types_view(), iv, k, ImportResult::NoMethod));
                                if finds_all(imports_resolver, m0.types_view(), iv) {
                                    assert(only_finds(imports_resolver, fi[k].0, fi[k].1, m0.types_view()[fi[k].2.0 as int]));
                                    assert(imports_resolver.ensures((a, b, ty), ImportResult::NoMethod));
                                    assert(false);
                                }
                            }
                            return Err(LinkError::NoMethod(b.to_owned()));
                        },
                    }
                },
                WasmImportDescriptor::Memory(_) => {},
            }
            i = i + 1;
        }
        proof {
            assert(iv.take(iv.len() as int) =~= iv);
        }
        Ok(WasmInstance { module })
    }
}

/// The function imports of a prefix are a prefix of those of the whole.
pub proof fn lemma_function_imports_prefix(iv: Seq<(Seq<char>, Seq<char>, WasmImportDescriptor)>, n: int)
    requires
        0 <= n <= iv.len(),
    ensures
        function_imports(iv.take(n)).len() <= function_imports(iv).len(),
        forall|k: int|
            0 <= k < function_imports(iv.take(n)).len() ==> #[trigger] function_imports(iv.take(n))[k]
                == function_imports(iv)[k],
    decreases iv.len() - n,
{
    if n < iv.len() {
        lemma_function_imports_prefix(iv, n + 1);
        assert(iv.take(n + 1).drop_last() =~= iv.take(n));
        let a = function_imports(iv.take(n));
        let b = function_imports(iv.take(n + 1));
        assert(a.len() <= b.len());
        assert forall|k: int| 0 <= k < a.len() implies b[k] == a[k] by {}
    } else {
        assert(iv.take(n) =~= iv);
    }
}

/// An instantiated module
pub struct WasmInstance {
    module: WasmModule,
}

/// The function of the first export of a name that exports a function
pub open spec fn first_function_export(exports: Seq<(Seq<char>, WasmExportDesc)>, name: Seq<char>) -> Option<nat>
    decreases exports.len(),
{
    if exports.len() == 0 {
        None
    } else {
        match first_function_export(exports.drop_last(), name) {
            Some(x) => Some(x),
            None => exported_function(exports.last(), name),
        }
    }
}

impl WasmInstance {
    /// The module
    pub closed spec fn spec_module(&self) -> WasmModule {
        self.module
    }

    /// The module
    pub fn module(&self) -> (r: &WasmModule)
        ensures
            *r == self.spec_module(),
    {
        &self.module
    }

    /// The exports, by name and kind
    pub fn exports(&self) -> (r: Vec<ModuleExport>)
        ensures
            r@.len() == self.spec_module().exports_view().len(),
            forall|i: int|
                0 <= i < r@.len() ==> (#[trigger] r@[i]).name@ == self.spec_module().exports_view()[i].0
                    && r@[i].kind == crate::types::export_kind(self.spec_module().exports_view()[i].1),
    {
        self.module.exports()
    }

    /// The memory of an index
    pub fn memory(&self, index: usize) -> (r: Option<&WasmMemory>)
        ensures
            index < self.spec_module().memories_view().len() ==> (r matches Some(m) && *m
                == self.spec_module().memories_view()[index as int]),
            index >= self.spec_module().memories_view().len() ==> r is None,
    {
        let memories = self.module.memories();
        if index < memories.len() {
            Some(&memories[index])
        } else {
            None
        }
    }

    /// The global that an export of this name gives
    pub fn global(&self, name: &str) -> (r: Result<&WasmGlobal, WasmRuntimeErrorKind>)
        ensures
            r matches Ok(g) ==> exists|i: int|
                0 <= i < self.spec_module().exports_view().len() && (#[trigger] exported_global(
                    self.spec_module().exports_view()[i],
                    name@,
                    self.spec_module().globals_view().len(),
                ) matches Some(x) && *g == self.spec_module().globals_view()[x as int]),
            r is Err ==> r == Err::<&WasmGlobal, WasmRuntimeErrorKind>(WasmRuntimeErrorKind::NoMethod),
            (exists|i: int|
                0 <= i < self.spec_module().exports_view().len() && #[trigger] exported_global(
                    self.spec_module().exports_view()[i],
                    name@,
                    self.spec_module().globals_view().len(),
                ) is Some) ==> r is Ok,
    {
        self.module.global(name)
    }

    /// The names of the name section
    pub fn names(&self) -> (r: Option<&WasmName>)
        ensures
            match r {
                Some(n) => self.spec_module().names_view() == Some(n.state()),
                None => self.spec_module().names_view() is None,
            },
    {
        self.module.names()
    }

    /// The index of the function that the first function export of a name gives, when there is
    /// one and it names a function
    fn function_index(&self, name: &str) -> (r: Option<usize>)
        ensures
            match r {
                Some(i) => first_function_export(self.spec_module().exports_view(), name@) == Some(i as nat) && i
                    < self.spec_module().functions_view().len(),
                None => match first_function_export(self.spec_module().exports_view(), name@) {
                    Some(x) => x >= self.spec_module().functions_view().len(),
                    None => true,
                },
            },
    {
        let ghost ev = self.module.exports_view();
        let mut i: usize = 0;
        while i < self.module.exports.len()
            invariant
                i <= ev.len(),
                ev == self.module.exports_view(),
                first_function_export(ev.take(i as int), name@) is None,
            decreases ev.len() - i,
        {
            let export = &self.module.exports[i];
            proof {
                assert(ev.take(i + 1).drop_last() =~= ev.take(i as int));
                assert(ev[i as int] == (export.spec_name(), export.spec_desc()));
            }
            if let WasmExportDesc::Function(index) = export.desc() {
                if str_equals(export.name(), name) {
                    proof {
                        lemma_first_function_export_prefix(ev, name@, i as int + 1);
                    }
                    if index < self.module.functions.len() {
                        return Some(index);
                    } else {
                        return None;
                    }
                }
            }
            i = i + 1;
        }
        proof {
            assert(ev.take(ev.len() as int) =~= ev);
        }
        None
    }

    /// The function that the first function export of a name gives: `NoMethod` when there is
    /// none or it names no function.
    pub fn function(&self, name: &str) -> (r: Result<WasmRunnable<'_>, WasmRuntimeErrorKind>)
        ensures
            match first_function_export(self.spec_module().exports_view(), name@) {
                Some(x) => if x < self.spec_module().functions_view().len() {
                    r matches Ok(run) && *run.spec_function() == self.spec_module().functions_view()[x as int]
                        && *run.spec_instance() == *self
                } else {
                    r == Err::<WasmRunnable<'_>, WasmRuntimeErrorKind>(WasmRuntimeErrorKind::NoMethod)
                },
                None => r == Err::<WasmRunnable<'_>, WasmRuntimeErrorKind>(WasmRuntimeErrorKind::NoMethod),
            },
    {
        match self.function_index(name) {
            Some(index) => Ok(WasmRunnable { function: &self.module.functions[index], instance: self }),
            None => Err(WasmRuntimeErrorKind::NoMethod),
        }
    }

    /// Runs the function that the first function export of `name` gives with `params` on the
    /// memory and the globals of the instance, which keep what the run writes, calling the
    /// imported functions through `host`, which must give the same for the same handle,
    /// arguments and memory: `NoMethod` when no export of the name gives a function; otherwise
    /// the result is `invoke_result` and the first memory and the globals are left as
    /// `invoke_store` says, unless the allocator refuses the pages that a `memory.grow` asks
    /// for, which gives `OutOfMemory`.
    pub fn invoke<F: Fn(usize, &[WasmValue], &[u8]) -> Result<Option<WasmValue>, WasmRuntimeErrorKind>>(
        &mut self,
        name: &str,
        params: &[WasmValue],
        host: &F,
    ) -> (r: Result<Option<WasmValue>, WasmRuntimeError>)
        requires
            exists|spec: HostResult| host_agrees(*host, spec),
        ensures
            match first_function_export(old(self).spec_module().exports_view(), name@) {
                Some(x) if x < old(self).spec_module().functions_view().len() => invoke_changes(
                    old(self).spec_module(),
                    final(self).spec_module(),
                    x,
                    host_spec(*host),
                    params@,
                    r,
                ),
                _ => r matches Err(err) && is_bare(err, WasmRuntimeErrorKind::NoMethod) && *final(self) == *old(self),
            },
    {
        match self.function_index(name) {
            Some(index) => self.invoke_index(index, params, host, Ghost(host_spec(*host))),
            None => Err(WasmRuntimeError::bare(WasmRuntimeErrorKind::NoMethod)),
        }
    }

    /// Runs the function `index` with `params` on the memory and the globals of the instance,
    /// calling the imported functions through `host`, whose calls give what `spec` says
    fn invoke_index<F: Fn(usize, &[WasmValue], &[u8]) -> Result<Option<WasmValue>, WasmRuntimeErrorKind>>(
        &mut self,
        index: usize,
        params: &[WasmValue],
        host: &F,
        Ghost(spec): Ghost<HostResult>,
    ) -> (r: Result<Option<WasmValue>, WasmRuntimeError>)
        requires
            index < old(self).spec_module().functions_view().len(),
            host_agrees(*host, spec),
        ensures
            invoke_changes(old(self).spec_module(), final(self).spec_module(), index as nat, spec, params@, r),
    {
        let ghost m0 = self.module;
        let function = &self.module.functions[index];
        let body = match function.content() {
            WasmFunctionContent::CodeBlock(b) => b,
            WasmFunctionContent::Dynamic(_) => return Err(WasmRuntimeError::bare(WasmRuntimeErrorKind::InvalidParameter)),
            WasmFunctionContent::Unresolved => return Err(WasmRuntimeError::bare(WasmRuntimeErrorKind::NoMethod)),
        };
        let locals = match call_locals_of(function, body, params) {
            Some(l) => l,
            None => return Err(WasmRuntimeError::bare(WasmRuntimeErrorKind::InvalidParameter)),
        };
        if self.module.memories.len() == 0 {
            return Err(WasmRuntimeError::bare(WasmRuntimeErrorKind::OutOfMemory));
        }
        let mut memories: Vec<WasmMemory> = Vec::new();
        core::mem::swap(&mut memories, &mut self.module.memories);
        let memory = memories.remove(0);
        let mut globals: Vec<WasmGlobal> = Vec::new();
        core::mem::swap(&mut globals, &mut self.module.globals);
        let mut store = WasmStore::new(memory, globals);
        proof {
            assert(store.state() == module_state(m0));
        }
        let mut code_block = WasmCodeBlock::from_slice(body.code());
        let no_elements: Vec<usize> = Vec::new();
        let table = if self.module.tables.len() > 0 {
            self.module.tables[0].table()
        } else {
            no_elements.as_slice()
        };
        let r = run_with_host(
            &mut code_block,
            locals.as_slice(),
            function.result_types(),
            self.module.functions.as_slice(),
            table,
            host,
            Ghost(spec),
            &mut store,
        );
        let (memory, globals) = store.into_parts();
        memories.insert(0, memory);
        core::mem::swap(&mut memories, &mut self.module.memories);
        self.module.globals = globals;
        match r {
            Some(Ok(v)) => Ok(v),
            Some(Err(flt)) => Err(WasmRuntimeError::report(&self.module, self.module.functions[index].index(), flt)),
            None => Err(WasmRuntimeError::bare(WasmRuntimeErrorKind::NotSupported)),
        }
    }
}

/// Once a prefix has a function export of a name, the whole has the same first one.
pub proof fn lemma_first_function_export_prefix(ev: Seq<(Seq<char>, WasmExportDesc)>, name: Seq<char>, n: int)
    requires
        0 <= n <= ev.len(),
        first_function_export(ev.take(n), name) is Some,
    ensures
        first_function_export(ev, name) == first_function_export(ev.take(n), name),
    decreases ev.len() - n,
{
    if n < ev.len() {
        assert(ev.take(n + 1).drop_last() =~= ev.take(n));
        lemma_first_function_export_prefix(ev, name, n + 1);
    } else {
        assert(ev.take(n) =~= ev);
    }
}

/// Whether parameter `i` of a function of these parameter types is missing from `params`
/// or of another type
pub open spec fn param_mismatch(types: Seq<WasmValType>, params: Seq<WasmValue>, i: int) -> bool {
    0 <= i < types.len() && (i >= params.len() || value_type(params[i]) != types[i])
}

/// The locals of a run of function `f` whose body declares `local_types`: the parameters, then
/// zeroed locals
pub open spec fn call_locals(f: WasmFunction, local_types: Seq<WasmValType>, params: Seq<WasmValue>) -> Seq<WasmValue> {
    params.take(f.params().len() as int) + local_types.map_values(|t: WasmValType| crate::value::default_value(t))
}

/// What a function of module `m` may call: its functions, the elements of its first table, and
/// the host functions that `host` gives
pub open spec fn module_env(m: WasmModule, host: HostResult) -> CallEnv {
    call_env(
        m.functions_view(),
        if m.tables_view().len() > 0 {
            m.tables_view()[0].elements()
        } else {
            Seq::empty()
        },
        host,
    )
}

/// The store a function of module `m` runs on: the first memory and the globals
pub open spec fn module_state(m: WasmModule) -> StoreState {
    memory_state(m.memories_view()[0], m.globals_view())
}

/// What invoking function `f` of module `m` with `params` gives: `InvalidParameter` for a host
/// function or parameters that are missing or of the wrong type, `NoMethod` for an unbound
/// import, `OutOfMemory` when the module has no memory; for a body, the run of its instructions
/// with the parameters and then zeroed locals as locals, the functions of the module to call and
/// its first memory and globals to read and write, and `NotSupported` where an instruction
/// cannot run.
pub open spec fn invoke_result(f: WasmFunction, m: WasmModule, host: HostResult, params: Seq<WasmValue>) -> Result<Option<WasmValue>, WasmRuntimeErrorKind> {
    match f.body() {
        None => if f.handle() is Some {
            Err(WasmRuntimeErrorKind::InvalidParameter)
        } else {
            Err(WasmRuntimeErrorKind::NoMethod)
        },
        Some((local_types, code)) => if exists|i: int| #[trigger] param_mismatch(f.params(), params, i) {
            Err(WasmRuntimeErrorKind::InvalidParameter)
        } else if m.memories_view().len() == 0 {
            Err(WasmRuntimeErrorKind::OutOfMemory)
        } else {
            match run_result(module_env(m, host), code, call_locals(f, local_types, params), f.results(), module_state(m)) {
                None => Err(WasmRuntimeErrorKind::NotSupported),
                Some(x) => x,
            }
        },
    }
}

/// The first memory and the globals that invoking function `f` of module `m` with `params`
/// leaves: where the body of `f` runs, the store that its run leaves; otherwise the store of `m`
/// as it was
pub open spec fn invoke_store(f: WasmFunction, m: WasmModule, host: HostResult, params: Seq<WasmValue>) -> StoreState {
    match f.body() {
        Some((local_types, code)) => if !(exists|i: int| #[trigger] param_mismatch(f.params(), params, i))
            && m.memories_view().len() > 0 {
            run_store(module_env(m, host), code, call_locals(f, local_types, params), module_state(m))
        } else {
            module_state(m)
        },
        None => module_state(m),
    }
}

/// The error that invoking function `f` of module `m` with `params` ends with, with the
/// instruction that raised it, when its body runs and fails
pub open spec fn invoke_fault(f: WasmFunction, m: WasmModule, host: HostResult, params: Seq<WasmValue>) -> Option<Fault> {
    match f.body() {
        Some((local_types, code)) => if !(exists|i: int| #[trigger] param_mismatch(f.params(), params, i))
            && m.memories_view().len() > 0 {
            run_fault(module_env(m, host), code, call_locals(f, local_types, params), module_state(m))
        } else {
            None
        },
        None => None,
    }
}

/// Whether `r` is what invoking function `f` of module `m` with `params` gives: the value of
/// `invoke_result`, or its error, reported with the function, the position and the instruction
/// that raised it when an instruction did
pub open spec fn invoke_gives(
    r: Result<Option<WasmValue>, WasmRuntimeError>,
    f: WasmFunction,
    m: WasmModule,
    host: HostResult,
    params: Seq<WasmValue>,
) -> bool {
    match invoke_result(f, m, host, params) {
        Ok(v) => r == Ok::<Option<WasmValue>, WasmRuntimeError>(v),
        Err(k) => r matches Err(err) && match invoke_fault(f, m, host, params) {
            Some(flt) => reports(err, m, f.spec_index(), flt),
            None => is_bare(err, k),
        },
    }
}

/// Whether `r` is the bare `OutOfMemory` that a run gives when the allocator refuses the pages
/// that a `memory.grow` of invoking function `f` of module `m` with `params` asks for
pub open spec fn invoke_refused(
    r: Result<Option<WasmValue>, WasmRuntimeError>,
    f: WasmFunction,
    m: WasmModule,
    host: HostResult,
    params: Seq<WasmValue>,
) -> bool {
    r matches Err(err) && is_bare(err, WasmRuntimeErrorKind::OutOfMemory) && invoke_grows(f, m, host, params)
}

/// What invoking the function `index` of `m0` with `params` gives (`r`) and leaves (`m1`): what
/// `invoke_gives` says with the first memory and the globals as `invoke_store` says, or
/// `OutOfMemory` when the allocator refuses the pages that a `memory.grow` asks for (the
/// memory and the globals are then as the run left them when it stopped); every other part
/// of the module stays as it was.
pub open spec fn invoke_changes(
    m0: WasmModule,
    m1: WasmModule,
    index: nat,
    host: HostResult,
    params: Seq<WasmValue>,
    r: Result<Option<WasmValue>, WasmRuntimeError>,
) -> bool {
    let f = m0.functions_view()[index as int];
    &&& m1.agrees_except(&m0, set![ModulePart::Memories, ModulePart::Globals])
    &&& m1.memories_view().len() == m0.memories_view().len()
    &&& forall|k: int| 1 <= k < m0.memories_view().len() ==> #[trigger] m1.memories_view()[k] == m0.memories_view()[k]
    &&& {
        ||| invoke_gives(r, f, m0, host, params) && (m0.memories_view().len() > 0 ==> module_state(m1)
            == invoke_store(f, m0, host, params)) && (m0.memories_view().len() == 0 ==> m1 == m0)
        ||| invoke_refused(r, f, m0, host, params)
    }
}

/// The locals of a call of `function`, whose body is `body`, with `params`: the parameters,
/// then the zeroed locals of the body; `None` for parameters that are missing or of the wrong
/// type
fn call_locals_of(function: &WasmFunction, body: &FunctionBody, params: &[WasmValue]) -> (r: Option<Vec<WasmValue>>)
    requires
        function.body() == Some((body.spec_local_types(), body.spec_code())),
    ensures
        r is None <==> exists|i: int| #[trigger] param_mismatch(function.params(), params@, i),
        r matches Some(l) ==> l@ == call_locals(*function, body.spec_local_types(), params@),
{
    let param_types = function.param_types();
    let mut locals: Vec<WasmValue> = Vec::new();
    let mut i: usize = 0;
    while i < param_types.len()
        invariant
            i <= param_types@.len(),
            param_types@ == function.params(),
            locals@ == params@.take(i as int),
            forall|k: int| 0 <= k < i ==> !#[trigger] param_mismatch(function.params(), params@, k),
        decreases param_types.len() - i,
    {
        if i >= params.len() {
            proof {
                assert(param_mismatch(function.params(), params@, i as int));
            }
            return None;
        }
        let param = params[i];
        if !param.is_valid_type(param_types[i]) {
            proof {
                assert(param_mismatch(function.params(), params@, i as int));
            }
            return None;
        }
        locals.push(param);
        proof {
            assert(params@.take(i + 1) =~= params@.take(i as int).push(param));
        }
        i = i + 1;
    }
    let local_types = body.local_types();
    let ghost base = locals@;
    let mut j: usize = 0;
    while j < local_types.len()
        invariant
            j <= local_types@.len(),
            locals@ == base + local_types@.take(j as int).map_values(|t: WasmValType| crate::value::default_value(t)),
        decreases local_types.len() - j,
    {
        locals.push(WasmValue::default_for(local_types[j]));
        proof {
            assert(locals@ =~= base + local_types@.take(j + 1).map_values(|t: WasmValType| crate::value::default_value(t)));
        }
        j = j + 1;
    }
    proof {
        assert(local_types@.take(local_types@.len() as int) =~= local_types@);
    }
    Some(locals)
}

/// Whether invoking function `f` of module `m` with `params` runs a `memory.grow` that adds
/// pages: the parameters match, and the run leaves more pages than it found; only then may the
/// allocator refuse them
pub open spec fn invoke_grows(f: WasmFunction, m: WasmModule, host: HostResult, params: Seq<WasmValue>) -> bool {
    match f.body() {
        None => false,
        Some((local_types, code)) => !(exists|i: int| #[trigger] param_mismatch(f.params(), params, i))
            && m.memories_view().len() > 0 && run_store(
            module_env(m, host),
            code,
            call_locals(f, local_types, params),
            module_state(m),
        ).pages > module_state(m).pages,
    }
}



/// A function of an instance, ready to run
pub struct WasmRunnable<'a> {
    function: &'a WasmFunction,
    instance: &'a WasmInstance,
}

impl<'a> WasmRunnable<'a> {
    /// The function
    pub closed spec fn spec_function(&self) -> &'a WasmFunction {
        self.function
    }

    /// The instance
    pub closed spec fn spec_instance(&self) -> &'a WasmInstance {
        self.instance
    }

    /// The function
    pub fn function(&self) -> (r: &WasmFunction)
        ensures
            *r == *self.spec_function(),
    {
        self.function
    }

    /// The instance
    pub fn instance(&self) -> (r: &WasmInstance)
        ensures
            *r == *self.spec_instance(),
    {
        self.instance
    }

    /// Runs the function with `params`, without host functions to call (a call of one gives
    /// `NotSupported`); see `invoke_with`.
    pub fn invoke(&self, params: &[WasmValue]) -> (r: Result<Option<WasmValue>, WasmRuntimeError>)
        ensures
            invoke_gives(r, *self.spec_function(), self.spec_instance().spec_module(), no_host_result(), params@)
                || invoke_refused(r, *self.spec_function(), self.spec_instance().spec_module(), no_host_result(), params@),
    {
        proof {
            crate::wasmrt::lemma_no_host_agrees();
        }
        self.invoke_on(params, &no_host, Ghost(no_host_result()))
    }

    /// Runs the function with `params` on a copy of the memory and the globals of the instance,
    /// calling the imported functions through `host`, which must give the same for the same
    /// handle, arguments and memory; the result is `invoke_result`, unless the allocator refuses
    /// the pages that a `memory.grow` asks for, which gives `OutOfMemory`. The writes of the run
    /// are not kept.
    pub fn invoke_with<F: Fn(usize, &[WasmValue], &[u8]) -> Result<Option<WasmValue>, WasmRuntimeErrorKind>>(
        &self,
        params: &[WasmValue],
        host: &F,
    ) -> (r: Result<Option<WasmValue>, WasmRuntimeError>)
        requires
            exists|spec: HostResult| host_agrees(*host, spec),
        ensures
            invoke_gives(r, *self.spec_function(), self.spec_instance().spec_module(), host_spec(*host), params@)
                || invoke_refused(r, *self.spec_function(), self.spec_instance().spec_module(), host_spec(*host), params@),
    {
        self.invoke_on(params, host, Ghost(host_spec(*host)))
    }

    /// Runs the function with `params`, calling the imported functions through `host`, whose
    /// calls give what `spec` says
    fn invoke_on<F: Fn(usize, &[WasmValue], &[u8]) -> Result<Option<WasmValue>, WasmRuntimeErrorKind>>(
        &self,
        params: &[WasmValue],
        host: &F,
        Ghost(spec): Ghost<HostResult>,
    ) -> (r: Result<Option<WasmValue>, WasmRuntimeError>)
        requires
            host_agrees(*host, spec),
        ensures
            invoke_gives(r, *self.spec_function(), self.spec_instance().spec_module(), spec, params@) || invoke_refused(
                r,
                *self.spec_function(),
                self.spec_instance().spec_module(),
                spec,
                params@,
            ),
    {
        let function = self.function;
        let body = match function.content() {
            WasmFunctionContent::CodeBlock(b) => b,
            WasmFunctionContent::Dynamic(_) => return Err(WasmRuntimeError::bare(WasmRuntimeErrorKind::InvalidParameter)),
            WasmFunctionContent::Unresolved => return Err(WasmRuntimeError::bare(WasmRuntimeErrorKind::NoMethod)),
        };
        let locals = match call_locals_of(function, body, params) {
            Some(l) => l,
            None => return Err(WasmRuntimeError::bare(WasmRuntimeErrorKind::InvalidParameter)),
        };
        let module = &self.instance.module;
        let memories = module.memories();
        if memories.len() == 0 {
            return Err(WasmRuntimeError::bare(WasmRuntimeErrorKind::OutOfMemory));
        }
        let memory = memories[0].duplicate();
        let source = module.globals();
        let mut globals: Vec<WasmGlobal> = Vec::new();
        let mut g: usize = 0;
        while g < source.len()
            invariant
                g <= source@.len(),
                globals@ == source@.take(g as int),
            decreases source.len() - g,
        {
            globals.push(source[g]);
            proof {
                assert(source@.take(g + 1) =~= source@.take(g as int).push(source@[g as int]));
            }
            g = g + 1;
        }
        proof {
            assert(source@.take(source@.len() as int) =~= source@);
        }
        let mut store = WasmStore::new(memory, globals);
        let mut code_block = WasmCodeBlock::from_slice(body.code());
        let no_elements: Vec<usize> = Vec::new();
        let table = if module.tables.len() > 0 {
            module.tables[0].table()
        } else {
            no_elements.as_slice()
        };
        let r = run_with_host(
            &mut code_block,
            locals.as_slice(),
            function.result_types(),
            module.functions(),
            table,
            host,
            Ghost(spec),
            &mut store,
        );
        match r {
            Some(Ok(v)) => Ok(v),
            Some(Err(flt)) => Err(WasmRuntimeError::report(module, function.index(), flt)),
            None => Err(WasmRuntimeError::bare(WasmRuntimeErrorKind::NotSupported)),
        }
    }
}

impl WebAssembly {
    /// Decodes a module: the module that `compile_result` gives, or its error, unless decoding
    /// reaches a memory that starts with pages (`allocates_pages`) and the allocator refuses
    /// them, which gives `OutOfMemory`. A module whose memories start without pages, or that
    /// has none, decodes exactly as `compile_result` says.
    pub fn compile(bytes: &[u8]) -> (r: Result<WasmModule, CompileError>)
        ensures
            ({
                let eff = compile_result(bytes@);
                ||| eff matches Ok(mm) && r matches Ok(m) && module_model(m) == mm
                ||| eff matches Err(e) && r matches Err(ce) && ce.spec_kind() == e
                ||| r matches Err(ce) && ce.spec_kind() == CompileErrorKind::OutOfMemory && is_wasm_binary(bytes@)
                    && (section_list(bytes@.skip(8), Seq::empty()) matches Ok(secs) && allocates_pages(secs))
            }),
            r matches Ok(m) ==> is_wasm_binary(bytes@) && (section_list(bytes@.skip(8), Seq::empty()) matches Ok(secs)
                && sections_ordered(secs) && m.custom_view() == custom_sections_of(secs) && m.names_view() == names_of(
                custom_sections_of(secs),
            )),
    {
        WasmModule::compile(bytes)
    }

    /// Whether a module decodes: only where `compile_result` gives a module, and there unless
    /// decoding reaches a memory that starts with pages and the allocator refuses them
    pub fn validate(bytes: &[u8]) -> (r: bool)
        ensures
            r ==> compile_result(bytes@) is Ok,
            compile_result(bytes@) is Ok && !r ==> (section_list(bytes@.skip(8), Seq::empty()) matches Ok(secs)
                && allocates_pages(secs)),
    {
        WasmModule::compile(bytes).is_ok()
    }

    /// Decodes a module and binds its imports: the module that `compile_result` gives, with
    /// its function imports bound (see `WasmModule::instantiate`). A module that decodes is
    /// bound whenever the resolver finds each of its function imports, so always when it has
    /// none; otherwise the error names the first import that the resolver refused.
    pub fn instantiate<F: Fn(&str, &str, &WasmType) -> ImportResult<usize>>(bytes: &[u8], imports_resolver: F) -> (r: Result<
        WasmInstance,
        WasmInstantiateError,
    >)
        requires
            forall|a: &str, b: &str, t: &WasmType| #[trigger] imports_resolver.requires((a, b, t)),
        ensures
            compile_result(bytes@) is Err ==> r matches Err(WasmInstantiateError::Compile(_)),
            r matches Err(WasmInstantiateError::Compile(ce)) ==> compile_result(bytes@) == Err::<
                ModuleModel,
                CompileErrorKind,
            >(ce.spec_kind()) || (ce.spec_kind() == CompileErrorKind::OutOfMemory && is_wasm_binary(bytes@) && (section_list(
                bytes@.skip(8),
                Seq::empty(),
            ) matches Ok(secs) && allocates_pages(secs))),
            r matches Err(WasmInstantiateError::Link(_)) ==> compile_result(bytes@) is Ok,
            r matches Err(WasmInstantiateError::Link(e)) ==> e != LinkError::InternalInconsistency,
            r matches Err(WasmInstantiateError::Link(LinkError::NoModule(mn))) ==> compile_result(bytes@) matches Ok(mm)
                && exists|k: int|
                #[trigger] refused_at(imports_resolver, mm.types, mm.imports, k, ImportResult::NoModule)
                    && function_imports(mm.imports)[k].0 == mn@,
            r matches Err(WasmInstantiateError::Link(LinkError::NoMethod(nm))) ==> compile_result(bytes@) matches Ok(mm)
                && exists|k: int|
                #[trigger] refused_at(imports_resolver, mm.types, mm.imports, k, ImportResult::NoMethod)
                    && function_imports(mm.imports)[k].1 == nm@,
            compile_result(bytes@) matches Ok(mm) && function_imports(mm.imports).len() == 0 ==> !(r matches Err(
                WasmInstantiateError::Link(_),
            )),
            compile_result(bytes@) matches Ok(mm) && finds_all(imports_resolver, mm.types, mm.imports) ==> !(r matches Err(
                WasmInstantiateError::Link(_),
            )),
            r matches Ok(inst) ==> (compile_result(bytes@) matches Ok(mm) && unbound(module_model(inst.spec_module()))
                == unbound(mm)) && (section_list(bytes@.skip(8), Seq::empty()) matches Ok(secs)
                && inst.spec_module().custom_view() == custom_sections_of(secs) && inst.spec_module().names_view()
                == names_of(custom_sections_of(secs))),
            r matches Ok(inst) ==> (compile_result(bytes@) matches Ok(mm) && forall|k: int|
                0 <= k < function_imports(mm.imports).len() ==> ((#[trigger] module_model(
                    inst.spec_module(),
                ).functions[k]).handle matches Some(h) && resolves_to(
                    imports_resolver,
                    function_imports(mm.imports)[k].0,
                    function_imports(mm.imports)[k].1,
                    mm.types[function_imports(mm.imports)[k].2.0 as int],
                    ImportResult::Found(h),
                ))),
    {
        let module = match WasmModule::compile(bytes) {
            Ok(m) => m,
            Err(e) => return Err(WasmInstantiateError::Compile(e)),
        };
        let ghost m0 = module;
        proof {
            if compile_result(bytes@) is Ok {
                crate::model::lemma_compiled_imports_bindable(bytes@);
                lemma_bindable_model(m0);
            }
        }
        match module.instantiate(imports_resolver) {
            Ok(inst) => {
                proof {
                    lemma_unbound_model(m0, inst.spec_module());
                    let fi = function_imports(m0.imports_view());
                    assert forall|k: int| 0 <= k < fi.len() implies (#[trigger] module_model(
                        inst.spec_module(),
                    ).functions[k]).handle == inst.spec_module().functions_view()[k].handle() by {}
                }
                Ok(inst)
            },
            Err(e) => {
                proof {
                    if compile_result(bytes@) is Ok {
                        crate::model::lemma_compiled_imports_bindable(bytes@);
                        lemma_bindable_model(m0);
                    }
                }
                Err(WasmInstantiateError::Link(e))
            },
        }
    }
}


/// A module whose functions are those of `a` bound to host functions has the model of `a`
/// but for the handles.
proof fn lemma_unbound_model(a: WasmModule, b: WasmModule)
    requires
        b.agrees_except(&a, set![ModulePart::Functions]),
        same_but_handles(a.functions_view(), b.functions_view()),
    ensures
        unbound(module_model(b)) == unbound(module_model(a)),
        b.custom_view() == a.custom_view(),
        b.names_view() == a.names_view(),
{
    lemma_model_except(a, b, set![ModulePart::Functions]);
    assert(unbound(module_model(b)).functions =~= unbound(module_model(a)).functions);
}


/// The parts of the model that a change outside `changed` leaves as they were
proof fn lemma_model_except(a: WasmModule, b: WasmModule, changed: Set<ModulePart>)
    requires
        b.agrees_except(&a, changed),
    ensures
        !changed.contains(ModulePart::Types) ==> module_model(b).types == module_model(a).types,
        !changed.contains(ModulePart::Imports) ==> module_model(b).imports == module_model(a).imports,
        !changed.contains(ModulePart::Functions) ==> module_model(b).functions == module_model(a).functions,
        !changed.contains(ModulePart::Tables) ==> module_model(b).tables == module_model(a).tables,
        !changed.contains(ModulePart::Memories) ==> module_model(b).memories == module_model(a).memories,
        !changed.contains(ModulePart::Globals) ==> module_model(b).globals == module_model(a).globals,
        !changed.contains(ModulePart::Exports) ==> module_model(b).exports == module_model(a).exports,
        !changed.contains(ModulePart::Start) ==> module_model(b).start == module_model(a).start,
        !changed.contains(ModulePart::DataCount) ==> module_model(b).data_count == module_model(a).data_count,
{
}

/// After a "table" section that added tables of the limits `ls`
proof fn lemma_tables_model(a: WasmModule, b: WasmModule, ls: Seq<WasmLimit>)
    requires
        b.agrees_except(&a, set![ModulePart::Tables]),
        b.tables_view().len() == a.tables_view().len() + ls.len(),
        forall|k: int| 0 <= k < a.tables_view().len() ==> b.tables_view()[k] == a.tables_view()[k],
        forall|k: int|
            0 <= k < ls.len() ==> {
                let t = #[trigger] b.tables_view()[a.tables_view().len() + k];
                t.spec_limit() == ls[k] && t.elements() == Seq::new(ls[k].min as nat, |j: int| 0usize)
            },
    ensures
        module_model(b) == (ModuleModel {
            tables: module_model(a).tables + ls.map_values(|l: WasmLimit| (l, Seq::new(l.min as nat, |j: int| 0usize))),
            ..module_model(a)
        }),
{
    lemma_model_except(a, b, set![ModulePart::Tables]);
    let n = a.tables_view().len();
    assert forall|k: int| 0 <= k < module_model(b).tables.len() implies module_model(b).tables[k]
        == (module_model(a).tables + ls.map_values(|l: WasmLimit| (l, Seq::new(l.min as nat, |j: int| 0usize))))[k] by {
        if k >= n {
            assert(b.tables_view()[n + (k - n)] == b.tables_view()[k]);
        }
    }
    assert(module_model(b).tables =~= module_model(a).tables + ls.map_values(|l: WasmLimit| (l, Seq::new(l.min as nat, |j: int| 0usize))));
}

/// After a "global" section that added the globals `gs`
proof fn lemma_globals_model(a: WasmModule, b: WasmModule, gs: Seq<(WasmValue, bool)>)
    requires
        b.agrees_except(&a, set![ModulePart::Globals]),
        b.globals_view().len() == a.globals_view().len() + gs.len(),
        forall|k: int| 0 <= k < a.globals_view().len() ==> b.globals_view()[k] == a.globals_view()[k],
        forall|k: int|
            0 <= k < gs.len() ==> {
                let g = #[trigger] b.globals_view()[a.globals_view().len() + k];
                g.spec_value() == gs[k].0 && g.spec_is_mutable() == gs[k].1
            },
    ensures
        module_model(b) == (ModuleModel { globals: module_model(a).globals + gs, ..module_model(a) }),
{
    lemma_model_except(a, b, set![ModulePart::Globals]);
    let n = a.globals_view().len();
    assert forall|k: int| 0 <= k < module_model(b).globals.len() implies module_model(b).globals[k]
        == (module_model(a).globals + gs)[k] by {
        if k >= n {
            assert(b.globals_view()[n + (k - n)] == b.globals_view()[k]);
        }
    }
    assert(module_model(b).globals =~= module_model(a).globals + gs);
}

/// After an "element" section whose segments are `items`
proof fn lemma_elems_model(a: WasmModule, b: WasmModule, items: Seq<(nat, usize, Seq<nat>)>)
    requires
        b.agrees_except(&a, set![ModulePart::Tables]),
        b.tables_view().len() == a.tables_view().len(),
        forall|k: int|
            0 <= k < a.tables_view().len() ==> (#[trigger] b.tables_view()[k]).spec_limit() == a.tables_view()[k].spec_limit(),
        table_elements(b.tables_view()) == apply_elems(table_elements(a.tables_view()), items),
    ensures
        ({
            let m = module_model(a);
            let elems = apply_elems(m.tables.map_values(|t: (WasmLimit, Seq<usize>)| t.1), items);
            module_model(b) == (ModuleModel { tables: Seq::new(m.tables.len(), |i: int| (m.tables[i].0, elems[i])), ..m })
        }),
{
    lemma_model_except(a, b, set![ModulePart::Tables]);
    let m = module_model(a);
    assert(m.tables.map_values(|t: (WasmLimit, Seq<usize>)| t.1) =~= table_elements(a.tables_view()));
    let elems = apply_elems(m.tables.map_values(|t: (WasmLimit, Seq<usize>)| t.1), items);
    assert forall|i: int| 0 <= i < m.tables.len() implies module_model(b).tables[i] == (m.tables[i].0, elems[i]) by {
        assert(table_elements(b.tables_view())[i] == b.tables_view()[i].elements());
    }
    assert(module_model(b).tables =~= Seq::new(m.tables.len(), |i: int| (m.tables[i].0, elems[i])));
}

/// After a "data" section whose segments are `items`
proof fn lemma_data_model(a: WasmModule, b: WasmModule, items: Seq<(nat, usize, Seq<u8>)>)
    requires
        b.agrees_except(&a, set![ModulePart::Memories]),
        b.memories_view().len() == a.memories_view().len(),
        forall|k: int|
            0 <= k < a.memories_view().len() ==> (#[trigger] b.memories_view()[k]).pages() == a.memories_view()[k].pages()
                && b.memories_view()[k].max_pages() == a.memories_view()[k].max_pages(),
        memory_bytes(b.memories_view()) == apply_data(memory_bytes(a.memories_view()), items),
    ensures
        ({
            let m = module_model(a);
            let bytes = apply_data(m.memories.map_values(|x: MemModel| x.bytes), items);
            module_model(b) == (ModuleModel {
                memories: Seq::new(m.memories.len(), |i: int| MemModel { bytes: bytes[i], ..m.memories[i] }),
                ..m
            })
        }),
{
    lemma_model_except(a, b, set![ModulePart::Memories]);
    let m = module_model(a);
    assert(m.memories.map_values(|x: MemModel| x.bytes) =~= memory_bytes(a.memories_view()));
    let bytes = apply_data(m.memories.map_values(|x: MemModel| x.bytes), items);
    assert forall|i: int| 0 <= i < m.memories.len() implies module_model(b).memories[i] == (MemModel {
        bytes: bytes[i],
        ..m.memories[i]
    }) by {
        assert(memory_bytes(b.memories_view())[i] == b.memories_view()[i].bytes());
    }
    assert(module_model(b).memories =~= Seq::new(m.memories.len(), |i: int| MemModel { bytes: bytes[i], ..m.memories[i] }));
}

/// The sizes of the memories, read from the model
proof fn lemma_memory_lens_model(a: WasmModule)
    ensures
        module_model(a).memories.map_values(|x: MemModel| x.bytes.len()) == memory_lens(a.memories_view()),
{
    assert(module_model(a).memories.map_values(|x: MemModel| x.bytes.len()) =~= memory_lens(a.memories_view()));
}

/// The first function of the module without a body, read from the model
proof fn lemma_first_open(fs: Seq<WasmFunction>, i: nat)
    ensures
        first_unresolved(fs, i) == first_open(fs.map_values(|f: WasmFunction| func_model(f)), i),
    decreases fs.len() - i,
{
    if i < fs.len() {
        lemma_first_open(fs, i + 1);
    }
}

/// What the check of a body knows, read from the model
proof fn lemma_model_context(m: WasmModule, locals: Seq<WasmValType>, results: Seq<WasmValType>)
    ensures
        code_context(m, locals, results) == model_context(module_model(m), locals, results),
{
    let a = code_context(m, locals, results);
    let b = model_context(module_model(m), locals, results);
    assert(a.funcs =~= b.funcs);
    assert forall|i: int| 0 <= i < a.globals.len() implies a.globals[i] == b.globals[i] by {
        let g = m.globals_view()[i];
        assert(value_type(g.spec_value()) == g.spec_val_type());
    }
    assert(a.globals =~= b.globals);
}

/// The sections read so far come first in the list of all sections.
proof fn lemma_section_list_prefix(s: Seq<u8>, acc: Seq<(WasmSectionId, Seq<u8>)>)
    ensures
        section_list(s, acc) matches Ok(x) ==> acc.len() <= x.len() && acc == x.take(acc.len() as int),
    decreases s.len(),
{
    match decode_section(s) {
        Ok(Some((id, content, n))) => if 0 < n <= s.len() {
            lemma_section_list_prefix(s.skip(n as int), acc.push((id, content)));
            if let Ok(x) = section_list(s, acc) {
                assert(acc =~= x.take(acc.len() as int)) by {
                    assert(acc.push((id, content)) == x.take(acc.len() as int + 1));
                    assert forall|k: int| 0 <= k < acc.len() implies acc[k] == x[k] by {
                        assert(acc.push((id, content))[k] == x.take(acc.len() as int + 1)[k]);
                    }
                }
            }
        } else {
            if let Ok(x) = section_list(s, acc) {
                assert(acc =~= x.take(acc.len() as int));
            }
        },
        Ok(None) => {
            if let Ok(x) = section_list(s, acc) {
                assert(acc =~= x.take(acc.len() as int));
            }
        },
        Err(_) => {},
    }
}

/// A section of a rank no lower than those before it, or a custom one, keeps the sections in
/// order.
proof fn lemma_ordered_push(processed: Seq<(WasmSectionId, Seq<u8>)>, item: (WasmSectionId, Seq<u8>), last_rank: nat)
    requires
        sections_ordered(processed),
        forall|k: int|
            0 <= k < processed.len() && (#[trigger] processed[k]).0 != WasmSectionId::Custom ==> section_rank(processed[k].0)
                <= last_rank,
        item.0 != WasmSectionId::Custom ==> last_rank <= section_rank(item.0),
    ensures
        sections_ordered(processed.push(item)),
{
    let p2 = processed.push(item);
    assert forall|i: int, j: int|
        0 <= i < j < p2.len() && p2[i].0 != WasmSectionId::Custom && p2[j].0 != WasmSectionId::Custom implies section_rank(
        p2[i].0,
    ) <= section_rank(p2[j].0) by {
        if j < processed.len() {
            assert(p2[i] == processed[i] && p2[j] == processed[j]);
        } else {
            assert(p2[i] == processed[i]);
        }
    }
}


/// Whether the imports of a module can be bound, read from the model
proof fn lemma_bindable_model(m: WasmModule)
    ensures
        bindable(m) == crate::model::imports_bindable(module_model(m)),
{
    let fi = function_imports(m.imports_view());
    if crate::model::imports_bindable(module_model(m)) {
        assert forall|k: int| 0 <= k < fi.len() implies fi[k].2.0 < m.types_view().len() && (#[trigger] m.functions_view()[k]).spec_is_external()
            && m.functions_view()[k].body() is None && m.functions_view()[k].handle() is None by {
            assert(module_model(m).functions[k] == func_model(m.functions_view()[k]));
        }
    }
    if bindable(m) {
        let mm = module_model(m);
        assert forall|k: int| 0 <= k < fi.len() implies fi[k].2.0 < mm.types.len() && (#[trigger] mm.functions[k]).external
            && mm.functions[k].body is None && mm.functions[k].handle is None by {
            assert(m.functions_view()[k].spec_is_external());
        }
    }
}

} // verus!
