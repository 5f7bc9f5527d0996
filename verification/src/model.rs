//! What a module holds, as plain values, and what each section makes of it
use crate::cg::{check_body, CodeContext};
use crate::error::{read_error_kind, CompileErrorKind};
use crate::leb128::decode_u32;
use crate::memory::{page_size, zeros, WasmMemory};
use crate::module::{
    apply_data, apply_elems, decode_code, decode_vec, elem_item, export_item, function_imports, global_item, import_item,
    limit_item, section_list, table_item, type_item, u32_item, WasmFunction, WasmModule,
};
use crate::types::{WasmExportDesc, WasmImportDescriptor};
use crate::value::{value_type, WasmValue};
use crate::wasm::{is_wasm_binary, section_rank, WasmLimit, WasmSectionId, WasmTypeIndex, WasmValType};
use vstd::prelude::*;

verus! {

/// A function: whether it is imported, its index, its type (by index and as parameter and
/// result types), its body (local types and instructions) if it has one, and the handle of
/// the host function that it is bound to, if any
pub struct FuncModel {
    pub external: bool,
    pub index: nat,
    pub type_index: WasmTypeIndex,
    pub params: Seq<WasmValType>,
    pub results: Seq<WasmValType>,
    pub body: Option<(Seq<WasmValType>, Seq<u8>)>,
    /// Where the instructions of the body start, after its local declarations
    pub code_offset: usize,
    pub handle: Option<usize>,
}

/// A memory: its pages, the number of pages it may grow to, its bytes
pub struct MemModel {
    pub pages: nat,
    pub max_pages: nat,
    pub bytes: Seq<u8>,
}

/// What a module holds, apart from its custom sections
pub struct ModuleModel {
    pub types: Seq<(Seq<WasmValType>, Seq<WasmValType>)>,
    pub imports: Seq<(Seq<char>, Seq<char>, WasmImportDescriptor)>,
    pub functions: Seq<FuncModel>,
    /// Each table: its limit and its elements
    pub tables: Seq<(WasmLimit, Seq<usize>)>,
    pub memories: Seq<MemModel>,
    /// Each global: its value and whether it may be written
    pub globals: Seq<(WasmValue, bool)>,
    pub exports: Seq<(Seq<char>, WasmExportDesc)>,
    pub start: Option<usize>,
    pub data_count: Option<usize>,
}

/// A function of a module as plain values
pub open spec fn func_model(f: WasmFunction) -> FuncModel {
    FuncModel {
        external: f.spec_is_external(),
        index: f.spec_index(),
        type_index: f.spec_type_index(),
        params: f.params(),
        results: f.results(),
        body: f.body(),
        code_offset: f.spec_code_offset(),
        handle: f.handle(),
    }
}

/// A memory as plain values
pub open spec fn mem_model(m: WasmMemory) -> MemModel {
    MemModel { pages: m.pages(), max_pages: m.max_pages(), bytes: m.bytes() }
}

/// What the module `m` holds, apart from its custom sections
pub open spec fn module_model(m: WasmModule) -> ModuleModel {
    ModuleModel {
        types: m.types_view(),
        imports: m.imports_view(),
        functions: m.functions_view().map_values(|f: WasmFunction| func_model(f)),
        tables: m.tables_view().map_values(|t: crate::wasm::WasmTable| (t.spec_limit(), t.elements())),
        memories: m.memories_view().map_values(|x: WasmMemory| mem_model(x)),
        globals: m.globals_view().map_values(|g: crate::global::WasmGlobal| (g.spec_value(), g.spec_is_mutable())),
        exports: m.exports_view(),
        start: m.spec_start(),
        data_count: m.spec_data_count(),
    }
}

/// A module with nothing in it
pub open spec fn empty_model() -> ModuleModel {
    ModuleModel {
        types: Seq::empty(),
        imports: Seq::empty(),
        functions: Seq::empty(),
        tables: Seq::empty(),
        memories: Seq::empty(),
        globals: Seq::empty(),
        exports: Seq::empty(),
        start: None,
        data_count: None,
    }
}

/// `count` items decoded one after another with `dec`, each added to the module by `step` as
/// soon as it is decoded (the first item as the `k`-th): the first error, of a decoding or of
/// an addition, or the module they make
pub open spec fn add_items<T>(
    m: ModuleModel,
    s: Seq<u8>,
    count: nat,
    k: nat,
    dec: spec_fn(Seq<u8>) -> Result<(T, nat), CompileErrorKind>,
    step: spec_fn(ModuleModel, nat, T) -> Result<ModuleModel, CompileErrorKind>,
) -> Result<ModuleModel, CompileErrorKind>
    decreases count,
{
    if count == 0 {
        Ok(m)
    } else {
        match dec(s) {
            Err(e) => Err(e),
            Ok((t, n)) => match step(m, k, t) {
                Err(e) => Err(e),
                Ok(m2) => add_items(m2, s.skip(n as int), (count - 1) as nat, k + 1, dec, step),
            },
        }
    }
}

/// A vector of items, each added to the module as it is decoded: a 32-bit count, then the
/// items
pub open spec fn add_vec<T>(
    m: ModuleModel,
    s: Seq<u8>,
    dec: spec_fn(Seq<u8>) -> Result<(T, nat), CompileErrorKind>,
    step: spec_fn(ModuleModel, nat, T) -> Result<ModuleModel, CompileErrorKind>,
) -> Result<ModuleModel, CompileErrorKind> {
    match decode_u32(s) {
        Err(e) => Err(read_error_kind(e)),
        Ok((count, n)) => add_items(m, s.skip(n as int), count, 0, dec, step),
    }
}

/// Whether a memory of `limit` may be made: its minimum is at most the pages it may grow to,
/// unless it allows no page at all
pub open spec fn memory_fits(limit: WasmLimit) -> bool {
    limit.spec_is_zero() || limit.min <= WasmMemory::page_limit(limit)
}

/// A new memory of `limit`: `limit.min` zeroed pages, none when the limit allows none
pub open spec fn memory_model(limit: WasmLimit) -> MemModel {
    let pages = if limit.spec_is_zero() {
        0
    } else {
        limit.min as nat
    };
    MemModel { pages, max_pages: WasmMemory::page_limit(limit), bytes: zeros(pages * page_size()) }
}

/// An import: a function import makes an unbound function of its type (`InvalidType` for a
/// type that does not exist), a memory import makes a new memory (`OutOfMemory` when it does
/// not fit its limit)
pub open spec fn add_import() -> spec_fn(ModuleModel, nat, (Seq<char>, Seq<char>, WasmImportDescriptor)) -> Result<ModuleModel, CompileErrorKind> {
    |m: ModuleModel, k: nat, item: (Seq<char>, Seq<char>, WasmImportDescriptor)|
        match item.2 {
            WasmImportDescriptor::Function(t) => if t.0 >= m.types.len() {
                Err(CompileErrorKind::InvalidType(t))
            } else {
                Ok(
                    ModuleModel {
                        imports: m.imports.push(item),
                        functions: m.functions.push(
                            FuncModel {
                                external: true,
                                index: m.functions.len(),
                                type_index: t,
                                params: m.types[t.0 as int].0,
                                results: m.types[t.0 as int].1,
                                body: None,
                                code_offset: 0,
                                handle: None,
                            },
                        ),
                        ..m
                    },
                )
            },
            WasmImportDescriptor::Memory(l) => if !memory_fits(l) {
                Err(CompileErrorKind::OutOfMemory)
            } else {
                Ok(ModuleModel { imports: m.imports.push(item), memories: m.memories.push(memory_model(l)), ..m })
            },
        }
}

/// The `k`-th type index of a function section: a function of the module of that type, whose
/// index counts the imports before it; `InvalidType` for a type that does not exist
pub open spec fn add_function() -> spec_fn(ModuleModel, nat, nat) -> Result<ModuleModel, CompileErrorKind> {
    |m: ModuleModel, k: nat, idx: nat|
        if idx >= m.types.len() {
            Err(CompileErrorKind::InvalidType(WasmTypeIndex(idx as u32)))
        } else if m.imports.len() + k > usize::MAX {
            Err(CompileErrorKind::InternalInconsistency)
        } else {
            Ok(
                ModuleModel {
                    functions: m.functions.push(
                        FuncModel {
                            external: false,
                            index: m.imports.len() + k,
                            type_index: WasmTypeIndex(idx as u32),
                            params: m.types[idx as int].0,
                            results: m.types[idx as int].1,
                            body: None,
                            code_offset: 0,
                            handle: None,
                        },
                    ),
                    ..m
                },
            )
        }
}

/// A limit of a memory section: a new memory (`OutOfMemory` when it does not fit its limit)
pub open spec fn add_memory() -> spec_fn(ModuleModel, nat, WasmLimit) -> Result<ModuleModel, CompileErrorKind> {
    |m: ModuleModel, k: nat, l: WasmLimit|
        if !memory_fits(l) {
            Err(CompileErrorKind::OutOfMemory)
        } else {
            Ok(ModuleModel { memories: m.memories.push(memory_model(l)), ..m })
        }
}

/// What the check of a body of a function of `m` with `locals` and `results` knows
pub open spec fn model_context(m: ModuleModel, locals: Seq<WasmValType>, results: Seq<WasmValType>) -> CodeContext {
    CodeContext {
        locals,
        results,
        funcs: m.functions.map_values(|f: FuncModel| (f.params, f.results)),
        types: m.types,
        globals: m.globals.map_values(|g: (WasmValue, bool)| (value_type(g.0), g.1)),
        memories: m.memories.len(),
        has_memory: m.memories.len() > 0 && m.memories[0].pages > 0,
    }
}

/// The first function from `i` on that is of the module and has no body yet
pub open spec fn first_open(fs: Seq<FuncModel>, i: nat) -> Option<nat>
    decreases fs.len() - i,
{
    if i >= fs.len() {
        None
    } else if !fs[i as int].external && fs[i as int].body is None && fs[i as int].handle is None {
        Some(i)
    } else {
        first_open(fs, i + 1)
    }
}

/// The body at the start of `s` for the function `at`: a decoding error, the error of the
/// check of the body against the function, `OutOfFunction` for an imported function,
/// `InternalInconsistency` for one that has a body already; otherwise the module with the body
/// given to the function, and the number of bytes the body takes
pub open spec fn body_step(m: ModuleModel, s: Seq<u8>, at: nat) -> Result<(ModuleModel, nat), CompileErrorKind> {
    match decode_code(s) {
        Err(e) => Err(e),
        Ok((item, n)) => {
            let f = m.functions[at as int];
            match check_body(item.1, model_context(m, f.params + item.0, f.results)) {
                Err(e) => Err(e),
                Ok(_) => if f.external {
                    Err(CompileErrorKind::OutOfFunction)
                } else if f.body is Some || f.handle is Some {
                    Err(CompileErrorKind::InternalInconsistency)
                } else {
                    Ok(
                        (
                            ModuleModel {
                                functions: m.functions.update(
                                    at as int,
                                    FuncModel { body: Some(item), code_offset: decls_len(s), ..f },
                                ),
                                ..m
                            },
                            n,
                        ),
                    )
                },
            }
        },
    }
}

/// The number of bytes of the local declarations of the body at the start of `s`: its size
/// less that of its instructions
pub open spec fn decls_len(s: Seq<u8>) -> usize {
    match (decode_u32(s), decode_code(s)) {
        (Ok((len, _)), Ok((item, _))) => if item.1.len() <= len {
            (len - item.1.len()) as usize
        } else {
            0
        },
        _ => 0,
    }
}

/// `count` bodies, the first one for the function `at`: `OutOfFunction` where no function is
/// left, or the first error of a body, or the module with the bodies given to the functions
/// one after another
pub open spec fn add_bodies(m: ModuleModel, s: Seq<u8>, count: nat, at: nat) -> Result<ModuleModel, CompileErrorKind>
    decreases count,
{
    if count == 0 {
        Ok(m)
    } else if at > usize::MAX || at >= m.functions.len() {
        Err(CompileErrorKind::OutOfFunction)
    } else {
        match body_step(m, s, at) {
            Err(e) => Err(e),
            Ok((m2, n)) => add_bodies(m2, s.skip(n as int), (count - 1) as nat, at + 1),
        }
    }
}

/// A code section: the bodies, in order, for the functions from the first one of the module
/// that has none; `OutOfFunction` when there is no such function
pub open spec fn add_code(m: ModuleModel, s: Seq<u8>) -> Result<ModuleModel, CompileErrorKind> {
    match first_open(m.functions, 0) {
        None => Err(CompileErrorKind::OutOfFunction),
        Some(base) => match decode_u32(s) {
            Err(e) => Err(read_error_kind(e)),
            Ok((count, n)) => add_bodies(m, s.skip(n as int), count, base),
        },
    }
}

/// What the section `id` with `content` makes of the module `m`
#[verifier::opaque]
pub open spec fn section_effect(m: ModuleModel, id: WasmSectionId, content: Seq<u8>) -> Result<ModuleModel, CompileErrorKind> {
    match id {
        WasmSectionId::Custom => Ok(m),
        WasmSectionId::Type => match decode_vec(content, type_item()) {
            Ok(ts) => Ok(ModuleModel { types: m.types + ts, ..m }),
            Err(e) => Err(e),
        },
        WasmSectionId::Import => add_vec(m, content, import_item(), add_import()),
        WasmSectionId::Function => add_vec(m, content, u32_item(), add_function()),
        WasmSectionId::Table => match decode_vec(content, table_item()) {
            Ok(ls) => Ok(
                ModuleModel {
                    tables: m.tables + ls.map_values(|l: WasmLimit| (l, Seq::new(l.min as nat, |j: int| 0usize))),
                    ..m
                },
            ),
            Err(e) => Err(e),
        },
        WasmSectionId::Memory => add_vec(m, content, limit_item(), add_memory()),
        WasmSectionId::Global => match decode_vec(content, global_item()) {
            Ok(gs) => Ok(ModuleModel { globals: m.globals + gs, ..m }),
            Err(e) => Err(e),
        },
        WasmSectionId::Export => match decode_vec(content, export_item(m.globals.len())) {
            Ok(xs) => Ok(ModuleModel { exports: m.exports + xs, ..m }),
            Err(e) => Err(e),
        },
        WasmSectionId::Start => match decode_u32(content) {
            Ok((v, _)) => Ok(ModuleModel { start: Some(v as usize), ..m }),
            Err(e) => Err(read_error_kind(e)),
        },
        WasmSectionId::Element => match decode_vec(content, elem_item(m.tables.len())) {
            Ok(items) => {
                let elems = apply_elems(m.tables.map_values(|t: (WasmLimit, Seq<usize>)| t.1), items);
                Ok(ModuleModel { tables: Seq::new(m.tables.len(), |i: int| (m.tables[i].0, elems[i])), ..m })
            },
            Err(e) => Err(e),
        },
        WasmSectionId::Code => add_code(m, content),
        WasmSectionId::Data => match decode_vec(content, crate::module::data_item(m.memories.map_values(|x: MemModel| x.bytes.len()))) {
            Ok(items) => {
                let bytes = apply_data(m.memories.map_values(|x: MemModel| x.bytes), items);
                Ok(
                    ModuleModel {
                        memories: Seq::new(
                            m.memories.len(),
                            |i: int| MemModel { bytes: bytes[i], ..m.memories[i] },
                        ),
                        ..m
                    },
                )
            },
            Err(e) => Err(e),
        },
        WasmSectionId::DataCount => match decode_u32(content) {
            Ok((v, _)) => Ok(ModuleModel { data_count: Some(v as usize), ..m }),
            Err(e) => Err(read_error_kind(e)),
        },
    }
}

/// The sections of `secs` from the `i`-th on, read into `m` one after another:
/// `InvalidSectionOrder` for a section other than a custom one of a lower rank than
/// `last_rank`, the rank of the last such section before it; otherwise the first error of a
/// section, or the module they make
pub open spec fn read_sections(m: ModuleModel, secs: Seq<(WasmSectionId, Seq<u8>)>, i: nat, last_rank: nat) -> Result<
    ModuleModel,
    CompileErrorKind,
>
    decreases secs.len() - i,
{
    if i >= secs.len() {
        Ok(m)
    } else {
        let (id, content) = secs[i as int];
        if id != WasmSectionId::Custom && last_rank > section_rank(id) {
            Err(CompileErrorKind::InvalidSectionOrder(id))
        } else {
            match section_effect(m, id, content) {
                Err(e) => Err(e),
                Ok(m2) => read_sections(
                    m2,
                    secs,
                    i + 1,
                    if id != WasmSectionId::Custom {
                        section_rank(id)
                    } else {
                        last_rank
                    },
                ),
            }
        }
    }
}

/// What decoding `bytes` gives: `BadExecutable` without the header, the first framing error
/// of a section, or the sections read one after another
pub open spec fn compile_result(bytes: Seq<u8>) -> Result<ModuleModel, CompileErrorKind> {
    if !is_wasm_binary(bytes) {
        Err(CompileErrorKind::BadExecutable)
    } else {
        match section_list(bytes.skip(8), Seq::empty()) {
            Err(k) => Err(k),
            Ok(secs) => read_sections(empty_model(), secs, 0, 0),
        }
    }
}

/// The module `m` with no function bound to a host function
pub open spec fn unbound(m: ModuleModel) -> ModuleModel {
    ModuleModel { functions: m.functions.map_values(|f: FuncModel| FuncModel { handle: None, ..f }), ..m }
}

/// Whether a memory of `limit` takes pages from the allocator when it is made: it allows
/// pages and starts with some
pub open spec fn limit_allocates(limit: WasmLimit) -> bool {
    !limit.spec_is_zero() && limit.min > 0
}

/// Whether an import makes a memory that takes pages from the allocator
pub open spec fn import_allocates() -> spec_fn((Seq<char>, Seq<char>, WasmImportDescriptor)) -> bool {
    |item: (Seq<char>, Seq<char>, WasmImportDescriptor)| item.2 matches WasmImportDescriptor::Memory(l) && limit_allocates(l)
}

/// Whether a memory entry takes pages from the allocator
pub open spec fn entry_allocates() -> spec_fn(WasmLimit) -> bool {
    |l: WasmLimit| limit_allocates(l)
}

/// Whether adding `count` items decoded from `s`, the first being the `k`-th, reaches an item
/// that takes pages from the allocator, every item before it being added
pub open spec fn items_allocate<T>(
    m: ModuleModel,
    s: Seq<u8>,
    count: nat,
    k: nat,
    dec: spec_fn(Seq<u8>) -> Result<(T, nat), CompileErrorKind>,
    step: spec_fn(ModuleModel, nat, T) -> Result<ModuleModel, CompileErrorKind>,
    allocs: spec_fn(T) -> bool,
) -> bool
    decreases count,
{
    if count == 0 {
        false
    } else {
        match dec(s) {
            Err(_) => false,
            Ok((t, n)) => match step(m, k, t) {
                Err(_) => false,
                Ok(m2) => allocs(t) || items_allocate(m2, s.skip(n as int), (count - 1) as nat, k + 1, dec, step, allocs),
            },
        }
    }
}

/// Whether adding a vector of items reaches an item that takes pages from the allocator
pub open spec fn vec_allocates<T>(
    m: ModuleModel,
    s: Seq<u8>,
    dec: spec_fn(Seq<u8>) -> Result<(T, nat), CompileErrorKind>,
    step: spec_fn(ModuleModel, nat, T) -> Result<ModuleModel, CompileErrorKind>,
    allocs: spec_fn(T) -> bool,
) -> bool {
    match decode_u32(s) {
        Err(_) => false,
        Ok((count, n)) => items_allocate(m, s.skip(n as int), count, 0, dec, step, allocs),
    }
}

/// Whether reading a section into `m` reaches a memory that takes pages from the allocator
pub open spec fn section_allocates(m: ModuleModel, id: WasmSectionId, content: Seq<u8>) -> bool {
    match id {
        WasmSectionId::Import => vec_allocates(m, content, import_item(), add_import(), import_allocates()),
        WasmSectionId::Memory => vec_allocates(m, content, limit_item(), add_memory(), entry_allocates()),
        _ => false,
    }
}

/// Whether reading `secs` from the `i`-th on, after sections of rank up to `last_rank`,
/// reaches a memory that takes pages from the allocator, every section and item before it
/// being read
pub open spec fn sections_allocate(m: ModuleModel, secs: Seq<(WasmSectionId, Seq<u8>)>, i: nat, last_rank: nat) -> bool
    decreases secs.len() - i,
{
    if i >= secs.len() {
        false
    } else {
        let (id, content) = secs[i as int];
        if id != WasmSectionId::Custom && last_rank > section_rank(id) {
            false
        } else if section_allocates(m, id, content) {
            true
        } else {
            match section_effect(m, id, content) {
                Err(_) => false,
                Ok(m2) => sections_allocate(
                    m2,
                    secs,
                    i + 1,
                    if id != WasmSectionId::Custom {
                        section_rank(id)
                    } else {
                        last_rank
                    },
                ),
            }
        }
    }
}

/// Whether decoding the sections `secs` reaches a memory that takes pages from the allocator,
/// which may refuse them: only then may decoding fail with `OutOfMemory` where the model does not
pub open spec fn allocates_pages(secs: Seq<(WasmSectionId, Seq<u8>)>) -> bool {
    sections_allocate(empty_model(), secs, 0, 0)
}

/// Whether no function of `m` has a body
pub open spec fn no_bodies(m: ModuleModel) -> bool {
    forall|i: int| 0 <= i < m.functions.len() ==> (#[trigger] m.functions[i]).body is None
}

/// Whether every function of `m` that has a body passes the check of that body against `m`
pub open spec fn bodies_check(m: ModuleModel) -> bool {
    forall|i: int|
        0 <= i < m.functions.len() && (#[trigger] m.functions[i]).body is Some ==> check_body(
            m.functions[i].body.unwrap().1,
            model_context(m, m.functions[i].params + m.functions[i].body.unwrap().0, m.functions[i].results),
        ) is Ok
}

/// Every body of a module that decodes passes the check against that module: its operands,
/// blocks, branches, calls, globals and memory accesses agree with the types of the module.
pub proof fn lemma_compiled_bodies_check(bytes: Seq<u8>)
    requires
        compile_result(bytes) is Ok,
    ensures
        bodies_check(compile_result(bytes).unwrap()),
{
    let secs = section_list(bytes.skip(8), Seq::empty()).unwrap();
    lemma_read_sections_bodies(empty_model(), secs, 0, 0);
}

/// Reading sections in order keeps the bodies checked, and gives no function a body before
/// the code section.
proof fn lemma_read_sections_bodies(m: ModuleModel, secs: Seq<(WasmSectionId, Seq<u8>)>, i: nat, last_rank: nat)
    requires
        bodies_check(m),
        last_rank < 10 ==> no_bodies(m),
    ensures
        read_sections(m, secs, i, last_rank) matches Ok(mm) ==> bodies_check(mm),
    decreases secs.len() - i,
{
    if i < secs.len() {
        let (id, content) = secs[i as int];
        if !(id != WasmSectionId::Custom && last_rank > section_rank(id)) {
            lemma_section_bodies(m, id, content, last_rank);
            if let Ok(m2) = section_effect(m, id, content) {
                let lr = if id != WasmSectionId::Custom {
                    section_rank(id)
                } else {
                    last_rank
                };
                lemma_read_sections_bodies(m2, secs, i + 1, lr);
            }
        }
    }
}

/// Modules that agree on what a check of a body knows, and on their functions, agree on
/// whether their bodies check.
proof fn lemma_bodies_check_same_context(a: ModuleModel, b: ModuleModel)
    requires
        bodies_check(a),
        b.functions == a.functions,
        b.types == a.types,
        b.globals == a.globals,
        b.memories.len() == a.memories.len(),
        a.memories.len() > 0 ==> b.memories[0].pages == a.memories[0].pages,
    ensures
        bodies_check(b),
{
    assert forall|i: int| 0 <= i < b.functions.len() && (#[trigger] b.functions[i]).body is Some implies check_body(
        b.functions[i].body.unwrap().1,
        model_context(b, b.functions[i].params + b.functions[i].body.unwrap().0, b.functions[i].results),
    ) is Ok by {
        let f = b.functions[i];
        assert(a.functions[i] == f);
        assert(model_context(b, f.params + f.body.unwrap().0, f.results) == model_context(a, f.params + f.body.unwrap().0, f.results));
    }
}

/// What one section makes of a module keeps its bodies checked, and gives no function a body
/// unless it is a code section.
proof fn lemma_section_bodies(m: ModuleModel, id: WasmSectionId, content: Seq<u8>, last_rank: nat)
    requires
        bodies_check(m),
        last_rank < 10 ==> no_bodies(m),
        id != WasmSectionId::Custom ==> last_rank <= section_rank(id),
    ensures
        section_effect(m, id, content) matches Ok(m2) ==> bodies_check(m2) && ((if id != WasmSectionId::Custom {
            section_rank(id)
        } else {
            last_rank
        }) < 10 ==> no_bodies(m2)),
{
    reveal(section_effect);
    match id {
        WasmSectionId::Import => {
            assert forall|m1: ModuleModel, j: nat, t: (Seq<char>, Seq<char>, WasmImportDescriptor)|
                no_bodies(m1) && (#[trigger] add_import()(m1, j, t)) is Ok implies no_bodies(add_import()(m1, j, t).unwrap()) by {
                let m2 = add_import()(m1, j, t).unwrap();
                assert forall|q: int| 0 <= q < m2.functions.len() implies (#[trigger] m2.functions[q]).body is None by {
                    if q < m1.functions.len() {
                        assert(m1.functions[q].body is None);
                    }
                }
            }
            if let Ok((count, n)) = decode_u32(content) {
                lemma_add_items_keep(m, content.skip(n as int), count, 0, import_item(), add_import(), |x: ModuleModel| no_bodies(x));
            }
        },
        WasmSectionId::Function => {
            assert forall|m1: ModuleModel, j: nat, t: nat|
                no_bodies(m1) && (#[trigger] add_function()(m1, j, t)) is Ok implies no_bodies(add_function()(m1, j, t).unwrap()) by {
                let m2 = add_function()(m1, j, t).unwrap();
                assert forall|q: int| 0 <= q < m2.functions.len() implies (#[trigger] m2.functions[q]).body is None by {
                    if q < m1.functions.len() {
                        assert(m1.functions[q].body is None);
                    }
                }
            }
            if let Ok((count, n)) = decode_u32(content) {
                lemma_add_items_keep(m, content.skip(n as int), count, 0, u32_item(), add_function(), |x: ModuleModel| no_bodies(x));
            }
        },
        WasmSectionId::Memory => {
            assert forall|m1: ModuleModel, j: nat, t: WasmLimit|
                no_bodies(m1) && (#[trigger] add_memory()(m1, j, t)) is Ok implies no_bodies(add_memory()(m1, j, t).unwrap()) by {
            }
            if let Ok((count, n)) = decode_u32(content) {
                lemma_add_items_keep(m, content.skip(n as int), count, 0, limit_item(), add_memory(), |x: ModuleModel| no_bodies(x));
            }
        },
        WasmSectionId::Code => {
            if let Some(base) = first_open(m.functions, 0) {
                if let Ok((count, n)) = decode_u32(content) {
                    lemma_add_bodies_check(m, content.skip(n as int), count, base);
                }
            }
        },
        WasmSectionId::Data => {
            if let Ok(m2) = section_effect(m, id, content) {
                lemma_bodies_check_same_context(m, m2);
            }
        },
        _ => {},
    }
}

/// Adding items, each of which keeps `p`, keeps `p`.
proof fn lemma_add_items_keep<T>(
    m: ModuleModel,
    s: Seq<u8>,
    count: nat,
    k: nat,
    dec: spec_fn(Seq<u8>) -> Result<(T, nat), CompileErrorKind>,
    step: spec_fn(ModuleModel, nat, T) -> Result<ModuleModel, CompileErrorKind>,
    p: spec_fn(ModuleModel) -> bool,
)
    requires
        p(m),
        forall|m1: ModuleModel, j: nat, t: T| p(m1) && (#[trigger] step(m1, j, t)) is Ok ==> p(step(m1, j, t).unwrap()),
    ensures
        add_items(m, s, count, k, dec, step) matches Ok(m2) ==> p(m2),
    decreases count,
{
    if count > 0 {
        if let Ok((t, n)) = dec(s) {
            if let Ok(m2) = step(m, k, t) {
                lemma_add_items_keep(m2, s.skip(n as int), (count - 1) as nat, k + 1, dec, step, p);
            }
        }
    }
}

/// Giving functions bodies that pass the check keeps the bodies checked.
proof fn lemma_add_bodies_check(m: ModuleModel, s: Seq<u8>, count: nat, at: nat)
    requires
        bodies_check(m),
    ensures
        add_bodies(m, s, count, at) matches Ok(m2) ==> bodies_check(m2),
    decreases count,
{
    if count > 0 && !(at > usize::MAX || at >= m.functions.len()) {
        if let Ok((m2, n)) = body_step(m, s, at) {
            let (item, _) = decode_code(s).unwrap();
            let f = m.functions[at as int];
            assert forall|i: int| 0 <= i < m2.functions.len() && (#[trigger] m2.functions[i]).body is Some implies check_body(
                m2.functions[i].body.unwrap().1,
                model_context(m2, m2.functions[i].params + m2.functions[i].body.unwrap().0, m2.functions[i].results),
            ) is Ok by {
                let g = m2.functions[i];
                assert(m2.functions.map_values(|x: FuncModel| (x.params, x.results)) =~= m.functions.map_values(
                    |x: FuncModel| (x.params, x.results),
                ));
                assert(model_context(m2, g.params + g.body.unwrap().0, g.results) == model_context(
                    m,
                    g.params + g.body.unwrap().0,
                    g.results,
                ));
                if i != at {
                    assert(m.functions[i] == g);
                }
            }
            lemma_add_bodies_check(m2, s.skip(n as int), (count - 1) as nat, at + 1);
        }
    }
}

/// Whether the function imports of `m` can be bound: the `k`-th one names a type of the
/// module and is the `k`-th function, imported and bound to nothing yet
pub open spec fn imports_bindable(m: ModuleModel) -> bool {
    let fi = function_imports(m.imports);
    &&& fi.len() <= m.functions.len()
    &&& forall|k: int|
        0 <= k < fi.len() ==> fi[k].2.0 < m.types.len() && (#[trigger] m.functions[k]).external && m.functions[k].body is None
            && m.functions[k].handle is None
}

/// The function imports of a module that decodes can be bound: instantiating it fails only
/// where the resolver finds no module or no item for an import.
pub proof fn lemma_compiled_imports_bindable(bytes: Seq<u8>)
    requires
        compile_result(bytes) is Ok,
    ensures
        imports_bindable(compile_result(bytes).unwrap()),
{
    let secs = section_list(bytes.skip(8), Seq::empty()).unwrap();
    assert(function_imports(empty_model().imports) =~= Seq::<(Seq<char>, Seq<char>, WasmTypeIndex)>::empty());
    lemma_read_sections_bindable(empty_model(), secs, 0, 0);
}

/// Whether the functions of `m` are its function imports and nothing else
spec fn only_imported_functions(m: ModuleModel) -> bool {
    m.functions.len() == function_imports(m.imports).len()
}

/// Reading sections in order keeps the imports bindable, and adds no function of the module
/// before the function section.
proof fn lemma_read_sections_bindable(m: ModuleModel, secs: Seq<(WasmSectionId, Seq<u8>)>, i: nat, last_rank: nat)
    requires
        imports_bindable(m),
        last_rank < 2 ==> only_imported_functions(m),
    ensures
        read_sections(m, secs, i, last_rank) matches Ok(mm) ==> imports_bindable(mm),
    decreases secs.len() - i,
{
    if i < secs.len() {
        let (id, content) = secs[i as int];
        if !(id != WasmSectionId::Custom && last_rank > section_rank(id)) {
            lemma_section_bindable(m, id, content, last_rank);
            if let Ok(m2) = section_effect(m, id, content) {
                let lr = if id != WasmSectionId::Custom {
                    section_rank(id)
                } else {
                    last_rank
                };
                lemma_read_sections_bindable(m2, secs, i + 1, lr);
            }
        }
    }
}

/// What one section makes of a module keeps its imports bindable, and adds no function of the
/// module unless it is a function section or comes after one.
proof fn lemma_section_bindable(m: ModuleModel, id: WasmSectionId, content: Seq<u8>, last_rank: nat)
    requires
        imports_bindable(m),
        last_rank < 2 ==> only_imported_functions(m),
        id != WasmSectionId::Custom ==> last_rank <= section_rank(id),
    ensures
        section_effect(m, id, content) matches Ok(m2) ==> imports_bindable(m2) && ((if id != WasmSectionId::Custom {
            section_rank(id)
        } else {
            last_rank
        }) < 2 ==> only_imported_functions(m2)),
{
    reveal(section_effect);
    let keeps = |x: ModuleModel| imports_bindable(x) && only_imported_functions(x);
    match id {
        WasmSectionId::Type => {
            if let Ok(m2) = section_effect(m, id, content) {
                let fi = function_imports(m.imports);
                assert forall|k: int| 0 <= k < fi.len() implies fi[k].2.0 < m2.types.len() && (#[trigger] m2.functions[k]).external
                    && m2.functions[k].body is None && m2.functions[k].handle is None by {
                    assert(m.functions[k] == m2.functions[k]);
                }
            }
        },
        WasmSectionId::Import => {
            assert forall|m1: ModuleModel, j: nat, t: (Seq<char>, Seq<char>, WasmImportDescriptor)|
                keeps(m1) && (#[trigger] add_import()(m1, j, t)) is Ok implies keeps(add_import()(m1, j, t).unwrap()) by {
                let m2 = add_import()(m1, j, t).unwrap();
                let fi = function_imports(m1.imports);
                let fi2 = function_imports(m2.imports);
                assert(m2.imports.drop_last() =~= m1.imports);
                assert forall|k: int| 0 <= k < fi2.len() implies fi2[k].2.0 < m2.types.len() && (#[trigger] m2.functions[k]).external
                    && m2.functions[k].body is None && m2.functions[k].handle is None by {
                    if k < fi.len() {
                        assert(fi2[k] == fi[k]);
                        assert(m2.functions[k] == m1.functions[k]);
                    }
                }
            }
            if let Ok((count, n)) = decode_u32(content) {
                lemma_add_items_keep(m, content.skip(n as int), count, 0, import_item(), add_import(), keeps);
            }
        },
        WasmSectionId::Function => {
            let fi = function_imports(m.imports);
            let p = |x: ModuleModel|
                x.imports == m.imports && x.types == m.types && fi.len() <= x.functions.len() && forall|k: int|
                    0 <= k < fi.len() ==> #[trigger] x.functions[k] == m.functions[k];
            assert forall|m1: ModuleModel, j: nat, t: nat|
                p(m1) && (#[trigger] add_function()(m1, j, t)) is Ok implies p(add_function()(m1, j, t).unwrap()) by {
                let m2 = add_function()(m1, j, t).unwrap();
                assert forall|k: int| 0 <= k < fi.len() implies #[trigger] m2.functions[k] == m.functions[k] by {
                    assert(m2.functions[k] == m1.functions[k]);
                }
            }
            if let Ok((count, n)) = decode_u32(content) {
                lemma_add_items_keep(m, content.skip(n as int), count, 0, u32_item(), add_function(), p);
                if let Ok(m2) = section_effect(m, id, content) {
                    assert forall|k: int| 0 <= k < fi.len() implies fi[k].2.0 < m2.types.len() && (#[trigger] m2.functions[k]).external
                        && m2.functions[k].body is None && m2.functions[k].handle is None by {
                        assert(m2.functions[k] == m.functions[k]);
                    }
                }
            }
        },
        WasmSectionId::Memory => {
            let p = |x: ModuleModel| x.imports == m.imports && x.types == m.types && x.functions == m.functions;
            assert forall|m1: ModuleModel, j: nat, t: WasmLimit|
                p(m1) && (#[trigger] add_memory()(m1, j, t)) is Ok implies p(add_memory()(m1, j, t).unwrap()) by {
            }
            if let Ok((count, n)) = decode_u32(content) {
                lemma_add_items_keep(m, content.skip(n as int), count, 0, limit_item(), add_memory(), p);
            }
        },
        WasmSectionId::Code => {
            if let Some(base) = first_open(m.functions, 0) {
                if let Ok((count, n)) = decode_u32(content) {
                    lemma_add_bodies_keep_imports(m, content.skip(n as int), count, base);
                }
            }
        },
        _ => {},
    }
}

/// Giving functions bodies leaves the imported functions as they are.
proof fn lemma_add_bodies_keep_imports(m: ModuleModel, s: Seq<u8>, count: nat, at: nat)
    requires
        imports_bindable(m),
    ensures
        add_bodies(m, s, count, at) matches Ok(m2) ==> imports_bindable(m2),
    decreases count,
{
    if count > 0 && !(at > usize::MAX || at >= m.functions.len()) {
        if let Ok((m2, n)) = body_step(m, s, at) {
            let fi = function_imports(m.imports);
            assert forall|k: int| 0 <= k < fi.len() implies fi[k].2.0 < m2.types.len() && (#[trigger] m2.functions[k]).external
                && m2.functions[k].body is None && m2.functions[k].handle is None by {
                if k != at {
                    assert(m2.functions[k] == m.functions[k]);
                } else {
                    assert(m.functions[k].external);
                }
            }
            lemma_add_bodies_keep_imports(m2, s.skip(n as int), (count - 1) as nat, at + 1);
        }
    }
}

} // verus!
