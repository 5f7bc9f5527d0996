//! Function types, imports, exports and names of a module
use crate::error::{read_error_kind, CompileErrorKind};
use crate::leb128::{decode_string, decode_u32, Leb128Reader, ReadError};
use crate::wasm::{
    decode_limit, GlobalVarIndex, ImportExportKind, val_type_mnemonic, val_type_of_code, WasmLimit, WasmTypeIndex, WasmValType,
};
use smallvec::SmallVec;
use vstd::prelude::*;
use vstd::string::StringExecFns;

verus! {

/// The value types of a signature or of the locals of a body, held in a `SmallVec` of eight
/// inline slots
#[verifier::external_body]
pub struct ValTypes {
    inner: SmallVec<[WasmValType; 8]>,
}

/// The value types held by a `SmallVec`, in order
pub uninterp spec fn val_type_items(v: ValTypes) -> Seq<WasmValType>;

/// `SmallVec::new`: an empty vector.
#[verifier::external_body]
pub(crate) fn val_types_new() -> (r: ValTypes)
    ensures
        val_type_items(r) == Seq::<WasmValType>::empty(),
{
    ValTypes { inner: SmallVec::new() }
}

/// `SmallVec::push`: appends `t` at the end.
#[verifier::external_body]
pub(crate) fn val_types_push(v: &mut ValTypes, t: WasmValType)
    requires
        val_type_items(*old(v)).len() < usize::MAX,
    ensures
        val_type_items(*final(v)) == val_type_items(*old(v)).push(t),
{
    v.inner.push(t)
}

/// `SmallVec::as_slice`: the items in order.
#[verifier::external_body]
pub(crate) fn val_types_as_slice(v: &ValTypes) -> (r: &[WasmValType])
    ensures
        r@ == val_type_items(*v),
{
    v.inner.as_slice()
}

/// `SmallVec::clone`: the same items, cloned one by one (a value type is `Copy`).
#[verifier::external_body]
fn val_types_clone(v: &ValTypes) -> (r: ValTypes)
    ensures
        val_type_items(r) == val_type_items(*v),
{
    ValTypes { inner: v.inner.clone() }
}

/// A `SmallVec` holding the types of `types`, in order
pub(crate) fn val_types_from_slice(types: &[WasmValType]) -> (r: ValTypes)
    ensures
        val_type_items(r) == types@,
{
    let mut v = val_types_new();
    let mut i: usize = 0;
    while i < types.len()
        invariant
            i <= types@.len(),
            val_type_items(v) == types@.take(i as int),
        decreases types.len() - i,
    {
        val_types_push(&mut v, types[i]);
        proof {
            assert(types@.take(i + 1) =~= types@.take(i as int).push(types@[i as int]));
        }
        i = i + 1;
    }
    proof {
        assert(types@.take(types@.len() as int) =~= types@);
    }
    v
}

/// `count` value types, one byte each
pub open spec fn decode_val_types(s: Seq<u8>, count: nat) -> Result<(Seq<WasmValType>, nat), CompileErrorKind> {
    let m = if count <= s.len() {
        count
    } else {
        s.len()
    };
    if exists|i: int| 0 <= i < m && val_type_of_code(#[trigger] s[i]) is None {
        Err(CompileErrorKind::UnexpectedToken)
    } else if s.len() < count {
        Err(CompileErrorKind::UnexpectedEof)
    } else {
        Ok((Seq::new(count, |i: int| val_type_of_code(s[i]).unwrap()), count))
    }
}

/// A vector of value types: its length, then the types
pub open spec fn decode_val_type_vec(s: Seq<u8>) -> Result<(Seq<WasmValType>, nat), CompileErrorKind> {
    match decode_u32(s) {
        Err(e) => Err(read_error_kind(e)),
        Ok((count, n)) => match decode_val_types(s.skip(n as int), count) {
            Ok((v, m)) => Ok((v, n + m)),
            Err(e) => Err(e),
        },
    }
}

/// A function type: 0x60, the parameter types, then the result types
pub open spec fn decode_func_type(s: Seq<u8>) -> Result<(Seq<WasmValType>, Seq<WasmValType>, nat), CompileErrorKind> {
    if s.len() == 0 {
        Err(CompileErrorKind::UnexpectedEof)
    } else if s[0] != 0x60 {
        Err(CompileErrorKind::UnexpectedToken)
    } else {
        match decode_val_type_vec(s.skip(1)) {
            Err(e) => Err(e),
            Ok((p, n1)) => match decode_val_type_vec(s.skip((1 + n1) as int)) {
                Err(e) => Err(e),
                Ok((r, n2)) => Ok((p, r, 1 + n1 + n2)),
            },
        }
    }
}

/// Reads a vector of value types.
fn read_val_type_vec(reader: &mut Leb128Reader) -> (r: Result<ValTypes, CompileErrorKind>)
    ensures
        match decode_val_type_vec(old(reader).rest()) {
            Ok((v, n)) => (r matches Ok(sv) && val_type_items(sv) == v && old(reader).advanced(
                final(reader),
                n,
            )),
            Err(e) => r matches Err(e2) && e2 == e,
        },
        final(reader).bytes() == old(reader).bytes(),
{
    let ghost r0 = *reader;
    let count = match reader.read_usize() {
        Ok(v) => v,
        Err(e) => return Err(CompileErrorKind::from_read_error(e)),
    };
    let ghost r1 = *reader;
    let ghost n = decode_u32(r0.rest()).unwrap().1;
    proof {
        crate::leb128::lemma_decode_unsigned_bounds(r0.rest(), 5, 16);
        r0.lemma_advanced_rest(&r1, n);
    }
    let ghost s = r1.rest();
    let mut types = val_types_new();
    let mut i: usize = 0;
    while i < count
        invariant
            i <= count,
            count < 0x1_0000_0000,
            s == r1.rest(),
            reader.bytes() == r1.bytes(),
            r1.bytes() == r0.bytes(),
            r0 == *old(reader),
            decode_u32(r0.rest()) == Ok::<(nat, nat), ReadError>((count as nat, n)),
            s == r0.rest().skip(n as int),
            r0.advanced(&r1, n),
            reader.pos() == r1.pos() + i,
            i <= s.len(),
            forall|j: int| 0 <= j < i ==> val_type_of_code(#[trigger] s[j]) is Some,
            val_type_items(types) == Seq::new(i as nat, |j: int| val_type_of_code(s[j]).unwrap()),
        decreases count - i,
    {
        let ghost rb = *reader;
        proof {
            r1.lemma_advanced_rest(&rb, i as nat);
        }
        let b = match reader.read_byte() {
            Ok(b) => b,
            Err(e) => {
                proof {
                    assert(s.len() < count);
                }
                return Err(CompileErrorKind::from_read_error(e));
            },
        };
        let t = match WasmValType::from_u8(b) {
            Ok(t) => t,
            Err(e) => {
                proof {
                    assert(s[i as int] == b);
                    assert(val_type_of_code(s[i as int]) is None);
                    assert(i < s.len());
                }
                return Err(e);
            },
        };
        val_types_push(&mut types, t);
        proof {
            assert(val_type_items(types) =~= Seq::new((i + 1) as nat, |j: int| val_type_of_code(s[j]).unwrap()));
        }
        i = i + 1;
    }
    proof {
        assert(!(exists|j: int| 0 <= j < count && val_type_of_code(#[trigger] s[j]) is None));
    }
    Ok(types)
}

/// The signature of a function: parameter types and result types
pub struct WasmType {
    param_types: ValTypes,
    result_types: ValTypes,
}

/// The letters of a list of types in a signature, `v` standing for an empty list
pub open spec fn signature_part(ts: Seq<WasmValType>) -> Seq<char> {
    if ts.len() == 0 {
        seq!['v']
    } else {
        ts.map_values(|t: WasmValType| val_type_mnemonic(t))
    }
}

/// The one-letter name of a type as a string
fn mnemonic_str(t: WasmValType) -> (r: &'static str)
    ensures
        r@ == seq![val_type_mnemonic(t)],
{
    match t {
        WasmValType::I32 => {
            proof {
                reveal_strlit("i");
            }
            "i"
        },
        WasmValType::I64 => {
            proof {
                reveal_strlit("l");
            }
            "l"
        },
        WasmValType::F32 => {
            proof {
                reveal_strlit("f");
            }
            "f"
        },
        WasmValType::F64 => {
            proof {
                reveal_strlit("d");
            }
            "d"
        },
    }
}

/// Appends the letters of `ts` to `out`.
fn append_signature_part(out: &mut String, ts: &[WasmValType])
    ensures
        final(out)@ == old(out)@ + signature_part(ts@),
{
    if ts.len() == 0 {
        proof {
            reveal_strlit("v");
        }
        out.append("v");
        return;
    }
    let ghost s0 = out@;
    let mut i: usize = 0;
    while i < ts.len()
        invariant
            i <= ts.len(),
            ts.len() > 0,
            out@ == s0 + ts@.subrange(0, i as int).map_values(|t: WasmValType| val_type_mnemonic(t)),
        decreases ts.len() - i,
    {
        out.append(mnemonic_str(ts[i]));
        proof {
            assert(ts@.subrange(0, i + 1).map_values(|t: WasmValType| val_type_mnemonic(t)) =~= ts@.subrange(
                0,
                i as int,
            ).map_values(|t: WasmValType| val_type_mnemonic(t)).push(val_type_mnemonic(ts@[i as int])));
        }
        i = i + 1;
    }
    proof {
        assert(ts@.subrange(0, ts@.len() as int) =~= ts@);
    }
}

impl WasmType {
    /// The parameter types
    pub closed spec fn params(&self) -> Seq<WasmValType> {
        val_type_items(self.param_types)
    }

    /// The result types
    pub closed spec fn results(&self) -> Seq<WasmValType> {
        val_type_items(self.result_types)
    }

    /// Reads a function type.
    pub fn from_reader(reader: &mut Leb128Reader) -> (r: Result<Self, CompileErrorKind>)
        ensures
            match decode_func_type(old(reader).rest()) {
                Ok((p, q, n)) => (r matches Ok(t) && t.params() == p && t.results() == q
                    && old(reader).advanced(final(reader), n)),
                Err(e) => r matches Err(e2) && e2 == e,
            },
            final(reader).bytes() == old(reader).bytes(),
    {
        let ghost r0 = *reader;
        match reader.read_byte() {
            Ok(0x60) => (),
            Err(e) => return Err(CompileErrorKind::from_read_error(e)),
            _ => return Err(CompileErrorKind::UnexpectedToken),
        };
        let ghost r1 = *reader;
        proof {
            r0.lemma_advanced_rest(&r1, 1);
        }
        let param_types = read_val_type_vec(reader)?;
        let ghost r2 = *reader;
        proof {
            let n1 = decode_val_type_vec(r1.rest()).unwrap().1;
            lemma_decode_val_type_vec_len(r1.rest());
            r1.lemma_advanced_rest(&r2, n1);
            assert(r2.rest() =~= r0.rest().skip((1 + n1) as int));
        }
        let result_types = read_val_type_vec(reader)?;
        Ok(Self { param_types, result_types })
    }

    /// The parameter types
    pub fn param_types(&self) -> (r: &[WasmValType])
        ensures
            r@ == self.params(),
    {
        val_types_as_slice(&self.param_types)
    }

    /// The result types
    pub fn result_types(&self) -> (r: &[WasmValType])
        ensures
            r@ == self.results(),
    {
        val_types_as_slice(&self.result_types)
    }

    /// A copy of the type
    pub fn duplicate(&self) -> (r: Self)
        ensures
            r.params() == self.params(),
            r.results() == self.results(),
    {
        Self {
            param_types: val_types_clone(&self.param_types),
            result_types: val_types_clone(&self.result_types),
        }
    }

    /// The function signature: the letters of the results, then those of the parameters.
    ///
    /// For example: `fn(int, long, float, double) -> void` -> `"vilfd"`
    pub fn signature(&self) -> (r: String)
        ensures
            r@ == signature_part(self.results()) + signature_part(self.params()),
    {
        let mut s = String::new();
        append_signature_part(&mut s, self.result_types());
        append_signature_part(&mut s, self.param_types());
        s
    }
}

/// A successful decoding of a vector of types takes no more bytes than there are.
pub proof fn lemma_decode_val_type_vec_len(s: Seq<u8>)
    ensures
        decode_val_type_vec(s) matches Ok((v, n)) ==> n <= s.len(),
{
    crate::leb128::lemma_decode_unsigned_bounds(s, 5, 16);
}

/// What an import brings in
#[derive(Debug, Clone, Copy, PartialEq, Eq, Structural)]
pub enum WasmImportDescriptor {
    /// A function of the given type
    Function(WasmTypeIndex),
    /// A memory with the given limit
    Memory(WasmLimit),
}

/// An import descriptor: 0 and a type index, or 2 and a memory limit
pub open spec fn decode_import_desc(s: Seq<u8>) -> Result<(WasmImportDescriptor, nat), CompileErrorKind> {
    if s.len() == 0 {
        Err(CompileErrorKind::UnexpectedEof)
    } else if s[0] == 0 {
        match decode_u32(s.skip(1)) {
            Ok((v, n)) => Ok((WasmImportDescriptor::Function(WasmTypeIndex(v as u32)), n + 1)),
            Err(e) => Err(read_error_kind(e)),
        }
    } else if s[0] == 2 {
        match decode_limit(s.skip(1)) {
            Ok((l, n)) => Ok((WasmImportDescriptor::Memory(l), n + 1)),
            Err(e) => Err(e),
        }
    } else {
        Err(CompileErrorKind::UnexpectedToken)
    }
}

impl WasmImportDescriptor {
    /// Reads an import descriptor.
    pub fn from_reader(reader: &mut Leb128Reader) -> (r: Result<Self, CompileErrorKind>)
        ensures
            match decode_import_desc(old(reader).rest()) {
                Ok((d, n)) => r == Ok::<Self, CompileErrorKind>(d) && old(reader).advanced(final(reader), n),
                Err(e) => r == Err::<Self, CompileErrorKind>(e),
            },
            final(reader).bytes() == old(reader).bytes(),
    {
        let ghost r0 = *reader;
        let import_type = match reader.read_byte() {
            Ok(b) => b,
            Err(e) => return Err(CompileErrorKind::from_read_error(e)),
        };
        proof {
            r0.lemma_advanced_rest(reader, 1);
        }
        match import_type {
            0 => match reader.read_u32() {
                Ok(v) => Ok(Self::Function(WasmTypeIndex(v))),
                Err(e) => Err(CompileErrorKind::from_read_error(e)),
            },
            2 => match WasmLimit::from_reader(reader, true) {
                Ok(l) => Ok(Self::Memory(l)),
                Err(e) => Err(e),
            },
            _ => Err(CompileErrorKind::UnexpectedToken),
        }
    }
}

/// A string, with a stream error turned into a compile error
pub open spec fn decode_name_string(s: Seq<u8>) -> Result<(Seq<char>, nat), CompileErrorKind> {
    match decode_string(s) {
        Ok((t, n)) => Ok((t, n)),
        Err(e) => Err(read_error_kind(e)),
    }
}

/// Reads a string, turning a stream error into a compile error.
fn read_name_string(reader: &mut Leb128Reader) -> (r: Result<String, CompileErrorKind>)
    ensures
        match decode_name_string(old(reader).rest()) {
            Ok((t, n)) => (r matches Ok(x) && x@ == t && old(reader).advanced(final(reader), n)),
            Err(e) => r matches Err(e2) && e2 == e,
        },
        final(reader).bytes() == old(reader).bytes(),
        r is Ok ==> final(reader).pos() <= final(reader).bytes().len(),
{
    let _ = reader.position();
    match reader.get_string() {
        Ok(t) => {
            let _ = reader.position();
            Ok(t)
        },
        Err(e) => Err(CompileErrorKind::from_read_error(e)),
    }
}

/// A successful decoding of a string takes no more bytes than there are.
pub proof fn lemma_decode_name_string_len(s: Seq<u8>)
    ensures
        decode_name_string(s) matches Ok((t, n)) ==> n <= s.len(),
{
    crate::leb128::lemma_decode_unsigned_bounds(s, 5, 16);
}

/// WebAssembly import object
#[derive(Debug)]
pub struct WasmImport {
    mod_name: String,
    name: String,
    desc: WasmImportDescriptor,
}

/// An import: the module name, the item name and the descriptor
pub open spec fn decode_import(s: Seq<u8>) -> Result<(Seq<char>, Seq<char>, WasmImportDescriptor, nat), CompileErrorKind> {
    match decode_name_string(s) {
        Err(e) => Err(e),
        Ok((m, n1)) => match decode_name_string(s.skip(n1 as int)) {
            Err(e) => Err(e),
            Ok((t, n2)) => match decode_import_desc(s.skip((n1 + n2) as int)) {
                Err(e) => Err(e),
                Ok((d, n3)) => Ok((m, t, d, n1 + n2 + n3)),
            },
        },
    }
}

impl WasmImport {
    /// The name of the module that provides the item
    pub closed spec fn spec_module_name(&self) -> Seq<char> {
        self.mod_name@
    }

    /// The name of the item
    pub closed spec fn spec_name(&self) -> Seq<char> {
        self.name@
    }

    /// What the import brings in
    pub closed spec fn spec_desc(&self) -> WasmImportDescriptor {
        self.desc
    }

    /// Reads an import.
    pub fn from_reader(reader: &mut Leb128Reader) -> (r: Result<Self, CompileErrorKind>)
        ensures
            match decode_import(old(reader).rest()) {
                Ok((m, t, d, n)) => (r matches Ok(i) && i.spec_module_name() == m && i.spec_name() == t
                    && i.spec_desc() == d && old(reader).advanced(final(reader), n)),
                Err(e) => r matches Err(e2) && e2 == e,
            },
            final(reader).bytes() == old(reader).bytes(),
    {
        let ghost r0 = *reader;
        let mod_name = read_name_string(reader)?;
        let ghost r1 = *reader;
        proof {
            lemma_decode_name_string_len(r0.rest());
            r0.lemma_advanced_rest(&r1, decode_name_string(r0.rest()).unwrap().1);
        }
        let name = read_name_string(reader)?;
        let ghost r2 = *reader;
        proof {
            let n1 = decode_name_string(r0.rest()).unwrap().1;
            let n2 = decode_name_string(r1.rest()).unwrap().1;
            lemma_decode_name_string_len(r1.rest());
            r1.lemma_advanced_rest(&r2, n2);
            assert(r2.rest() =~= r0.rest().skip((n1 + n2) as int));
        }
        let desc = WasmImportDescriptor::from_reader(reader)?;
        Ok(Self { mod_name, name, desc })
    }

    /// The name of the module that provides the item
    pub fn module_name(&self) -> (r: &str)
        ensures
            r@ == self.spec_module_name(),
    {
        self.mod_name.as_str()
    }

    /// The name of the item
    pub fn name(&self) -> (r: &str)
        ensures
            r@ == self.spec_name(),
    {
        self.name.as_str()
    }

    /// What the import brings in
    pub fn desc(&self) -> (r: WasmImportDescriptor)
        ensures
            r == self.spec_desc(),
    {
        self.desc
    }
}

/// What an export gives out
#[derive(Debug, Clone, Copy, PartialEq, Eq, Structural)]
pub enum WasmExportDesc {
    Function(usize),
    Table(usize),
    Memory(usize),
    Global(GlobalVarIndex),
}

/// The kind of an import
pub open spec fn import_kind(desc: WasmImportDescriptor) -> ImportExportKind {
    match desc {
        WasmImportDescriptor::Function(_) => ImportExportKind::Function,
        WasmImportDescriptor::Memory(_) => ImportExportKind::Memory,
    }
}

/// The kind of an export
pub open spec fn export_kind(desc: WasmExportDesc) -> ImportExportKind {
    match desc {
        WasmExportDesc::Function(_) => ImportExportKind::Function,
        WasmExportDesc::Table(_) => ImportExportKind::Table,
        WasmExportDesc::Memory(_) => ImportExportKind::Memory,
        WasmExportDesc::Global(_) => ImportExportKind::Global,
    }
}

impl ImportExportKind {
    /// The kind of an import
    pub fn from_import_desc(desc: &WasmImportDescriptor) -> (r: Self)
        ensures
            r == import_kind(*desc),
    {
        match *desc {
            WasmImportDescriptor::Function(_) => Self::Function,
            WasmImportDescriptor::Memory(_) => Self::Memory,
        }
    }

    /// The kind of an export
    pub fn from_export_desc(desc: &WasmExportDesc) -> (r: Self)
        ensures
            r == export_kind(*desc),
    {
        match *desc {
            WasmExportDesc::Function(_) => Self::Function,
            WasmExportDesc::Table(_) => Self::Table,
            WasmExportDesc::Memory(_) => Self::Memory,
            WasmExportDesc::Global(_) => Self::Global,
        }
    }
}

/// An export descriptor: a kind byte and an index; a global index must be below `n_globals`
pub open spec fn decode_export_desc(s: Seq<u8>, n_globals: nat) -> Result<(WasmExportDesc, nat), CompileErrorKind> {
    if s.len() == 0 {
        Err(CompileErrorKind::UnexpectedEof)
    } else if s[0] > 3 {
        Err(CompileErrorKind::UnexpectedToken)
    } else {
        match decode_u32(s.skip(1)) {
            Err(e) => Err(read_error_kind(e)),
            Ok((v, n)) => if s[0] == 0 {
                Ok((WasmExportDesc::Function(v as usize), n + 1))
            } else if s[0] == 1 {
                Ok((WasmExportDesc::Table(v as usize), n + 1))
            } else if s[0] == 2 {
                Ok((WasmExportDesc::Memory(v as usize), n + 1))
            } else if v < n_globals {
                Ok((WasmExportDesc::Global(GlobalVarIndex(v as u32)), n + 1))
            } else {
                Err(CompileErrorKind::InvalidGlobal)
            },
        }
    }
}

impl WasmExportDesc {
    /// Reads an export descriptor; a global must be one of the `n_globals` globals.
    pub fn from_reader(reader: &mut Leb128Reader, n_globals: usize) -> (r: Result<Self, CompileErrorKind>)
        ensures
            match decode_export_desc(old(reader).rest(), n_globals as nat) {
                Ok((d, n)) => r == Ok::<Self, CompileErrorKind>(d) && old(reader).advanced(final(reader), n),
                Err(e) => r == Err::<Self, CompileErrorKind>(e),
            },
            final(reader).bytes() == old(reader).bytes(),
    {
        let ghost r0 = *reader;
        let kind = match reader.read_byte() {
            Ok(b) => b,
            Err(e) => return Err(CompileErrorKind::from_read_error(e)),
        };
        proof {
            r0.lemma_advanced_rest(reader, 1);
        }
        if kind > 3 {
            return Err(CompileErrorKind::UnexpectedToken);
        }
        let v = match reader.read_u32() {
            Ok(v) => v,
            Err(e) => return Err(CompileErrorKind::from_read_error(e)),
        };
        match kind {
            0 => Ok(Self::Function(v as usize)),
            1 => Ok(Self::Table(v as usize)),
            2 => Ok(Self::Memory(v as usize)),
            _ => if (v as usize) < n_globals {
                Ok(Self::Global(GlobalVarIndex::new(v)))
            } else {
                Err(CompileErrorKind::InvalidGlobal)
            },
        }
    }
}

/// WebAssembly export object
#[derive(Debug)]
pub struct WasmExport {
    name: String,
    desc: WasmExportDesc,
}

/// An export: the name, then the descriptor
pub open spec fn decode_export(s: Seq<u8>, n_globals: nat) -> Result<(Seq<char>, WasmExportDesc, nat), CompileErrorKind> {
    match decode_name_string(s) {
        Err(e) => Err(e),
        Ok((t, n1)) => match decode_export_desc(s.skip(n1 as int), n_globals) {
            Err(e) => Err(e),
            Ok((d, n2)) => Ok((t, d, n1 + n2)),
        },
    }
}

impl WasmExport {
    /// The exported name
    pub closed spec fn spec_name(&self) -> Seq<char> {
        self.name@
    }

    /// What is exported
    pub closed spec fn spec_desc(&self) -> WasmExportDesc {
        self.desc
    }

    /// Reads an export of a module with `n_globals` globals.
    pub fn from_reader(reader: &mut Leb128Reader, n_globals: usize) -> (r: Result<Self, CompileErrorKind>)
        ensures
            match decode_export(old(reader).rest(), n_globals as nat) {
                Ok((t, d, n)) => (r matches Ok(x) && x.spec_name() == t && x.spec_desc() == d
                    && old(reader).advanced(final(reader), n)),
                Err(e) => r matches Err(e2) && e2 == e,
            },
            final(reader).bytes() == old(reader).bytes(),
    {
        let ghost r0 = *reader;
        let name = read_name_string(reader)?;
        proof {
            lemma_decode_name_string_len(r0.rest());
            r0.lemma_advanced_rest(reader, decode_name_string(r0.rest()).unwrap().1);
        }
        let desc = WasmExportDesc::from_reader(reader, n_globals)?;
        Ok(Self { name, desc })
    }

    /// The exported name
    pub fn name(&self) -> (r: &str)
        ensures
            r@ == self.spec_name(),
    {
        self.name.as_str()
    }

    /// What is exported
    pub fn desc(&self) -> (r: WasmExportDesc)
        ensures
            r == self.spec_desc(),
    {
        self.desc
    }
}

} // verus!
