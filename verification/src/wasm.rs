//! The items of the WebAssembly binary format
use crate::error::{read_error_kind, CompileErrorKind};
use crate::leb128::{decode_i64, decode_u32, decode_u64, Leb128Reader, ReadError};
use vstd::prelude::*;

verus! {

/// The WebAssembly binary format
pub struct WebAssembly;

/// Whether `bytes` starts with the magic number `\0asm` and version 1
pub open spec fn is_wasm_binary(bytes: Seq<u8>) -> bool {
    &&& bytes.len() >= 8
    &&& bytes[0] == 0x00 && bytes[1] == 0x61 && bytes[2] == 0x73 && bytes[3] == 0x6d
    &&& bytes[4] == 0x01 && bytes[5] == 0x00 && bytes[6] == 0x00 && bytes[7] == 0x00
}

impl WebAssembly {
    /// Minimal valid module size, Magic(4) + Version(4) + Empty sections(0) = 8
    pub const MINIMAL_MOD_SIZE: usize = 8;

    /// The length of the memory is always a multiple of the page size, 64Ki.
    pub const PAGE_SIZE: usize = 65536;

    /// Identifies the file format.
    pub fn identify(bytes: &[u8]) -> (r: bool)
        ensures
            r == is_wasm_binary(bytes@),
    {
        bytes.len() >= Self::MINIMAL_MOD_SIZE && bytes[0] == 0x00 && bytes[1] == 0x61 && bytes[2]
            == 0x73 && bytes[3] == 0x6d && bytes[4] == 0x01 && bytes[5] == 0x00 && bytes[6] == 0x00
            && bytes[7] == 0x00
    }
}

/// WebAssembly section types, in the order in which they must appear
#[derive(Debug, Clone, Copy, PartialEq, Eq, PartialOrd, Ord, Structural)]
pub enum WasmSectionId {
    Type,
    Import,
    Function,
    Table,
    Memory,
    Global,
    Export,
    Start,
    Element,
    DataCount,
    Code,
    Data,
    Custom,
}

/// The place of a section in the required order
pub open spec fn section_rank(id: WasmSectionId) -> nat {
    match id {
        WasmSectionId::Type => 0,
        WasmSectionId::Import => 1,
        WasmSectionId::Function => 2,
        WasmSectionId::Table => 3,
        WasmSectionId::Memory => 4,
        WasmSectionId::Global => 5,
        WasmSectionId::Export => 6,
        WasmSectionId::Start => 7,
        WasmSectionId::Element => 8,
        WasmSectionId::DataCount => 9,
        WasmSectionId::Code => 10,
        WasmSectionId::Data => 11,
        WasmSectionId::Custom => 12,
    }
}

/// The byte that identifies a section in the binary format
pub open spec fn section_code(id: WasmSectionId) -> u8 {
    match id {
        WasmSectionId::Custom => 0,
        WasmSectionId::Type => 1,
        WasmSectionId::Import => 2,
        WasmSectionId::Function => 3,
        WasmSectionId::Table => 4,
        WasmSectionId::Memory => 5,
        WasmSectionId::Global => 6,
        WasmSectionId::Export => 7,
        WasmSectionId::Start => 8,
        WasmSectionId::Element => 9,
        WasmSectionId::Code => 10,
        WasmSectionId::Data => 11,
        WasmSectionId::DataCount => 12,
    }
}

/// The section identified by a byte
pub open spec fn section_of_code(b: u8) -> Option<WasmSectionId> {
    match b {
        0 => Some(WasmSectionId::Custom),
        1 => Some(WasmSectionId::Type),
        2 => Some(WasmSectionId::Import),
        3 => Some(WasmSectionId::Function),
        4 => Some(WasmSectionId::Table),
        5 => Some(WasmSectionId::Memory),
        6 => Some(WasmSectionId::Global),
        7 => Some(WasmSectionId::Export),
        8 => Some(WasmSectionId::Start),
        9 => Some(WasmSectionId::Element),
        10 => Some(WasmSectionId::Code),
        11 => Some(WasmSectionId::Data),
        12 => Some(WasmSectionId::DataCount),
        _ => None,
    }
}

impl WasmSectionId {
    /// Whether the section takes part in the ordering of sections (all but custom sections)
    pub fn depends_on_order(&self) -> (r: bool)
        ensures
            r == (*self != WasmSectionId::Custom),
    {
        match self {
            WasmSectionId::Custom => false,
            _ => true,
        }
    }

    /// The place of the section in the required order
    pub fn rank(&self) -> (r: u8)
        ensures
            r == section_rank(*self),
    {
        match self {
            WasmSectionId::Type => 0,
            WasmSectionId::Import => 1,
            WasmSectionId::Function => 2,
            WasmSectionId::Table => 3,
            WasmSectionId::Memory => 4,
            WasmSectionId::Global => 5,
            WasmSectionId::Export => 6,
            WasmSectionId::Start => 7,
            WasmSectionId::Element => 8,
            WasmSectionId::DataCount => 9,
            WasmSectionId::Code => 10,
            WasmSectionId::Data => 11,
            WasmSectionId::Custom => 12,
        }
    }

    /// Decodes a section identifier.
    pub fn from_u8(val: u8) -> (r: Option<Self>)
        ensures
            r == section_of_code(val),
            r matches Some(id) ==> section_code(id) == val,
            r is None <==> val > 12,
    {
        match val {
            0 => Some(Self::Custom),
            1 => Some(Self::Type),
            2 => Some(Self::Import),
            3 => Some(Self::Function),
            4 => Some(Self::Table),
            5 => Some(Self::Memory),
            6 => Some(Self::Global),
            7 => Some(Self::Export),
            8 => Some(Self::Start),
            9 => Some(Self::Element),
            10 => Some(Self::Code),
            11 => Some(Self::Data),
            12 => Some(Self::DataCount),
            _ => None,
        }
    }
}

/// WebAssembly primitive types
#[derive(Debug, Clone, Copy, PartialEq, Eq, Structural)]
pub enum WasmValType {
    I32,
    I64,
    F32,
    F64,
}

/// The byte that encodes a value type
pub open spec fn val_type_code(t: WasmValType) -> u8 {
    match t {
        WasmValType::I32 => 0x7F,
        WasmValType::I64 => 0x7E,
        WasmValType::F32 => 0x7D,
        WasmValType::F64 => 0x7C,
    }
}

/// The value type encoded by a byte
pub open spec fn val_type_of_code(v: u8) -> Option<WasmValType> {
    if v == 0x7F {
        Some(WasmValType::I32)
    } else if v == 0x7E {
        Some(WasmValType::I64)
    } else if v == 0x7D {
        Some(WasmValType::F32)
    } else if v == 0x7C {
        Some(WasmValType::F64)
    } else {
        None
    }
}

/// The value type encoded by a signed number (the code byte read as a signed LEB128 number)
pub open spec fn val_type_of_signed(v: int) -> Option<WasmValType> {
    if -4 <= v <= -1 {
        val_type_of_code((v + 128) as u8)
    } else {
        None
    }
}

/// The one-letter name of a value type
pub open spec fn val_type_mnemonic(t: WasmValType) -> char {
    match t {
        WasmValType::I32 => 'i',
        WasmValType::I64 => 'l',
        WasmValType::F32 => 'f',
        WasmValType::F64 => 'd',
    }
}

impl WasmValType {
    /// Decodes a value type from its byte.
    pub fn from_u8(v: u8) -> (r: Result<Self, CompileErrorKind>)
        ensures
            match val_type_of_code(v) {
                Some(t) => r == Ok::<Self, CompileErrorKind>(t),
                None => r == Err::<Self, CompileErrorKind>(CompileErrorKind::UnexpectedToken),
            },
    {
        match v {
            0x7F => Ok(Self::I32),
            0x7E => Ok(Self::I64),
            0x7D => Ok(Self::F32),
            0x7C => Ok(Self::F64),
            _ => Err(CompileErrorKind::UnexpectedToken),
        }
    }

    /// Decodes a value type from its signed number.
    pub fn from_i64(v: i64) -> (r: Result<Self, CompileErrorKind>)
        ensures
            match val_type_of_signed(v as int) {
                Some(t) => r == Ok::<Self, CompileErrorKind>(t),
                None => r == Err::<Self, CompileErrorKind>(CompileErrorKind::UnexpectedToken),
            },
    {
        match v {
            -1 => Ok(Self::I32),
            -2 => Ok(Self::I64),
            -3 => Ok(Self::F32),
            -4 => Ok(Self::F64),
            _ => Err(CompileErrorKind::UnexpectedToken),
        }
    }

    /// The one-letter name used in signatures
    pub fn mnemonic(&self) -> (r: char)
        ensures
            r == val_type_mnemonic(*self),
    {
        match *self {
            Self::I32 => 'i',
            Self::I64 => 'l',
            Self::F32 => 'f',
            Self::F64 => 'd',
        }
    }
}

/// Decoding a type from its byte and from the same byte read as a one-byte signed LEB128
/// number gives the same type.
pub proof fn lemma_val_type_codes_agree(b: u8)
    requires
        0x40 <= b < 0x80,
    ensures
        val_type_of_code(b) == val_type_of_signed(b - 128),
{
}

/// Every value type is decoded back from its byte.
pub proof fn lemma_val_type_code_roundtrip(t: WasmValType)
    ensures
        val_type_of_code(val_type_code(t)) == Some(t),
{
}

/// WebAssembly block types
#[derive(Debug, Clone, Copy, PartialEq, Eq, Structural)]
pub enum WasmBlockType {
    Empty,
    I32,
    I64,
    F32,
    F64,
}

/// The block type encoded by a signed number
pub open spec fn block_type_of_signed(v: int) -> Option<WasmBlockType> {
    if v == -64 {
        Some(WasmBlockType::Empty)
    } else if v == -1 {
        Some(WasmBlockType::I32)
    } else if v == -2 {
        Some(WasmBlockType::I64)
    } else if v == -3 {
        Some(WasmBlockType::F32)
    } else if v == -4 {
        Some(WasmBlockType::F64)
    } else {
        None
    }
}

/// The result type of a block
pub open spec fn block_result(b: WasmBlockType) -> Option<WasmValType> {
    match b {
        WasmBlockType::Empty => None,
        WasmBlockType::I32 => Some(WasmValType::I32),
        WasmBlockType::I64 => Some(WasmValType::I64),
        WasmBlockType::F32 => Some(WasmValType::F32),
        WasmBlockType::F64 => Some(WasmValType::F64),
    }
}

impl WasmBlockType {
    /// Decodes a block type from its signed number.
    pub fn from_i64(v: i64) -> (r: Result<Self, CompileErrorKind>)
        ensures
            match block_type_of_signed(v as int) {
                Some(t) => r == Ok::<Self, CompileErrorKind>(t),
                None => r == Err::<Self, CompileErrorKind>(CompileErrorKind::InvalidData),
            },
    {
        match v {
            -64 => Ok(Self::Empty),
            -1 => Ok(Self::I32),
            -2 => Ok(Self::I64),
            -3 => Ok(Self::F32),
            -4 => Ok(Self::F64),
            _ => Err(CompileErrorKind::InvalidData),
        }
    }

    /// The type of the value that the block leaves, if any
    pub fn into_type(self) -> (r: Option<WasmValType>)
        ensures
            r == block_result(self),
    {
        match self {
            WasmBlockType::Empty => None,
            WasmBlockType::I32 => Some(WasmValType::I32),
            WasmBlockType::I64 => Some(WasmValType::I64),
            WasmBlockType::F32 => Some(WasmValType::F32),
            WasmBlockType::F64 => Some(WasmValType::F64),
        }
    }
}

/// A block type other than the empty one stands for the value type of the same number.
pub proof fn lemma_block_type_matches_val_type(v: int)
    requires
        v != -64,
    ensures
        match block_type_of_signed(v) {
            Some(b) => block_result(b) == val_type_of_signed(v),
            None => val_type_of_signed(v) is None,
        },
{
}

/// Reads a block type.
pub fn read_block_type(reader: &mut Leb128Reader) -> (r: Result<WasmBlockType, ReadError>)
    ensures
        match decode_i64(old(reader).rest()) {
            Ok((v, n)) => match block_type_of_signed(v) {
                Some(t) => r == Ok::<WasmBlockType, ReadError>(t) && old(reader).advanced(final(reader), n),
                None => r == Err::<WasmBlockType, ReadError>(ReadError::InvalidData),
            },
            Err(e) => r == Err::<WasmBlockType, ReadError>(e),
        },
        final(reader).bytes() == old(reader).bytes(),
{
    let v = reader.read_signed()?;
    match WasmBlockType::from_i64(v) {
        Ok(t) => Ok(t),
        Err(_) => Err(ReadError::InvalidData),
    }
}

/// The index of a function type
#[derive(Debug, Clone, Copy, PartialEq, Eq, PartialOrd, Ord, Structural)]
pub struct WasmTypeIndex(pub u32);

impl WasmTypeIndex {
    /// The index as a `usize`
    pub fn as_usize(&self) -> (r: usize)
        ensures
            r == self.0,
    {
        self.0 as usize
    }
}

/// WebAssembly memory argument
#[derive(Debug, Clone, Copy, PartialEq, Eq, Structural)]
pub struct WasmMemArg {
    pub align: u32,
    pub offset: u32,
}

impl WasmMemArg {
    /// Creates a memory argument.
    pub fn new(offset: u32, align: u32) -> (r: Self)
        ensures
            r.offset == offset,
            r.align == align,
    {
        Self { offset, align }
    }
}

/// A memory argument: the alignment, then the offset
pub open spec fn decode_mem_arg(s: Seq<u8>) -> Result<(WasmMemArg, nat), ReadError> {
    match decode_u32(s) {
        Ok((a, n1)) => match decode_u32(s.skip(n1 as int)) {
            Ok((o, n2)) => Ok((WasmMemArg { align: a as u32, offset: o as u32 }, n1 + n2)),
            Err(e) => Err(e),
        },
        Err(e) => Err(e),
    }
}

/// Reads a memory argument.
pub fn read_mem_arg(reader: &mut Leb128Reader) -> (r: Result<WasmMemArg, ReadError>)
    ensures
        match decode_mem_arg(old(reader).rest()) {
            Ok((m, n)) => r == Ok::<WasmMemArg, ReadError>(m) && old(reader).advanced(final(reader), n),
            Err(e) => r == Err::<WasmMemArg, ReadError>(e),
        },
        final(reader).bytes() == old(reader).bytes(),
{
    let ghost r0 = *reader;
    let a = reader.read_u32()?;
    proof {
        let (_, n1) = decode_u32(r0.rest()).unwrap();
        crate::leb128::lemma_decode_unsigned_bounds(r0.rest(), 5, 16);
        r0.lemma_advanced_rest(reader, n1);
    }
    let o = reader.read_u32()?;
    Ok(WasmMemArg::new(o, a))
}

/// The kind of an imported or exported item
#[derive(Debug, Clone, Copy, PartialEq, Eq, PartialOrd, Ord, Structural)]
pub enum ImportExportKind {
    Function,
    Table,
    Memory,
    Global,
}

/// The answer of a resolver of imports
pub enum ImportResult<T> {
    /// The item was found
    Found(T),
    /// The module was not found
    NoModule,
    /// The item was not found in the module
    NoMethod,
}

/// The flags of a limit
#[derive(Debug, Clone, Copy, PartialEq, Eq, Structural)]
pub struct WasmLimitType(pub u8);

impl WasmLimitType {
    /// Flags allowed for memories (only `HAS_MAX`)
    pub const ALL_MEMORY: u64 = 1;
    /// Flags allowed for other items (only `HAS_MAX`)
    pub const ALL_OTHER: u64 = 1;
    /// The limit has a maximum
    pub const HAS_MAX: u8 = 1;
    /// The limit is shared
    pub const IS_SHARED: u8 = 2;
    /// The limit is 64-bit
    pub const IS_MEMORY64: u8 = 4;

    /// Checks the flags; only `HAS_MAX` is supported, for memories and for other items.
    pub fn new(value: u64, is_memory: bool) -> (r: Option<Self>)
        ensures
            value <= 1 ==> r == Some(WasmLimitType(value as u8)),
            value > 1 ==> r is None,
    {
        if is_memory {
            if value <= Self::ALL_MEMORY {
                Some(Self(value as u8))
            } else {
                None
            }
        } else {
            if value <= Self::ALL_OTHER {
                Some(Self(value as u8))
            } else {
                None
            }
        }
    }

    /// Whether the limit has a `max` field
    pub fn has_max(&self) -> (r: bool)
        ensures
            r == (self.0 & 1 != 0),
    {
        (self.0 & Self::HAS_MAX) != 0
    }

    /// Whether the limit is `shared`
    pub fn is_shared(&self) -> (r: bool)
        ensures
            r == (self.0 & 2 != 0),
    {
        (self.0 & Self::IS_SHARED) != 0
    }

    /// Whether the limit is `memory64`
    pub fn is_memory64(&self) -> (r: bool)
        ensures
            r == (self.0 & 4 != 0),
    {
        (self.0 & Self::IS_MEMORY64) != 0
    }
}

/// WebAssembly limit of a memory or a table; a maximum of zero reads as no maximum.
#[derive(Debug, Clone, Copy, PartialEq, Eq, Structural)]
pub struct WasmLimit {
    pub min: u32,
    pub max: Option<u32>,
    pub is_shared: bool,
}

/// A limit: the flags (0 or 1), the minimum, and the maximum when flag 1 is set
pub open spec fn decode_limit(s: Seq<u8>) -> Result<(WasmLimit, nat), CompileErrorKind> {
    match decode_u64(s) {
        Err(e) => Err(read_error_kind(e)),
        Ok((flags, n1)) => if flags > 1 {
            Err(CompileErrorKind::UnexpectedToken)
        } else {
            match decode_u32(s.skip(n1 as int)) {
                Err(e) => Err(read_error_kind(e)),
                Ok((min, n2)) => if flags == 1 {
                    match decode_u32(s.skip((n1 + n2) as int)) {
                        Err(e) => Err(read_error_kind(e)),
                        Ok((max, n3)) => Ok(
                            (
                                WasmLimit {
                                    min: min as u32,
                                    max: if max == 0 {
                                        None
                                    } else {
                                        Some(max as u32)
                                    },
                                    is_shared: false,
                                },
                                n1 + n2 + n3,
                            ),
                        ),
                    }
                } else {
                    Ok((WasmLimit { min: min as u32, max: None, is_shared: false }, n1 + n2))
                },
            }
        },
    }
}

impl WasmLimit {
    /// The limit of an empty memory
    pub fn zero() -> (r: Self)
        ensures
            r.min == 0,
            r.max is None,
            !r.is_shared,
    {
        Self { min: 0, max: None, is_shared: false }
    }

    /// Whether the limit allows no page at all: the maximum, or else the minimum, is zero
    pub open spec fn spec_is_zero(&self) -> bool {
        match self.max {
            Some(m) => m == 0,
            None => self.min == 0,
        }
    }

    /// Whether the limit allows no page at all: the maximum, or else the minimum, is zero
    pub fn is_zero(&self) -> (r: bool)
        ensures
            r == self.spec_is_zero(),
    {
        match self.max {
            Some(m) => m == 0,
            None => self.min == 0,
        }
    }

    /// Reads a limit.
    pub fn from_reader(reader: &mut Leb128Reader, is_memory: bool) -> (r: Result<Self, CompileErrorKind>)
        ensures
            match decode_limit(old(reader).rest()) {
                Ok((l, n)) => r == Ok::<Self, CompileErrorKind>(l) && old(reader).advanced(final(reader), n),
                Err(e) => r == Err::<Self, CompileErrorKind>(e),
            },
            final(reader).bytes() == old(reader).bytes(),
    {
        let ghost r0 = *reader;
        let flags = match reader.read_unsigned() {
            Ok(v) => v,
            Err(e) => return Err(CompileErrorKind::from_read_error(e)),
        };
        let limit_type = match WasmLimitType::new(flags, is_memory) {
            Some(t) => t,
            None => return Err(CompileErrorKind::UnexpectedToken),
        };
        let ghost r1 = *reader;
        proof {
            let (_, n1) = decode_u64(r0.rest()).unwrap();
            crate::leb128::lemma_decode_unsigned_bounds(r0.rest(), 10, 2);
            r0.lemma_advanced_rest(&r1, n1);
        }
        let min = match reader.read_u32() {
            Ok(v) => v,
            Err(e) => return Err(CompileErrorKind::from_read_error(e)),
        };
        let ghost r2 = *reader;
        proof {
            let (_, n1) = decode_u64(r0.rest()).unwrap();
            let (_, n2) = decode_u32(r1.rest()).unwrap();
            crate::leb128::lemma_decode_unsigned_bounds(r1.rest(), 5, 16);
            r1.lemma_advanced_rest(&r2, n2);
            assert(r2.rest() =~= r0.rest().skip((n1 + n2) as int));
            assert((flags & 1 != 0 <==> flags == 1) && flags & 2 == 0) by (bit_vector)
                requires
                    flags <= 1,
            ;
        }
        let max = if limit_type.has_max() {
            match reader.read_u32() {
                Ok(0) => None,
                Ok(v) => Some(v),
                Err(e) => return Err(CompileErrorKind::from_read_error(e)),
            }
        } else {
            None
        };
        Ok(Self { min, max, is_shared: limit_type.is_shared() })
    }

    /// The minimum number of pages or elements
    pub fn min(&self) -> (r: u32)
        ensures
            r == self.min,
    {
        self.min
    }

    /// The maximum number of pages or elements, if any
    pub fn max(&self) -> (r: Option<u32>)
        ensures
            r == self.max,
    {
        self.max
    }

    /// Whether the limit is shared
    pub fn is_shared(&self) -> (r: bool)
        ensures
            r == self.is_shared,
    {
        self.is_shared
    }
}

/// WebAssembly table object
pub struct WasmTable {
    limit: WasmLimit,
    table: Vec<usize>,
}

/// A table type: the element type `funcref` (0x70), then a limit
pub open spec fn decode_table(s: Seq<u8>) -> Result<(WasmLimit, nat), CompileErrorKind> {
    if s.len() == 0 {
        Err(CompileErrorKind::UnexpectedEof)
    } else if s[0] != 0x70 {
        Err(CompileErrorKind::UnexpectedToken)
    } else {
        match decode_limit(s.skip(1)) {
            Ok((l, n)) => Ok((l, n + 1)),
            Err(e) => Err(e),
        }
    }
}

impl WasmTable {
    /// The limit of the table
    pub closed spec fn spec_limit(&self) -> WasmLimit {
        self.limit
    }

    /// The elements of the table: indices of functions
    pub closed spec fn elements(&self) -> Seq<usize> {
        self.table@
    }

    /// A table of `limit.min` elements, all zero
    pub fn with_limit(limit: WasmLimit) -> (r: Self)
        ensures
            r.spec_limit() == limit,
            r.elements() == Seq::new(limit.min as nat, |i: int| 0usize),
    {
        let size = limit.min as usize;
        let mut table: Vec<usize> = Vec::new();
        let mut i: usize = 0;
        while i < size
            invariant
                i <= size,
                size == limit.min,
                table@ == Seq::new(i as nat, |j: int| 0usize),
            decreases size - i,
        {
            table.push(0);
            i = i + 1;
        }
        Self { limit, table }
    }

    /// Reads a table type and creates the table.
    pub fn from_reader(reader: &mut Leb128Reader) -> (r: Result<Self, CompileErrorKind>)
        ensures
            match decode_table(old(reader).rest()) {
                Ok((l, n)) => (r matches Ok(t) && t.spec_limit() == l && t.elements() == Seq::new(
                    l.min as nat,
                    |i: int| 0usize,
                ) && old(reader).advanced(final(reader), n)),
                Err(e) => r matches Err(e2) && e2 == e,
            },
            final(reader).bytes() == old(reader).bytes(),
    {
        let ghost r0 = *reader;
        match reader.read_byte() {
            Ok(0x70) => (),
            Err(e) => return Err(CompileErrorKind::from_read_error(e)),
            _ => return Err(CompileErrorKind::UnexpectedToken),
        };
        proof {
            r0.lemma_advanced_rest(reader, 1);
        }
        let limit = WasmLimit::from_reader(reader, false)?;
        Ok(Self::with_limit(limit))
    }

    /// The limit of the table
    pub fn limit(&self) -> (r: WasmLimit)
        ensures
            r == self.spec_limit(),
    {
        self.limit
    }

    /// The elements of the table
    pub fn table(&self) -> (r: &[usize])
        ensures
            r@ == self.elements(),
    {
        self.table.as_slice()
    }

    /// Sets an element; an index beyond the table is ignored.
    pub fn set_element(&mut self, index: usize, value: usize)
        ensures
            final(self).spec_limit() == old(self).spec_limit(),
            index < old(self).elements().len() ==> final(self).elements() == old(self).elements().update(
                index as int,
                value,
            ),
            index >= old(self).elements().len() ==> final(self).elements() == old(self).elements(),
    {
        if index < self.table.len() {
            self.table.set(index, value);
        }
    }
}

/// The index of a global variable
#[derive(Debug, Clone, Copy, PartialEq, Eq, Structural)]
pub struct GlobalVarIndex(pub u32);

impl GlobalVarIndex {
    /// Creates an index.
    pub fn new(val: u32) -> (r: Self)
        ensures
            r.0 == val,
    {
        Self(val)
    }

    /// The index as a `usize`
    pub fn as_usize(&self) -> (r: usize)
        ensures
            r == self.0,
    {
        self.0 as usize
    }
}

/// The index of a local variable
#[derive(Debug, Clone, Copy, PartialEq, Eq, Structural)]
pub struct LocalVarIndex(pub u32);

impl LocalVarIndex {
    /// Creates an index.
    pub fn new(val: u32) -> (r: Self)
        ensures
            r.0 == val,
    {
        Self(val)
    }

    /// The index as a `usize`
    pub fn as_usize(&self) -> (r: usize)
        ensures
            r == self.0,
    {
        self.0 as usize
    }
}

/// The targets of a `br_table` instruction, the last one being the default
#[derive(Debug, Clone)]
pub struct BrTableVec {
    inner: Vec<u32>,
}

impl BrTableVec {
    /// The targets
    pub closed spec fn targets(&self) -> Seq<u32> {
        self.inner@
    }

    /// Creates a table holding a copy of `slice`.
    pub fn new(slice: &[u32]) -> (r: Self)
        ensures
            r.targets() == slice@,
    {
        let mut inner: Vec<u32> = Vec::new();
        let mut i: usize = 0;
        while i < slice.len()
            invariant
                i <= slice.len(),
                inner@ == slice@.subrange(0, i as int),
            decreases slice.len() - i,
        {
            inner.push(slice[i]);
            i = i + 1;
        }
        Self { inner }
    }

    /// The number of targets
    pub fn len(&self) -> (r: usize)
        ensures
            r == self.targets().len(),
    {
        self.inner.len()
    }

    /// The targets
    pub fn as_slice(&self) -> (r: &[u32])
        ensures
            r@ == self.targets(),
    {
        self.inner.as_slice()
    }

    /// A table with the same targets
    pub fn duplicate(&self) -> (r: Self)
        ensures
            r.targets() == self.targets(),
    {
        Self::new(self.inner.as_slice())
    }

    /// Replaces a target.
    pub fn set(&mut self, index: usize, value: u32)
        requires
            index < old(self).targets().len(),
        ensures
            final(self).targets() == old(self).targets().update(index as int, value),
    {
        self.inner.set(index, value);
    }
}

/// Subsections of the name section
#[derive(Debug, Clone, Copy, PartialEq, Eq, PartialOrd, Ord, Structural)]
pub enum WasmNameSubsectionType {
    Module,
    Function,
    Local,
    Labels,
    Type,
    Table,
    Memory,
    Global,
    ElemSegment,
    DataSegment,
}

/// The byte that identifies a name subsection
pub open spec fn name_subsection_code(t: WasmNameSubsectionType) -> u8 {
    match t {
        WasmNameSubsectionType::Module => 0,
        WasmNameSubsectionType::Function => 1,
        WasmNameSubsectionType::Local => 2,
        WasmNameSubsectionType::Labels => 3,
        WasmNameSubsectionType::Type => 4,
        WasmNameSubsectionType::Table => 5,
        WasmNameSubsectionType::Memory => 6,
        WasmNameSubsectionType::Global => 7,
        WasmNameSubsectionType::ElemSegment => 8,
        WasmNameSubsectionType::DataSegment => 9,
    }
}

impl WasmNameSubsectionType {
    /// Decodes a name subsection identifier.
    pub fn from_u8(val: u8) -> (r: Option<Self>)
        ensures
            r matches Some(t) ==> name_subsection_code(t) == val,
            r is None <==> val > 9,
    {
        match val {
            0 => Some(Self::Module),
            1 => Some(Self::Function),
            2 => Some(Self::Local),
            3 => Some(Self::Labels),
            4 => Some(Self::Type),
            5 => Some(Self::Table),
            6 => Some(Self::Memory),
            7 => Some(Self::Global),
            8 => Some(Self::ElemSegment),
            9 => Some(Self::DataSegment),
            _ => None,
        }
    }
}

} // verus!
