//! Errors of decoding, linking and running a module
use crate::leb128::ReadError;
use crate::opcode::{mnemonic_text, WasmMnemonic};
use crate::text::{in_base, push_number};
use crate::wasm::{WasmSectionId, WasmTypeIndex, WasmValType};
use vstd::prelude::*;
use vstd::string::StringExecFns;

verus! {

/// A position in the module file, where 0 stands for an unknown position
#[derive(Debug, Clone, Copy, PartialEq, Eq, Structural)]
pub struct ExceptionPosition(pub u32);

impl ExceptionPosition {
    /// The unknown position
    pub fn unknown() -> (r: Self)
        ensures
            r.0 == 0,
    {
        Self(0)
    }

    /// Records a position; positions beyond 32 bits keep their low 32 bits.
    pub fn new(position: usize) -> (r: Self)
        ensures
            r.0 == position as u32,
    {
        Self(position as u32)
    }

    /// The recorded position
    pub fn position(&self) -> (r: usize)
        ensures
            r == self.0,
    {
        self.0 as usize
    }

    /// Whether the position is known
    pub fn is_valid(&self) -> (r: bool)
        ensures
            r == (self.0 != 0),
    {
        self.0 != 0
    }
}

/// The kind of a compile error
#[derive(Debug, Clone, Copy, PartialEq, Eq, Structural)]
pub enum CompileErrorKind {
    /// Not an executable file.
    BadExecutable,
    /// Unexpected end of stream.
    UnexpectedEof,
    /// Unexpected token detected during decoding.
    UnexpectedToken,
    /// Detected a bytecode that cannot be decoded.
    InvalidBytecode(u8),
    /// Detected a bytecode that cannot be decoded.
    InvalidBytecode2(u8, u32),
    /// Unsupported bytecode
    UnsupportedBytecode(WasmMnemonic),
    /// Unsupported global data type
    UnsupportedGlobalType(WasmValType),
    /// Unprocessable section order found.
    InvalidSectionOrder(WasmSectionId),
    /// Invalid parameter was specified.
    InvalidData,
    /// Invalid stack level.
    InvalidStackLevel,
    /// Specified a non-existent type.
    InvalidType(WasmTypeIndex),
    /// Invalid global variable specified.
    InvalidGlobal,
    /// Invalid local variable specified.
    InvalidLocal,
    /// Value stack is out of range
    OutOfStack,
    /// Branching targets are out of nest range
    OutOfBranch,
    /// Out of memory
    OutOfMemory,
    /// Code Section
    OutOfFunction,
    /// The type of the value stack does not match.
    TypeMismatch,
    /// Termination of invalid blocks
    BlockMismatch,
    /// The `else` block and the `if` block do not match.
    ElseWithoutIf,
    /// An `else` block is missing
    ElseNotExists,
    /// Internal error
    InternalInconsistency,
    /// For debugging purposes
    ForDebug(usize),
}

/// The compile error kind that a stream error stands for
pub open spec fn read_error_kind(e: ReadError) -> CompileErrorKind {
    match e {
        ReadError::InvalidData => CompileErrorKind::InvalidData,
        ReadError::UnexpectedEof => CompileErrorKind::UnexpectedEof,
        ReadError::OutOfBounds => CompileErrorKind::UnexpectedToken,
    }
}

impl CompileErrorKind {
    /// Converts a stream error.
    pub fn from_read_error(e: ReadError) -> (r: Self)
        ensures
            r == read_error_kind(e),
    {
        match e {
            ReadError::InvalidData => CompileErrorKind::InvalidData,
            ReadError::UnexpectedEof => CompileErrorKind::UnexpectedEof,
            ReadError::OutOfBounds => CompileErrorKind::UnexpectedToken,
        }
    }
}

/// Where a compile error was detected
#[derive(Debug, Clone, PartialEq, Eq)]
pub enum CompileErrorSource {
    /// Unknown place
    Unknown,
    /// In a constant expression, at the given offset
    ConstantExpression(ExceptionPosition),
    /// In the body of a function: its index, its name, the offset and the instruction
    Function(usize, Option<String>, ExceptionPosition, Option<WasmMnemonic>),
}

/// A compile error with its position
#[derive(Debug, Clone)]
pub struct CompileError {
    kind: CompileErrorKind,
    file_position: ExceptionPosition,
    source: CompileErrorSource,
}

impl CompileError {
    /// Creates an error.
    pub fn new(kind: CompileErrorKind, file_position: ExceptionPosition, source: CompileErrorSource) -> (r: Self)
        ensures
            r.spec_kind() == kind,
            r.spec_file_position() == file_position,
            r.spec_source() == source,
    {
        Self { kind, file_position, source }
    }

    /// An error of the given kind at an unknown position
    pub fn from_kind(kind: CompileErrorKind) -> (r: Self)
        ensures
            r.spec_kind() == kind,
            r.spec_file_position() == ExceptionPosition(0),
            r.spec_source() == CompileErrorSource::Unknown,
    {
        Self { kind, file_position: ExceptionPosition(0), source: CompileErrorSource::Unknown }
    }

    /// The kind of the error
    pub closed spec fn spec_kind(&self) -> CompileErrorKind {
        self.kind
    }

    /// The position of the error
    pub closed spec fn spec_file_position(&self) -> ExceptionPosition {
        self.file_position
    }

    /// Where the error was detected
    pub closed spec fn spec_source(&self) -> CompileErrorSource {
        self.source
    }

    /// The kind of the error
    pub fn kind(&self) -> (r: &CompileErrorKind)
        ensures
            *r == self.spec_kind(),
    {
        &self.kind
    }

    /// The position of the error
    pub fn file_position(&self) -> (r: &ExceptionPosition)
        ensures
            *r == self.spec_file_position(),
    {
        &self.file_position
    }

    /// Where the error was detected
    pub fn source(&self) -> (r: &CompileErrorSource)
        ensures
            *r == self.spec_source(),
    {
        &self.source
    }

    /// The message of the error, as `compile_error_text` writes it
    pub fn text(&self) -> (r: String)
        ensures
            r@ == compile_error_text(*self),
    {
        let mut s = String::from_str("CompileError: ");
        let kind = self.kind.text();
        s.append(kind.as_str());
        let fp = self.file_position.0 as u64;
        match &self.source {
            CompileErrorSource::Unknown => {
                if self.file_position.is_valid() {
                    s.append(" at ");
                    push_number(&mut s, fp, 16);
                }
            },
            CompileErrorSource::ConstantExpression(p) => {
                s.append(" at expression 0x");
                push_number(&mut s, fp, 16);
                s.append("(0x");
                push_number(&mut s, p.0 as u64, 16);
                s.append(")");
            },
            CompileErrorSource::Function(index, name, p, bytecode) => {
                s.append(" at function[");
                push_number(&mut s, *index as u64, 10);
                s.append("]");
                match name {
                    Some(n) => {
                        s.append(" <");
                        s.append(n.as_str());
                        s.append(">");
                    },
                    None => {},
                }
                s.append(" 0x");
                push_number(&mut s, fp, 16);
                s.append("(0x");
                push_number(&mut s, p.0 as u64, 16);
                s.append(") ");
                match bytecode {
                    Some(m) => s.append(m.to_str()),
                    None => s.append("???"),
                }
            },
        }
        s
    }
}

/// The message of a compile error: `CompileError: `, the text of its kind, then where it was
/// detected: the position in the file in hexadecimal, and for a constant expression or a
/// function its offset in hexadecimal, for a function its index, its name and its instruction
/// by text format name (`???` when unknown)
pub open spec fn compile_error_text(e: CompileError) -> Seq<char> {
    let head = "CompileError: "@ + compile_kind_text(e.spec_kind());
    let fp = e.spec_file_position().0 as nat;
    match e.spec_source() {
        CompileErrorSource::Unknown => if fp != 0 {
            head + " at "@ + in_base(fp, 16)
        } else {
            head
        },
        CompileErrorSource::ConstantExpression(p) => head + " at expression 0x"@ + in_base(fp, 16) + "(0x"@ + in_base(
            p.0 as nat,
            16,
        ) + ")"@,
        CompileErrorSource::Function(index, name, p, bytecode) => head + " at function["@ + in_base(index as nat, 10)
            + "]"@ + match name {
            Some(n) => " <"@ + n@ + ">"@,
            None => Seq::empty(),
        } + " 0x"@ + in_base(fp, 16) + "(0x"@ + in_base(p.0 as nat, 16) + ") "@ + match bytecode {
            Some(m) => mnemonic_text(m),
            None => "???"@,
        },
    }
}

/// Errors of linking imports
#[derive(Debug, Clone, PartialEq, Eq)]
pub enum LinkError {
    /// Imported function does not exist.
    NoMethod(String),
    /// Imported module does not exist.
    NoModule(String),
    /// Internal error
    InternalInconsistency,
}

/// Errors at run time
#[derive(Debug, Clone, Copy, PartialEq, Eq, Structural)]
pub enum WasmRuntimeErrorKind {
    /// (not an error) Exit the application
    Exit,
    /// (recoverable) Memory couldn't be borrowed
    MemoryBorrowError,
    /// (recoverable) Would block
    WouldBlock,
    /// (unrecoverable) Argument type mismatch (e.g., call instruction).
    InvalidParameter,
    /// (unrecoverable) Intermediate code that could not be converted
    NotSupported,
    /// (unrecoverable) The Unreachable instruction was executed.
    Unreachable,
    /// (unrecoverable) Memory Boundary Errors
    OutOfBounds,
    /// (unrecoverable) The specified function cannot be found.
    NoMethod,
    /// (unrecoverable) Device by zero
    DivideByZero,
    /// (unrecoverable) The type of call instructions do not match.
    TypeMismatch,
    /// (unrecoverable) Internal error
    InternalInconsistency,
    /// (unrecoverable) Out of Memory
    OutOfMemory,
}

/// The name of a section id, as `Debug` writes it
pub open spec fn section_name(x: WasmSectionId) -> Seq<char> {
    match x {
        WasmSectionId::Type => "Type"@,
        WasmSectionId::Import => "Import"@,
        WasmSectionId::Function => "Function"@,
        WasmSectionId::Table => "Table"@,
        WasmSectionId::Memory => "Memory"@,
        WasmSectionId::Global => "Global"@,
        WasmSectionId::Export => "Export"@,
        WasmSectionId::Start => "Start"@,
        WasmSectionId::Element => "Element"@,
        WasmSectionId::DataCount => "DataCount"@,
        WasmSectionId::Code => "Code"@,
        WasmSectionId::Data => "Data"@,
        WasmSectionId::Custom => "Custom"@,
    }
}

/// The name of a section id
fn section_name_of(x: WasmSectionId) -> (r: &'static str)
    ensures
        r@ == section_name(x),
{
    match x {
        WasmSectionId::Type => "Type",
        WasmSectionId::Import => "Import",
        WasmSectionId::Function => "Function",
        WasmSectionId::Table => "Table",
        WasmSectionId::Memory => "Memory",
        WasmSectionId::Global => "Global",
        WasmSectionId::Export => "Export",
        WasmSectionId::Start => "Start",
        WasmSectionId::Element => "Element",
        WasmSectionId::DataCount => "DataCount",
        WasmSectionId::Code => "Code",
        WasmSectionId::Data => "Data",
        WasmSectionId::Custom => "Custom",
    }
}

/// The name of a value type, as `Debug` writes it
pub open spec fn val_type_name(x: WasmValType) -> Seq<char> {
    match x {
        WasmValType::I32 => "I32"@,
        WasmValType::I64 => "I64"@,
        WasmValType::F32 => "F32"@,
        WasmValType::F64 => "F64"@,
    }
}

/// The name of a value type
fn val_type_name_of(x: WasmValType) -> (r: &'static str)
    ensures
        r@ == val_type_name(x),
{
    match x {
        WasmValType::I32 => "I32",
        WasmValType::I64 => "I64",
        WasmValType::F32 => "F32",
        WasmValType::F64 => "F64",
    }
}

/// The text of a compile error kind: its name as `Debug` writes it, a number in decimal, an
/// instruction by its text format name
pub open spec fn compile_kind_text(k: CompileErrorKind) -> Seq<char> {
    match k {
        CompileErrorKind::BadExecutable => "BadExecutable"@,
        CompileErrorKind::UnexpectedEof => "UnexpectedEof"@,
        CompileErrorKind::UnexpectedToken => "UnexpectedToken"@,
        CompileErrorKind::InvalidData => "InvalidData"@,
        CompileErrorKind::InvalidStackLevel => "InvalidStackLevel"@,
        CompileErrorKind::InvalidGlobal => "InvalidGlobal"@,
        CompileErrorKind::InvalidLocal => "InvalidLocal"@,
        CompileErrorKind::OutOfStack => "OutOfStack"@,
        CompileErrorKind::OutOfBranch => "OutOfBranch"@,
        CompileErrorKind::OutOfMemory => "OutOfMemory"@,
        CompileErrorKind::OutOfFunction => "OutOfFunction"@,
        CompileErrorKind::TypeMismatch => "TypeMismatch"@,
        CompileErrorKind::BlockMismatch => "BlockMismatch"@,
        CompileErrorKind::ElseWithoutIf => "ElseWithoutIf"@,
        CompileErrorKind::ElseNotExists => "ElseNotExists"@,
        CompileErrorKind::InternalInconsistency => "InternalInconsistency"@,
        CompileErrorKind::InvalidBytecode(b) => "InvalidBytecode("@ + in_base(b as nat, 10) + ")"@,
        CompileErrorKind::InvalidBytecode2(b, v) => "InvalidBytecode2("@ + in_base(b as nat, 10) + ", "@ + in_base(v as nat, 10) + ")"@,
        CompileErrorKind::UnsupportedBytecode(m) => "UnsupportedBytecode("@ + mnemonic_text(m) + ")"@,
        CompileErrorKind::UnsupportedGlobalType(t) => "UnsupportedGlobalType("@ + val_type_name(t) + ")"@,
        CompileErrorKind::InvalidSectionOrder(id) => "InvalidSectionOrder("@ + section_name(id) + ")"@,
        CompileErrorKind::InvalidType(t) => "InvalidType(WasmTypeIndex("@ + in_base(t.0 as nat, 10) + "))"@,
        CompileErrorKind::ForDebug(v) => "ForDebug("@ + in_base(v as nat, 10) + ")"@,
    }
}

/// The text of a run-time error kind: its name as `Debug` writes it
pub open spec fn runtime_kind_text(k: WasmRuntimeErrorKind) -> Seq<char> {
    match k {
        WasmRuntimeErrorKind::Exit => "Exit"@,
        WasmRuntimeErrorKind::MemoryBorrowError => "MemoryBorrowError"@,
        WasmRuntimeErrorKind::WouldBlock => "WouldBlock"@,
        WasmRuntimeErrorKind::InvalidParameter => "InvalidParameter"@,
        WasmRuntimeErrorKind::NotSupported => "NotSupported"@,
        WasmRuntimeErrorKind::Unreachable => "Unreachable"@,
        WasmRuntimeErrorKind::OutOfBounds => "OutOfBounds"@,
        WasmRuntimeErrorKind::NoMethod => "NoMethod"@,
        WasmRuntimeErrorKind::DivideByZero => "DivideByZero"@,
        WasmRuntimeErrorKind::TypeMismatch => "TypeMismatch"@,
        WasmRuntimeErrorKind::InternalInconsistency => "InternalInconsistency"@,
        WasmRuntimeErrorKind::OutOfMemory => "OutOfMemory"@,
    }
}

impl CompileErrorKind {
    /// The text of the kind, as `compile_kind_text` writes it
    pub fn text(&self) -> (r: String)
        ensures
            r@ == compile_kind_text(*self),
    {
        match *self {
            CompileErrorKind::BadExecutable => String::from_str("BadExecutable"),
            CompileErrorKind::UnexpectedEof => String::from_str("UnexpectedEof"),
            CompileErrorKind::UnexpectedToken => String::from_str("UnexpectedToken"),
            CompileErrorKind::InvalidData => String::from_str("InvalidData"),
            CompileErrorKind::InvalidStackLevel => String::from_str("InvalidStackLevel"),
            CompileErrorKind::InvalidGlobal => String::from_str("InvalidGlobal"),
            CompileErrorKind::InvalidLocal => String::from_str("InvalidLocal"),
            CompileErrorKind::OutOfStack => String::from_str("OutOfStack"),
            CompileErrorKind::OutOfBranch => String::from_str("OutOfBranch"),
            CompileErrorKind::OutOfMemory => String::from_str("OutOfMemory"),
            CompileErrorKind::OutOfFunction => String::from_str("OutOfFunction"),
            CompileErrorKind::TypeMismatch => String::from_str("TypeMismatch"),
            CompileErrorKind::BlockMismatch => String::from_str("BlockMismatch"),
            CompileErrorKind::ElseWithoutIf => String::from_str("ElseWithoutIf"),
            CompileErrorKind::ElseNotExists => String::from_str("ElseNotExists"),
            CompileErrorKind::InternalInconsistency => String::from_str("InternalInconsistency"),
            CompileErrorKind::InvalidBytecode(b) => {
                let mut s = String::from_str("InvalidBytecode(");
                push_number(&mut s, b as u64, 10);
                s.append(")");
                s
            },
            CompileErrorKind::InvalidBytecode2(b, v) => {
                let mut s = String::from_str("InvalidBytecode2(");
                push_number(&mut s, b as u64, 10);
                s.append(", ");
                push_number(&mut s, v as u64, 10);
                s.append(")");
                s
            },
            CompileErrorKind::UnsupportedBytecode(m) => {
                let mut s = String::from_str("UnsupportedBytecode(");
                s.append(m.to_str());
                s.append(")");
                s
            },
            CompileErrorKind::UnsupportedGlobalType(t) => {
                let mut s = String::from_str("UnsupportedGlobalType(");
                s.append(val_type_name_of(t));
                s.append(")");
                s
            },
            CompileErrorKind::InvalidSectionOrder(id) => {
                let mut s = String::from_str("InvalidSectionOrder(");
                s.append(section_name_of(id));
                s.append(")");
                s
            },
            CompileErrorKind::InvalidType(t) => {
                let mut s = String::from_str("InvalidType(WasmTypeIndex(");
                push_number(&mut s, t.0 as u64, 10);
                s.append("))");
                s
            },
            CompileErrorKind::ForDebug(v) => {
                let mut s = String::from_str("ForDebug(");
                push_number(&mut s, v as u64, 10);
                s.append(")");
                s
            },
        }
    }
}

impl WasmRuntimeErrorKind {
    /// The text of the kind, as `runtime_kind_text` writes it
    pub fn text(&self) -> (r: String)
        ensures
            r@ == runtime_kind_text(*self),
    {
        match *self {
            WasmRuntimeErrorKind::Exit => String::from_str("Exit"),
            WasmRuntimeErrorKind::MemoryBorrowError => String::from_str("MemoryBorrowError"),
            WasmRuntimeErrorKind::WouldBlock => String::from_str("WouldBlock"),
            WasmRuntimeErrorKind::InvalidParameter => String::from_str("InvalidParameter"),
            WasmRuntimeErrorKind::NotSupported => String::from_str("NotSupported"),
            WasmRuntimeErrorKind::Unreachable => String::from_str("Unreachable"),
            WasmRuntimeErrorKind::OutOfBounds => String::from_str("OutOfBounds"),
            WasmRuntimeErrorKind::NoMethod => String::from_str("NoMethod"),
            WasmRuntimeErrorKind::DivideByZero => String::from_str("DivideByZero"),
            WasmRuntimeErrorKind::TypeMismatch => String::from_str("TypeMismatch"),
            WasmRuntimeErrorKind::InternalInconsistency => String::from_str("InternalInconsistency"),
            WasmRuntimeErrorKind::OutOfMemory => String::from_str("OutOfMemory"),
        }
    }
}

} // verus!
