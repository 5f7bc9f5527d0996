//! Errors at run time with their location, and the value stack of the interpreter
use crate::error::{runtime_kind_text, ExceptionPosition, WasmRuntimeErrorKind};
use crate::module::{body_code_offset, body_position, WasmModule};
use crate::wasmrt::Fault;
use crate::opcode::{mnemonic_text, WasmMnemonic};
use crate::text::{in_base, push_number};
use vstd::prelude::*;
use vstd::string::StringExecFns;

verus! {

/// An error at run time, with the function and the instruction where it happened
pub struct WasmRuntimeError {
    kind: WasmRuntimeErrorKind,
    file_position: usize,
    function: usize,
    function_name: Option<String>,
    position: usize,
    mnemonic: WasmMnemonic,
}

impl WasmRuntimeError {
    /// The kind of the error
    pub closed spec fn spec_kind(&self) -> WasmRuntimeErrorKind {
        self.kind
    }

    /// The position of the instruction in the file
    pub closed spec fn spec_file_position(&self) -> usize {
        self.file_position
    }

    /// The index of the function
    pub closed spec fn spec_function(&self) -> usize {
        self.function
    }

    /// The name of the function, if the module names it
    pub closed spec fn spec_function_name(&self) -> Option<Seq<char>> {
        match self.function_name {
            Some(s) => Some(s@),
            None => None,
        }
    }

    /// The position of the instruction in the body, counted from its start, the declarations
    /// of locals included
    pub closed spec fn spec_position(&self) -> usize {
        self.position
    }

    /// The instruction
    pub closed spec fn spec_mnemonic(&self) -> WasmMnemonic {
        self.mnemonic
    }

    /// An error of function `function` of `module` at `ex_position` of its body: its name
    /// comes from the name section, its position in the file from the position of the body
    /// (0 when it has none).
    pub fn at(
        module: &WasmModule,
        function: usize,
        kind: WasmRuntimeErrorKind,
        mnemonic: WasmMnemonic,
        ex_position: ExceptionPosition,
    ) -> (r: Self)
        ensures
            r.spec_kind() == kind,
            r.spec_function() == function,
            r.spec_mnemonic() == mnemonic,
            r.spec_position() == ex_position.0 as usize,
            r.spec_file_position() == position_in_file(*module, function, ex_position.0 as usize),
            names_function(r, *module, function),
    {
        let function_name = match module.names() {
            Some(names) => match names.func_by_index(function) {
                Some(s) => Some(s.to_owned()),
                None => None,
            },
            None => None,
        };
        let base = match module.func_position(function) {
            Some(p) => p,
            None => 0,
        };
        let position = ex_position.position();
        Self {
            kind,
            file_position: base.wrapping_add(position),
            function,
            function_name,
            position,
            mnemonic,
        }
    }

    /// The kind of the error
    pub fn kind(&self) -> (r: WasmRuntimeErrorKind)
        ensures
            r == self.spec_kind(),
    {
        self.kind
    }

    /// The position of the instruction in the file
    pub fn file_position(&self) -> (r: usize)
        ensures
            r == self.spec_file_position(),
    {
        self.file_position
    }

    /// The index of the function
    pub fn function(&self) -> (r: usize)
        ensures
            r == self.spec_function(),
    {
        self.function
    }

    /// The name of the function, if the module names it
    pub fn function_name(&self) -> (r: Option<&str>)
        ensures
            match r {
                Some(s) => self.spec_function_name() == Some(s@),
                None => self.spec_function_name() is None,
            },
    {
        match &self.function_name {
            Some(s) => Some(s.as_str()),
            None => None,
        }
    }

    /// The position of the instruction in the body, counted from its start, the declarations
    /// of locals included
    pub fn position(&self) -> (r: usize)
        ensures
            r == self.spec_position(),
    {
        self.position
    }

    /// The instruction
    pub fn mnemonic(&self) -> (r: WasmMnemonic)
        ensures
            r == self.spec_mnemonic(),
    {
        self.mnemonic
    }

    /// The message of the error, as `runtime_error_text` writes it
    pub fn text(&self) -> (r: String)
        ensures
            r@ == runtime_error_text(*self),
    {
        let mut s = self.kind.text();
        s.append(" at ");
        match &self.function_name {
            Some(n) => {
                s.append(n.as_str());
                s.append("($");
                push_number(&mut s, self.function as u64, 10);
                s.append("):");
            },
            None => {
                s.append("$");
                push_number(&mut s, self.function as u64, 10);
                s.append(":");
            },
        }
        push_number(&mut s, self.position as u64, 10);
        s.append(", 0x");
        push_number(&mut s, self.file_position as u64, 16);
        s.append(": ");
        s.append(self.mnemonic.to_str());
        s
    }
}

/// The message of a run-time error: the text of its kind, ` at `, the function by its name and
/// index (`name($index)`) or by its index alone (`$index`), `:` and the position in the body,
/// then the position in the file in hexadecimal and the instruction by its text format name
pub open spec fn runtime_error_text(e: WasmRuntimeError) -> Seq<char> {
    runtime_kind_text(e.spec_kind()) + " at "@ + match e.spec_function_name() {
        Some(n) => n + "($"@ + in_base(e.spec_function() as nat, 10) + "):"@,
        None => "$"@ + in_base(e.spec_function() as nat, 10) + ":"@,
    } + in_base(e.spec_position() as nat, 10) + ", 0x"@ + in_base(e.spec_file_position() as nat, 16) + ": "@
        + mnemonic_text(e.spec_mnemonic())
}

/// The position in the file of the instruction at `pos` of the body of function `function`:
/// counted from 0 when the function has no body
pub open spec fn position_in_file(m: WasmModule, function: usize, pos: usize) -> usize {
    match body_position(m, function as nat) {
        Some(p) => p.wrapping_add(pos),
        None => 0usize.wrapping_add(pos),
    }
}

/// Whether `err` names function `function` as the name section of `m` does: a name it gives
/// the function, if any; a name whenever the section lists the function in order
pub open spec fn names_function(err: WasmRuntimeError, m: WasmModule, function: usize) -> bool {
    match m.names_view() {
        Some(ns) => match err.spec_function_name() {
            Some(n) => ns.1.contains((function, n)),
            None => !(crate::names::keys_sorted(ns.1) && exists|i: int| 0 <= i < ns.1.len() && (#[trigger] ns.1[i]).0 == function),
        },
        None => err.spec_function_name() is None,
    }
}

/// Whether `err` is the bare error `kind`, without a function or an instruction
pub open spec fn is_bare(err: WasmRuntimeError, kind: WasmRuntimeErrorKind) -> bool {
    &&& err.spec_kind() == kind
    &&& err.spec_function() == 0
    &&& err.spec_function_name() is None
    &&& err.spec_position() == 0
    &&& err.spec_file_position() == 0
    &&& err.spec_mnemonic() == WasmMnemonic::Unreachable
}

/// Whether `err` reports the error `flt` of a run of the function whose index is `function`
/// in `m`: with the function, its name, the instruction that raised it and its position in
/// the body, the local declarations counted, when an instruction did; as a bare error otherwise
pub open spec fn reports(err: WasmRuntimeError, m: WasmModule, function: nat, flt: Fault) -> bool {
    match flt.site {
        Some(s) => {
            let f = match s.func {
                Some(g) => g,
                None => function as usize,
            };
            &&& err.spec_kind() == flt.kind
            &&& err.spec_function() == f
            &&& err.spec_mnemonic() == s.mnemonic
            &&& err.spec_position() == (body_code_offset(m, f as nat).wrapping_add(s.pos) as u32) as usize
            &&& err.spec_file_position() == position_in_file(
                m,
                f,
                (body_code_offset(m, f as nat).wrapping_add(s.pos) as u32) as usize,
            )
            &&& names_function(err, m, f)
        },
        None => is_bare(err, flt.kind),
    }
}

impl WasmRuntimeError {
    /// The bare error `kind`
    pub fn bare(kind: WasmRuntimeErrorKind) -> (r: Self)
        ensures
            is_bare(r, kind),
    {
        Self { kind, file_position: 0, function: 0, function_name: None, position: 0, mnemonic: WasmMnemonic::Unreachable }
    }

    /// The error that reports `flt`, of a run of the function whose index is `function` in
    /// `module`; see `reports`.
    pub fn report(module: &WasmModule, function: usize, flt: Fault) -> (r: Self)
        ensures
            reports(r, *module, function as nat, flt),
    {
        match flt.site {
            Some(s) => {
                let f = match s.func {
                    Some(g) => g,
                    None => function,
                };
                let pos = module.func_code_offset(f).wrapping_add(s.pos);
                Self::at(module, f, flt.kind, s.mnemonic, ExceptionPosition::new(pos))
            },
            None => Self::bare(flt.kind),
        }
    }
}

impl From<WasmRuntimeErrorKind> for WasmRuntimeError {
    fn from(kind: WasmRuntimeErrorKind) -> (r: Self) {
        Self {
            kind,
            file_position: 0,
            function: 0,
            function_name: None,
            position: 0,
            mnemonic: WasmMnemonic::Unreachable,
        }
    }
}

impl vstd::std_specs::convert::FromSpecImpl<WasmRuntimeErrorKind> for WasmRuntimeError {
    open spec fn obeys_from_spec() -> bool {
        true
    }

    closed spec fn from_spec(kind: WasmRuntimeErrorKind) -> Self {
        Self {
            kind,
            file_position: 0,
            function: 0,
            function_name: None,
            position: 0,
            mnemonic: WasmMnemonic::Unreachable,
        }
    }
}

/// The slots of a value stack, as 64-bit patterns
pub struct ValueStack {
    values: Vec<u64>,
}

impl ValueStack {
    /// The slots
    pub closed spec fn slots(&self) -> Seq<u64> {
        self.values@
    }

    /// A stack over the given slots
    pub fn new(values: Vec<u64>) -> (r: Self)
        ensures
            r.slots() == values@,
    {
        Self { values }
    }

    /// The number of slots
    pub fn len(&self) -> (r: usize)
        ensures
            r == self.slots().len(),
    {
        self.values.len()
    }

    /// Sets every slot to zero.
    pub fn clear(&mut self)
        ensures
            final(self).slots() == Seq::new(old(self).slots().len(), |i: int| 0u64),
    {
        let n = self.values.len();
        let mut i: usize = 0;
        while i < n
            invariant
                i <= n,
                n == self.values@.len(),
                n == old(self).slots().len(),
                forall|k: int| 0 <= k < i ==> self.values@[k] == 0u64,
            decreases n - i,
        {
            self.values.set(i, 0);
            i = i + 1;
        }
        proof {
            assert(self.values@ =~= Seq::new(n as nat, |i: int| 0u64));
        }
    }

    /// The slots, in order, to be written
    pub fn iter_mut(&mut self) -> (r: &mut [u64])
        ensures
            r@ == old(self).slots(),
            final(self).slots() == final(r)@,
    {
        self.values.as_mut_slice()
    }

    /// The slots, in order
    pub fn iter(&self) -> (r: &[u64])
        ensures
            r@ == self.slots(),
    {
        self.values.as_slice()
    }
}

} // verus!
