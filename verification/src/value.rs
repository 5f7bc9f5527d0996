//! Typed WebAssembly values
use crate::error::WasmRuntimeErrorKind;
use crate::wasm::WasmValType;
use vstd::prelude::*;

verus! {

/// A WebAssembly primitive value with its type. Floating-point values are held as their
/// IEEE 754 bit patterns.
#[derive(Debug, Clone, Copy, PartialEq, Eq, Structural)]
pub enum WasmValue {
    I32(i32),
    I64(i64),
    F32(u32),
    F64(u64),
}

/// The type of a value
pub open spec fn value_type(v: WasmValue) -> WasmValType {
    match v {
        WasmValue::I32(_) => WasmValType::I32,
        WasmValue::I64(_) => WasmValType::I64,
        WasmValue::F32(_) => WasmValType::F32,
        WasmValue::F64(_) => WasmValType::F64,
    }
}

/// The zero of a type
pub open spec fn default_value(t: WasmValType) -> WasmValue {
    match t {
        WasmValType::I32 => WasmValue::I32(0),
        WasmValType::I64 => WasmValue::I64(0),
        WasmValType::F32 => WasmValue::F32(0),
        WasmValType::F64 => WasmValue::F64(0),
    }
}

impl WasmValue {
    /// The zero of a type
    pub fn default_for(val_type: WasmValType) -> (r: Self)
        ensures
            value_type(r) == val_type,
            r == default_value(val_type),
    {
        match val_type {
            WasmValType::I32 => Self::I32(0),
            WasmValType::I64 => Self::I64(0),
            WasmValType::F32 => Self::F32(0),
            WasmValType::F64 => Self::F64(0),
        }
    }

    /// The type of the value
    pub fn val_type(&self) -> (r: WasmValType)
        ensures
            r == value_type(*self),
    {
        match self {
            WasmValue::I32(_) => WasmValType::I32,
            WasmValue::I64(_) => WasmValType::I64,
            WasmValue::F32(_) => WasmValType::F32,
            WasmValue::F64(_) => WasmValType::F64,
        }
    }

    /// Whether the value has the type `val_type`
    pub fn is_valid_type(&self, val_type: WasmValType) -> (r: bool)
        ensures
            r == (value_type(*self) == val_type),
    {
        match (*self, val_type) {
            (Self::I32(_), WasmValType::I32) => true,
            (Self::I64(_), WasmValType::I64) => true,
            (Self::F32(_), WasmValType::F32) => true,
            (Self::F64(_), WasmValType::F64) => true,
            _ => false,
        }
    }

    /// The `i32` held, or `TypeMismatch`
    pub fn get_i32(self) -> (r: Result<i32, WasmRuntimeErrorKind>)
        ensures
            match self {
                WasmValue::I32(a) => r == Ok::<i32, WasmRuntimeErrorKind>(a),
                _ => r == Err::<i32, WasmRuntimeErrorKind>(WasmRuntimeErrorKind::TypeMismatch),
            },
    {
        match self {
            Self::I32(a) => Ok(a),
            _ => Err(WasmRuntimeErrorKind::TypeMismatch),
        }
    }

    /// The `i32` held, as unsigned, or `TypeMismatch`
    pub fn get_u32(self) -> (r: Result<u32, WasmRuntimeErrorKind>)
        ensures
            match self {
                WasmValue::I32(a) => r == Ok::<u32, WasmRuntimeErrorKind>(a as u32),
                _ => r == Err::<u32, WasmRuntimeErrorKind>(WasmRuntimeErrorKind::TypeMismatch),
            },
    {
        match self {
            Self::I32(a) => Ok(a as u32),
            _ => Err(WasmRuntimeErrorKind::TypeMismatch),
        }
    }

    /// The `i64` held, or `TypeMismatch`
    pub fn get_i64(self) -> (r: Result<i64, WasmRuntimeErrorKind>)
        ensures
            match self {
                WasmValue::I64(a) => r == Ok::<i64, WasmRuntimeErrorKind>(a),
                _ => r == Err::<i64, WasmRuntimeErrorKind>(WasmRuntimeErrorKind::TypeMismatch),
            },
    {
        match self {
            Self::I64(a) => Ok(a),
            _ => Err(WasmRuntimeErrorKind::TypeMismatch),
        }
    }

    /// The `i64` held, as unsigned, or `TypeMismatch`
    pub fn get_u64(self) -> (r: Result<u64, WasmRuntimeErrorKind>)
        ensures
            match self {
                WasmValue::I64(a) => r == Ok::<u64, WasmRuntimeErrorKind>(a as u64),
                _ => r == Err::<u64, WasmRuntimeErrorKind>(WasmRuntimeErrorKind::TypeMismatch),
            },
    {
        match self {
            Self::I64(a) => Ok(a as u64),
            _ => Err(WasmRuntimeErrorKind::TypeMismatch),
        }
    }

    /// The bits of the `f32` held, or `TypeMismatch`
    pub fn get_f32(self) -> (r: Result<u32, WasmRuntimeErrorKind>)
        ensures
            match self {
                WasmValue::F32(a) => r == Ok::<u32, WasmRuntimeErrorKind>(a),
                _ => r == Err::<u32, WasmRuntimeErrorKind>(WasmRuntimeErrorKind::TypeMismatch),
            },
    {
        match self {
            Self::F32(a) => Ok(a),
            _ => Err(WasmRuntimeErrorKind::TypeMismatch),
        }
    }

    /// The bits of the `f64` held, or `TypeMismatch`
    pub fn get_f64(self) -> (r: Result<u64, WasmRuntimeErrorKind>)
        ensures
            match self {
                WasmValue::F64(a) => r == Ok::<u64, WasmRuntimeErrorKind>(a),
                _ => r == Err::<u64, WasmRuntimeErrorKind>(WasmRuntimeErrorKind::TypeMismatch),
            },
    {
        match self {
            Self::F64(a) => Ok(a),
            _ => Err(WasmRuntimeErrorKind::TypeMismatch),
        }
    }

    /// Applies `f` to the `i32` held, or gives `TypeMismatch`.
    pub fn map_i32<F: FnOnce(i32) -> i32>(self, f: F) -> (r: Result<WasmValue, WasmRuntimeErrorKind>)
        requires
            self matches WasmValue::I32(a) ==> call_requires(f, (a,)),
        ensures
            match self {
                WasmValue::I32(a) => r matches Ok(WasmValue::I32(b)) && call_ensures(f, (a,), b),
                _ => r == Err::<WasmValue, WasmRuntimeErrorKind>(WasmRuntimeErrorKind::TypeMismatch),
            },
    {
        match self {
            Self::I32(a) => Ok(Self::I32(f(a))),
            _ => Err(WasmRuntimeErrorKind::TypeMismatch),
        }
    }

    /// Applies `f` to the `i64` held, or gives `TypeMismatch`.
    pub fn map_i64<F: FnOnce(i64) -> i64>(self, f: F) -> (r: Result<WasmValue, WasmRuntimeErrorKind>)
        requires
            self matches WasmValue::I64(a) ==> call_requires(f, (a,)),
        ensures
            match self {
                WasmValue::I64(a) => r matches Ok(WasmValue::I64(b)) && call_ensures(f, (a,), b),
                _ => r == Err::<WasmValue, WasmRuntimeErrorKind>(WasmRuntimeErrorKind::TypeMismatch),
            },
    {
        match self {
            Self::I64(a) => Ok(Self::I64(f(a))),
            _ => Err(WasmRuntimeErrorKind::TypeMismatch),
        }
    }
}

impl From<i32> for WasmValue {
    fn from(v: i32) -> (r: Self) {
        Self::I32(v)
    }
}

impl vstd::std_specs::convert::FromSpecImpl<i32> for WasmValue {
    open spec fn obeys_from_spec() -> bool {
        true
    }

    open spec fn from_spec(v: i32) -> Self {
        WasmValue::I32(v)
    }
}

impl From<u32> for WasmValue {
    fn from(v: u32) -> (r: Self) {
        Self::I32(v as i32)
    }
}

impl vstd::std_specs::convert::FromSpecImpl<u32> for WasmValue {
    open spec fn obeys_from_spec() -> bool {
        true
    }

    open spec fn from_spec(v: u32) -> Self {
        WasmValue::I32(v as i32)
    }
}

impl From<i64> for WasmValue {
    fn from(v: i64) -> (r: Self) {
        Self::I64(v)
    }
}

impl vstd::std_specs::convert::FromSpecImpl<i64> for WasmValue {
    open spec fn obeys_from_spec() -> bool {
        true
    }

    open spec fn from_spec(v: i64) -> Self {
        WasmValue::I64(v)
    }
}

impl From<u64> for WasmValue {
    fn from(v: u64) -> (r: Self) {
        Self::I64(v as i64)
    }
}

impl vstd::std_specs::convert::FromSpecImpl<u64> for WasmValue {
    open spec fn obeys_from_spec() -> bool {
        true
    }

    open spec fn from_spec(v: u64) -> Self {
        WasmValue::I64(v as i64)
    }
}

impl From<bool> for WasmValue {
    fn from(v: bool) -> (r: Self) {
        Self::I32(
            if v {
                1
            } else {
                0
            },
        )
    }
}

impl vstd::std_specs::convert::FromSpecImpl<bool> for WasmValue {
    open spec fn obeys_from_spec() -> bool {
        true
    }

    open spec fn from_spec(v: bool) -> Self {
        WasmValue::I32(
            if v {
                1
            } else {
                0
            },
        )
    }
}

} // verus!
