//! WebAssembly global variables
use crate::error::{CompileErrorKind, WasmRuntimeErrorKind};
use crate::value::{value_type, WasmValue};
use crate::wasm::WasmValType;
use vstd::prelude::*;

verus! {

/// A global whose value can be read
pub trait WasmGlobalProp<T: Copy> {
    /// The value held
    spec fn spec_get(&self) -> T;

    /// Reads the value.
    fn get(&self) -> (r: Result<T, WasmRuntimeErrorKind>)
        ensures
            r matches Ok(v) ==> v == self.spec_get(),
    ;
}

/// A global whose value can also be written
pub trait WasmGlobalPropMut<T: Copy>: WasmGlobalProp<T> {
    /// Writes the value.
    fn set(&mut self, value: T) -> (r: Result<(), WasmRuntimeErrorKind>)
        ensures
            r is Ok ==> final(self).spec_get() == value,
            r is Err ==> final(self).spec_get() == old(self).spec_get(),
    ;
}

/// A global that keeps the value it was made with
pub struct WasmGlobalFixedValue<T> {
    value: T,
}

impl<T: Copy> WasmGlobalFixedValue<T> {
    /// A global holding `value`
    pub fn new(value: T) -> (r: Self)
        ensures
            r.spec_get() == value,
    {
        Self { value }
    }
}

impl<T: Copy> WasmGlobalProp<T> for WasmGlobalFixedValue<T> {
    closed spec fn spec_get(&self) -> T {
        self.value
    }

    fn get(&self) -> (r: Result<T, WasmRuntimeErrorKind>)
        ensures
            r == Ok::<T, WasmRuntimeErrorKind>(self.spec_get()),
    {
        Ok(self.value)
    }
}

/// A global whose value can be replaced
pub struct WasmGlobalMutableValue<T> {
    value: T,
}

impl<T: Copy> WasmGlobalMutableValue<T> {
    /// A global holding `value`
    pub fn new(value: T) -> (r: Self)
        ensures
            r.spec_get() == value,
    {
        Self { value }
    }
}

impl<T: Copy> WasmGlobalProp<T> for WasmGlobalMutableValue<T> {
    closed spec fn spec_get(&self) -> T {
        self.value
    }

    fn get(&self) -> (r: Result<T, WasmRuntimeErrorKind>)
        ensures
            r == Ok::<T, WasmRuntimeErrorKind>(self.spec_get()),
    {
        Ok(self.value)
    }
}

impl<T: Copy> WasmGlobalPropMut<T> for WasmGlobalMutableValue<T> {
    fn set(&mut self, value: T) -> (r: Result<(), WasmRuntimeErrorKind>)
        ensures
            r is Ok,
    {
        self.value = value;
        Ok(())
    }
}

/// The 64 bits that hold a value: an `i32` or `f32` zero-extended
pub open spec fn value_bits(v: WasmValue) -> u64 {
    match v {
        WasmValue::I32(a) => (a as u32) as u64,
        WasmValue::I64(a) => a as u64,
        WasmValue::F32(a) => a as u64,
        WasmValue::F64(a) => a,
    }
}

/// The value of a type that 64 bits hold: a 32-bit type in the low half
pub open spec fn value_of_bits(bits: u64, val_type: WasmValType) -> WasmValue {
    match val_type {
        WasmValType::I32 => WasmValue::I32(bits as i32),
        WasmValType::I64 => WasmValue::I64(bits as i64),
        WasmValType::F32 => WasmValue::F32(bits as u32),
        WasmValType::F64 => WasmValue::F64(bits),
    }
}

/// Storing a value in 64 bits and reading it back by its type gives the value again.
pub proof fn lemma_value_bits_roundtrip(v: WasmValue)
    ensures
        value_of_bits(value_bits(v), value_type(v)) == v,
{
    match v {
        WasmValue::I32(a) => {
            assert(((a as u32) as u64) as i32 == a) by (bit_vector);
        },
        WasmValue::I64(a) => {
            assert((a as u64) as i64 == a) by (bit_vector);
        },
        WasmValue::F32(a) => {
            assert((a as u64) as u32 == a) by (bit_vector);
        },
        WasmValue::F64(a) => {},
    }
}

/// A global variable of a module: its bits, its type, and whether it may be written
#[derive(Clone, Copy)]
pub struct WasmGlobal {
    data: u64,
    val_type: WasmValType,
    is_mutable: bool,
}

impl WasmGlobal {
    /// The bits held
    pub closed spec fn bits(&self) -> u64 {
        self.data
    }

    /// The type of the global
    pub closed spec fn spec_val_type(&self) -> WasmValType {
        self.val_type
    }

    /// Whether the global may be written
    pub closed spec fn spec_is_mutable(&self) -> bool {
        self.is_mutable
    }

    /// The value held
    pub open spec fn spec_value(&self) -> WasmValue {
        value_of_bits(self.bits(), self.spec_val_type())
    }

    /// A global holding `val`
    pub fn new(val: WasmValue, is_mutable: bool) -> (r: Result<Self, CompileErrorKind>)
        ensures
            r matches Ok(g) && g.spec_value() == val && g.spec_val_type() == value_type(val)
                && g.spec_is_mutable() == is_mutable && g.bits() == value_bits(val),
    {
        let val_type = val.val_type();
        let data = match val {
            WasmValue::I32(a) => (a as u32) as u64,
            WasmValue::I64(a) => a as u64,
            WasmValue::F32(a) => a as u64,
            WasmValue::F64(a) => a,
        };
        proof {
            lemma_value_bits_roundtrip(val);
        }
        Ok(Self { data, val_type, is_mutable })
    }

    /// The bits held
    pub fn raw_value(&self) -> (r: u64)
        ensures
            r == self.bits(),
    {
        self.data
    }

    /// The value held, read by the type of the global
    pub fn value(&self) -> (r: WasmValue)
        ensures
            r == self.spec_value(),
    {
        match self.val_type {
            WasmValType::I32 => WasmValue::I32(self.data as i32),
            WasmValType::I64 => WasmValue::I64(self.data as i64),
            WasmValType::F32 => WasmValue::F32(self.data as u32),
            WasmValType::F64 => WasmValue::F64(self.data),
        }
    }

    /// Replaces the bits held.
    pub fn set_raw_value(&mut self, val: u64)
        ensures
            final(self).bits() == val,
            final(self).spec_val_type() == old(self).spec_val_type(),
            final(self).spec_is_mutable() == old(self).spec_is_mutable(),
    {
        self.data = val;
    }

    /// The type of the global
    pub fn val_type(&self) -> (r: WasmValType)
        ensures
            r == self.spec_val_type(),
    {
        self.val_type
    }

    /// Whether the global may be written
    pub fn is_mutable(&self) -> (r: bool)
        ensures
            r == self.spec_is_mutable(),
    {
        self.is_mutable
    }
}

/// Writing the bits of a value of the global's type and reading the global gives that value.
pub proof fn lemma_global_set_then_value(g: WasmGlobal, v: WasmValue)
    requires
        g.bits() == value_bits(v),
        g.spec_val_type() == value_type(v),
    ensures
        g.spec_value() == v,
{
    lemma_value_bits_roundtrip(v);
}

impl WasmGlobal {
    /// The `i32` held, or `TypeMismatch` when the global has another type
    pub fn get_i32(&self) -> (r: Result<i32, WasmRuntimeErrorKind>)
        ensures
            match self.spec_value() {
                WasmValue::I32(v) => r == Ok::<i32, WasmRuntimeErrorKind>(v),
                _ => r == Err::<i32, WasmRuntimeErrorKind>(WasmRuntimeErrorKind::TypeMismatch),
            },
    {
        match self.value() {
            WasmValue::I32(v) => Ok(v),
            _ => Err(WasmRuntimeErrorKind::TypeMismatch),
        }
    }

    /// The `i64` held, or `TypeMismatch` when the global has another type
    pub fn get_i64(&self) -> (r: Result<i64, WasmRuntimeErrorKind>)
        ensures
            match self.spec_value() {
                WasmValue::I64(v) => r == Ok::<i64, WasmRuntimeErrorKind>(v),
                _ => r == Err::<i64, WasmRuntimeErrorKind>(WasmRuntimeErrorKind::TypeMismatch),
            },
    {
        match self.value() {
            WasmValue::I64(v) => Ok(v),
            _ => Err(WasmRuntimeErrorKind::TypeMismatch),
        }
    }
}

} // verus!
