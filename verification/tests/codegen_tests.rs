use std::f64::consts::PI;
use wami::error::{CompileErrorKind, WasmRuntimeErrorKind};
use wami::module::WasmModule;
use wami::value::WasmValue;
use wami::wasm::{WasmValType, WebAssembly};
use wami::wasmrt::WasmCodeBlock;

fn empty_module() -> WasmModule {
    WebAssembly::compile(&[0, 0x61, 0x73, 0x6d, 1, 0, 0, 0]).ok().unwrap()
}

/// Checks a body whose local declarations are empty (its first byte is their count, 0)
fn generate(slice: &[u8], params: &[WasmValType], results: &[WasmValType]) -> Result<WasmCodeBlock, CompileErrorKind> {
    assert_eq!(slice[0], 0);
    WasmCodeBlock::generate(0, 0, &slice[1..], params, results, &empty_module())
}

fn run(slice: &[u8], params: &[WasmValType], results: &[WasmValType], args: &mut [WasmValue]) -> WasmValue {
    let mut block = generate(slice, params, results).ok().unwrap();
    block.invoke(args, results).unwrap().unwrap()
}

#[test]
fn i32_const_type_mismatch() {
    let slice = [0, 0x41, 0x00, 0x01, 0x0B];
    assert_eq!(generate(&slice, &[], &[WasmValType::I64]).err(), Some(CompileErrorKind::TypeMismatch));

    let result = run(&slice, &[], &[WasmValType::I32], &mut []);
    assert_eq!(result.get_i32().unwrap(), 0);
    assert_eq!(result.get_i64(), Err(WasmRuntimeErrorKind::TypeMismatch));
}

#[test]
fn i64_const_type_mismatch() {
    let slice = [0, 0x42, 0x00, 0x01, 0x0B];
    assert_eq!(generate(&slice, &[], &[WasmValType::I32]).err(), Some(CompileErrorKind::TypeMismatch));
}

#[test]
fn float_const() {
    let f32_of = |slice: &[u8]| f32::from_bits(run(slice, &[], &[WasmValType::F32], &mut []).get_f32().unwrap());
    assert_eq!(f32_of(&[0, 0x43, 0, 0, 0, 0, 0x0B]), 0.0);
    assert!(f32_of(&[0, 0x43, 0, 0, 0xc0, 0x7f, 0x0B]).is_nan());
    assert!(f32_of(&[0, 0x43, 0, 0, 0x80, 0x7f, 0x0B]).is_infinite());
    assert_eq!(f32_of(&[0, 0x43, 0xdb, 0x0f, 0x49, 0x40, 0x0B]), 3.1415927);
}

#[test]
fn float64_const() {
    let f64_of = |slice: &[u8]| f64::from_bits(run(slice, &[], &[WasmValType::F64], &mut []).get_f64().unwrap());
    assert_eq!(f64_of(&[0, 0x44, 0, 0, 0, 0, 0, 0, 0, 0, 0x0B]), 0.0);
    assert!(f64_of(&[0, 0x44, 0, 0, 0, 0, 0, 0, 0xf8, 0x7f, 0x0B]).is_nan());
    assert!(f64_of(&[0, 0x44, 0, 0, 0, 0, 0, 0, 0xf0, 0x7f, 0x0B]).is_infinite());
    assert_eq!(f64_of(&[0, 0x44, 0x18, 0x2d, 0x44, 0x54, 0xfb, 0x21, 0x09, 0x40, 0x0b]), PI);
}

#[test]
fn float32() {
    let result = run(&[0, 0x43, 0xdb, 0x0f, 0x49, 0x40, 0x0B], &[], &[WasmValType::F32], &mut []);
    assert_eq!(f32::from_bits(result.get_f32().unwrap()), 3.1415927);

    let result = run(&[0, 0x20, 0x00, 0xbe, 0x0B], &[WasmValType::I32], &[WasmValType::F32], &mut [0x40490fdb.into()]);
    assert_eq!(f32::from_bits(result.get_f32().unwrap()), 3.1415927);

    let result = run(
        &[0, 0x20, 0x00, 0xbc, 0x0B],
        &[WasmValType::F32],
        &[WasmValType::I32],
        &mut [WasmValue::F32(3.1415927f32.to_bits())],
    );
    assert_eq!(result.get_u32().unwrap(), 0x40490fdb);
}

#[test]
fn float64() {
    let result = run(
        &[0, 0x44, 0x18, 0x2d, 0x44, 0x54, 0xfb, 0x21, 0x09, 0x40, 0x0B],
        &[],
        &[WasmValType::F64],
        &mut [],
    );
    assert_eq!(f64::from_bits(result.get_f64().unwrap()), PI);

    let result = run(
        &[0, 0x20, 0x00, 0xbf, 0x0B],
        &[WasmValType::I64],
        &[WasmValType::F64],
        &mut [0x400921fb54442d18u64.into()],
    );
    assert_eq!(f64::from_bits(result.get_f64().unwrap()), PI);

    let result = run(&[0, 0x20, 0x00, 0xbd, 0x0B], &[WasmValType::F64], &[WasmValType::I64], &mut [WasmValue::F64(PI.to_bits())]);
    assert_eq!(result.get_u64().unwrap(), 0x400921fb54442d18u64);
}

#[test]
fn block_nest() {
    let i32s = [WasmValType::I32];
    let i64s = [WasmValType::I64];
    assert!(generate(&[0, 0x02, 0x40, 0x02, 0x40, 0x01, 0x0B, 0x0B, 0x0B], &[], &[]).is_ok());
    assert_eq!(
        generate(&[0, 0x02, 0x40, 0x02, 0x40, 0x01, 0x0B, 0x0B], &[], &[]).err(),
        Some(CompileErrorKind::UnexpectedEof)
    );
    assert!(generate(&[0, 0x02, 0x7F, 0x02, 0x7F, 0x41, 0x01, 0x0B, 0x0B, 0x0B], &[], &i32s).is_ok());
    assert_eq!(
        generate(&[0, 0x02, 0x7F, 0x02, 0x7F, 0x01, 0x0B, 0x0B, 0x0B], &[], &[]).err(),
        Some(CompileErrorKind::OutOfStack)
    );
    assert_eq!(
        generate(&[0, 0x02, 0x7F, 0x02, 0x7F, 0x41, 0x01, 0x0B, 0x0B, 0x0B], &[], &[]).err(),
        Some(CompileErrorKind::InvalidStackLevel)
    );
    assert_eq!(
        generate(&[0, 0x02, 0x7F, 0x02, 0x7F, 0x41, 0x01, 0x0B, 0x0B, 0x0B], &[], &i64s).err(),
        Some(CompileErrorKind::TypeMismatch)
    );
    assert_eq!(
        generate(&[0, 0x02, 0x7F, 0x02, 0x7F, 0x42, 0x01, 0x0B, 0x0B, 0x0B], &[], &i32s).err(),
        Some(CompileErrorKind::TypeMismatch)
    );
    assert_eq!(
        generate(&[0, 0x02, 0x7F, 0x02, 0x7E, 0x41, 0x01, 0x0B, 0x0B, 0x0B], &[], &i32s).err(),
        Some(CompileErrorKind::TypeMismatch)
    );
    assert_eq!(
        generate(&[0, 0x02, 0x7E, 0x02, 0x7F, 0x41, 0x01, 0x0B, 0x0B, 0x0B], &[], &i32s).err(),
        Some(CompileErrorKind::TypeMismatch)
    );
    assert_eq!(
        generate(&[0, 0x02, 0x7E, 0x02, 0x7F, 0x41, 0x01, 0x0B, 0x0B, 0x0B], &[], &i64s).err(),
        Some(CompileErrorKind::TypeMismatch)
    );

    let result = run(&[0, 0x02, 0x7F, 0x02, 0x7F, 0x20, 0x00, 0x0B, 0x0B, 0x0B], &i32s, &i32s, &mut [123.into()]);
    assert_eq!(result.get_i32().unwrap(), 123);
}

#[test]
fn loop_nest() {
    assert!(generate(&[0, 0x02, 0x40, 0x03, 0x40, 0x01, 0x0B, 0x0B, 0x0B], &[], &[]).is_ok());
    assert_eq!(
        generate(&[0, 0x02, 0x40, 0x03, 0x40, 0x01, 0x0B, 0x0B], &[], &[]).err(),
        Some(CompileErrorKind::UnexpectedEof)
    );
    assert!(generate(&[0, 0x02, 0x7F, 0x03, 0x7F, 0x41, 0x01, 0x0B, 0x0B, 0x0B], &[], &[WasmValType::I32]).is_ok());
    assert_eq!(
        generate(&[0, 0x02, 0x7F, 0x03, 0x7F, 0x01, 0x0B, 0x0B, 0x0B], &[], &[]).err(),
        Some(CompileErrorKind::OutOfStack)
    );
}

#[test]
fn generated_blocks_know_their_function_and_calls() {
    // one function of type [] -> [], with an empty body
    let m = WebAssembly::compile(&[
        0, 0x61, 0x73, 0x6d, 1, 0, 0, 0, 1, 4, 1, 0x60, 0, 0, 3, 2, 1, 0, 10, 4, 1, 2, 0, 0x0B,
    ])
    .ok()
    .unwrap();
    let block = WasmCodeBlock::generate(5, 42, &[0x41, 1, 0x1A, 0x0B], &[WasmValType::I32], &[], &m).ok().unwrap();
    assert_eq!(block.func_index(), 5);
    assert_eq!(block.file_position(), 42);
    assert_eq!(block.local_types(), &[WasmValType::I32]);
    assert!(block.is_leaf());
    assert_eq!(block.max_value_stack(), 1);

    // two operands at most: i32.const 1; i32.const 2; i32.add; drop
    let block = WasmCodeBlock::generate(0, 0, &[0x41, 1, 0x41, 2, 0x6A, 0x1A, 0x0B], &[], &[], &m).ok().unwrap();
    assert_eq!(block.max_value_stack(), 2);
    assert_eq!(WasmCodeBlock::from_slice(&[0x0B]).max_value_stack(), 0);

    let block = WasmCodeBlock::generate(1, 7, &[0x10, 0, 0x0B], &[], &[], &m).ok().unwrap();
    assert!(!block.is_leaf());
    assert_eq!(block.func_index(), 1);

    // a 0x10 byte inside an immediate is no call
    let block = WasmCodeBlock::generate(1, 7, &[0x41, 0x10, 0x1A, 0x0B], &[], &[], &m).ok().unwrap();
    assert!(block.is_leaf());

    assert!(!WasmCodeBlock::from_slice(&[0x0B]).is_leaf());
}
