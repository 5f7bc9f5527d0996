use wami::error::CompileErrorKind;
use wami::module::{WasmInstance, WasmInstantiateError, WasmModule};
use wami::types::WasmType;
use wami::value::WasmValue;
use wami::wasm::{ImportExportKind, ImportResult, WasmSectionId, WasmValType, WebAssembly};
use wami::error::WasmRuntimeErrorKind;

fn no_imports(_: &str, _: &str, _: &WasmType) -> ImportResult<usize> {
    unreachable!()
}

fn compile_kind(data: &[u8]) -> Option<CompileErrorKind> {
    match WebAssembly::instantiate(data, no_imports) {
        Err(WasmInstantiateError::Compile(e)) => Some(*e.kind()),
        _ => None,
    }
}

fn leb(mut v: u32, out: &mut Vec<u8>) {
    loop {
        let b = (v & 0x7F) as u8;
        v >>= 7;
        if v == 0 {
            out.push(b);
            break;
        }
        out.push(b | 0x80);
    }
}

fn section(id: u8, content: &[u8], out: &mut Vec<u8>) {
    out.push(id);
    leb(content.len() as u32, out);
    out.extend_from_slice(content);
}

fn name_bytes(name: &str, out: &mut Vec<u8>) {
    leb(name.len() as u32, out);
    out.extend_from_slice(name.as_bytes());
}

/// A module with one function of the given signature and body (locals declarations first),
/// exported as "f"
fn single_function_module(params: &[u8], results: &[u8], body: &[u8]) -> Vec<u8> {
    let mut m = vec![0, 0x61, 0x73, 0x6d, 1, 0, 0, 0];
    let mut types = vec![1, 0x60];
    leb(params.len() as u32, &mut types);
    types.extend_from_slice(params);
    leb(results.len() as u32, &mut types);
    types.extend_from_slice(results);
    section(1, &types, &mut m);
    section(3, &[1, 0], &mut m);
    section(5, &[1, 0, 0], &mut m);
    let mut exports = vec![1];
    name_bytes("f", &mut exports);
    exports.extend_from_slice(&[0, 0]);
    section(7, &exports, &mut m);
    let mut code = vec![1];
    leb(body.len() as u32, &mut code);
    code.extend_from_slice(body);
    section(10, &code, &mut m);
    m
}

/// A module of functions of the given types (params, results) and bodies, with an optional
/// memory (flags, min, max), globals (type, mutability, initial i32 or i64 constant), exporting
/// its last function as "f"
fn module_of(
    types: &[(&[u8], &[u8])],
    funcs: &[(u8, &[u8])],
    memory: Option<&[u8]>,
    globals: &[(u8, u8, i64)],
) -> Vec<u8> {
    let mut m = vec![0, 0x61, 0x73, 0x6d, 1, 0, 0, 0];
    let mut ts = Vec::new();
    leb(types.len() as u32, &mut ts);
    for (params, results) in types {
        ts.push(0x60);
        leb(params.len() as u32, &mut ts);
        ts.extend_from_slice(params);
        leb(results.len() as u32, &mut ts);
        ts.extend_from_slice(results);
    }
    section(1, &ts, &mut m);
    let mut fs = Vec::new();
    leb(funcs.len() as u32, &mut fs);
    for (t, _) in funcs {
        fs.push(*t);
    }
    section(3, &fs, &mut m);
    if let Some(limit) = memory {
        let mut ms = vec![1];
        ms.extend_from_slice(limit);
        section(5, &ms, &mut m);
    }
    if !globals.is_empty() {
        let mut gs = Vec::new();
        leb(globals.len() as u32, &mut gs);
        for (t, mutable, init) in globals {
            gs.push(*t);
            gs.push(*mutable);
            gs.push(if *t == 0x7F { 0x41 } else { 0x42 });
            let mut v = *init;
            loop {
                let byte = (v & 0x7F) as u8;
                v >>= 7;
                let done = (v == 0 && byte & 0x40 == 0) || (v == -1 && byte & 0x40 != 0);
                gs.push(if done { byte } else { byte | 0x80 });
                if done {
                    break;
                }
            }
            gs.push(0x0B);
        }
        section(6, &gs, &mut m);
    }
    let mut exports = vec![1];
    name_bytes("f", &mut exports);
    exports.push(0);
    leb(funcs.len() as u32 - 1, &mut exports);
    section(7, &exports, &mut m);
    let mut code = Vec::new();
    leb(funcs.len() as u32, &mut code);
    for (_, body) in funcs {
        leb(body.len() as u32, &mut code);
        code.extend_from_slice(body);
    }
    section(10, &code, &mut m);
    m
}

fn run(instance: &WasmInstance, params: &[WasmValue]) -> Result<Option<WasmValue>, WasmRuntimeErrorKind> {
    instance.function("f").unwrap().invoke(params).map_err(|e| e.kind())
}

#[test]
fn instantiate() {
    let data = [0, 97, 115, 109, 1, 0, 0, 0];
    WebAssembly::instantiate(&data, no_imports).ok().unwrap();

    let data = [0, 97, 115, 109, 1, 0, 0];
    assert_eq!(compile_kind(&data), Some(CompileErrorKind::BadExecutable));

    let data = [0, 97, 115, 109, 2, 0, 0, 0];
    assert_eq!(compile_kind(&data), Some(CompileErrorKind::BadExecutable));

    let data = [0, 97, 115, 109, 1, 0, 0, 0, 1];
    assert_eq!(compile_kind(&data), Some(CompileErrorKind::UnexpectedEof));
}

#[test]
fn section_order() {
    let data = [
        0, 97, 115, 109, 1, 0, 0, 0, 1, 1, 0, 2, 1, 0, 2, 1, 0, 3, 1, 0, 4, 1, 0, 5, 1, 0,
    ];
    WebAssembly::instantiate(&data, no_imports).ok().unwrap();

    let data = [
        0, 97, 115, 109, 1, 0, 0, 0, 1, 1, 0, 2, 1, 0, 2, 1, 0, 3, 1, 0, 4, 1, 0, 3, 1, 0,
    ];
    assert_eq!(
        compile_kind(&data),
        Some(CompileErrorKind::InvalidSectionOrder(WasmSectionId::Function))
    );
}

#[test]
fn name() {
    let slice = [
        0x00, 0x61, 0x73, 0x6d, 0x01, 0x00, 0x00, 0x00, 0x00, 0x01, 0x02, 0x00, 0x1F, 0x04, 0x6E,
        0x61, 0x6D, 0x65, 0x00, 0x06, 0x05, 0x48, 0x65, 0x6C, 0x6C, 0x6F, 0x01, 0x0E, 0x02, 0x01,
        0x04, 0x77, 0x61, 0x73, 0x6D, 0xB4, 0x24, 0x04, 0x74, 0x65, 0x73, 0x74, 0x7F, 0x00,
    ];
    let module = WebAssembly::instantiate(&slice, no_imports).ok().unwrap();
    let names = module.names().unwrap();

    assert_eq!(names.module().unwrap(), "Hello");

    assert_eq!(names.functions()[0], (1, "wasm".to_owned()));

    assert_eq!(names.func_by_index(0x1234).unwrap(), "test");
}

#[test]
fn custom_sections_are_kept_by_name() {
    let mut m = vec![0, 0x61, 0x73, 0x6d, 1, 0, 0, 0];
    let mut c1 = Vec::new();
    name_bytes("meta", &mut c1);
    c1.extend_from_slice(&[1, 2, 3]);
    section(0, &c1, &mut m);
    let mut c2 = Vec::new();
    name_bytes("meta", &mut c2);
    c2.extend_from_slice(&[9]);
    section(0, &c2, &mut m);
    let module = WasmModule::compile(&m).ok().unwrap();
    assert_eq!(module.custom_sections("meta").unwrap(), &[9u8][..]);
    assert!(module.custom_sections("other").is_none());
    assert!(module.names().is_none());
}

#[test]
fn section_framing_errors() {
    let data = [0, 97, 115, 109, 1, 0, 0, 0, 13, 0];
    assert_eq!(compile_kind(&data), Some(CompileErrorKind::UnexpectedToken));
    let data = [0, 97, 115, 109, 1, 0, 0, 0, 1, 5, 0];
    assert_eq!(compile_kind(&data), Some(CompileErrorKind::InternalInconsistency));
    assert!(!WebAssembly::validate(&data));
    assert!(WebAssembly::validate(&[0, 97, 115, 109, 1, 0, 0, 0]));
}

#[test]
fn function_export_runs() {
    let m = single_function_module(&[0x7F, 0x7F], &[0x7F], &[0, 0x20, 0, 0x20, 1, 0x6A, 0x0B]);
    let instance = WebAssembly::instantiate(&m, no_imports).ok().unwrap();
    let exports = instance.exports();
    assert_eq!(exports.len(), 1);
    assert_eq!(exports[0].name, "f");
    assert_eq!(exports[0].kind, ImportExportKind::Function);
    let r = run(&instance, &[1234.into(), 5678.into()]).unwrap().unwrap();
    assert_eq!(r.get_i32(), Ok(6912));
    assert_eq!(
        run(&instance, &[1234.into()]),
        Err(WasmRuntimeErrorKind::InvalidParameter)
    );
    assert_eq!(
        run(&instance, &[1234i64.into(), 1.into()]),
        Err(WasmRuntimeErrorKind::InvalidParameter)
    );
    assert!(instance.function("g").is_err());
}

#[test]
fn i32_const() {
    let m = single_function_module(&[], &[0x7F], &[0, 0x41, 0xf8, 0xac, 0xd1, 0x91, 0x01, 0x0B]);
    let instance = WebAssembly::instantiate(&m, no_imports).ok().unwrap();
    let result = run(&instance, &[]).unwrap().unwrap().get_i32().unwrap();
    assert_eq!(result, 0x12345678);
}

#[test]
fn i64_const() {
    let m = single_function_module(
        &[],
        &[0x7E],
        &[0, 0x42, 0xef, 0x9b, 0xaf, 0xcd, 0xf8, 0xac, 0xd1, 0x91, 0x01, 0x0B],
    );
    let instance = WebAssembly::instantiate(&m, no_imports).ok().unwrap();
    let result = run(&instance, &[]).unwrap().unwrap().get_i64().unwrap();
    assert_eq!(result, 0x123456789abcdef);
}

#[test]
fn const_local() {
    let m = single_function_module(
        &[],
        &[0x7F],
        &[1, 1, 0x7F, 0x41, 0xFB, 0x00, 0x21, 0, 0x41, 0x12, 0x1A, 0x20, 0, 0x0B],
    );
    let instance = WebAssembly::instantiate(&m, no_imports).ok().unwrap();
    let result = run(&instance, &[0.into()]).unwrap().unwrap().get_i32().unwrap();
    assert_eq!(result, 123);
}

#[test]
fn div32_s() {
    let m = single_function_module(&[0x7F, 0x7F], &[0x7F], &[0, 0x20, 0, 0x20, 1, 0x6D, 0x0B]);
    let instance = WebAssembly::instantiate(&m, no_imports).ok().unwrap();
    let get = |a: i32, b: i32| run(&instance, &[a.into(), b.into()]).map(|v| v.unwrap().get_i32().unwrap());
    assert_eq!(get(7006652, 5678), Ok(1234));
    assert_eq!(get(42, -6), Ok(-7));
    assert_eq!(get(-42, 6), Ok(-7));
    assert_eq!(get(-42, -6), Ok(7));
    assert_eq!(get(1234, 0), Err(WasmRuntimeErrorKind::DivideByZero));
    let e = instance.function("f").unwrap().invoke(&[1234i32.into(), 0i32.into()]).unwrap_err();
    assert_eq!(e.kind(), WasmRuntimeErrorKind::DivideByZero);
    assert_eq!(e.mnemonic(), wami::opcode::WasmMnemonic::I32DivS);
    assert_eq!(e.position(), 5);
}

#[test]
fn div32_u() {
    let m = single_function_module(&[0x7F, 0x7F], &[0x7F], &[0, 0x20, 0, 0x20, 1, 0x6E, 0x0B]);
    let instance = WebAssembly::instantiate(&m, no_imports).ok().unwrap();
    let get = |a: i32, b: i32| run(&instance, &[a.into(), b.into()]).map(|v| v.unwrap().get_i32().unwrap());
    assert_eq!(get(7006652, 5678), Ok(1234));
    assert_eq!(get(42, -6), Ok(0));
    assert_eq!(get(-42, 6), Ok(715827875));
    assert_eq!(get(1234, 0), Err(WasmRuntimeErrorKind::DivideByZero));
    let e = instance.function("f").unwrap().invoke(&[1234i32.into(), 0i32.into()]).unwrap_err();
    assert_eq!(e.kind(), WasmRuntimeErrorKind::DivideByZero);
    assert_eq!(e.mnemonic(), wami::opcode::WasmMnemonic::I32DivU);
    assert_eq!(e.position(), 5);
}

#[test]
fn div64_s() {
    let m = single_function_module(&[0x7E, 0x7E], &[0x7E], &[0, 0x20, 0, 0x20, 1, 0x7F, 0x0B]);
    let instance = WebAssembly::instantiate(&m, no_imports).ok().unwrap();
    let get = |a: i64, b: i64| run(&instance, &[a.into(), b.into()]).map(|v| v.unwrap().get_i64().unwrap());
    assert_eq!(get(7006652, 5678), Ok(1234));
    assert_eq!(get(42, -6), Ok(-7));
    assert_eq!(get(-42, 6), Ok(-7));
    assert_eq!(get(-42, -6), Ok(7));
    assert_eq!(get(1234, 0), Err(WasmRuntimeErrorKind::DivideByZero));
    let e = instance.function("f").unwrap().invoke(&[1234i64.into(), 0i64.into()]).unwrap_err();
    assert_eq!(e.kind(), WasmRuntimeErrorKind::DivideByZero);
    assert_eq!(e.mnemonic(), wami::opcode::WasmMnemonic::I64DivS);
    assert_eq!(e.position(), 5);
}

#[test]
fn div64_u() {
    let m = single_function_module(&[0x7E, 0x7E], &[0x7E], &[0, 0x20, 0, 0x20, 1, 0x80, 0x0B]);
    let instance = WebAssembly::instantiate(&m, no_imports).ok().unwrap();
    let get = |a: i64, b: i64| run(&instance, &[a.into(), b.into()]).map(|v| v.unwrap().get_i64().unwrap());
    assert_eq!(get(7006652, 5678), Ok(1234));
    assert_eq!(get(42, -6), Ok(0));
    assert_eq!(get(-42, 6), Ok(3074457345618258595));
    assert_eq!(get(1234, 0), Err(WasmRuntimeErrorKind::DivideByZero));
    let e = instance.function("f").unwrap().invoke(&[1234i64.into(), 0i64.into()]).unwrap_err();
    assert_eq!(e.kind(), WasmRuntimeErrorKind::DivideByZero);
    assert_eq!(e.mnemonic(), wami::opcode::WasmMnemonic::I64DivU);
    assert_eq!(e.position(), 5);
}

#[test]
fn select_int() {
    let m = single_function_module(
        &[0x7F, 0x7F, 0x7F],
        &[0x7F],
        &[0, 0x20, 0, 0x20, 1, 0x20, 2, 0x1B, 0x0B],
    );
    let instance = WebAssembly::instantiate(&m, no_imports).ok().unwrap();
    let get = |c: i32| {
        run(&instance, &[123.into(), 456.into(), c.into()])
            .unwrap()
            .unwrap()
            .get_i32()
            .unwrap()
    };
    assert_eq!(get(789), 123);
    assert_eq!(get(0), 456);
}

#[test]
fn br_if() {
    let m = single_function_module(
        &[0x7F, 0x7F],
        &[0x7F],
        &[0, 0x02, 0x40, 0x20, 0, 0x20, 1, 0x4C, 0x0d, 0, 0x41, 1, 0x0f, 0x0b, 0x41, 2, 0x0B],
    );
    let instance = WebAssembly::instantiate(&m, no_imports).ok().unwrap();
    let get = |a: i32, b: i32| run(&instance, &[a.into(), b.into()]).unwrap().unwrap().get_i32().unwrap();
    assert_eq!(get(123, 456), 2);
    assert_eq!(get(123, 123), 2);
    assert_eq!(get(456, 123), 1);
    assert_eq!(get(123, -456), 1);
    assert_eq!(get(456, -123), 1);
}

#[test]
fn br_table() {
    let m = single_function_module(
        &[0x7F],
        &[0x7F],
        &[
            0, 0x02, 0x40, 0x02, 0x40, 0x0b, 0x0b, 0x02, 0x40, 0x02, 0x40, 0x02, 0x40, 0x20, 0x00,
            0x0e, 0x02, 0x00, 0x01, 0x02, 0x0b, 0x41, 0xfb, 0x00, 0x0f, 0x0b, 0x41, 0xc8, 0x03, 0x0f,
            0x0b, 0x41, 0x95, 0x06, 0x0b,
        ],
    );
    let instance = WebAssembly::instantiate(&m, no_imports).ok().unwrap();
    let get = |a: i32| run(&instance, &[a.into()]).unwrap().unwrap().get_i32().unwrap();
    assert_eq!(get(0), 123);
    assert_eq!(get(1), 456);
    assert_eq!(get(2), 789);
    assert_eq!(get(3), 789);
    assert_eq!(get(4), 789);
    assert_eq!(get(5), 789);
    assert_eq!(get(-1), 789);
}

#[test]
fn loop_computes_factorial() {
    // (local $acc i32) acc = 1; loop { if n == 0 break; acc *= n; n -= 1; br 0 }; acc
    let m = single_function_module(
        &[0x7F],
        &[0x7F],
        &[
            1, 1, 0x7F, 0x41, 1, 0x21, 1, 0x02, 0x40, 0x03, 0x40, 0x20, 0, 0x45, 0x0D, 1, 0x20, 1,
            0x20, 0, 0x6C, 0x21, 1, 0x20, 0, 0x41, 1, 0x6B, 0x21, 0, 0x0C, 0, 0x0B, 0x0B, 0x20, 1,
            0x0B,
        ],
    );
    let instance = WebAssembly::instantiate(&m, no_imports).ok().unwrap();
    let get = |a: i32| run(&instance, &[a.into()]).unwrap().unwrap().get_i32().unwrap();
    assert_eq!(get(0), 1);
    assert_eq!(get(1), 1);
    assert_eq!(get(7), 5040);
    assert_eq!(get(10), 3628800);
}

#[test]
fn if_else_picks_a_branch() {
    // if (result i32) (local.get 0) then 10 else 20 end
    let m = single_function_module(
        &[0x7F],
        &[0x7F],
        &[0, 0x20, 0, 0x04, 0x7F, 0x41, 10, 0x05, 0x41, 20, 0x0B, 0x0B],
    );
    let instance = WebAssembly::instantiate(&m, no_imports).ok().unwrap();
    let get = |a: i32| run(&instance, &[a.into()]).unwrap().unwrap().get_i32().unwrap();
    assert_eq!(get(1), 10);
    assert_eq!(get(-5), 10);
    assert_eq!(get(0), 20);
}

#[test]
fn select_float() {
    let m = single_function_module(
        &[0x7C, 0x7C, 0x7F],
        &[0x7C],
        &[0, 0x20, 0, 0x20, 1, 0x20, 2, 0x1B, 0x0B],
    );
    let instance = WebAssembly::instantiate(&m, no_imports).ok().unwrap();
    let pi = std::f64::consts::PI.to_bits();
    let zero = 0.0f64.to_bits();
    let r = run(&instance, &[WasmValue::F64(zero), WasmValue::F64(pi), 789.into()]);
    assert_eq!(r, Ok(Some(WasmValue::F64(zero))));
    let r = run(&instance, &[WasmValue::F64(zero), WasmValue::F64(pi), 0.into()]);
    assert_eq!(r, Ok(Some(WasmValue::F64(pi))));
}

#[test]
fn float_constants_and_reinterpretation_keep_the_bits() {
    // f32.const 1.5; i32.reinterpret_f32
    let one_and_half = 1.5f32.to_bits().to_le_bytes();
    let mut body = vec![0, 0x43];
    body.extend_from_slice(&one_and_half);
    body.extend_from_slice(&[0xBC, 0x0B]);
    let m = single_function_module(&[], &[0x7F], &body);
    let instance = WebAssembly::instantiate(&m, no_imports).ok().unwrap();
    assert_eq!(run(&instance, &[]), Ok(Some(WasmValue::I32(1.5f32.to_bits() as i32))));
    // f64.const -2.0
    let mut body = vec![0, 0x44];
    body.extend_from_slice(&(-2.0f64).to_bits().to_le_bytes());
    body.push(0x0B);
    let m = single_function_module(&[], &[0x7C], &body);
    let instance = WebAssembly::instantiate(&m, no_imports).ok().unwrap();
    assert_eq!(run(&instance, &[]), Ok(Some(WasmValue::F64((-2.0f64).to_bits()))));
    // float arithmetic is not run
    let m = single_function_module(&[0x7C, 0x7C], &[0x7C], &[0, 0x20, 0, 0x20, 1, 0xA0, 0x0B]);
    let instance = WebAssembly::instantiate(&m, no_imports).ok().unwrap();
    assert_eq!(
        run(&instance, &[WasmValue::F64(0), WasmValue::F64(0)]),
        Err(WasmRuntimeErrorKind::NotSupported)
    );
}

#[test]
fn a_module_without_memory_cannot_run() {
    let m = module_of(&[(&[], &[0x7F])], &[(0, &[0, 0x41, 1, 0x0B])], None, &[]);
    let instance = WebAssembly::instantiate(&m, no_imports).ok().unwrap();
    assert_eq!(run(&instance, &[]), Err(WasmRuntimeErrorKind::OutOfMemory));
}

#[test]
fn memory_loads_and_stores() {
    // (param addr i32) (param val i64): i64.store addr val; then i32.load8_s at addr + 1
    let body = [0, 0x20, 0, 0x20, 1, 0x37, 3, 0, 0x20, 0, 0x2C, 0, 1, 0x0B];
    let m = module_of(&[(&[0x7F, 0x7E], &[0x7F])], &[(0, &body)], Some(&[0, 1]), &[]);
    let instance = WebAssembly::instantiate(&m, no_imports).ok().unwrap();
    let get = |a: i32, v: i64| run(&instance, &[a.into(), v.into()]);
    assert_eq!(get(0, 0x1234), Ok(Some(WasmValue::I32(0x12))));
    assert_eq!(get(100, 0xFF00), Ok(Some(WasmValue::I32(-1))));
    assert_eq!(get(65528, 0x7F00), Ok(Some(WasmValue::I32(0x7F))));
    assert_eq!(get(65529, 1), Err(WasmRuntimeErrorKind::OutOfBounds));
    assert_eq!(get(-1, 1), Err(WasmRuntimeErrorKind::OutOfBounds));

    // i32.store16 at 2, then i32.load at 0 + offset 2
    let body = [0, 0x41, 2, 0x41, 0xFF, 0x00, 0x3B, 1, 0, 0x41, 0, 0x28, 2, 2, 0x0B];
    let m = module_of(&[(&[], &[0x7F])], &[(0, &body)], Some(&[0, 1]), &[]);
    let instance = WebAssembly::instantiate(&m, no_imports).ok().unwrap();
    assert_eq!(run(&instance, &[]), Ok(Some(WasmValue::I32(0x7F))));
}

#[test]
fn memory_size_and_grow() {
    // memory.grow (local 0); memory.size; i32.const 16; shl; i32.or  -- old pages + size << 16
    let body = [0, 0x20, 0, 0x40, 0, 0x3F, 0, 0x41, 16, 0x74, 0x72, 0x0B];
    let m = module_of(&[(&[0x7F], &[0x7F])], &[(0, &body)], Some(&[1, 1, 3]), &[]);
    let instance = WebAssembly::instantiate(&m, no_imports).ok().unwrap();
    let get = |d: i32| run(&instance, &[d.into()]).unwrap().unwrap().get_i32().unwrap();
    assert_eq!(get(0), 1 | (1 << 16));
    assert_eq!(get(1), 1 | (2 << 16));
    assert_eq!(get(2), 1 | (3 << 16));
    assert_eq!(get(3), -1);
    // writes of one invocation are not kept by the next
    assert_eq!(instance.memory(0).unwrap().size(), 1);
}

#[test]
fn globals_are_read_and_written() {
    // global.get 0; i32.const 1; i32.add; global.set 0; global.get 0
    let body = [0, 0x23, 0, 0x41, 1, 0x6A, 0x24, 0, 0x23, 0, 0x0B];
    let m = module_of(&[(&[], &[0x7F])], &[(0, &body)], Some(&[0, 0]), &[(0x7F, 1, 5)]);
    let instance = WebAssembly::instantiate(&m, no_imports).ok().unwrap();
    assert_eq!(run(&instance, &[]), Ok(Some(WasmValue::I32(6))));
    // an immutable global cannot be written
    let m = module_of(&[(&[], &[0x7F])], &[(0, &body)], Some(&[0, 0]), &[(0x7F, 0, 5)]);
    assert_eq!(compile_kind(&m), Some(CompileErrorKind::InvalidGlobal));
    // global.get of an i64 global
    let m = module_of(&[(&[], &[0x7E])], &[(0, &[0, 0x23, 0, 0x0B])], Some(&[0, 0]), &[(0x7E, 0, -7)]);
    let instance = WebAssembly::instantiate(&m, no_imports).ok().unwrap();
    assert_eq!(run(&instance, &[]), Ok(Some(WasmValue::I64(-7))));
}

#[test]
fn calls_run_other_functions() {
    // f0(a, b) = a * b; f1(x) = f0(x, x + 1)
    let f0 = [0, 0x20, 0, 0x20, 1, 0x6C, 0x0B];
    let f1 = [0, 0x20, 0, 0x20, 0, 0x41, 1, 0x6A, 0x10, 0, 0x0B];
    let m = module_of(
        &[(&[0x7F, 0x7F], &[0x7F]), (&[0x7F], &[0x7F])],
        &[(0, &f0), (1, &f1)],
        Some(&[0, 0]),
        &[],
    );
    let instance = WebAssembly::instantiate(&m, no_imports).ok().unwrap();
    let get = |x: i32| run(&instance, &[x.into()]).unwrap().unwrap().get_i32().unwrap();
    assert_eq!(get(6), 42);
    assert_eq!(get(-3), 6);
}

#[test]
fn recursive_factorial() {
    // fact(n) = if n == 0 { 1 } else { n * fact(n - 1) }
    let fact = [
        0, 0x20, 0, 0x45, 0x04, 0x7F, 0x41, 1, 0x05, 0x20, 0, 0x20, 0, 0x41, 1, 0x6B, 0x10, 0, 0x6C,
        0x0B, 0x0B,
    ];
    let m = module_of(&[(&[0x7F], &[0x7F])], &[(0, &fact)], Some(&[0, 0]), &[]);
    let instance = WebAssembly::instantiate(&m, no_imports).ok().unwrap();
    let get = |x: i32| run(&instance, &[x.into()]).unwrap().unwrap().get_i32().unwrap();
    assert_eq!(get(0), 1);
    assert_eq!(get(7), 5040);
    assert_eq!(get(10), 3628800);
}

#[test]
fn calls_of_host_functions_and_of_missing_ones() {
    // an imported function is a host function: calling it is not supported
    let mut m = vec![0, 0x61, 0x73, 0x6d, 1, 0, 0, 0];
    section(1, &[1, 0x60, 0, 0], &mut m);
    let mut imports = vec![1];
    name_bytes("env", &mut imports);
    name_bytes("h", &mut imports);
    imports.extend_from_slice(&[0, 0]);
    section(2, &imports, &mut m);
    section(3, &[1, 0], &mut m);
    section(5, &[1, 0, 0], &mut m);
    let mut exports = vec![1];
    name_bytes("f", &mut exports);
    exports.extend_from_slice(&[0, 1]);
    section(7, &exports, &mut m);
    section(10, &[1, 4, 0, 0x10, 0, 0x0B], &mut m);
    let host = |_: &str, _: &str, _: &WasmType| -> ImportResult<usize> { ImportResult::Found(3) };
    let instance = WebAssembly::instantiate(&m, host).ok().unwrap();
    assert_eq!(run(&instance, &[]), Err(WasmRuntimeErrorKind::NotSupported));
    // a call of a function index that does not exist is refused
    let m = module_of(&[(&[], &[])], &[(0, &[0, 0x10, 5, 0x0B])], Some(&[0, 0]), &[]);
    assert_eq!(compile_kind(&m), Some(CompileErrorKind::InvalidData));
}

fn body_error(params: &[u8], results: &[u8], body: &[u8], memory: Option<&[u8]>) -> Option<CompileErrorKind> {
    let m = module_of(&[(params, results)], &[(0, body)], memory, &[(0x7F, 0, 1)]);
    compile_kind(&m)
}

#[test]
fn bodies_are_checked() {
    let i32_ = 0x7F;
    let i64_ = 0x7E;
    // operand types
    assert_eq!(body_error(&[i64_], &[i64_], &[0, 0x20, 0, 0x20, 0, 0x6A, 0x0B], None), Some(CompileErrorKind::TypeMismatch));
    assert_eq!(body_error(&[i32_], &[i32_], &[0, 0x20, 0, 0x6A, 0x0B], None), Some(CompileErrorKind::OutOfStack));
    assert_eq!(body_error(&[], &[i32_], &[0, 0x42, 1, 0x0B], None), Some(CompileErrorKind::TypeMismatch));
    assert_eq!(body_error(&[], &[], &[0, 0x41, 1, 0x0B], None), Some(CompileErrorKind::InvalidStackLevel));
    assert_eq!(body_error(&[], &[i32_], &[0, 0x0B], None), Some(CompileErrorKind::OutOfStack));
    // indices
    assert_eq!(body_error(&[], &[i32_], &[0, 0x20, 0, 0x0B], None), Some(CompileErrorKind::InvalidLocal));
    assert_eq!(body_error(&[], &[i32_], &[0, 0x23, 1, 0x0B], None), Some(CompileErrorKind::InvalidGlobal));
    assert_eq!(body_error(&[], &[], &[0, 0x41, 1, 0x24, 0, 0x0B], None), Some(CompileErrorKind::InvalidGlobal));
    assert_eq!(body_error(&[], &[], &[0, 0x0C, 0, 0x0B], None), Some(CompileErrorKind::OutOfBranch));
    assert_eq!(body_error(&[], &[], &[0, 0x02, 0x40, 0x0C, 1, 0x0B, 0x0B], None), Some(CompileErrorKind::OutOfBranch));
    // blocks
    assert_eq!(body_error(&[], &[], &[0, 0x05, 0x0B], None), Some(CompileErrorKind::ElseWithoutIf));
    assert_eq!(body_error(&[], &[], &[0, 0x02, 0x45, 0x0B, 0x0B], None), Some(CompileErrorKind::InvalidData));
    assert_eq!(body_error(&[], &[], &[0, 0x02, 0x40, 0x0B], None), Some(CompileErrorKind::UnexpectedEof));
    // memory
    assert_eq!(body_error(&[], &[i32_], &[0, 0x41, 0, 0x28, 2, 0, 0x0B], None), Some(CompileErrorKind::OutOfMemory));
    assert_eq!(body_error(&[], &[i32_], &[0, 0x41, 0, 0x28, 2, 0, 0x0B], Some(&[0, 0])), Some(CompileErrorKind::OutOfMemory));
    assert_eq!(body_error(&[], &[i32_], &[0, 0x41, 0, 0x28, 2, 0, 0x0B], Some(&[0, 1])), None);
    assert_eq!(body_error(&[], &[i32_], &[0, 0x3F, 0, 0x0B], None), Some(CompileErrorKind::OutOfMemory));
    // instructions
    assert_eq!(body_error(&[], &[], &[0, 0xD3, 0x0B], None), Some(CompileErrorKind::InvalidBytecode(0xD3)));
    assert_eq!(body_error(&[], &[], &[0, 0xFC, 0x20, 0x0B], None), Some(CompileErrorKind::InvalidBytecode2(0xFC, 0x20)));
    assert_eq!(body_error(&[], &[], &[0, 0x25, 0, 0x0B], None), Some(CompileErrorKind::InvalidBytecode(0x25)));
    assert_eq!(
        body_error(&[], &[], &[0, 0xFC, 0x09, 0x0B], None),
        Some(CompileErrorKind::UnsupportedBytecode(wami::opcode::WasmMnemonic::DataDrop))
    );
    // a valid body with blocks, a loop and a branch table
    assert_eq!(
        body_error(
            &[i32_],
            &[i32_],
            &[0, 0x02, 0x7F, 0x03, 0x40, 0x20, 0, 0x0E, 1, 0, 1, 0x0B, 0x41, 5, 0x0B, 0x0B],
            None
        ),
        None
    );
}

#[test]
fn imports_are_resolved_in_order() {
    let mut m = vec![0, 0x61, 0x73, 0x6d, 1, 0, 0, 0];
    section(1, &[1, 0x60, 0, 0], &mut m);
    let mut imports = vec![2];
    name_bytes("env", &mut imports);
    name_bytes("a", &mut imports);
    imports.extend_from_slice(&[0, 0]);
    name_bytes("env", &mut imports);
    name_bytes("b", &mut imports);
    imports.extend_from_slice(&[0, 0]);
    section(2, &imports, &mut m);

    let module = WasmModule::compile(&m).ok().unwrap();
    let listed = module.imports();
    assert_eq!(listed.len(), 2);
    assert_eq!(listed[0].module, "env");
    assert_eq!(listed[1].name, "b");
    assert_eq!(listed[1].kind, ImportExportKind::Function);

    let resolver = |m: &str, n: &str, _: &WasmType| -> ImportResult<usize> {
        if m != "env" {
            ImportResult::NoModule
        } else if n == "a" {
            ImportResult::Found(10)
        } else if n == "b" {
            ImportResult::Found(20)
        } else {
            ImportResult::NoMethod
        }
    };
    let instance = WebAssembly::instantiate(&m, resolver).ok().unwrap();
    let functions = instance.module().functions();
    assert_eq!(functions.len(), 2);
    assert!(matches!(functions[0].content(), wami::module::WasmFunctionContent::Dynamic(10)));
    assert!(matches!(functions[1].content(), wami::module::WasmFunctionContent::Dynamic(20)));

    let missing = |_: &str, n: &str, _: &WasmType| -> ImportResult<usize> {
        if n == "a" {
            ImportResult::Found(1)
        } else {
            ImportResult::NoMethod
        }
    };
    match WebAssembly::instantiate(&m, missing) {
        Err(WasmInstantiateError::Link(wami::error::LinkError::NoMethod(n))) => assert_eq!(n, "b"),
        _ => panic!("expected NoMethod"),
    }
    let no_module = |_: &str, _: &str, _: &WasmType| -> ImportResult<usize> { ImportResult::NoModule };
    match WebAssembly::instantiate(&m, no_module) {
        Err(WasmInstantiateError::Link(wami::error::LinkError::NoModule(n))) => assert_eq!(n, "env"),
        _ => panic!("expected NoModule"),
    }
    // the first refused import is named, and the resolver is not asked again
    let asked = std::cell::Cell::new(0);
    let none = |_: &str, _: &str, _: &WasmType| -> ImportResult<usize> {
        asked.set(asked.get() + 1);
        ImportResult::NoMethod
    };
    match WebAssembly::instantiate(&m, none) {
        Err(WasmInstantiateError::Link(wami::error::LinkError::NoMethod(n))) => assert_eq!(n, "a"),
        _ => panic!("expected NoMethod"),
    }
    assert_eq!(asked.get(), 1);
}

#[test]
fn memory_data_and_globals() {
    let mut m = vec![0, 0x61, 0x73, 0x6d, 1, 0, 0, 0];
    section(5, &[1, 0, 1], &mut m);
    section(6, &[1, 0x7F, 1, 0x41, 0xFB, 0x00, 0x0B], &mut m);
    let mut exports = vec![1];
    name_bytes("g", &mut exports);
    exports.extend_from_slice(&[3, 0]);
    section(7, &exports, &mut m);
    section(11, &[1, 0, 0x41, 4, 0x0B, 3, 7, 8, 9], &mut m);

    let instance = WebAssembly::instantiate(&m, no_imports).ok().unwrap();
    let memory = instance.memory(0).unwrap();
    assert_eq!(memory.size(), 1);
    let data = memory.try_borrow().ok().unwrap();
    assert_eq!(data.as_slice()[3..8], [0, 7, 8, 9, 0]);
    assert!(instance.module().has_memory());

    let global = instance.global("g").ok().unwrap();
    assert_eq!(global.value(), WasmValue::I32(123));
    assert!(global.is_mutable());
    assert_eq!(global.val_type(), WasmValType::I32);
    assert!(instance.global("h").is_err());
}

#[test]
fn data_segment_out_of_memory_is_refused() {
    let mut m = vec![0, 0x61, 0x73, 0x6d, 1, 0, 0, 0];
    section(5, &[1, 0, 1], &mut m);
    section(11, &[1, 0, 0x41, 0xFF, 0xFF, 0x03, 0x0B, 2, 7, 8], &mut m);
    assert_eq!(compile_kind(&m), Some(CompileErrorKind::InvalidData));
}

#[test]
fn elements_fill_the_table() {
    let mut m = vec![0, 0x61, 0x73, 0x6d, 1, 0, 0, 0];
    section(1, &[1, 0x60, 0, 0], &mut m);
    section(3, &[2, 0, 0], &mut m);
    section(4, &[1, 0x70, 0, 4], &mut m);
    section(9, &[1, 0, 0x41, 1, 0x0B, 2, 1, 0], &mut m);
    section(10, &[2, 2, 0, 0x0B, 2, 0, 0x0B], &mut m);
    let module = WasmModule::compile(&m).ok().unwrap();
    assert_eq!(module.elem_get(1).unwrap().index(), 1);
    assert_eq!(module.elem_get(2).unwrap().index(), 0);
    assert!(module.elem_get(4).is_none());
    assert!(module.func_position(0).is_some());
}

#[test]
fn bad_global_type_is_refused() {
    let mut m = vec![0, 0x61, 0x73, 0x6d, 1, 0, 0, 0];
    section(6, &[1, 0x7E, 0, 0x41, 1, 0x0B], &mut m);
    assert_eq!(compile_kind(&m), Some(CompileErrorKind::InvalidGlobal));
    let mut m = vec![0, 0x61, 0x73, 0x6d, 1, 0, 0, 0];
    section(6, &[1, 0x7F, 0, 0x0B], &mut m);
    assert_eq!(compile_kind(&m), Some(CompileErrorKind::InvalidData));
    let mut m = vec![0, 0x61, 0x73, 0x6d, 1, 0, 0, 0];
    section(6, &[1, 0x7F, 0, 0x20, 0, 0x0B], &mut m);
    assert_eq!(
        compile_kind(&m),
        Some(CompileErrorKind::UnsupportedBytecode(wami::opcode::WasmMnemonic::LocalGet))
    );
}

#[test]
fn function_with_unknown_type_is_refused() {
    let mut m = vec![0, 0x61, 0x73, 0x6d, 1, 0, 0, 0];
    section(3, &[1, 0], &mut m);
    assert!(matches!(compile_kind(&m), Some(CompileErrorKind::InvalidType(_))));
    let mut m = vec![0, 0x61, 0x73, 0x6d, 1, 0, 0, 0];
    section(10, &[1, 2, 0, 0x0B], &mut m);
    assert_eq!(compile_kind(&m), Some(CompileErrorKind::OutOfFunction));
}

#[test]
fn call_indirect_goes_through_the_table() {
    let mut m = vec![0, 0x61, 0x73, 0x6d, 1, 0, 0, 0];
    section(1, &[2, 0x60, 1, 0x7F, 1, 0x7F, 0x60, 0, 1, 0x7F], &mut m);
    section(3, &[3, 0, 1, 0], &mut m);
    section(4, &[1, 0x70, 0, 2], &mut m);
    section(5, &[1, 0, 0], &mut m);
    let mut exports = vec![1];
    name_bytes("f", &mut exports);
    exports.extend_from_slice(&[0, 2]);
    section(7, &exports, &mut m);
    section(9, &[1, 0, 0x41, 0, 0x0B, 2, 0, 1], &mut m);
    let f0 = [0, 0x20, 0, 0x41, 2, 0x6C, 0x0B];
    let f1 = [0, 0x41, 7, 0x0B];
    let f2 = [0, 0x41, 21, 0x20, 0, 0x11, 0, 0, 0x0B];
    let mut code = vec![3];
    for body in [&f0[..], &f1[..], &f2[..]] {
        leb(body.len() as u32, &mut code);
        code.extend_from_slice(body);
    }
    section(10, &code, &mut m);
    let instance = WebAssembly::instantiate(&m, no_imports).ok().unwrap();
    assert_eq!(run(&instance, &[0.into()]), Ok(Some(WasmValue::I32(42))));
    assert_eq!(run(&instance, &[1.into()]), Err(WasmRuntimeErrorKind::TypeMismatch));
    assert_eq!(run(&instance, &[2.into()]), Err(WasmRuntimeErrorKind::NoMethod));
    assert_eq!(run(&instance, &[(-1).into()]), Err(WasmRuntimeErrorKind::NoMethod));
}

#[test]
fn memory_copy_and_fill() {
    // memory.fill(16, 0xAB, 4); memory.copy(17, 15, 3); i32.load at 16
    let body = [
        0, 0x41, 16, 0x41, 0xAB, 0x01, 0x41, 4, 0xFC, 0x0B, 0, 0x41, 17, 0x41, 15, 0x41, 3, 0xFC, 0x0A,
        0, 0, 0x41, 16, 0x28, 2, 0, 0x0B,
    ];
    let m = module_of(&[(&[], &[0x7F])], &[(0, &body)], Some(&[0, 1]), &[]);
    let instance = WebAssembly::instantiate(&m, no_imports).ok().unwrap();
    // bytes 15..20 before the copy: 00 AB AB AB AB; after copying 15..18 to 17..20: 00 AB 00 AB AB
    assert_eq!(run(&instance, &[]), Ok(Some(WasmValue::I32(0xABAB00ABu32 as i32))));

    // a fill past the end of the memory
    let body = [0, 0x41, 0x80, 0x80, 0x04, 0x41, 1, 0x41, 1, 0xFC, 0x0B, 0, 0x0B];
    let m = module_of(&[(&[], &[])], &[(0, &body)], Some(&[0, 1]), &[]);
    let instance = WebAssembly::instantiate(&m, no_imports).ok().unwrap();
    assert_eq!(run(&instance, &[]), Err(WasmRuntimeErrorKind::OutOfBounds));

    // a block around a copy of nothing
    let body = [0, 0x02, 0x40, 0x41, 0, 0x41, 0, 0x41, 0, 0xFC, 0x0A, 0, 0, 0x0B, 0x41, 9, 0x0B];
    let m = module_of(&[(&[], &[0x7F])], &[(0, &body)], Some(&[0, 1]), &[]);
    let instance = WebAssembly::instantiate(&m, no_imports).ok().unwrap();
    assert_eq!(run(&instance, &[]), Ok(Some(WasmValue::I32(9))));
}

#[test]
fn host_functions_are_called() {
    let mut m = vec![0, 0x61, 0x73, 0x6d, 1, 0, 0, 0];
    section(1, &[3, 0x60, 1, 0x7F, 1, 0x7F, 0x60, 2, 0x7F, 0x7F, 0, 0x60, 0, 1, 0x7F], &mut m);
    let mut imports = vec![3];
    for (name, t) in [("add1", 0u8), ("print", 1), ("bad", 2)] {
        name_bytes("env", &mut imports);
        name_bytes(name, &mut imports);
        imports.extend_from_slice(&[0, t]);
    }
    section(2, &imports, &mut m);
    section(3, &[3, 0, 2, 2], &mut m);
    section(5, &[1, 0, 1], &mut m);
    let mut exports = vec![3];
    for (name, index) in [("f", 3u8), ("g", 4), ("h", 5)] {
        name_bytes(name, &mut exports);
        exports.extend_from_slice(&[0, index]);
    }
    section(7, &exports, &mut m);
    let f = [0, 0x20, 0, 0x10, 0, 0x41, 2, 0x6C, 0x0B];
    let g = [0, 0x41, 16, 0x41, 5, 0x10, 1, 0x41, 7, 0x0B];
    let h = [0, 0x10, 2, 0x0B];
    let mut code = vec![3];
    for body in [&f[..], &g[..], &h[..]] {
        leb(body.len() as u32, &mut code);
        code.extend_from_slice(body);
    }
    section(10, &code, &mut m);
    section(11, &[1, 0, 0x41, 16, 0x0B, 5, b'h', b'e', b'l', b'l', b'o'], &mut m);
    let resolver = |_: &str, n: &str, _: &WasmType| -> ImportResult<usize> {
        match n {
            "add1" => ImportResult::Found(1),
            "print" => ImportResult::Found(2),
            _ => ImportResult::Found(3),
        }
    };
    let instance = WebAssembly::instantiate(&m, resolver).ok().unwrap();
    let printed: std::cell::RefCell<Vec<u8>> = std::cell::RefCell::new(Vec::new());
    let host = |handle: usize, args: &[WasmValue], memory: &[u8]| -> Result<Option<WasmValue>, WasmRuntimeErrorKind> {
        match handle {
            1 => Ok(Some(WasmValue::I32(args[0].get_i32().unwrap() + 1))),
            2 => {
                let at = args[0].get_i32().unwrap() as usize;
                let len = args[1].get_i32().unwrap() as usize;
                printed.borrow_mut().extend_from_slice(&memory[at..at + len]);
                Ok(None)
            }
            3 => Ok(Some(WasmValue::I64(0))),
            _ => Err(WasmRuntimeErrorKind::NoMethod),
        }
    };
    let f = instance.function("f").unwrap();
    assert_eq!(f.invoke_with(&[20.into()], &host).map_err(|e| e.kind()), Ok(Some(WasmValue::I32(42))));
    assert_eq!(f.invoke(&[20.into()]).map_err(|e| e.kind()), Err(WasmRuntimeErrorKind::NotSupported));
    let g = instance.function("g").unwrap();
    assert_eq!(g.invoke_with(&[], &host).map_err(|e| e.kind()), Ok(Some(WasmValue::I32(7))));
    assert_eq!(printed.borrow().as_slice(), b"hello");
    let h = instance.function("h").unwrap();
    assert_eq!(h.invoke_with(&[], &host).map_err(|e| e.kind()), Err(WasmRuntimeErrorKind::TypeMismatch));
}

#[test]
fn instance_state_persists_between_invocations() {
    // f(x): when x != 0, store x at address 0 and into the global; then give the word at
    // address 0 plus the global
    let body = [
        0, 0x20, 0, 0x04, 0x40, 0x41, 0, 0x20, 0, 0x36, 2, 0, 0x20, 0, 0x24, 0, 0x0B, 0x41, 0, 0x28, 2, 0, 0x23, 0,
        0x6A, 0x0B,
    ];
    let m = module_of(&[(&[0x7F], &[0x7F])], &[(0, &body)], Some(&[0, 1]), &[(0x7F, 1, 5)]);
    let mut instance = WebAssembly::instantiate(&m, no_imports).ok().unwrap();
    let no_host = wami::wasmrt::no_host;
    assert_eq!(instance.invoke("f", &[0.into()], &no_host).map_err(|e| e.kind()), Ok(Some(WasmValue::I32(5))));
    assert_eq!(instance.invoke("f", &[7.into()], &no_host).map_err(|e| e.kind()), Ok(Some(WasmValue::I32(14))));
    assert_eq!(instance.invoke("f", &[0.into()], &no_host).map_err(|e| e.kind()), Ok(Some(WasmValue::I32(14))));
    assert_eq!(instance.memory(0).unwrap().load(0, 0, 4), Ok(7));
    // a runnable works on a copy: its writes are not kept
    assert_eq!(run(&instance, &[3.into()]), Ok(Some(WasmValue::I32(6))));
    assert_eq!(run(&instance, &[0.into()]), Ok(Some(WasmValue::I32(14))));
    assert_eq!(instance.invoke("g", &[], &no_host).map_err(|e| e.kind()), Err(WasmRuntimeErrorKind::NoMethod));
    assert_eq!(instance.invoke("f", &[], &no_host).map_err(|e| e.kind()), Err(WasmRuntimeErrorKind::InvalidParameter));
    assert_eq!(instance.invoke("f", &[0.into()], &no_host).map_err(|e| e.kind()), Ok(Some(WasmValue::I32(14))));
}

#[test]
fn runtime_errors_report_where_they_happened() {
    // f: i32.const 1; i32.const 0; i32.div_s
    let body = [0, 0x41, 1, 0x41, 0, 0x6D, 0x0B];
    let m = single_function_module(&[], &[0x7F], &body);
    let instance = WebAssembly::instantiate(&m, no_imports).ok().unwrap();
    let e = instance.function("f").unwrap().invoke(&[]).unwrap_err();
    assert_eq!(e.kind(), WasmRuntimeErrorKind::DivideByZero);
    assert_eq!(e.function(), 0);
    assert_eq!(e.position(), 5);
    assert_eq!(e.mnemonic(), wami::opcode::WasmMnemonic::I32DivS);
    assert_eq!(e.function_name(), None);
    assert_eq!(e.file_position(), m.len() - body.len() + 5);
    assert_eq!(e.text(), format!("DivideByZero at $0:5, 0x{:x}: i32.div_s", e.file_position()));

    // the declarations of locals count: one group of one i32 before the same code
    let body = [1, 1, 0x7F, 0x41, 1, 0x41, 0, 0x6D, 0x0B];
    let m = single_function_module(&[], &[0x7F], &body);
    let instance = WebAssembly::instantiate(&m, no_imports).ok().unwrap();
    let e = instance.function("f").unwrap().invoke(&[]).unwrap_err();
    assert_eq!(e.position(), 7);
    assert_eq!(e.file_position(), m.len() - body.len() + 7);
    assert_eq!(m[e.file_position()], 0x6D);

    // g calls f, whose error it reports
    let callee = [0, 0x41, 1, 0x41, 0, 0x6F, 0x0B];
    let caller = [0, 0x41, 9, 0x10, 0, 0x6A, 0x0B];
    let m = module_of(&[(&[], &[0x7F])], &[(0, &callee), (0, &caller)], Some(&[0, 1]), &[]);
    let instance = WebAssembly::instantiate(&m, no_imports).ok().unwrap();
    let e = instance.function("f").unwrap().invoke(&[]).unwrap_err();
    assert_eq!(e.kind(), WasmRuntimeErrorKind::DivideByZero);
    assert_eq!(e.function(), 0);
    assert_eq!(e.position(), 5);
    assert_eq!(e.mnemonic(), wami::opcode::WasmMnemonic::I32RemS);

    // an error before the run is bare
    let m = single_function_module(&[0x7F], &[0x7F], &[0, 0x20, 0, 0x0B]);
    let instance = WebAssembly::instantiate(&m, no_imports).ok().unwrap();
    let e = instance.function("f").unwrap().invoke(&[]).unwrap_err();
    assert_eq!(e.kind(), WasmRuntimeErrorKind::InvalidParameter);
    assert_eq!(e.function(), 0);
    assert_eq!(e.position(), 0);
    assert_eq!(e.mnemonic(), wami::opcode::WasmMnemonic::Unreachable);
}

#[test]
fn hello_world_through_a_host_function() {
    let mut m = vec![0, 0x61, 0x73, 0x6d, 1, 0, 0, 0];
    section(1, &[2, 0x60, 2, 0x7F, 0x7F, 0, 0x60, 0, 0], &mut m);
    let mut imports = vec![1];
    name_bytes("env", &mut imports);
    name_bytes("println", &mut imports);
    imports.extend_from_slice(&[0, 0]);
    section(2, &imports, &mut m);
    section(3, &[1, 1], &mut m);
    section(5, &[1, 0, 1], &mut m);
    let mut exports = vec![1];
    name_bytes("main", &mut exports);
    exports.extend_from_slice(&[0, 1]);
    section(7, &exports, &mut m);
    let body = [0, 0x41, 12, 0x41, 16, 0x10, 0, 0x0B];
    let mut code = vec![1];
    leb(body.len() as u32, &mut code);
    code.extend_from_slice(&body);
    section(10, &code, &mut m);
    let mut data = vec![1, 0, 0x41, 16, 0x0B, 12];
    data.extend_from_slice(b"hello world!");
    section(11, &data, &mut m);

    let resolver = |module: &str, name: &str, _: &WasmType| -> ImportResult<usize> {
        match (module, name) {
            ("env", "println") => ImportResult::Found(7),
            _ => ImportResult::NoMethod,
        }
    };
    let mut instance = WebAssembly::instantiate(&m, resolver).ok().unwrap();
    let printed: std::cell::RefCell<Vec<u8>> = std::cell::RefCell::new(Vec::new());
    let host = |handle: usize, args: &[WasmValue], memory: &[u8]| -> Result<Option<WasmValue>, WasmRuntimeErrorKind> {
        assert_eq!(handle, 7);
        let len = args[0].get_i32().unwrap() as usize;
        let at = args[1].get_i32().unwrap() as usize;
        printed.borrow_mut().extend_from_slice(&memory[at..at + len]);
        Ok(None)
    };
    assert_eq!(instance.invoke("main", &[], &host).map_err(|e| e.kind()), Ok(None));
    assert_eq!(printed.borrow().as_slice(), b"hello world!");
}

#[test]
fn memory_grows_through_exported_functions() {
    // mem_test_grow(n) = memory.grow(n); mem_test_size() = memory.size, over a memory of one page
    let mut m = vec![0, 0x61, 0x73, 0x6d, 1, 0, 0, 0];
    section(1, &[2, 0x60, 1, 0x7F, 1, 0x7F, 0x60, 0, 1, 0x7F], &mut m);
    section(3, &[2, 0, 1], &mut m);
    section(5, &[1, 0, 1], &mut m);
    let mut exports = vec![2];
    name_bytes("mem_test_grow", &mut exports);
    exports.extend_from_slice(&[0, 0]);
    name_bytes("mem_test_size", &mut exports);
    exports.extend_from_slice(&[0, 1]);
    section(7, &exports, &mut m);
    section(10, &[2, 6, 0, 0x20, 0, 0x40, 0, 0x0B, 4, 0, 0x3F, 0, 0x0B], &mut m);
    let mut instance = WebAssembly::instantiate(&m, no_imports).ok().unwrap();
    let no_host = |_: usize, _: &[WasmValue], _: &[u8]| -> Result<Option<WasmValue>, WasmRuntimeErrorKind> {
        Err(WasmRuntimeErrorKind::NoMethod)
    };
    let mut call = |name: &str, args: &[WasmValue]| -> i32 {
        instance.invoke(name, args, &no_host).ok().unwrap().unwrap().get_i32().unwrap()
    };
    assert_eq!(call("mem_test_size", &[]), 1);
    assert_eq!(call("mem_test_grow", &[0.into()]), 1);
    assert_eq!(call("mem_test_size", &[]), 1);
    assert_eq!(call("mem_test_grow", &[10.into()]), 1);
    assert_eq!(call("mem_test_size", &[]), 11);
    assert_eq!(call("mem_test_grow", &[0x10000.into()]), -1);
    assert_eq!(call("mem_test_size", &[]), 11);
    assert_eq!(instance.module().memories()[0].size(), 11);
}
