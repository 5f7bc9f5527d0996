use wami::error::WasmRuntimeErrorKind;
use wami::value::WasmValue;
use wami::wasm::WasmValType;
use wami::wasmrt::{WasmCodeBlock, WasmRuntimeContext, WasmStackValue};

fn eval(code: &[u8], params: &[WasmValue], result: WasmValType) -> Result<Option<WasmValue>, WasmRuntimeErrorKind> {
    let mut block = WasmCodeBlock::from_slice(code);
    WasmRuntimeContext::try_run(&mut block, params, &[result]).expect("the code runs")
}

fn eval_i32(code: &[u8], params: &[WasmValue]) -> i32 {
    eval(code, params, WasmValType::I32).unwrap().unwrap().get_i32().unwrap()
}

fn eval_i64(code: &[u8], params: &[WasmValue]) -> i64 {
    eval(code, params, WasmValType::I64).unwrap().unwrap().get_i64().unwrap()
}

#[test]
fn add() {
    let slice = [0x20, 0, 0x20, 1, 0x6A, 0x0B];
    let mut code_block = WasmCodeBlock::from_slice(&slice);

    let mut params = [1234.into(), 5678.into()];
    let result = code_block
        .invoke(&mut params, &[WasmValType::I32])
        .unwrap()
        .unwrap()
        .get_i32()
        .unwrap();
    assert_eq!(result, 6912);

    let mut params = [0xDEADBEEFu32.into(), 0x55555555.into()];
    let result = code_block
        .invoke(&mut params, &[WasmValType::I32])
        .unwrap()
        .unwrap()
        .get_i32()
        .unwrap();
    assert_eq!(result, 0x34031444);
}

#[test]
fn sub() {
    let slice = [0x20, 0, 0x20, 1, 0x6B, 0x0B];
    let mut code_block = WasmCodeBlock::from_slice(&slice);

    let mut params = [1234.into(), 5678.into()];
    let result = code_block
        .invoke(&mut params, &[WasmValType::I32])
        .unwrap()
        .unwrap()
        .get_i32()
        .unwrap();
    assert_eq!(result, -4444);

    let mut params = [0x55555555.into(), 0xDEADBEEFu32.into()];
    let result = code_block
        .invoke(&mut params, &[WasmValType::I32])
        .unwrap()
        .unwrap()
        .get_i32()
        .unwrap();
    assert_eq!(result, 0x76a79666);
}

#[test]
fn i32_unary_operators() {
    for val in [0i32, 1, -1, 0x1234_5678, 0x5555_5555, 0xAAAA_AAAAu32 as i32, 0x0000_FFFF, 0xFFFF_0000u32 as i32] {
        let p = [val.into()];
        assert_eq!(eval_i32(&[0x20, 0, 0x45, 0x0B], &p), (val == 0) as i32);
        assert_eq!(eval_i32(&[0x20, 0, 0x68, 0x0B], &p) as u32, val.trailing_zeros());
        assert_eq!(eval_i32(&[0x20, 0, 0x67, 0x0B], &p) as u32, val.leading_zeros());
        assert_eq!(eval_i32(&[0x20, 0, 0x69, 0x0B], &p) as u32, val.count_ones());
        assert_eq!(eval_i32(&[0x20, 0, 0xC0, 0x0B], &p), (val as i8) as i32);
        assert_eq!(eval_i32(&[0x20, 0, 0xC1, 0x0B], &p), (val as i16) as i32);
    }
}

#[test]
fn i32_binary_operators() {
    for (lhs, rhs) in [
        (1i32, 1i32),
        (-1, -1),
        (1234, 5678),
        (5678, 1234),
        (1234, -1234),
        (0x7FFF_FFFF, 0x8000_0000u32 as i32),
        (0x8000_0000u32 as i32, 0x7FFF_FFFF),
        (0x1234_5678, 0xFEDC_BA98u32 as i32),
        (0x5555_5555, 0xAAAA_AAAAu32 as i32),
    ] {
        let p = [lhs.into(), rhs.into()];
        let bin = |op: u8| eval_i32(&[0x20, 0, 0x20, 1, op, 0x0B], &p);
        assert_eq!(bin(0x46), (lhs == rhs) as i32);
        assert_eq!(bin(0x47), (lhs != rhs) as i32);
        assert_eq!(bin(0x48), (lhs < rhs) as i32);
        assert_eq!(bin(0x49), ((lhs as u32) < (rhs as u32)) as i32);
        assert_eq!(bin(0x4A), (lhs > rhs) as i32);
        assert_eq!(bin(0x4B), ((lhs as u32) > (rhs as u32)) as i32);
        assert_eq!(bin(0x4C), (lhs <= rhs) as i32);
        assert_eq!(bin(0x4D), ((lhs as u32) <= (rhs as u32)) as i32);
        assert_eq!(bin(0x4E), (lhs >= rhs) as i32);
        assert_eq!(bin(0x4F), ((lhs as u32) >= (rhs as u32)) as i32);
        assert_eq!(bin(0x6A), lhs.wrapping_add(rhs));
        assert_eq!(bin(0x6B), lhs.wrapping_sub(rhs));
        assert_eq!(bin(0x6C), lhs.wrapping_mul(rhs));
        assert_eq!(bin(0x6D), lhs.wrapping_div(rhs));
        assert_eq!(bin(0x6E) as u32, (lhs as u32).wrapping_div(rhs as u32));
        assert_eq!(bin(0x6F), lhs.wrapping_rem(rhs));
        assert_eq!(bin(0x70) as u32, (lhs as u32).wrapping_rem(rhs as u32));
        assert_eq!(bin(0x71), lhs & rhs);
        assert_eq!(bin(0x72), lhs | rhs);
        assert_eq!(bin(0x73), lhs ^ rhs);
        assert_eq!(bin(0x74), lhs.wrapping_shl(rhs as u32));
        assert_eq!(bin(0x75), lhs.wrapping_shr(rhs as u32));
        assert_eq!(bin(0x76) as u32, (lhs as u32).wrapping_shr(rhs as u32));
        assert_eq!(bin(0x77) as u32, (lhs as u32).rotate_left(rhs as u32));
        assert_eq!(bin(0x78) as u32, (lhs as u32).rotate_right(rhs as u32));
    }
}

#[test]
fn i64_unary_operators() {
    for val in [
        0i64,
        1,
        -1,
        0x1234_5678_ABCD_DEF0,
        0x5555_5555_5555_5555,
        0xAAAA_AAAA_AAAA_AAAAu64 as i64,
        0x0000_0000_FFFF_FFFF,
        0xFFFF_FFFF_0000_0000u64 as i64,
    ] {
        let p = [val.into()];
        assert_eq!(eval_i32(&[0x20, 0, 0x50, 0x0B], &p), (val == 0) as i32);
        assert_eq!(eval_i64(&[0x20, 0, 0x7A, 0x0B], &p), val.trailing_zeros() as i64);
        assert_eq!(eval_i64(&[0x20, 0, 0x79, 0x0B], &p), val.leading_zeros() as i64);
        assert_eq!(eval_i64(&[0x20, 0, 0x7B, 0x0B], &p), val.count_ones() as i64);
        assert_eq!(eval_i64(&[0x20, 0, 0xC2, 0x0B], &p), (val as i8) as i64);
        assert_eq!(eval_i64(&[0x20, 0, 0xC3, 0x0B], &p), (val as i16) as i64);
        assert_eq!(eval_i64(&[0x20, 0, 0xC4, 0x0B], &p), (val as i32) as i64);
        assert_eq!(eval_i32(&[0x20, 0, 0xA7, 0x0B], &p), val as i32);
    }
    assert_eq!(eval_i64(&[0x20, 0, 0xAC, 0x0B], &[(-5i32).into()]), -5);
    assert_eq!(eval_i64(&[0x20, 0, 0xAD, 0x0B], &[(-5i32).into()]), 0xFFFF_FFFB);
}

#[test]
fn i64_binary_operators() {
    for (lhs, rhs) in [
        (1i64, 1i64),
        (-1, -1),
        (1234, 5678),
        (1234, -1234),
        (0x1111_1111_1234_5678, 0x0000_0000_1234_5678),
        (0x7FFF_FFFF_FFFF_FFFF, 0x8000_0000_0000_0000u64 as i64),
        (0x8000_0000_0000_0000u64 as i64, 0x7FFF_FFFF_FFFF_FFFF),
        (0x1234_5678_9ABC_DEF0, 0xFEDC_BA98_7654_3210u64 as i64),
    ] {
        let p = [lhs.into(), rhs.into()];
        let cmp = |op: u8| eval_i32(&[0x20, 0, 0x20, 1, op, 0x0B], &p);
        let bin = |op: u8| eval_i64(&[0x20, 0, 0x20, 1, op, 0x0B], &p);
        assert_eq!(cmp(0x51), (lhs == rhs) as i32);
        assert_eq!(cmp(0x52), (lhs != rhs) as i32);
        assert_eq!(cmp(0x53), (lhs < rhs) as i32);
        assert_eq!(cmp(0x54), ((lhs as u64) < (rhs as u64)) as i32);
        assert_eq!(cmp(0x55), (lhs > rhs) as i32);
        assert_eq!(cmp(0x56), ((lhs as u64) > (rhs as u64)) as i32);
        assert_eq!(cmp(0x57), (lhs <= rhs) as i32);
        assert_eq!(cmp(0x58), ((lhs as u64) <= (rhs as u64)) as i32);
        assert_eq!(cmp(0x59), (lhs >= rhs) as i32);
        assert_eq!(cmp(0x5A), ((lhs as u64) >= (rhs as u64)) as i32);
        assert_eq!(bin(0x7C), lhs.wrapping_add(rhs));
        assert_eq!(bin(0x7D), lhs.wrapping_sub(rhs));
        assert_eq!(bin(0x7E), lhs.wrapping_mul(rhs));
        assert_eq!(bin(0x7F), lhs.wrapping_div(rhs));
        assert_eq!(bin(0x80) as u64, (lhs as u64).wrapping_div(rhs as u64));
        assert_eq!(bin(0x81), lhs.wrapping_rem(rhs));
        assert_eq!(bin(0x82) as u64, (lhs as u64).wrapping_rem(rhs as u64));
        assert_eq!(bin(0x83), lhs & rhs);
        assert_eq!(bin(0x84), lhs | rhs);
        assert_eq!(bin(0x85), lhs ^ rhs);
        assert_eq!(bin(0x86), lhs.wrapping_shl(rhs as u32));
        assert_eq!(bin(0x87), lhs.wrapping_shr(rhs as u32));
        assert_eq!(bin(0x88) as u64, (lhs as u64).wrapping_shr(rhs as u32));
        assert_eq!(bin(0x89) as u64, (lhs as u64).rotate_left(rhs as u32));
        assert_eq!(bin(0x8A) as u64, (lhs as u64).rotate_right(rhs as u32));
    }
}

#[test]
fn division_overflow_wraps() {
    let p = [i32::MIN.into(), (-1).into()];
    assert_eq!(eval_i32(&[0x20, 0, 0x20, 1, 0x6D, 0x0B], &p), i32::MIN);
    assert_eq!(eval_i32(&[0x20, 0, 0x20, 1, 0x6F, 0x0B], &p), 0);
    let p = [i64::MIN.into(), (-1i64).into()];
    assert_eq!(eval_i64(&[0x20, 0, 0x20, 1, 0x7F, 0x0B], &p), i64::MIN);
    assert_eq!(eval_i64(&[0x20, 0, 0x20, 1, 0x81, 0x0B], &p), 0);
}

#[test]
fn run_errors() {
    assert_eq!(
        eval(&[0x41, 1, 0x41, 0, 0x6D, 0x0B], &[], WasmValType::I32),
        Err(WasmRuntimeErrorKind::DivideByZero)
    );
    assert_eq!(eval(&[0x41, 1, 0x41, 1, 0x92, 0x0B], &[], WasmValType::I32), Err(WasmRuntimeErrorKind::NotSupported));
    assert_eq!(eval(&[0x41, 1, 0x11, 0, 0, 0x0B], &[], WasmValType::I32), Err(WasmRuntimeErrorKind::NoMethod));
    assert_eq!(eval(&[0x00, 0x0B], &[], WasmValType::I32), Err(WasmRuntimeErrorKind::Unreachable));
    assert_eq!(eval(&[0x02, 0x40, 0x0B], &[], WasmValType::I32), Err(WasmRuntimeErrorKind::InternalInconsistency));
    assert_eq!(eval(&[0x41, 1, 0xFF, 0x0B], &[], WasmValType::I32), Err(WasmRuntimeErrorKind::NotSupported));
    assert_eq!(eval(&[0x41, 1], &[], WasmValType::I32), Err(WasmRuntimeErrorKind::InternalInconsistency));
    assert_eq!(eval(&[0x41, 0x80], &[], WasmValType::I32), Err(WasmRuntimeErrorKind::InternalInconsistency));
    assert_eq!(eval(&[0x41, 1, 0x0B], &[], WasmValType::F32), Err(WasmRuntimeErrorKind::InvalidParameter));
    assert_eq!(eval(&[0x42, 1, 0x0B], &[], WasmValType::F64), Err(WasmRuntimeErrorKind::InvalidParameter));
    assert_eq!(eval(&[0x41, 0, 0x28, 2, 0, 0x0B], &[], WasmValType::I32), Err(WasmRuntimeErrorKind::OutOfBounds));
    assert_eq!(eval(&[0x41, 1, 0x40, 0, 0x0B], &[], WasmValType::I32), Ok(Some(WasmValue::I32(-1))));
    assert_eq!(eval(&[0x3F, 0, 0x0B], &[], WasmValType::I32), Ok(Some(WasmValue::I32(0))));
    let mut block = WasmCodeBlock::from_slice(&[0x01, 0x0B]);
    assert_eq!(WasmRuntimeContext::try_run(&mut block, &[], &[]), Some(Ok(None)));
}

#[test]
fn stuck_runs_give_none() {
    let mut block = WasmCodeBlock::from_slice(&[0x6A, 0x0B]);
    assert_eq!(WasmRuntimeContext::try_run(&mut block, &[], &[WasmValType::I32]), None);
    let mut block = WasmCodeBlock::from_slice(&[0x20, 3, 0x0B]);
    assert_eq!(WasmRuntimeContext::try_run(&mut block, &[1.into()], &[WasmValType::I32]), None);
    let mut block = WasmCodeBlock::from_slice(&[0x0B]);
    assert_eq!(WasmRuntimeContext::try_run(&mut block, &[], &[WasmValType::I32]), None);
    let mut block = WasmCodeBlock::from_slice(&[0x23, 0, 0x0B]);
    assert_eq!(WasmRuntimeContext::try_run(&mut block, &[], &[WasmValType::I32]), None);
    let mut block = WasmCodeBlock::from_slice(&[0x10, 0, 0x0B]);
    assert_eq!(WasmRuntimeContext::try_run(&mut block, &[], &[]), None);
}

#[test]
fn locals_set_tee_drop_select() {
    let code = [0x41, 7, 0x22, 0, 0x21, 1, 0x20, 1, 0x20, 0, 0x6C, 0x41, 9, 0x1A, 0x0B];
    assert_eq!(eval_i32(&code, &[0.into(), 0.into()]), 49);
    let code = [0x42, 0x7F, 0x41, 1, 0x41, 0, 0x1B, 0x0B];
    assert_eq!(eval_i32(&code, &[]), 1);
    let code = [0x42, 0x7F, 0x41, 1, 0x41, 5, 0x1B, 0x0B];
    assert_eq!(eval_i64(&code, &[]), -1);
}

#[test]
fn blocks_and_branches() {
    // a branch out of the function returns what is on the stack
    assert_eq!(eval_i32(&[0x41, 1, 0x0C, 0, 0x0B], &[]), 1);
    // `return` ends the run at once
    assert_eq!(eval_i32(&[0x41, 3, 0x0F, 0x41, 4, 0x0B], &[]), 3);
    // a block that gives a value keeps it, and drops what lies below it
    assert_eq!(eval_i32(&[0x02, 0x7F, 0x41, 9, 0x41, 5, 0x0C, 0, 0x0B, 0x0B], &[]), 5);
    // an `if` without `else` skips its body on zero
    let code = [0x20, 0, 0x04, 0x40, 0x41, 8, 0x21, 0, 0x0B, 0x20, 0, 0x0B];
    assert_eq!(eval_i32(&code, &[1.into()]), 8);
    assert_eq!(eval_i32(&code, &[0.into()]), 0);
    // a loop that counts a local down to zero
    let code = [0x03, 0x40, 0x20, 0, 0x41, 1, 0x6B, 0x22, 0, 0x0D, 0, 0x0B, 0x20, 0, 0x0B];
    assert_eq!(eval_i32(&code, &[5.into()]), 0);
    // a block whose end cannot be found
    assert_eq!(eval(&[0x02, 0x40, 0xFF, 0x0B], &[], WasmValType::I32), Err(WasmRuntimeErrorKind::NotSupported));
}

#[test]
fn stuck_branches_give_none() {
    let mut block = WasmCodeBlock::from_slice(&[0x0C, 2, 0x0B]);
    assert_eq!(WasmRuntimeContext::try_run(&mut block, &[], &[WasmValType::I32]), None);
    let mut block = WasmCodeBlock::from_slice(&[0x02, 0x7F, 0x0B, 0x0B]);
    assert_eq!(WasmRuntimeContext::try_run(&mut block, &[], &[WasmValType::I32]), None);
}

#[test]
fn stack_values() {
    assert_eq!(WasmStackValue::i32(-1).get_u64(), u64::MAX);
    assert_eq!(WasmStackValue::u32(u32::MAX).get_u64(), 0xFFFF_FFFF);
    assert_eq!(WasmStackValue::bool(true).get_i64(), 1);
    assert_eq!(WasmStackValue::i64(-2).get_i32(), -2);
    assert_eq!(WasmStackValue::u64(0x1_0000_0002).get_u32(), 2);
    assert_eq!(WasmStackValue::from_value(WasmValue::I32(-3)).get_i64(), -3);
}
