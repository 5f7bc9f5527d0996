use wami::error::{CompileError, CompileErrorKind, CompileErrorSource, ExceptionPosition, WasmRuntimeErrorKind};
use wami::global::{WasmGlobal, WasmGlobalFixedValue, WasmGlobalMutableValue, WasmGlobalProp, WasmGlobalPropMut};
use wami::intcode::WasmIntMnemonic;
use wami::leb128::{Leb128Reader, ReadError};
use wami::memory::{read_u32_at, SharedDataStore, WasmMemory};
use wami::opcode::opcode_fd::WasmOpcodeFD;
use wami::opcode::{WasmMnemonic, WasmProposalType};
use wami::runtime::{ValueStack, WasmRuntimeError};
use wami::sync::{PoisonError, TryLockError};
use wami::value::WasmValue;
use wami::wasm::{WasmBlockType, WasmLimit, WasmSectionId, WasmValType, WebAssembly};

#[test]
fn leb128_unsigned_and_signed() {
    let mut r = Leb128Reader::from_slice(&[0xE5, 0x8E, 0x26, 0x7F, 0x80, 0x7F]);
    assert_eq!(r.read_unsigned(), Ok(624485));
    assert_eq!(r.position(), 3);
    assert_eq!(r.read_signed(), Ok(-1));
    assert_eq!(r.read_signed(), Ok(-128));
    assert!(r.is_eof());
    assert_eq!(r.read_byte(), Err(ReadError::UnexpectedEof));
    r.reset();
    assert_eq!(r.read_byte(), Ok(0xE5));
}

#[test]
fn leb128_limits() {
    let mut r = Leb128Reader::from_slice(&[0xFF, 0xFF, 0xFF, 0xFF, 0x0F]);
    assert_eq!(r.read_u32(), Ok(u32::MAX));
    let mut r = Leb128Reader::from_slice(&[0xFF, 0xFF, 0xFF, 0xFF, 0x1F]);
    assert_eq!(r.read_u32(), Err(ReadError::InvalidData));
    assert_eq!(r.position(), 0);
    let mut r = Leb128Reader::from_slice(&[0x80, 0x80]);
    assert_eq!(r.read_unsigned(), Err(ReadError::UnexpectedEof));
    let mut r = Leb128Reader::from_slice(&[0x80, 0x80, 0x80, 0x80, 0x78]);
    assert_eq!(r.read_i32(), Ok(i32::MIN));
}

#[test]
fn leb128_strings_and_blobs() {
    let mut r = Leb128Reader::from_slice(&[3, b'a', b'b', b'c', 2, 0xFF, 0xFE, 9]);
    assert_eq!(r.get_string().unwrap(), "abc");
    assert_eq!(r.get_string(), Err(ReadError::InvalidData));
    assert_eq!(r.position(), 4);
    assert_eq!(r.read_blob().unwrap(), vec![0xFF, 0xFE]);
    let mut sub = r.sub_slice(1).unwrap();
    assert_eq!(sub.read_byte(), Ok(9));
    assert!(r.sub_slice(1).is_none());
    let mut out = Vec::new();
    let mut r = Leb128Reader::from_slice(&[1, 2, 3]);
    r.read_byte().unwrap();
    assert_eq!(r.read_to_end(&mut out), Ok(2));
    assert_eq!(out, vec![2, 3]);
}

#[test]
fn identify_checks_magic_and_version() {
    assert!(WebAssembly::identify(&[0, 0x61, 0x73, 0x6d, 1, 0, 0, 0]));
    assert!(!WebAssembly::identify(&[0, 0x61, 0x73, 0x6d, 1, 0, 0]));
    assert!(!WebAssembly::identify(&[0, 0x61, 0x73, 0x6e, 1, 0, 0, 0]));
}

#[test]
fn section_ids_and_ranks() {
    assert_eq!(WasmSectionId::from_u8(0), Some(WasmSectionId::Custom));
    assert_eq!(WasmSectionId::from_u8(12), Some(WasmSectionId::DataCount));
    assert_eq!(WasmSectionId::from_u8(13), None);
    assert!(WasmSectionId::DataCount.rank() < WasmSectionId::Code.rank());
    assert!(!WasmSectionId::Custom.depends_on_order());
}

#[test]
fn value_types_and_block_types() {
    assert_eq!(WasmValType::from_u8(0x7F), Ok(WasmValType::I32));
    assert_eq!(WasmValType::from_u8(0x70), Err(CompileErrorKind::UnexpectedToken));
    assert_eq!(WasmValType::from_i64(-4), Ok(WasmValType::F64));
    assert_eq!(WasmValType::I64.mnemonic(), 'l');
    assert_eq!(WasmBlockType::from_i64(-64).unwrap().into_type(), None);
    assert_eq!(WasmBlockType::from_i64(-1).unwrap().into_type(), Some(WasmValType::I32));
}

#[test]
fn limits() {
    let mut r = Leb128Reader::from_slice(&[1, 2, 5]);
    let l = WasmLimit::from_reader(&mut r, true).unwrap();
    assert_eq!((l.min(), l.max()), (2, Some(5)));
    let mut r = Leb128Reader::from_slice(&[2, 0]);
    assert_eq!(WasmLimit::from_reader(&mut r, true), Err(CompileErrorKind::UnexpectedToken));
    assert!(WasmLimit::zero().is_zero());
}

#[test]
fn memory_grow_load_store() {
    let mut m = WasmMemory::new(WasmLimit { min: 1, max: Some(3), is_shared: false }).unwrap();
    assert_eq!(m.size(), 1);
    assert_eq!(m.len(), 65536);
    assert_eq!(m.grow(1), Ok(1));
    assert_eq!(m.size(), 2);
    assert_eq!(m.grow(2), Err(WasmRuntimeErrorKind::InvalidParameter));
    assert_eq!(m.grow(0), Ok(2));
    assert_eq!(m.store(0x10, 4, 4, 0x1122_3344_5566_7788), Ok(()));
    assert_eq!(m.load(0x10, 4, 4), Ok(0x5566_7788));
    assert_eq!(m.load(0x10, 4, 2), Ok(0x7788));
    assert_eq!(m.load(0x10, 5, 1), Ok(0x77));
    assert_eq!(m.load(0x1_FFFF, 0, 2), Err(WasmRuntimeErrorKind::OutOfBounds));
    assert_eq!(m.store(0x1_FFFE, 0, 2, 0xABCD), Ok(()));
    assert_eq!(m.load(0x1_FFFE, 0, 2), Ok(0xABCD));
    let data = m.try_borrow().unwrap();
    assert_eq!(data.read_u32(0x14), 0x5566_7788);
}

#[test]
fn memory_write_slice_and_bounds() {
    let mut m = WasmMemory::new(WasmLimit { min: 1, max: None, is_shared: false }).unwrap();
    assert_eq!(m.write_slice(10, &[1, 2, 3]), Ok(()));
    assert_eq!(m.try_borrow().unwrap().as_slice()[9..14], [0, 1, 2, 3, 0]);
    assert_eq!(m.write_slice(65535, &[1, 2]), Err(WasmRuntimeErrorKind::OutOfBounds));
    assert_eq!(m.write_slice(65536, &[]), Err(WasmRuntimeErrorKind::OutOfBounds));
    assert_eq!(WasmMemory::check_bound(u64::MAX, 8, usize::MAX), Ok(()));
    assert_eq!(WasmMemory::check_bound(10, 8, 17), Err(WasmRuntimeErrorKind::OutOfBounds));
    assert_eq!(WasmMemory::effective_address::<u32>(4, 8, 16), Ok(12));
    assert_eq!(WasmMemory::effective_address::<u64>(4, 8, 16), Err(WasmRuntimeErrorKind::OutOfBounds));
    assert_eq!(WasmMemory::zero().size(), 0);
    let mut big = WasmMemory::new(WasmLimit { min: 2, max: Some(1), is_shared: false });
    assert!(big.is_err());
    big = WasmMemory::new(WasmLimit { min: 0, max: None, is_shared: false });
    assert_eq!(big.unwrap().size(), 0);
}

#[test]
fn shared_data_store() {
    let mut s = SharedDataStore::new();
    assert_eq!(s.try_grow(16), Ok(()));
    s.fill(0xCC);
    assert_eq!(s.read_u64(8), 0xCCCC_CCCC_CCCC_CCCC);
    s.write_le(0, 4, 0xFFFF_FFFE);
    assert_eq!(s.read_i32(0), -2);
    assert_eq!(s.read_i64(8), 0xCCCC_CCCC_CCCC_CCCCu64 as i64);
}

#[test]
fn values() {
    assert_eq!(WasmValue::from(5i32).get_i32(), Ok(5));
    assert_eq!(WasmValue::from(u32::MAX).get_i32(), Ok(-1));
    assert_eq!(WasmValue::from(u32::MAX).get_u32(), Ok(u32::MAX));
    assert_eq!(WasmValue::from(-1i64).get_u64(), Ok(u64::MAX));
    assert_eq!(WasmValue::from(true), WasmValue::I32(1));
    assert_eq!(WasmValue::I64(1).get_i32(), Err(WasmRuntimeErrorKind::TypeMismatch));
    assert_eq!(WasmValue::default_for(WasmValType::F64), WasmValue::F64(0));
    assert!(WasmValue::F32(0x4049_0fdb).is_valid_type(WasmValType::F32));
    assert_eq!(WasmValue::I32(3).map_i32(|v| v * 2), Ok(WasmValue::I32(6)));
    assert_eq!(WasmValue::I32(3).map_i64(|v| v * 2), Err(WasmRuntimeErrorKind::TypeMismatch));
}

#[test]
fn globals() {
    let mut g = WasmGlobal::new(WasmValue::I32(-7), true).unwrap();
    assert_eq!(g.value(), WasmValue::I32(-7));
    assert_eq!(g.get_i32(), Ok(-7));
    assert_eq!(g.get_i64(), Err(WasmRuntimeErrorKind::TypeMismatch));
    g.set_raw_value(0xFFFF_FFFF_0000_0005);
    assert_eq!(g.value(), WasmValue::I32(5));
    assert_eq!(g.raw_value(), 0xFFFF_FFFF_0000_0005);
    let f = WasmGlobal::new(WasmValue::F64(0x4009_21FB_5444_2D18), false).unwrap();
    assert_eq!(f.value(), WasmValue::F64(0x4009_21FB_5444_2D18));
    assert!(!f.is_mutable());

    let fixed = WasmGlobalFixedValue::new(10u8);
    assert_eq!(fixed.get(), Ok(10));
    let mut var = WasmGlobalMutableValue::new(1u64);
    assert_eq!(var.set(2), Ok(()));
    assert_eq!(var.get(), Ok(2));
}

#[test]
fn opcodes() {
    assert_eq!(WasmMnemonic::from_u8(0x6A), Some(WasmMnemonic::I32Add));
    assert_eq!(WasmMnemonic::I32Add.to_str(), "i32.add");
    assert_eq!(WasmMnemonic::from_u8(0xC0).unwrap().proposal_type(), WasmProposalType::SignExtend);
    assert_eq!(WasmMnemonic::from_u8(0x06), None);
    assert!(WasmIntMnemonic::BrIf.is_branch());
    assert!(!WasmIntMnemonic::Call.is_branch());
}

#[test]
fn runtime_errors_and_value_stack() {
    let e = WasmRuntimeError::from(WasmRuntimeErrorKind::OutOfBounds);
    assert_eq!(e.kind(), WasmRuntimeErrorKind::OutOfBounds);
    assert_eq!(e.function_name(), None);
    assert_eq!(e.mnemonic(), WasmMnemonic::Unreachable);
    let mut s = ValueStack::new(vec![1, 2, 3]);
    assert_eq!(s.len(), 3);
    s.clear();
    assert_eq!(s.iter(), &[0, 0, 0]);
    assert_eq!(ExceptionPosition::new(12).position(), 12);
}

#[test]
fn lock_errors() {
    let e: TryLockError<u8> = PoisonError::new(3).into();
    assert!(matches!(e, TryLockError::Poisoned(_)));
    assert_eq!(PoisonError::new(4).into_inner(), 4);
}

#[test]
fn vector_opcodes_decode_v128_load_only() {
    assert_eq!(WasmOpcodeFD::new(0), Some(WasmOpcodeFD::V128Load));
    assert_eq!(WasmOpcodeFD::new(1), None);
    assert_eq!(WasmOpcodeFD::new(0x100), None);
    assert_eq!(WasmOpcodeFD::V128Load.to_str(), "(simd)");
}

#[test]
fn error_messages() {
    assert_eq!(CompileErrorKind::InvalidSectionOrder(WasmSectionId::Function).text(), "InvalidSectionOrder(Function)");
    assert_eq!(CompileErrorKind::InvalidBytecode2(0xFC, 17).text(), "InvalidBytecode2(252, 17)");
    assert_eq!(CompileErrorKind::UnsupportedBytecode(WasmMnemonic::I32DivS).text(), "UnsupportedBytecode(i32.div_s)");
    assert_eq!(WasmRuntimeErrorKind::DivideByZero.text(), "DivideByZero");
    assert_eq!(CompileError::from_kind(CompileErrorKind::BadExecutable).text(), "CompileError: BadExecutable");
    let e = CompileError::new(CompileErrorKind::UnexpectedEof, ExceptionPosition::new(0x1a), CompileErrorSource::Unknown);
    assert_eq!(e.text(), "CompileError: UnexpectedEof at 1a");
    let e = CompileError::new(
        CompileErrorKind::InvalidBytecode(0xFF),
        ExceptionPosition::new(0x1a),
        CompileErrorSource::ConstantExpression(ExceptionPosition::new(3)),
    );
    assert_eq!(e.text(), "CompileError: InvalidBytecode(255) at expression 0x1a(0x3)");
    let e = CompileError::new(
        CompileErrorKind::TypeMismatch,
        ExceptionPosition::new(0x40),
        CompileErrorSource::Function(2, Some("main".to_string()), ExceptionPosition::new(0x10), Some(WasmMnemonic::I32Add)),
    );
    assert_eq!(e.text(), "CompileError: TypeMismatch at function[2] <main> 0x40(0x10) i32.add");
    let e = CompileError::new(
        CompileErrorKind::TypeMismatch,
        ExceptionPosition::new(0x40),
        CompileErrorSource::Function(12, None, ExceptionPosition::new(0), None),
    );
    assert_eq!(e.text(), "CompileError: TypeMismatch at function[12] 0x40(0x0) ???");
}

#[test]
fn words_read_from_bytes() {
    assert_eq!(read_u32_at(&[1, 2, 3, 4, 5], 1), Some(0x05040302));
    assert_eq!(read_u32_at(&[1, 2, 3, 4, 5], 2), None);
    assert_eq!(read_u32_at(&[1, 2, 3], usize::MAX), None);
}

#[test]
fn memory_bytes_lent_to_a_kernel() {
    let mut m = WasmMemory::new(WasmLimit { min: 1, max: Some(2), is_shared: false }).unwrap();
    let seen = m.borrowing(|bytes: &mut [u8]| {
        bytes[3] = 9;
        bytes.len()
    });
    assert_eq!(seen, Ok(65536));
    assert_eq!(m.size(), 1);
    assert_eq!(m.try_borrow().unwrap().as_slice()[3], 9);
}
