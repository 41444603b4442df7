use wasm_runtime::error::ParserError;
use wasm_runtime::module::{ConstantValue, ElemMode, ElementInit, ModuleMetadata, Number, Value};
use wasm_runtime::module_decode::{
    read_constant_expression, read_element, read_expr_vec, read_funcidx_vec, read_global,
};
use wasm_runtime::reader::WasmBinaryReader;
use wasm_runtime::types::{GlobalType, RefType, ValType};

#[test]
fn constant_i32_is_sign_extended() {
    let bytes = [0x41u8, 0x7f, 0x0b];
    let module = ModuleMetadata::new();
    let mut r = WasmBinaryReader::new(&bytes);
    let v = read_constant_expression(&mut r, &module).unwrap();
    assert_eq!(v, ConstantValue::V(Value::Number(Number::I32(0xffff_ffff))));
    assert_eq!(r.pos(), 3);
}

#[test]
fn constant_ref_func_and_f32() {
    let module = ModuleMetadata::new();
    let bytes = [0xD2u8, 0x05, 0x0b];
    let mut r = WasmBinaryReader::new(&bytes);
    assert_eq!(read_constant_expression(&mut r, &module).unwrap(), ConstantValue::FuncPtr(5));
    let bytes = [0x43u8, 0x00, 0x00, 0x80, 0x3f, 0x0b];
    let mut r = WasmBinaryReader::new(&bytes);
    assert_eq!(
        read_constant_expression(&mut r, &module).unwrap(),
        ConstantValue::V(Value::Number(Number::F32(0x3f80_0000)))
    );
}

#[test]
fn constant_expression_errors() {
    let module = ModuleMetadata::new();
    // global.get of a global the module does not have
    let bytes = [0x23u8, 0x00, 0x0b];
    let mut r = WasmBinaryReader::new(&bytes);
    assert!(matches!(
        read_constant_expression(&mut r, &module),
        Err(ParserError::ConstantExpressionError(_))
    ));
    // an opcode that is no constant
    let bytes = [0x6au8, 0x0b];
    let mut r = WasmBinaryReader::new(&bytes);
    assert!(matches!(
        read_constant_expression(&mut r, &module),
        Err(ParserError::ConstantExpressionError(_))
    ));
    // no end
    let bytes = [0x41u8, 0x01, 0x01];
    let mut r = WasmBinaryReader::new(&bytes);
    assert!(matches!(
        read_constant_expression(&mut r, &module),
        Err(ParserError::ConstantExpressionError(_))
    ));
    // truncated
    let bytes = [0x41u8];
    let mut r = WasmBinaryReader::new(&bytes);
    assert_eq!(read_constant_expression(&mut r, &module), Err(ParserError::UnexpectedEOF));
}

#[test]
fn global_with_initializer() {
    let module = ModuleMetadata::new();
    let bytes = [0x7fu8, 0x01, 0x41, 0x2a, 0x0b];
    let mut r = WasmBinaryReader::new(&bytes);
    let g = read_global(&mut r, &module).unwrap();
    assert_eq!(g.ty, GlobalType::Mut(ValType::i32()));
    assert!(!g.import);
    assert_eq!(g.init, ConstantValue::V(Value::Number(Number::I32(42))));
    assert_eq!(r.pos(), 5);
}

#[test]
fn vectors_of_indices_and_expressions() {
    let module = ModuleMetadata::new();
    let bytes = [0x03u8, 0x01, 0x80, 0x01, 0x02];
    let mut r = WasmBinaryReader::new(&bytes);
    assert_eq!(read_funcidx_vec(&mut r).unwrap(), vec![1, 128, 2]);
    let bytes = [0x02u8, 0x01];
    let mut r = WasmBinaryReader::new(&bytes);
    assert_eq!(read_funcidx_vec(&mut r), Err(ParserError::UnexpectedEOF));
    let bytes = [0x02u8, 0xD2, 0x00, 0x0b, 0xD2, 0x01, 0x0b];
    let mut r = WasmBinaryReader::new(&bytes);
    assert_eq!(
        read_expr_vec(&mut r, &module).unwrap(),
        vec![ConstantValue::FuncPtr(0), ConstantValue::FuncPtr(1)]
    );
}

#[test]
fn element_segments_by_flags() {
    let module = ModuleMetadata::new();
    // active, table 0, offset 1, two function indices
    let bytes = [0x00u8, 0x41, 0x01, 0x0b, 0x02, 0x07, 0x08];
    let mut r = WasmBinaryReader::new(&bytes);
    let e = read_element(&mut r, &module).unwrap();
    assert_eq!(e.type_, RefType::FunctionReference);
    assert_eq!(
        e.mode,
        ElemMode::Active { table: 0, offset: ConstantValue::V(Value::Number(Number::I32(1))) }
    );
    assert_eq!(e.init, ElementInit::Unresolved(vec![7, 8]));
    // passive, element kind, one index
    let bytes = [0x01u8, 0x00, 0x01, 0x03];
    let mut r = WasmBinaryReader::new(&bytes);
    let e = read_element(&mut r, &module).unwrap();
    assert_eq!(e.mode, ElemMode::Passive);
    assert_eq!(e.init, ElementInit::Unresolved(vec![3]));
    // active with table 2, expressions
    let bytes = [0x06u8, 0x02, 0x41, 0x00, 0x0b, 0x70, 0x01, 0xD2, 0x04, 0x0b];
    let mut r = WasmBinaryReader::new(&bytes);
    let e = read_element(&mut r, &module).unwrap();
    assert_eq!(
        e.mode,
        ElemMode::Active { table: 2, offset: ConstantValue::V(Value::Number(Number::I32(0))) }
    );
    assert_eq!(e.init, ElementInit::Final(vec![ConstantValue::FuncPtr(4)]));
    // declarative, bad element kind
    let bytes = [0x03u8, 0x01, 0x00];
    let mut r = WasmBinaryReader::new(&bytes);
    assert!(matches!(read_element(&mut r, &module), Err(ParserError::Msg(_))));
    // flags out of range
    let bytes = [0x08u8];
    let mut r = WasmBinaryReader::new(&bytes);
    assert!(matches!(read_element(&mut r, &module), Err(ParserError::Msg(_))));
}
