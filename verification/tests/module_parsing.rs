use wasm_runtime::decode::read_name;
use wasm_runtime::error::{ParserError, ValidationError};
use wasm_runtime::ir::BasicBlockGlue;
use wasm_runtime::loader::{FunctionLoader, Parser, ResourceBuffer, SourceFormat};
use wasm_runtime::module::{
    ConstantValue, DataMode, ElemMode, ElementInit, FunctionSource, Number, Value,
};
use wasm_runtime::reader::WasmBinaryReader;
use wasm_runtime::types::{GlobalType, ImportDesc, RefType, ValType};

const HEADER: [u8; 8] = [0x00, 0x61, 0x73, 0x6D, 0x01, 0x00, 0x00, 0x00];

fn module(sections: &[(u8, Vec<u8>)]) -> Vec<u8> {
    let mut out = HEADER.to_vec();
    for (id, content) in sections {
        out.push(*id);
        assert!(content.len() < 128);
        out.push(content.len() as u8);
        out.extend_from_slice(content);
    }
    out
}

fn code_section(bodies: &[Vec<u8>]) -> Vec<u8> {
    let mut out = vec![bodies.len() as u8];
    for body in bodies {
        out.push(body.len() as u8);
        out.extend_from_slice(body);
    }
    out
}

/// (func (result i32) i32.const 42)
fn const_module() -> Vec<u8> {
    module(&[
        (1, vec![0x01, 0x60, 0x00, 0x01, 0x7F]),
        (3, vec![0x01, 0x00]),
        (7, vec![0x01, 0x03, b'r', b'u', b'n', 0x00, 0x00]),
        (10, code_section(&[vec![0x00, 0x41, 0x2A, 0x0B]])),
    ])
}

fn inner_error(r: Result<wasm_runtime::loader::Module, ParserError>) -> ParserError {
    match r {
        Err(ParserError::PositionalError(inner, _)) => *inner,
        Err(e) => panic!("error without position: {:?}", e),
        Ok(_) => panic!("module accepted"),
    }
}

#[test]
fn empty_module_parses() {
    let m = Parser::parse_from_buf(HEADER.to_vec()).unwrap();
    assert_eq!(m.meta.functions.len(), 0);
    assert_eq!(m.meta.function_types.len(), 0);
    assert_eq!(m.source.get(), &HEADER[..]);
    assert_eq!(m.source.kind(), SourceFormat::Wasm);
}

#[test]
fn bad_preamble_is_refused() {
    let mut bytes = HEADER.to_vec();
    bytes[1] = 0x62;
    assert!(matches!(inner_error(Parser::parse_from_buf(bytes)), ParserError::Msg(_)));
}

#[test]
fn short_input_is_refused() {
    assert!(Parser::parse_from_buf(vec![0x00, 0x61]).is_err());
    assert_eq!(
        inner_error(Parser::parse_from_buf(vec![0x00, 0x61, 0x73, 0x6D, 0x01])),
        ParserError::UnexpectedEOF
    );
}

#[test]
fn bad_version_is_refused() {
    let mut bytes = HEADER.to_vec();
    bytes[4] = 2;
    assert!(matches!(inner_error(Parser::parse_from_buf(bytes)), ParserError::Msg(_)));
}

#[test]
fn sections_out_of_order_are_refused() {
    let bytes = module(&[(3, vec![0x00]), (1, vec![0x00])]);
    assert!(matches!(inner_error(Parser::parse_from_buf(bytes)), ParserError::Msg(_)));
}

#[test]
fn custom_sections_may_stand_anywhere() {
    let bytes = module(&[
        (0, vec![0x02, b'h', b'i', 0xAA]),
        (1, vec![0x00]),
        (0, vec![0x01, b'x']),
        (3, vec![0x00]),
    ]);
    let m = Parser::parse_from_buf(bytes).unwrap();
    assert_eq!(m.meta.functions.len(), 0);
}

#[test]
fn function_without_code_is_refused() {
    let bytes = module(&[(1, vec![0x01, 0x60, 0x00, 0x00]), (3, vec![0x01, 0x00])]);
    assert!(matches!(inner_error(Parser::parse_from_buf(bytes)), ParserError::Msg(_)));
}

#[test]
fn function_and_export_are_read() {
    let m = Parser::parse_from_buf(const_module()).unwrap();
    assert_eq!(m.meta.function_types.len(), 1);
    assert_eq!(m.meta.functions.len(), 1);
    assert_eq!(m.meta.functions[0].type_idx, 0);
    assert!(matches!(m.meta.functions[0].source, FunctionSource::Wasm(_)));
    assert_eq!(m.meta.exports.find_function_idx("run"), Some(0));
    assert_eq!(m.meta.exports.find_function_idx("walk"), None);
    assert_eq!(m.meta.function_types[0].results(), vec![ValType::i32()]);
}

#[test]
fn functions_are_parsed_to_ir() {
    let m = Parser::parse_from_buf(const_module()).unwrap();
    let ir = FunctionLoader::new().parse_all_functions(&m).unwrap();
    assert_eq!(ir.len(), 1);
    assert!(ir[0].locals.is_empty());
    assert!(!ir[0].bbs.is_empty());
    assert!(ir[0]
        .bbs
        .iter()
        .any(|bb| matches!(bb.terminator, BasicBlockGlue::Return { .. })));
}

#[test]
fn locals_are_parameters_then_declared_locals() {
    // (func (param i32) (local i64 i64) (local f32))
    let bytes = module(&[
        (1, vec![0x01, 0x60, 0x01, 0x7F, 0x00]),
        (3, vec![0x01, 0x00]),
        (10, code_section(&[vec![0x02, 0x02, 0x7E, 0x01, 0x7D, 0x0B]])),
    ]);
    let m = Parser::parse_from_buf(bytes).unwrap();
    let ir = FunctionLoader::new().parse_all_functions(&m).unwrap();
    assert_eq!(
        ir[0].locals,
        vec![ValType::i32(), ValType::i64(), ValType::i64(), ValType::float32()]
    );
}

#[test]
fn imported_function_gets_empty_ir() {
    let bytes = module(&[
        (1, vec![0x01, 0x60, 0x00, 0x00]),
        (2, vec![0x01, 0x03, b'e', b'n', b'v', 0x01, b'f', 0x00, 0x00]),
        (3, vec![0x01, 0x00]),
        (10, code_section(&[vec![0x00, 0x0B]])),
    ]);
    let m = Parser::parse_from_buf(bytes).unwrap();
    assert_eq!(m.meta.functions.len(), 2);
    assert!(matches!(m.meta.functions[0].source, FunctionSource::Import(_)));
    let ir = FunctionLoader::new().parse_all_functions(&m).unwrap();
    assert_eq!(ir.len(), 2);
    assert!(ir[0].bbs.is_empty());
    assert_eq!(ir[0].num_vars, 0);
    assert!(!ir[1].bbs.is_empty());
}

#[test]
fn precompiled_modules_are_not_parsed_here() {
    let m = Parser::parse(ResourceBuffer::from_bytes(HEADER.to_vec(), SourceFormat::Cwasm)).unwrap();
    assert!(matches!(
        FunctionLoader::new().parse_all_functions(&m),
        Err(ParserError::Msg(_))
    ));
}

#[test]
fn invalid_body_is_refused() {
    // the body holds an opcode that does not exist
    let bytes = module(&[
        (1, vec![0x01, 0x60, 0x00, 0x00]),
        (3, vec![0x01, 0x00]),
        (10, code_section(&[vec![0x00, 0xFF, 0x0B]])),
    ]);
    let m = Parser::parse_from_buf(bytes).unwrap();
    assert!(FunctionLoader::new().parse_all_functions(&m).is_err());
}

#[test]
fn jump_table_feeds_each_target_once() {
    // (func (param i32) (result i32)
    //   (block (result i32) (i32.const 7) (local.get 0) (br_table 0 0 0)))
    let body = vec![
        0x00, 0x02, 0x7F, 0x41, 0x07, 0x20, 0x00, 0x0E, 0x02, 0x00, 0x00, 0x00, 0x0B, 0x0B,
    ];
    let bytes = module(&[
        (1, vec![0x01, 0x60, 0x01, 0x7F, 0x01, 0x7F]),
        (3, vec![0x01, 0x00]),
        (10, code_section(&[body])),
    ]);
    let m = Parser::parse_from_buf(bytes).unwrap();
    let ir = FunctionLoader::new().parse_all_functions(&m).unwrap();
    let mut fed = 0;
    for bb in ir[0].bbs.iter() {
        for phi in bb.inputs.iter() {
            for (k, input) in phi.inputs.iter().enumerate() {
                fed += 1;
                assert!(!phi.inputs[..k].contains(input), "phi input fed twice");
            }
        }
    }
    assert!(fed > 0);
}

#[test]
fn names_are_utf8() {
    let bytes = [0x03, 0xC3, 0xA4, b'x'];
    let mut reader = WasmBinaryReader::new(&bytes);
    assert_eq!(read_name(&mut reader).unwrap(), "äx");
    let bad = [0x02, 0xC3, 0x28];
    let mut reader = WasmBinaryReader::new(&bad);
    assert!(read_name(&mut reader).is_err());
}

#[test]
fn every_kind_of_section_fills_the_metadata() {
    let bytes = module(&[
        // one type: () -> ()
        (1, vec![0x01, 0x60, 0x00, 0x00]),
        // imports: function "env"."f" of type 0, global "env"."g" const i32
        (
            2,
            vec![
                0x02, 0x03, b'e', b'n', b'v', 0x01, b'f', 0x00, 0x00, 0x03, b'e', b'n', b'v', 0x01, b'g',
                0x03, 0x7F, 0x00,
            ],
        ),
        // one function of type 0
        (3, vec![0x01, 0x00]),
        // one table of funcref, at least 2 entries
        (4, vec![0x01, 0x70, 0x00, 0x02]),
        // one memory of at least 1 page, at most 2
        (5, vec![0x01, 0x01, 0x01, 0x02]),
        // one mutable i64 global, 7
        (6, vec![0x01, 0x7E, 0x01, 0x42, 0x07, 0x0B]),
        // start function 1
        (8, vec![0x01]),
        // one active element segment at offset 0 with function 1
        (9, vec![0x01, 0x00, 0x41, 0x00, 0x0B, 0x01, 0x01]),
        // data count 1
        (12, vec![0x01]),
        // body of function 1
        (10, code_section(&[vec![0x00, 0x0B]])),
        // one passive data segment "hi"
        (11, vec![0x01, 0x01, 0x02, b'h', b'i']),
    ]);
    let m = Parser::parse_from_buf(bytes).unwrap();
    let meta = &m.meta;
    assert_eq!(meta.function_types.len(), 1);
    assert_eq!(meta.functions.len(), 2);
    assert!(matches!(meta.functions[0].source, FunctionSource::Import(_)));
    assert!(matches!(meta.functions[1].source, FunctionSource::Wasm(_)));
    assert_eq!(meta.imports.len(), 2);
    assert_eq!(meta.imports[0].module, "env");
    assert_eq!(meta.imports[1].name, "g");
    assert!(matches!(meta.imports[1].desc, ImportDesc::Global((GlobalType::Const(_), 0))));
    assert_eq!(meta.tables.len(), 1);
    assert_eq!(meta.tables[0].ty.ref_type, RefType::FunctionReference);
    assert_eq!(meta.tables[0].ty.lim.min, 2);
    assert!(!meta.tables[0].import);
    assert_eq!(meta.memories.len(), 1);
    assert_eq!(meta.memories[0].limits.min, 1);
    assert_eq!(meta.memories[0].limits.max, Some(2));
    assert_eq!(meta.globals.len(), 2);
    assert!(meta.globals[0].import);
    assert_eq!(meta.globals[0].init, ConstantValue::FuncPtr(1));
    assert_eq!(meta.globals[1].init, ConstantValue::V(Value::Number(Number::I64(7))));
    assert_eq!(meta.entry_point, Some(1));
    assert_eq!(meta.elements.len(), 1);
    assert_eq!(
        meta.elements[0].mode,
        ElemMode::Active { table: 0, offset: ConstantValue::V(Value::Number(Number::I32(0))) }
    );
    assert_eq!(meta.elements[0].init, ElementInit::Unresolved(vec![1]));
    assert_eq!(meta.datacount, Some(1));
    assert_eq!(meta.datas.len(), 1);
    assert_eq!(meta.datas[0].mode, DataMode::Passive);
    assert_eq!(meta.datas[0].init, b"hi".to_vec());
}

#[test]
fn second_memory_and_mismatched_data_count_are_refused() {
    let bytes = module(&[(5, vec![0x02, 0x00, 0x01, 0x00, 0x01])]);
    assert!(matches!(inner_error(Parser::parse_from_buf(bytes)), ParserError::Msg(_)));
    let bytes = module(&[(12, vec![0x02]), (11, vec![0x01, 0x01, 0x00])]);
    assert!(matches!(inner_error(Parser::parse_from_buf(bytes)), ParserError::Msg(_)));
}

fn positional(r: Result<wasm_runtime::loader::Module, ParserError>) -> (ParserError, usize) {
    match r {
        Err(ParserError::PositionalError(inner, pos)) => (*inner, pos),
        Err(e) => panic!("error without position: {:?}", e),
        Ok(_) => panic!("module accepted"),
    }
}

#[test]
fn bad_preamble_names_the_byte_after_the_mismatch() {
    let (e, pos) = positional(Parser::parse_from_buf(vec![0x00, 0x61, 0x73, 0x00, 0x01, 0x00, 0x00, 0x00]));
    assert_eq!(e, ParserError::Msg("invalid WASM module preamble".to_string()));
    assert_eq!(pos, 4);
}

#[test]
fn wrong_version_is_printed_in_decimal() {
    let (e, pos) = positional(Parser::parse_from_buf(vec![0x00, 0x61, 0x73, 0x6D, 0x00, 0x00, 0x00, 0x01]));
    assert_eq!(e, ParserError::Msg("invalid WASM module version \"16777216\"".to_string()));
    assert_eq!(pos, 8);
}

#[test]
fn section_order_errors_are_named() {
    let bytes = module(&[(3, vec![0x00]), (1, vec![0x00])]);
    assert_eq!(
        inner_error(Parser::parse_from_buf(bytes)),
        ParserError::Msg("invalid module section order".to_string())
    );
    let bytes = module(&[(11, vec![0x00]), (1, vec![0x00])]);
    assert_eq!(
        inner_error(Parser::parse_from_buf(bytes)),
        ParserError::Msg("invalid additional module section".to_string())
    );
}

#[test]
fn code_and_data_section_errors_are_named() {
    let bytes = module(&[(10, code_section(&[vec![0x00, 0x0B]]))]);
    assert_eq!(
        inner_error(Parser::parse_from_buf(bytes)),
        ParserError::Msg("code section size 1 larger than function count 0".to_string())
    );
    let bytes = module(&[(12, vec![0x02]), (11, vec![0x01])]);
    assert_eq!(
        inner_error(Parser::parse_from_buf(bytes)),
        ParserError::Msg("data section size does not match datacount section value".to_string())
    );
    let bytes = module(&[(11, vec![0x00, 0x00])]);
    assert_eq!(
        inner_error(Parser::parse_from_buf(bytes)),
        ParserError::Msg("declared data section size does not match actual section size".to_string())
    );
}

#[test]
fn body_without_its_results_fails_validation() {
    let bytes = module(&[
        (1, vec![0x01, 0x60, 0x00, 0x01, 0x7F]),
        (3, vec![0x01, 0x00]),
        (10, code_section(&[vec![0x00, 0x0B]])),
    ]);
    let m = Parser::parse_from_buf(bytes).unwrap();
    let r = FunctionLoader::new().parse_all_functions(&m);
    assert!(matches!(r, Err(ParserError::ValidationError(_))));
}

#[test]
fn extra_value_at_function_end_names_the_stack() {

    let bytes = module(&[
        (1, vec![0x01, 0x60, 0x00, 0x00]),
        (3, vec![0x01, 0x00]),
        (10, code_section(&[vec![0x00, 0x41, 0x01, 0x0B]])),
    ]);
    let m = Parser::parse_from_buf(bytes).unwrap();
    let r = FunctionLoader::new().parse_all_functions(&m);
    assert_eq!(
        r.err(),
        Some(ParserError::ValidationError(ValidationError::Msg(
            "unexpected stack state at end of function: [Number(I32)], expected []".to_string()
        )))
    );
}

#[test]
fn straight_body_counts_its_variables() {
    // (func (result i32) (i32.add (i32.const 1) (i32.const 2)))
    let bytes = module(&[
        (1, vec![0x01, 0x60, 0x00, 0x01, 0x7F]),
        (3, vec![0x01, 0x00]),
        (10, code_section(&[vec![0x00, 0x41, 0x01, 0x41, 0x02, 0x6A, 0x0B]])),
    ]);
    let m = Parser::parse_from_buf(bytes).unwrap();
    let ir = FunctionLoader::new().parse_all_functions(&m).unwrap();
    // one variable for the result, one per constant, one for the sum
    assert_eq!(ir[0].num_vars, 4);
    let entry = ir[0].bbs.iter().find(|bb| bb.id == 0).unwrap();
    assert_eq!(entry.instructions.len(), 3);
}

#[test]
fn operand_underflow_fails_validation_without_results() {
    // (func i32.add) with nothing on the stack
    let bytes = module(&[
        (1, vec![0x01, 0x60, 0x00, 0x00]),
        (3, vec![0x01, 0x00]),
        (10, code_section(&[vec![0x00, 0x6A, 0x0B]])),
    ]);
    let m = Parser::parse_from_buf(bytes).unwrap();
    let r = FunctionLoader::new().parse_all_functions(&m);
    assert!(matches!(r, Err(ParserError::ValidationError(_))));
}

fn first_validation_message(body: Vec<u8>) -> String {
    let bytes = module(&[
        (1, vec![0x01, 0x60, 0x00, 0x00]),
        (3, vec![0x01, 0x00]),
        (10, code_section(&[body])),
    ]);
    let m = Parser::parse_from_buf(bytes).unwrap();
    match FunctionLoader::new().parse_all_functions(&m) {
        Err(ParserError::ValidationError(ValidationError::Msg(text))) => text,
        other => panic!("no validation error: {:?}", other.err()),
    }
}

#[test]
fn unknown_local_is_named_by_index() {
    assert_eq!(
        first_validation_message(vec![0x00, 0x20, 0x03, 0x0B]),
        "local variable with index 3 not found"
    );
}

#[test]
fn unknown_global_is_named_by_index() {
    assert_eq!(
        first_validation_message(vec![0x00, 0x23, 0x05, 0x0B]),
        "global variable with index 5 not found"
    );
}

#[test]
fn unknown_table_is_named_by_index() {
    assert_eq!(
        first_validation_message(vec![0x00, 0x25, 0x00, 0x0B]),
        "table with id 0 not found"
    );
}
