use wasm_runtime::config::ConfigBuilder;
use wasm_runtime::error::{FunctionError, ResourceBufferError};
use wasm_runtime::function_builder::SimpleHasher;
use wasm_runtime::globals::init_global_values;
use wasm_runtime::loader::SourceFormat;
use wasm_runtime::module::{ConstantValue, Global, Number, Reference, Value};
use wasm_runtime::types::{GlobalType, ValType};

#[test]
fn config_builder_sets_what_it_is_told() {
    let c = ConfigBuilder::new().finish();
    assert!(!c.wasi_enabled);
    assert!(c.wasi_dirs.is_empty());
    assert!(c.wasi_args.is_empty());
    assert_eq!(c.start_function, None);

    let mut b = ConfigBuilder::new();
    b.set_wasi_args(vec!["prog".to_string(), "-v".to_string()])
        .set_start_function("main".to_string());
    let c = b.finish();
    assert!(c.wasi_enabled);
    assert_eq!(c.wasi_args, vec!["prog".to_string(), "-v".to_string()]);
    assert_eq!(c.start_function, Some("main".to_string()));

    let mut b = ConfigBuilder::new();
    b.set_wasi_dirs(vec![("/tmp".to_string(), "tmp".to_string())]);
    let c = b.finish();
    assert!(c.wasi_enabled);
    assert_eq!(c.wasi_dirs.len(), 1);

    let mut b = ConfigBuilder::new();
    b.enable_wasi();
    assert!(b.finish().wasi_enabled);
}

#[test]
fn source_format_follows_the_extension() {
    assert_eq!(SourceFormat::from_extension(Some("wasm".to_string())).unwrap(), SourceFormat::Wasm);
    assert_eq!(SourceFormat::from_extension(Some("cwasm".to_string())).unwrap(), SourceFormat::Cwasm);
    assert_eq!(
        SourceFormat::from_extension(Some("wat".to_string())),
        Err(ResourceBufferError::InvalidFileEnding("wat".to_string()))
    );
    assert_eq!(
        SourceFormat::from_extension(None),
        Err(ResourceBufferError::InvalidFileEnding("no extension found".to_string()))
    );
}

#[test]
fn simple_hasher_hashes_a_key_to_itself() {
    let mut h = SimpleHasher::default();
    assert_eq!(h.finish(), 0);
    h.write(&7u32.to_le_bytes());
    assert_eq!(h.finish(), 7);
    h.write(&0xDEAD_BEEFu32.to_le_bytes());
    assert_eq!(h.finish(), 0xDEAD_BEEF);
}

#[test]
fn function_error_message() {
    assert_eq!(
        FunctionError::MissingRustCallConvPtr.message(),
        "function not callable from rust code"
    );
}

fn global(import: bool, init: ConstantValue) -> Global {
    Global { ty: GlobalType::Const(ValType::i32()), import, init }
}

#[test]
fn globals_take_imports_then_initializers_in_order() {
    let meta = vec![
        global(true, ConstantValue::V(Value::Number(Number::I32(0)))),
        global(false, ConstantValue::V(Value::Number(Number::I32(5)))),
        global(false, ConstantValue::Global(0)),
        global(false, ConstantValue::FuncPtr(3)),
        global(false, ConstantValue::Global(1)),
    ];
    let imports = vec![
        (0u32, Value::Number(Number::I32(40))),
        (0u32, Value::Number(Number::I32(41))),
    ];
    let values = init_global_values(&meta, &imports);
    assert_eq!(
        values,
        vec![
            Some(Value::Number(Number::I32(40))),
            Some(Value::Number(Number::I32(5))),
            Some(Value::Number(Number::I32(40))),
            Some(Value::Reference(Reference::Function(3))),
            Some(Value::Number(Number::I32(5))),
        ]
    );
    let unset = init_global_values(&[global(true, ConstantValue::FuncPtr(0))], &[]);
    assert_eq!(unset, vec![None]);
}
