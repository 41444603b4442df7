use wasm_runtime::functypes::FuncTypeBuilder;
use wasm_runtime::instance::{
    find_exported_func_idx, get_function_type_from_func_idx, get_function_type_from_name,
    is_entry_name, query_start_function, InstantiationError,
};
use wasm_runtime::module::{ExportDesc, Function, ModuleMetadata};
use wasm_runtime::types::ValType;

fn meta() -> ModuleMetadata {
    let mut m = ModuleMetadata::new();
    m.function_types.push(FuncTypeBuilder::new().finish());
    m.function_types.push(FuncTypeBuilder::new().add_param(ValType::i64()).finish());
    m.functions.push(Function::new(0));
    m.functions.push(Function::new(1));
    m.functions.push(Function::new(1));
    m.exports.add_function_export(ExportDesc { name: "run".to_string(), idx: 1 });
    m.exports.add_function_export(ExportDesc { name: "other".to_string(), idx: 2 });
    m
}

#[test]
fn entry_names_are_decimal() {
    assert!(is_entry_name("func_0", 0));
    assert!(is_entry_name("func_120", 120));
    assert!(!is_entry_name("func_012", 12));
    assert!(!is_entry_name("func_12", 120));
    assert!(!is_entry_name("fun_12", 12));
    assert!(is_entry_name("func_4294967295", u32::MAX));
}

#[test]
fn exported_functions_are_found_by_name() {
    let mut m = meta();
    assert_eq!(find_exported_func_idx(&m, "other").unwrap(), 2);
    assert!(matches!(
        find_exported_func_idx(&m, "func_0"),
        Err(InstantiationError::FunctionNotFound(n)) if n == "func_0"
    ));
    m.entry_point = Some(0);
    assert_eq!(find_exported_func_idx(&m, "func_0").unwrap(), 0);
}

#[test]
fn start_function_is_the_entry_then_start_then_run() {
    let mut m = meta();
    assert_eq!(query_start_function(&m).unwrap(), 1);
    m.exports.add_function_export(ExportDesc { name: "_start".to_string(), idx: 2 });
    assert_eq!(query_start_function(&m).unwrap(), 2);
    m.entry_point = Some(0);
    assert_eq!(query_start_function(&m).unwrap(), 0);
    let empty = ModuleMetadata::new();
    assert!(matches!(query_start_function(&empty), Err(InstantiationError::NoStartFunction)));
}

#[test]
fn function_types_are_looked_up() {
    let m = meta();
    assert_eq!(get_function_type_from_func_idx(&m, 2).params(), vec![ValType::i64()]);
    assert_eq!(get_function_type_from_name(&m, "run").unwrap().params(), vec![ValType::i64()]);
    assert!(get_function_type_from_name(&m, "nothing").is_none());
}
