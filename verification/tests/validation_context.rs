use wasm_runtime::context::Context;
use wasm_runtime::module::ModuleMetadata;
use wasm_runtime::types::ValType;

#[test]
fn created_value_comes_back_from_the_stack() {
    let meta = ModuleMetadata::new();
    let mut ctxt = Context::new(&meta, vec![ValType::i32()]);
    let v = ctxt.create_var(ValType::i64());
    ctxt.push_var(v);
    let w = ctxt.pop_var_with_type(ValType::i64());
    assert_eq!(w, v);
    assert!(ctxt.poison.is_none());
    assert_eq!(ctxt.stack.len(), 0);
}

#[test]
fn popping_an_empty_stack_poisons_the_context() {
    let meta = ModuleMetadata::new();
    let mut ctxt = Context::new(&meta, vec![]);
    let _ = ctxt.pop_var_with_type(ValType::i32());
    assert!(ctxt.poison.is_some());
}

#[test]
fn fresh_variables_are_distinct() {
    let meta = ModuleMetadata::new();
    let mut ctxt = Context::new(&meta, vec![]);
    let a = ctxt.create_var(ValType::i32());
    let b = ctxt.create_var(ValType::i32());
    assert_ne!(a.id, b.id);
}
