use wasm_runtime::ir::Variable;
use wasm_runtime::stack::ParserStack;
use wasm_runtime::types::ValType;

fn var(id: usize, type_: ValType) -> Variable {
    Variable { id, type_ }
}

#[test]
fn pop_gives_back_what_push_put() {
    let mut s = ParserStack::new();
    s.push_var(var(1, ValType::i32()));
    s.push_var(var(2, ValType::i64()));
    assert_eq!(s.pop_var().unwrap(), var(2, ValType::i64()));
    assert_eq!(s.len(), 1);
    assert_eq!(s.pop_var_with_type(&ValType::i32()).unwrap(), var(1, ValType::i32()));
    assert!(s.pop_var().is_err());
}

#[test]
fn pop_with_wrong_type_is_refused() {
    let mut s = ParserStack::new();
    s.push_var(var(1, ValType::i32()));
    assert!(s.pop_var_with_type(&ValType::float64()).is_err());
}

#[test]
fn unstash_restores_the_stack_of_the_block() {
    let mut s = ParserStack::new();
    s.push_var(var(1, ValType::i32()));
    s.stash();
    assert!(s.pop_var().is_err());
    s.push_var(var(2, ValType::i32()));
    s.push_var(var(3, ValType::i32()));
    s.unstash();
    assert_eq!(s.len(), 1);
    assert_eq!(s.pop_var().unwrap(), var(1, ValType::i32()));
}
