use wasm_runtime::functypes::FuncTypeBuilder;
use wasm_runtime::module::{
    ConstantValue, ElemMode, Element, ElementInit, Function, Number, Reference, Table, Value,
};
use wasm_runtime::tables::{
    create_tables, elem_drop, init_tables, table_copy, CallTarget, TableError, TableInstance,
    TableItem,
};
use wasm_runtime::types::{Limits, RefType, TableType, ValType};

fn functions() -> Vec<Function> {
    vec![Function::new(0), Function::new(1), Function::new(0)]
}

fn func_table(min: u32, max: Option<u32>) -> TableInstance {
    TableInstance::new(TableType { ref_type: RefType::FunctionReference, lim: Limits { min, max } })
}

fn extern_table(min: u32) -> TableInstance {
    TableInstance::new(TableType { ref_type: RefType::ExternReference, lim: Limits { min, max: None } })
}

#[test]
fn new_table_is_null_filled() {
    let t = func_table(3, None);
    assert_eq!(t.size(), 3);
    for k in 0..3 {
        assert_eq!(t.get(k).unwrap(), Reference::Null);
    }
    assert!(matches!(t.get(3), Err(TableError::TableIndexOutOfBounds)));
}

#[test]
fn get_after_set_gives_the_stored_reference() {
    let fs = functions();
    let mut t = func_table(2, None);
    t.set(&fs, Reference::Function(1), 1).unwrap();
    assert_eq!(t.get(1).unwrap(), Reference::Function(1));
    assert_eq!(t.get(0).unwrap(), Reference::Null);
    assert_eq!(
        t.values[1],
        TableItem::FunctionReference { func_idx: 1, func_type: 1, func_ptr: None }
    );
    t.set(&fs, Reference::Null, 1).unwrap();
    assert_eq!(t.get(1).unwrap(), Reference::Null);

    let mut e = extern_table(1);
    e.set(&fs, Reference::Extern(0xBEEF), 0).unwrap();
    assert_eq!(e.get(0).unwrap(), Reference::Extern(0xBEEF));
    e.set(&fs, Reference::Extern(0), 0).unwrap();
    assert_eq!(e.values[0], TableItem::ExternReference { func_ptr: None });
    assert_eq!(e.get(0).unwrap(), Reference::Extern(0));
}

#[test]
fn set_out_of_range_or_of_wrong_type_fails() {
    let fs = functions();
    let mut t = func_table(2, None);
    assert!(matches!(t.set(&fs, Reference::Function(0), 2), Err(TableError::TableIndexOutOfBounds)));
    assert!(matches!(
        t.set(&fs, Reference::Extern(5), 0),
        Err(TableError::TableElementTypeMismatch {
            expected: RefType::FunctionReference,
            actual: RefType::ExternReference
        })
    ));
    assert_eq!(t.get(0).unwrap(), Reference::Null);
}

#[test]
fn grow_appends_or_reports_minus_one() {
    let fs = functions();
    let mut t = func_table(1, Some(4));
    assert_eq!(t.grow(&fs, 0, Reference::Null).unwrap(), 1);
    assert_eq!(t.grow(&fs, 2, Reference::Function(2)).unwrap(), 1);
    assert_eq!(t.size(), 3);
    assert_eq!(t.get(0).unwrap(), Reference::Null);
    assert_eq!(t.get(1).unwrap(), Reference::Function(2));
    assert_eq!(t.get(2).unwrap(), Reference::Function(2));
    assert_eq!(t.grow(&fs, 2, Reference::Null).unwrap(), u32::MAX);
    assert_eq!(t.size(), 3);
    assert_eq!(t.grow(&fs, 1, Reference::Null).unwrap(), 3);
    assert_eq!(t.size(), 4);
}

#[test]
fn fill_sets_a_range() {
    let fs = functions();
    let mut t = func_table(5, None);
    t.fill(&fs, 1, 3, Reference::Function(0)).unwrap();
    let got: Vec<Reference> = (0..5).map(|k| t.get(k).unwrap()).collect();
    assert_eq!(
        got,
        vec![
            Reference::Null,
            Reference::Function(0),
            Reference::Function(0),
            Reference::Function(0),
            Reference::Null
        ]
    );
    assert!(matches!(t.fill(&fs, 4, 2, Reference::Null), Err(TableError::TableAccessOutOfBounds)));
    assert!(t.fill(&fs, 5, 0, Reference::Null).is_ok());
}

#[test]
fn copy_moves_entries_even_when_overlapping() {
    let fs = functions();
    let mut t = func_table(5, None);
    t.set(&fs, Reference::Function(0), 0).unwrap();
    t.set(&fs, Reference::Function(1), 1).unwrap();
    t.set(&fs, Reference::Function(2), 2).unwrap();
    let mut tables = vec![t, func_table(2, None)];
    table_copy(&mut tables, 0, 0, 0, 1, 3).unwrap();
    let got: Vec<Reference> = (0..5).map(|k| tables[0].get(k).unwrap()).collect();
    assert_eq!(
        got,
        vec![
            Reference::Function(0),
            Reference::Function(0),
            Reference::Function(1),
            Reference::Function(2),
            Reference::Null
        ]
    );
    table_copy(&mut tables, 0, 1, 2, 0, 2).unwrap();
    assert_eq!(tables[1].get(0).unwrap(), Reference::Function(1));
    assert_eq!(tables[1].get(1).unwrap(), Reference::Function(2));
    assert!(matches!(
        table_copy(&mut tables, 0, 1, 0, 1, 2),
        Err(TableError::TableAccessOutOfBounds)
    ));
}

#[test]
fn init_writes_a_segment() {
    let fs = functions();
    let globals = vec![Value::Reference(Reference::Function(1))];
    let elem = Element {
        type_: RefType::FunctionReference,
        init: ElementInit::Final(vec![
            ConstantValue::FuncPtr(2),
            ConstantValue::Global(0),
            ConstantValue::V(Value::Reference(Reference::Null)),
        ]),
        mode: ElemMode::Passive,
    };
    let mut t = func_table(4, None);
    t.init(&fs, &globals, &elem, 0, 1, 3).unwrap();
    assert_eq!(t.get(0).unwrap(), Reference::Null);
    assert_eq!(t.get(1).unwrap(), Reference::Function(2));
    assert_eq!(t.get(2).unwrap(), Reference::Function(1));
    assert_eq!(t.get(3).unwrap(), Reference::Null);
    assert!(matches!(
        t.init(&fs, &globals, &elem, 2, 0, 2),
        Err(TableError::ElemAccessOutOfBounds)
    ));
    assert!(matches!(
        t.init(&fs, &globals, &elem, 0, 2, 3),
        Err(TableError::TableAccessOutOfBounds)
    ));
    let unknown = Element {
        type_: RefType::FunctionReference,
        init: ElementInit::Unresolved(vec![0, 9]),
        mode: ElemMode::Passive,
    };
    assert!(matches!(
        t.init(&fs, &globals, &unknown, 0, 0, 2),
        Err(TableError::InvalidElementValue)
    ));
    assert_eq!(t.get(0).unwrap(), Reference::Null);
}

#[test]
fn indirect_calls_check_the_entry() {
    let fs = functions();
    let ty0 = FuncTypeBuilder::new().finish();
    let ty1 = FuncTypeBuilder::new().add_param(ValType::i32()).finish();
    let types = vec![ty0, ty1];
    let mut t = func_table(3, None);
    t.set(&fs, Reference::Function(1), 0).unwrap();
    t.set(&fs, Reference::Function(0), 1).unwrap();
    assert_eq!(t.indirect_call_target(&types, 1, 0).unwrap(), CallTarget::Unresolved(1));
    assert!(matches!(
        t.indirect_call_target(&types, 1, 1),
        Err(TableError::TableFunctionTypeMismatch { .. })
    ));
    assert!(matches!(t.indirect_call_target(&types, 0, 2), Err(TableError::NullDeref)));
    assert!(matches!(
        t.indirect_call_target(&types, 0, 3),
        Err(TableError::TableAccessOutOfBounds)
    ));
    t.record_function_ptr(0, 0x1000);
    assert_eq!(t.indirect_call_target(&types, 1, 0).unwrap(), CallTarget::Address(0x1000));
    assert_eq!(t.get(0).unwrap(), Reference::Function(1));
}

#[test]
fn dropping_a_segment_checks_its_index() {
    assert!(elem_drop(2, 1).is_ok());
    assert!(matches!(elem_drop(2, 2), Err(TableError::ElemAccessOutOfBounds)));
}

#[test]
fn tables_are_created_and_initialized() {
    let fs = functions();
    let ty = TableType { ref_type: RefType::FunctionReference, lim: Limits { min: 2, max: None } };
    let meta = vec![Table { ty, import: true }, Table { ty, import: false }];
    let mut imported = func_table(1, None);
    imported.set(&fs, Reference::Function(0), 0).unwrap();
    assert!(matches!(create_tables(&meta, vec![]), Err(TableError::TableIndexOutOfBounds)));
    let elems = vec![Element {
        type_: RefType::FunctionReference,
        init: ElementInit::Unresolved(vec![2]),
        mode: ElemMode::Active {
            table: 1,
            offset: ConstantValue::V(Value::Number(Number::I32(1))),
        },
    }];
    let tables = init_tables(&meta, &elems, &fs, vec![imported], &[]).unwrap();
    assert_eq!(tables.len(), 2);
    assert_eq!(tables[0].size(), 1);
    assert_eq!(tables[0].get(0).unwrap(), Reference::Function(0));
    assert_eq!(tables[1].size(), 2);
    assert_eq!(tables[1].get(0).unwrap(), Reference::Null);
    assert_eq!(tables[1].get(1).unwrap(), Reference::Function(2));

    let bad_offset = vec![Element {
        type_: RefType::FunctionReference,
        init: ElementInit::Unresolved(vec![2]),
        mode: ElemMode::Active {
            table: 1,
            offset: ConstantValue::V(Value::Number(Number::I64(1))),
        },
    }];
    assert!(matches!(
        init_tables(&meta, &bad_offset, &fs, vec![func_table(1, None)], &[]),
        Err(TableError::InvalidOffsetType(_))
    ));
    let bad_table = vec![Element {
        type_: RefType::FunctionReference,
        init: ElementInit::Unresolved(vec![]),
        mode: ElemMode::Active { table: 5, offset: ConstantValue::V(Value::Number(Number::I32(0))) },
    }];
    assert!(matches!(
        init_tables(&meta, &bad_table, &fs, vec![func_table(1, None)], &[]),
        Err(TableError::TableIndexOutOfBounds)
    ));
}
