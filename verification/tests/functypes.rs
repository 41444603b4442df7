use rand::{rngs, Rng, SeedableRng};
use wasm_runtime::functypes::{FuncTypeBuilder, MAX_NUM_PARAMS, MAX_NUM_RESULTS};
use wasm_runtime::types::ValType;

fn valtype_of_idx(idx: u64) -> ValType {
    match idx {
        0 => ValType::i32(),
        1 => ValType::i64(),
        2 => ValType::float32(),
        3 => ValType::float64(),
        4 => ValType::funcref(),
        5 => ValType::externref(),
        6 => ValType::vec(),
        _ => panic!("invalid idx"),
    }
}

fn generate_functype(rng: &mut rngs::StdRng) -> (Vec<ValType>, Vec<ValType>) {
    let mut param_types = Vec::new();
    let mut result_types = Vec::new();
    for _ in 0..rng.gen_range(0..=MAX_NUM_PARAMS + 5) {
        param_types.push(valtype_of_idx(rng.gen_range(0..7)));
    }
    for _ in 0..rng.gen_range(0..=MAX_NUM_RESULTS + 2) {
        result_types.push(valtype_of_idx(rng.gen_range(0..7)));
    }
    (param_types, result_types)
}

#[test]
fn test_func_type_builder() {
    // default test
    assert_eq!(
        FuncTypeBuilder::new()
            .add_param(ValType::i32())
            .add_param(ValType::i64())
            .add_result(ValType::float32())
            .add_result(ValType::float64())
            .finish()
            .types(),
        (
            vec![ValType::i32(), ValType::i64()],
            vec![ValType::float32(), ValType::float64()]
        )
    );
    assert_eq!(FuncTypeBuilder::new().finish().params(), vec![]);

    // full functype test
    let mut builder = FuncTypeBuilder::new();
    for _ in 0..MAX_NUM_PARAMS {
        builder = builder.add_param(ValType::i32());
    }
    let t = builder.finish();
    assert_eq!(t.num_params(), MAX_NUM_PARAMS);
    assert_eq!(t.num_results(), 0);
    assert_eq!(t.types(), (vec![ValType::i32(); MAX_NUM_PARAMS], vec![]));

    // overflow test
    let mut builder = FuncTypeBuilder::new();
    for _ in 0..MAX_NUM_PARAMS + 5 {
        builder = builder.add_param(ValType::vec());
        builder = builder.add_result(ValType::vec());
    }
    let t = builder.finish();
    assert_eq!(t.num_params(), MAX_NUM_PARAMS + 5);
    assert_eq!(t.num_results(), MAX_NUM_PARAMS + 5);
    assert_eq!(
        t.types(),
        (
            vec![ValType::vec(); MAX_NUM_PARAMS + 5],
            vec![ValType::vec(); MAX_NUM_PARAMS + 5]
        )
    );

    // test mixed overflow
    let mut builder = FuncTypeBuilder::new();
    let params = [
        ValType::funcref(),
        ValType::funcref(),
        ValType::i64(),
        ValType::vec(),
        ValType::float64(),
        ValType::i32(),
        ValType::i32(),
        ValType::float64(),
        ValType::i32(),
        ValType::externref(),
        ValType::i64(),
    ];
    for param in params.iter() {
        builder = builder.add_param(*param);
    }
    let t = builder.finish();
    assert_eq!(t.num_params(), 11);
    assert_eq!(t.num_results(), 0);
    assert_eq!(t.params(), params);
    assert_eq!(t.params_iter().collect_vec(), params);
}

#[test]
fn test_func_type_random() {
    let mut rng = rngs::StdRng::from_seed([0; 32]);
    for _ in 0..10000 {
        let (param_types, result_types) = generate_functype(&mut rng);
        let mut builder = FuncTypeBuilder::new();
        let mut builder2 = FuncTypeBuilder::new();
        for param_type in param_types.iter() {
            builder = builder.add_param(*param_type);
            builder2 = builder2.add_param(*param_type);
        }
        for result_type in result_types.iter() {
            builder = builder.add_result(*result_type);
            builder2 = builder2.add_result(*result_type);
        }
        let func_type = builder.finish();
        let func_type2 = builder2.finish();

        assert_eq!(func_type.params(), param_types);
        assert_eq!(func_type.params_iter().collect_vec(), param_types);
        assert_eq!(func_type.results(), result_types);
        assert_eq!(func_type.results_iter().collect_vec(), result_types);
        assert_eq!(func_type, func_type2);
    }
}

#[test]
fn func_type_text_lists_params_and_results() {
    let t = FuncTypeBuilder::new()
        .add_param(ValType::i32())
        .add_param(ValType::externref())
        .add_result(ValType::float64())
        .finish();
    assert_eq!(t.to_text(), "[i32, externref] -> [f64]");
    assert_eq!(FuncTypeBuilder::new().finish().to_text(), "[] -> []");
    assert_eq!(ValType::vec().name(), "vec");
}
