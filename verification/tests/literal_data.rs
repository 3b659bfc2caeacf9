use skald_compiler::identity::{ArrayTypeId, LiteralDataId};
use skald_compiler::literal_data::LiteralPool;
use skald_compiler::mir::{MirLiteralData, MirProgram};

fn program(literal_data: Vec<MirLiteralData>) -> MirProgram {
    MirProgram {
        classes: vec![],
        array_types: vec![],
        optional_types: vec![],
        virtual_families: vec![],
        interfaces: vec![],
        literal_data,
        static_fields: vec![],
        defined_methods: vec![],
        methods: vec![],
        signatures: vec![],
        definitions: vec![],
        static_lifecycle: None,
        external_functions: vec![],
    }
}

#[test]
fn pools_equal_bytes_into_one_backing_in_first_occurrence_order() {
    let pool = LiteralPool::build(&program(vec![
        MirLiteralData { array: ArrayTypeId::new(2), bytes: b"hi".to_vec() },
        MirLiteralData { array: ArrayTypeId::new(3), bytes: b"yo".to_vec() },
        MirLiteralData { array: ArrayTypeId::new(4), bytes: b"hi".to_vec() },
    ]));

    assert_eq!(pool.symbol(LiteralDataId::new(0)), "ska_literal_0");
    assert_eq!(pool.symbol(LiteralDataId::new(1)), "ska_literal_1");
    assert_eq!(pool.symbol(LiteralDataId::new(2)), "ska_literal_0");
    let backings = pool.into_backings();
    assert_eq!(backings.len(), 2);
    assert_eq!(backings[0].symbol, "ska_literal_0");
    assert_eq!(backings[0].metadata_symbol, "ska_shared_array_metadata_2");
    assert_eq!(backings[0].bytes, b"hi".to_vec());
    assert_eq!(backings[1].symbol, "ska_literal_1");
    assert_eq!(backings[1].bytes, b"yo".to_vec());
}

#[test]
fn empty_program_has_no_backings() {
    let pool = LiteralPool::build(&program(vec![]));
    assert!(pool.into_backings().is_empty());
}
