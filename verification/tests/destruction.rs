use skald_compiler::destruction::requires_runtime_work;
use skald_compiler::identity::{ClassId, FieldId};
use skald_compiler::mir::{MirCopyCapability, MirClass, MirDestructionStep, MirField, MirProgram, MirType};

fn class(index: usize, fields: Vec<MirType>, destruction: Vec<MirDestructionStep>) -> MirClass {
    let id = ClassId::new(index);
    MirClass {
        id,
        direct_base: None,
        fields: fields
            .into_iter()
            .enumerate()
            .map(|(field, ty)| MirField { id: FieldId::new(id, field), ty })
            .collect(),
        destruction,
        conformances: vec![],
        copy_constructor: MirCopyCapability::Unavailable,
    }
}

fn program(classes: Vec<MirClass>) -> MirProgram {
    MirProgram {
        classes,
        array_types: vec![],
        optional_types: vec![],
        virtual_families: vec![],
        interfaces: vec![],
        literal_data: vec![],
        static_fields: vec![],
        defined_methods: vec![],
        methods: vec![],
        signatures: vec![],
        definitions: vec![],
        static_lifecycle: None,
        external_functions: vec![],
    }
}

#[test]
fn user_bodies_and_inline_fields_with_user_bodies_require_work() {
    let leaf = ClassId::new(0);
    let program = program(vec![
        class(0, vec![], vec![MirDestructionStep::UserBody(leaf)]),
        class(
            1,
            vec![MirType::I64, MirType::Class(leaf)],
            vec![MirDestructionStep::Field(FieldId::new(ClassId::new(1), 1))],
        ),
        class(
            2,
            vec![MirType::I64],
            vec![MirDestructionStep::Field(FieldId::new(ClassId::new(2), 0))],
        ),
    ]);

    assert!(requires_runtime_work(&program, ClassId::new(0)));
    assert!(requires_runtime_work(&program, ClassId::new(1)));
    assert!(!requires_runtime_work(&program, ClassId::new(2)));
}

#[test]
fn inline_cycles_contribute_no_work() {
    let program = program(vec![class(
        0,
        vec![MirType::Class(ClassId::new(0))],
        vec![MirDestructionStep::Field(FieldId::new(ClassId::new(0), 0))],
    )]);
    assert!(!requires_runtime_work(&program, ClassId::new(0)));
}
