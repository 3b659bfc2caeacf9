use skald_compiler::body::{MirBlock, MirTerminator};
use skald_compiler::identity::{CallableId, ClassId, FieldId, FunctionId, StaticFieldId};
use skald_compiler::input_check::verify_input;
use skald_compiler::legality::check;
use skald_compiler::mir::{
    MirCallableSignature, MirClass, MirCopyCapability, MirDefinition, MirField, MirProgram,
    MirStaticField, MirType,
};

fn empty() -> MirProgram {
    MirProgram {
        classes: vec![],
        array_types: vec![],
        optional_types: vec![],
        virtual_families: vec![],
        interfaces: vec![],
        literal_data: vec![],
        static_fields: vec![],
        defined_methods: vec![],
        methods: vec![],
        signatures: vec![],
        definitions: vec![],
        static_lifecycle: None,
        external_functions: vec![],
    }
}

fn class_with_field(ty: MirType) -> MirClass {
    let id = ClassId::new(0);
    MirClass {
        id,
        direct_base: None,
        fields: vec![MirField { id: FieldId::new(id, 0), ty }],
        destruction: vec![],
        conformances: vec![],
        copy_constructor: MirCopyCapability::Unavailable,
    }
}

fn function(terminated: bool) -> MirDefinition {
    MirDefinition {
        callable: CallableId::Function(FunctionId::new(0)),
        has_receiver: false,
        storage: vec![],
        values: vec![],
        blocks: vec![MirBlock {
            instructions: vec![],
            terminator: if terminated { Some(MirTerminator::Return { value: None }) } else { None },
        }],
    }
}

fn signature() -> MirCallableSignature {
    MirCallableSignature {
        callable: CallableId::Function(FunctionId::new(0)),
        parameters: vec![],
        return_type: MirType::Unit,
    }
}

fn rejected(program: &MirProgram) {
    let error = verify_input(program).unwrap_err();
    assert_eq!(error.message(), "input MIR failed verification");
    assert!(error.callable().is_none());
    match check(program) {
        Ok(_) => panic!("malformed input passed the target checks"),
        Err(error) => assert_eq!(error.message(), "input MIR failed verification"),
    }
}

#[test]
fn well_formed_input_passes_to_the_target_checks() {
    let mut program = empty();
    program.classes.push(class_with_field(MirType::I64));
    program.signatures.push(signature());
    program.definitions.push(function(true));
    assert!(verify_input(&program).is_ok());
    let (layout, _) = check(&program).unwrap();
    assert_eq!(layout.classes[0].ty.size, 8);
}

#[test]
fn duplicate_static_fields_are_malformed() {
    let mut program = empty();
    let field = MirStaticField { id: StaticFieldId::new(ClassId::new(0), 0), ty: MirType::I64 };
    program.static_fields.push(field.clone());
    program.static_fields.push(field);
    rejected(&program);
}

#[test]
fn fields_without_storage_are_malformed() {
    let mut program = empty();
    program.classes.push(class_with_field(MirType::Obj));
    rejected(&program);
}

#[test]
fn misnumbered_classes_are_malformed() {
    let mut program = empty();
    let mut class = class_with_field(MirType::I64);
    class.id = ClassId::new(3);
    program.classes.push(class);
    rejected(&program);
}

#[test]
fn definitions_need_signatures_and_terminators() {
    let mut program = empty();
    program.definitions.push(function(true));
    rejected(&program);
    program.signatures.push(signature());
    program.definitions[0] = function(false);
    rejected(&program);
}
