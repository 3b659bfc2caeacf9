use skald_compiler::body::{BlockId, MirTerminationReason, MirTerminator};
use skald_compiler::frame::{FrameLayout, ObjectOriginHomes};
use skald_compiler::identity::{CallableId, ClassId, FunctionId, MethodId, StorageId, ValueId};
use skald_compiler::machine::{
    ByteRegister, FloatOperand, Instruction, Label, Operand, Register, XmmRegister,
};
use skald_compiler::marshal::spill_parameters;
use skald_compiler::mir::{
    MirCallableSignature, MirDefinition, MirParameter, MirParameterMode, MirStorage,
    MirStorageKind, MirType,
};
use skald_compiler::terminator::{select, select_termination};

fn home(displacement: i32) -> Operand {
    Operand::Memory { base: Register::Rbp, displacement }
}

fn reg(register: Register) -> Operand {
    Operand::Register(register)
}

fn storage(index: usize, kind: MirStorageKind, ty: MirType) -> MirStorage {
    MirStorage { id: StorageId::new(index), kind, ty }
}

fn definition(callable: CallableId, storage: Vec<MirStorage>) -> MirDefinition {
    MirDefinition { callable, has_receiver: false, storage, values: vec![], blocks: vec![] }
}

fn frame(homes: usize, origins: Vec<Option<ObjectOriginHomes>>) -> FrameLayout {
    FrameLayout {
        size: 128,
        storage_offsets: (0..homes).map(|index| -8 * (index as i32 + 1)).collect(),
        object_origins: origins,
        value_offsets: vec![-96, -104],
    }
}

#[test]
fn register_and_stack_parameters_reach_their_homes() {
    let callable = CallableId::Function(FunctionId::new(0));
    let mut parameters = vec![MirParameter::value(MirType::I64); 7];
    parameters.push(MirParameter::value(MirType::F64));
    let signature = MirCallableSignature { callable, parameters, return_type: MirType::Unit };
    let entries = (0..8)
        .map(|index| {
            let ty = if index == 7 { MirType::F64 } else { MirType::I64 };
            storage(index, MirStorageKind::Parameter, ty)
        })
        .collect();
    let function = definition(callable, entries);
    let frame = frame(8, vec![None; 8]);
    let mut output = vec![];
    spill_parameters(&signature, &function, &frame, &mut output).unwrap();
    let registers =
        [Register::Rdi, Register::Rsi, Register::Rdx, Register::Rcx, Register::R8, Register::R9];
    let mut expected: Vec<Instruction> = registers
        .iter()
        .enumerate()
        .map(|(index, register)| Instruction::Move {
            source: reg(*register),
            destination: home(-8 * (index as i32 + 1)),
        })
        .collect();
    expected.push(Instruction::Move { source: home(16), destination: reg(Register::Rax) });
    expected.push(Instruction::Move { source: reg(Register::Rax), destination: home(-56) });
    expected.push(Instruction::MoveFloat64 {
        source: FloatOperand::Register(XmmRegister::Xmm0),
        destination: FloatOperand::Memory { base: Register::Rbp, displacement: -64 },
    });
    assert_eq!(output, expected);
}

#[test]
fn byte_parameters_are_canonicalized() {
    let callable = CallableId::Function(FunctionId::new(0));
    let signature = MirCallableSignature {
        callable,
        parameters: vec![MirParameter::value(MirType::U8)],
        return_type: MirType::Unit,
    };
    let function =
        definition(callable, vec![storage(0, MirStorageKind::Parameter, MirType::U8)]);
    let mut output = vec![];
    spill_parameters(&signature, &function, &frame(1, vec![None]), &mut output).unwrap();
    assert_eq!(
        output,
        vec![
            Instruction::Move { source: reg(Register::Rdi), destination: reg(Register::Rax) },
            Instruction::ZeroExtendByte { source: ByteRegister::Al, destination: Register::Rax },
            Instruction::Move { source: reg(Register::Rax), destination: home(-8) },
        ]
    );
}

#[test]
fn receivers_and_return_destinations_come_first() {
    let class = ClassId::new(0);
    let callable = CallableId::Method(MethodId::new(class, 0));
    let signature = MirCallableSignature {
        callable,
        parameters: vec![MirParameter::value(MirType::I64)],
        return_type: MirType::Class(class),
    };
    let function = definition(
        callable,
        vec![
            storage(0, MirStorageKind::Return, MirType::Class(class)),
            storage(1, MirStorageKind::Receiver, MirType::Class(class)),
            storage(2, MirStorageKind::Parameter, MirType::I64),
        ],
    );
    let origins = vec![None, Some(ObjectOriginHomes { complete: -40, metadata: -48 }), None];
    let mut output = vec![];
    spill_parameters(&signature, &function, &frame(3, origins), &mut output).unwrap();
    assert_eq!(
        output,
        vec![
            Instruction::Move { source: reg(Register::Rdi), destination: home(-8) },
            Instruction::Move { source: reg(Register::Rsi), destination: home(-16) },
            Instruction::Move { source: reg(Register::Rdx), destination: home(-40) },
            Instruction::Move { source: reg(Register::Rcx), destination: home(-48) },
            Instruction::Move { source: reg(Register::R8), destination: home(-24) },
        ]
    );
}

#[test]
fn object_aliases_spill_their_origin_words() {
    let class = ClassId::new(0);
    let callable = CallableId::Function(FunctionId::new(0));
    let signature = MirCallableSignature {
        callable,
        parameters: vec![MirParameter {
            mode: MirParameterMode::ReadOnlyAlias,
            ty: MirType::Class(class),
        }],
        return_type: MirType::Unit,
    };
    let function = definition(
        callable,
        vec![storage(0, MirStorageKind::AliasParameter(0), MirType::Class(class))],
    );
    let origins = vec![Some(ObjectOriginHomes { complete: -16, metadata: -24 })];
    let mut output = vec![];
    spill_parameters(&signature, &function, &frame(1, origins), &mut output).unwrap();
    assert_eq!(
        output,
        vec![
            Instruction::Move { source: reg(Register::Rdi), destination: home(-8) },
            Instruction::Move { source: reg(Register::Rsi), destination: home(-16) },
            Instruction::Move { source: reg(Register::Rdx), destination: home(-24) },
        ]
    );
}

#[test]
fn payload_free_parameters_are_rejected() {
    let callable = CallableId::Function(FunctionId::new(3));
    let signature = MirCallableSignature {
        callable,
        parameters: vec![MirParameter::value(MirType::Unit)],
        return_type: MirType::Unit,
    };
    let function =
        definition(callable, vec![storage(0, MirStorageKind::Parameter, MirType::Unit)]);
    let mut output = vec![];
    let error = spill_parameters(&signature, &function, &frame(1, vec![None]), &mut output)
        .unwrap_err();
    assert_eq!(error.callable(), Some(callable));
    assert_eq!(error.message(), "incoming argument area exceeds the x86-64 ABI encoding limits");
}

#[test]
fn ordinary_terminators_return_jump_and_branch() {
    let callable = CallableId::Function(FunctionId::new(2));
    let frame = frame(1, vec![None]);
    let epilogue = Label::new(".Lska.ska_function_2.epilogue".into());

    let mut output = vec![];
    select(
        &MirTerminator::Return { value: Some(ValueId::new(0)) },
        &frame,
        MirType::F64,
        &epilogue,
        &mut output,
    );
    assert_eq!(
        output,
        vec![
            Instruction::MoveFloat64 {
                source: FloatOperand::Memory { base: Register::Rbp, displacement: -96 },
                destination: FloatOperand::Register(XmmRegister::Xmm0),
            },
            Instruction::Jump(epilogue.clone()),
        ]
    );

    let mut output = vec![];
    select(
        &MirTerminator::Branch {
            condition: ValueId::new(1),
            true_target: BlockId { callable, idx: 1 },
            false_target: BlockId { callable, idx: 2 },
        },
        &frame,
        MirType::Unit,
        &epilogue,
        &mut output,
    );
    assert_eq!(
        output,
        vec![
            Instruction::Move { source: home(-104), destination: reg(Register::Rax) },
            Instruction::Test(Register::Rax),
            Instruction::JumpIfNotZero(Label::new(".Lska.ska_function_2.block_1".into())),
            Instruction::Jump(Label::new(".Lska.ska_function_2.block_2".into())),
        ]
    );

    let mut output = vec![];
    select(&MirTerminator::ReturnShared { owner: StorageId::new(0) }, &frame, MirType::Unit, &epilogue, &mut output);
    assert_eq!(output[0], Instruction::Move { source: home(-8), destination: reg(Register::Rax) });
}

#[test]
fn terminations_report_fixed_messages_or_are_rejected() {
    let callable = CallableId::Function(FunctionId::new(0));
    let mut output = vec![];
    let selected = select_termination(
        callable,
        &MirTerminator::Terminate { reason: MirTerminationReason::ArrayIndexOutOfBounds },
        &mut output,
    );
    assert_eq!(selected, Ok(true));
    assert_eq!(output.len(), 3);

    let error = select_termination(
        callable,
        &MirTerminator::Terminate { reason: MirTerminationReason::IntegerDivisionByZero },
        &mut output,
    )
    .unwrap_err();
    assert_eq!(
        error.message(),
        "termination reason `integer_division_by_zero` is not executable yet"
    );

    let mut untouched = vec![];
    let goto = MirTerminator::Goto { target: BlockId { callable, idx: 0 } };
    assert_eq!(select_termination(callable, &goto, &mut untouched), Ok(false));
    assert!(untouched.is_empty());
}

use skald_compiler::abi::ArgumentLocation;
use skald_compiler::marshal::{
    marshal_shared_owner, marshal_value_argument, select_shared_payload_address,
    store_call_result,
};

#[test]
fn outgoing_arguments_and_results_move_through_their_locations() {
    let frame = frame(2, vec![None, None]);
    let mut output = vec![];
    marshal_value_argument(&frame, ValueId::new(0), MirType::F64, ArgumentLocation::Stack(8), &mut output);
    assert_eq!(
        output,
        vec![
            Instruction::MoveFloat64 {
                source: FloatOperand::Memory { base: Register::Rbp, displacement: -96 },
                destination: FloatOperand::Register(XmmRegister::Xmm14),
            },
            Instruction::MoveFloat64 {
                source: FloatOperand::Register(XmmRegister::Xmm14),
                destination: FloatOperand::Memory { base: Register::Rsp, displacement: 8 },
            },
        ]
    );

    let mut output = vec![];
    marshal_shared_owner(&frame, StorageId::new(1), ArgumentLocation::IntegerRegister(Register::Rsi), &mut output);
    assert_eq!(output, vec![Instruction::Move { source: home(-16), destination: reg(Register::Rsi) }]);

    let mut output = vec![];
    store_call_result(&frame, MirType::U8, ValueId::new(1), &mut output);
    assert_eq!(
        output,
        vec![
            Instruction::ZeroExtendByte { source: ByteRegister::Al, destination: Register::Rax },
            Instruction::Move { source: reg(Register::Rax), destination: home(-104) },
        ]
    );

    let mut output = vec![];
    select_shared_payload_address(home(-8), ArgumentLocation::Stack(0), &mut output);
    assert_eq!(
        output,
        vec![
            Instruction::Move { source: home(-8), destination: reg(Register::Rax) },
            Instruction::LoadEffectiveAddress {
                source: Operand::Memory { base: Register::Rax, displacement: 16 },
                destination: Register::Rax,
            },
            Instruction::Move {
                source: reg(Register::Rax),
                destination: Operand::Memory { base: Register::Rsp, displacement: 0 },
            },
        ]
    );
}

use skald_compiler::abi::CallLayout;
use skald_compiler::marshal::{finish_call, normalize_external_bool_result};
use skald_compiler::mir::MirProgram;

fn program_with_externals(external_functions: Vec<FunctionId>) -> MirProgram {
    MirProgram {
        classes: vec![],
        array_types: vec![],
        optional_types: vec![],
        virtual_families: vec![],
        interfaces: vec![],
        literal_data: vec![],
        static_fields: vec![],
        defined_methods: vec![],
        methods: vec![],
        signatures: vec![],
        definitions: vec![],
        static_lifecycle: None,
        external_functions,
    }
}

#[test]
fn finished_calls_release_the_area_widen_external_bools_and_store_results() {
    let program = program_with_externals(vec![FunctionId::new(7)]);
    let frame = frame(3, vec![None, None, None]);
    let layout = CallLayout { return_destination: None, receiver: None, locations: vec![], stack_size: 16 };
    let external = Some(CallableId::Function(FunctionId::new(7)));
    let mut output = vec![];
    finish_call(&program, &frame, &layout, external, MirType::Bool, Some(ValueId::new(1)), None, &mut output);
    assert_eq!(
        output,
        vec![
            Instruction::ReleaseStack(16),
            Instruction::ZeroExtendByte { source: ByteRegister::Al, destination: Register::Rax },
            Instruction::Move { source: reg(Register::Rax), destination: home(-104) },
        ]
    );

    let quiet = CallLayout { return_destination: None, receiver: None, locations: vec![], stack_size: 0 };
    let internal = Some(CallableId::Function(FunctionId::new(2)));
    let mut output = vec![];
    finish_call(&program, &frame, &quiet, internal, MirType::Bool, None, Some(StorageId::new(2)), &mut output);
    assert_eq!(output, vec![Instruction::Move { source: reg(Register::Rax), destination: home(-24) }]);

    let mut output = vec![];
    normalize_external_bool_result(&program, external, MirType::I64, &mut output);
    normalize_external_bool_result(&program, None, MirType::Bool, &mut output);
    assert!(output.is_empty());
}
