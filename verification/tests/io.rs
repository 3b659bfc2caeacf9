use skald_compiler::body::{BlockId, MirSharedStatic};
use skald_compiler::frame::FrameLayout;
use skald_compiler::identity::{
    ArrayTypeId, CallableId, ClassId, FieldId, FunctionId, LiteralDataId, StorageId, ValueId,
};
use skald_compiler::io::{call_io_runtime, load_io_argument, next_io_label, select_io_buffer_range};
use skald_compiler::layout::{ArrayLayout, ClassLayout, DataLayout, FieldLayout, TypeLayout};
use skald_compiler::literal_data::LiteralPool;
use skald_compiler::machine::{Instruction, Label, Operand, Register};
use skald_compiler::mir::{MirLiteralData, MirProgram};
use skald_compiler::strings::{select_shared_static, store_descriptor_word};

fn frame() -> FrameLayout {
    FrameLayout {
        size: 48,
        storage_offsets: vec![-8, -16],
        object_origins: vec![None, None],
        value_offsets: vec![-24, -32],
    }
}

fn home(displacement: i32) -> Operand {
    Operand::Memory { base: Register::Rbp, displacement }
}

fn block() -> BlockId {
    BlockId { callable: CallableId::Function(FunctionId::new(2)), idx: 5 }
}

fn bytes() -> ArrayLayout {
    ArrayLayout {
        element: TypeLayout { size: 1, alignment: 1 },
        element_offset: 16,
        shared_element_offset: 24,
        stride: 1,
        maximum_length: 1 << 40,
        shared_maximum_length: 1 << 40,
    }
}

#[test]
fn io_arguments_come_from_value_homes_and_results_return_there() {
    let mut output = vec![];
    load_io_argument(&frame(), ValueId::new(1), Register::Rdi, &mut output);
    call_io_runtime(&frame(), "ska_rt_io_close", ValueId::new(0), &mut output);
    assert_eq!(
        output,
        vec![
            Instruction::Move { source: home(-32), destination: Operand::Register(Register::Rdi) },
            Instruction::Call("ska_rt_io_close".into()),
            Instruction::Move { source: Operand::Register(Register::Rax), destination: home(-24) },
        ]
    );
}

#[test]
fn io_labels_count_per_block() {
    let mut sequence = 3;
    let label = next_io_label(block(), &mut sequence, "range_empty");
    assert_eq!(label.text, ".Lska.ska_function_2.io_5_3_range_empty");
    assert_eq!(sequence, 4);
}

#[test]
fn buffer_ranges_of_shared_owners_skip_the_shared_header() {
    let mut output = vec![];
    let mut sequence = 0;
    select_io_buffer_range(
        &frame(),
        bytes(),
        true,
        Some(StorageId::new(1)),
        Register::Rsi,
        Register::Rdx,
        block(),
        &mut sequence,
        &mut output,
    );
    assert_eq!(sequence, 2);
    let empty = Label::new(".Lska.ska_function_2.io_5_0_range_empty".into());
    let complete = Label::new(".Lska.ska_function_2.io_5_1_range_complete".into());
    assert_eq!(
        output,
        vec![
            Instruction::Test(Register::Rax),
            Instruction::JumpIfEqual(empty.clone()),
            Instruction::Move {
                source: Operand::Memory { base: Register::Rax, displacement: 16 },
                destination: Operand::Register(Register::Rdx),
            },
            Instruction::LoadEffectiveAddress {
                source: Operand::Memory { base: Register::Rax, displacement: 24 },
                destination: Register::Rsi,
            },
            Instruction::Move { source: home(-16), destination: Operand::Register(Register::R10) },
            Instruction::Add { source: Register::R10, destination: Register::Rsi },
            Instruction::Subtract { source: Register::R10, destination: Register::Rdx },
            Instruction::Jump(complete.clone()),
            Instruction::Label(empty),
            Instruction::MoveImmediate64 { bits: 0, destination: Register::Rsi },
            Instruction::MoveImmediate64 { bits: 0, destination: Register::Rdx },
            Instruction::Label(complete),
        ]
    );
}

#[test]
fn buffer_ranges_of_inline_owners_use_the_inline_header() {
    let mut output = vec![];
    let mut sequence = 7;
    select_io_buffer_range(
        &frame(),
        bytes(),
        false,
        None,
        Register::Rdi,
        Register::Rsi,
        block(),
        &mut sequence,
        &mut output,
    );
    assert_eq!(output.len(), 9);
    assert_eq!(
        output[2],
        Instruction::Move {
            source: Operand::Memory { base: Register::Rax, displacement: 8 },
            destination: Operand::Register(Register::Rsi),
        }
    );
    assert_eq!(
        output[3],
        Instruction::LoadEffectiveAddress {
            source: Operand::Memory { base: Register::Rax, displacement: 16 },
            destination: Register::Rdi,
        }
    );
    assert_eq!(
        output[4],
        Instruction::Jump(Label::new(".Lska.ska_function_2.io_5_8_range_complete".into()))
    );
}

#[test]
fn shared_statics_hold_the_pooled_backing_address() {
    let program = MirProgram {
        classes: vec![],
        array_types: vec![],
        optional_types: vec![],
        virtual_families: vec![],
        interfaces: vec![],
        literal_data: vec![
            MirLiteralData { array: ArrayTypeId::new(0), bytes: b"ok".to_vec() },
            MirLiteralData { array: ArrayTypeId::new(0), bytes: b"ok".to_vec() },
        ],
        static_fields: vec![],
        defined_methods: vec![],
        methods: vec![],
        signatures: vec![],
        definitions: vec![],
        static_lifecycle: None,
        external_functions: vec![],
    };
    let pool = LiteralPool::build(&program);
    let mut output = vec![];
    select_shared_static(
        &pool,
        &frame(),
        &MirSharedStatic { data: LiteralDataId::new(1), destination: StorageId::new(0) },
        &mut output,
    );
    assert_eq!(
        output,
        vec![
            Instruction::LoadSymbolAddress { symbol: "ska_literal_0".into(), destination: Register::Rax },
            Instruction::Move { source: Operand::Register(Register::Rax), destination: home(-8) },
        ]
    );
}

#[test]
fn descriptor_words_store_at_the_field_offset_from_rdx() {
    let layout = DataLayout {
        classes: vec![ClassLayout {
            ty: TypeLayout { size: 24, alignment: 8 },
            base: None,
            fields: vec![FieldLayout { offset: 0 }, FieldLayout { offset: 8 }, FieldLayout { offset: 16 }],
        }],
        arrays: vec![],
    };
    let mut output = vec![];
    store_descriptor_word(&layout, FieldId::new(ClassId::new(0), 2), Register::Rax, &mut output);
    assert_eq!(
        output,
        vec![Instruction::Move {
            source: Operand::Register(Register::Rax),
            destination: Operand::Memory { base: Register::Rdx, displacement: 16 },
        }]
    );
}
