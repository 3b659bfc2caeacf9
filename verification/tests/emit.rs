use skald_compiler::emit::{
    display_address_operand, display_float_operand, display_indexed_memory, display_memory,
    display_operand, emit, emit_instruction, MemorySize,
};
use skald_compiler::machine::{
    AssemblyDispatchTable, AssemblyFunction, AssemblyProgram, AssemblyRuntimeTraceMetadata,
    ByteRegister, FloatOperand, Instruction, Label, Operand, Register, XmmRegister,
};

fn program(functions: Vec<AssemblyFunction>, tables: Vec<AssemblyDispatchTable>) -> AssemblyProgram {
    AssemblyProgram {
        functions,
        static_slots: vec![],
        dispatch_tables: tables,
        literal_backings: vec![],
        panic_messages: vec![],
        runtime_trace: AssemblyRuntimeTraceMetadata {
            strings: vec![],
            contexts: vec![],
            locations: vec![],
        },
    }
}

#[test]
fn renders_memory_operands_with_signed_displacements() {
    assert_eq!(display_memory(Register::Rbp, 0, None), "[rbp]");
    assert_eq!(display_memory(Register::Rbp, 16, None), "[rbp + 16]");
    assert_eq!(
        display_memory(Register::Rbp, -24, Some(MemorySize::Qword)),
        "qword ptr [rbp - 24]"
    );
    assert_eq!(
        display_memory(Register::Rax, i32::MIN, Some(MemorySize::Byte)),
        "byte ptr [rax - 2147483648]"
    );
    assert_eq!(
        display_indexed_memory(Register::Rdi, Register::Rsi, 8, 16, Some(MemorySize::Qword)),
        "qword ptr [rdi + rsi*8 + 16]"
    );
    assert_eq!(
        display_indexed_memory(Register::Rdi, Register::Rsi, 1, -3, None),
        "[rdi + rsi*1 - 3]"
    );
    assert_eq!(MemorySize::Byte.qualifier(), "byte ptr");
}

#[test]
fn renders_operands_by_role() {
    let memory = Operand::Memory { base: Register::Rsp, displacement: 8 };
    assert_eq!(display_operand(memory, MemorySize::Qword), "qword ptr [rsp + 8]");
    assert_eq!(display_address_operand(memory), "[rsp + 8]");
    assert_eq!(display_operand(Operand::Register(Register::R9), MemorySize::Byte), "r9");
    assert_eq!(display_float_operand(FloatOperand::Register(XmmRegister::Xmm3)), "xmm3");
    assert_eq!(
        display_float_operand(FloatOperand::Memory { base: Register::Rbp, displacement: -8 }),
        "qword ptr [rbp - 8]"
    );
}

#[test]
fn renders_instructions_in_intel_syntax() {
    let cases = vec![
        (Instruction::Push(Register::Rbp), "push rbp"),
        (
            Instruction::Move {
                source: Operand::Register(Register::Rsp),
                destination: Operand::Register(Register::Rbp),
            },
            "mov rbp, rsp",
        ),
        (
            Instruction::MoveByte {
                source: ByteRegister::Al,
                destination: Operand::Memory { base: Register::Rdi, displacement: 0 },
            },
            "mov byte ptr [rdi], al",
        ),
        (
            Instruction::LoadSymbolAddress { symbol: "table".to_owned(), destination: Register::Rax },
            "lea rax, [rip + table]",
        ),
        (
            Instruction::MoveImmediate64 { bits: 42, destination: Register::Rcx },
            "mov rcx, 42",
        ),
        (
            Instruction::MoveImmediate64 { bits: 0xbff0_0000_0000_0000, destination: Register::R11 },
            "mov r11, 0xbff0000000000000",
        ),
        (Instruction::ReserveStack(32), "sub rsp, 32"),
        (Instruction::Test(Register::Rdi), "test rdi, rdi"),
        (Instruction::Call("ska_rt_alloc".to_owned()), "call ska_rt_alloc"),
        (Instruction::JumpIfBelow(Label::new(".L1".to_owned())), "jb .L1"),
        (Instruction::Label(Label::new(".L1".to_owned())), ".L1:"),
        (Instruction::Trap, "ud2"),
    ];
    for (instruction, expected) in cases {
        let mut output = String::from(">");
        emit_instruction(&mut output, &instruction);
        assert_eq!(output, format!(">{expected}"));
    }
}

#[test]
fn emits_functions_tables_and_the_stack_note() {
    let text = emit(&program(
        vec![
            AssemblyFunction {
                symbol: "main".to_owned(),
                exported: true,
                instructions: vec![Instruction::Label(Label::new(".L0".to_owned())), Instruction::Return],
            },
            AssemblyFunction {
                symbol: "helper".to_owned(),
                exported: false,
                instructions: vec![Instruction::Leave],
            },
        ],
        vec![AssemblyDispatchTable {
            symbol: "table".to_owned(),
            entries: vec![Some("helper".to_owned()), None],
        }],
    ));
    let expected = ".intel_syntax noprefix\n.text\n\
.p2align 4\n.globl main\n.type main, @function\nmain:\n.L0:\n    ret\n.size main, .-main\n\
\n.p2align 4\n.type helper, @function\nhelper:\n    leave\n.size helper, .-helper\n\
\n.section .data.rel.ro.local,\"aw\",@progbits\n\
.p2align 3\n.type table, @object\ntable:\n    .quad helper\n    .quad 0\n    .quad 0\n.size table, .-table\n\
\n.section .note.GNU-stack,\"\",@progbits\n";
    assert_eq!(text, expected);
}

#[test]
fn emits_no_data_section_without_tables() {
    let text = emit(&program(vec![], vec![]));
    assert_eq!(
        text,
        ".intel_syntax noprefix\n.text\n\n.section .note.GNU-stack,\"\",@progbits\n"
    );
}
