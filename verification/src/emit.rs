//! Deterministic GNU assembler text emission using Intel syntax.
//!
//! Every rendering function states the exact text it produces as a spec
//! function over the machine model, so the whole assembly file is a pure
//! function of the program.

use vstd::prelude::*;

use crate::machine::{
    AssemblyDispatchTable, AssemblyFunction, AssemblyProgram, BitwiseOperation, ConditionCode,
    FloatOperand, Instruction, IntegerDivideFlavor, Operand, Register, ShiftOperation,
    bitwise_mnemonic, byte_register_name,
    condition_suffix, register_name, shift_mnemonic, xmm_register_name,
};
use crate::text::{decimal, decimal_text};

verus! {

/// The width of a memory operand.
#[derive(Clone, Copy, Debug, PartialEq, Eq, Structural)]
pub enum MemorySize {
    Byte,
    Qword,
}

pub open spec fn qualifier_text(size: MemorySize) -> Seq<char> {
    match size {
        MemorySize::Byte => "byte ptr"@,
        MemorySize::Qword => "qword ptr"@,
    }
}

impl MemorySize {
    /// The operand-size qualifier of a memory operand.
    pub fn qualifier(self) -> (r: &'static str)
        ensures
            r@ == qualifier_text(self),
    {
        match self {
            MemorySize::Byte => "byte ptr",
            MemorySize::Qword => "qword ptr",
        }
    }
}

/// ` + n` for a positive displacement, ` - n` for a negative one, and
/// nothing for zero.
pub open spec fn displacement_text(displacement: i32) -> Seq<char> {
    if displacement == 0 {
        Seq::empty()
    } else if displacement > 0 {
        " + "@ + decimal_text(displacement as nat)
    } else {
        " - "@ + decimal_text((-displacement) as nat)
    }
}

/// A bracketed address, prefixed by its size qualifier when one is given.
pub open spec fn sized_text(address: Seq<char>, size: Option<MemorySize>) -> Seq<char> {
    match size {
        Some(size) => qualifier_text(size) + " "@ + address,
        None => address,
    }
}

pub open spec fn memory_text(base: Register, displacement: i32, size: Option<MemorySize>) -> Seq<
    char,
> {
    sized_text("["@ + register_name(base) + displacement_text(displacement) + "]"@, size)
}

pub open spec fn indexed_memory_text(
    base: Register,
    index: Register,
    scale: u8,
    displacement: i32,
    size: Option<MemorySize>,
) -> Seq<char> {
    sized_text(
        "["@ + register_name(base) + " + "@ + register_name(index) + "*"@ + decimal_text(
            scale as nat,
        ) + displacement_text(displacement) + "]"@,
        size,
    )
}

pub open spec fn operand_text(operand: Operand, size: Option<MemorySize>) -> Seq<char> {
    match operand {
        Operand::Register(register) => register_name(register),
        Operand::Memory { base, displacement } => memory_text(base, displacement, size),
        Operand::IndexedMemory { base, index, scale, displacement } => indexed_memory_text(
            base,
            index,
            scale,
            displacement,
            size,
        ),
    }
}

pub open spec fn float_operand_text(operand: FloatOperand) -> Seq<char> {
    match operand {
        FloatOperand::Register(register) => xmm_register_name(register),
        FloatOperand::Memory { base, displacement } => memory_text(
            base,
            displacement,
            Some(MemorySize::Qword),
        ),
    }
}

fn displacement(value: i32) -> (r: String)
    ensures
        r@ == displacement_text(value),
{
    if value == 0 {
        String::new()
    } else if value > 0 {
        let mut text = String::from_str(" + ");
        let digits = decimal(value as u64);
        text.append(digits.as_str());
        text
    } else {
        let magnitude: u64 = (-(value as i64)) as u64;
        let mut text = String::from_str(" - ");
        let digits = decimal(magnitude);
        text.append(digits.as_str());
        text
    }
}

fn sized(address: String, size: Option<MemorySize>) -> (r: String)
    ensures
        r@ == sized_text(address@, size),
{
    match size {
        Some(size) => {
            let mut text = String::from_str(size.qualifier());
            text.append(" ");
            text.append(address.as_str());
            text
        },
        None => address,
    }
}

/// `[base]`, `[base + n]` or `[base - n]`, with an optional size qualifier.
pub fn display_memory(base: Register, displacement_value: i32, size: Option<MemorySize>) -> (r:
    String)
    ensures
        r@ == memory_text(base, displacement_value, size),
{
    let mut address = String::from_str("[");
    address.append(base.name());
    let suffix = displacement(displacement_value);
    address.append(suffix.as_str());
    address.append("]");
    sized(address, size)
}

/// `[base + index*scale ± n]`, with an optional size qualifier.
pub fn display_indexed_memory(
    base: Register,
    index: Register,
    scale: u8,
    displacement_value: i32,
    size: Option<MemorySize>,
) -> (r: String)
    ensures
        r@ == indexed_memory_text(base, index, scale, displacement_value, size),
{
    let mut address = String::from_str("[");
    address.append(base.name());
    address.append(" + ");
    address.append(index.name());
    address.append("*");
    let factor = decimal(scale as u64);
    address.append(factor.as_str());
    let suffix = displacement(displacement_value);
    address.append(suffix.as_str());
    address.append("]");
    sized(address, size)
}

/// A general-purpose operand read or written with the given width.
pub fn display_operand(operand: Operand, memory_size: MemorySize) -> (r: String)
    ensures
        r@ == operand_text(operand, Some(memory_size)),
{
    match operand {
        Operand::Register(register) => String::from_str(register.name()),
        Operand::Memory { base, displacement } => display_memory(
            base,
            displacement,
            Some(memory_size),
        ),
        Operand::IndexedMemory { base, index, scale, displacement } => display_indexed_memory(
            base,
            index,
            scale,
            displacement,
            Some(memory_size),
        ),
    }
}

/// An operand whose address is taken: no size qualifier.
pub fn display_address_operand(operand: Operand) -> (r: String)
    ensures
        r@ == operand_text(operand, None),
{
    match operand {
        Operand::Register(register) => String::from_str(register.name()),
        Operand::Memory { base, displacement } => display_memory(base, displacement, None),
        Operand::IndexedMemory { base, index, scale, displacement } => display_indexed_memory(
            base,
            index,
            scale,
            displacement,
            None,
        ),
    }
}

/// An SSE operand; memory is always a quadword.
pub fn display_float_operand(operand: FloatOperand) -> (r: String)
    ensures
        r@ == float_operand_text(operand),
{
    match operand {
        FloatOperand::Register(register) => String::from_str(register.name()),
        FloatOperand::Memory { base, displacement } => display_memory(
            base,
            displacement,
            Some(MemorySize::Qword),
        ),
    }
}

/// The lower-case hexadecimal digit of a value below sixteen.
pub open spec fn hex_digit_text(digit: nat) -> Seq<char> {
    if digit < 10 {
        crate::text::digit_text(digit)
    } else if digit == 10 {
        "a"@
    } else if digit == 11 {
        "b"@
    } else if digit == 12 {
        "c"@
    } else if digit == 13 {
        "d"@
    } else if digit == 14 {
        "e"@
    } else {
        "f"@
    }
}

/// The last `count` hexadecimal digits of a value, zero-padded.
pub open spec fn hex_text(value: nat, count: nat) -> Seq<char>
    decreases count,
{
    if count == 0 {
        Seq::empty()
    } else {
        hex_text(value / 16, (count - 1) as nat) + hex_digit_text(value % 16)
    }
}

fn hex_digit(value: u64) -> (r: &'static str)
    requires
        value < 16,
    ensures
        r@ == hex_digit_text(value as nat),
{
    if value < 10 {
        crate::text::digit(value)
    } else if value == 10 {
        "a"
    } else if value == 11 {
        "b"
    } else if value == 12 {
        "c"
    } else if value == 13 {
        "d"
    } else if value == 14 {
        "e"
    } else {
        "f"
    }
}

fn hex(value: u64, count: u32) -> (r: String)
    ensures
        r@ == hex_text(value as nat, count as nat),
    decreases count,
{
    if count == 0 {
        String::new()
    } else {
        let mut text = hex(value / 16, count - 1);
        text.append(hex_digit(value % 16));
        text
    }
}

/// `mnemonic destination, source`.
pub open spec fn binary_text(mnemonic: Seq<char>, destination: Seq<char>, source: Seq<char>) -> Seq<
    char,
> {
    mnemonic + " "@ + destination + ", "@ + source
}

/// `mnemonic operand`.
pub open spec fn unary_text(mnemonic: Seq<char>, operand: Seq<char>) -> Seq<char> {
    mnemonic + " "@ + operand
}

fn binary(mnemonic: &str, destination: &str, source: &str) -> (r: String)
    ensures
        r@ == binary_text(mnemonic@, destination@, source@),
{
    let mut text = String::from_str(mnemonic);
    text.append(" ");
    text.append(destination);
    text.append(", ");
    text.append(source);
    text
}

fn unary(mnemonic: &str, operand: &str) -> (r: String)
    ensures
        r@ == unary_text(mnemonic@, operand@),
{
    let mut text = String::from_str(mnemonic);
    text.append(" ");
    text.append(operand);
    text
}

/// `[rip + symbol]`.
pub open spec fn rip_relative_text(symbol: Seq<char>) -> Seq<char> {
    "[rip + "@ + symbol + "]"@
}

/// The Intel-syntax text of one instruction, without indentation or line
/// break.
pub open spec fn instruction_text(instruction: Instruction) -> Seq<char> {
    match instruction {
        Instruction::Label(label) => label.text@ + ":"@,
        Instruction::Push(register) => unary_text("push"@, register_name(register)),
        Instruction::Move { source, destination } => binary_text(
            "mov"@,
            operand_text(destination, Some(MemorySize::Qword)),
            operand_text(source, Some(MemorySize::Qword)),
        ),
        Instruction::MoveByte { source, destination } => binary_text(
            "mov"@,
            operand_text(destination, Some(MemorySize::Byte)),
            byte_register_name(source),
        ),
        Instruction::LoadEffectiveAddress { source, destination } => binary_text(
            "lea"@,
            register_name(destination),
            operand_text(source, None),
        ),
        Instruction::LoadSymbolAddress { symbol, destination } => binary_text(
            "lea"@,
            register_name(destination),
            rip_relative_text(symbol@),
        ),
        Instruction::LoadRuntimeTraceLocationAddress { symbol, destination } => binary_text(
            "lea"@,
            register_name(destination),
            rip_relative_text(symbol@),
        ),
        Instruction::MoveImmediate64 { bits, destination } => binary_text(
            "mov"@,
            register_name(destination),
            if bits <= 0x7fff_ffff_ffff_ffff {
                decimal_text(bits as nat)
            } else {
                "0x"@ + hex_text(bits as nat, 16)
            },
        ),
        Instruction::MoveBitsToFloat { source, destination } => binary_text(
            "movq"@,
            xmm_register_name(destination),
            register_name(source),
        ),
        Instruction::MoveFloat64 { source, destination } => binary_text(
            "movsd"@,
            float_operand_text(destination),
            float_operand_text(source),
        ),
        Instruction::ZeroExtendByte { source, destination } => binary_text(
            "movzx"@,
            register_name(destination),
            byte_register_name(source),
        ),
        Instruction::LoadZeroExtendByte { source, destination } => binary_text(
            "movzx"@,
            register_name(destination),
            operand_text(source, Some(MemorySize::Byte)),
        ),
        Instruction::Add { source, destination } => binary_text(
            "add"@,
            register_name(destination),
            register_name(source),
        ),
        Instruction::Subtract { source, destination } => binary_text(
            "sub"@,
            register_name(destination),
            register_name(source),
        ),
        Instruction::Multiply { source, destination } => binary_text(
            "imul"@,
            register_name(destination),
            register_name(source),
        ),
        Instruction::Negate(register) => unary_text("neg"@, register_name(register)),
        Instruction::BitwiseNot(register) => unary_text("not"@, register_name(register)),
        Instruction::Bitwise { operation, source, destination } => binary_text(
            bitwise_mnemonic(operation),
            register_name(destination),
            register_name(source),
        ),
        Instruction::ByteBitwise { operation, source, destination } => binary_text(
            bitwise_mnemonic(operation),
            byte_register_name(destination),
            byte_register_name(source),
        ),
        Instruction::SetCondition { condition, destination } => unary_text(
            "set"@ + condition_suffix(condition),
            byte_register_name(destination),
        ),
        Instruction::Shift { operation, destination } => binary_text(
            shift_mnemonic(operation),
            register_name(destination),
            "cl"@,
        ),
        Instruction::SignExtendDividend => "cqo"@,
        Instruction::IntegerDivide { flavor, divisor } => unary_text(
            match flavor {
                IntegerDivideFlavor::Signed => "idiv"@,
                IntegerDivideFlavor::Unsigned => "div"@,
            },
            register_name(divisor),
        ),
        Instruction::AddFloat64 { source, destination } => binary_text(
            "addsd"@,
            xmm_register_name(destination),
            xmm_register_name(source),
        ),
        Instruction::SubtractFloat64 { source, destination } => binary_text(
            "subsd"@,
            xmm_register_name(destination),
            xmm_register_name(source),
        ),
        Instruction::MultiplyFloat64 { source, destination } => binary_text(
            "mulsd"@,
            xmm_register_name(destination),
            xmm_register_name(source),
        ),
        Instruction::XorFloat128 { source, destination } => binary_text(
            "xorpd"@,
            xmm_register_name(destination),
            xmm_register_name(source),
        ),
        Instruction::DivideFloat64 { source, destination } => binary_text(
            "divsd"@,
            xmm_register_name(destination),
            xmm_register_name(source),
        ),
        Instruction::ConvertSignedIntegerToFloat64 { source, destination } => binary_text(
            "cvtsi2sd"@,
            xmm_register_name(destination),
            register_name(source),
        ),
        Instruction::ConvertFloat64ToSignedInteger { source, destination } => binary_text(
            "cvttsd2si"@,
            register_name(destination),
            xmm_register_name(source),
        ),
        Instruction::MoveFloatBitsToInteger { source, destination } => binary_text(
            "movq"@,
            register_name(destination),
            xmm_register_name(source),
        ),
        Instruction::CompareFloat64 { source, destination } => binary_text(
            "ucomisd"@,
            xmm_register_name(destination),
            xmm_register_name(source),
        ),
        Instruction::Test(register) => binary_text(
            "test"@,
            register_name(register),
            register_name(register),
        ),
        Instruction::Compare { source, destination } => binary_text(
            "cmp"@,
            register_name(destination),
            register_name(source),
        ),
        Instruction::ReserveStack(bytes) => binary_text("sub"@, "rsp"@, decimal_text(bytes as nat)),
        Instruction::ReleaseStack(bytes) => binary_text("add"@, "rsp"@, decimal_text(bytes as nat)),
        Instruction::Call(symbol) => unary_text("call"@, symbol@),
        Instruction::CallIndirect(register) => unary_text("call"@, register_name(register)),
        Instruction::Jump(label) => unary_text("jmp"@, label.text@),
        Instruction::JumpIfNotZero(label) => unary_text("jne"@, label.text@),
        Instruction::JumpIfEqual(label) => unary_text("je"@, label.text@),
        Instruction::JumpIfBelow(label) => unary_text("jb"@, label.text@),
        Instruction::JumpIfAbove(label) => unary_text("ja"@, label.text@),
        Instruction::JumpIfNotSign(label) => unary_text("jns"@, label.text@),
        Instruction::JumpIf { condition, target } => unary_text(
            "j"@ + condition_suffix(condition),
            target.text@,
        ),
        Instruction::Trap => "ud2"@,
        Instruction::Leave => "leave"@,
        Instruction::Return => "ret"@,
    }
}

fn rip_relative(symbol: &str) -> (r: String)
    ensures
        r@ == rip_relative_text(symbol@),
{
    let mut text = String::from_str("[rip + ");
    text.append(symbol);
    text.append("]");
    text
}

fn instruction(item: &Instruction) -> (r: String)
    ensures
        r@ == instruction_text(*item),
{
    match item {
        Instruction::Label(label) => {
            let mut text = String::from_str(label.name());
            text.append(":");
            text
        },
        Instruction::Push(register) => unary("push", register.name()),
        Instruction::Move { source, destination } => {
            let target = display_operand(*destination, MemorySize::Qword);
            let value = display_operand(*source, MemorySize::Qword);
            binary("mov", target.as_str(), value.as_str())
        },
        Instruction::MoveByte { source, destination } => {
            let target = display_operand(*destination, MemorySize::Byte);
            binary("mov", target.as_str(), source.name())
        },
        Instruction::LoadEffectiveAddress { source, destination } => {
            let address = display_address_operand(*source);
            binary("lea", destination.name(), address.as_str())
        },
        Instruction::LoadSymbolAddress { symbol, destination } => {
            let address = rip_relative(symbol.as_str());
            binary("lea", destination.name(), address.as_str())
        },
        Instruction::LoadRuntimeTraceLocationAddress { symbol, destination } => {
            let address = rip_relative(symbol.as_str());
            binary("lea", destination.name(), address.as_str())
        },
        Instruction::MoveImmediate64 { bits, destination } => {
            if *bits <= 0x7fff_ffff_ffff_ffffu64 {
                let value = decimal(*bits);
                binary("mov", destination.name(), value.as_str())
            } else {
                let mut value = String::from_str("0x");
                let digits = hex(*bits, 16);
                value.append(digits.as_str());
                binary("mov", destination.name(), value.as_str())
            }
        },
        Instruction::MoveBitsToFloat { source, destination } => binary(
            "movq",
            destination.name(),
            source.name(),
        ),
        Instruction::MoveFloat64 { source, destination } => {
            let target = display_float_operand(*destination);
            let value = display_float_operand(*source);
            binary("movsd", target.as_str(), value.as_str())
        },
        Instruction::ZeroExtendByte { source, destination } => binary(
            "movzx",
            destination.name(),
            source.name(),
        ),
        Instruction::LoadZeroExtendByte { source, destination } => {
            let value = display_operand(*source, MemorySize::Byte);
            binary("movzx", destination.name(), value.as_str())
        },
        Instruction::Add { source, destination } => binary(
            "add",
            destination.name(),
            source.name(),
        ),
        Instruction::Subtract { source, destination } => binary(
            "sub",
            destination.name(),
            source.name(),
        ),
        Instruction::Multiply { source, destination } => binary(
            "imul",
            destination.name(),
            source.name(),
        ),
        Instruction::Negate(register) => unary("neg", register.name()),
        Instruction::BitwiseNot(register) => unary("not", register.name()),
        Instruction::Bitwise { operation, source, destination } => binary(
            operation.mnemonic(),
            destination.name(),
            source.name(),
        ),
        Instruction::ByteBitwise { operation, source, destination } => binary(
            operation.mnemonic(),
            destination.name(),
            source.name(),
        ),
        Instruction::SetCondition { condition, destination } => unary(
            condition.set_mnemonic(),
            destination.name(),
        ),
        Instruction::Shift { operation, destination } => binary(
            operation.mnemonic(),
            destination.name(),
            "cl",
        ),
        Instruction::SignExtendDividend => String::from_str("cqo"),
        Instruction::IntegerDivide { flavor, divisor } => unary(
            match flavor {
                IntegerDivideFlavor::Signed => "idiv",
                IntegerDivideFlavor::Unsigned => "div",
            },
            divisor.name(),
        ),
        Instruction::AddFloat64 { source, destination } => binary(
            "addsd",
            destination.name(),
            source.name(),
        ),
        Instruction::SubtractFloat64 { source, destination } => binary(
            "subsd",
            destination.name(),
            source.name(),
        ),
        Instruction::MultiplyFloat64 { source, destination } => binary(
            "mulsd",
            destination.name(),
            source.name(),
        ),
        Instruction::XorFloat128 { source, destination } => binary(
            "xorpd",
            destination.name(),
            source.name(),
        ),
        Instruction::DivideFloat64 { source, destination } => binary(
            "divsd",
            destination.name(),
            source.name(),
        ),
        Instruction::ConvertSignedIntegerToFloat64 { source, destination } => binary(
            "cvtsi2sd",
            destination.name(),
            source.name(),
        ),
        Instruction::ConvertFloat64ToSignedInteger { source, destination } => binary(
            "cvttsd2si",
            destination.name(),
            source.name(),
        ),
        Instruction::MoveFloatBitsToInteger { source, destination } => binary(
            "movq",
            destination.name(),
            source.name(),
        ),
        Instruction::CompareFloat64 { source, destination } => binary(
            "ucomisd",
            destination.name(),
            source.name(),
        ),
        Instruction::Test(register) => binary("test", register.name(), register.name()),
        Instruction::Compare { source, destination } => binary(
            "cmp",
            destination.name(),
            source.name(),
        ),
        Instruction::ReserveStack(bytes) => {
            let amount = decimal(*bytes as u64);
            binary("sub", "rsp", amount.as_str())
        },
        Instruction::ReleaseStack(bytes) => {
            let amount = decimal(*bytes as u64);
            binary("add", "rsp", amount.as_str())
        },
        Instruction::Call(symbol) => unary("call", symbol.as_str()),
        Instruction::CallIndirect(register) => unary("call", register.name()),
        Instruction::Jump(label) => unary("jmp", label.name()),
        Instruction::JumpIfNotZero(label) => unary("jne", label.name()),
        Instruction::JumpIfEqual(label) => unary("je", label.name()),
        Instruction::JumpIfBelow(label) => unary("jb", label.name()),
        Instruction::JumpIfAbove(label) => unary("ja", label.name()),
        Instruction::JumpIfNotSign(label) => unary("jns", label.name()),
        Instruction::JumpIf { condition, target } => unary(condition.jump_mnemonic(), target.name()),
        Instruction::Trap => String::from_str("ud2"),
        Instruction::Leave => String::from_str("leave"),
        Instruction::Return => String::from_str("ret"),
    }
}

/// Appends the text of one instruction.
pub fn emit_instruction(output: &mut String, instruction_value: &Instruction)
    ensures
        final(output)@ == old(output)@ + instruction_text(*instruction_value),
{
    let text = instruction(instruction_value);
    output.append(text.as_str());
}

/// One instruction line: indented unless it is a label.
pub open spec fn line_text(instruction: Instruction) -> Seq<char> {
    (if instruction is Label {
        Seq::empty()
    } else {
        "    "@
    }) + instruction_text(instruction) + "\n"@
}

pub open spec fn body_text(instructions: Seq<Instruction>) -> Seq<char>
    decreases instructions.len(),
{
    if instructions.len() == 0 {
        Seq::empty()
    } else {
        body_text(instructions.drop_last()) + line_text(instructions.last())
    }
}

/// The text of one function; every function but the first is preceded by
/// an empty line.
pub open spec fn function_text(function: AssemblyFunction, first: bool) -> Seq<char> {
    let symbol = function.symbol@;
    (if first {
        Seq::empty()
    } else {
        "\n"@
    }) + ".p2align 4\n"@ + (if function.exported {
        ".globl "@ + symbol + "\n"@
    } else {
        Seq::empty()
    }) + ".type "@ + symbol + ", @function\n"@ + symbol + ":\n"@ + body_text(
        function.instructions@,
    ) + ".size "@ + symbol + ", .-"@ + symbol + "\n"@
}

pub open spec fn functions_text(functions: Seq<AssemblyFunction>) -> Seq<char>
    decreases functions.len(),
{
    if functions.len() == 0 {
        Seq::empty()
    } else {
        functions_text(functions.drop_last()) + function_text(
            functions.last(),
            functions.len() == 1,
        )
    }
}

pub open spec fn entry_text(entry: Option<String>) -> Seq<char> {
    match entry {
        Some(symbol) => "    .quad "@ + symbol@ + "\n"@,
        None => "    .quad 0\n"@,
    }
}

pub open spec fn entries_text(entries: Seq<Option<String>>) -> Seq<char>
    decreases entries.len(),
{
    if entries.len() == 0 {
        Seq::empty()
    } else {
        entries_text(entries.drop_last()) + entry_text(entries.last())
    }
}

/// The text of one dispatch table; a trailing zero quad gives every table
/// storage, so its address is a unique identity.
pub open spec fn table_text(table: AssemblyDispatchTable) -> Seq<char> {
    let symbol = table.symbol@;
    ".p2align 3\n"@ + ".type "@ + symbol + ", @object\n"@ + symbol + ":\n"@ + entries_text(
        table.entries@,
    ) + "    .quad 0\n"@ + ".size "@ + symbol + ", .-"@ + symbol + "\n"@
}

pub open spec fn tables_text(tables: Seq<AssemblyDispatchTable>) -> Seq<char>
    decreases tables.len(),
{
    if tables.len() == 0 {
        Seq::empty()
    } else {
        tables_text(tables.drop_last()) + table_text(tables.last())
    }
}

/// The complete assembly file of a program.
pub open spec fn program_text(program: AssemblyProgram) -> Seq<char> {
    ".intel_syntax noprefix\n.text\n"@ + functions_text(program.functions@) + (
    if program.dispatch_tables@.len() == 0 {
        Seq::empty()
    } else {
        "\n.section .data.rel.ro.local,\"aw\",@progbits\n"@ + tables_text(
            program.dispatch_tables@,
        )
    }) + "\n.section .note.GNU-stack,\"\",@progbits\n"@
}

fn function_chunk(function: &AssemblyFunction, first: bool) -> (r: String)
    ensures
        r@ == function_text(*function, first),
{
    let symbol = function.symbol.as_str();
    let mut text = if first {
        String::new()
    } else {
        String::from_str("\n")
    };
    text.append(".p2align 4\n");
    if function.exported {
        let mut globl = String::from_str(".globl ");
        globl.append(symbol);
        globl.append("\n");
        text.append(globl.as_str());
    } else {
        let none = String::new();
        text.append(none.as_str());
    }
    text.append(".type ");
    text.append(symbol);
    text.append(", @function\n");
    text.append(symbol);
    text.append(":\n");
    let mut body = String::new();
    let mut i: usize = 0;
    while i < function.instructions.len()
        invariant
            i <= function.instructions@.len(),
            body@ == body_text(function.instructions@.take(i as int)),
        decreases function.instructions@.len() - i,
    {
        let item = &function.instructions[i];
        let mut line = if matches!(item, Instruction::Label(_)) {
            String::new()
        } else {
            String::from_str("    ")
        };
        emit_instruction(&mut line, item);
        line.append("\n");
        assert(line@ == line_text(*item));
        assert(function.instructions@.take((i + 1) as int).drop_last() =~= function.instructions@.take(
            i as int,
        ));
        body.append(line.as_str());
        i = i + 1;
    }
    assert(function.instructions@.take(function.instructions@.len() as int) =~= function.instructions@);
    text.append(body.as_str());
    text.append(".size ");
    text.append(symbol);
    text.append(", .-");
    text.append(symbol);
    text.append("\n");
    text
}

fn table_chunk(table: &AssemblyDispatchTable) -> (r: String)
    ensures
        r@ == table_text(*table),
{
    let symbol = table.symbol.as_str();
    let mut text = String::from_str(".p2align 3\n");
    text.append(".type ");
    text.append(symbol);
    text.append(", @object\n");
    text.append(symbol);
    text.append(":\n");
    let mut entries = String::new();
    let mut i: usize = 0;
    while i < table.entries.len()
        invariant
            i <= table.entries@.len(),
            entries@ == entries_text(table.entries@.take(i as int)),
        decreases table.entries@.len() - i,
    {
        let line = match &table.entries[i] {
            Some(entry) => {
                let mut quad = String::from_str("    .quad ");
                quad.append(entry.as_str());
                quad.append("\n");
                quad
            },
            None => String::from_str("    .quad 0\n"),
        };
        assert(line@ == entry_text(table.entries@[i as int]));
        assert(table.entries@.take((i + 1) as int).drop_last() =~= table.entries@.take(i as int));
        entries.append(line.as_str());
        i = i + 1;
    }
    assert(table.entries@.take(table.entries@.len() as int) =~= table.entries@);
    text.append(entries.as_str());
    text.append("    .quad 0\n");
    text.append(".size ");
    text.append(symbol);
    text.append(", .-");
    text.append(symbol);
    text.append("\n");
    text
}

/// Renders the whole program as GNU assembler input.
pub fn emit(program: &AssemblyProgram) -> (r: String)
    ensures
        r@ == program_text(*program),
{
    let mut output = String::from_str(".intel_syntax noprefix\n.text\n");
    let mut functions = String::new();
    let mut i: usize = 0;
    while i < program.functions.len()
        invariant
            i <= program.functions@.len(),
            functions@ == functions_text(program.functions@.take(i as int)),
        decreases program.functions@.len() - i,
    {
        let chunk = function_chunk(&program.functions[i], i == 0);
        assert(program.functions@.take((i + 1) as int).drop_last() =~= program.functions@.take(
            i as int,
        ));
        functions.append(chunk.as_str());
        i = i + 1;
    }
    assert(program.functions@.take(program.functions@.len() as int) =~= program.functions@);
    output.append(functions.as_str());
    let data = if program.dispatch_tables.len() == 0 {
        String::new()
    } else {
        let mut data = String::from_str("\n.section .data.rel.ro.local,\"aw\",@progbits\n");
        let mut tables = String::new();
        let mut j: usize = 0;
        while j < program.dispatch_tables.len()
            invariant
                j <= program.dispatch_tables@.len(),
                tables@ == tables_text(program.dispatch_tables@.take(j as int)),
            decreases program.dispatch_tables@.len() - j,
        {
            let chunk = table_chunk(&program.dispatch_tables[j]);
            assert(program.dispatch_tables@.take((j + 1) as int).drop_last()
                =~= program.dispatch_tables@.take(j as int));
            tables.append(chunk.as_str());
            j = j + 1;
        }
        assert(program.dispatch_tables@.take(program.dispatch_tables@.len() as int)
            =~= program.dispatch_tables@);
        data.append(tables.as_str());
        data
    };
    output.append(data.as_str());
    output.append("\n.section .note.GNU-stack,\"\",@progbits\n");
    output
}

/// The letters that name a condition in `set` and `j` mnemonics.
pub open spec fn x86_condition(condition: ConditionCode) -> Seq<char> {
    match condition {
        ConditionCode::Equal => "e"@,
        ConditionCode::NotEqual => "ne"@,
        ConditionCode::SignedLess => "l"@,
        ConditionCode::SignedLessEqual => "le"@,
        ConditionCode::SignedGreater => "g"@,
        ConditionCode::SignedGreaterEqual => "ge"@,
        ConditionCode::UnsignedBelow => "b"@,
        ConditionCode::UnsignedBelowEqual => "be"@,
        ConditionCode::UnsignedAbove => "a"@,
        ConditionCode::UnsignedAboveEqual => "ae"@,
        ConditionCode::Parity => "p"@,
        ConditionCode::NotParity => "np"@,
    }
}

/// The x86-64 mnemonic that performs each machine instruction's operation:
/// integer and `f64` arithmetic, moves, conversions, comparisons, stack
/// adjustment, calls and jumps. A label has none.
pub open spec fn x86_mnemonic(instruction: Instruction) -> Seq<char> {
    match instruction {
        Instruction::Label(_) => Seq::empty(),
        Instruction::Push(_) => "push"@,
        Instruction::Move { .. } | Instruction::MoveByte { .. } | Instruction::MoveImmediate64 { .. } => "mov"@,
        Instruction::LoadEffectiveAddress { .. }
        | Instruction::LoadSymbolAddress { .. }
        | Instruction::LoadRuntimeTraceLocationAddress { .. } => "lea"@,
        Instruction::MoveBitsToFloat { .. } | Instruction::MoveFloatBitsToInteger { .. } => "movq"@,
        Instruction::MoveFloat64 { .. } => "movsd"@,
        Instruction::ZeroExtendByte { .. } | Instruction::LoadZeroExtendByte { .. } => "movzx"@,
        Instruction::Add { .. } | Instruction::ReleaseStack(_) => "add"@,
        Instruction::Subtract { .. } | Instruction::ReserveStack(_) => "sub"@,
        Instruction::Multiply { .. } => "imul"@,
        Instruction::Negate(_) => "neg"@,
        Instruction::BitwiseNot(_) => "not"@,
        Instruction::Bitwise { operation, .. } | Instruction::ByteBitwise { operation, .. } => match operation {
            BitwiseOperation::And => "and"@,
            BitwiseOperation::Or => "or"@,
            BitwiseOperation::Xor => "xor"@,
        },
        Instruction::SetCondition { condition, .. } => "set"@ + x86_condition(condition),
        Instruction::Shift { operation, .. } => match operation {
            ShiftOperation::Left => "shl"@,
            ShiftOperation::ArithmeticRight => "sar"@,
            ShiftOperation::LogicalRight => "shr"@,
        },
        Instruction::SignExtendDividend => "cqo"@,
        Instruction::IntegerDivide { flavor, .. } => match flavor {
            IntegerDivideFlavor::Signed => "idiv"@,
            IntegerDivideFlavor::Unsigned => "div"@,
        },
        Instruction::AddFloat64 { .. } => "addsd"@,
        Instruction::SubtractFloat64 { .. } => "subsd"@,
        Instruction::MultiplyFloat64 { .. } => "mulsd"@,
        Instruction::XorFloat128 { .. } => "xorpd"@,
        Instruction::DivideFloat64 { .. } => "divsd"@,
        Instruction::ConvertSignedIntegerToFloat64 { .. } => "cvtsi2sd"@,
        Instruction::ConvertFloat64ToSignedInteger { .. } => "cvttsd2si"@,
        Instruction::CompareFloat64 { .. } => "ucomisd"@,
        Instruction::Test(_) => "test"@,
        Instruction::Compare { .. } => "cmp"@,
        Instruction::Call(_) | Instruction::CallIndirect(_) => "call"@,
        Instruction::Jump(_) => "jmp"@,
        Instruction::JumpIfNotZero(_) => "jne"@,
        Instruction::JumpIfEqual(_) => "je"@,
        Instruction::JumpIfBelow(_) => "jb"@,
        Instruction::JumpIfAbove(_) => "ja"@,
        Instruction::JumpIfNotSign(_) => "jns"@,
        Instruction::JumpIf { condition, .. } => "j"@ + x86_condition(condition),
        Instruction::Trap => "ud2"@,
        Instruction::Leave => "leave"@,
        Instruction::Return => "ret"@,
    }
}

/// The text is the mnemonic alone, or the mnemonic and a space before the
/// operands.
pub open spec fn begins_with_mnemonic(text: Seq<char>, mnemonic: Seq<char>) -> bool {
    text == mnemonic || (mnemonic + " "@).is_prefix_of(text)
}

proof fn lemma_operands_follow()
    ensures
        forall|mnemonic: Seq<char>, destination: Seq<char>, source: Seq<char>|
            begins_with_mnemonic(#[trigger] binary_text(mnemonic, destination, source), mnemonic),
        forall|mnemonic: Seq<char>, operand: Seq<char>|
            begins_with_mnemonic(#[trigger] unary_text(mnemonic, operand), mnemonic),
{
    assert forall|mnemonic: Seq<char>, destination: Seq<char>, source: Seq<char>|
        begins_with_mnemonic(#[trigger] binary_text(mnemonic, destination, source), mnemonic) by {
        let text = binary_text(mnemonic, destination, source);
        assert(text.subrange(0, (mnemonic + " "@).len() as int) =~= mnemonic + " "@);
    }
    assert forall|mnemonic: Seq<char>, operand: Seq<char>|
        begins_with_mnemonic(#[trigger] unary_text(mnemonic, operand), mnemonic) by {
        let text = unary_text(mnemonic, operand);
        assert(text.subrange(0, (mnemonic + " "@).len() as int) =~= mnemonic + " "@);
    }
}

/// Every emitted instruction starts with the mnemonic of its operation: an
/// `f64` multiplication is `mulsd`, a division `divsd`, an unsigned division
/// `div`, a conditional jump `j` and its condition, and so on.
pub proof fn lemma_instruction_mnemonic(instruction: Instruction)
    requires
        !(instruction is Label),
    ensures
        begins_with_mnemonic(instruction_text(instruction), x86_mnemonic(instruction)),
{
    lemma_operands_follow();
    match instruction {
        Instruction::Bitwise { operation, .. } | Instruction::ByteBitwise { operation, .. } => {
            assert(x86_mnemonic(instruction) == bitwise_mnemonic(operation));
        },
        Instruction::Shift { operation, .. } => {
            assert(x86_mnemonic(instruction) == shift_mnemonic(operation));
        },
        Instruction::SetCondition { condition, .. } => {
            assert(x86_condition(condition) == condition_suffix(condition));
        },
        Instruction::JumpIf { condition, .. } => {
            assert(x86_condition(condition) == condition_suffix(condition));
        },
        _ => {},
    }
}

/// Two-operand integer instructions and moves name the destination first
/// and the source second, after the mnemonic of the operation; a memory
/// operand of a full-width move is a quadword.
pub proof fn lemma_integer_operand_order(instruction: Instruction)
    ensures
        match instruction {
            Instruction::Add { source, destination }
            | Instruction::Subtract { source, destination }
            | Instruction::Multiply { source, destination }
            | Instruction::Compare { source, destination }
            | Instruction::Bitwise { source, destination, .. } => instruction_text(instruction)
                == x86_mnemonic(instruction) + " "@ + register_name(destination) + ", "@ + register_name(
                source,
            ),
            Instruction::Move { source, destination } => instruction_text(instruction) == x86_mnemonic(
                instruction,
            ) + " "@ + operand_text(destination, Some(MemorySize::Qword)) + ", "@ + operand_text(
                source,
                Some(MemorySize::Qword),
            ),
            _ => true,
        },
{
    match instruction {
        Instruction::Bitwise { operation, .. } => {
            assert(x86_mnemonic(instruction) == bitwise_mnemonic(operation));
        },
        _ => {},
    }
}

/// Register-to-register `f64` operations name the destination first and
/// the source second, after the mnemonic of the operation.
pub proof fn lemma_float_operand_order(instruction: Instruction)
    requires
        instruction is AddFloat64 || instruction is SubtractFloat64 || instruction is MultiplyFloat64
            || instruction is DivideFloat64 || instruction is XorFloat128 || instruction is CompareFloat64,
    ensures
        match instruction {
            Instruction::AddFloat64 { source, destination }
            | Instruction::SubtractFloat64 { source, destination }
            | Instruction::MultiplyFloat64 { source, destination }
            | Instruction::DivideFloat64 { source, destination }
            | Instruction::XorFloat128 { source, destination }
            | Instruction::CompareFloat64 { source, destination } => instruction_text(instruction)
                == x86_mnemonic(instruction) + " "@ + xmm_register_name(destination) + ", "@
                + xmm_register_name(source),
            _ => false,
        },
{
}

} // verus!
