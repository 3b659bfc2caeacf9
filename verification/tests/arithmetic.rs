use std::collections::HashMap;

use skald_compiler::arithmetic::{
    select_binary, select_integer_constant, select_integer_division,
    select_integer_division_terminator, select_primitive_comparison, select_shift,
    select_shift_terminator, select_unary,
};
use skald_compiler::body::{
    BlockId, MirBinaryOperation, MirComparisonOperand, MirComparisonPredicate,
    MirIntegerDivisionKind, MirIntegerDivisionOperation, MirIntegerDivisorCheck, MirIntegerType,
    MirPrimitiveComparison, MirShiftCountCheck, MirShiftDirection, MirShiftOperation,
    MirTerminator, MirUnaryOperation,
};
use skald_compiler::frame::FrameLayout;
use skald_compiler::identity::{CallableId, FunctionId, StorageId, ValueId};
use skald_compiler::machine::{
    BitwiseOperation, ByteRegister, ConditionCode, Instruction, IntegerDivideFlavor, Label,
    Operand, Register, ShiftOperation,
};
use skald_compiler::mir::MirType;

// Integer semantics of the selected instructions, enough to run listings.

fn slot(register: Register) -> usize {
    match register {
        Register::Rax => 0,
        Register::Rcx => 1,
        Register::Rdx => 2,
        Register::Rbx => 3,
        Register::Rsp => 4,
        Register::Rbp => 5,
        Register::Rsi => 6,
        Register::Rdi => 7,
        Register::R8 => 8,
        Register::R9 => 9,
        Register::R10 => 10,
        Register::R11 => 11,
        Register::R12 => 12,
        Register::R13 => 13,
        Register::R14 => 14,
        Register::R15 => 15,
    }
}

#[derive(Default)]
struct Flags {
    zero: bool,
    sign: bool,
    carry: bool,
    overflow: bool,
}

struct Machine {
    registers: [u64; 16],
    memory: HashMap<u64, u64>,
    flags: Flags,
}

const FRAME: u64 = 0x7000_0000;

impl Machine {
    fn new() -> Self {
        let mut registers = [0; 16];
        registers[slot(Register::Rbp)] = FRAME;
        Machine { registers, memory: HashMap::new(), flags: Flags::default() }
    }

    fn reg(&self, register: Register) -> u64 {
        self.registers[slot(register)]
    }

    fn set(&mut self, register: Register, value: u64) {
        self.registers[slot(register)] = value;
    }

    fn byte(&self, register: ByteRegister) -> u64 {
        match register {
            ByteRegister::Al => self.reg(Register::Rax) & 0xff,
            ByteRegister::Cl => self.reg(Register::Rcx) & 0xff,
        }
    }

    fn set_byte(&mut self, register: ByteRegister, value: u64) {
        let full = match register {
            ByteRegister::Al => Register::Rax,
            ByteRegister::Cl => Register::Rcx,
        };
        let merged = (self.reg(full) & !0xff) | (value & 0xff);
        self.set(full, merged);
    }

    fn address(&self, operand: Operand) -> u64 {
        match operand {
            Operand::Memory { base, displacement } => {
                self.reg(base).wrapping_add(displacement as i64 as u64)
            }
            other => panic!("no address for {other:?}"),
        }
    }

    fn read(&self, operand: Operand) -> u64 {
        match operand {
            Operand::Register(register) => self.reg(register),
            memory => *self.memory.get(&self.address(memory)).unwrap_or(&0),
        }
    }

    fn write(&mut self, operand: Operand, value: u64) {
        match operand {
            Operand::Register(register) => self.set(register, value),
            memory => {
                let address = self.address(memory);
                self.memory.insert(address, value);
            }
        }
    }

    fn logic_flags(&mut self, result: u64) {
        self.flags = Flags { zero: result == 0, sign: (result as i64) < 0, carry: false, overflow: false };
    }

    fn condition(&self, condition: ConditionCode) -> bool {
        let f = &self.flags;
        match condition {
            ConditionCode::Equal => f.zero,
            ConditionCode::NotEqual => !f.zero,
            ConditionCode::SignedLess => f.sign != f.overflow,
            ConditionCode::SignedLessEqual => f.zero || f.sign != f.overflow,
            ConditionCode::SignedGreater => !f.zero && f.sign == f.overflow,
            ConditionCode::SignedGreaterEqual => f.sign == f.overflow,
            ConditionCode::UnsignedBelow => f.carry,
            ConditionCode::UnsignedBelowEqual => f.carry || f.zero,
            ConditionCode::UnsignedAbove => !f.carry && !f.zero,
            ConditionCode::UnsignedAboveEqual => !f.carry,
            ConditionCode::Parity | ConditionCode::NotParity => panic!("no parity model"),
        }
    }

    fn run(&mut self, listing: &[Instruction]) -> Result<(), String> {
        let labels: HashMap<String, usize> = listing
            .iter()
            .enumerate()
            .filter_map(|(index, instruction)| match instruction {
                Instruction::Label(label) => Some((label.text.clone(), index)),
                _ => None,
            })
            .collect();
        let target = |label: &Label| labels.get(&label.text).copied().ok_or(label.text.clone());
        let mut pc = 0;
        while pc < listing.len() {
            let mut next = pc + 1;
            match &listing[pc] {
                Instruction::Label(_) => {}
                Instruction::Move { source, destination } => {
                    let value = self.read(*source);
                    self.write(*destination, value);
                }
                Instruction::MoveImmediate64 { bits, destination } => self.set(*destination, *bits),
                Instruction::Add { source, destination } => {
                    let value = self.reg(*destination).wrapping_add(self.reg(*source));
                    self.set(*destination, value);
                }
                Instruction::Subtract { source, destination } => {
                    let value = self.reg(*destination).wrapping_sub(self.reg(*source));
                    self.set(*destination, value);
                }
                Instruction::Multiply { source, destination } => {
                    let value = self.reg(*destination).wrapping_mul(self.reg(*source));
                    self.set(*destination, value);
                }
                Instruction::Negate(register) => {
                    let value = self.reg(*register).wrapping_neg();
                    self.set(*register, value);
                }
                Instruction::BitwiseNot(register) => {
                    let value = !self.reg(*register);
                    self.set(*register, value);
                }
                Instruction::Bitwise { operation, source, destination } => {
                    let (a, b) = (self.reg(*destination), self.reg(*source));
                    let value = match operation {
                        BitwiseOperation::And => a & b,
                        BitwiseOperation::Or => a | b,
                        BitwiseOperation::Xor => a ^ b,
                    };
                    self.set(*destination, value);
                    self.logic_flags(value);
                }
                Instruction::Test(register) => {
                    let value = self.reg(*register);
                    self.logic_flags(value);
                }
                Instruction::Compare { source, destination } => {
                    let (a, b) = (self.reg(*destination), self.reg(*source));
                    let (difference, overflow) = (a as i64).overflowing_sub(b as i64);
                    self.flags = Flags {
                        zero: a == b,
                        sign: difference < 0,
                        carry: a < b,
                        overflow,
                    };
                }
                Instruction::SetCondition { condition, destination } => {
                    let value = u64::from(self.condition(*condition));
                    self.set_byte(*destination, value);
                }
                Instruction::ZeroExtendByte { source, destination } => {
                    let value = self.byte(*source);
                    self.set(*destination, value);
                }
                Instruction::Shift { operation, destination } => {
                    let count = (self.reg(Register::Rcx) & 63) as u32;
                    let value = self.reg(*destination);
                    let shifted = match operation {
                        ShiftOperation::Left => value << count,
                        ShiftOperation::ArithmeticRight => ((value as i64) >> count) as u64,
                        ShiftOperation::LogicalRight => value >> count,
                    };
                    self.set(*destination, shifted);
                }
                Instruction::SignExtendDividend => {
                    let high = if (self.reg(Register::Rax) as i64) < 0 { u64::MAX } else { 0 };
                    self.set(Register::Rdx, high);
                }
                Instruction::IntegerDivide { flavor, divisor } => {
                    let divisor = self.reg(*divisor);
                    let dividend =
                        ((self.reg(Register::Rdx) as u128) << 64) | self.reg(Register::Rax) as u128;
                    let (quotient, remainder) = match flavor {
                        IntegerDivideFlavor::Unsigned => {
                            if divisor == 0 {
                                return Err("divide by zero".into());
                            }
                            ((dividend / divisor as u128) as u64, (dividend % divisor as u128) as u64)
                        }
                        IntegerDivideFlavor::Signed => {
                            let dividend = dividend as i128;
                            let divisor = divisor as i64 as i128;
                            if divisor == 0 {
                                return Err("divide by zero".into());
                            }
                            let quotient = dividend / divisor;
                            if quotient > i64::MAX as i128 || quotient < i64::MIN as i128 {
                                return Err("quotient overflow".into());
                            }
                            (quotient as i64 as u64, (dividend % divisor) as i64 as u64)
                        }
                    };
                    self.set(Register::Rax, quotient);
                    self.set(Register::Rdx, remainder);
                }
                Instruction::Jump(label) => next = target(label)?,
                Instruction::JumpIfEqual(label) => {
                    if self.flags.zero {
                        next = target(label)?;
                    }
                }
                Instruction::JumpIfNotZero(label) => {
                    if !self.flags.zero {
                        next = target(label)?;
                    }
                }
                Instruction::JumpIfNotSign(label) => {
                    if !self.flags.sign {
                        next = target(label)?;
                    }
                }
                Instruction::JumpIfBelow(label) => {
                    if self.flags.carry {
                        next = target(label)?;
                    }
                }
                other => panic!("instruction outside the modelled subset: {other:?}"),
            }
            pc = next;
        }
        Ok(())
    }
}

fn frame() -> FrameLayout {
    FrameLayout {
        size: 64,
        storage_offsets: vec![-40, -48],
        object_origins: vec![None, None],
        value_offsets: vec![-8, -16, -24],
    }
}

fn home(index: usize) -> u64 {
    FRAME - 8 * (index as u64 + 1)
}

fn destination() -> Operand {
    Operand::Memory { base: Register::Rbp, displacement: -24 }
}

fn floor_division(a: i64, b: i64) -> (i64, i64) {
    if a == i64::MIN && b == -1 {
        return (i64::MIN, 0);
    }
    let (mut quotient, mut remainder) = (a / b, a % b);
    if remainder != 0 && ((remainder < 0) != (b < 0)) {
        quotient -= 1;
        remainder += b;
    }
    (quotient, remainder)
}

fn divide(operand: MirIntegerType, kind: MirIntegerDivisionKind, a: u64, b: u64) -> u64 {
    let block = BlockId { callable: CallableId::Function(FunctionId::new(1)), idx: 3 };
    let mut sequence = 0;
    let mut output = vec![];
    select_integer_division(
        &frame(),
        block,
        &mut sequence,
        MirIntegerDivisionOperation { kind, operand },
        ValueId::new(0),
        ValueId::new(1),
        MirType::I64,
        destination(),
        &mut output,
    );
    let mut machine = Machine::new();
    machine.memory.insert(home(0), a);
    machine.memory.insert(home(1), b);
    machine.run(&output).unwrap();
    machine.memory[&home(2)]
}

#[test]
fn signed_division_floors_and_handles_the_overflowing_pair() {
    let values = [i64::MIN, i64::MIN + 1, -17, -7, -1, 0, 1, 3, 7, 17, i64::MAX];
    for a in values {
        for b in values {
            if b == 0 {
                continue;
            }
            let (quotient, remainder) = floor_division(a, b);
            assert_eq!(
                divide(MirIntegerType::I64, MirIntegerDivisionKind::Quotient, a as u64, b as u64),
                quotient as u64,
                "{a} / {b}"
            );
            assert_eq!(
                divide(MirIntegerType::I64, MirIntegerDivisionKind::Remainder, a as u64, b as u64),
                remainder as u64,
                "{a} % {b}"
            );
        }
    }
}

#[test]
fn unsigned_division_uses_the_full_width() {
    assert_eq!(divide(MirIntegerType::U64, MirIntegerDivisionKind::Quotient, u64::MAX, 2), u64::MAX / 2);
    assert_eq!(divide(MirIntegerType::U64, MirIntegerDivisionKind::Remainder, u64::MAX, 10), 5);
}

#[test]
fn division_labels_are_numbered_per_block_sequence() {
    let block = BlockId { callable: CallableId::Function(FunctionId::new(1)), idx: 3 };
    let mut sequence = 4;
    let mut output = vec![];
    select_integer_division(
        &frame(),
        block,
        &mut sequence,
        MirIntegerDivisionOperation {
            kind: MirIntegerDivisionKind::Quotient,
            operand: MirIntegerType::I64,
        },
        ValueId::new(0),
        ValueId::new(1),
        MirType::I64,
        destination(),
        &mut output,
    );
    assert_eq!(sequence, 7);
    assert!(output.contains(&Instruction::Label(Label::new(
        ".Lska.ska_function_1.integer_division_3_4_ordinary".into()
    ))));
    assert!(output.contains(&Instruction::Label(Label::new(
        ".Lska.ska_function_1.integer_division_3_6_result_ready".into()
    ))));
}

fn compare(operand: MirComparisonOperand, predicate: MirComparisonPredicate, a: u64, b: u64) -> u64 {
    let mut output = vec![];
    select_primitive_comparison(
        &frame(),
        MirPrimitiveComparison { predicate, operand },
        ValueId::new(0),
        ValueId::new(1),
        destination(),
        &mut output,
    );
    let mut machine = Machine::new();
    machine.memory.insert(home(0), a);
    machine.memory.insert(home(1), b);
    machine.run(&output).unwrap();
    machine.memory[&home(2)]
}

#[test]
fn integer_comparisons_follow_signedness() {
    let signed = MirComparisonOperand::Integer(MirIntegerType::I64);
    let unsigned = MirComparisonOperand::Integer(MirIntegerType::U64);
    assert_eq!(compare(signed, MirComparisonPredicate::LessThan, (-1_i64) as u64, 1), 1);
    assert_eq!(compare(unsigned, MirComparisonPredicate::LessThan, (-1_i64) as u64, 1), 0);
    assert_eq!(compare(signed, MirComparisonPredicate::GreaterEqual, 5, 5), 1);
    assert_eq!(compare(MirComparisonOperand::Bool, MirComparisonPredicate::NotEqual, 1, 0), 1);
}

#[test]
fn arithmetic_wraps_and_bytes_stay_canonical() {
    let mut output = vec![];
    select_binary(&frame(), MirBinaryOperation::AddU8, ValueId::new(0), ValueId::new(1), MirType::U8, destination(), &mut output);
    let mut machine = Machine::new();
    machine.memory.insert(home(0), 200);
    machine.memory.insert(home(1), 100);
    machine.run(&output).unwrap();
    assert_eq!(machine.memory[&home(2)], 44);

    let mut output = vec![];
    select_unary(&frame(), MirUnaryOperation::LogicalNotBool, ValueId::new(0), MirType::Bool, destination(), &mut output);
    let mut machine = Machine::new();
    machine.memory.insert(home(0), 0);
    machine.run(&output).unwrap();
    assert_eq!(machine.memory[&home(2)], 1);

    let mut output = vec![];
    select_integer_constant(0x1ff, MirType::U8, destination(), &mut output);
    let mut machine = Machine::new();
    machine.run(&output).unwrap();
    assert_eq!(machine.memory[&home(2)], 0xff);
}

#[test]
fn shifts_pick_their_flavor_from_signedness() {
    for (direction, operand, value, expected) in [
        (MirShiftDirection::Left, MirIntegerType::U64, 3_u64, 24_u64),
        (MirShiftDirection::Right, MirIntegerType::I64, (-16_i64) as u64, (-2_i64) as u64),
        (MirShiftDirection::Right, MirIntegerType::U64, (-16_i64) as u64, u64::MAX >> 3 & !1),
    ] {
        let mut output = vec![];
        select_shift(
            &frame(),
            MirShiftOperation { direction, operand },
            ValueId::new(0),
            ValueId::new(1),
            MirType::I64,
            destination(),
            &mut output,
        );
        let mut machine = Machine::new();
        machine.memory.insert(home(0), value);
        machine.memory.insert(home(1), 3);
        machine.run(&output).unwrap();
        assert_eq!(machine.memory[&home(2)], expected);
    }
}

#[test]
fn checked_terminators_branch_on_the_check() {
    let callable = CallableId::Function(FunctionId::new(0));
    let success = BlockId { callable, idx: 1 };
    let failure = BlockId { callable, idx: 2 };
    let shift = MirTerminator::ShiftCountCheck {
        check: MirShiftCountCheck {
            count: StorageId::new(0),
            operation: MirShiftOperation {
                direction: MirShiftDirection::Left,
                operand: MirIntegerType::U8,
            },
        },
        success_target: success,
        failure_target: failure,
    };
    let mut output = vec![];
    assert!(select_shift_terminator(&frame(), &shift, &mut output));
    assert_eq!(output[1], Instruction::MoveImmediate64 { bits: 8, destination: Register::R11 });
    assert_eq!(output[3], Instruction::JumpIfBelow(Label::new(".Lska.ska_function_0.block_1".into())));
    assert!(!select_integer_division_terminator(&frame(), &shift, &mut output));
    assert_eq!(output.len(), 5);

    let divisor = MirTerminator::IntegerDivisorCheck {
        check: MirIntegerDivisorCheck { divisor: StorageId::new(1) },
        success_target: success,
        failure_target: failure,
    };
    let mut output = vec![];
    assert!(select_integer_division_terminator(&frame(), &divisor, &mut output));
    assert_eq!(
        output,
        vec![
            Instruction::Move {
                source: Operand::Memory { base: Register::Rbp, displacement: -48 },
                destination: Operand::Register(Register::Rax),
            },
            Instruction::Test(Register::Rax),
            Instruction::JumpIfNotZero(Label::new(".Lska.ska_function_0.block_1".into())),
            Instruction::Jump(Label::new(".Lska.ska_function_0.block_2".into())),
        ]
    );
}
