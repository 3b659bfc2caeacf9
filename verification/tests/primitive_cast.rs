use std::collections::HashMap;

use skald_compiler::body::{
    BlockId, MirF64ToIntegerRange, MirIntegerType, MirPrimitiveCast, MirPrimitiveCastKind,
    MirPrimitiveCastRangeCheck, MirTerminator,
};
use skald_compiler::frame::FrameLayout;
use skald_compiler::identity::{CallableId, FunctionId, StorageId, ValueId};
use skald_compiler::machine::{
    BitwiseOperation, ByteRegister, ConditionCode, FloatOperand, Instruction, Label, Operand,
    Register, ShiftOperation, XmmRegister,
};
use skald_compiler::body::MirPrimitiveCastKind::{
    BitReinterpretation, FromBool, Identity, IntegerBits, ToBool, ToF64,
};
use skald_compiler::mir::MirPrimitiveType::{Bool, F64, I64, U64, U8};
use skald_compiler::mir::{MirPrimitiveType, MirType};
use skald_compiler::primitive_cast::{
    next_primitive_cast_label, select_checked_f64_to_integer, select_primitive_cast,
    select_primitive_cast_terminator,
};

// Integer and SSE semantics of the selected instructions, enough to run the
// cast listings.

fn slot(register: Register) -> usize {
    match register {
        Register::Rax => 0,
        Register::Rcx => 1,
        Register::Rdx => 2,
        Register::Rbx => 3,
        Register::Rsp => 4,
        Register::Rbp => 5,
        Register::Rsi => 6,
        Register::Rdi => 7,
        Register::R8 => 8,
        Register::R9 => 9,
        Register::R10 => 10,
        Register::R11 => 11,
        Register::R12 => 12,
        Register::R13 => 13,
        Register::R14 => 14,
        Register::R15 => 15,
    }
}

fn xmm(register: XmmRegister) -> usize {
    match register {
        XmmRegister::Xmm0 => 0,
        XmmRegister::Xmm1 => 1,
        XmmRegister::Xmm2 => 2,
        XmmRegister::Xmm3 => 3,
        XmmRegister::Xmm4 => 4,
        XmmRegister::Xmm5 => 5,
        XmmRegister::Xmm6 => 6,
        XmmRegister::Xmm7 => 7,
        XmmRegister::Xmm8 => 8,
        XmmRegister::Xmm9 => 9,
        XmmRegister::Xmm10 => 10,
        XmmRegister::Xmm11 => 11,
        XmmRegister::Xmm12 => 12,
        XmmRegister::Xmm13 => 13,
        XmmRegister::Xmm14 => 14,
        XmmRegister::Xmm15 => 15,
    }
}

#[derive(Default)]
struct Flags {
    zero: bool,
    sign: bool,
    carry: bool,
    parity: bool,
}

struct Machine {
    registers: [u64; 16],
    vectors: [u64; 16],
    memory: HashMap<u64, u64>,
    flags: Flags,
}

const FRAME: u64 = 0x7000_0000;

impl Machine {
    fn new() -> Self {
        let mut registers = [0; 16];
        registers[slot(Register::Rbp)] = FRAME;
        Machine { registers, vectors: [0; 16], memory: HashMap::new(), flags: Flags::default() }
    }

    fn reg(&self, register: Register) -> u64 {
        self.registers[slot(register)]
    }

    fn set(&mut self, register: Register, value: u64) {
        self.registers[slot(register)] = value;
    }

    fn float(&self, register: XmmRegister) -> f64 {
        f64::from_bits(self.vectors[xmm(register)])
    }

    fn set_float(&mut self, register: XmmRegister, value: f64) {
        self.vectors[xmm(register)] = value.to_bits();
    }

    fn byte(&self, register: ByteRegister) -> u64 {
        match register {
            ByteRegister::Al => self.reg(Register::Rax) & 0xff,
            ByteRegister::Cl => self.reg(Register::Rcx) & 0xff,
        }
    }

    fn set_byte(&mut self, register: ByteRegister, value: u64) {
        let full = match register {
            ByteRegister::Al => Register::Rax,
            ByteRegister::Cl => Register::Rcx,
        };
        let merged = (self.reg(full) & !0xff) | (value & 0xff);
        self.set(full, merged);
    }

    fn word(&self, base: Register, displacement: i32) -> u64 {
        let address = self.reg(base).wrapping_add(displacement as i64 as u64);
        *self.memory.get(&address).unwrap_or(&0)
    }

    fn set_word(&mut self, base: Register, displacement: i32, value: u64) {
        let address = self.reg(base).wrapping_add(displacement as i64 as u64);
        self.memory.insert(address, value);
    }

    fn read(&self, operand: Operand) -> u64 {
        match operand {
            Operand::Register(register) => self.reg(register),
            Operand::Memory { base, displacement } => self.word(base, displacement),
            other => panic!("no value for {other:?}"),
        }
    }

    fn write(&mut self, operand: Operand, value: u64) {
        match operand {
            Operand::Register(register) => self.set(register, value),
            Operand::Memory { base, displacement } => self.set_word(base, displacement, value),
            other => panic!("no place for {other:?}"),
        }
    }

    fn read_float(&self, operand: FloatOperand) -> u64 {
        match operand {
            FloatOperand::Register(register) => self.vectors[xmm(register)],
            FloatOperand::Memory { base, displacement } => self.word(base, displacement),
        }
    }

    fn write_float(&mut self, operand: FloatOperand, bits: u64) {
        match operand {
            FloatOperand::Register(register) => self.vectors[xmm(register)] = bits,
            FloatOperand::Memory { base, displacement } => self.set_word(base, displacement, bits),
        }
    }

    fn logic_flags(&mut self, result: u64) {
        self.flags =
            Flags { zero: result == 0, sign: (result as i64) < 0, carry: false, parity: false };
    }

    fn condition(&self, condition: ConditionCode) -> bool {
        let f = &self.flags;
        match condition {
            ConditionCode::Equal => f.zero,
            ConditionCode::NotEqual => !f.zero,
            ConditionCode::UnsignedBelow => f.carry,
            ConditionCode::UnsignedBelowEqual => f.carry || f.zero,
            ConditionCode::UnsignedAbove => !f.carry && !f.zero,
            ConditionCode::UnsignedAboveEqual => !f.carry,
            ConditionCode::Parity => f.parity,
            ConditionCode::NotParity => !f.parity,
            other => panic!("no signed flag model for {other:?}"),
        }
    }

    /// Runs the listing and names the block label that ended the run, if a
    /// jump left it.
    fn run(&mut self, listing: &[Instruction]) -> Option<String> {
        let labels: HashMap<String, usize> = listing
            .iter()
            .enumerate()
            .filter_map(|(index, instruction)| match instruction {
                Instruction::Label(label) => Some((label.text.clone(), index)),
                _ => None,
            })
            .collect();
        let mut pc = 0;
        while pc < listing.len() {
            let mut jump: Option<&Label> = None;
            match &listing[pc] {
                Instruction::Label(_) => {}
                Instruction::Move { source, destination } => {
                    let value = self.read(*source);
                    self.write(*destination, value);
                }
                Instruction::MoveImmediate64 { bits, destination } => self.set(*destination, *bits),
                Instruction::MoveBitsToFloat { source, destination } => {
                    self.vectors[xmm(*destination)] = self.reg(*source);
                }
                Instruction::MoveFloatBitsToInteger { source, destination } => {
                    let bits = self.vectors[xmm(*source)];
                    self.set(*destination, bits);
                }
                Instruction::MoveFloat64 { source, destination } => {
                    let bits = self.read_float(*source);
                    self.write_float(*destination, bits);
                }
                Instruction::XorFloat128 { source, destination } => {
                    self.vectors[xmm(*destination)] ^= self.vectors[xmm(*source)];
                }
                Instruction::AddFloat64 { source, destination } => {
                    let value = self.float(*destination) + self.float(*source);
                    self.set_float(*destination, value);
                }
                Instruction::SubtractFloat64 { source, destination } => {
                    let value = self.float(*destination) - self.float(*source);
                    self.set_float(*destination, value);
                }
                Instruction::CompareFloat64 { source, destination } => {
                    let (a, b) = (self.float(*destination), self.float(*source));
                    self.flags = if a.is_nan() || b.is_nan() {
                        Flags { zero: true, sign: false, carry: true, parity: true }
                    } else {
                        Flags { zero: a == b, sign: false, carry: a < b, parity: false }
                    };
                }
                Instruction::ConvertSignedIntegerToFloat64 { source, destination } => {
                    let value = self.reg(*source) as i64 as f64;
                    self.set_float(*destination, value);
                }
                Instruction::ConvertFloat64ToSignedInteger { source, destination } => {
                    let value = self.float(*source).trunc();
                    let result = if value.is_nan() || value < -9.223372036854775808e18
                        || value >= 9.223372036854775808e18
                    {
                        0x8000_0000_0000_0000
                    } else {
                        value as i64 as u64
                    };
                    self.set(*destination, result);
                }
                Instruction::Bitwise { operation, source, destination } => {
                    let (a, b) = (self.reg(*destination), self.reg(*source));
                    let value = match operation {
                        BitwiseOperation::And => a & b,
                        BitwiseOperation::Or => a | b,
                        BitwiseOperation::Xor => a ^ b,
                    };
                    self.set(*destination, value);
                    self.logic_flags(value);
                }
                Instruction::ByteBitwise { operation, source, destination } => {
                    let (a, b) = (self.byte(*destination), self.byte(*source));
                    let value = match operation {
                        BitwiseOperation::And => a & b,
                        BitwiseOperation::Or => a | b,
                        BitwiseOperation::Xor => a ^ b,
                    };
                    self.set_byte(*destination, value);
                }
                Instruction::Test(register) => {
                    let value = self.reg(*register);
                    self.logic_flags(value);
                }
                Instruction::SetCondition { condition, destination } => {
                    let value = u64::from(self.condition(*condition));
                    self.set_byte(*destination, value);
                }
                Instruction::ZeroExtendByte { source, destination } => {
                    let value = self.byte(*source);
                    self.set(*destination, value);
                }
                Instruction::Shift { operation, destination } => {
                    let count = (self.reg(Register::Rcx) & 63) as u32;
                    let value = self.reg(*destination);
                    let shifted = match operation {
                        ShiftOperation::Left => value << count,
                        ShiftOperation::ArithmeticRight => ((value as i64) >> count) as u64,
                        ShiftOperation::LogicalRight => value >> count,
                    };
                    self.set(*destination, shifted);
                }
                Instruction::Jump(label) => jump = Some(label),
                Instruction::JumpIf { condition, target } => {
                    if self.condition(*condition) {
                        jump = Some(target);
                    }
                }
                Instruction::JumpIfNotSign(label) => {
                    if !self.flags.sign {
                        jump = Some(label);
                    }
                }
                other => panic!("instruction outside the modelled subset: {other:?}"),
            }
            pc += 1;
            if let Some(label) = jump {
                match labels.get(&label.text) {
                    Some(index) => pc = *index,
                    None => return Some(label.text.clone()),
                }
            }
        }
        None
    }
}

fn frame() -> FrameLayout {
    FrameLayout {
        size: 64,
        storage_offsets: vec![-40, -48],
        object_origins: vec![None, None],
        value_offsets: vec![-8, -16, -24],
    }
}

fn destination() -> Operand {
    Operand::Memory { base: Register::Rbp, displacement: -24 }
}

fn block(idx: usize) -> BlockId {
    BlockId { callable: CallableId::Function(FunctionId::new(0)), idx }
}

fn cast(source: MirPrimitiveType, target: MirPrimitiveType, kind: MirPrimitiveCastKind) -> MirPrimitiveCast {
    MirPrimitiveCast { source, target, kind }
}

/// Runs an unchecked cast of the word `input` and returns the stored word.
fn run_cast(operation: MirPrimitiveCast, input: u64) -> u64 {
    let mut output = vec![];
    let mut sequence = 0;
    select_primitive_cast(
        &frame(),
        block(3),
        &mut sequence,
        operation,
        ValueId::new(0),
        destination(),
        &mut output,
    );
    let mut machine = Machine::new();
    machine.set_word(Register::Rbp, -8, input);
    machine.set_word(Register::Rbp, -24, 0xdead_beef_dead_beef);
    assert_eq!(machine.run(&output), None);
    machine.word(Register::Rbp, -24)
}

#[test]
fn integer_casts_store_the_canonical_target_word() {
    assert_eq!(run_cast(cast(I64, I64, Identity), (-5_i64) as u64), (-5_i64) as u64);
    assert_eq!(run_cast(cast(I64, U8, IntegerBits), 0x1234_5678_9abc_def0), 0xf0);
    assert_eq!(run_cast(cast(I64, U64, IntegerBits), (-1_i64) as u64), u64::MAX);
    assert_eq!(run_cast(cast(U8, I64, IntegerBits), 0xff), 0xff);
    assert_eq!(run_cast(cast(Bool, I64, FromBool), 1), 1);
    assert_eq!(run_cast(cast(Bool, U8, FromBool), 0), 0);
}

#[test]
fn boolean_casts_test_against_zero_and_treat_nan_as_true() {
    assert_eq!(run_cast(cast(I64, Bool, ToBool), 0), 0);
    assert_eq!(run_cast(cast(I64, Bool, ToBool), 1 << 40), 1);
    assert_eq!(run_cast(cast(U8, Bool, ToBool), 7), 1);
    for (value, expected) in
        [(0.0_f64, 0), (-0.0, 0), (2.5, 1), (-1e-300, 1), (f64::NAN, 1), (f64::INFINITY, 1)]
    {
        assert_eq!(run_cast(cast(F64, Bool, ToBool), value.to_bits()), expected, "{value}");
    }
}

#[test]
fn conversions_to_f64_round_as_a_direct_conversion() {
    for value in [0_u64, 1, 1 << 53, (1 << 53) + 1, i64::MAX as u64, 1 << 63, (1 << 63) + 1,
        (1 << 63) + 1024, (1 << 63) + 1025, (1 << 63) + 3 * 1024, u64::MAX - 1023, u64::MAX]
    {
        let stored = run_cast(cast(U64, F64, ToF64), value);
        assert_eq!(f64::from_bits(stored), value as f64, "{value}");
    }
    for value in [i64::MIN, -3, 0, 9_007_199_254_740_993] {
        let stored = run_cast(cast(I64, F64, ToF64), value as u64);
        assert_eq!(f64::from_bits(stored), value as f64);
    }
    assert_eq!(f64::from_bits(run_cast(cast(U8, F64, ToF64), 200)), 200.0);
    assert_eq!(f64::from_bits(run_cast(cast(Bool, F64, ToF64), 1)), 1.0);
}

#[test]
fn float_identity_and_bit_reinterpretation_keep_every_bit() {
    let quiet_nan = 0x7ff8_0000_0000_1234;
    assert_eq!(run_cast(cast(F64, F64, Identity), quiet_nan), quiet_nan);
    assert_eq!(run_cast(cast(F64, U64, BitReinterpretation), (-2.5_f64).to_bits()), (-2.5_f64).to_bits());
    assert_eq!(run_cast(cast(U64, F64, BitReinterpretation), 0x3ff0_0000_0000_0000), 1.0_f64.to_bits());
}

#[test]
fn unsigned_conversion_labels_take_two_sequence_numbers() {
    let mut output = vec![];
    let mut sequence = 5;
    select_primitive_cast(
        &frame(),
        block(3),
        &mut sequence,
        cast(MirPrimitiveType::U64, MirPrimitiveType::F64, MirPrimitiveCastKind::ToF64),
        ValueId::new(1),
        destination(),
        &mut output,
    );
    assert_eq!(sequence, 7);
    assert!(output.contains(&Instruction::Label(Label::new(
        ".Lska.ska_function_0.primitive_cast_3_5_u64_signed_domain".into()
    ))));
    assert!(output.contains(&Instruction::Label(Label::new(
        ".Lska.ska_function_0.primitive_cast_3_6_u64_result_ready".into()
    ))));
    let mut sequence = 0;
    select_primitive_cast(
        &frame(),
        block(3),
        &mut sequence,
        cast(MirPrimitiveType::I64, MirPrimitiveType::F64, MirPrimitiveCastKind::ToF64),
        ValueId::new(1),
        destination(),
        &mut output,
    );
    assert_eq!(sequence, 0);
    let mut sequence = 41;
    let label = next_primitive_cast_label(block(2), &mut sequence, "tail");
    assert_eq!(label.text, ".Lska.ska_function_0.primitive_cast_2_41_tail");
    assert_eq!(sequence, 42);
}

/// Runs the range check of a checked cast on `value` and names the block it
/// continues at.
fn range_check(target: MirIntegerType, value: f64) -> String {
    let terminator = MirTerminator::PrimitiveCastRangeCheck {
        check: MirPrimitiveCastRangeCheck {
            source: StorageId::new(1),
            relation: MirF64ToIntegerRange { target },
        },
        success_target: block(1),
        failure_target: block(2),
    };
    let mut output = vec![];
    assert!(select_primitive_cast_terminator(&frame(), &terminator, &mut output));
    let mut machine = Machine::new();
    machine.set_word(Register::Rbp, -48, value.to_bits());
    machine.run(&output).expect("the check always leaves its block")
}

const SUCCESS: &str = ".Lska.ska_function_0.block_1";
const FAILURE: &str = ".Lska.ska_function_0.block_2";

#[test]
fn range_checks_admit_exactly_the_values_whose_truncation_fits() {
    let two_63 = 9_223_372_036_854_775_808.0_f64;
    let cases = [
        (MirIntegerType::I64, -two_63, SUCCESS),
        (MirIntegerType::I64, -two_63 - 2048.0, FAILURE),
        (MirIntegerType::I64, two_63 - 1024.0, SUCCESS),
        (MirIntegerType::I64, two_63, FAILURE),
        (MirIntegerType::I64, f64::NAN, FAILURE),
        (MirIntegerType::U64, -0.999, SUCCESS),
        (MirIntegerType::U64, -1.0, FAILURE),
        (MirIntegerType::U64, 2.0 * two_63 - 2048.0, SUCCESS),
        (MirIntegerType::U64, 2.0 * two_63, FAILURE),
        (MirIntegerType::U64, f64::INFINITY, FAILURE),
        (MirIntegerType::U8, 255.9, SUCCESS),
        (MirIntegerType::U8, 256.0, FAILURE),
        (MirIntegerType::U8, f64::NEG_INFINITY, FAILURE),
    ];
    for (target, value, expected) in cases {
        assert_eq!(range_check(target, value), expected, "{target:?} {value}");
    }
    let mut output = vec![];
    assert!(!select_primitive_cast_terminator(
        &frame(),
        &MirTerminator::Goto { target: block(1) },
        &mut output
    ));
    assert!(output.is_empty());
}

/// Runs a checked conversion, after its range check passed, on `value`.
fn checked(target: MirIntegerType, ty: MirType, value: f64) -> u64 {
    let mut output = vec![];
    let mut sequence = 0;
    select_checked_f64_to_integer(
        &frame(),
        block(4),
        &mut sequence,
        MirF64ToIntegerRange { target },
        ValueId::new(0),
        ty,
        destination(),
        &mut output,
    );
    let expected_labels = if target == MirIntegerType::U64 { 2 } else { 0 };
    assert_eq!(sequence, expected_labels);
    let mut machine = Machine::new();
    machine.set_word(Register::Rbp, -8, value.to_bits());
    assert_eq!(machine.run(&output), None);
    machine.word(Register::Rbp, -24)
}

#[test]
fn checked_conversions_truncate_toward_zero() {
    let two_63 = 9_223_372_036_854_775_808.0_f64;
    assert_eq!(checked(MirIntegerType::I64, MirType::I64, -7.9), (-7_i64) as u64);
    assert_eq!(checked(MirIntegerType::I64, MirType::I64, -two_63), i64::MIN as u64);
    assert_eq!(checked(MirIntegerType::U64, MirType::U64, 12.7), 12);
    assert_eq!(checked(MirIntegerType::U64, MirType::U64, -0.5), 0);
    assert_eq!(checked(MirIntegerType::U64, MirType::U64, two_63), 1 << 63);
    assert_eq!(checked(MirIntegerType::U64, MirType::U64, two_63 + 4096.0), (1 << 63) + 4096);
    assert_eq!(
        checked(MirIntegerType::U64, MirType::U64, 2.0 * two_63 - 2048.0),
        u64::MAX - 2047
    );
    assert_eq!(checked(MirIntegerType::U8, MirType::U8, 255.9), 255);
}
