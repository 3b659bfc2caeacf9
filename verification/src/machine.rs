//! The x86-64 machine model: registers, operands, instructions, and the
//! assembly program that textual emission renders.

use vstd::prelude::*;

use crate::identity::StaticFieldId;

verus! {

/// A 64-bit general-purpose register.
#[derive(Clone, Copy, Debug, PartialEq, Eq, Structural)]
pub enum Register {
    Rax,
    Rcx,
    Rdx,
    Rbx,
    Rsp,
    Rbp,
    Rsi,
    Rdi,
    R8,
    R9,
    R10,
    R11,
    R12,
    R13,
    R14,
    R15,
}

/// The assembler spelling of a general-purpose register.
pub open spec fn register_name(register: Register) -> Seq<char> {
    match register {
        Register::Rax => "rax"@,
        Register::Rcx => "rcx"@,
        Register::Rdx => "rdx"@,
        Register::Rbx => "rbx"@,
        Register::Rsp => "rsp"@,
        Register::Rbp => "rbp"@,
        Register::Rsi => "rsi"@,
        Register::Rdi => "rdi"@,
        Register::R8 => "r8"@,
        Register::R9 => "r9"@,
        Register::R10 => "r10"@,
        Register::R11 => "r11"@,
        Register::R12 => "r12"@,
        Register::R13 => "r13"@,
        Register::R14 => "r14"@,
        Register::R15 => "r15"@,
    }
}

impl Register {
    pub fn name(self) -> (r: &'static str)
        ensures
            r@ == register_name(self),
    {
        match self {
            Register::Rax => "rax",
            Register::Rcx => "rcx",
            Register::Rdx => "rdx",
            Register::Rbx => "rbx",
            Register::Rsp => "rsp",
            Register::Rbp => "rbp",
            Register::Rsi => "rsi",
            Register::Rdi => "rdi",
            Register::R8 => "r8",
            Register::R9 => "r9",
            Register::R10 => "r10",
            Register::R11 => "r11",
            Register::R12 => "r12",
            Register::R13 => "r13",
            Register::R14 => "r14",
            Register::R15 => "r15",
        }
    }
}

/// A 128-bit SSE register.
#[derive(Clone, Copy, Debug, PartialEq, Eq, Structural)]
pub enum XmmRegister {
    Xmm0,
    Xmm1,
    Xmm2,
    Xmm3,
    Xmm4,
    Xmm5,
    Xmm6,
    Xmm7,
    Xmm8,
    Xmm9,
    Xmm10,
    Xmm11,
    Xmm12,
    Xmm13,
    Xmm14,
    Xmm15,
}

/// The assembler spelling of an SSE register.
pub open spec fn xmm_register_name(register: XmmRegister) -> Seq<char> {
    match register {
        XmmRegister::Xmm0 => "xmm0"@,
        XmmRegister::Xmm1 => "xmm1"@,
        XmmRegister::Xmm2 => "xmm2"@,
        XmmRegister::Xmm3 => "xmm3"@,
        XmmRegister::Xmm4 => "xmm4"@,
        XmmRegister::Xmm5 => "xmm5"@,
        XmmRegister::Xmm6 => "xmm6"@,
        XmmRegister::Xmm7 => "xmm7"@,
        XmmRegister::Xmm8 => "xmm8"@,
        XmmRegister::Xmm9 => "xmm9"@,
        XmmRegister::Xmm10 => "xmm10"@,
        XmmRegister::Xmm11 => "xmm11"@,
        XmmRegister::Xmm12 => "xmm12"@,
        XmmRegister::Xmm13 => "xmm13"@,
        XmmRegister::Xmm14 => "xmm14"@,
        XmmRegister::Xmm15 => "xmm15"@,
    }
}

impl XmmRegister {
    pub fn name(self) -> (r: &'static str)
        ensures
            r@ == xmm_register_name(self),
    {
        match self {
            XmmRegister::Xmm0 => "xmm0",
            XmmRegister::Xmm1 => "xmm1",
            XmmRegister::Xmm2 => "xmm2",
            XmmRegister::Xmm3 => "xmm3",
            XmmRegister::Xmm4 => "xmm4",
            XmmRegister::Xmm5 => "xmm5",
            XmmRegister::Xmm6 => "xmm6",
            XmmRegister::Xmm7 => "xmm7",
            XmmRegister::Xmm8 => "xmm8",
            XmmRegister::Xmm9 => "xmm9",
            XmmRegister::Xmm10 => "xmm10",
            XmmRegister::Xmm11 => "xmm11",
            XmmRegister::Xmm12 => "xmm12",
            XmmRegister::Xmm13 => "xmm13",
            XmmRegister::Xmm14 => "xmm14",
            XmmRegister::Xmm15 => "xmm15",
        }
    }
}

/// An 8-bit register used for byte stores.
#[derive(Clone, Copy, Debug, PartialEq, Eq, Structural)]
pub enum ByteRegister {
    Al,
    Cl,
}

pub open spec fn byte_register_name(register: ByteRegister) -> Seq<char> {
    match register {
        ByteRegister::Al => "al"@,
        ByteRegister::Cl => "cl"@,
    }
}

impl ByteRegister {
    pub fn name(self) -> (r: &'static str)
        ensures
            r@ == byte_register_name(self),
    {
        match self {
            ByteRegister::Al => "al",
            ByteRegister::Cl => "cl",
        }
    }
}

/// An assembler-local label.
#[derive(Clone, Debug, PartialEq, Eq)]
pub struct Label {
    pub text: String,
}

impl Label {
    pub fn new(text: String) -> (r: Self)
        ensures
            r.text@ == text@,
    {
        Label { text }
    }

    pub fn name(&self) -> (r: &str)
        ensures
            r@ == self.text@,
    {
        self.text.as_str()
    }

    /// Another label with the same text.
    pub fn duplicate(&self) -> (r: Self)
        ensures
            r == *self,
    {
        Label { text: self.text.clone() }
    }
}

/// A general-purpose operand: a register or a memory location.
#[derive(Clone, Copy, Debug, PartialEq, Eq, Structural)]
pub enum Operand {
    Register(Register),
    Memory { base: Register, displacement: i32 },
    IndexedMemory { base: Register, index: Register, scale: u8, displacement: i32 },
}

/// An SSE operand: a register or a memory location.
#[derive(Clone, Copy, Debug, PartialEq, Eq, Structural)]
pub enum FloatOperand {
    Register(XmmRegister),
    Memory { base: Register, displacement: i32 },
}

/// Condition codes of conditional jumps and flag materialization.
#[derive(Clone, Copy, Debug, PartialEq, Eq, Structural)]
pub enum ConditionCode {
    Equal,
    NotEqual,
    SignedLess,
    SignedLessEqual,
    SignedGreater,
    SignedGreaterEqual,
    UnsignedBelow,
    UnsignedBelowEqual,
    UnsignedAbove,
    UnsignedAboveEqual,
    Parity,
    NotParity,
}

/// Bitwise combinations of two registers.
#[derive(Clone, Copy, Debug, PartialEq, Eq, Structural)]
pub enum BitwiseOperation {
    And,
    Or,
    Xor,
}

pub open spec fn bitwise_mnemonic(operation: BitwiseOperation) -> Seq<char> {
    match operation {
        BitwiseOperation::And => "and"@,
        BitwiseOperation::Or => "or"@,
        BitwiseOperation::Xor => "xor"@,
    }
}

impl BitwiseOperation {
    pub fn mnemonic(self) -> (r: &'static str)
        ensures
            r@ == bitwise_mnemonic(self),
    {
        match self {
            BitwiseOperation::And => "and",
            BitwiseOperation::Or => "or",
            BitwiseOperation::Xor => "xor",
        }
    }
}

/// Shifts of `rax` by the count in `cl`.
#[derive(Clone, Copy, Debug, PartialEq, Eq, Structural)]
pub enum ShiftOperation {
    Left,
    ArithmeticRight,
    LogicalRight,
}

pub open spec fn shift_mnemonic(operation: ShiftOperation) -> Seq<char> {
    match operation {
        ShiftOperation::Left => "shl"@,
        ShiftOperation::ArithmeticRight => "sar"@,
        ShiftOperation::LogicalRight => "shr"@,
    }
}

impl ShiftOperation {
    pub fn mnemonic(self) -> (r: &'static str)
        ensures
            r@ == shift_mnemonic(self),
    {
        match self {
            ShiftOperation::Left => "shl",
            ShiftOperation::ArithmeticRight => "sar",
            ShiftOperation::LogicalRight => "shr",
        }
    }
}

/// Signedness of a 128-by-64-bit division of `rdx:rax`.
#[derive(Clone, Copy, Debug, PartialEq, Eq, Structural)]
pub enum IntegerDivideFlavor {
    Signed,
    Unsigned,
}

pub open spec fn condition_suffix(condition: ConditionCode) -> Seq<char> {
    match condition {
        ConditionCode::Equal => "e"@,
        ConditionCode::NotEqual => "ne"@,
        ConditionCode::SignedLess => "l"@,
        ConditionCode::SignedLessEqual => "le"@,
        ConditionCode::SignedGreater => "g"@,
        ConditionCode::SignedGreaterEqual => "ge"@,
        ConditionCode::UnsignedBelow => "b"@,
        ConditionCode::UnsignedBelowEqual => "be"@,
        ConditionCode::UnsignedAbove => "a"@,
        ConditionCode::UnsignedAboveEqual => "ae"@,
        ConditionCode::Parity => "p"@,
        ConditionCode::NotParity => "np"@,
    }
}

impl ConditionCode {
    /// The conditional-jump mnemonic of the condition.
    pub fn jump_mnemonic(self) -> (r: &'static str)
        ensures
            r@ == "j"@ + condition_suffix(self),
    {
        let r = match self {
            ConditionCode::Equal => "je",
            ConditionCode::NotEqual => "jne",
            ConditionCode::SignedLess => "jl",
            ConditionCode::SignedLessEqual => "jle",
            ConditionCode::SignedGreater => "jg",
            ConditionCode::SignedGreaterEqual => "jge",
            ConditionCode::UnsignedBelow => "jb",
            ConditionCode::UnsignedBelowEqual => "jbe",
            ConditionCode::UnsignedAbove => "ja",
            ConditionCode::UnsignedAboveEqual => "jae",
            ConditionCode::Parity => "jp",
            ConditionCode::NotParity => "jnp",
        };
        proof {
            reveal_strlit("j");
            reveal_strlit("e");
            reveal_strlit("ne");
            reveal_strlit("l");
            reveal_strlit("le");
            reveal_strlit("g");
            reveal_strlit("ge");
            reveal_strlit("b");
            reveal_strlit("be");
            reveal_strlit("a");
            reveal_strlit("ae");
            reveal_strlit("p");
            reveal_strlit("np");
            reveal_strlit("je");
            reveal_strlit("jne");
            reveal_strlit("jl");
            reveal_strlit("jle");
            reveal_strlit("jg");
            reveal_strlit("jge");
            reveal_strlit("jb");
            reveal_strlit("jbe");
            reveal_strlit("ja");
            reveal_strlit("jae");
            reveal_strlit("jp");
            reveal_strlit("jnp");
        }
        assert(r@ =~= "j"@ + condition_suffix(self));
        r
    }

    /// The `setcc` mnemonic of the condition.
    pub fn set_mnemonic(self) -> (r: &'static str)
        ensures
            r@ == "set"@ + condition_suffix(self),
    {
        let r = match self {
            ConditionCode::Equal => "sete",
            ConditionCode::NotEqual => "setne",
            ConditionCode::SignedLess => "setl",
            ConditionCode::SignedLessEqual => "setle",
            ConditionCode::SignedGreater => "setg",
            ConditionCode::SignedGreaterEqual => "setge",
            ConditionCode::UnsignedBelow => "setb",
            ConditionCode::UnsignedBelowEqual => "setbe",
            ConditionCode::UnsignedAbove => "seta",
            ConditionCode::UnsignedAboveEqual => "setae",
            ConditionCode::Parity => "setp",
            ConditionCode::NotParity => "setnp",
        };
        proof {
            reveal_strlit("set");
            reveal_strlit("e");
            reveal_strlit("ne");
            reveal_strlit("l");
            reveal_strlit("le");
            reveal_strlit("g");
            reveal_strlit("ge");
            reveal_strlit("b");
            reveal_strlit("be");
            reveal_strlit("a");
            reveal_strlit("ae");
            reveal_strlit("p");
            reveal_strlit("np");
            reveal_strlit("sete");
            reveal_strlit("setne");
            reveal_strlit("setl");
            reveal_strlit("setle");
            reveal_strlit("setg");
            reveal_strlit("setge");
            reveal_strlit("setb");
            reveal_strlit("setbe");
            reveal_strlit("seta");
            reveal_strlit("setae");
            reveal_strlit("setp");
            reveal_strlit("setnp");
        }
        assert(r@ =~= "set"@ + condition_suffix(self));
        r
    }
}

/// One instruction of the target assembly model.
#[derive(Clone, Debug, PartialEq, Eq)]
pub enum Instruction {
    Label(Label),
    Push(Register),
    Move { source: Operand, destination: Operand },
    MoveByte { source: ByteRegister, destination: Operand },
    LoadEffectiveAddress { source: Operand, destination: Register },
    LoadSymbolAddress { symbol: String, destination: Register },
    LoadRuntimeTraceLocationAddress { symbol: String, destination: Register },
    MoveImmediate64 { bits: u64, destination: Register },
    MoveBitsToFloat { source: Register, destination: XmmRegister },
    MoveFloat64 { source: FloatOperand, destination: FloatOperand },
    ZeroExtendByte { source: ByteRegister, destination: Register },
    LoadZeroExtendByte { source: Operand, destination: Register },
    Add { source: Register, destination: Register },
    Subtract { source: Register, destination: Register },
    Multiply { source: Register, destination: Register },
    Negate(Register),
    BitwiseNot(Register),
    Bitwise { operation: BitwiseOperation, source: Register, destination: Register },
    ByteBitwise { operation: BitwiseOperation, source: ByteRegister, destination: ByteRegister },
    SetCondition { condition: ConditionCode, destination: ByteRegister },
    Shift { operation: ShiftOperation, destination: Register },
    /// Sign-extends `rax` into `rdx:rax`.
    SignExtendDividend,
    IntegerDivide { flavor: IntegerDivideFlavor, divisor: Register },
    AddFloat64 { source: XmmRegister, destination: XmmRegister },
    SubtractFloat64 { source: XmmRegister, destination: XmmRegister },
    MultiplyFloat64 { source: XmmRegister, destination: XmmRegister },
    XorFloat128 { source: XmmRegister, destination: XmmRegister },
    DivideFloat64 { source: XmmRegister, destination: XmmRegister },
    /// Converts a signed integer to `f64`.
    ConvertSignedIntegerToFloat64 { source: Register, destination: XmmRegister },
    /// Converts an `f64` to a signed integer, truncating toward zero.
    ConvertFloat64ToSignedInteger { source: XmmRegister, destination: Register },
    /// Moves the bits of an `f64` to a general register.
    MoveFloatBitsToInteger { source: XmmRegister, destination: Register },
    CompareFloat64 { source: XmmRegister, destination: XmmRegister },
    Test(Register),
    Compare { source: Register, destination: Register },
    ReserveStack(u32),
    ReleaseStack(u32),
    Call(String),
    CallIndirect(Register),
    Jump(Label),
    JumpIfNotZero(Label),
    JumpIfEqual(Label),
    JumpIfBelow(Label),
    JumpIfAbove(Label),
    JumpIfNotSign(Label),
    JumpIf { condition: ConditionCode, target: Label },
    Trap,
    Leave,
    Return,
}

/// One function of the assembly program.
#[derive(Clone, Debug, PartialEq, Eq)]
pub struct AssemblyFunction {
    pub symbol: String,
    pub exported: bool,
    pub instructions: Vec<Instruction>,
}

/// The storage of one static field.
#[derive(Clone, Debug, PartialEq, Eq)]
pub struct AssemblyStaticSlot {
    pub field: StaticFieldId,
    pub symbol: String,
    pub size: usize,
    pub alignment_power: u8,
}

/// A class dispatch table or array metadata object: one quad per entry.
#[derive(Clone, Debug, PartialEq, Eq)]
pub struct AssemblyDispatchTable {
    pub symbol: String,
    pub entries: Vec<Option<String>>,
}

/// The bytes of a pooled literal and the metadata of its array view.
#[derive(Clone, Debug, PartialEq, Eq)]
pub struct AssemblyLiteralBacking {
    pub symbol: String,
    pub metadata_symbol: String,
    pub bytes: Vec<u8>,
}

/// The bytes of one panic message.
#[derive(Clone, Debug, PartialEq, Eq)]
pub struct AssemblyPanicMessage {
    pub symbol: String,
    pub bytes: Vec<u8>,
}

/// One string of runtime trace metadata.
#[derive(Clone, Debug, PartialEq, Eq)]
pub struct AssemblyTraceByteString {
    pub symbol: String,
    pub bytes: Vec<u8>,
}

/// The callable name and source path of one traced context.
#[derive(Clone, Debug, PartialEq, Eq)]
pub struct AssemblyTraceContext {
    pub symbol: String,
    pub name_symbol: String,
    pub name_length: usize,
    pub path_symbol: String,
    pub path_length: usize,
}

/// One traced source location.
#[derive(Clone, Debug, PartialEq, Eq)]
pub struct AssemblyTraceLocation {
    pub symbol: String,
    pub context_symbol: String,
    pub line: u32,
    pub column: u32,
}

/// All runtime trace metadata of a program.
#[derive(Clone, Debug, PartialEq, Eq)]
pub struct AssemblyRuntimeTraceMetadata {
    pub strings: Vec<AssemblyTraceByteString>,
    pub contexts: Vec<AssemblyTraceContext>,
    pub locations: Vec<AssemblyTraceLocation>,
}

impl AssemblyRuntimeTraceMetadata {
    pub fn is_empty(&self) -> (r: bool)
        ensures
            r == (self.strings@.len() == 0 && self.contexts@.len() == 0 && self.locations@.len()
                == 0),
    {
        self.strings.len() == 0 && self.contexts.len() == 0 && self.locations.len() == 0
    }
}

/// The complete target program that textual emission renders.
#[derive(Clone, Debug, PartialEq, Eq)]
pub struct AssemblyProgram {
    pub functions: Vec<AssemblyFunction>,
    pub static_slots: Vec<AssemblyStaticSlot>,
    pub dispatch_tables: Vec<AssemblyDispatchTable>,
    pub literal_backings: Vec<AssemblyLiteralBacking>,
    pub panic_messages: Vec<AssemblyPanicMessage>,
    pub runtime_trace: AssemblyRuntimeTraceMetadata,
}

} // verus!
