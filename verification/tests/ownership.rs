use std::collections::HashMap;

use skald_compiler::dispatch::DispatchMetadata;
use skald_compiler::identity::{ArrayTypeId, ClassId, StaticFieldId};
use skald_compiler::machine::{AssemblyFunction, Instruction, Label, Operand, Register};
use skald_compiler::mir::{
    MirArrayType, MirProgram, MirStaticLifecycle, MirStaticShutdownRegion,
    MirSharedTarget, MirStaticValueCleanup, MirType,
};
use skald_compiler::ownership::{
    emit_release_loaded_handle, emit_retain_loaded_handle, lower_helpers, lower_release,
    lower_retain,
};

// A small model of the x86-64 machine that runs generated instruction lists
// against probe routines written in Rust, as a native probe would.

fn slot(register: Register) -> usize {
    match register {
        Register::Rax => 0,
        Register::Rcx => 1,
        Register::Rdx => 2,
        Register::Rbx => 3,
        Register::Rsp => 4,
        Register::Rbp => 5,
        Register::Rsi => 6,
        Register::Rdi => 7,
        Register::R8 => 8,
        Register::R9 => 9,
        Register::R10 => 10,
        Register::R11 => 11,
        Register::R12 => 12,
        Register::R13 => 13,
        Register::R14 => 14,
        Register::R15 => 15,
    }
}

const CALLER_SAVED: [Register; 9] = [
    Register::Rax,
    Register::Rcx,
    Register::Rdx,
    Register::Rsi,
    Register::Rdi,
    Register::R8,
    Register::R9,
    Register::R10,
    Register::R11,
];

#[derive(Debug, PartialEq)]
enum Stop {
    Returned,
    Exited(i32),
    Trapped(String),
}

type Probe = fn(&mut Machine) -> Result<(), Stop>;

enum Code {
    Listing(Vec<Instruction>),
    Probe(Probe),
}

struct Machine {
    registers: [u64; 16],
    memory: HashMap<u64, u64>,
    equal: bool,
    symbols: HashMap<String, u64>,
    code: HashMap<u64, Code>,
    next_code: u64,
}

impl Machine {
    fn new() -> Self {
        let mut machine = Machine {
            registers: [0; 16],
            memory: HashMap::new(),
            equal: false,
            symbols: HashMap::new(),
            code: HashMap::new(),
            next_code: 0x40_0000,
        };
        // The process entry leaves the stack aligned at a call boundary.
        machine.registers[slot(Register::Rsp)] = 0x7fff_0000 - 8;
        machine
    }

    fn get(&self, register: Register) -> u64 {
        self.registers[slot(register)]
    }

    fn set(&mut self, register: Register, value: u64) {
        self.registers[slot(register)] = value;
    }

    fn load(&self, address: u64) -> u64 {
        *self.memory.get(&address).unwrap_or(&0)
    }

    fn store(&mut self, address: u64, value: u64) {
        self.memory.insert(address, value);
    }

    fn data(&mut self, symbol: &str, address: u64, words: &[u64]) {
        self.symbols.insert(symbol.to_owned(), address);
        for (k, word) in words.iter().enumerate() {
            self.store(address + 8 * k as u64, *word);
        }
    }

    fn define(&mut self, symbol: &str, code: Code) -> u64 {
        let address = self.next_code;
        self.next_code += 0x1000;
        self.symbols.insert(symbol.to_owned(), address);
        self.code.insert(address, code);
        address
    }

    fn address(&self, operand: Operand) -> u64 {
        match operand {
            Operand::Memory { base, displacement } => {
                self.get(base).wrapping_add(displacement as i64 as u64)
            }
            other => panic!("no address for {other:?}"),
        }
    }

    fn read(&self, operand: Operand) -> u64 {
        match operand {
            Operand::Register(register) => self.get(register),
            memory => self.load(self.address(memory)),
        }
    }

    fn write(&mut self, operand: Operand, value: u64) {
        match operand {
            Operand::Register(register) => self.set(register, value),
            memory => {
                let address = self.address(memory);
                self.store(address, value);
            }
        }
    }

    fn push(&mut self, value: u64) {
        let rsp = self.get(Register::Rsp) - 8;
        self.set(Register::Rsp, rsp);
        self.store(rsp, value);
    }

    fn pop(&mut self) -> u64 {
        let rsp = self.get(Register::Rsp);
        self.set(Register::Rsp, rsp + 8);
        self.load(rsp)
    }

    fn clobber_callers(&mut self) {
        for register in CALLER_SAVED {
            self.set(register, 0);
        }
    }

    fn call(&mut self, target: u64) -> Result<(), Stop> {
        self.push(0xdead_0000);
        let result = match self.code.get(&target) {
            Some(Code::Probe(probe)) => {
                let probe = *probe;
                probe(self)
            }
            Some(Code::Listing(listing)) => {
                let listing = listing.clone();
                self.run(&listing)
            }
            None => Err(Stop::Trapped(format!("call to unknown address {target:#x}"))),
        };
        match result {
            Ok(()) => {
                self.pop();
                Ok(())
            }
            Err(Stop::Returned) => Ok(()),
            Err(stop) => Err(stop),
        }
    }

    fn run(&mut self, listing: &[Instruction]) -> Result<(), Stop> {
        let labels: HashMap<String, usize> = listing
            .iter()
            .enumerate()
            .filter_map(|(index, instruction)| match instruction {
                Instruction::Label(label) => Some((label.text.clone(), index)),
                _ => None,
            })
            .collect();
        let jump = |label: &Label| -> Result<usize, Stop> {
            labels
                .get(&label.text)
                .copied()
                .ok_or_else(|| Stop::Trapped(format!("unknown label {}", label.text)))
        };
        let mut pc = 0;
        while pc < listing.len() {
            let mut next = pc + 1;
            match &listing[pc] {
                Instruction::Label(_) => {}
                Instruction::Push(register) => {
                    let value = self.get(*register);
                    self.push(value);
                }
                Instruction::Move { source, destination } => {
                    let value = self.read(*source);
                    self.write(*destination, value);
                }
                Instruction::LoadEffectiveAddress { source, destination } => {
                    let address = self.address(*source);
                    self.set(*destination, address);
                }
                Instruction::LoadSymbolAddress { symbol, destination } => {
                    let address = *self.symbols.get(symbol).expect("symbol is defined");
                    self.set(*destination, address);
                }
                Instruction::MoveImmediate64 { bits, destination } => self.set(*destination, *bits),
                Instruction::Add { source, destination } => {
                    let value = self.get(*destination).wrapping_add(self.get(*source));
                    self.set(*destination, value);
                }
                Instruction::Subtract { source, destination } => {
                    let value = self.get(*destination).wrapping_sub(self.get(*source));
                    self.set(*destination, value);
                }
                Instruction::Test(register) => self.equal = self.get(*register) == 0,
                Instruction::Compare { source, destination } => {
                    self.equal = self.get(*destination) == self.get(*source)
                }
                Instruction::ReserveStack(bytes) => {
                    let rsp = self.get(Register::Rsp) - *bytes as u64;
                    self.set(Register::Rsp, rsp);
                }
                Instruction::ReleaseStack(bytes) => {
                    let rsp = self.get(Register::Rsp) + *bytes as u64;
                    self.set(Register::Rsp, rsp);
                }
                Instruction::Call(symbol) => {
                    let target = *self
                        .symbols
                        .get(symbol)
                        .ok_or_else(|| Stop::Trapped(format!("undefined symbol {symbol}")))?;
                    self.call(target)?;
                }
                Instruction::CallIndirect(register) => {
                    let target = self.get(*register);
                    self.call(target)?;
                }
                Instruction::Jump(label) => next = jump(label)?,
                Instruction::JumpIfEqual(label) => {
                    if self.equal {
                        next = jump(label)?;
                    }
                }
                Instruction::JumpIfNotZero(label) => {
                    if !self.equal {
                        next = jump(label)?;
                    }
                }
                Instruction::Trap => return Err(Stop::Trapped(format!("ud2 at {pc}"))),
                Instruction::Leave => {
                    let rbp = self.get(Register::Rbp);
                    self.set(Register::Rsp, rbp);
                    let saved = self.pop();
                    self.set(Register::Rbp, saved);
                }
                Instruction::Return => {
                    self.pop();
                    return Err(Stop::Returned);
                }
                other => panic!("instruction outside the modelled subset: {other:?}"),
            }
            pc = next;
        }
        Err(Stop::Trapped("ran past the end of the listing".to_owned()))
    }
}

fn check(condition: bool, what: &str) -> Result<(), Stop> {
    if condition {
        Ok(())
    } else {
        Err(Stop::Trapped(format!("probe failure: {what}")))
    }
}

const ORIGINAL_HEADER: u64 = 0x60_0000;
const ORIGINAL_PAYLOAD: u64 = ORIGINAL_HEADER + 16;
const REPLACEMENT_HEADER: u64 = ORIGINAL_HEADER + 24;
const METADATA: u64 = ORIGINAL_HEADER + 48;
const OWNER_SLOT: u64 = ORIGINAL_HEADER + 56;
const FINALIZER_COUNT: u64 = ORIGINAL_HEADER + 64;
const FREE_COUNT: u64 = ORIGINAL_HEADER + 72;

fn finalize_probe(machine: &mut Machine) -> Result<(), Stop> {
    check(machine.get(Register::Rdi) == ORIGINAL_PAYLOAD, "finalizer payload")?;
    check(machine.load(ORIGINAL_HEADER) == 0, "count cleared before finalization")?;
    check(machine.load(FREE_COUNT) == 0, "not yet freed")?;
    check(machine.load(FINALIZER_COUNT) == 0, "finalized once")?;
    machine.store(FINALIZER_COUNT, 1);
    machine.store(OWNER_SLOT, REPLACEMENT_HEADER);
    machine.clobber_callers();
    Ok(())
}

fn free_probe(machine: &mut Machine) -> Result<(), Stop> {
    check(machine.get(Register::Rdi) == ORIGINAL_HEADER, "frees the original header")?;
    check(machine.load(FINALIZER_COUNT) == 1, "finalized before the free")?;
    check(machine.load(FREE_COUNT) == 0, "freed once")?;
    machine.store(FREE_COUNT, 1);
    machine.clobber_callers();
    Ok(())
}

#[test]
fn release_frees_original_header_after_finalizer_changes_owner_and_clobbers_callers() {
    let complete = Label::new("release_complete".into());
    let mut instructions = vec![
        Instruction::Push(Register::Rbp),
        Instruction::Move {
            source: Operand::Register(Register::Rsp),
            destination: Operand::Register(Register::Rbp),
        },
        Instruction::LoadSymbolAddress {
            symbol: "owner_slot".into(),
            destination: Register::Rax,
        },
        Instruction::Move {
            source: Operand::Memory { base: Register::Rax, displacement: 0 },
            destination: Operand::Register(Register::Rax),
        },
    ];
    emit_release_loaded_handle(
        Label::new("release_invalid".into()),
        Label::new("release_last".into()),
        complete.clone(),
        0,
        &mut instructions,
    );
    instructions.extend([
        Instruction::Label(complete),
        Instruction::Leave,
        Instruction::Return,
    ]);
    let function = AssemblyFunction {
        symbol: "release_owner".into(),
        exported: false,
        instructions,
    };

    let mut machine = Machine::new();
    let finalizer = machine.define("finalize_probe", Code::Probe(finalize_probe));
    machine.define("ska_rt_free", Code::Probe(free_probe));
    machine.data("original_header", ORIGINAL_HEADER, &[1, METADATA, 123]);
    machine.data("replacement_header", REPLACEMENT_HEADER, &[1, METADATA, 456]);
    machine.data("metadata", METADATA, &[finalizer]);
    machine.data("owner_slot", OWNER_SLOT, &[ORIGINAL_HEADER]);
    machine.data("finalizer_count", FINALIZER_COUNT, &[0]);
    machine.data("free_count", FREE_COUNT, &[0]);
    let release = machine.define(&function.symbol, Code::Listing(function.instructions));

    // main: push rbp; mov rbp, rsp; call release_owner; then the checks.
    let rbp = machine.get(Register::Rbp);
    machine.push(rbp);
    let frame = machine.get(Register::Rsp);
    machine.set(Register::Rbp, frame);
    assert_eq!(machine.call(release), Ok(()));
    assert_eq!(machine.load(FINALIZER_COUNT), 1);
    assert_eq!(machine.load(FREE_COUNT), 1);
    assert_eq!(machine.load(OWNER_SLOT), REPLACEMENT_HEADER);
    assert_eq!(machine.load(REPLACEMENT_HEADER), 1);
}

fn panic_probe(machine: &mut Machine) -> Result<(), Stop> {
    check(machine.get(Register::Rsp) & 15 == 8, "reporter entered at a call boundary")?;
    check(machine.get(Register::Rsi) == 24, "ownership-overflow message length")?;
    Err(Stop::Exited(0))
}

#[test]
fn generated_retain_helper_aligns_the_stack_before_reporting_exhaustion() {
    let helper = lower_retain();
    let mut machine = Machine::new();
    machine.define("ska_rt_panic", Code::Probe(panic_probe));
    machine.define(".Lska_panic_message_8", Code::Probe(|_| Err(Stop::Trapped("data".into()))));
    machine.data("exhausted_handle", 0x61_0000, &[0xffff_ffff_ffff_fffe]);
    let retain = machine.define(&helper.symbol, Code::Listing(helper.instructions));

    // main: push rbp; mov rbp, rsp; lea rdi, [rip + exhausted_handle];
    // call the helper; ud2.
    let rbp = machine.get(Register::Rbp);
    machine.push(rbp);
    let frame = machine.get(Register::Rsp);
    machine.set(Register::Rbp, frame);
    machine.set(Register::Rdi, 0x61_0000);
    assert_eq!(machine.call(retain), Err(Stop::Exited(0)));
}

#[test]
fn retain_increments_counted_handles_and_keeps_immortal_ones() {
    let helper = lower_retain();
    let mut machine = Machine::new();
    machine.define("ska_rt_panic", Code::Probe(|_| Err(Stop::Exited(1))));
    machine.define(".Lska_panic_message_8", Code::Probe(|_| Err(Stop::Trapped("data".into()))));
    machine.data("counted", 0x62_0000, &[3]);
    machine.data("immortal", 0x62_1000, &[u64::MAX]);
    machine.data("dead", 0x62_2000, &[0]);
    let retain = machine.define(&helper.symbol, Code::Listing(helper.instructions));

    machine.set(Register::Rdi, 0x62_0000);
    assert_eq!(machine.call(retain), Ok(()));
    assert_eq!(machine.load(0x62_0000), 4);
    assert_eq!(machine.get(Register::Rax), 0x62_0000);

    machine.set(Register::Rdi, 0x62_1000);
    assert_eq!(machine.call(retain), Ok(()));
    assert_eq!(machine.load(0x62_1000), u64::MAX);

    machine.set(Register::Rdi, 0x62_2000);
    assert!(matches!(machine.call(retain), Err(Stop::Trapped(_))));
    machine.set(Register::Rdi, 0);
    assert!(matches!(machine.call(retain), Err(Stop::Trapped(_))));
}

fn dispatch(finalizer_displacement: i32) -> DispatchMetadata {
    DispatchMetadata { tables: vec![], interface_starts: vec![], finalizer_displacement }
}

#[test]
fn release_helper_decrements_until_the_last_owner() {
    let helper = lower_release(&dispatch(8));
    assert_eq!(helper.symbol, ".Lska_shared_handle_release");
    assert!(!helper.exported);
    let mut machine = Machine::new();
    machine.define("ska_rt_free", Code::Probe(free_probe));
    let finalizer = machine.define("finalize_probe", Code::Probe(finalize_probe));
    // The finalizer sits at displacement 8 of the metadata.
    machine.data("metadata", METADATA, &[0, finalizer]);
    machine.data("original_header", ORIGINAL_HEADER, &[2, METADATA, 123]);
    machine.data("finalizer_count", FINALIZER_COUNT, &[0]);
    machine.data("free_count", FREE_COUNT, &[0]);
    let release = machine.define(&helper.symbol, Code::Listing(helper.instructions));

    machine.set(Register::Rdi, ORIGINAL_HEADER);
    assert_eq!(machine.call(release), Ok(()));
    assert_eq!(machine.load(ORIGINAL_HEADER), 1);
    assert_eq!(machine.load(FINALIZER_COUNT), 0);

    machine.set(Register::Rdi, ORIGINAL_HEADER);
    assert_eq!(machine.call(release), Ok(()));
    assert_eq!(machine.load(FINALIZER_COUNT), 1);
    assert_eq!(machine.load(FREE_COUNT), 1);
}

#[test]
fn retain_sequence_ends_with_its_immortal_label() {
    let mut output = vec![];
    emit_retain_loaded_handle(Label::new("bad".into()), Label::new("over".into()), &mut output);
    assert_eq!(output.len(), 15);
    assert_eq!(output[0], Instruction::Test(Register::Rax));
    assert_eq!(output[1], Instruction::JumpIfEqual(Label::new("bad".into())));
    assert_eq!(output[7], Instruction::JumpIfEqual(Label::new("over_immortal".into())));
    assert_eq!(output[10], Instruction::JumpIfEqual(Label::new("over".into())));
    assert_eq!(output[14], Instruction::Label(Label::new("over_immortal".into())));
}

fn program(array_types: Vec<MirArrayType>, static_lifecycle: Option<MirStaticLifecycle>) -> MirProgram {
    MirProgram {
        classes: vec![],
        array_types,
        optional_types: vec![],
        virtual_families: vec![],
        interfaces: vec![],
        literal_data: vec![],
        static_fields: vec![],
        defined_methods: vec![],
        methods: vec![],
        signatures: vec![],
        definitions: vec![],
        static_lifecycle,
        external_functions: vec![],
    }
}

#[test]
fn helpers_follow_shared_arrays_and_static_shutdown() {
    let none = program(vec![MirArrayType { id: ArrayTypeId::new(0), element: MirType::I64 }], None);
    assert!(lower_helpers(&none, &dispatch(0)).is_empty());

    let shared = program(
        vec![MirArrayType { id: ArrayTypeId::new(0), element: MirType::Shared(MirSharedTarget::Class(ClassId::new(0))) }],
        None,
    );
    let helpers = lower_helpers(&shared, &dispatch(0));
    assert_eq!(helpers.len(), 2);
    assert_eq!(helpers[0].symbol, ".Lska_shared_handle_retain");
    assert_eq!(helpers[1].symbol, ".Lska_shared_handle_release");

    let statics = program(
        vec![],
        Some(MirStaticLifecycle {
            initializers: vec![],
            activation: vec![],
            shutdown: vec![MirStaticShutdownRegion {
                field: StaticFieldId::new(ClassId::new(0), 0),
                cleanup: MirStaticValueCleanup::OptionalShared(ClassId::new(0)),
            }],
        }),
    );
    let helpers = lower_helpers(&statics, &dispatch(0));
    assert_eq!(helpers.len(), 1);
    assert_eq!(helpers[0].symbol, ".Lska_shared_handle_release");
}

use skald_compiler::frame::FrameLayout;
use skald_compiler::identity::{CallableId, FunctionId, StorageId};
use skald_compiler::layout::{DataLayout, TypeLayout};
use skald_compiler::mir::{MirDefinition, MirStorage, MirStorageKind};
use skald_compiler::ownership::{
    select_shared_allocate, select_shared_copy, select_shared_publish, select_shared_release,
    select_shared_adopt, select_shared_move,
};

fn owners_frame() -> FrameLayout {
    FrameLayout {
        size: 32,
        storage_offsets: vec![-8, -16, -24],
        object_origins: vec![None, None, None],
        value_offsets: vec![],
    }
}

fn run_with_frame(machine: &mut Machine, mut listing: Vec<Instruction>) -> Result<(), Stop> {
    listing.push(Instruction::Return);
    let address = machine.define("selected", Code::Listing(listing));
    machine.call(address)
}

#[test]
fn shared_copies_share_the_handle_and_count_the_owner() {
    let callable = CallableId::Function(FunctionId::new(4));
    let mut output = vec![];
    select_shared_copy(callable, &owners_frame(), StorageId::new(0), StorageId::new(1), &mut output);
    assert_eq!(
        output[2],
        Instruction::JumpIfEqual(Label::new(".Lska_ska_function_4_ownership_retain_invalid_0".into()))
    );

    let mut machine = Machine::new();
    machine.define("ska_rt_panic", Code::Probe(|_| Err(Stop::Exited(1))));
    machine.define(".Lska_panic_message_8", Code::Probe(|_| Err(Stop::Trapped("data".into()))));
    machine.set(Register::Rbp, 0x7000_0000);
    machine.store(0x7000_0000 - 8, 0x63_0000);
    machine.data("header", 0x63_0000, &[1, 0]);
    assert_eq!(run_with_frame(&mut machine, output), Ok(()));
    assert_eq!(machine.load(0x7000_0000 - 16), 0x63_0000);
    assert_eq!(machine.load(0x63_0000), 2);
}

#[test]
fn allocation_publication_and_release_follow_the_header_protocol() {
    let class = ClassId::new(0);
    let layout = DataLayout {
        classes: vec![skald_compiler::layout::ClassLayout {
            ty: TypeLayout::new(8, 8),
            base: None,
            fields: vec![],
        }],
        arrays: vec![],
    };
    let frame = owners_frame();
    let mut output = vec![];
    select_shared_allocate(&layout, &frame, class, StorageId::new(0), &mut output).unwrap();
    assert_eq!(
        output,
        vec![
            Instruction::MoveImmediate64 { bits: 24, destination: Register::Rdi },
            Instruction::Call("ska_rt_alloc".into()),
            Instruction::Move {
                source: Operand::Register(Register::Rax),
                destination: Operand::Memory { base: Register::Rbp, displacement: -8 },
            },
        ]
    );

    let callable = CallableId::Function(FunctionId::new(0));
    let function = MirDefinition {
        callable,
        has_receiver: false,
        storage: vec![
            MirStorage {
                id: StorageId::new(0),
                kind: MirStorageKind::SharedAllocation,
                ty: MirType::Class(class),
            },
            MirStorage { id: StorageId::new(1), kind: MirStorageKind::Local, ty: MirType::I64 },
        ],
        values: vec![],
        blocks: vec![],
    };
    let mut publish = vec![];
    select_shared_publish(&function, &frame, StorageId::new(0), &mut publish).unwrap();
    let error = select_shared_publish(&function, &frame, StorageId::new(1), &mut vec![]).unwrap_err();
    assert_eq!(error.message(), "shared publication storage has no exact dynamic class");

    let mut transfer = vec![];
    select_shared_adopt(&frame, StorageId::new(0), StorageId::new(1), &mut transfer);
    select_shared_move(&frame, StorageId::new(1), StorageId::new(2), &mut transfer);
    let mut release = vec![];
    select_shared_release(callable, &frame, 0, StorageId::new(2), &mut release);

    let mut machine = Machine::new();
    let table = machine.define("ska_dispatch_table_0", Code::Probe(|_| Err(Stop::Trapped("data".into()))));
    machine.define("ska_rt_free", Code::Probe(|machine| {
        machine.store(FREE_COUNT, 1);
        Ok(())
    }));
    machine.set(Register::Rbp, 0x7000_0000);
    machine.store(0x7000_0000 - 8, 0x64_0000);
    assert_eq!(run_with_frame(&mut machine, publish), Ok(()));
    assert_eq!(machine.load(0x64_0000), 1);
    assert_eq!(machine.load(0x64_0008), table);
    assert_eq!(run_with_frame(&mut machine, transfer), Ok(()));
    assert_eq!(machine.load(0x7000_0000 - 24), 0x64_0000);

    // The table's first word stands in for the finalizer at displacement 0.
    let finalizer = machine.define("finalizer", Code::Probe(|machine| {
        machine.store(FINALIZER_COUNT, 1);
        Ok(())
    }));
    machine.store(table, finalizer);
    assert_eq!(run_with_frame(&mut machine, release), Ok(()));
    assert_eq!(machine.load(0x64_0000), 0);
    assert_eq!(machine.load(FINALIZER_COUNT), 1);
    assert_eq!(machine.load(FREE_COUNT), 1);
}

use skald_compiler::mir::{MirStaticActivationRegion, MirStaticActivationWork};
use skald_compiler::static_lifecycle::{has_program_initializer, lower_program_initializer};

#[test]
fn the_coordinator_calls_explicit_initializers_in_activation_order() {
    let lifecycle = MirStaticLifecycle {
        initializers: vec![ClassId::new(2), ClassId::new(1)],
        activation: vec![
            MirStaticActivationRegion {
                field: StaticFieldId::new(ClassId::new(1), 0),
                work: MirStaticActivationWork::Explicit(ClassId::new(1)),
            },
            MirStaticActivationRegion {
                field: StaticFieldId::new(ClassId::new(1), 1),
                work: MirStaticActivationWork::ZeroDefault,
            },
            MirStaticActivationRegion {
                field: StaticFieldId::new(ClassId::new(2), 0),
                work: MirStaticActivationWork::Explicit(ClassId::new(2)),
            },
        ],
        shutdown: vec![],
    };
    let with = program(vec![], Some(lifecycle));
    assert!(has_program_initializer(&with));
    let coordinator = lower_program_initializer(&with).unwrap();
    assert_eq!(coordinator.symbol, ".Lska_program_initializer");
    assert_eq!(
        coordinator.instructions[2..4],
        [
            Instruction::Call("ska_static_initializer_1".into()),
            Instruction::Call("ska_static_initializer_2".into()),
        ]
    );
    assert_eq!(coordinator.instructions.len(), 6);

    let without = program(vec![], None);
    assert!(!has_program_initializer(&without));
    assert!(lower_program_initializer(&without).is_none());
}
