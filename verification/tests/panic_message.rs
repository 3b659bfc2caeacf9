use skald_compiler::body::MirTerminationReason;
use skald_compiler::machine::{AssemblyFunction, Instruction, Register};
use skald_compiler::panic_message::{
    emit_ownership_overflow, emit_static_panic, PanicMessage, PanicMessagePool,
};

#[test]
fn termination_reasons_map_to_fixed_messages_except_division() {
    assert_eq!(
        PanicMessage::for_reason(MirTerminationReason::ArrayIndexOutOfBounds),
        Some(PanicMessage::ArrayIndexOutOfBounds)
    );
    assert_eq!(
        PanicMessage::for_reason(MirTerminationReason::ShiftCountOutOfRange),
        Some(PanicMessage::ShiftCountOutOfRange)
    );
    assert_eq!(PanicMessage::for_reason(MirTerminationReason::IntegerDivisionByZero), None);
    assert_eq!(PanicMessage::for_reason(MirTerminationReason::IntegerRemainderByZero), None);
}

#[test]
fn messages_have_fixed_positions_symbols_and_bytes() {
    let all = PanicMessage::all();
    assert_eq!(all.len(), 10);
    for (position, message) in all.iter().enumerate() {
        assert_eq!(message.index(), position);
        assert_eq!(message.symbol(), format!(".Lska_panic_message_{position}"));
    }
    assert_eq!(PanicMessage::OwnershipCountOverflow.bytes(), b"ownership count overflow".to_vec());
    assert_eq!(PanicMessage::ObjectCastFailure.bytes(), b"checked object cast failed".to_vec());
}

#[test]
fn static_panic_loads_the_message_and_calls_the_reporter() {
    let mut output = vec![];
    emit_static_panic(PanicMessage::ArrayAllocationFailure, &mut output);
    assert_eq!(
        output,
        vec![
            Instruction::LoadSymbolAddress {
                symbol: ".Lska_panic_message_4".into(),
                destination: Register::Rdi,
            },
            Instruction::MoveImmediate64 { bits: 23, destination: Register::Rsi },
            Instruction::Call("ska_rt_panic".into()),
        ]
    );
}

#[test]
fn the_pool_keeps_exactly_the_loaded_messages_in_order() {
    let mut first = vec![];
    emit_ownership_overflow(&mut first);
    let mut second = vec![];
    emit_static_panic(PanicMessage::ObjectCastFailure, &mut second);
    emit_static_panic(PanicMessage::ObjectCastFailure, &mut second);
    let functions = vec![
        AssemblyFunction { symbol: "a".into(), exported: false, instructions: first },
        AssemblyFunction { symbol: "b".into(), exported: false, instructions: second },
    ];
    let messages = PanicMessagePool::build(&functions).into_assembly();
    assert_eq!(messages.len(), 2);
    assert_eq!(messages[0].symbol, ".Lska_panic_message_0");
    assert_eq!(messages[0].bytes, b"checked object cast failed".to_vec());
    assert_eq!(messages[1].symbol, ".Lska_panic_message_8");
    assert_eq!(messages[1].bytes, b"ownership count overflow".to_vec());

    assert!(PanicMessagePool::build(&[]).into_assembly().is_empty());
}
