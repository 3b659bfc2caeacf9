use skald_compiler::body::{
    BlockId, MirArrayAnchorKind, MirComparisonOperand, MirComparisonPredicate, MirIntegerType,
    MirPrimitiveComparison,
};
use skald_compiler::identity::{CallableId, FunctionId};
use skald_compiler::machine::{BitwiseOperation, ConditionCode, Instruction, Operand, Register};
use skald_compiler::mir::MirType;
use skald_compiler::selection::{
    block_label, checked_array_displacement, comparison_condition, emit_scalar_copy,
    entry_wrapper, epilogue_label, floating_comparison_conditions, is_shared_anchor,
    materialize_destroy_element_address, offset_operand, F64IntegerBounds, TWO_TO_63_BITS,
};

#[test]
fn array_displacements_are_checked() {
    let callable = CallableId::Function(FunctionId::new(1));
    assert_eq!(checked_array_displacement(-32, 16, callable).unwrap(), -16);
    let error = checked_array_displacement(i32::MAX, 1, callable).unwrap_err();
    assert_eq!(
        error.message(),
        "array element projection exceeds x86-64 displacement limits"
    );
    assert!(checked_array_displacement(0, usize::MAX, callable).is_err());
}

#[test]
fn offsets_move_memory_operands_only() {
    let moved = offset_operand(Operand::Memory { base: Register::Rdi, displacement: 8 }, 8).unwrap();
    assert_eq!(moved, Operand::Memory { base: Register::Rdi, displacement: 16 });
    let error = offset_operand(Operand::Register(Register::Rax), 8).unwrap_err();
    assert_eq!(error.message(), "array helper cannot offset a register operand");
    assert!(offset_operand(Operand::Memory { base: Register::Rdi, displacement: i32::MAX }, 1).is_err());
}

#[test]
fn element_addresses_scale_the_index_by_the_stride() {
    let code = materialize_destroy_element_address(24, 16);
    assert_eq!(code.len(), 5);
    assert_eq!(code[1], Instruction::MoveImmediate64 { bits: 24, destination: Register::R11 });
    assert_eq!(
        code[4],
        Instruction::LoadEffectiveAddress {
            source: Operand::Memory { base: Register::Rdi, displacement: 16 },
            destination: Register::Rdi,
        }
    );
}

#[test]
fn comparison_conditions_follow_signedness_and_unordered_results() {
    let signed = MirPrimitiveComparison {
        predicate: MirComparisonPredicate::LessThan,
        operand: MirComparisonOperand::Integer(MirIntegerType::I64),
    };
    assert_eq!(comparison_condition(signed), ConditionCode::SignedLess);
    let unsigned = MirPrimitiveComparison {
        predicate: MirComparisonPredicate::GreaterEqual,
        operand: MirComparisonOperand::Integer(MirIntegerType::U8),
    };
    assert_eq!(comparison_condition(unsigned), ConditionCode::UnsignedAboveEqual);
    let boolean = MirPrimitiveComparison {
        predicate: MirComparisonPredicate::NotEqual,
        operand: MirComparisonOperand::Bool,
    };
    assert_eq!(comparison_condition(boolean), ConditionCode::NotEqual);
    assert_eq!(
        floating_comparison_conditions(MirComparisonPredicate::NotEqual),
        (ConditionCode::NotEqual, ConditionCode::Parity, BitwiseOperation::Or)
    );
    assert_eq!(
        floating_comparison_conditions(MirComparisonPredicate::LessEqual),
        (ConditionCode::UnsignedBelowEqual, ConditionCode::NotParity, BitwiseOperation::And)
    );
}

#[test]
fn float_conversion_bounds_per_integer_type() {
    let bounds = F64IntegerBounds::for_target(MirIntegerType::I64);
    assert_eq!(bounds.upper_bits, TWO_TO_63_BITS);
    assert_eq!(bounds.lower_failure, ConditionCode::UnsignedBelow);
    let bytes = F64IntegerBounds::for_target(MirIntegerType::U8);
    assert_eq!(bytes.upper_bits, 0x4070_0000_0000_0000);
    assert_eq!(bytes.lower_bits, 0xbff0_0000_0000_0000);
}

#[test]
fn shared_anchors_are_the_owner_anchors() {
    assert!(is_shared_anchor(MirArrayAnchorKind::CopiedSharedOwner));
    assert!(!is_shared_anchor(MirArrayAnchorKind::InlineBacking));
}

#[test]
fn scalar_copies_use_byte_access_for_bytes() {
    let mut output = Vec::new();
    emit_scalar_copy(MirType::Bool, 8, &mut output);
    assert_eq!(output.len(), 6);
    assert!(matches!(output[2], Instruction::LoadZeroExtendByte { .. }));
    assert!(matches!(output[5], Instruction::MoveByte { .. }));
    let mut wide = Vec::new();
    emit_scalar_copy(MirType::I64, 0, &mut wide);
    assert_eq!(wide.len(), 4);
}

#[test]
fn labels_and_entry() {
    let callable = CallableId::Function(FunctionId::new(4));
    assert_eq!(block_label(BlockId { callable, idx: 2 }).name(), ".Lska.ska_function_4.block_2");
    assert_eq!(epilogue_label(callable).name(), ".Lska.ska_function_4.epilogue");
    let entry = entry_wrapper(callable);
    assert_eq!(entry.symbol, "main");
    assert!(entry.exported);
    assert_eq!(entry.instructions[3], Instruction::Call("ska_function_4".to_owned()));
    assert_eq!(entry.instructions.len(), 6);
}
