use skald_compiler::dispatch::DispatchMetadata;
use skald_compiler::identity::{InterfaceId, InterfaceRequirementId};

#[test]
fn reports_interface_witness_displacement_overflow() {
    let metadata = DispatchMetadata {
        tables: vec![],
        interface_starts: vec![usize::MAX],
        finalizer_displacement: 0,
    };
    let runner = InterfaceId::new(0);
    let error = metadata
        .requirement_displacement(InterfaceRequirementId::new(runner, 0))
        .unwrap_err();

    assert!(error
        .message()
        .contains("interface witness table exceeds x86-64 displacement limits"));
}

#[test]
fn requirement_displacements_follow_interface_starts() {
    let metadata = DispatchMetadata {
        tables: vec![],
        interface_starts: vec![0, 2],
        finalizer_displacement: 32,
    };
    let second = InterfaceId::new(1);
    assert_eq!(
        metadata.requirement_displacement(InterfaceRequirementId::new(second, 1)).unwrap(),
        24
    );
    assert_eq!(metadata.finalizer_displacement(), 32);
}
