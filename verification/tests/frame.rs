use skald_compiler::error::Target;
use skald_compiler::frame::{FrameAllocator, SCALAR_HOME_ALIGNMENT};
use skald_compiler::identity::{CallableId, FunctionId};

#[test]
fn frame_allocator_rejects_displacements_beyond_signed_32_bits() {
    let callable = CallableId::Function(FunctionId::new(0));
    let mut allocator = FrameAllocator {
        callable,
        used: i32::MAX as usize,
    };

    let error = allocator.allocate(1, 1).unwrap_err();

    assert_eq!(error.target(), Target::X86_64SysV);
    assert_eq!(error.callable(), Some(callable));
    assert_eq!(
        error.message(),
        "stack frame is too large for x86-64 frame-relative addressing"
    );
}

#[test]
fn frame_allocator_rejects_alignment_overflow() {
    let callable = CallableId::Function(FunctionId::new(0));
    let mut allocator = FrameAllocator {
        callable,
        used: usize::MAX,
    };

    let error = allocator.allocate(1, SCALAR_HOME_ALIGNMENT).unwrap_err();

    assert_eq!(error.target(), Target::X86_64SysV);
    assert_eq!(error.callable(), Some(callable));
    assert_eq!(
        error.message(),
        "stack frame is too large for x86-64 frame-relative addressing"
    );
}

#[test]
fn frame_allocations_are_aligned_disjoint_and_padded() {
    let callable = CallableId::Function(FunctionId::new(3));
    let mut allocator = FrameAllocator { callable, used: 0 };
    assert_eq!(allocator.allocate(1, 1).unwrap(), -1);
    assert_eq!(allocator.allocate(8, 8).unwrap(), -16);
    assert_eq!(allocator.allocate(4, 4).unwrap(), -20);
    assert_eq!(allocator.finish().unwrap(), 32);
}
