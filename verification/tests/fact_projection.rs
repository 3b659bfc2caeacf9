use skald_compiler::body::{MirArrayCopyElement, MirSelectedCopyOperation};
use skald_compiler::fact_projection::{array_copy, project_layouts, semantic_type};
use skald_compiler::facts::{
    ArrayCopyElementFact, LayoutDisposition, LayoutFact, SelectedCopy, SemanticType, SharedTarget,
};
use skald_compiler::identity::ClassId;
use skald_compiler::layout::DataLayout;
use skald_compiler::mir::{MirSharedTarget, MirType};

#[test]
fn semantic_types_name_the_same_type() {
    assert_eq!(semantic_type(MirType::U8), SemanticType::U8);
    assert_eq!(
        semantic_type(MirType::Shared(MirSharedTarget::Class(ClassId::new(2)))),
        SemanticType::Shared(SharedTarget::Class(ClassId::new(2)))
    );
    assert_eq!(
        array_copy(MirArrayCopyElement::Class {
            class: ClassId::new(1),
            operation: MirSelectedCopyOperation::Synthesized(ClassId::new(1)),
        }),
        ArrayCopyElementFact::Class {
            class: ClassId::new(1),
            operation: SelectedCopy::Synthesized(ClassId::new(1)),
        }
    );
}

#[test]
fn projects_layouts_and_elides_payload_free_types() {
    let layouts = DataLayout { classes: vec![], arrays: vec![] };
    let facts = project_layouts(&layouts, &vec![MirType::I64, MirType::Unit, MirType::Obj]).unwrap();
    assert_eq!(
        facts,
        vec![
            LayoutFact { size: 8, alignment: 8, disposition: LayoutDisposition::Addressable },
            LayoutFact { size: 0, alignment: 1, disposition: LayoutDisposition::ElidedUnit },
            LayoutFact { size: 0, alignment: 1, disposition: LayoutDisposition::ElidedMetadata },
        ]
    );
    let error = project_layouts(&layouts, &vec![MirType::Class(ClassId::new(0))]).unwrap_err();
    assert_eq!(error.message(), "class 0 has no target layout");
}
