//! Dense nominal identities shared by the program model and the backend.

use vstd::prelude::*;

verus! {

/// A declared class, identified by its dense declaration index.
#[derive(Clone, Copy, Debug, PartialEq, Eq, Structural)]
pub struct ClassId {
    pub idx: usize,
}

impl ClassId {
    pub fn new(idx: usize) -> (r: Self)
        ensures
            r.idx == idx,
    {
        ClassId { idx }
    }

    pub fn index(self) -> (r: usize)
        ensures
            r == self.idx,
    {
        self.idx
    }
}

/// A field, identified by its owning class and its declaration position.
#[derive(Clone, Copy, Debug, PartialEq, Eq, Structural)]
pub struct FieldId {
    pub owner: ClassId,
    pub idx: usize,
}

impl FieldId {
    pub fn new(owner: ClassId, idx: usize) -> (r: Self)
        ensures
            r.owner == owner,
            r.idx == idx,
    {
        FieldId { owner, idx }
    }

    pub fn class(self) -> (r: ClassId)
        ensures
            r == self.owner,
    {
        self.owner
    }

    pub fn index(self) -> (r: usize)
        ensures
            r == self.idx,
    {
        self.idx
    }
}

/// A static field slot, identified by its owning class and position.
#[derive(Clone, Copy, Debug, PartialEq, Eq, Structural)]
pub struct StaticFieldId {
    pub owner: ClassId,
    pub idx: usize,
}

impl StaticFieldId {
    pub fn new(owner: ClassId, idx: usize) -> (r: Self)
        ensures
            r.owner == owner,
            r.idx == idx,
    {
        StaticFieldId { owner, idx }
    }
}

/// A declared array type.
#[derive(Clone, Copy, Debug, PartialEq, Eq, Structural)]
pub struct ArrayTypeId {
    pub idx: usize,
}

impl ArrayTypeId {
    pub fn new(idx: usize) -> (r: Self)
        ensures
            r.idx == idx,
    {
        ArrayTypeId { idx }
    }

    pub fn index(self) -> (r: usize)
        ensures
            r == self.idx,
    {
        self.idx
    }
}

/// A declared optional type, laid out by its storage kind.
#[derive(Clone, Copy, Debug, PartialEq, Eq, Structural)]
pub struct OptionalTypeId {
    pub idx: usize,
}

impl OptionalTypeId {
    pub fn new(idx: usize) -> (r: Self)
        ensures
            r.idx == idx,
    {
        OptionalTypeId { idx }
    }

    pub fn index(self) -> (r: usize)
        ensures
            r == self.idx,
    {
        self.idx
    }
}

/// A declared interface.
#[derive(Clone, Copy, Debug, PartialEq, Eq, Structural)]
pub struct InterfaceId {
    pub idx: usize,
}

impl InterfaceId {
    pub fn new(idx: usize) -> (r: Self)
        ensures
            r.idx == idx,
    {
        InterfaceId { idx }
    }

    pub fn index(self) -> (r: usize)
        ensures
            r == self.idx,
    {
        self.idx
    }
}

/// A requirement of an interface, identified by its position in the interface.
#[derive(Clone, Copy, Debug, PartialEq, Eq, Structural)]
pub struct InterfaceRequirementId {
    pub owner: InterfaceId,
    pub idx: usize,
}

impl InterfaceRequirementId {
    pub fn new(owner: InterfaceId, idx: usize) -> (r: Self)
        ensures
            r.owner == owner,
            r.idx == idx,
    {
        InterfaceRequirementId { owner, idx }
    }

    pub fn interface(self) -> (r: InterfaceId)
        ensures
            r == self.owner,
    {
        self.owner
    }

    pub fn index(self) -> (r: usize)
        ensures
            r == self.idx,
    {
        self.idx
    }
}

/// A canonical virtual-table slot.
#[derive(Clone, Copy, Debug, PartialEq, Eq, Structural)]
pub struct VirtualSlotId {
    pub idx: usize,
}

impl VirtualSlotId {
    pub fn new(idx: usize) -> (r: Self)
        ensures
            r.idx == idx,
    {
        VirtualSlotId { idx }
    }

    pub fn index(self) -> (r: usize)
        ensures
            r == self.idx,
    {
        self.idx
    }
}

/// A method, identified by its owning class and declaration position.
#[derive(Clone, Copy, Debug, PartialEq, Eq, Structural)]
pub struct MethodId {
    pub owner: ClassId,
    pub idx: usize,
}

impl MethodId {
    pub fn new(owner: ClassId, idx: usize) -> (r: Self)
        ensures
            r.owner == owner,
            r.idx == idx,
    {
        MethodId { owner, idx }
    }

    pub fn class(self) -> (r: ClassId)
        ensures
            r == self.owner,
    {
        self.owner
    }
}

/// A free function.
#[derive(Clone, Copy, Debug, PartialEq, Eq, Structural)]
pub struct FunctionId {
    pub idx: usize,
}

impl FunctionId {
    pub fn new(idx: usize) -> (r: Self)
        ensures
            r.idx == idx,
    {
        FunctionId { idx }
    }
}

/// Every kind of callable body the backend can lower.
#[derive(Clone, Copy, Debug, PartialEq, Eq, Structural)]
pub enum CallableId {
    Function(FunctionId),
    Method(MethodId),
    Initializer(ClassId, usize),
    CopyConstructor(ClassId),
    CopyAssignment(ClassId),
    Destructor(ClassId),
    StaticInitializer(ClassId),
}

/// A storage entry of one callable body.
#[derive(Clone, Copy, Debug, PartialEq, Eq, Structural)]
pub struct StorageId {
    pub idx: usize,
}

impl StorageId {
    pub fn new(idx: usize) -> (r: Self)
        ensures
            r.idx == idx,
    {
        StorageId { idx }
    }

    pub fn index(self) -> (r: usize)
        ensures
            r == self.idx,
    {
        self.idx
    }
}

/// An SSA-like temporary of one callable body.
#[derive(Clone, Copy, Debug, PartialEq, Eq, Structural)]
pub struct ValueId {
    pub idx: usize,
}

impl ValueId {
    pub fn new(idx: usize) -> (r: Self)
        ensures
            r.idx == idx,
    {
        ValueId { idx }
    }

    pub fn index(self) -> (r: usize)
        ensures
            r == self.idx,
    {
        self.idx
    }
}

/// A verified literal byte backing.
#[derive(Clone, Copy, Debug, PartialEq, Eq, Structural)]
pub struct LiteralDataId {
    pub idx: usize,
}

impl LiteralDataId {
    pub fn new(idx: usize) -> (r: Self)
        ensures
            r.idx == idx,
    {
        LiteralDataId { idx }
    }

    pub fn index(self) -> (r: usize)
        ensures
            r == self.idx,
    {
        self.idx
    }
}

} // verus!
