//! Deterministic assembler symbol names for generated functions and data.

use vstd::prelude::*;

use crate::identity::{ArrayTypeId, CallableId, ClassId};
use crate::text::{decimal, decimal_text, framed_decimal};

verus! {

pub open spec fn dispatch_table_text(class: ClassId) -> Seq<char> {
    "ska_dispatch_table_"@ + decimal_text(class.idx as nat) + ""@
}

/// The class metadata object: the dispatch table of the class.
pub fn dispatch_table(class: ClassId) -> (r: String)
    ensures
        r@ == dispatch_table_text(class),
{
    framed_decimal("ska_dispatch_table_", class.index() as u64, "")
}

pub open spec fn complete_finalizer_text(class: ClassId) -> Seq<char> {
    "ska_complete_finalizer_"@ + decimal_text(class.idx as nat) + ""@
}

/// The finalizer that destroys a complete object of the class.
pub fn complete_finalizer(class: ClassId) -> (r: String)
    ensures
        r@ == complete_finalizer_text(class),
{
    framed_decimal("ska_complete_finalizer_", class.index() as u64, "")
}

pub open spec fn shared_array_metadata_text(array: ArrayTypeId) -> Seq<char> {
    "ska_shared_array_metadata_"@ + decimal_text(array.idx as nat) + ""@
}

/// The metadata object of shared arrays of the type.
pub fn shared_array_metadata(array: ArrayTypeId) -> (r: String)
    ensures
        r@ == shared_array_metadata_text(array),
{
    framed_decimal("ska_shared_array_metadata_", array.index() as u64, "")
}

pub open spec fn shared_array_finalizer_text(array: ArrayTypeId) -> Seq<char> {
    "ska_shared_array_finalizer_"@ + decimal_text(array.idx as nat) + ""@
}

/// The finalizer of shared arrays of the type.
pub fn shared_array_finalizer(array: ArrayTypeId) -> (r: String)
    ensures
        r@ == shared_array_finalizer_text(array),
{
    framed_decimal("ska_shared_array_finalizer_", array.index() as u64, "")
}

pub open spec fn literal_backing_text(index: usize) -> Seq<char> {
    "ska_literal_"@ + decimal_text(index as nat) + ""@
}

/// The data object of one pooled literal backing.
pub fn literal_backing(index: usize) -> (r: String)
    ensures
        r@ == literal_backing_text(index),
{
    framed_decimal("ska_literal_", index as u64, "")
}

/// The symbol of a callable body.
pub open spec fn callable_text(callable: CallableId) -> Seq<char> {
    match callable {
        CallableId::Function(function) => "ska_function_"@ + decimal_text(function.idx as nat),
        CallableId::Method(method) => "ska_method_"@ + decimal_text(method.owner.idx as nat) + "_"@
            + decimal_text(method.idx as nat),
        CallableId::Initializer(class, index) => "ska_initializer_"@ + decimal_text(
            class.idx as nat,
        ) + "_"@ + decimal_text(index as nat),
        CallableId::CopyConstructor(class) => "ska_copy_constructor_"@ + decimal_text(
            class.idx as nat,
        ),
        CallableId::CopyAssignment(class) => "ska_copy_assignment_"@ + decimal_text(
            class.idx as nat,
        ),
        CallableId::Destructor(class) => "ska_destructor_"@ + decimal_text(class.idx as nat),
        CallableId::StaticInitializer(class) => "ska_static_initializer_"@ + decimal_text(
            class.idx as nat,
        ),
    }
}

fn prefixed(prefix: &str, value: u64) -> (r: String)
    ensures
        r@ == prefix@ + decimal_text(value as nat),
{
    let mut text = String::from_str(prefix);
    let digits = decimal(value);
    text.append(digits.as_str());
    text
}

fn prefixed_pair(prefix: &str, first: u64, second: u64) -> (r: String)
    ensures
        r@ == prefix@ + decimal_text(first as nat) + "_"@ + decimal_text(second as nat),
{
    let mut text = framed_decimal(prefix, first, "_");
    let digits = decimal(second);
    text.append(digits.as_str());
    text
}

pub fn callable(target: CallableId) -> (r: String)
    ensures
        r@ == callable_text(target),
{
    match target {
        CallableId::Function(function) => prefixed("ska_function_", function.idx as u64),
        CallableId::Method(method) => prefixed_pair(
            "ska_method_",
            method.owner.idx as u64,
            method.idx as u64,
        ),
        CallableId::Initializer(class, index) => prefixed_pair(
            "ska_initializer_",
            class.idx as u64,
            index as u64,
        ),
        CallableId::CopyConstructor(class) => prefixed("ska_copy_constructor_", class.idx as u64),
        CallableId::CopyAssignment(class) => prefixed("ska_copy_assignment_", class.idx as u64),
        CallableId::Destructor(class) => prefixed("ska_destructor_", class.idx as u64),
        CallableId::StaticInitializer(class) => prefixed(
            "ska_static_initializer_",
            class.idx as u64,
        ),
    }
}

pub open spec fn array_helper_text(kind: Seq<char>, array: ArrayTypeId) -> Seq<char> {
    "ska_array_"@ + kind + "_"@ + decimal_text(array.idx as nat)
}

fn array_helper(kind: &str, array: ArrayTypeId) -> (r: String)
    ensures
        r@ == array_helper_text(kind@, array),
{
    let mut text = String::from_str("ska_array_");
    text.append(kind);
    text.append("_");
    let digits = decimal(array.index() as u64);
    text.append(digits.as_str());
    text
}

/// The helper that default-initializes one element of an array type.
pub fn array_initialize_element(array: ArrayTypeId) -> (r: String)
    ensures
        r@ == array_helper_text("initialize_element"@, array),
{
    array_helper("initialize_element", array)
}

/// The helper that copies one element of an array type.
pub fn array_copy_element(array: ArrayTypeId) -> (r: String)
    ensures
        r@ == array_helper_text("copy_element"@, array),
{
    array_helper("copy_element", array)
}

/// The helper that clones a whole inline array.
pub fn array_clone(array: ArrayTypeId) -> (r: String)
    ensures
        r@ == array_helper_text("clone"@, array),
{
    array_helper("clone", array)
}

/// The helper that destroys one element of an array type.
pub fn array_destroy_element(array: ArrayTypeId) -> (r: String)
    ensures
        r@ == array_helper_text("destroy_element"@, array),
{
    array_helper("destroy_element", array)
}

/// The helper that releases one owner of an inline array backing.
pub fn array_release(array: ArrayTypeId) -> (r: String)
    ensures
        r@ == array_helper_text("release"@, array),
{
    array_helper("release", array)
}

pub open spec fn class_copy_helper_text(class: ClassId) -> Seq<char> {
    "ska_class_copy_"@ + decimal_text(class.idx as nat) + ""@
}

/// The helper that copy-constructs a complete object of a class.
pub fn class_copy_helper(class: ClassId) -> (r: String)
    ensures
        r@ == class_copy_helper_text(class),
{
    framed_decimal("ska_class_copy_", class.index() as u64, "")
}

pub open spec fn shared_handle_retain_text() -> Seq<char> {
    ".Lska_shared_handle_retain"@
}

/// The generated helper that adds an owner to the shared handle in `rdi`.
pub fn shared_handle_retain() -> (r: &'static str)
    ensures
        r@ == shared_handle_retain_text(),
{
    ".Lska_shared_handle_retain"
}

pub open spec fn shared_handle_release_text() -> Seq<char> {
    ".Lska_shared_handle_release"@
}

/// The generated helper that drops one owner of the shared handle in `rdi`.
pub fn shared_handle_release() -> (r: &'static str)
    ensures
        r@ == shared_handle_release_text(),
{
    ".Lska_shared_handle_release"
}

pub open spec fn program_initializer_text() -> Seq<char> {
    ".Lska_program_initializer"@
}

/// The private coordinator that activates static fields.
pub fn program_initializer() -> (r: &'static str)
    ensures
        r@ == program_initializer_text(),
{
    ".Lska_program_initializer"
}

} // verus!
