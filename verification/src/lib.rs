//! x86-64 System V backend of the Skald compiler: argument classification,
//! data and frame layout, dispatch tables, legality checks, artifact
//! retention, and assembly text emission.

pub mod identity;
pub mod mir;
pub mod body;
pub mod machine;
pub mod abi;
pub mod error;
pub mod text;
pub mod layout;
pub mod frame;
pub mod symbol;
pub mod dispatch;
pub mod artifacts;
pub mod emit;
pub mod destruction;
pub mod literal_data;
pub mod array_legality;
pub mod legality;
pub mod input_check;
pub mod facts;
pub mod fact_projection;
pub mod selection;
pub mod array_helpers;
pub mod listing;
pub mod panic_message;
pub mod ownership;
pub mod finalize;
pub mod value;
pub mod marshal;
pub mod terminator;
pub mod static_lifecycle;
pub mod arithmetic;
pub mod primitive_cast;
pub mod object_abi;
pub mod type_operations;
pub mod io;
pub mod strings;
pub mod call_target;
pub mod array_selection;
pub mod optional_access;
pub mod block_terminator;
pub mod class_copy;
