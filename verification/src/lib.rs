//! A small language toolchain: a tokenizer, a syntax tree, a compiler from the
//! tree to bytecode, and a stack machine that runs the bytecode.

#![allow(non_snake_case)]

use vstd::prelude::*;

pub mod ast;
pub mod bytes;
pub mod instruction;
pub mod token;
pub mod tokenizer;
pub mod value;
pub mod vm;

verus! {

/// The value type that instructions and the machine work on.
pub type ValueType = value::Value;

/// The three bytes that may open a bytecode file.
pub const MAGIC_NUMBER: [u8; 3] = [0x6e, 0x79, 0x62];

} // verus!
