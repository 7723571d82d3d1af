//! Translation of portable stack-machine bytecode modules into a linear
//! instruction sequence for a frame-pointer-addressed target machine.
//!
//! The translation engine lives in [`builder`]: it builds the type and symbol
//! tables from the module's sections, tracks the virtual operand stack as
//! frame offsets, and emits one target instruction per supported source
//! operator.  The module parser is an outside collaborator, reached through
//! the boundary in [`wasm`]; the emitted instruction stream is modelled by
//! the types in [`instr`].

pub mod builder;
pub mod data;
pub mod instr;
pub mod laws;
pub mod model;
pub mod names;
pub mod wasm;
