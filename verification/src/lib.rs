//! A decoder for compiled class files and a small stack machine that runs
//! the bytecode of a decoded class.
//!
//! `source` is the byte cursor that everything reads from. `class` decodes
//! a class file into its constant pool, fields, methods and attributes,
//! and `code` decodes instruction streams. `interp` builds the method
//! table of a decoded class and executes its entry method step by step.
//! Each decoder is specified by a function from the bytes and a position
//! to the decoded value and the position behind it; the machine is
//! specified by a function from states to states.

pub mod class;
pub mod code;
pub mod error;
pub mod interp;
pub mod source;
