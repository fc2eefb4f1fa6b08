//! The stack machine: frames, the method table, and the rule that executes
//! one instruction.

pub mod laws;
pub mod machine;
pub mod semantics;
pub mod step;
pub mod table;

pub use crate::interp::machine::{Event, EventView, Frame, FrameView, Machine};
pub use crate::interp::step::{boot, exec, run_local};
pub use crate::interp::table::{method_code, MethodEntry, MethodTable, MethodView};

use crate::code::OpCode;
use crate::error::DecodeError;
use vstd::prelude::*;

verus! {

/// Why a class could not be run, or why its run stopped. No failure is
/// recovered from.
#[derive(Clone, Copy, Debug, PartialEq, Eq, Structural)]
pub enum ExecError {
    /// The method with this number has no body.
    MissingCode(usize),
    /// The class has no `main` method with the expected descriptor.
    NoMain,
    /// The instruction at the cursor could not be decoded.
    Decode(DecodeError),
    /// An instruction needed more operands than the stack holds.
    StackUnderflow,
    /// An instruction named a local slot that the frame does not have.
    LocalOutOfRange(usize),
    /// A branch by this offset would leave the instruction stream.
    BadBranch(isize),
    /// The constant at this pool index is missing or of the wrong kind.
    BadConstant(usize),
    /// The value on the stack is not the reference of a string constant.
    BadReference(isize),
    /// The static method that the constant at this pool index names is not
    /// in the method table.
    MethodNotFound(usize),
    /// The virtual method that the constant at this pool index names is not
    /// one of the built-in ones.
    NativeNotImplemented(usize),
    /// The instruction is decoded but not executed by this machine.
    OpcodeNotImplemented(OpCode),
    /// The result of an arithmetic instruction does not fit a stack slot.
    Overflow,
}

} // verus!
