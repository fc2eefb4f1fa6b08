//! The state of the machine, and the events by which a step speaks to
//! whoever drives it.

use crate::source::ByteStream;
use vstd::prelude::*;

verus! {

/// The state of one invocation: the instruction stream with the cursor in
/// it, the local slots, the operand stack, and the depth that the method
/// declares for that stack.
#[derive(Clone, Debug)]
pub struct Frame {
    pub code: ByteStream,
    pub locals: Vec<isize>,
    pub stack: Vec<isize>,
    pub max_stack: usize,
}

/// What a frame holds. The top of the operand stack is its last item.
pub struct FrameView {
    pub code: Seq<u8>,
    pub pc: int,
    pub locals: Seq<isize>,
    pub stack: Seq<isize>,
    pub max_stack: usize,
}

impl View for Frame {
    type V = FrameView;

    open spec fn view(&self) -> FrameView {
        FrameView {
            code: self.code.bytes(),
            pc: self.code.pos(),
            locals: self.locals@,
            stack: self.stack@,
            max_stack: self.max_stack,
        }
    }
}

/// The machine: the frames of the invocations that are under way, the
/// active one last. A machine without frames has halted.
#[derive(Clone, Debug)]
pub struct Machine {
    pub frames: Vec<Frame>,
}

impl View for Machine {
    type V = Seq<FrameView>;

    open spec fn view(&self) -> Seq<FrameView> {
        self.frames@.map_values(|x: Frame| x@)
    }
}

/// What a step asks of whoever drives the machine.
#[derive(Clone, Debug)]
pub enum Event {
    /// Nothing: take the next step.
    Continue,
    /// Print this number on a line of its own, then take the next step.
    PrintInt(isize),
    /// Print this text on a line of its own, then take the next step.
    PrintString(String),
    /// The entry method has returned.
    Halt,
}

/// What an event holds.
pub enum EventView {
    Continue,
    PrintInt(isize),
    PrintString(Seq<char>),
    Halt,
}

impl View for Event {
    type V = EventView;

    open spec fn view(&self) -> EventView {
        match *self {
            Event::Continue => EventView::Continue,
            Event::PrintInt(x) => EventView::PrintInt(x),
            Event::PrintString(x) => EventView::PrintString(x@),
            Event::Halt => EventView::Halt,
        }
    }
}

} // verus!
