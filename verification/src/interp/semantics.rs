//! What the instructions mean: the step of the machine as a function from
//! states to states.

use crate::class::constant_pool::{
    class_at, entry_at, methodref_at, name_and_type_at, string_at, utf_at, CpInfoView,
};
use crate::code::{parsed_instruction, OpCode};
use crate::error::DecodeError;
use crate::interp::machine::{EventView, FrameView};
use crate::interp::table::{lookup, MethodView};
use crate::interp::ExecError;
use crate::source::seek_lands;
use vstd::prelude::*;

verus! {

/// The value that a constant-push instruction pushes.
pub open spec fn constant_pushed(op: OpCode) -> Option<isize> {
    match op {
        OpCode::IConstM1 => Some((-1) as isize),
        OpCode::IConst0 => Some(0),
        OpCode::IConst1 => Some(1),
        OpCode::IConst2 => Some(2),
        OpCode::IConst3 => Some(3),
        OpCode::IConst4 => Some(4),
        OpCode::IConst5 => Some(5),
        OpCode::BiPush(x) => Some(x),
        OpCode::SiPush(x) => Some(x),
        _ => None,
    }
}

/// The local slot that a load instruction reads. Loads of numbers and of
/// references do the same.
pub open spec fn load_slot(op: OpCode) -> Option<usize> {
    match op {
        OpCode::ILoad0 | OpCode::ALoad0 => Some(0),
        OpCode::ILoad1 | OpCode::ALoad1 => Some(1),
        OpCode::ILoad2 | OpCode::ALoad2 => Some(2),
        OpCode::ILoad3 | OpCode::ALoad3 => Some(3),
        _ => None,
    }
}

/// The local slot that a store instruction writes. Stores of numbers and
/// of references do the same.
pub open spec fn store_slot(op: OpCode) -> Option<usize> {
    match op {
        OpCode::IStore0 | OpCode::AStore0 => Some(0),
        OpCode::IStore1 | OpCode::AStore1 => Some(1),
        OpCode::IStore2 | OpCode::AStore2 => Some(2),
        OpCode::IStore3 | OpCode::AStore3 => Some(3),
        _ => None,
    }
}

/// The result of an arithmetic instruction on the two topmost values:
/// `top` was pushed last, `second` before it. The difference is `second`
/// minus `top`.
pub open spec fn arithmetic_result(op: OpCode, second: int, top: int) -> Option<int> {
    match op {
        OpCode::IAdd => Some(top + second),
        OpCode::ISub => Some(second - top),
        OpCode::IMul => Some(top * second),
        _ => None,
    }
}

/// The byte offset of a branch instruction.
pub open spec fn branch_offset(op: OpCode) -> Option<isize> {
    match op {
        OpCode::IfEq(x) | OpCode::IfNe(x) | OpCode::IfLt(x) | OpCode::IfGe(x) | OpCode::IfGt(x)
        | OpCode::IfLe(x) => Some(x),
        OpCode::IfICmpEq(x) | OpCode::IfICmpNe(x) | OpCode::IfICmpLt(x) | OpCode::IfICmpGe(x)
        | OpCode::IfICmpGt(x) | OpCode::IfICmpLe(x) => Some(x),
        OpCode::Goto(x) => Some(x),
        _ => None,
    }
}

/// The number of operands that a branch instruction pops: one for a
/// comparison with zero, two for a comparison of two values, none for an
/// unconditional branch.
pub open spec fn branch_operands(op: OpCode) -> nat {
    match op {
        OpCode::IfEq(_) | OpCode::IfNe(_) | OpCode::IfLt(_) | OpCode::IfGe(_) | OpCode::IfGt(_)
        | OpCode::IfLe(_) => 1,
        OpCode::IfICmpEq(_) | OpCode::IfICmpNe(_) | OpCode::IfICmpLt(_) | OpCode::IfICmpGe(_)
        | OpCode::IfICmpGt(_) | OpCode::IfICmpLe(_) => 2,
        _ => 0,
    }
}

/// Whether a branch instruction branches on the stack `stack`, whose top
/// is its last item. A comparison with zero tests the top value; a
/// comparison of two values tests the value below the top against the top
/// value, in this order; an unconditional branch always branches.
pub open spec fn branch_taken(op: OpCode, stack: Seq<isize>) -> bool {
    let top = stack[stack.len() - 1];
    let second = stack[stack.len() - 2];
    match op {
        OpCode::IfEq(_) => top == 0,
        OpCode::IfNe(_) => top != 0,
        OpCode::IfLt(_) => top < 0,
        OpCode::IfGe(_) => top >= 0,
        OpCode::IfGt(_) => top > 0,
        OpCode::IfLe(_) => top <= 0,
        OpCode::IfICmpEq(_) => second == top,
        OpCode::IfICmpNe(_) => second != top,
        OpCode::IfICmpLt(_) => second < top,
        OpCode::IfICmpGe(_) => second >= top,
        OpCode::IfICmpGt(_) => second > top,
        OpCode::IfICmpLe(_) => second <= top,
        OpCode::Goto(_) => true,
        _ => false,
    }
}

/// The four bytes of an integer constant read as a signed 32-bit number.
pub open spec fn signed_32(x: int) -> int {
    let low = x % 0x1_0000_0000;
    if low < 0x8000_0000 {
        low
    } else {
        low - 0x1_0000_0000
    }
}

/// The frame `fr` with `value` pushed on its operand stack.
pub open spec fn pushed(fr: FrameView, value: isize) -> FrameView {
    FrameView { stack: fr.stack.push(value), ..fr }
}

/// The frame `fr` with the `n` topmost values taken off its operand stack.
pub open spec fn popped(fr: FrameView, n: nat) -> FrameView {
    FrameView { stack: fr.stack.take(fr.stack.len() - n), ..fr }
}

/// What an instruction that works inside one frame does to that frame.
/// `fr` is the frame with the cursor already behind the instruction.
///
/// Pushes and loads add one value. A store takes one value off and writes
/// it to its slot. Arithmetic takes two values off and pushes the result,
/// which has to fit a stack slot. A branch takes its operands off and, if
/// it branches, moves the cursor by its offset, counted from behind the
/// instruction; the target has to be a byte of the stream. `getstatic`
/// does nothing. `ldc` pushes an integer constant as a signed 32-bit
/// number, and for a string constant the pool index of that constant.
/// Every other instruction is refused here: calls and returns reach
/// beyond the frame and belong to the step of the machine, and the rest
/// is decoded but not executed at all.
pub open spec fn local_step(op: OpCode, cp: Seq<CpInfoView>, fr: FrameView) -> Result<
    FrameView,
    ExecError,
> {
    let depth = fr.stack.len();
    if constant_pushed(op) is Some {
        Ok(pushed(fr, constant_pushed(op)->Some_0))
    } else if op is Ldc {
        match entry_at(cp, op->Ldc_0 as int) {
            Some(CpInfoView::Integer(x)) => Ok(pushed(fr, signed_32(x.val as int) as isize)),
            Some(CpInfoView::String(_)) => Ok(pushed(fr, op->Ldc_0 as isize)),
            _ => Err(ExecError::BadConstant(op->Ldc_0)),
        }
    } else if load_slot(op) is Some {
        let slot = load_slot(op)->Some_0;
        if slot < fr.locals.len() {
            Ok(pushed(fr, fr.locals[slot as int]))
        } else {
            Err(ExecError::LocalOutOfRange(slot))
        }
    } else if store_slot(op) is Some {
        let slot = store_slot(op)->Some_0;
        if depth < 1 {
            Err(ExecError::StackUnderflow)
        } else if slot >= fr.locals.len() {
            Err(ExecError::LocalOutOfRange(slot))
        } else {
            Ok(
                FrameView {
                    locals: fr.locals.update(slot as int, fr.stack[depth - 1]),
                    ..popped(fr, 1)
                },
            )
        }
    } else if arithmetic_result(op, 0, 0) is Some {
        if depth < 2 {
            Err(ExecError::StackUnderflow)
        } else {
            let result = arithmetic_result(
                op,
                fr.stack[depth - 2] as int,
                fr.stack[depth - 1] as int,
            )->Some_0;
            if isize::MIN <= result <= isize::MAX {
                Ok(pushed(popped(fr, 2), result as isize))
            } else {
                Err(ExecError::Overflow)
            }
        }
    } else if branch_offset(op) is Some {
        let offset = branch_offset(op)->Some_0;
        if depth < branch_operands(op) {
            Err(ExecError::StackUnderflow)
        } else if !branch_taken(op, fr.stack) {
            Ok(popped(fr, branch_operands(op)))
        } else if seek_lands(fr.code, fr.pc, offset as int) {
            Ok(FrameView { pc: fr.pc + offset, ..popped(fr, branch_operands(op)) })
        } else {
            Err(ExecError::BadBranch(offset))
        }
    } else if op is GetStatic {
        Ok(fr)
    } else {
        Err(ExecError::OpcodeNotImplemented(op))
    }
}

/// The name and the descriptor of the method that the method reference at
/// `index` names. The reference, its class with the name of that class,
/// and its name-and-type with both texts all have to resolve; the failure
/// names the first index that does not.
pub open spec fn resolved_method(cp: Seq<CpInfoView>, index: usize) -> Result<
    (Seq<char>, Seq<char>),
    ExecError,
> {
    match methodref_at(cp, index as int) {
        None => Err(ExecError::BadConstant(index)),
        Some(method) => match class_at(cp, method.class_index as int) {
            None => Err(ExecError::BadConstant(method.class_index)),
            Some(class) => if utf_at(cp, class.name_index as int) is None {
                Err(ExecError::BadConstant(class.name_index))
            } else {
                match name_and_type_at(cp, method.name_and_type_index as int) {
                    None => Err(ExecError::BadConstant(method.name_and_type_index)),
                    Some(pair) => match (
                        utf_at(cp, pair.name_index as int),
                        utf_at(cp, pair.descriptor_index as int),
                    ) {
                        (None, _) => Err(ExecError::BadConstant(pair.name_index)),
                        (Some(_), None) => Err(ExecError::BadConstant(pair.descriptor_index)),
                        (Some(name), Some(descriptor)) => Ok((name, descriptor)),
                    },
                }
            },
        },
    }
}

/// The text behind a string reference: the reference is the pool index of
/// a string constant, which leads to a text constant.
pub open spec fn string_text(cp: Seq<CpInfoView>, reference: isize) -> Option<Seq<char>> {
    match string_at(cp, reference as int) {
        None => None,
        Some(s) => utf_at(cp, s.string_index as int),
    }
}

/// What a call of a built-in method does to the calling frame, and what it
/// asks to be printed. `fr` is the frame with the cursor already behind
/// the instruction. The built-in methods are `println` for a number and
/// `println` for a string; each takes its argument off the stack.
pub open spec fn native_call(cp: Seq<CpInfoView>, index: usize, fr: FrameView) -> Result<
    (FrameView, EventView),
    ExecError,
> {
    let depth = fr.stack.len();
    match resolved_method(cp, index) {
        Err(e) => Err(e),
        Ok((name, descriptor)) => if name == "println"@ && descriptor == "(I)V"@ {
            if depth < 1 {
                Err(ExecError::StackUnderflow)
            } else {
                Ok((popped(fr, 1), EventView::PrintInt(fr.stack[depth - 1])))
            }
        } else if name == "println"@ && descriptor == "(Ljava/lang/String;)V"@ {
            if depth < 1 {
                Err(ExecError::StackUnderflow)
            } else {
                match string_text(cp, fr.stack[depth - 1]) {
                    None => Err(ExecError::BadReference(fr.stack[depth - 1])),
                    Some(text) => Ok((popped(fr, 1), EventView::PrintString(text))),
                }
            }
        } else {
            Err(ExecError::NativeNotImplemented(index))
        },
    }
}

/// The frame in which the method `callee` starts when it is called with
/// the operand stack `stack`: as many local slots as the method declares,
/// filled from the top of the stack downwards, so that slot 0 holds the
/// value that was pushed last; an empty operand stack; the cursor at the
/// start of the method's own instruction stream.
pub open spec fn callee_frame(callee: MethodView, stack: Seq<isize>) -> FrameView {
    FrameView {
        code: callee.code.code_raw,
        pc: 0,
        locals: Seq::new(callee.code.max_locals as nat, |j: int| stack[stack.len() - 1 - j]),
        stack: Seq::empty(),
        max_stack: callee.code.max_stack,
    }
}

/// What a call of a static method does: the calling frame, with the
/// arguments taken off its stack, and the frame of the callee. `fr` is the
/// calling frame with the cursor already behind the instruction. The
/// method has to be in the table, and the stack has to hold a value for
/// each local slot of the callee.
pub open spec fn static_call(
    cp: Seq<CpInfoView>,
    table: Seq<MethodView>,
    index: usize,
    fr: FrameView,
) -> Result<(FrameView, FrameView), ExecError> {
    match resolved_method(cp, index) {
        Err(e) => Err(e),
        Ok((name, descriptor)) => match lookup(table, name, descriptor) {
            None => Err(ExecError::MethodNotFound(index)),
            Some(k) => if fr.stack.len() < table[k].code.max_locals {
                Err(ExecError::StackUnderflow)
            } else {
                Ok((popped(fr, table[k].code.max_locals as nat), callee_frame(table[k], fr.stack)))
            },
        },
    }
}

/// The machine after its active frame has returned with `value`: `below`
/// are the frames under the one that returned. The value, if there is one,
/// goes on the stack of the caller; without a caller it is dropped and the
/// machine halts.
pub open spec fn returned(below: Seq<FrameView>, value: Option<isize>) -> (
    Seq<FrameView>,
    EventView,
) {
    if below.len() == 0 {
        (below, EventView::Halt)
    } else {
        match value {
            None => (below, EventView::Continue),
            Some(v) => (below.drop_last().push(pushed(below.last(), v)), EventView::Continue),
        }
    }
}

/// One step of the machine `m` for the constant pool `cp` and the method
/// table `table`: the machine after the step and the event of the step,
/// or the failure that ends the run.
///
/// A machine without frames stays halted. Otherwise the instruction at the
/// cursor of the active frame is decoded. If the stream ends there, the
/// frame returns without a value. `return` and `ireturn` leave the frame,
/// `ireturn` with the top value; the two `invoke` instructions call a
/// built-in or a static method; every other instruction works inside the
/// active frame.
pub open spec fn step_spec(cp: Seq<CpInfoView>, table: Seq<MethodView>, m: Seq<FrameView>) -> Result<
    (Seq<FrameView>, EventView),
    ExecError,
> {
    if m.len() == 0 {
        Ok((m, EventView::Halt))
    } else {
        let below = m.drop_last();
        let (decoded, next) = parsed_instruction(m.last().code, m.last().pc);
        let fr = FrameView { pc: next, ..m.last() };
        match decoded {
            Err(DecodeError::EndOfData) => Ok(returned(below, None)),
            Err(e) => Err(ExecError::Decode(e)),
            Ok(OpCode::Return) => Ok(returned(below, None)),
            Ok(OpCode::IReturn) => if fr.stack.len() < 1 {
                Err(ExecError::StackUnderflow)
            } else {
                Ok(returned(below, Some(fr.stack[fr.stack.len() - 1])))
            },
            Ok(OpCode::InvokeVirtual(index)) => match native_call(cp, index, fr) {
                Err(e) => Err(e),
                Ok((caller, event)) => Ok((below.push(caller), event)),
            },
            Ok(OpCode::InvokeStatic(index)) => match static_call(cp, table, index, fr) {
                Err(e) => Err(e),
                Ok((caller, callee)) => Ok((below.push(caller).push(callee), EventView::Continue)),
            },
            Ok(op) => match local_step(op, cp, fr) {
                Err(e) => Err(e),
                Ok(after) => Ok((below.push(after), EventView::Continue)),
            },
        }
    }
}

/// What an event adds to the output of a run: the event itself if it asks
/// for a line to be printed, nothing otherwise.
pub open spec fn printed(event: EventView) -> Seq<EventView> {
    match event {
        EventView::PrintInt(_) | EventView::PrintString(_) => seq![event],
        _ => Seq::empty(),
    }
}

/// What running the machine `m` for at most `fuel` steps prints, and how
/// the run ends: with the machine that is left, halted or not, or with the
/// failure of the step that failed. The run ends early when the machine
/// halts.
pub open spec fn exec_spec(
    cp: Seq<CpInfoView>,
    table: Seq<MethodView>,
    m: Seq<FrameView>,
    fuel: nat,
) -> (Seq<EventView>, Result<Seq<FrameView>, ExecError>)
    decreases fuel,
{
    if fuel == 0 || m.len() == 0 {
        (Seq::empty(), Ok(m))
    } else {
        match step_spec(cp, table, m) {
            Err(e) => (Seq::empty(), Err(e)),
            Ok((next, event)) => {
                let rest = exec_spec(cp, table, next, (fuel - 1) as nat);
                (printed(event) + rest.0, rest.1)
            },
        }
    }
}

} // verus!
