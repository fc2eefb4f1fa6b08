//! The machine at work: one step, and a run of a bounded number of steps.

use crate::class::attribute::{text_is, CodeAttribute};
use crate::class::constant_pool::{CpInfo, CpPool};
use crate::class::Class;
use crate::code::OpCode;
use crate::error::DecodeError;
use crate::interp::machine::{Event, EventView, Frame, FrameView, Machine};
use crate::interp::semantics::{
    arithmetic_result, branch_offset, constant_pushed, exec_spec, load_slot, local_step,
    native_call, popped, printed, resolved_method, returned, signed_32, static_call, step_spec,
    store_slot, string_text,
};
use crate::interp::table::{lookup, MethodTable};
use crate::interp::ExecError;
use crate::source::{agrees, copy_bytes, seek_lands, ByteStream};
use vstd::prelude::*;

verus! {

fn constant_of(op: OpCode) -> (r: Option<isize>)
    ensures
        r == constant_pushed(op),
{
    match op {
        OpCode::IConstM1 => Some(-1),
        OpCode::IConst0 => Some(0),
        OpCode::IConst1 => Some(1),
        OpCode::IConst2 => Some(2),
        OpCode::IConst3 => Some(3),
        OpCode::IConst4 => Some(4),
        OpCode::IConst5 => Some(5),
        OpCode::BiPush(x) => Some(x),
        OpCode::SiPush(x) => Some(x),
        _ => None,
    }
}

fn load_slot_of(op: OpCode) -> (r: Option<usize>)
    ensures
        r == load_slot(op),
{
    match op {
        OpCode::ILoad0 | OpCode::ALoad0 => Some(0),
        OpCode::ILoad1 | OpCode::ALoad1 => Some(1),
        OpCode::ILoad2 | OpCode::ALoad2 => Some(2),
        OpCode::ILoad3 | OpCode::ALoad3 => Some(3),
        _ => None,
    }
}

fn store_slot_of(op: OpCode) -> (r: Option<usize>)
    ensures
        r == store_slot(op),
{
    match op {
        OpCode::IStore0 | OpCode::AStore0 => Some(0),
        OpCode::IStore1 | OpCode::AStore1 => Some(1),
        OpCode::IStore2 | OpCode::AStore2 => Some(2),
        OpCode::IStore3 | OpCode::AStore3 => Some(3),
        _ => None,
    }
}

fn widen_32(val: usize) -> (r: isize)
    ensures
        r == signed_32(val as int),
{
    let low: u64 = (val as u64) % 0x1_0000_0000;
    if low < 0x8000_0000 {
        low as isize
    } else {
        (low as i64 - 0x1_0000_0000) as isize
    }
}

fn pop_value(stack: &mut Vec<isize>) -> (r: Result<isize, ExecError>)
    ensures
        match r {
            Ok(v) => old(stack)@.len() > 0 && v == old(stack)@[old(stack)@.len() - 1]
                && final(stack)@ == old(stack)@.take(old(stack)@.len() - 1),
            Err(e) => e == ExecError::StackUnderflow && old(stack)@.len() == 0 && final(stack)@
                == old(stack)@,
        },
{
    match stack.pop() {
        Some(v) => Ok(v),
        None => Err(ExecError::StackUnderflow),
    }
}

fn jump(fr: Frame, taken: bool, offset: isize) -> (r: Result<Frame, ExecError>)
    ensures
        agrees(
            r,
            if !taken {
                Ok(fr@)
            } else if seek_lands(fr@.code, fr@.pc, offset as int) {
                Ok(FrameView { pc: fr@.pc + offset, ..fr@ })
            } else {
                Err(ExecError::BadBranch(offset))
            },
        ),
{
    let mut fr = fr;
    if taken {
        match fr.code.advance_by(offset) {
            Some(_) => Ok(fr),
            None => Err(ExecError::BadBranch(offset)),
        }
    } else {
        Ok(fr)
    }
}

fn arithmetic(op: OpCode, fr: Frame) -> (r: Result<Frame, ExecError>)
    requires
        arithmetic_result(op, 0, 0) is Some,
    ensures
        agrees(r, local_step(op, Seq::empty(), fr@)),
{
    let ghost before = fr@;
    let mut fr = fr;
    let a = pop_value(&mut fr.stack)?;
    let b = pop_value(&mut fr.stack)?;
    assert(fr@ == popped(before, 2)) by {
        assert(fr.stack@ == before.stack.take(before.stack.len() - 2));
    }
    let result = match op {
        OpCode::IAdd => a.checked_add(b),
        OpCode::ISub => b.checked_sub(a),
        _ => a.checked_mul(b),
    };
    match result {
        Some(v) => {
            fr.stack.push(v);
            Ok(fr)
        },
        None => Err(ExecError::Overflow),
    }
}

fn branch(op: OpCode, fr: Frame) -> (r: Result<Frame, ExecError>)
    requires
        branch_offset(op) is Some,
    ensures
        agrees(r, local_step(op, Seq::empty(), fr@)),
{
    let ghost before = fr@;
    let mut fr = fr;
    match op {
        OpCode::Goto(offset) => {
            assert(fr@ == popped(before, 0)) by {
                assert(fr.stack@ == before.stack.take(before.stack.len() - 0));
            }
            jump(fr, true, offset)
        },
        OpCode::IfEq(offset)
        | OpCode::IfNe(offset)
        | OpCode::IfLt(offset)
        | OpCode::IfGe(offset)
        | OpCode::IfGt(offset)
        | OpCode::IfLe(offset) => {
            let a = pop_value(&mut fr.stack)?;
            let taken = match op {
                OpCode::IfEq(_) => a == 0,
                OpCode::IfNe(_) => a != 0,
                OpCode::IfLt(_) => a < 0,
                OpCode::IfGe(_) => a >= 0,
                OpCode::IfGt(_) => a > 0,
                _ => a <= 0,
            };
            jump(fr, taken, offset)
        },
        OpCode::IfICmpEq(offset)
        | OpCode::IfICmpNe(offset)
        | OpCode::IfICmpLt(offset)
        | OpCode::IfICmpGe(offset)
        | OpCode::IfICmpGt(offset)
        | OpCode::IfICmpLe(offset) => {
            let a = pop_value(&mut fr.stack)?;
            let b = pop_value(&mut fr.stack)?;
            assert(fr@ == popped(before, 2)) by {
                assert(fr.stack@ == before.stack.take(before.stack.len() - 2));
            }
            let taken = match op {
                OpCode::IfICmpEq(_) => b == a,
                OpCode::IfICmpNe(_) => b != a,
                OpCode::IfICmpLt(_) => b < a,
                OpCode::IfICmpGe(_) => b >= a,
                OpCode::IfICmpGt(_) => b > a,
                _ => b <= a,
            };
            jump(fr, taken, offset)
        },
        _ => Ok(fr),
    }
}

/// Executes an instruction that works inside one frame. `fr` is the frame
/// with the cursor already behind the instruction; the frame that comes
/// back is the one that `local_step` describes.
pub fn run_local(op: OpCode, cp: &CpPool, fr: Frame) -> (r: Result<Frame, ExecError>)
    ensures
        agrees(r, local_step(op, cp@, fr@)),
{
    let mut fr = fr;
    if let Some(value) = constant_of(op) {
        fr.stack.push(value);
        Ok(fr)
    } else if let OpCode::Ldc(index) = op {
        match cp.get(index) {
            Some(CpInfo::Integer(x)) => {
                fr.stack.push(widen_32(x.val));
                Ok(fr)
            },
            Some(CpInfo::String(_)) => {
                fr.stack.push(index as isize);
                Ok(fr)
            },
            _ => Err(ExecError::BadConstant(index)),
        }
    } else if let Some(slot) = load_slot_of(op) {
        if slot < fr.locals.len() {
            let value = fr.locals[slot];
            fr.stack.push(value);
            Ok(fr)
        } else {
            Err(ExecError::LocalOutOfRange(slot))
        }
    } else if let Some(slot) = store_slot_of(op) {
        let value = pop_value(&mut fr.stack)?;
        if slot < fr.locals.len() {
            fr.locals.set(slot, value);
            Ok(fr)
        } else {
            Err(ExecError::LocalOutOfRange(slot))
        }
    } else {
        match op {
            OpCode::IAdd | OpCode::ISub | OpCode::IMul => arithmetic(op, fr),
            OpCode::IfEq(_)
            | OpCode::IfNe(_)
            | OpCode::IfLt(_)
            | OpCode::IfGe(_)
            | OpCode::IfGt(_)
            | OpCode::IfLe(_)
            | OpCode::IfICmpEq(_)
            | OpCode::IfICmpNe(_)
            | OpCode::IfICmpLt(_)
            | OpCode::IfICmpGe(_)
            | OpCode::IfICmpGt(_)
            | OpCode::IfICmpLe(_)
            | OpCode::Goto(_) => branch(op, fr),
            OpCode::GetStatic(_) => Ok(fr),
            _ => Err(ExecError::OpcodeNotImplemented(op)),
        }
    }
}

fn resolve_method<'b>(cp: &'b CpPool, index: usize) -> (r: Result<
    (&'b String, &'b String),
    ExecError,
>)
    ensures
        match resolved_method(cp@, index) {
            Ok((name, descriptor)) => r matches Ok(x) && x.0@ == name && x.1@ == descriptor,
            Err(e) => r matches Err(x) && x == e,
        },
{
    let method = match cp.get_methodref(index) {
        Some(x) => x,
        None => return Err(ExecError::BadConstant(index)),
    };
    let class = match cp.get_class(method.class_index) {
        Some(x) => x,
        None => return Err(ExecError::BadConstant(method.class_index)),
    };
    if cp.get_utf(class.name_index).is_none() {
        return Err(ExecError::BadConstant(class.name_index));
    }
    let pair = match cp.get_name_and_type(method.name_and_type_index) {
        Some(x) => x,
        None => return Err(ExecError::BadConstant(method.name_and_type_index)),
    };
    let name = match cp.get_utf(pair.name_index) {
        Some(x) => x,
        None => return Err(ExecError::BadConstant(pair.name_index)),
    };
    let descriptor = match cp.get_utf(pair.descriptor_index) {
        Some(x) => x,
        None => return Err(ExecError::BadConstant(pair.descriptor_index)),
    };
    Ok((&name.bytes, &descriptor.bytes))
}

fn text_of_string(cp: &CpPool, reference: isize) -> (r: Option<String>)
    ensures
        match string_text(cp@, reference) {
            Some(text) => r matches Some(x) && x@ == text,
            None => r is None,
        },
{
    if reference < 0 {
        return None;
    }
    let string = match cp.get_string(reference as usize) {
        Some(x) => x,
        None => return None,
    };
    match cp.get_utf(string.string_index) {
        Some(x) => Some(x.bytes.clone()),
        None => None,
    }
}

fn call_native(cp: &CpPool, index: usize, fr: Frame) -> (r: Result<(Frame, Event), ExecError>)
    ensures
        match native_call(cp@, index, fr@) {
            Ok((caller, event)) => r matches Ok(x) && x.0@ == caller && x.1@ == event,
            Err(e) => r matches Err(x) && x == e,
        },
{
    let mut fr = fr;
    let (name, descriptor) = resolve_method(cp, index)?;
    if text_is(name, "println") && text_is(descriptor, "(I)V") {
        let value = pop_value(&mut fr.stack)?;
        Ok((fr, Event::PrintInt(value)))
    } else if text_is(name, "println") && text_is(descriptor, "(Ljava/lang/String;)V") {
        let reference = pop_value(&mut fr.stack)?;
        match text_of_string(cp, reference) {
            Some(text) => Ok((fr, Event::PrintString(text))),
            None => Err(ExecError::BadReference(reference)),
        }
    } else {
        Err(ExecError::NativeNotImplemented(index))
    }
}

#[verifier::loop_isolation(false)]
fn call_static(cp: &CpPool, f: &MethodTable, index: usize, fr: Frame) -> (r: Result<
    (Frame, Frame),
    ExecError,
>)
    ensures
        match static_call(cp@, f@, index, fr@) {
            Ok((caller, callee)) => r matches Ok(x) && x.0@ == caller && x.1@ == callee,
            Err(e) => r matches Err(x) && x == e,
        },
{
    let ghost before = fr@;
    let mut fr = fr;
    let (name, descriptor) = resolve_method(cp, index)?;
    let func = match f.get(name.as_str(), descriptor.as_str()) {
        Some(x) => x,
        None => return Err(ExecError::MethodNotFound(index)),
    };
    let ghost depth = before.stack.len();
    let mut locals: Vec<isize> = Vec::new();
    let mut n: usize = 0;
    while n < func.max_locals
        invariant
            n <= func.max_locals,
            n <= depth,
            depth == before.stack.len(),
            fr.stack@ == before.stack.take(depth - n),
            fr.locals@ == before.locals,
            fr.max_stack == before.max_stack,
            fr.code.bytes() == before.code,
            fr.code.pos() == before.pc,
            locals@ == Seq::new(n as nat, |j: int| before.stack[depth - 1 - j]),
        decreases func.max_locals - n,
    {
        let value = pop_value(&mut fr.stack)?;
        locals.push(value);
        n = n + 1;
    }
    let callee = Frame {
        code: ByteStream { v: copy_bytes(&func.code_raw), i: 0 },
        locals,
        stack: Vec::new(),
        max_stack: func.max_stack,
    };
    Ok((fr, callee))
}

fn leave(frames: Vec<Frame>, value: Option<isize>) -> (r: (Machine, Event))
    ensures
        r.0@ == returned(frames@.map_values(|x: Frame| x@), value).0,
        r.1@ == returned(frames@.map_values(|x: Frame| x@), value).1,
{
    let mut frames = frames;
    if frames.len() == 0 {
        return (Machine { frames }, Event::Halt);
    }
    match value {
        None => (Machine { frames }, Event::Continue),
        Some(v) => {
            let mut caller = frames.pop().unwrap();
            caller.stack.push(v);
            frames.push(caller);
            (Machine { frames }, Event::Continue)
        },
    }
}

impl Machine {
    /// The machine at the start of a run of the method body `entry`: one
    /// frame, all its local slots 0, its operand stack empty, its cursor at
    /// the first instruction.
    pub fn start(entry: &CodeAttribute) -> (r: Machine)
        ensures
            r@ == seq![
                FrameView {
                    code: entry.code_raw@,
                    pc: 0,
                    locals: Seq::new(entry.max_locals as nat, |j: int| 0isize),
                    stack: Seq::empty(),
                    max_stack: entry.max_stack,
                },
            ],
    {
        let mut locals: Vec<isize> = Vec::new();
        let mut n: usize = 0;
        while n < entry.max_locals
            invariant
                n <= entry.max_locals,
                locals@ == Seq::new(n as nat, |j: int| 0isize),
            decreases entry.max_locals - n,
        {
            locals.push(0);
            n = n + 1;
        }
        let frame = Frame {
            code: ByteStream { v: copy_bytes(&entry.code_raw), i: 0 },
            locals,
            stack: Vec::new(),
            max_stack: entry.max_stack,
        };
        let mut frames: Vec<Frame> = Vec::new();
        frames.push(frame);
        let machine = Machine { frames };
        machine
    }

    /// Whether the machine has halted: no invocation is under way.
    pub fn halted(&self) -> (r: bool)
        ensures
            r == (self@.len() == 0),
    {
        self.frames.len() == 0
    }

    /// Takes one step: executes the instruction at the cursor of the
    /// active frame.
    ///
    /// The outcome is the one that `step_spec` describes for the constant
    /// pool of `c` and the method table `f`: the machine after the step
    /// with the event of the step, or the failure that ends the run. After
    /// a failure there is no machine left to go on with.
    pub fn step(self, c: &Class, f: &MethodTable) -> (r: Result<(Machine, Event), ExecError>)
        ensures
            match step_spec(c@.cp, f@, self@) {
                Ok((m, event)) => r matches Ok(x) && x.0@ == m && x.1@ == event,
                Err(e) => r matches Err(x) && x == e,
            },
    {
        let mut frames = self.frames;
        let mut fr = match frames.pop() {
            Some(fr) => fr,
            None => return Ok((Machine { frames }, Event::Halt)),
        };
        match OpCode::parse(&mut fr.code) {
            Err(DecodeError::EndOfData) => Ok(leave(frames, None)),
            Err(e) => Err(ExecError::Decode(e)),
            Ok(OpCode::Return) => Ok(leave(frames, None)),
            Ok(OpCode::IReturn) => {
                let value = pop_value(&mut fr.stack)?;
                Ok(leave(frames, Some(value)))
            },
            Ok(OpCode::InvokeVirtual(index)) => {
                let (caller, event) = call_native(&c.cp, index, fr)?;
                frames.push(caller);
                Ok((Machine { frames }, event))
            },
            Ok(OpCode::InvokeStatic(index)) => {
                let (caller, callee) = call_static(&c.cp, f, index, fr)?;
                frames.push(caller);
                frames.push(callee);
                Ok((Machine { frames }, Event::Continue))
            },
            Ok(op) => {
                let after = run_local(op, &c.cp, fr)?;
                frames.push(after);
                Ok((Machine { frames }, Event::Continue))
            },
        }
    }
}

/// The machine that is ready to run the entry method of a class: the
/// method named `main` that takes an array of strings and returns nothing.
///
/// Fails with `NoMain`, before anything is executed, exactly when the
/// table holds no method with that name and that descriptor.
pub fn boot(f: &MethodTable) -> (r: Result<Machine, ExecError>)
    ensures
        match lookup(f@, "main"@, "([Ljava/lang/String;)V"@) {
            Some(k) => r matches Ok(m) && m@ == seq![
                FrameView {
                    code: f@[k].code.code_raw,
                    pc: 0,
                    locals: Seq::new(f@[k].code.max_locals as nat, |j: int| 0isize),
                    stack: Seq::empty(),
                    max_stack: f@[k].code.max_stack,
                },
            ],
            None => r matches Err(e) && e == ExecError::NoMain,
        },
{
    match f.get("main", "([Ljava/lang/String;)V") {
        Some(entry) => Ok(Machine::start(entry)),
        None => Err(ExecError::NoMain),
    }
}

/// Executes the machine until it halts, a step fails, or `fuel` steps have
/// been taken, and appends to `out` the events that ask for a line to be
/// printed, in the order of the run.
///
/// The output and the end of the run are the ones that `exec_spec`
/// describes. What was printed before a failure is in `out` all the same.
#[verifier::loop_isolation(false)]
pub fn exec(c: &Class, f: &MethodTable, m: Machine, fuel: usize, out: &mut Vec<Event>) -> (r: Result<
    Machine,
    ExecError,
>)
    ensures
        final(out)@.map_values(|e: Event| e@) == old(out)@.map_values(|e: Event| e@) + exec_spec(
            c@.cp,
            f@,
            m@,
            fuel as nat,
        ).0,
        agrees(r, exec_spec(c@.cp, f@, m@, fuel as nat).1),
{
    let ghost start = old(out)@.map_values(|e: Event| e@);
    let ghost whole = exec_spec(c@.cp, f@, m@, fuel as nat);
    let ghost mut done: Seq<EventView> = Seq::empty();
    let mut machine = m;
    let mut left: usize = fuel;
    while left > 0 && !machine.halted()
        invariant
            out@.map_values(|e: Event| e@) == start + done,
            whole.0 == done + exec_spec(c@.cp, f@, machine@, left as nat).0,
            whole.1 == exec_spec(c@.cp, f@, machine@, left as nat).1,
        decreases left,
    {
        let ghost shown = out@.map_values(|e: Event| e@);
        match machine.step(c, f) {
            Err(e) => {
                return Err(e);
            },
            Ok((next, event)) => {
                proof {
                    done = done + printed(event@);
                }
                machine = next;
                match event {
                    Event::PrintInt(_) | Event::PrintString(_) => {
                        out.push(event);
                        assert(out@.map_values(|e: Event| e@) == shown.push(event@));
                    },
                    _ => {},
                }
            },
        }
        left = left - 1;
    }
    Ok(machine)
}

} // verus!
