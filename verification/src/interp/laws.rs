//! What holds of every step of the machine, of whole runs and of whole
//! invocations.

use crate::class::constant_pool::CpInfoView;
use crate::code::{parsed_instruction, OpCode};
use crate::interp::machine::{EventView, FrameView};
use crate::interp::semantics::{
    arithmetic_result, branch_offset, branch_operands, branch_taken, constant_pushed, exec_spec,
    load_slot, local_step, pushed, returned, step_spec, store_slot,
};
use crate::interp::table::MethodView;
use crate::interp::ExecError;
use crate::source::seek_lands;
use vstd::prelude::*;

verus! {

/// The number of operands that an instruction which works inside one
/// frame takes off the stack: one for a store, two for arithmetic, and for
/// a branch what `branch_operands` says.
pub open spec fn operands_popped(op: OpCode) -> nat {
    if store_slot(op) is Some {
        1
    } else if arithmetic_result(op, 0, 0) is Some {
        2
    } else {
        branch_operands(op)
    }
}

/// The number of values that an instruction which works inside one frame
/// pushes: one for a constant, a load and arithmetic, none for the others.
pub open spec fn values_pushed(op: OpCode) -> nat {
    if constant_pushed(op) is Some || op is Ldc || load_slot(op) is Some || arithmetic_result(
        op,
        0,
        0,
    ) is Some {
        1
    } else {
        0
    }
}

/// Whether every frame of the machine has an operand stack no deeper than
/// its method declares.
pub open spec fn within_limits(m: Seq<FrameView>) -> bool {
    forall|i: int| 0 <= i < m.len() ==> (#[trigger] m[i]).stack.len() <= m[i].max_stack
}

/// A branch is decided by its operands alone. When the active frame
/// stands at a branch instruction and the stack holds its operands, the
/// step takes exactly these operands off; the cursor then stands behind
/// the instruction if the condition of the instruction does not hold of
/// them, and `offset` bytes from there if it does. The step fails exactly
/// when the condition holds and the target is no byte of the stream.
pub proof fn lemma_branch_decided(cp: Seq<CpInfoView>, table: Seq<MethodView>, m: Seq<FrameView>)
    requires
        m.len() > 0,
        parsed_instruction(m.last().code, m.last().pc).0 is Ok,
        branch_offset(parsed_instruction(m.last().code, m.last().pc).0->Ok_0) is Some,
        m.last().stack.len() >= branch_operands(
            parsed_instruction(m.last().code, m.last().pc).0->Ok_0,
        ),
    ensures
        ({
            let top = m.last();
            let op = parsed_instruction(top.code, top.pc).0->Ok_0;
            let next = parsed_instruction(top.code, top.pc).1;
            let offset = branch_offset(op)->Some_0;
            let rest = top.stack.take(top.stack.len() - branch_operands(op));
            if !branch_taken(op, top.stack) {
                step_spec(cp, table, m) == Ok::<(Seq<FrameView>, EventView), ExecError>(
                    (m.drop_last().push(FrameView { pc: next, stack: rest, ..top }), EventView::Continue),
                )
            } else if seek_lands(top.code, next, offset as int) {
                step_spec(cp, table, m) == Ok::<(Seq<FrameView>, EventView), ExecError>(
                    (
                        m.drop_last().push(FrameView { pc: next + offset, stack: rest, ..top }),
                        EventView::Continue,
                    ),
                )
            } else {
                step_spec(cp, table, m) == Err::<(Seq<FrameView>, EventView), ExecError>(
                    ExecError::BadBranch(offset),
                )
            }
        }),
{
}

/// An instruction that works inside one frame and succeeds takes off the
/// stack exactly the operands that it is documented to take, pushes
/// exactly the values that it is documented to push, and leaves what lay
/// below its operands as it was.
pub proof fn lemma_stack_effect(op: OpCode, cp: Seq<CpInfoView>, fr: FrameView)
    requires
        local_step(op, cp, fr) is Ok,
    ensures
        ({
            let after = local_step(op, cp, fr)->Ok_0;
            let kept = fr.stack.len() - operands_popped(op);
            &&& kept >= 0
            &&& after.stack.len() == kept + values_pushed(op)
            &&& after.stack.take(kept) == fr.stack.take(kept)
            &&& after.code == fr.code
            &&& after.max_stack == fr.max_stack
            &&& after.locals.len() == fr.locals.len()
        }),
{
}

/// The frames of the machine do not reach into each other. A step that
/// succeeds leaves every frame below the caller of the active frame as it
/// was. The caller itself changes in one way only: when the active frame
/// returns, its frame is gone and the caller has at most the returned
/// value more on its stack. A call gives the callee a frame of its own:
/// its operand stack is empty and the caller keeps its locals, its code
/// and the part of its stack below the arguments.
pub proof fn lemma_frames_isolated(cp: Seq<CpInfoView>, table: Seq<MethodView>, m: Seq<FrameView>)
    requires
        m.len() > 0,
        step_spec(cp, table, m) is Ok,
    ensures
        ({
            let after = step_spec(cp, table, m)->Ok_0.0;
            let active = m.len() - 1;
            &&& active <= after.len() <= active + 2
            &&& forall|i: int| 0 <= i < active - 1 ==> #[trigger] after[i] == m[i]
            &&& active >= 1 ==> after[active - 1] == m[active - 1] || (after.len() == active
                && exists|value: isize| after[active - 1] == #[trigger] pushed(m[active - 1], value))
            &&& after.len() == active + 1 ==> after[active].code == m[active].code
                && after[active].max_stack == m[active].max_stack && after[active].locals.len()
                == m[active].locals.len()
            &&& after.len() == active + 2 ==> after[active + 1].stack.len() == 0
                && after[active].locals == m[active].locals && after[active].code == m[active].code
                && after[active].max_stack == m[active].max_stack && after[active].stack
                == m[active].stack.take(m[active].stack.len() - after[active + 1].locals.len())
        }),
{
}

/// A step makes no operand stack deeper by more than one value, and a
/// frame never changes the depth that its method declares. So the stacks
/// stay within their declared depths as long as the program pushes only
/// where the declared depth leaves room.
pub proof fn lemma_limits_kept(cp: Seq<CpInfoView>, table: Seq<MethodView>, m: Seq<FrameView>)
    requires
        m.len() > 0,
        step_spec(cp, table, m) is Ok,
    ensures
        ({
            let after = step_spec(cp, table, m)->Ok_0.0;
            &&& forall|i: int|
                0 <= i < m.len() && i < after.len() ==> (#[trigger] after[i]).max_stack
                    == m[i].max_stack && after[i].stack.len() <= m[i].stack.len() + 1
            &&& after.len() > m.len() ==> after.last().stack.len() == 0
            &&& within_limits(m) && (forall|i: int|
                0 <= i < m.len() && i < after.len() && (#[trigger] after[i]).stack.len()
                    > m[i].stack.len() ==> m[i].stack.len() < m[i].max_stack) ==> within_limits(
                after,
            )
        }),
{
    lemma_frames_isolated(cp, table, m);
}

/// The machine that `m` has become after `n` steps, if none of them
/// failed.
pub open spec fn reached(
    cp: Seq<CpInfoView>,
    table: Seq<MethodView>,
    m: Seq<FrameView>,
    n: nat,
) -> Option<Seq<FrameView>>
    decreases n,
{
    if n == 0 {
        Some(m)
    } else {
        match reached(cp, table, m, (n - 1) as nat) {
            None => None,
            Some(s) => match step_spec(cp, table, s) {
                Ok((next, _)) => Some(next),
                Err(_) => None,
            },
        }
    }
}

/// Whether the instruction at the cursor of the active frame keeps to the
/// declared stack depth by its documented effect: what it pushes, less
/// what it takes off, fits the stack of its frame, and a value that it
/// returns fits the stack of the caller. Calls and returns without a value
/// push nothing.
pub open spec fn room_for_step(m: Seq<FrameView>) -> bool {
    if m.len() == 0 {
        true
    } else {
        let top = m.last();
        match parsed_instruction(top.code, top.pc).0 {
            Ok(OpCode::IReturn) => m.len() >= 2 ==> m[m.len() - 2].stack.len() < m[m.len()
                - 2].max_stack,
            Ok(OpCode::Return) | Ok(OpCode::InvokeVirtual(_)) | Ok(OpCode::InvokeStatic(_)) => true,
            Ok(op) => top.stack.len() - operands_popped(op) + values_pushed(op) <= top.max_stack,
            Err(_) => true,
        }
    }
}

/// A step of an instruction that keeps to the declared depth leaves every
/// stack within the depth that its method declares.
pub proof fn lemma_step_with_room(cp: Seq<CpInfoView>, table: Seq<MethodView>, m: Seq<FrameView>)
    requires
        within_limits(m),
        room_for_step(m),
        step_spec(cp, table, m) is Ok,
    ensures
        within_limits(step_spec(cp, table, m)->Ok_0.0),
{
    if m.len() > 0 {
        let after = step_spec(cp, table, m)->Ok_0.0;
        let (decoded, next) = parsed_instruction(m.last().code, m.last().pc);
        let fr = FrameView { pc: next, ..m.last() };
        lemma_frames_isolated(cp, table, m);
        match decoded {
            Ok(OpCode::IReturn) | Ok(OpCode::Return) | Ok(OpCode::InvokeVirtual(_)) | Ok(
                OpCode::InvokeStatic(_),
            ) => {},
            Ok(op) => {
                lemma_stack_effect(op, cp, fr);
            },
            Err(_) => {},
        }
        assert forall|i: int| 0 <= i < after.len() implies (#[trigger] after[i]).stack.len()
            <= after[i].max_stack by {
            if i < m.len() {
                assert(m[i].stack.len() <= m[i].max_stack);
            }
        }
    }
}

/// Stack discipline over a whole run. When the machine starts within the
/// declared depths and every instruction that it comes to keeps to the
/// declared depth by its documented effect, then every state of the run is
/// within the declared depths: in the frame of the entry method and in the
/// frame of every callee.
pub proof fn lemma_run_within_limits(
    cp: Seq<CpInfoView>,
    table: Seq<MethodView>,
    m: Seq<FrameView>,
    n: nat,
)
    requires
        within_limits(m),
        forall|k: nat|
            k < n && (#[trigger] reached(cp, table, m, k)) is Some ==> room_for_step(
                reached(cp, table, m, k)->Some_0,
            ),
    ensures
        reached(cp, table, m, n) is Some ==> within_limits(reached(cp, table, m, n)->Some_0),
    decreases n,
{
    if n > 0 && reached(cp, table, m, n) is Some {
        let before = reached(cp, table, m, (n - 1) as nat);
        lemma_run_within_limits(cp, table, m, (n - 1) as nat);
        assert(room_for_step(before->Some_0));
        lemma_step_with_room(cp, table, before->Some_0);
    }
}

/// A run that starts one step later: the state after `n + 1` steps from
/// `m` is the state after `n` steps from the state behind the first step.
pub proof fn lemma_reached_from_next(
    cp: Seq<CpInfoView>,
    table: Seq<MethodView>,
    m: Seq<FrameView>,
    n: nat,
)
    ensures
        reached(cp, table, m, n + 1) == match step_spec(cp, table, m) {
            Ok((next, _)) => reached(cp, table, next, n),
            Err(_) => None,
        },
    decreases n,
{
    assert(reached(cp, table, m, 0) == Some(m));
    if n > 0 {
        lemma_reached_from_next(cp, table, m, (n - 1) as nat);
        assert(reached(cp, table, m, n) == match step_spec(cp, table, m) {
            Ok((next, _)) => reached(cp, table, next, (n - 1) as nat),
            Err(_) => None,
        });
        if step_spec(cp, table, m) is Ok {
            let next = step_spec(cp, table, m)->Ok_0.0;
            assert(reached(cp, table, next, n) == match reached(cp, table, next, (n - 1) as nat) {
                None => None,
                Some(s) => match step_spec(cp, table, s) {
                    Ok((after, _)) => Some(after),
                    Err(_) => None,
                },
            });
        }
    } else if step_spec(cp, table, m) is Ok {
        assert(reached(cp, table, step_spec(cp, table, m)->Ok_0.0, 0) == Some(
            step_spec(cp, table, m)->Ok_0.0,
        ));
    }
}

/// The machine that a bounded run hands back is a state of the run: it is
/// what the machine has become after some number of steps within the
/// fuel.
pub proof fn lemma_exec_reaches(
    cp: Seq<CpInfoView>,
    table: Seq<MethodView>,
    m: Seq<FrameView>,
    fuel: nat,
)
    ensures
        exec_spec(cp, table, m, fuel).1 is Ok ==> exists|n: nat|
            n <= fuel && #[trigger] reached(cp, table, m, n) == Some(
                exec_spec(cp, table, m, fuel).1->Ok_0,
            ),
    decreases fuel,
{
    if exec_spec(cp, table, m, fuel).1 is Ok {
        if fuel == 0 || m.len() == 0 {
            assert(reached(cp, table, m, 0) == Some(m));
        } else {
            let next = step_spec(cp, table, m)->Ok_0.0;
            lemma_exec_reaches(cp, table, next, (fuel - 1) as nat);
            let n = choose|n: nat|
                n <= fuel - 1 && #[trigger] reached(cp, table, next, n) == Some(
                    exec_spec(cp, table, next, (fuel - 1) as nat).1->Ok_0,
                );
            lemma_reached_from_next(cp, table, m, n);
            assert(reached(cp, table, m, n + 1) == Some(exec_spec(cp, table, m, fuel).1->Ok_0));
        }
    }
}

/// Stack discipline of a bounded run: for a program that keeps to the
/// declared depths by the documented effects of its instructions, the
/// machine that the run hands back is within the declared depths.
pub proof fn lemma_exec_within_limits(
    cp: Seq<CpInfoView>,
    table: Seq<MethodView>,
    m: Seq<FrameView>,
    fuel: nat,
)
    requires
        within_limits(m),
        forall|k: nat|
            (#[trigger] reached(cp, table, m, k)) is Some ==> room_for_step(
                reached(cp, table, m, k)->Some_0,
            ),
    ensures
        exec_spec(cp, table, m, fuel).1 is Ok ==> within_limits(
            exec_spec(cp, table, m, fuel).1->Ok_0,
        ),
{
    if exec_spec(cp, table, m, fuel).1 is Ok {
        lemma_exec_reaches(cp, table, m, fuel);
        let n = choose|n: nat|
            n <= fuel && #[trigger] reached(cp, table, m, n) == Some(
                exec_spec(cp, table, m, fuel).1->Ok_0,
            );
        lemma_run_within_limits(cp, table, m, n);
    }
}

/// Call isolation over a whole invocation. Let the active frame of `m` be
/// the frame of an invocation, and let the machine take `n` steps during
/// which that frame is never gone before the last of them. Then every
/// frame below the invocation is as it was for as long as the invocation
/// is under way. When the invocation has returned, the frames below its
/// caller are as they were, and the caller has changed in one way at most:
/// the returned value lies on top of its stack, with its locals, its code
/// and the rest of its stack untouched.
pub proof fn lemma_invocation_isolated(
    cp: Seq<CpInfoView>,
    table: Seq<MethodView>,
    m: Seq<FrameView>,
    n: nat,
)
    requires
        m.len() > 0,
        forall|k: nat|
            k < n ==> (#[trigger] reached(cp, table, m, k)) is Some && reached(
                cp,
                table,
                m,
                k,
            )->Some_0.len() >= m.len(),
        reached(cp, table, m, n) is Some,
    ensures
        ({
            let below = m.len() - 1;
            let s = reached(cp, table, m, n)->Some_0;
            &&& s.len() >= below
            &&& s.len() > below ==> forall|i: int| 0 <= i < below ==> #[trigger] s[i] == m[i]
            &&& s.len() == below ==> forall|i: int| 0 <= i < below - 1 ==> #[trigger] s[i] == m[i]
            &&& s.len() == below && below > 0 ==> s[below - 1] == m[below - 1] || exists|
                value: isize,
            | s[below - 1] == #[trigger] pushed(m[below - 1], value)
        }),
    decreases n,
{
    if n > 0 {
        let below = m.len() - 1;
        let before = reached(cp, table, m, (n - 1) as nat)->Some_0;
        let s = reached(cp, table, m, n)->Some_0;
        assert(reached(cp, table, m, (n - 1) as nat) is Some && before.len() >= m.len());
        lemma_invocation_isolated(cp, table, m, (n - 1) as nat);
        lemma_frames_isolated(cp, table, before);
        let active = before.len() - 1;
        assert forall|i: int| 0 <= i < below - 1 implies #[trigger] s[i] == m[i] by {
            assert(s[i] == before[i]);
            assert(before[i] == m[i]);
        }
        if s.len() > below && below > 0 {
            assert(s[below - 1] == before[below - 1]);
            assert(before[below - 1] == m[below - 1]);
        }
        if s.len() == below && below > 0 {
            assert(before[below - 1] == m[below - 1]);
        }
    }
}

} // verus!
