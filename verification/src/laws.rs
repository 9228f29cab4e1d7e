//! Laws of the machine's semantics, stated over the small-step function
//! [`spec_step`] and the big-step interpreter [`spec_run`]: what arithmetic
//! and comparison programs print, how `CALL`/`RET` balance the stack, that
//! globals survive calls, how the jumps redirect, and that bad words and
//! empty-stack pops fault rather than misbehave.

use vstd::prelude::*;

use crate::bytecode::{spec_decode, OpCode};
use crate::vm::{
    arith_value, boot_state, cmp_value, lemma_spec_run_fuel_monotonic, prepend_output, spec_run,
    spec_step, zero_seq, Fault, MachineState, RunOutcome, Step, STACK_CAPACITY,
};

verus! {

/// The value a two-operand opcode pushes for left operand `a` (popped
/// second) and right operand `b` (popped first).
pub open spec fn binop_value(op: OpCode, a: i32, b: i32) -> i32 {
    match op {
        OpCode::ADD | OpCode::SUB | OpCode::MUL | OpCode::DIV => arith_value(op, a, b),
        _ => cmp_value(op, a, b),
    }
}

/// True of the opcodes that take two operands off the stack and push one
/// result.
pub open spec fn is_binop(op: OpCode) -> bool {
    match op {
        OpCode::ADD | OpCode::SUB | OpCode::MUL | OpCode::DIV | OpCode::EQ | OpCode::NE
        | OpCode::GT | OpCode::LT | OpCode::GE | OpCode::LE => true,
        _ => false,
    }
}

/// Every program of the shape `PUSH a; PUSH b; <binop>; PRINT; HALT`, run
/// from offset 0 on a fresh machine, halts and prints exactly `a op b`:
/// the second-popped value is the left operand, arithmetic wraps, each
/// comparison pushes exactly 1 or 0, and for `DIV` the divisor must not be
/// zero. Any fuel of at least the five instructions gives this one outcome.
pub proof fn lemma_binop_program(a: i32, b: i32, w: i32, op: OpCode, fuel: nat)
    requires
        spec_decode(w) == Some(op),
        is_binop(op),
        op == OpCode::DIV ==> b != 0,
        fuel >= 5,
    ensures
        spec_run(boot_state(seq![0i32, a, 0i32, b, w, 11i32, 12i32], 0), fuel)
            matches RunOutcome::Halted { output, .. } && output == seq![binop_value(op, a, b)],
{
    let prog = seq![0i32, a, 0i32, b, w, 11i32, 12i32];
    let m0 = boot_state(prog, 0);
    let zs = zero_seq(STACK_CAPACITY as nat);
    assert(prog.len() == 7);
    assert(prog[0] == 0i32 && prog[1] == a && prog[2] == 0i32 && prog[3] == b && prog[4] == w
        && prog[5] == 11i32 && prog[6] == 12i32);
    assert(spec_decode(11i32) == Some(OpCode::PRINT));
    assert(spec_decode(12i32) == Some(OpCode::HALT));

    let m1 = MachineState { ip: 2, sp: 1, stack: zs.update(0, a), ..m0 };
    assert(spec_step(m0) =~= Step::Next(m1));

    let m2 = MachineState { ip: 4, sp: 2, stack: zs.update(0, a).update(1, b), ..m0 };
    assert(spec_step(m1) =~= Step::Next(m2));

    let val = binop_value(op, a, b);
    assert(m2.stack[0] == a && m2.stack[1] == b);
    let m3 = MachineState {
        ip: 5,
        sp: 1,
        stack: zs.update(0, a).update(1, b).update(0, val),
        ..m0
    };
    assert(spec_step(m2) =~= Step::Next(m3));

    let m4 = MachineState { ip: 6, sp: 0, ..m3 };
    assert(spec_step(m3) =~= Step::Print(val, m4));
    assert(spec_step(m4) == Step::Halt);

    assert(spec_run(m0, 5) == spec_run(m1, 4));
    assert(spec_run(m1, 4) == spec_run(m2, 3));
    assert(spec_run(m2, 3) == spec_run(m3, 2));
    assert(spec_run(m3, 2) == prepend_output(val, spec_run(m4, 1)));
    assert(spec_run(m4, 1) == (RunOutcome::Halted { output: Seq::<i32>::empty(), state: m4 }));
    assert(seq![val] + Seq::<i32>::empty() =~= seq![val]);
    assert(spec_run(m0, 5) == (RunOutcome::Halted { output: seq![val], state: m4 }));
    lemma_spec_run_fuel_monotonic(m0, 5, fuel);
}

/// The `CALL`/`RET` round trip balances the stack. A `CALL` with `argc`
/// arguments already pushed lays down the three control words (caller's
/// frame pointer, return address, argument count) and points the frame
/// pointer just above them. From there, however many locals or temporaries
/// the callee piles up, a `RET` executed in any state of that frame that has
/// kept the control words intact and has a return value on top lands the
/// stack pointer exactly one above where it stood before the arguments were
/// pushed, restores the caller's frame pointer, returns control to the
/// instruction after the `CALL`, and leaves the return value on top.
pub proof fn lemma_call_ret_balance(m: MachineState, m_ret: MachineState)
    requires
        m.wf(),
        0 <= m.ip && m.ip + 2 < m.program.len(),
        spec_decode(m.program[m.ip]) == Some(OpCode::CALL),
        m.sp + 3 <= STACK_CAPACITY,
        m.program[m.ip + 1] >= 0,
        0 <= m.program[m.ip + 2] <= m.sp,
        m_ret.wf(),
        m_ret.fp == m.sp + 3,
        m_ret.stack[m.sp] == m.fp as i32,
        m_ret.stack[m.sp + 1] == (m.ip + 3) as i32,
        m_ret.stack[m.sp + 2] == m.program[m.ip + 2],
        m_ret.sp >= 1,
        0 <= m_ret.ip < m_ret.program.len(),
        spec_decode(m_ret.program[m_ret.ip]) == Some(OpCode::RET),
    ensures
        spec_step(m) matches Step::Next(m1) && m1.fp == m.sp + 3 && m1.sp == m.sp + 3 && m1.ip
            == m.program[m.ip + 1] as int && m1.stack[m.sp] == m.fp as i32 && m1.stack[m.sp + 1]
            == (m.ip + 3) as i32 && m1.stack[m.sp + 2] == m.program[m.ip + 2],
        spec_step(m_ret) matches Step::Next(m2) && m2.sp == m.sp - m.program[m.ip + 2] + 1
            && m2.fp == m.fp && m2.ip == m.ip + 3 && m2.stack[m2.sp - 1]
            == m_ret.stack[m_ret.sp - 1] && m2.globals == m_ret.globals,
{
    assert(m.ip + 3 <= m.program.len() <= 0x7fff_ffff);
}

/// Global-store persistence: no instruction except a successful `GSTORE`
/// changes the global store — in particular `CALL`, `RET` and the whole
/// stack traffic of a function call never touch it — and a `GSTORE` changes
/// exactly the one slot its operand names.
pub proof fn lemma_globals_persist(m: MachineState)
    ensures
        spec_step(m) matches Step::Print(v, m2) ==> m2.globals == m.globals,
        spec_step(m) matches Step::Next(m2) ==> if spec_decode(m.program[m.ip]) == Some(
            OpCode::GSTORE,
        ) {
            m2.globals == m.globals.update(m.program[m.ip + 1] as int, m.stack[m.sp - 1])
        } else {
            m2.globals == m.globals
        },
{
}

/// The branch semantics: `JMP` always redirects the instruction pointer to
/// its operand; `JMP0` and `JMP1` pop a control value and redirect only on
/// an exact match of 0 or 1 respectively, falling through to the next
/// instruction on any other popped value (permissive truthiness, not a
/// three-way branch).
pub proof fn lemma_jump_semantics(m: MachineState)
    requires
        0 <= m.ip && m.ip + 1 < m.program.len(),
    ensures
        spec_decode(m.program[m.ip]) == Some(OpCode::JMP) && m.program[m.ip + 1] >= 0
            ==> spec_step(m) == Step::Next(MachineState { ip: m.program[m.ip + 1] as int, ..m }),
        spec_decode(m.program[m.ip]) == Some(OpCode::JMP0) && m.sp >= 1 && m.stack[m.sp - 1] == 0
            && m.program[m.ip + 1] >= 0 ==> spec_step(m) == Step::Next(MachineState {
            ip: m.program[m.ip + 1] as int,
            sp: m.sp - 1,
            ..m
        }),
        spec_decode(m.program[m.ip]) == Some(OpCode::JMP0) && m.sp >= 1 && m.stack[m.sp - 1] != 0
            ==> spec_step(m) == Step::Next(MachineState { ip: m.ip + 2, sp: m.sp - 1, ..m }),
        spec_decode(m.program[m.ip]) == Some(OpCode::JMP1) && m.sp >= 1 && m.stack[m.sp - 1] == 1
            && m.program[m.ip + 1] >= 0 ==> spec_step(m) == Step::Next(MachineState {
            ip: m.program[m.ip + 1] as int,
            sp: m.sp - 1,
            ..m
        }),
        spec_decode(m.program[m.ip]) == Some(OpCode::JMP1) && m.sp >= 1 && m.stack[m.sp - 1] != 1
            ==> spec_step(m) == Step::Next(MachineState { ip: m.ip + 2, sp: m.sp - 1, ..m }),
{
}

/// A word outside the defined enumeration is never interpreted as an
/// instruction: fetching it faults with `DecodeFault`, and the machine is
/// left unchanged by [`spec_step`]'s fault convention.
pub proof fn lemma_undecodable_word_faults(m: MachineState)
    requires
        0 <= m.ip < m.program.len(),
        spec_decode(m.program[m.ip]) is None,
    ensures
        spec_step(m) == Step::Fault(Fault::DecodeFault),
{
}

/// True of the opcodes whose first check is popping the operand stack.
pub open spec fn pops_before_operand(op: OpCode) -> bool {
    match op {
        OpCode::RET | OpCode::ADD | OpCode::SUB | OpCode::MUL | OpCode::DIV | OpCode::PRINT
        | OpCode::POP | OpCode::EQ | OpCode::NE | OpCode::GT | OpCode::LT | OpCode::GE
        | OpCode::LE => true,
        _ => false,
    }
}

/// True of the opcodes that pop only after consuming an in-line operand.
pub open spec fn pops_after_operand(op: OpCode) -> bool {
    match op {
        OpCode::GSTORE | OpCode::LSTORE | OpCode::JMP0 | OpCode::JMP1 => true,
        _ => false,
    }
}

/// Popping from an empty stack always faults with `StackUnderflow` — never
/// a silently wrong value, never an out-of-bounds read: every opcode that
/// pops, executed with `sp == 0` (and its in-line operand present, for those
/// that consume one first), yields exactly that fault.
pub proof fn lemma_empty_stack_pop_faults(m: MachineState)
    requires
        0 <= m.ip < m.program.len(),
        m.sp == 0,
    ensures
        ({
            match spec_decode(m.program[m.ip]) {
                Some(op) => (pops_before_operand(op) ==> spec_step(m) == Step::Fault(
                    Fault::StackUnderflow,
                )) && (pops_after_operand(op) && m.ip + 1 < m.program.len() ==> spec_step(m)
                    == Step::Fault(Fault::StackUnderflow)),
                None => true,
            }
        }),
{
}

} // verus!
