//! The execution engine: a fetch-decode-execute loop over an operand stack, a
//! global store and three registers (instruction pointer `ip`, stack pointer
//! `sp`, frame pointer `fp`).
//!
//! The whole small-step semantics is written down once, as the spec function
//! [`spec_step`]; the executable machine is proved to follow it exactly. A
//! fault never commits any effect of the faulting instruction: the machine is
//! left as it stood when that instruction was fetched.
//!
//! Arithmetic is two's-complement wrapping, and `DIV` is truncating division
//! with `i32::MIN / -1` wrapping to `i32::MIN`; dividing by zero is a fault.

use vstd::arithmetic::div_mod::{
    lemma_div_decreases, lemma_div_nonincreasing, lemma_div_pos_is_pos,
};
use vstd::prelude::*;

use crate::bytecode::{spec_decode, OpCode};

verus! {

/// Capacity of the operand stack, in values.
pub const STACK_CAPACITY: usize = 1024;

/// Capacity of the global-variable store, in slots.
pub const GLOBALS_CAPACITY: usize = 1024;

/// Longest loadable program, in words. Every position of a loaded program
/// must be representable as a non-negative `i32`, because `CALL` saves the
/// return address on the operand stack as an `i32` value.
pub const MAX_PROGRAM_LEN: usize = 0x7fff_ffff;

/// A fatal condition. Execution stops at the faulting instruction, none of
/// that instruction's effects having been committed, and the fault is
/// reported to the caller.
#[derive(Clone, Copy, Debug, PartialEq, Eq, Structural)]
pub enum Fault {
    /// The word at the instruction pointer is not a defined opcode. An
    /// out-of-range word is never reinterpreted as an instruction.
    DecodeFault,
    /// An operation would pop or unwind below the bottom of the operand
    /// stack.
    StackUnderflow,
    /// A push would go past the operand stack's fixed capacity.
    StackOverflow,
    /// A program, global or local index falls outside the valid bounds of
    /// its target container.
    OutOfRangeAddress,
    /// `DIV` was executed with divisor zero.
    DivisionByZero,
}

/// The mathematical state of the machine: the loaded program, the three
/// registers and the contents of the operand stack and the global store.
#[verifier::ext_equal]
pub ghost struct MachineState {
    pub program: Seq<i32>,
    pub ip: int,
    pub sp: int,
    pub fp: int,
    pub stack: Seq<i32>,
    pub globals: Seq<i32>,
}

/// A zero-filled store of `n` slots.
pub open spec fn zero_seq(n: nat) -> Seq<i32> {
    Seq::new(n, |i: int| 0i32)
}

/// The state of a machine that has just loaded `program` with entry offset
/// `entry`: both stores zero-filled, `sp` and `fp` at zero.
pub open spec fn boot_state(program: Seq<i32>, entry: int) -> MachineState {
    MachineState {
        program,
        ip: entry,
        sp: 0,
        fp: 0,
        stack: zero_seq(STACK_CAPACITY as nat),
        globals: zero_seq(GLOBALS_CAPACITY as nat),
    }
}

impl MachineState {
    /// Well-formedness: the stores have their fixed capacities, the stack
    /// and frame pointers lie within the stack, and the program is short
    /// enough for every position to fit in an `i32`.
    pub open spec fn wf(self) -> bool {
        &&& self.stack.len() == STACK_CAPACITY
        &&& self.globals.len() == GLOBALS_CAPACITY
        &&& 0 <= self.sp <= STACK_CAPACITY
        &&& 0 <= self.fp <= STACK_CAPACITY
        &&& 0 <= self.ip
        &&& self.program.len() <= MAX_PROGRAM_LEN
    }
}

/// What one instruction does: a fault (machine unchanged), a halt (machine
/// unchanged), a printed value together with the next state, or just the
/// next state.
#[verifier::ext_equal]
pub ghost enum Step {
    Fault(Fault),
    Halt,
    Print(i32, MachineState),
    Next(MachineState),
}

/// The value an arithmetic opcode pushes for left operand `a` (popped
/// second) and right operand `b` (popped first): wrapping two's-complement
/// arithmetic, with `DIV` truncating toward zero and `i32::MIN / -1`
/// wrapping to `i32::MIN`.
pub open spec fn arith_value(op: OpCode, a: i32, b: i32) -> i32
    recommends
        op == OpCode::DIV ==> b != 0,
{
    match op {
        OpCode::ADD => a.wrapping_add(b),
        OpCode::SUB => a.wrapping_sub(b),
        OpCode::MUL => a.wrapping_mul(b),
        OpCode::DIV => vm_div(a, b),
        _ => 0i32,
    }
}

/// Truncating (round-toward-zero) integer division, written over the
/// mathematical integers.
pub open spec fn trunc_div(a: int, d: int) -> int
    recommends
        d != 0,
{
    if a == 0 {
        0
    } else if a > 0 && d > 0 {
        a / d
    } else if a < 0 && d < 0 {
        (a * -1) / (d * -1)
    } else if a < 0 {
        ((a * -1) / d) * -1
    } else {
        (a / (d * -1)) * -1
    }
}

/// The result `DIV` pushes: truncating division, with the one unrepresentable
/// quotient `i32::MIN / -1` wrapping back to `i32::MIN`.
pub open spec fn vm_div(a: i32, b: i32) -> i32
    recommends
        b != 0,
{
    if a == i32::MIN && b == -1i32 {
        i32::MIN
    } else {
        trunc_div(a as int, b as int) as i32
    }
}

/// The value a comparison opcode pushes: exactly 1 when `a cmp b` holds for
/// left operand `a` (popped second) and right operand `b` (popped first),
/// exactly 0 otherwise.
pub open spec fn cmp_value(op: OpCode, a: i32, b: i32) -> i32 {
    match op {
        OpCode::EQ => if a == b { 1i32 } else { 0i32 },
        OpCode::NE => if a != b { 1i32 } else { 0i32 },
        OpCode::GT => if a > b { 1i32 } else { 0i32 },
        OpCode::LT => if a < b { 1i32 } else { 0i32 },
        OpCode::GE => if a >= b { 1i32 } else { 0i32 },
        OpCode::LE => if a <= b { 1i32 } else { 0i32 },
        _ => 0i32,
    }
}

/// The small-step semantics: what executing the single instruction at `m.ip`
/// does to machine `m`.
///
/// Every instruction checks all of its conditions before committing any
/// effect, in this order: operand presence in the program, stack
/// availability, address ranges, and for `DIV` the divisor. A failed check
/// is a fault and leaves the machine exactly as it was.
pub open spec fn spec_step(m: MachineState) -> Step {
    let len = m.program.len() as int;
    if !(0 <= m.ip < len) {
        Step::Fault(Fault::OutOfRangeAddress)
    } else {
        match spec_decode(m.program[m.ip]) {
            None => Step::Fault(Fault::DecodeFault),
            Some(op) => match op {
                OpCode::HALT => Step::Halt,
                OpCode::PUSH => if m.ip + 1 >= len {
                    Step::Fault(Fault::OutOfRangeAddress)
                } else if m.sp >= STACK_CAPACITY {
                    Step::Fault(Fault::StackOverflow)
                } else {
                    Step::Next(MachineState {
                        ip: m.ip + 2,
                        sp: m.sp + 1,
                        stack: m.stack.update(m.sp, m.program[m.ip + 1]),
                        ..m
                    })
                },
                OpCode::GLOAD => if m.ip + 1 >= len {
                    Step::Fault(Fault::OutOfRangeAddress)
                } else if !(0 <= m.program[m.ip + 1] < GLOBALS_CAPACITY) {
                    Step::Fault(Fault::OutOfRangeAddress)
                } else if m.sp >= STACK_CAPACITY {
                    Step::Fault(Fault::StackOverflow)
                } else {
                    Step::Next(MachineState {
                        ip: m.ip + 2,
                        sp: m.sp + 1,
                        stack: m.stack.update(m.sp, m.globals[m.program[m.ip + 1] as int]),
                        ..m
                    })
                },
                OpCode::GSTORE => if m.ip + 1 >= len {
                    Step::Fault(Fault::OutOfRangeAddress)
                } else if m.sp < 1 {
                    Step::Fault(Fault::StackUnderflow)
                } else if !(0 <= m.program[m.ip + 1] < GLOBALS_CAPACITY) {
                    Step::Fault(Fault::OutOfRangeAddress)
                } else {
                    Step::Next(MachineState {
                        ip: m.ip + 2,
                        sp: m.sp - 1,
                        globals: m.globals.update(m.program[m.ip + 1] as int, m.stack[m.sp - 1]),
                        ..m
                    })
                },
                OpCode::LLOAD => if m.ip + 1 >= len {
                    Step::Fault(Fault::OutOfRangeAddress)
                } else if !(0 <= m.fp + m.program[m.ip + 1] < STACK_CAPACITY) {
                    Step::Fault(Fault::OutOfRangeAddress)
                } else if m.sp >= STACK_CAPACITY {
                    Step::Fault(Fault::StackOverflow)
                } else {
                    Step::Next(MachineState {
                        ip: m.ip + 2,
                        sp: m.sp + 1,
                        stack: m.stack.update(m.sp, m.stack[m.fp + m.program[m.ip + 1]]),
                        ..m
                    })
                },
                OpCode::LSTORE => if m.ip + 1 >= len {
                    Step::Fault(Fault::OutOfRangeAddress)
                } else if m.sp < 1 {
                    Step::Fault(Fault::StackUnderflow)
                } else if !(0 <= m.fp + m.program[m.ip + 1] < STACK_CAPACITY) {
                    Step::Fault(Fault::OutOfRangeAddress)
                } else {
                    Step::Next(MachineState {
                        ip: m.ip + 2,
                        sp: m.sp - 1,
                        stack: m.stack.update(m.fp + m.program[m.ip + 1], m.stack[m.sp - 1]),
                        ..m
                    })
                },
                OpCode::CALL => if m.ip + 2 >= len {
                    Step::Fault(Fault::OutOfRangeAddress)
                } else if m.sp + 3 > STACK_CAPACITY {
                    Step::Fault(Fault::StackOverflow)
                } else if m.program[m.ip + 1] < 0 {
                    Step::Fault(Fault::OutOfRangeAddress)
                } else {
                    Step::Next(MachineState {
                        ip: m.program[m.ip + 1] as int,
                        sp: m.sp + 3,
                        fp: m.sp + 3,
                        stack: m.stack.update(m.sp, m.fp as i32).update(
                            m.sp + 1,
                            (m.ip + 3) as i32,
                        ).update(m.sp + 2, m.program[m.ip + 2]),
                        ..m
                    })
                },
                OpCode::RET => if m.sp < 1 {
                    Step::Fault(Fault::StackUnderflow)
                } else if m.fp < 3 {
                    Step::Fault(Fault::StackUnderflow)
                } else if !(0 <= m.stack[m.fp - 1] <= m.fp - 3) {
                    Step::Fault(Fault::StackUnderflow)
                } else if m.stack[m.fp - 2] < 0 {
                    Step::Fault(Fault::OutOfRangeAddress)
                } else if !(0 <= m.stack[m.fp - 3] <= STACK_CAPACITY) {
                    Step::Fault(Fault::OutOfRangeAddress)
                } else {
                    Step::Next(MachineState {
                        ip: m.stack[m.fp - 2] as int,
                        sp: m.fp - 3 - m.stack[m.fp - 1] + 1,
                        fp: m.stack[m.fp - 3] as int,
                        stack: m.stack.update(m.fp - 3 - m.stack[m.fp - 1], m.stack[m.sp - 1]),
                        ..m
                    })
                },
                OpCode::ADD | OpCode::SUB | OpCode::MUL => if m.sp < 2 {
                    Step::Fault(Fault::StackUnderflow)
                } else {
                    Step::Next(MachineState {
                        ip: m.ip + 1,
                        sp: m.sp - 1,
                        stack: m.stack.update(
                            m.sp - 2,
                            arith_value(op, m.stack[m.sp - 2], m.stack[m.sp - 1]),
                        ),
                        ..m
                    })
                },
                OpCode::DIV => if m.sp < 2 {
                    Step::Fault(Fault::StackUnderflow)
                } else if m.stack[m.sp - 1] == 0 {
                    Step::Fault(Fault::DivisionByZero)
                } else {
                    Step::Next(MachineState {
                        ip: m.ip + 1,
                        sp: m.sp - 1,
                        stack: m.stack.update(
                            m.sp - 2,
                            vm_div(m.stack[m.sp - 2], m.stack[m.sp - 1]),
                        ),
                        ..m
                    })
                },
                OpCode::EQ | OpCode::NE | OpCode::GT | OpCode::LT | OpCode::GE
                | OpCode::LE => if m.sp < 2 {
                    Step::Fault(Fault::StackUnderflow)
                } else {
                    Step::Next(MachineState {
                        ip: m.ip + 1,
                        sp: m.sp - 1,
                        stack: m.stack.update(
                            m.sp - 2,
                            cmp_value(op, m.stack[m.sp - 2], m.stack[m.sp - 1]),
                        ),
                        ..m
                    })
                },
                OpCode::PRINT => if m.sp < 1 {
                    Step::Fault(Fault::StackUnderflow)
                } else {
                    Step::Print(
                        m.stack[m.sp - 1],
                        MachineState { ip: m.ip + 1, sp: m.sp - 1, ..m },
                    )
                },
                OpCode::POP => if m.sp < 1 {
                    Step::Fault(Fault::StackUnderflow)
                } else {
                    Step::Next(MachineState { ip: m.ip + 1, sp: m.sp - 1, ..m })
                },
                OpCode::JMP => if m.ip + 1 >= len {
                    Step::Fault(Fault::OutOfRangeAddress)
                } else if m.program[m.ip + 1] < 0 {
                    Step::Fault(Fault::OutOfRangeAddress)
                } else {
                    Step::Next(MachineState { ip: m.program[m.ip + 1] as int, ..m })
                },
                OpCode::JMP0 => if m.ip + 1 >= len {
                    Step::Fault(Fault::OutOfRangeAddress)
                } else if m.sp < 1 {
                    Step::Fault(Fault::StackUnderflow)
                } else if m.stack[m.sp - 1] == 0 && m.program[m.ip + 1] < 0 {
                    Step::Fault(Fault::OutOfRangeAddress)
                } else if m.stack[m.sp - 1] == 0 {
                    Step::Next(MachineState {
                        ip: m.program[m.ip + 1] as int,
                        sp: m.sp - 1,
                        ..m
                    })
                } else {
                    Step::Next(MachineState { ip: m.ip + 2, sp: m.sp - 1, ..m })
                },
                OpCode::JMP1 => if m.ip + 1 >= len {
                    Step::Fault(Fault::OutOfRangeAddress)
                } else if m.sp < 1 {
                    Step::Fault(Fault::StackUnderflow)
                } else if m.stack[m.sp - 1] == 1 && m.program[m.ip + 1] < 0 {
                    Step::Fault(Fault::OutOfRangeAddress)
                } else if m.stack[m.sp - 1] == 1 {
                    Step::Next(MachineState {
                        ip: m.program[m.ip + 1] as int,
                        sp: m.sp - 1,
                        ..m
                    })
                } else {
                    Step::Next(MachineState { ip: m.ip + 2, sp: m.sp - 1, ..m })
                },
            },
        }
    }
}

/// One step from a well-formed machine leads to a well-formed machine.
pub proof fn lemma_step_preserves_wf(m: MachineState)
    requires
        m.wf(),
    ensures
        spec_step(m) matches Step::Next(m2) ==> m2.wf(),
        spec_step(m) matches Step::Print(v, m2) ==> m2.wf(),
{
}

/// What a bounded run produces: the values printed so far, the machine state
/// reached, and whether the machine halted, faulted, or merely ran out of
/// the given number of steps.
#[verifier::ext_equal]
pub ghost enum RunOutcome {
    Halted { output: Seq<i32>, state: MachineState },
    Faulted { output: Seq<i32>, fault: Fault, state: MachineState },
    Running { output: Seq<i32>, state: MachineState },
}

/// Prepends one printed value to the output of an outcome.
pub open spec fn prepend_output(v: i32, o: RunOutcome) -> RunOutcome {
    match o {
        RunOutcome::Halted { output, state } => RunOutcome::Halted {
            output: seq![v] + output,
            state,
        },
        RunOutcome::Faulted { output, fault, state } => RunOutcome::Faulted {
            output: seq![v] + output,
            fault,
            state,
        },
        RunOutcome::Running { output, state } => RunOutcome::Running {
            output: seq![v] + output,
            state,
        },
    }
}

/// The big-step semantics: iterate [`spec_step`] from `m` for at most `fuel`
/// instructions, collecting everything printed along the way. The machine is
/// deterministic, so this function pins down the one possible outcome of any
/// terminating run ([`lemma_spec_run_fuel_monotonic`] shows the outcome does
/// not depend on the fuel once the machine has halted or faulted).
pub open spec fn spec_run(m: MachineState, fuel: nat) -> RunOutcome
    decreases fuel,
{
    if fuel == 0 {
        RunOutcome::Running { output: Seq::empty(), state: m }
    } else {
        match spec_step(m) {
            Step::Fault(f) => RunOutcome::Faulted { output: Seq::empty(), fault: f, state: m },
            Step::Halt => RunOutcome::Halted { output: Seq::empty(), state: m },
            Step::Print(v, m2) => prepend_output(v, spec_run(m2, (fuel - 1) as nat)),
            Step::Next(m2) => spec_run(m2, (fuel - 1) as nat),
        }
    }
}

/// A run that is still going after `fuel` steps continues from the state it
/// reached: running for one more step extends the outcome by exactly one
/// application of [`spec_step`] at that state.
pub proof fn lemma_run_step(m0: MachineState, fuel: nat, out: Seq<i32>, s: MachineState)
    requires
        spec_run(m0, fuel) == (RunOutcome::Running { output: out, state: s }),
    ensures
        spec_run(m0, fuel + 1) =~= (match spec_step(s) {
            Step::Fault(f) => RunOutcome::Faulted { output: out, fault: f, state: s },
            Step::Halt => RunOutcome::Halted { output: out, state: s },
            Step::Print(v, m2) => RunOutcome::Running { output: out.push(v), state: m2 },
            Step::Next(m2) => RunOutcome::Running { output: out, state: m2 },
        }),
    decreases fuel,
{
    if fuel == 0 {
        assert(out == Seq::<i32>::empty());
        assert(s == m0);
        match spec_step(s) {
            Step::Fault(f) => {
                assert(spec_run(m0, fuel + 1) =~= (RunOutcome::Faulted {
                    output: out,
                    fault: f,
                    state: s,
                }));
            },
            Step::Halt => {
                assert(spec_run(m0, fuel + 1) =~= (RunOutcome::Halted { output: out, state: s }));
            },
            Step::Print(v, m2) => {
                assert(spec_run(m0, 1) == prepend_output(v, spec_run(m2, 0)));
                assert(seq![v] + Seq::<i32>::empty() =~= Seq::<i32>::empty().push(v));
                assert(spec_run(m0, fuel + 1) =~= (RunOutcome::Running {
                    output: out.push(v),
                    state: m2,
                }));
            },
            Step::Next(m2) => {
                assert(spec_run(m0, 1) == spec_run(m2, 0));
                assert(spec_run(m2, 0) == (RunOutcome::Running {
                    output: Seq::<i32>::empty(),
                    state: m2,
                }));
                assert(spec_run(m0, fuel + 1) =~= (RunOutcome::Running {
                    output: out,
                    state: m2,
                }));
            },
        }
    } else {
        match spec_step(m0) {
            Step::Fault(f) => {
                assert(false);
            },
            Step::Halt => {
                assert(false);
            },
            Step::Print(v0, m1) => {
                let inner = spec_run(m1, (fuel - 1) as nat);
                assert(spec_run(m0, fuel) == prepend_output(v0, inner));
                match inner {
                    RunOutcome::Running { output: out1, state: s1 } => {
                        assert(s1 == s);
                        assert(out == seq![v0] + out1);
                        lemma_run_step(m1, (fuel - 1) as nat, out1, s1);
                        assert(spec_run(m0, fuel + 1) == prepend_output(v0, spec_run(m1, fuel)));
                        match spec_step(s) {
                            Step::Fault(f) => {
                                assert(spec_run(m0, fuel + 1) =~= (RunOutcome::Faulted {
                                    output: out,
                                    fault: f,
                                    state: s,
                                }));
                            },
                            Step::Halt => {
                                assert(spec_run(m0, fuel + 1) =~= (RunOutcome::Halted {
                                    output: out,
                                    state: s,
                                }));
                            },
                            Step::Print(v, m2) => {
                                assert(seq![v0] + out1.push(v) =~= (seq![v0] + out1).push(v));
                                assert(spec_run(m0, fuel + 1) =~= (RunOutcome::Running {
                                    output: out.push(v),
                                    state: m2,
                                }));
                            },
                            Step::Next(m2) => {
                                assert(spec_run(m0, fuel + 1) =~= (RunOutcome::Running {
                                    output: out,
                                    state: m2,
                                }));
                            },
                        }
                    },
                    _ => {
                        assert(false);
                    },
                }
            },
            Step::Next(m1) => {
                lemma_run_step(m1, (fuel - 1) as nat, out, s);
                assert(spec_run(m0, fuel + 1) == spec_run(m1, fuel));
                match spec_step(s) {
                    Step::Fault(f) => {
                        assert(spec_run(m0, fuel + 1) =~= (RunOutcome::Faulted {
                            output: out,
                            fault: f,
                            state: s,
                        }));
                    },
                    Step::Halt => {
                        assert(spec_run(m0, fuel + 1) =~= (RunOutcome::Halted {
                            output: out,
                            state: s,
                        }));
                    },
                    Step::Print(v, m2) => {
                        assert(spec_run(m0, fuel + 1) =~= (RunOutcome::Running {
                            output: out.push(v),
                            state: m2,
                        }));
                    },
                    Step::Next(m2) => {
                        assert(spec_run(m0, fuel + 1) =~= (RunOutcome::Running {
                            output: out,
                            state: m2,
                        }));
                    },
                }
            },
        }
    }
}

/// Determinism of terminating runs: once the machine has halted or faulted
/// within `fuel1` steps, any larger fuel yields exactly the same outcome.
pub proof fn lemma_spec_run_fuel_monotonic(m: MachineState, fuel1: nat, fuel2: nat)
    requires
        fuel1 <= fuel2,
        !(spec_run(m, fuel1) is Running),
    ensures
        spec_run(m, fuel2) == spec_run(m, fuel1),
    decreases fuel1,
{
    if fuel1 == 0 {
        assert(false);
    } else {
        match spec_step(m) {
            Step::Fault(f) => {},
            Step::Halt => {},
            Step::Print(v, m2) => {
                lemma_spec_run_fuel_monotonic(m2, (fuel1 - 1) as nat, (fuel2 - 1) as nat);
            },
            Step::Next(m2) => {
                lemma_spec_run_fuel_monotonic(m2, (fuel1 - 1) as nat, (fuel2 - 1) as nat);
            },
        }
    }
}

/// What one executed instruction reports to the driving loop.
#[derive(Clone, Copy, Debug, PartialEq, Eq, Structural)]
pub enum StepOutput {
    /// The instruction completed and execution continues.
    Continue,
    /// A `PRINT` popped this value; it is owed to the output sink.
    Output(i32),
    /// A `HALT` was executed: the run is over.
    Halted,
    /// A fault: the run is over and the machine is left at the faulting
    /// instruction, none of its effects committed.
    Faulted(Fault),
}

/// What a bounded run reports: the machine halted, faulted, or is still
/// running after the given number of steps.
#[derive(Clone, Copy, Debug, PartialEq, Eq, Structural)]
pub enum RunStatus {
    Halted,
    Faulted(Fault),
    Running,
}

/// The executable machine: a program, the three registers, and the two
/// fixed-capacity stores.
pub struct VirtualMachine {
    program: Vec<i32>,
    ip: usize,
    sp: usize,
    fp: usize,
    stack: Vec<i32>,
    globals: Vec<i32>,
}

impl View for VirtualMachine {
    type V = MachineState;

    closed spec fn view(&self) -> MachineState {
        MachineState {
            program: self.program@,
            ip: self.ip as int,
            sp: self.sp as int,
            fp: self.fp as int,
            stack: self.stack@,
            globals: self.globals@,
        }
    }
}

/// A vector of `n` zeroes.
fn zeroed(n: usize) -> (v: Vec<i32>)
    ensures
        v@ == zero_seq(n as nat),
{
    let mut v: Vec<i32> = Vec::new();
    while v.len() < n
        invariant
            v@.len() <= n,
            v@ == zero_seq(v@.len()),
        decreases n - v.len(),
    {
        v.push(0);
        proof {
            assert(v@ =~= zero_seq(v@.len()));
        }
    }
    proof {
        assert(v@ =~= zero_seq(n as nat));
    }
    v
}

impl VirtualMachine {
    /// A fresh machine: empty program, all registers zero, both stores
    /// zero-filled.
    pub fn new() -> (vm: VirtualMachine)
        ensures
            vm@ == boot_state(Seq::<i32>::empty(), 0),
            vm@.wf(),
    {
        let vm = VirtualMachine {
            ip: 0,
            sp: 0,
            fp: 0,
            stack: zeroed(STACK_CAPACITY),
            globals: zeroed(GLOBALS_CAPACITY),
            program: Vec::new(),
        };
        proof {
            assert(vm@ =~= boot_state(Seq::<i32>::empty(), 0));
        }
        vm
    }

    /// Installs a program and sets the entry offset. The program's structure
    /// is not validated here: every check is made instruction by instruction
    /// during execution. The length bound is a machine limit: `CALL` saves
    /// return addresses on the stack as `i32` values, so every program
    /// position must fit in one.
    pub fn load_program(&mut self, program: Vec<i32>, entrypoint: usize)
        requires
            old(self)@.wf(),
            program@.len() <= MAX_PROGRAM_LEN,
        ensures
            final(self)@ == (MachineState {
                program: program@,
                ip: entrypoint as int,
                ..old(self)@
            }),
            final(self)@.wf(),
    {
        self.program = program;
        self.ip = entrypoint;
    }

    /// Pops the top of the operand stack. An empty stack is reported as
    /// `StackUnderflow`, never read out of bounds; the machine is unchanged
    /// in that case.
    pub fn pop_stack(&mut self) -> (r: Result<i32, Fault>)
        requires
            old(self)@.wf(),
        ensures
            final(self)@.wf(),
            old(self)@.sp == 0 ==> r == Err::<i32, Fault>(Fault::StackUnderflow) && final(self)@
                == old(self)@,
            old(self)@.sp > 0 ==> r == Ok::<i32, Fault>(old(self)@.stack[old(self)@.sp - 1])
                && final(self)@ == (MachineState { sp: old(self)@.sp - 1, ..old(self)@ }),
    {
        if self.sp == 0 {
            Err(Fault::StackUnderflow)
        } else {
            self.sp = self.sp - 1;
            Ok(self.stack[self.sp])
        }
    }

    /// Pushes a value onto the operand stack. A full stack is reported as
    /// `StackOverflow`, never written out of bounds; the machine is
    /// unchanged in that case.
    pub fn push_stack(&mut self, val: i32) -> (r: Result<(), Fault>)
        requires
            old(self)@.wf(),
        ensures
            final(self)@.wf(),
            old(self)@.sp == STACK_CAPACITY ==> r == Err::<(), Fault>(Fault::StackOverflow)
                && final(self)@ == old(self)@,
            old(self)@.sp < STACK_CAPACITY ==> r == Ok::<(), Fault>(()) && final(self)@
                == (MachineState {
                sp: old(self)@.sp + 1,
                stack: old(self)@.stack.update(old(self)@.sp, val),
                ..old(self)@
            }),
    {
        if self.sp == STACK_CAPACITY {
            Err(Fault::StackOverflow)
        } else {
            self.stack[self.sp] = val;
            self.sp = self.sp + 1;
            Ok(())
        }
    }

    /// Advances the instruction pointer by one and reads the program word
    /// there: how an instruction consumes one in-line operand. A missing
    /// operand (the program ends first) is reported as `OutOfRangeAddress`
    /// and leaves the machine unchanged.
    pub fn next_operand(&mut self) -> (r: Result<i32, Fault>)
        requires
            old(self)@.wf(),
        ensures
            final(self)@.wf(),
            old(self)@.ip + 1 < old(self)@.program.len() ==> r == Ok::<i32, Fault>(
                old(self)@.program[old(self)@.ip + 1],
            ) && final(self)@ == (MachineState { ip: old(self)@.ip + 1, ..old(self)@ }),
            old(self)@.ip + 1 >= old(self)@.program.len() ==> r == Err::<i32, Fault>(
                Fault::OutOfRangeAddress,
            ) && final(self)@ == old(self)@,
    {
        if self.ip < self.program.len() {
            if self.ip + 1 < self.program.len() {
                self.ip = self.ip + 1;
                return Ok(self.program[self.ip]);
            }
        }
        Err(Fault::OutOfRangeAddress)
    }

    /// The current stack pointer: the number of live operand-stack slots.
    pub fn stack_pointer(&self) -> (r: usize)
        ensures
            r as int == self@.sp,
    {
        self.sp
    }

    /// Executes exactly the single instruction at the instruction pointer,
    /// following [`spec_step`] to the letter: same effect on the machine,
    /// same printed value, same fault, in the same order of checks. On a
    /// fault or a halt the machine is left unchanged.
    pub fn step(&mut self) -> (r: StepOutput)
        requires
            old(self)@.wf(),
        ensures
            final(self)@.wf(),
            match spec_step(old(self)@) {
                Step::Fault(f) => r == StepOutput::Faulted(f) && final(self)@ == old(self)@,
                Step::Halt => r == StepOutput::Halted && final(self)@ == old(self)@,
                Step::Print(v, m2) => r == StepOutput::Output(v) && final(self)@ == m2,
                Step::Next(m2) => r == StepOutput::Continue && final(self)@ == m2,
            },
    {
        let ip = self.ip;
        if ip >= self.program.len() {
            return StepOutput::Faulted(Fault::OutOfRangeAddress);
        }
        let op = match OpCode::decode(self.program[ip]) {
            Some(op) => op,
            None => {
                return StepOutput::Faulted(Fault::DecodeFault);
            },
        };
        match op {
            OpCode::HALT => StepOutput::Halted,
            OpCode::PUSH => {
                if ip + 1 >= self.program.len() {
                    return StepOutput::Faulted(Fault::OutOfRangeAddress);
                }
                if self.sp >= STACK_CAPACITY {
                    return StepOutput::Faulted(Fault::StackOverflow);
                }
                let val = self.program[ip + 1];
                self.stack[self.sp] = val;
                self.sp = self.sp + 1;
                self.ip = ip + 2;
                StepOutput::Continue
            },
            OpCode::GLOAD => {
                if ip + 1 >= self.program.len() {
                    return StepOutput::Faulted(Fault::OutOfRangeAddress);
                }
                let addr = self.program[ip + 1];
                if addr < 0 || addr >= GLOBALS_CAPACITY as i32 {
                    return StepOutput::Faulted(Fault::OutOfRangeAddress);
                }
                if self.sp >= STACK_CAPACITY {
                    return StepOutput::Faulted(Fault::StackOverflow);
                }
                let val = self.globals[addr as usize];
                self.stack[self.sp] = val;
                self.sp = self.sp + 1;
                self.ip = ip + 2;
                StepOutput::Continue
            },
            OpCode::GSTORE => {
                if ip + 1 >= self.program.len() {
                    return StepOutput::Faulted(Fault::OutOfRangeAddress);
                }
                if self.sp < 1 {
                    return StepOutput::Faulted(Fault::StackUnderflow);
                }
                let addr = self.program[ip + 1];
                if addr < 0 || addr >= GLOBALS_CAPACITY as i32 {
                    return StepOutput::Faulted(Fault::OutOfRangeAddress);
                }
                let val = self.stack[self.sp - 1];
                self.sp = self.sp - 1;
                self.globals[addr as usize] = val;
                self.ip = ip + 2;
                StepOutput::Continue
            },
            OpCode::LLOAD => {
                if ip + 1 >= self.program.len() {
                    return StepOutput::Faulted(Fault::OutOfRangeAddress);
                }
                let off = self.program[ip + 1];
                let idx = self.fp as i64 + off as i64;
                if idx < 0 || idx >= STACK_CAPACITY as i64 {
                    return StepOutput::Faulted(Fault::OutOfRangeAddress);
                }
                if self.sp >= STACK_CAPACITY {
                    return StepOutput::Faulted(Fault::StackOverflow);
                }
                let val = self.stack[idx as usize];
                self.stack[self.sp] = val;
                self.sp = self.sp + 1;
                self.ip = ip + 2;
                StepOutput::Continue
            },
            OpCode::LSTORE => {
                if ip + 1 >= self.program.len() {
                    return StepOutput::Faulted(Fault::OutOfRangeAddress);
                }
                if self.sp < 1 {
                    return StepOutput::Faulted(Fault::StackUnderflow);
                }
                let off = self.program[ip + 1];
                let idx = self.fp as i64 + off as i64;
                if idx < 0 || idx >= STACK_CAPACITY as i64 {
                    return StepOutput::Faulted(Fault::OutOfRangeAddress);
                }
                let val = self.stack[self.sp - 1];
                self.sp = self.sp - 1;
                self.stack[idx as usize] = val;
                self.ip = ip + 2;
                StepOutput::Continue
            },
            OpCode::CALL => {
                if ip + 2 >= self.program.len() {
                    return StepOutput::Faulted(Fault::OutOfRangeAddress);
                }
                if self.sp + 3 > STACK_CAPACITY {
                    return StepOutput::Faulted(Fault::StackOverflow);
                }
                let fn_addr = self.program[ip + 1];
                if fn_addr < 0 {
                    return StepOutput::Faulted(Fault::OutOfRangeAddress);
                }
                let argc = self.program[ip + 2];
                let ret_addr = ip + 3;
                self.stack[self.sp] = self.fp as i32;
                self.stack[self.sp + 1] = ret_addr as i32;
                self.stack[self.sp + 2] = argc;
                self.sp = self.sp + 3;
                self.fp = self.sp;
                self.ip = fn_addr as usize;
                StepOutput::Continue
            },
            OpCode::RET => {
                if self.sp < 1 {
                    return StepOutput::Faulted(Fault::StackUnderflow);
                }
                if self.fp < 3 {
                    return StepOutput::Faulted(Fault::StackUnderflow);
                }
                let argc = self.stack[self.fp - 1];
                if argc < 0 || argc as i64 > self.fp as i64 - 3 {
                    return StepOutput::Faulted(Fault::StackUnderflow);
                }
                let ret_addr = self.stack[self.fp - 2];
                if ret_addr < 0 {
                    return StepOutput::Faulted(Fault::OutOfRangeAddress);
                }
                let prev_fp = self.stack[self.fp - 3];
                if prev_fp < 0 || prev_fp > STACK_CAPACITY as i32 {
                    return StepOutput::Faulted(Fault::OutOfRangeAddress);
                }
                let ret_val = self.stack[self.sp - 1];
                let new_sp = self.fp - 3 - argc as usize;
                self.stack[new_sp] = ret_val;
                self.sp = new_sp + 1;
                self.fp = prev_fp as usize;
                self.ip = ret_addr as usize;
                StepOutput::Continue
            },
            OpCode::ADD | OpCode::SUB | OpCode::MUL => {
                if self.sp < 2 {
                    return StepOutput::Faulted(Fault::StackUnderflow);
                }
                let b = self.stack[self.sp - 1];
                let a = self.stack[self.sp - 2];
                let result = match op {
                    OpCode::ADD => a.wrapping_add(b),
                    OpCode::SUB => a.wrapping_sub(b),
                    _ => a.wrapping_mul(b),
                };
                self.stack[self.sp - 2] = result;
                self.sp = self.sp - 1;
                self.ip = ip + 1;
                StepOutput::Continue
            },
            OpCode::DIV => {
                if self.sp < 2 {
                    return StepOutput::Faulted(Fault::StackUnderflow);
                }
                let b = self.stack[self.sp - 1];
                let a = self.stack[self.sp - 2];
                if b == 0 {
                    return StepOutput::Faulted(Fault::DivisionByZero);
                }
                proof {
                    lemma_trunc_div_in_range(a as int, b as int);
                }
                let result = match a.checked_div(b) {
                    Some(q) => q,
                    None => i32::MIN,
                };
                assert(result == vm_div(a, b));
                self.stack[self.sp - 2] = result;
                self.sp = self.sp - 1;
                self.ip = ip + 1;
                StepOutput::Continue
            },
            OpCode::EQ | OpCode::NE | OpCode::GT | OpCode::LT | OpCode::GE | OpCode::LE => {
                if self.sp < 2 {
                    return StepOutput::Faulted(Fault::StackUnderflow);
                }
                let b = self.stack[self.sp - 1];
                let a = self.stack[self.sp - 2];
                let holds = match op {
                    OpCode::EQ => a == b,
                    OpCode::NE => a != b,
                    OpCode::GT => a > b,
                    OpCode::LT => a < b,
                    OpCode::GE => a >= b,
                    _ => a <= b,
                };
                let result: i32 = if holds { 1 } else { 0 };
                self.stack[self.sp - 2] = result;
                self.sp = self.sp - 1;
                self.ip = ip + 1;
                StepOutput::Continue
            },
            OpCode::PRINT => {
                if self.sp < 1 {
                    return StepOutput::Faulted(Fault::StackUnderflow);
                }
                let val = self.stack[self.sp - 1];
                self.sp = self.sp - 1;
                self.ip = ip + 1;
                StepOutput::Output(val)
            },
            OpCode::POP => {
                if self.sp < 1 {
                    return StepOutput::Faulted(Fault::StackUnderflow);
                }
                self.sp = self.sp - 1;
                self.ip = ip + 1;
                StepOutput::Continue
            },
            OpCode::JMP => {
                if ip + 1 >= self.program.len() {
                    return StepOutput::Faulted(Fault::OutOfRangeAddress);
                }
                let addr = self.program[ip + 1];
                if addr < 0 {
                    return StepOutput::Faulted(Fault::OutOfRangeAddress);
                }
                self.ip = addr as usize;
                StepOutput::Continue
            },
            OpCode::JMP0 | OpCode::JMP1 => {
                if ip + 1 >= self.program.len() {
                    return StepOutput::Faulted(Fault::OutOfRangeAddress);
                }
                if self.sp < 1 {
                    return StepOutput::Faulted(Fault::StackUnderflow);
                }
                let addr = self.program[ip + 1];
                let val = self.stack[self.sp - 1];
                let wanted: i32 = if op == OpCode::JMP0 {
                    0
                } else {
                    1
                };
                if val == wanted {
                    if addr < 0 {
                        return StepOutput::Faulted(Fault::OutOfRangeAddress);
                    }
                    self.sp = self.sp - 1;
                    self.ip = addr as usize;
                } else {
                    self.sp = self.sp - 1;
                    self.ip = ip + 2;
                }
                StepOutput::Continue
            },
        }
    }
}

impl VirtualMachine {
    /// Runs the fetch-decode-execute loop from the current instruction
    /// pointer for at most `max_steps` instructions, appending every value a
    /// `PRINT` pops to `output`. The result and the machine afterwards are
    /// exactly what the big-step semantics [`spec_run`] gives for
    /// `max_steps` fuel: `Halted` when a `HALT` was executed, the fault when
    /// one occurred, and `Running` when the budget ran out first — in which
    /// case the machine stands ready to be resumed by calling `run` again.
    ///
    /// The machine is deterministic, so by
    /// [`lemma_spec_run_fuel_monotonic`] any budget large enough to finish
    /// the run yields the same outcome and output.
    pub fn run(&mut self, output: &mut Vec<i32>, max_steps: u64) -> (r: RunStatus)
        requires
            old(self)@.wf(),
        ensures
            final(self)@.wf(),
            match spec_run(old(self)@, max_steps as nat) {
                RunOutcome::Halted { output: out, state } => {
                    &&& r == RunStatus::Halted
                    &&& final(output)@ == old(output)@ + out
                    &&& final(self)@ == state
                },
                RunOutcome::Faulted { output: out, fault, state } => {
                    &&& r == RunStatus::Faulted(fault)
                    &&& final(output)@ == old(output)@ + out
                    &&& final(self)@ == state
                },
                RunOutcome::Running { output: out, state } => {
                    &&& r == RunStatus::Running
                    &&& final(output)@ == old(output)@ + out
                    &&& final(self)@ == state
                },
            },
    {
        let ghost m0 = self@;
        let ghost base = output@;
        let mut steps: u64 = 0;
        proof {
            assert(output@.skip(base.len() as int) =~= Seq::<i32>::empty());
            assert(base =~= output@.take(base.len() as int));
        }
        while steps < max_steps
            invariant
                self@.wf(),
                steps <= max_steps,
                m0 == old(self)@,
                base == old(output)@,
                base.len() <= output@.len(),
                spec_run(m0, steps as nat) == (RunOutcome::Running {
                    output: output@.skip(base.len() as int),
                    state: self@,
                }),
                base == output@.take(base.len() as int),
            decreases max_steps - steps,
        {
            let ghost prev = self@;
            let ghost produced = output@.skip(base.len() as int);
            let res = self.step();
            proof {
                lemma_run_step(m0, steps as nat, produced, prev);
            }
            match res {
                StepOutput::Continue => {
                    proof {
                        assert(spec_run(m0, (steps + 1) as nat) == (RunOutcome::Running {
                            output: produced,
                            state: self@,
                        }));
                    }
                    steps = steps + 1;
                },
                StepOutput::Output(v) => {
                    output.push(v);
                    proof {
                        assert(output@.skip(base.len() as int) =~= produced.push(v));
                        assert(base =~= output@.take(base.len() as int));
                        assert(spec_run(m0, (steps + 1) as nat) == (RunOutcome::Running {
                            output: output@.skip(base.len() as int),
                            state: self@,
                        }));
                    }
                    steps = steps + 1;
                },
                StepOutput::Halted => {
                    proof {
                        assert(spec_run(m0, (steps + 1) as nat) == (RunOutcome::Halted {
                            output: produced,
                            state: self@,
                        }));
                        lemma_spec_run_fuel_monotonic(m0, (steps + 1) as nat, max_steps as nat);
                        assert(base + produced =~= output@);
                    }
                    return RunStatus::Halted;
                },
                StepOutput::Faulted(f) => {
                    proof {
                        assert(spec_run(m0, (steps + 1) as nat) == (RunOutcome::Faulted {
                            output: produced,
                            fault: f,
                            state: self@,
                        }));
                        lemma_spec_run_fuel_monotonic(m0, (steps + 1) as nat, max_steps as nat);
                        assert(base + produced =~= output@);
                    }
                    return RunStatus::Faulted(f);
                },
            }
        }
        proof {
            assert(base + output@.skip(base.len() as int) =~= output@);
        }
        RunStatus::Running
    }
}

/// The truncating quotient stays within `i32` except for the one case
/// `i32::MIN / -1`, whose mathematical value is one past `i32::MAX`.
proof fn lemma_trunc_div_in_range(a: int, d: int)
    requires
        i32::MIN <= a <= i32::MAX,
        i32::MIN <= d <= i32::MAX,
        d != 0,
    ensures
        !(a == i32::MIN && d == -1) ==> i32::MIN <= trunc_div(a, d) <= i32::MAX,
        a == i32::MIN && d == -1 ==> trunc_div(a, d) == i32::MAX + 1,
{
    if a == 0 {
    } else if a > 0 && d > 0 {
        lemma_div_pos_is_pos(a, d);
        lemma_div_nonincreasing(a, d);
    } else if a < 0 && d < 0 {
        let x = a * -1;
        let y = d * -1;
        lemma_div_pos_is_pos(x, y);
        lemma_div_nonincreasing(x, y);
        if y == 1 {
            assert(x / 1 == x) by (nonlinear_arith);
        } else {
            lemma_div_decreases(x, y);
        }
    } else if a < 0 {
        lemma_div_pos_is_pos(a * -1, d);
        lemma_div_nonincreasing(a * -1, d);
    } else {
        lemma_div_pos_is_pos(a, d * -1);
        lemma_div_nonincreasing(a, d * -1);
    }
}

} // verus!
