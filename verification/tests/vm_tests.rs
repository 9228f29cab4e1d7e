use gust::bytecode::{OpCode, FUNC_PARAM_OFFSET};
use gust::vm::{Fault, RunStatus, VirtualMachine};

const FUEL: u64 = 1_000_000;

/// The text a sink would receive: one line per printed value, and the
/// sentinel line on a normal halt.
fn render(output: &[i32], status: &RunStatus) -> String {
    let mut s = String::new();
    for v in output {
        s.push_str(&format!("{}\n", v));
    }
    if let RunStatus::Halted = status {
        s.push_str("BYE!\n");
    }
    s
}

fn run_program(program: Vec<i32>, entry: usize) -> (Vec<i32>, RunStatus, VirtualMachine) {
    let mut vm = VirtualMachine::new();
    vm.load_program(program, entry);
    let mut output: Vec<i32> = vec![];
    let status = vm.run(&mut output, FUEL);
    (output, status, vm)
}

#[test]
fn test_simple_program() {
    let program = vec![
        // print(10 + 5)
        OpCode::PUSH as i32,
        10, // 000
        OpCode::PUSH as i32,
        5, // 002
        OpCode::ADD as i32,   // 004
        OpCode::PRINT as i32, // 005
        OpCode::HALT as i32,  // 006
    ];
    let (output, status, _) = run_program(program, 0);
    assert_eq!(render(&output, &status), "15\nBYE!\n");
}

#[test]
fn test_simple_if_program() {
    let program = vec![
        // if 10 >= 5 then
        OpCode::PUSH as i32,
        10, // 000
        OpCode::PUSH as i32,
        5, // 002
        OpCode::GE as i32, // 004
        // jump to offset 11 if true
        OpCode::JMP1 as i32,
        11, // 005
        // false branch: print 0 and halt
        OpCode::PUSH as i32,
        0, // 007
        OpCode::PRINT as i32, // 009
        OpCode::HALT as i32,  // 010
        // true branch: print 1 and jump back
        OpCode::PUSH as i32,
        1, // 011
        OpCode::PRINT as i32, // 013
        // jump back to the halt line
        OpCode::JMP as i32,
        10, // 014
    ];
    // GE pops 5, then 10, and pushes 1 because 10 >= 5 (the second-popped
    // value is the left operand), so JMP1 pops an exact 1 and takes the
    // branch to offset 11: the true branch prints.
    let (output, status, _) = run_program(program, 0);
    assert_eq!(render(&output, &status), "1\nBYE!\n");
}

#[test]
fn test_simple_program_with_function() {
    let program = vec![
        // fn calc(a, b) -> (a + b) * 2
        OpCode::LLOAD as i32,
        -(FUNC_PARAM_OFFSET + 2), // 000
        OpCode::LLOAD as i32,
        -(FUNC_PARAM_OFFSET + 1), // 002
        OpCode::ADD as i32, // 004
        OpCode::PUSH as i32,
        2, // 005
        OpCode::MUL as i32, // 007
        OpCode::RET as i32, // 008
        // main func - entry point
        // let $v0 = 19
        OpCode::PUSH as i32,
        19, // 009
        OpCode::GSTORE as i32,
        0, // 011
        // let $v1 = 8
        OpCode::PUSH as i32,
        8, // 013
        OpCode::GSTORE as i32,
        1, // 015
        // call 0, 2   ;; 0 = address of calc, 2 = 2 params
        OpCode::GLOAD as i32,
        0, // 017
        OpCode::GLOAD as i32,
        1, // 019
        OpCode::CALL as i32,
        0,
        2, // 021
        OpCode::PRINT as i32, // 024
        OpCode::HALT as i32,  // 025
    ];
    let (output, status, _) = run_program(program, 9);
    assert_eq!(render(&output, &status), "54\nBYE!\n");
}

fn binop_program(a: i32, b: i32, op: OpCode) -> Vec<i32> {
    vec![
        OpCode::PUSH as i32,
        a,
        OpCode::PUSH as i32,
        b,
        op as i32,
        OpCode::PRINT as i32,
        OpCode::HALT as i32,
    ]
}

#[test]
fn test_sub_operand_order() {
    // The second-popped value is the left operand: 10 - 4, not 4 - 10.
    let (output, status, _) = run_program(binop_program(10, 4, OpCode::SUB), 0);
    assert_eq!(status, RunStatus::Halted);
    assert_eq!(output, vec![6]);
}

#[test]
fn test_div_operand_order() {
    let (output, status, _) = run_program(binop_program(20, 5, OpCode::DIV), 0);
    assert_eq!(status, RunStatus::Halted);
    assert_eq!(output, vec![4]);
}

#[test]
fn test_div_truncates_toward_zero() {
    let (output, _, _) = run_program(binop_program(-7, 2, OpCode::DIV), 0);
    assert_eq!(output, vec![-3]);
}

#[test]
fn test_add_wraps_around() {
    let (output, status, _) = run_program(binop_program(i32::MAX, 1, OpCode::ADD), 0);
    assert_eq!(status, RunStatus::Halted);
    assert_eq!(output, vec![i32::MIN]);
}

#[test]
fn test_div_min_by_minus_one_wraps() {
    let (output, status, _) = run_program(binop_program(i32::MIN, -1, OpCode::DIV), 0);
    assert_eq!(status, RunStatus::Halted);
    assert_eq!(output, vec![i32::MIN]);
}

#[test]
fn test_mul_result() {
    let (output, _, _) = run_program(binop_program(-6, 7, OpCode::MUL), 0);
    assert_eq!(output, vec![-42]);
}

#[test]
fn test_comparisons_push_exactly_one_or_zero() {
    let cases = [
        (OpCode::EQ, 10, 5, 0),
        (OpCode::EQ, 5, 5, 1),
        (OpCode::NE, 10, 5, 1),
        (OpCode::NE, 5, 5, 0),
        (OpCode::GT, 10, 5, 1),
        (OpCode::GT, 5, 10, 0),
        (OpCode::LT, 10, 5, 0),
        (OpCode::LT, 5, 10, 1),
        (OpCode::GE, 10, 5, 1),
        (OpCode::GE, 5, 5, 1),
        (OpCode::GE, 4, 5, 0),
        (OpCode::LE, 10, 5, 0),
        (OpCode::LE, 5, 5, 1),
        (OpCode::LE, 4, 5, 1),
    ];
    for (op, a, b, expected) in cases {
        let (output, status, _) = run_program(binop_program(a, b, op), 0);
        assert_eq!(status, RunStatus::Halted);
        assert_eq!(output, vec![expected]);
    }
}

#[test]
fn test_call_ret_balances_stack() {
    // A callee that piles up temporaries before returning: the stack
    // pointer after the whole call still lands one above where it stood
    // before the two arguments were pushed, and the PRINT then drains it.
    let program = vec![
        // fn f(a, b) -> a + b, with two extra temporaries pushed and one
        // popped first
        OpCode::PUSH as i32,
        111, // 000
        OpCode::PUSH as i32,
        222, // 002
        OpCode::POP as i32, // 004
        OpCode::LLOAD as i32,
        -(FUNC_PARAM_OFFSET + 2), // 005
        OpCode::LLOAD as i32,
        -(FUNC_PARAM_OFFSET + 1), // 007
        OpCode::ADD as i32, // 009
        OpCode::RET as i32, // 010
        // entry point
        OpCode::PUSH as i32,
        30, // 011
        OpCode::PUSH as i32,
        12, // 013
        OpCode::CALL as i32,
        0,
        2, // 015
        OpCode::PRINT as i32, // 018
        OpCode::HALT as i32,  // 019
    ];
    let (output, status, vm) = run_program(program, 11);
    assert_eq!(render(&output, &status), "42\nBYE!\n");
    // Two arguments consumed, one return value produced, then printed:
    // everything the call did to the stack is unwound.
    assert_eq!(vm.stack_pointer(), 0);
}

#[test]
fn test_globals_persist_across_call() {
    // Store a value in a global, call a function that does its own stack
    // work, then load the same global: the stored value survives.
    let program = vec![
        // fn f() -> 1, with a temporary pushed and popped
        OpCode::PUSH as i32,
        5, // 000
        OpCode::POP as i32, // 002
        OpCode::PUSH as i32,
        1, // 003
        OpCode::RET as i32, // 005
        // entry point
        OpCode::PUSH as i32,
        7, // 006
        OpCode::GSTORE as i32,
        3, // 008
        OpCode::CALL as i32,
        0,
        0, // 010
        OpCode::POP as i32, // 013
        OpCode::GLOAD as i32,
        3, // 014
        OpCode::PRINT as i32, // 016
        OpCode::HALT as i32,  // 017
    ];
    let (output, status, _) = run_program(program, 6);
    assert_eq!(render(&output, &status), "7\nBYE!\n");
}

#[test]
fn test_jmp_always_redirects() {
    let program = vec![
        OpCode::JMP as i32,
        6, // 000: skip the first print
        OpCode::PUSH as i32,
        1, // 002
        OpCode::PRINT as i32, // 004
        OpCode::HALT as i32,  // 005
        OpCode::PUSH as i32,
        2, // 006
        OpCode::PRINT as i32, // 008
        OpCode::HALT as i32,  // 009
    ];
    let (output, status, _) = run_program(program, 0);
    assert_eq!(status, RunStatus::Halted);
    assert_eq!(output, vec![2]);
}

#[test]
fn test_jmp0_redirects_only_on_zero() {
    // Popping an exact 0 takes the branch to offset 7.
    let program = vec![
        OpCode::PUSH as i32,
        0, // 000
        OpCode::JMP0 as i32,
        7, // 002
        OpCode::PUSH as i32,
        1, // 004
        OpCode::PRINT as i32, // 006
        OpCode::PUSH as i32,
        2, // 007
        OpCode::PRINT as i32, // 009
        OpCode::HALT as i32,  // 010
    ];
    let (output, status, _) = run_program(program, 0);
    assert_eq!(status, RunStatus::Halted);
    assert_eq!(output, vec![2]);
}

#[test]
fn test_jmp0_falls_through_on_nonzero() {
    let program = vec![
        OpCode::PUSH as i32,
        5, // 000
        OpCode::JMP0 as i32,
        7, // 002
        OpCode::PUSH as i32,
        1, // 004
        OpCode::PRINT as i32, // 006
        OpCode::HALT as i32,  // 007
    ];
    let (output, status, _) = run_program(program, 0);
    assert_eq!(status, RunStatus::Halted);
    assert_eq!(output, vec![1]);
}

#[test]
fn test_jmp1_redirects_only_on_one() {
    let program = vec![
        OpCode::PUSH as i32,
        1, // 000
        OpCode::JMP1 as i32,
        7, // 002
        OpCode::PUSH as i32,
        1, // 004
        OpCode::PRINT as i32, // 006
        OpCode::PUSH as i32,
        2, // 007
        OpCode::PRINT as i32, // 009
        OpCode::HALT as i32,  // 010
    ];
    let (output, status, _) = run_program(program, 0);
    assert_eq!(status, RunStatus::Halted);
    assert_eq!(output, vec![2]);
}

#[test]
fn test_jmp1_falls_through_on_two() {
    // Permissive truthiness: a popped 2 is "no match", not a fault.
    let program = vec![
        OpCode::PUSH as i32,
        2, // 000
        OpCode::JMP1 as i32,
        7, // 002
        OpCode::PUSH as i32,
        1, // 004
        OpCode::PRINT as i32, // 006
        OpCode::HALT as i32,  // 007
    ];
    let (output, status, _) = run_program(program, 0);
    assert_eq!(status, RunStatus::Halted);
    assert_eq!(output, vec![1]);
}

#[test]
fn test_undecodable_word_is_a_decode_fault() {
    let (output, status, _) = run_program(vec![99], 0);
    assert_eq!(status, RunStatus::Faulted(Fault::DecodeFault));
    assert!(output.is_empty());
}

#[test]
fn test_negative_word_is_a_decode_fault() {
    let (_, status, _) = run_program(vec![-1], 0);
    assert_eq!(status, RunStatus::Faulted(Fault::DecodeFault));
}

#[test]
fn test_opcode_decode_bounds() {
    assert!(OpCode::decode(-1).is_none());
    assert!(OpCode::decode(23).is_none());
    assert_eq!(OpCode::decode(0), Some(OpCode::PUSH));
    assert_eq!(OpCode::decode(22), Some(OpCode::JMP1));
}

#[test]
fn test_pop_on_empty_stack_is_an_underflow_fault() {
    let (_, status, _) = run_program(vec![OpCode::POP as i32], 0);
    assert_eq!(status, RunStatus::Faulted(Fault::StackUnderflow));
}

#[test]
fn test_add_on_short_stack_is_an_underflow_fault() {
    let program = vec![OpCode::PUSH as i32, 1, OpCode::ADD as i32];
    let (_, status, _) = run_program(program, 0);
    assert_eq!(status, RunStatus::Faulted(Fault::StackUnderflow));
}

#[test]
fn test_pop_stack_on_fresh_machine_underflows() {
    let mut vm = VirtualMachine::new();
    assert_eq!(vm.pop_stack(), Err(Fault::StackUnderflow));
}

#[test]
fn test_push_then_pop_round_trips() {
    let mut vm = VirtualMachine::new();
    assert_eq!(vm.push_stack(41), Ok(()));
    assert_eq!(vm.push_stack(42), Ok(()));
    assert_eq!(vm.stack_pointer(), 2);
    assert_eq!(vm.pop_stack(), Ok(42));
    assert_eq!(vm.pop_stack(), Ok(41));
    assert_eq!(vm.stack_pointer(), 0);
}

#[test]
fn test_next_operand_reads_the_following_word() {
    let mut vm = VirtualMachine::new();
    vm.load_program(vec![OpCode::PUSH as i32, 77], 0);
    assert_eq!(vm.next_operand(), Ok(77));
    // The instruction pointer now stands on the last word: there is no
    // operand after it.
    assert_eq!(vm.next_operand(), Err(Fault::OutOfRangeAddress));
}

#[test]
fn test_division_by_zero_is_a_fault() {
    let (output, status, _) = run_program(binop_program(1, 0, OpCode::DIV), 0);
    assert_eq!(status, RunStatus::Faulted(Fault::DivisionByZero));
    assert!(output.is_empty());
}

#[test]
fn test_stack_overflow_is_a_fault() {
    // Push in an endless loop: the 1025th push must fault, not write past
    // the stack.
    let program = vec![OpCode::PUSH as i32, 1, OpCode::JMP as i32, 0];
    let (_, status, vm) = run_program(program, 0);
    assert_eq!(status, RunStatus::Faulted(Fault::StackOverflow));
    assert_eq!(vm.stack_pointer(), 1024);
}

#[test]
fn test_global_address_out_of_range_is_a_fault() {
    let program = vec![OpCode::GLOAD as i32, 5000, OpCode::HALT as i32];
    let (_, status, _) = run_program(program, 0);
    assert_eq!(status, RunStatus::Faulted(Fault::OutOfRangeAddress));
}

#[test]
fn test_running_off_the_program_end_is_a_fault() {
    let program = vec![OpCode::PUSH as i32, 1];
    let (_, status, _) = run_program(program, 0);
    assert_eq!(status, RunStatus::Faulted(Fault::OutOfRangeAddress));
}

#[test]
fn test_run_is_resumable_after_the_step_budget() {
    let program = vec![
        OpCode::PUSH as i32,
        10,
        OpCode::PUSH as i32,
        5,
        OpCode::ADD as i32,
        OpCode::PRINT as i32,
        OpCode::HALT as i32,
    ];
    let mut vm = VirtualMachine::new();
    vm.load_program(program, 0);
    let mut output: Vec<i32> = vec![];
    // Two instructions at a time: the budget runs out twice before HALT.
    assert_eq!(vm.run(&mut output, 2), RunStatus::Running);
    assert_eq!(vm.run(&mut output, 2), RunStatus::Running);
    assert_eq!(vm.run(&mut output, 2), RunStatus::Halted);
    assert_eq!(output, vec![15]);
}

#[test]
fn test_halt_alone_prints_nothing() {
    let (output, status, _) = run_program(vec![OpCode::HALT as i32], 0);
    assert_eq!(status, RunStatus::Halted);
    assert_eq!(render(&output, &status), "BYE!\n");
}
