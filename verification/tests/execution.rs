use triton_vm::error::InstructionError;
use triton_vm::field::BFieldElement;
use triton_vm::program::Program;
use triton_vm::vm::VMState;

fn input(values: &[u64]) -> Vec<BFieldElement> {
    values.iter().map(|&value| BFieldElement::new(value)).collect()
}

const COUNTDOWN: &str = "read_io call loop halt \
                         loop: dup 0 write_io push -1 add dup 0 push 3 lt pop \
                         dup 0 skiz recurse return";

#[test]
fn run_returns_the_output_of_the_program() {
    let program = Program::from_code(COUNTDOWN).unwrap();
    assert_eq!(Ok(input(&[4, 3, 2, 1])), program.run(input(&[4]), vec![]));
    assert_eq!(
        Err(InstructionError::EmptyPublicInput),
        program.run(vec![], vec![])
    );
}

#[test]
fn the_counts_of_a_trace_sum_to_the_number_of_cycles() {
    let program = Program::from_code(COUNTDOWN).unwrap();
    let (trace, output) = program.trace_execution(input(&[4]), vec![]).unwrap();
    let last = program
        .debug_terminal_state(input(&[4]), vec![], None, None)
        .unwrap();

    assert_eq!(program.run(input(&[4]), vec![]).unwrap(), output);
    assert_eq!(program.len_bwords(), trace.instruction_multiplicities.len());
    let sum: u64 = trace
        .instruction_multiplicities
        .iter()
        .map(|&count| u64::from(count))
        .sum();
    assert_eq!(u64::from(last.cycle_count), sum);
    assert_eq!(2 + 4 * 11 + 1, sum);
    // `lt` is the only instruction of the program that needs a co-processor
    assert_eq!(4, trace.co_processor_calls.len());
    assert_eq!(program, trace.program);
}

#[test]
fn a_trace_counts_each_slot_as_often_as_it_was_executed() {
    let program = Program::from_code("push 2 call f halt f: push -1 add dup 0 skiz recurse return")
        .unwrap();
    let (trace, output) = program.trace_execution(vec![], vec![]).unwrap();
    assert!(output.is_empty());
    assert_eq!(
        vec![1, 0, 1, 0, 1, 2, 0, 2, 2, 0, 2, 1, 1],
        trace.instruction_multiplicities
    );
    assert!(trace.co_processor_calls.is_empty());
}

#[test]
fn tracing_fails_as_running_fails() {
    let program = Program::from_code("push 0 push 1 div halt").unwrap();
    assert_eq!(
        Some(InstructionError::DivisionByZero),
        program.run(vec![], vec![]).err()
    );
    assert_eq!(
        Some(InstructionError::OpStackTooShallow),
        Program::from_code("pop")
            .unwrap()
            .trace_execution(vec![], vec![])
            .err()
    );
    assert_eq!(
        program.run(vec![], vec![]).err(),
        program.trace_execution(vec![], vec![]).err()
    );
    assert_eq!(
        Some(InstructionError::InstructionPointerOverflow(1)),
        Program::from_code("nop")
            .unwrap()
            .trace_execution(vec![], vec![])
            .err()
    );
}

#[test]
fn debug_lists_every_state() {
    let program = Program::from_code("push 1 push 2 add write_io halt").unwrap();
    let (states, fault) = program.debug(vec![], vec![], None, None);
    assert_eq!(None, fault);
    assert_eq!(6, states.len());
    for (cycle, state) in states.iter().enumerate() {
        assert_eq!(cycle as u32, state.cycle_count);
    }
    let pointers: Vec<usize> = states.iter().map(|state| state.instruction_pointer).collect();
    assert_eq!(vec![0, 2, 4, 5, 6, 7], pointers);
    let heights: Vec<usize> = states.iter().map(|state| state.op_stack.len()).collect();
    assert_eq!(vec![16, 17, 18, 17, 16, 16], heights);
    assert!(states[5].halting);
    assert!(!states[4].halting);
    assert_eq!(input(&[3]), states[5].public_output);
}

#[test]
fn the_last_state_of_debug_is_the_terminal_state() {
    let program = Program::from_code(COUNTDOWN).unwrap();
    let (states, fault) = program.debug(input(&[3]), vec![], None, None);
    let last = program
        .debug_terminal_state(input(&[3]), vec![], None, None)
        .unwrap();
    assert_eq!(None, fault);
    let listed = states.last().unwrap();
    assert_eq!(listed.cycle_count, last.cycle_count);
    assert_eq!(listed.instruction_pointer, last.instruction_pointer);
    assert_eq!(listed.op_stack, last.op_stack);
    assert_eq!(listed.jump_stack, last.jump_stack);
    assert_eq!(listed.public_output, last.public_output);
    assert_eq!(listed.public_input, last.public_input);
    assert_eq!(listed.ram, last.ram);
    assert_eq!(listed.halting, last.halting);
    assert!(last.halting);
    assert_eq!(states.len(), last.cycle_count as usize + 1);
}

#[test]
fn on_a_fault_debug_ends_with_the_state_before_the_failed_step() {
    let program = Program::from_code("push 4 write_io push 0 invert halt").unwrap();
    let (states, fault) = program.debug(vec![], vec![], None, None);
    let (terminal_fault, last) = program
        .debug_terminal_state(vec![], vec![], None, None)
        .err()
        .unwrap();
    assert_eq!(Some(InstructionError::InverseOfZero), fault);
    assert_eq!(InstructionError::InverseOfZero, terminal_fault);
    assert_eq!(4, states.len());
    let listed = states.last().unwrap();
    assert_eq!(3, last.cycle_count);
    assert_eq!(5, last.instruction_pointer);
    assert_eq!(17, last.op_stack.len());
    assert_eq!(listed.cycle_count, last.cycle_count);
    assert_eq!(listed.instruction_pointer, last.instruction_pointer);
    assert_eq!(listed.op_stack, last.op_stack);
    assert_eq!(listed.public_output, last.public_output);
    assert_eq!(input(&[4]), last.public_output);
}

#[test]
fn a_failed_step_leaves_the_returned_state_untouched() {
    let program = Program::from_code("push 7 push 0 push 1 div halt").unwrap();
    let (fault, last) = program
        .debug_terminal_state(vec![], vec![], None, None)
        .err()
        .unwrap();
    assert_eq!(InstructionError::DivisionByZero, fault);
    assert_eq!(
        input(&[7, 0, 1]),
        last.op_stack[16..].to_vec()
    );
}

#[test]
fn debugging_stops_at_the_limit_of_cycles() {
    let program = Program::from_code("push 1 push 2 add write_io halt").unwrap();
    let (states, fault) = program.debug(vec![], vec![], None, Some(2));
    assert_eq!(None, fault);
    assert_eq!(3, states.len());
    assert_eq!(2, states[2].cycle_count);
    assert!(!states[2].halting);

    let last = program
        .debug_terminal_state(vec![], vec![], None, Some(2))
        .unwrap();
    assert_eq!(2, last.cycle_count);
    assert_eq!(4, last.instruction_pointer);

    let (states, fault) = program.debug(vec![], vec![], None, Some(0));
    assert_eq!(None, fault);
    assert_eq!(1, states.len());
    assert_eq!(0, states[0].cycle_count);

    let (states, _) = program.debug(vec![], vec![], None, Some(100));
    assert_eq!(6, states.len());
}

#[test]
fn debugging_goes_on_from_a_given_state() {
    let program = Program::from_code("read_io push 2 add write_io halt").unwrap();
    let other = Program::from_code("halt").unwrap();
    let paused = program
        .debug_terminal_state(input(&[40]), vec![], None, Some(2))
        .unwrap();
    assert_eq!(2, paused.cycle_count);

    let resumed = other
        .debug_terminal_state(input(&[1, 2, 3]), input(&[4]), Some(paused.clone()), None)
        .unwrap();
    assert!(resumed.halting);
    assert_eq!(5, resumed.cycle_count);
    assert_eq!(input(&[42]), resumed.public_output);

    let (states, fault) = other.debug(vec![], vec![], Some(paused.clone()), Some(1));
    assert_eq!(None, fault);
    assert_eq!(2, states.len());
    assert_eq!(2, states[0].cycle_count);
    assert_eq!(3, states[1].cycle_count);

    let mut late = paused;
    late.cycle_count = u32::MAX - 1;
    let (states, fault) = other.debug(vec![], vec![], Some(late), Some(5));
    assert_eq!(None, fault);
    assert_eq!(2, states.len());
    assert_eq!(u32::MAX, states[1].cycle_count);
    assert!(!states[1].halting);
}

#[test]
fn a_halted_state_is_its_own_terminal_state() {
    let program = Program::from_code("halt").unwrap();
    let halted: VMState = program
        .debug_terminal_state(vec![], vec![], None, None)
        .unwrap();
    assert!(halted.halting);
    let (states, fault) = program.debug(vec![], vec![], Some(halted.clone()), None);
    assert_eq!(None, fault);
    assert_eq!(1, states.len());
    assert_eq!(1, states[0].cycle_count);
}
