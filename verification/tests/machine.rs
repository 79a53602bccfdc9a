use triton_vm::aet::AlgebraicExecutionTrace;
use triton_vm::error::InstructionError;
use triton_vm::field::BFieldElement;
use triton_vm::field::P;
use triton_vm::instruction::Instruction;
use triton_vm::instruction::Ord16;
use triton_vm::program::Program;
use triton_vm::vm::CoProcessorCall;
use triton_vm::vm::VMState;
use twenty_first::prelude::Sponge;

fn elements(values: &[u64]) -> Vec<BFieldElement> {
    values.iter().map(|&value| BFieldElement::new(value)).collect()
}

fn output_of(source: &str, public_input: &[u64], secret_input: &[u64]) -> Vec<u64> {
    let program = Program::from_code(source).unwrap();
    let output = program
        .run(elements(public_input), elements(secret_input))
        .unwrap();
    output.iter().map(|element| element.value()).collect()
}

fn fault_of(source: &str) -> InstructionError {
    let program = Program::from_code(source).unwrap();
    program.run(vec![], vec![]).err().unwrap()
}

fn foreign(values: &[BFieldElement]) -> Vec<twenty_first::prelude::BFieldElement> {
    values
        .iter()
        .map(|element| twenty_first::prelude::BFieldElement::new(element.value()))
        .collect()
}

#[test]
fn a_program_starts_with_sixteen_registers_holding_zero() {
    let program = Program::from_code("halt").unwrap();
    let state = VMState::new(&program, elements(&[1, 2]), elements(&[3]));
    assert_eq!(elements(&[0; 16]), state.op_stack);
    assert_eq!(0, state.cycle_count);
    assert_eq!(0, state.instruction_pointer);
    assert!(!state.halting);
    assert!(state.public_output.is_empty());
    assert!(state.jump_stack.is_empty());
    assert!(state.ram.is_empty());
    assert_eq!(2, state.public_input.len());
    assert_eq!(1, state.secret_input.len());
    assert_eq!(elements(&[0; 16]), state.sponge_state.to_vec());
}

#[test]
fn step_executes_one_instruction_and_counts_a_cycle() {
    let program = Program::from_code("push 5 halt").unwrap();
    let mut state = VMState::new(&program, vec![], vec![]);
    assert_eq!(Ok(None), state.step());
    assert_eq!(1, state.cycle_count);
    assert_eq!(2, state.instruction_pointer);
    assert_eq!(17, state.op_stack.len());
    assert_eq!(BFieldElement::new(5), state.op_stack[16]);
    assert!(!state.halting);
    assert_eq!(Ok(None), state.step());
    assert_eq!(2, state.cycle_count);
    assert_eq!(3, state.instruction_pointer);
    assert!(state.halting);
    assert_eq!(
        Err(InstructionError::InstructionPointerOverflow(3)),
        state.step()
    );
}

#[test]
fn arithmetic_in_the_field() {
    assert_eq!(vec![7], output_of("push 3 push 4 add write_io halt", &[], &[]));
    assert_eq!(vec![12], output_of("push 3 push 4 mul write_io halt", &[], &[]));
    assert_eq!(vec![1], output_of("push -1 push 2 add write_io halt", &[], &[]));
    assert_eq!(
        vec![9223372034707292161],
        output_of("push 2 invert write_io halt", &[], &[])
    );
    assert_eq!(vec![1], output_of("push 9 push 9 eq write_io halt", &[], &[]));
    assert_eq!(vec![0], output_of("push 9 push 8 eq write_io halt", &[], &[]));
}

#[test]
fn arithmetic_on_words() {
    assert_eq!(
        vec![2, 1],
        output_of("push 4294967298 split write_io write_io halt", &[], &[])
    );
    assert_eq!(vec![1], output_of("push 5 push 3 lt write_io halt", &[], &[]));
    assert_eq!(vec![0], output_of("push 3 push 5 lt write_io halt", &[], &[]));
    assert_eq!(vec![0], output_of("push 3 push 3 lt write_io halt", &[], &[]));
    assert_eq!(vec![8], output_of("push 12 push 10 and write_io halt", &[], &[]));
    assert_eq!(vec![6], output_of("push 12 push 10 xor write_io halt", &[], &[]));
    assert_eq!(vec![10], output_of("push 1024 log_2_floor write_io halt", &[], &[]));
    assert_eq!(vec![1024], output_of("push 10 push 2 pow write_io halt", &[], &[]));
    assert_eq!(
        vec![14, 2],
        output_of("push 7 push 100 div write_io write_io halt", &[], &[])
    );
    assert_eq!(vec![3], output_of("push 11 pop_count write_io halt", &[], &[]));
}

#[test]
fn moving_elements_on_the_stack() {
    assert_eq!(
        vec![1, 2],
        output_of("push 1 push 2 swap 1 write_io write_io halt", &[], &[])
    );
    assert_eq!(
        vec![1, 2, 1],
        output_of("push 1 push 2 dup 1 write_io write_io write_io halt", &[], &[])
    );
    assert_eq!(vec![1], output_of("push 1 push 2 pop write_io halt", &[], &[]));
    assert_eq!(vec![0], output_of("dup 15 write_io halt", &[], &[]));
    assert_eq!(vec![4], output_of("nop push 4 nop write_io halt", &[], &[]));
}

#[test]
fn input_is_read_from_the_front() {
    assert_eq!(
        vec![3, 5],
        output_of("read_io write_io read_io write_io halt", &[3, 5, 8], &[])
    );
    assert_eq!(
        vec![15],
        output_of("divine divine mul write_io halt", &[], &[3, 5])
    );
    assert_eq!(Vec::<u64>::new(), output_of("halt", &[1], &[2]));
}

#[test]
fn skiz_skips_one_instruction_if_the_top_is_zero() {
    assert_eq!(
        vec![2],
        output_of("push 0 skiz push 1 push 2 write_io halt", &[], &[])
    );
    assert_eq!(
        vec![1],
        output_of("push 2 push 7 skiz push 1 write_io halt", &[], &[])
    );
    assert_eq!(vec![9], output_of("push 9 push 0 skiz pop write_io halt", &[], &[]));
}

#[test]
fn calls_return_to_where_they_came_from() {
    assert_eq!(
        vec![7, 8],
        output_of("call f push 8 write_io halt f: push 7 write_io return", &[], &[])
    );
    assert_eq!(
        vec![3, 2, 1],
        output_of(
            "push 3 call loop halt \
             loop: dup 0 write_io push -1 add dup 0 skiz recurse return",
            &[],
            &[]
        )
    );
}

#[test]
fn memory_holds_what_was_written() {
    assert_eq!(
        vec![42],
        output_of("push 5 push 42 write_mem pop push 5 read_mem write_io halt", &[], &[])
    );
    assert_eq!(vec![0], output_of("push 5 read_mem write_io halt", &[], &[]));
    assert_eq!(
        vec![2, 5],
        output_of(
            "push 5 push 1 write_mem push 2 write_mem read_mem write_io write_io halt",
            &[],
            &[]
        )
    );
}

#[test]
fn assertions_pass_on_what_they_ask_for() {
    assert_eq!(vec![4], output_of("push 1 assert push 4 write_io halt", &[], &[]));
    assert_eq!(
        vec![9],
        output_of(
            "push 5 push 4 push 3 push 2 push 1 push 5 push 4 push 3 push 2 push 1 \
             assert_vector push 9 write_io halt",
            &[],
            &[]
        )
    );
    assert_eq!(Vec::<u64>::new(), output_of("assert_vector halt", &[], &[]));
}

#[test]
fn hash_puts_the_digest_of_the_ten_topmost_elements_on_the_stack() {
    let source = "push 10 push 9 push 8 push 7 push 6 push 5 push 4 push 3 push 2 push 1 hash \
                  write_io write_io write_io write_io write_io \
                  write_io write_io write_io write_io write_io halt";
    let output = output_of(source, &[], &[]);
    let input: [twenty_first::prelude::BFieldElement; 10] =
        foreign(&elements(&[1, 2, 3, 4, 5, 6, 7, 8, 9, 10]))
            .try_into()
            .unwrap();
    let digest = twenty_first::prelude::Tip5::hash_10(&input);
    let mut expected: Vec<u64> = digest.iter().map(|element| element.value()).collect();
    expected.extend([0; 5]);
    assert_eq!(expected, output);
    assert_ne!(vec![1, 2, 3, 4, 5, 0, 0, 0, 0, 0], output);
}

#[test]
fn the_sponge_absorbs_and_squeezes() {
    let source = "push 10 push 9 push 8 push 7 push 6 push 5 push 4 push 3 push 2 push 1 \
                  absorb_init absorb squeeze \
                  write_io write_io write_io write_io write_io \
                  write_io write_io write_io write_io write_io halt";
    let output = output_of(source, &[], &[]);
    let input: [twenty_first::prelude::BFieldElement; 10] =
        foreign(&elements(&[1, 2, 3, 4, 5, 6, 7, 8, 9, 10]))
            .try_into()
            .unwrap();
    let mut sponge = twenty_first::prelude::Tip5::init();
    sponge.absorb(input);
    sponge.absorb(input);
    let expected: Vec<u64> = sponge.squeeze().iter().map(|element| element.value()).collect();
    assert_eq!(expected, output);
}

#[test]
fn instructions_fail_on_a_stack_that_is_too_shallow() {
    for source in [
        "pop", "add", "mul", "eq", "lt", "and", "xor", "pow", "assert", "write_io", "skiz",
        "write_mem",
    ] {
        assert_eq!(InstructionError::OpStackTooShallow, fault_of(source));
    }
    // what leaves sixteen elements works on the registers alone
    for source in ["hash halt", "squeeze halt", "split pop halt", "div halt", "swap 15 halt"] {
        let program = Program::from_code(source).unwrap();
        let found = program.run(vec![], vec![]);
        assert!(matches!(found, Ok(_) | Err(InstructionError::DivisionByZero)));
    }
    let program = Program::from_code("dup 3").unwrap();
    let mut state = VMState::new(&program, vec![], vec![]);
    state.op_stack.truncate(3);
    assert_eq!(Err(InstructionError::OpStackTooShallow), state.step());
}

#[test]
fn instructions_fail_on_operands_they_cannot_work_on() {
    assert_eq!(
        InstructionError::AssertionFailed(BFieldElement::new(2)),
        fault_of("push 2 assert")
    );
    assert_eq!(
        InstructionError::VectorAssertionFailed(0),
        fault_of("push 1 assert_vector")
    );
    assert_eq!(
        InstructionError::VectorAssertionFailed(3),
        fault_of("push 1 push 0 push 0 push 0 assert_vector")
    );
    assert_eq!(InstructionError::InverseOfZero, fault_of("invert"));
    assert_eq!(InstructionError::InverseOfZero, fault_of("push 0 invert"));
    assert_eq!(InstructionError::DivisionByZero, fault_of("push 0 push 1 div"));
    assert_eq!(InstructionError::LogarithmOfZero, fault_of("log_2_floor"));
    assert_eq!(
        InstructionError::FailedU32Conversion(BFieldElement::new(4294967296)),
        fault_of("push 4294967296 push 1 lt")
    );
    assert_eq!(
        InstructionError::FailedU32Conversion(BFieldElement::new(P - 1)),
        fault_of("push -1 pop_count")
    );
    assert_eq!(
        InstructionError::FailedU32Conversion(BFieldElement::new(4294967296)),
        fault_of("push 4294967296 push 2 pow")
    );
    assert_eq!(InstructionError::JumpStackIsEmpty, fault_of("return"));
    assert_eq!(InstructionError::JumpStackIsEmpty, fault_of("recurse"));
    assert_eq!(InstructionError::EmptyPublicInput, fault_of("read_io"));
    assert_eq!(InstructionError::EmptySecretInput, fault_of("divine"));
}

#[test]
fn the_instruction_pointer_must_stay_in_the_program() {
    assert_eq!(InstructionError::InstructionPointerOverflow(1), fault_of("nop"));
    assert_eq!(InstructionError::InstructionPointerOverflow(0), fault_of(""));
    assert_eq!(
        InstructionError::InstructionPointerOverflow(3),
        fault_of("push 0 skiz")
    );
    let program = Program {
        instructions: vec![
            Instruction::Call(BFieldElement::new(100)),
            Instruction::Call(BFieldElement::new(100)),
        ],
    };
    assert_eq!(
        Err(InstructionError::InstructionPointerOverflow(100)),
        program.run(vec![], vec![])
    );
}

#[test]
fn swap_of_the_top_with_itself_is_a_fault() {
    let swap = Instruction::Swap(Ord16::ST0);
    let program = Program {
        instructions: vec![swap, swap],
    };
    assert_eq!(Err(InstructionError::SwapST0), program.run(vec![], vec![]));
}

#[test]
fn the_count_of_cycles_cannot_grow_beyond_its_largest_value() {
    let program = Program::from_code("nop halt").unwrap();
    let mut state = VMState::new(&program, vec![], vec![]);
    state.cycle_count = u32::MAX;
    assert_eq!(Err(InstructionError::CycleCountOverflow), state.step());
    state.cycle_count = u32::MAX - 1;
    assert_eq!(Ok(None), state.step());
    assert_eq!(u32::MAX, state.cycle_count);
}

#[test]
fn a_slot_that_holds_a_copy_is_executed_as_the_instruction() {
    let program = Program::from_code("push 7 write_io halt").unwrap();
    let mut state = VMState::new(&program, vec![], vec![]);
    state.instruction_pointer = 1;
    assert_eq!(Ok(None), state.step());
    assert_eq!(3, state.instruction_pointer);
    assert_eq!(BFieldElement::new(7), state.op_stack[16]);
}

#[test]
fn instructions_hand_their_operands_to_the_co_processors() {
    let program = Program::from_code(
        "push 5 push 3 lt push 8 push 6 write_mem read_mem push 4294967298 split halt",
    )
    .unwrap();
    let mut state = VMState::new(&program, vec![], vec![]);
    let mut calls = vec![];
    while !state.halting {
        if let Some(call) = state.step().unwrap() {
            calls.push(call);
        }
    }
    let e = BFieldElement::new;
    assert_eq!(
        vec![
            CoProcessorCall::U32(Instruction::Lt, e(3), e(5)),
            CoProcessorCall::Ram(e(8), e(6), true),
            CoProcessorCall::Ram(e(8), e(6), false),
            CoProcessorCall::U32(Instruction::Split, e(2), e(1)),
        ],
        calls
    );
}

#[test]
fn a_state_and_its_clone_go_separate_ways() {
    let program = Program::from_code("push 5 push 6 write_mem write_io halt").unwrap();
    let mut state = VMState::new(&program, vec![], vec![]);
    state.step().unwrap();
    let snapshot = state.clone();
    state.step().unwrap();
    state.step().unwrap();
    assert_eq!(1, snapshot.cycle_count);
    assert_eq!(17, snapshot.op_stack.len());
    assert!(snapshot.ram.is_empty());
    assert_eq!(3, state.cycle_count);
    assert_eq!(Some(&BFieldElement::new(6)), state.ram.get(&5));
}

#[test]
fn a_trace_counts_the_instructions_it_is_told_of() {
    let program = Program::from_code("push 1 halt").unwrap();
    let mut trace = AlgebraicExecutionTrace::new(program.clone());
    assert_eq!(vec![0, 0, 0], trace.instruction_multiplicities);
    assert!(trace.co_processor_calls.is_empty());
    assert_eq!(program, trace.program);

    let mut state = VMState::new(&program, vec![], vec![]);
    assert_eq!(Ok(()), trace.record_state(&state));
    state.instruction_pointer = 2;
    assert_eq!(Ok(()), trace.record_state(&state));
    assert_eq!(Ok(()), trace.record_state(&state));
    assert_eq!(vec![1, 0, 2], trace.instruction_multiplicities);

    state.instruction_pointer = 3;
    assert_eq!(
        Err(InstructionError::InstructionPointerOverflow(3)),
        trace.record_state(&state)
    );
    assert_eq!(vec![1, 0, 2], trace.instruction_multiplicities);

    let call = CoProcessorCall::Ram(BFieldElement::new(1), BFieldElement::new(2), true);
    trace.record_co_processor_call(call);
    trace.record_co_processor_call(CoProcessorCall::U32(
        Instruction::And,
        BFieldElement::new(1),
        BFieldElement::new(2),
    ));
    assert_eq!(2, trace.co_processor_calls.len());
    assert_eq!(call, trace.co_processor_calls[0]);
}

#[test]
fn a_count_of_the_trace_cannot_grow_beyond_its_largest_value() {
    let program = Program::from_code("halt").unwrap();
    let mut trace = AlgebraicExecutionTrace::new(program.clone());
    trace.instruction_multiplicities[0] = u32::MAX;
    let state = VMState::new(&program, vec![], vec![]);
    assert_eq!(
        Err(InstructionError::MultiplicityOverflow(0)),
        trace.record_state(&state)
    );
    assert_eq!(vec![u32::MAX], trace.instruction_multiplicities);
}

#[test]
fn faults_of_execution_say_what_is_wrong() {
    assert_eq!(
        "Instruction pointer 17 points outside of the program.",
        InstructionError::InstructionPointerOverflow(17).to_string()
    );
    assert_eq!(
        "Assertion failed: the top of the stack is -1, not 1.",
        InstructionError::AssertionFailed(BFieldElement::new(P - 1)).to_string()
    );
    assert_eq!(
        "Element 00000000004294967296 is no 32-bit word.",
        InstructionError::FailedU32Conversion(BFieldElement::new(4294967296)).to_string()
    );
    assert_eq!(
        "Vector assertion failed at register 4.",
        InstructionError::VectorAssertionFailed(4).to_string()
    );
    assert_eq!(
        "Operational stack is too shallow.",
        InstructionError::OpStackTooShallow.to_string()
    );
    assert_eq!("Jump stack is empty.", InstructionError::JumpStackIsEmpty.to_string());
    assert_eq!("Zero has no inverse.", InstructionError::InverseOfZero.to_string());
    assert_eq!("Cannot divide by zero.", InstructionError::DivisionByZero.to_string());
    assert_eq!("Zero has no logarithm.", InstructionError::LogarithmOfZero.to_string());
    assert_eq!("Public input is used up.", InstructionError::EmptyPublicInput.to_string());
    assert_eq!("Secret input is used up.", InstructionError::EmptySecretInput.to_string());
    assert_eq!(
        "Cannot swap the top of the stack with itself.",
        InstructionError::SwapST0.to_string()
    );
    assert_eq!(
        "The count of cycles cannot grow any further.",
        InstructionError::CycleCountOverflow.to_string()
    );
    assert_eq!(
        "The count of executions of the instruction at 2 cannot grow any further.",
        InstructionError::MultiplicityOverflow(2).to_string()
    );
}
