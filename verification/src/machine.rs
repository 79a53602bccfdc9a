//! The machine as mathematics: its state, and what one instruction makes of a state.
//!
//! The operational stack is a sequence whose last element is the top. Its sixteen lowest
//! elements are the machine's registers: no instruction may leave fewer than sixteen.

use crate::error::InstructionError;
use crate::field::BFieldElement;
use crate::field::P;
use crate::field::field_inverse;
use crate::field::field_power;
use crate::field::field_product;
use crate::field::field_sum;
use crate::hashing::permutation_of;
use crate::instruction::Instruction;
use crate::instruction::Ord16;
use crate::word::bit_count;
use crate::word::log_2_floor;
use vstd::prelude::*;

verus! {

/// The number of registers, which is the least height of the operational stack.
pub const REGISTERS: usize = 16;

/// All that the machine holds between two instructions.
#[verifier::ext_equal]
pub struct MachineState {
    /// The slots of the program that is executed.
    pub program: Seq<Instruction>,
    /// The public input that is not yet read.
    pub public_input: Seq<BFieldElement>,
    /// The secret input that is not yet read.
    pub secret_input: Seq<BFieldElement>,
    /// The output written so far.
    pub public_output: Seq<BFieldElement>,
    /// The memory: what was written, by address.
    pub ram: Map<u64, BFieldElement>,
    /// The operational stack, its top last.
    pub op_stack: Seq<BFieldElement>,
    /// The jump stack: for each call that has not returned, where to return to and where the
    /// call went.
    pub jump_stack: Seq<(usize, usize)>,
    /// The number of instructions executed.
    pub cycle_count: u32,
    /// The index of the slot that holds the next instruction.
    pub instruction_pointer: usize,
    /// The state of the sponge.
    pub sponge_state: Seq<BFieldElement>,
    /// Whether `halt` was executed.
    pub halting: bool,
}

/// What an instruction hands to a co-processor.
#[verifier::ext_equal]
pub enum CallRecord {
    /// The instruction that hashed, the sponge state it permuted, and the permuted state.
    Permutation(Instruction, Seq<BFieldElement>, Seq<BFieldElement>),
    /// The instruction that worked on 32-bit words, and its operands.
    U32(Instruction, BFieldElement, BFieldElement),
    /// An address in memory, the element found or put there, and whether it was put.
    Ram(BFieldElement, BFieldElement, bool),
}

/// What a state becomes, and what is handed to a co-processor; or why the instruction fails.
pub type Outcome = Result<(MachineState, Option<CallRecord>), InstructionError>;

/// What a stack becomes, and what is handed to a co-processor; or why the instruction fails.
pub type StackOutcome = Result<(Seq<BFieldElement>, Option<CallRecord>), InstructionError>;

pub open spec fn zero() -> BFieldElement {
    BFieldElement { value: 0 }
}

pub open spec fn one() -> BFieldElement {
    BFieldElement { value: 1 }
}

/// The address nearest to an integer that is not negative.
pub open spec fn saturated(address: int) -> usize {
    if address > usize::MAX {
        usize::MAX
    } else {
        address as usize
    }
}

/// The state in which a program starts: sixteen registers holding zero, nothing read, nothing
/// written, the sponge holding zero.
pub open spec fn initial_state(
    program: Seq<Instruction>,
    public_input: Seq<BFieldElement>,
    secret_input: Seq<BFieldElement>,
) -> MachineState {
    MachineState {
        program,
        public_input,
        secret_input,
        public_output: Seq::empty(),
        ram: Map::empty(),
        op_stack: Seq::new(16, |i: int| zero()),
        jump_stack: Seq::empty(),
        cycle_count: 0,
        instruction_pointer: 0,
        sponge_state: Seq::new(16, |i: int| zero()),
        halting: false,
    }
}

/// The element at a given depth of the stack, the top being at depth 0.
pub open spec fn at_depth(stack: Seq<BFieldElement>, depth: int) -> BFieldElement {
    stack[stack.len() - 1 - depth]
}

/// Whether an element is a 32-bit word.
pub open spec fn is_word(element: BFieldElement) -> bool {
    element.value <= 0xffff_ffff
}

/// The stack with its `consumed` topmost elements replaced by `produced`, whose last element
/// becomes the top. Fails where the stack holds fewer elements than are consumed, or where
/// fewer than sixteen would be left.
pub open spec fn rewritten(
    stack: Seq<BFieldElement>,
    consumed: int,
    produced: Seq<BFieldElement>,
) -> Result<Seq<BFieldElement>, InstructionError> {
    if stack.len() < consumed || stack.len() - consumed + produced.len() < 16 {
        Err(InstructionError::OpStackTooShallow)
    } else {
        Ok(stack.take(stack.len() - consumed) + produced)
    }
}

/// [`rewritten`], with what is handed to a co-processor.
pub open spec fn rewritten_with(
    stack: Seq<BFieldElement>,
    consumed: int,
    produced: Seq<BFieldElement>,
    call: Option<CallRecord>,
) -> StackOutcome {
    match rewritten(stack, consumed, produced) {
        Ok(next) => Ok((next, call)),
        Err(error) => Err(error),
    }
}

/// The sponge state that absorbing the ten topmost elements of the stack makes of a state:
/// the top of the stack comes first, the last six elements stay.
pub open spec fn absorbing(stack: Seq<BFieldElement>, state: Seq<BFieldElement>) -> Seq<
    BFieldElement,
> {
    Seq::new(
        16,
        |i: int|
            if i < 10 {
                at_depth(stack, i)
            } else {
                state[i]
            },
    )
}

/// What `hash` puts on the stack: five times zero, and on top the first five elements of the
/// permuted state, the first of them topmost.
pub open spec fn hash_produce(permuted: Seq<BFieldElement>) -> Seq<BFieldElement> {
    Seq::new(
        10,
        |i: int|
            if i < 5 {
                zero()
            } else {
                permuted[9 - i]
            },
    )
}

/// What `squeeze` puts on the stack: the first ten elements of the sponge state, the first of
/// them topmost.
pub open spec fn squeeze_produce(state: Seq<BFieldElement>) -> Seq<BFieldElement> {
    Seq::new(10, |i: int| state[9 - i])
}

/// The least depth below five at which the element differs from the one five further down.
pub open spec fn vector_mismatch(stack: Seq<BFieldElement>, from: int) -> Option<int>
    decreases 5 - from,
{
    if from >= 5 {
        None
    } else if at_depth(stack, from) != at_depth(stack, from + 5) {
        Some(from)
    } else {
        vector_mismatch(stack, from + 1)
    }
}

/// Whether the instruction hands something to a co-processor.
pub open spec fn needs_co_processor(instruction: Instruction) -> bool {
    match instruction {
        Instruction::ReadMem
        | Instruction::WriteMem
        | Instruction::Hash
        | Instruction::AbsorbInit
        | Instruction::Absorb
        | Instruction::Squeeze
        | Instruction::Split
        | Instruction::Lt
        | Instruction::And
        | Instruction::Xor
        | Instruction::Log2Floor
        | Instruction::Pow
        | Instruction::Div
        | Instruction::PopCount => true,
        _ => false,
    }
}

/// What an instruction on two 32-bit words makes of them.
pub open spec fn word_result(instruction: Instruction, left: u32, right: u32) -> BFieldElement {
    match instruction {
        Instruction::Lt => if left < right {
            one()
        } else {
            zero()
        },
        Instruction::And => BFieldElement { value: (left & right) as u64 },
        Instruction::Xor => BFieldElement { value: (left ^ right) as u64 },
        _ => zero(),
    }
}

/// What an instruction that works on the operational stack alone makes of the stack.
pub open spec fn stack_effect(instruction: Instruction, stack: Seq<BFieldElement>) -> StackOutcome {
    let top = at_depth(stack, 0);
    let below = at_depth(stack, 1);
    match instruction {
        Instruction::Pop => rewritten_with(stack, 1, seq![], None),
        Instruction::Push(element) => rewritten_with(stack, 0, seq![element], None),
        Instruction::Dup(register) => if stack.len() <= register.spec_index() {
            Err(InstructionError::OpStackTooShallow)
        } else {
            rewritten_with(stack, 0, seq![at_depth(stack, register.spec_index() as int)], None)
        },
        Instruction::Swap(register) => if register == Ord16::ST0 {
            Err(InstructionError::SwapST0)
        } else if stack.len() <= register.spec_index() {
            Err(InstructionError::OpStackTooShallow)
        } else {
            Ok(
                (
                    stack.update(
                        stack.len() - 1,
                        at_depth(stack, register.spec_index() as int),
                    ).update(stack.len() - 1 - register.spec_index(), top),
                    None,
                ),
            )
        },
        Instruction::Nop => Ok((stack, None)),
        Instruction::Assert => match rewritten(stack, 1, seq![]) {
            Err(error) => Err(error),
            Ok(next) => if top.value != 1 {
                Err(InstructionError::AssertionFailed(top))
            } else {
                Ok((next, None))
            },
        },
        Instruction::Hash => {
            let before = absorbing(stack, Seq::new(16, |i: int| one()));
            let after = permutation_of(before);
            rewritten_with(
                stack,
                10,
                hash_produce(after),
                Some(CallRecord::Permutation(instruction, before, after)),
            )
        },
        Instruction::AssertVector => if stack.len() < 10 {
            Err(InstructionError::OpStackTooShallow)
        } else {
            match vector_mismatch(stack, 0) {
                Some(depth) => Err(InstructionError::VectorAssertionFailed(depth as usize)),
                None => Ok((stack, None)),
            }
        },
        Instruction::Add => rewritten_with(stack, 2, seq![field_sum(top, below)], None),
        Instruction::Mul => rewritten_with(stack, 2, seq![field_product(top, below)], None),
        Instruction::Invert => match rewritten(stack, 1, seq![field_inverse(top)]) {
            Err(error) => Err(error),
            Ok(next) => if top.value % P == 0 {
                Err(InstructionError::InverseOfZero)
            } else {
                Ok((next, None))
            },
        },
        Instruction::Eq => rewritten_with(
            stack,
            2,
            seq![if top == below {
                one()
            } else {
                zero()
            }],
            None,
        ),
        Instruction::Split => rewritten_with(
            stack,
            1,
            seq![
                BFieldElement { value: top.value / 0x1_0000_0000 },
                BFieldElement { value: top.value % 0x1_0000_0000 },
            ],
            Some(
                CallRecord::U32(
                    instruction,
                    BFieldElement { value: top.value % 0x1_0000_0000 },
                    BFieldElement { value: top.value / 0x1_0000_0000 },
                ),
            ),
        ),
        Instruction::Lt | Instruction::And | Instruction::Xor => match rewritten(
            stack,
            2,
            seq![word_result(instruction, top.value as u32, below.value as u32)],
        ) {
            Err(error) => Err(error),
            Ok(next) => if !is_word(top) {
                Err(InstructionError::FailedU32Conversion(top))
            } else if !is_word(below) {
                Err(InstructionError::FailedU32Conversion(below))
            } else {
                Ok((next, Some(CallRecord::U32(instruction, top, below))))
            },
        },
        Instruction::Log2Floor => match rewritten(
            stack,
            1,
            seq![BFieldElement { value: log_2_floor(top.value as nat) as u64 }],
        ) {
            Err(error) => Err(error),
            Ok(next) => if !is_word(top) {
                Err(InstructionError::FailedU32Conversion(top))
            } else if top.value == 0 {
                Err(InstructionError::LogarithmOfZero)
            } else {
                Ok((next, Some(CallRecord::U32(instruction, top, zero()))))
            },
        },
        Instruction::Pow => match rewritten(
            stack,
            2,
            seq![field_power(top, below.value as nat)],
        ) {
            Err(error) => Err(error),
            Ok(next) => if !is_word(below) {
                Err(InstructionError::FailedU32Conversion(below))
            } else {
                Ok((next, Some(CallRecord::U32(instruction, top, below))))
            },
        },
        Instruction::Div => match rewritten(
            stack,
            2,
            seq![
                BFieldElement { value: (top.value % below.value) as u64 },
                BFieldElement { value: (top.value / below.value) as u64 },
            ],
        ) {
            Err(error) => Err(error),
            Ok(next) => if !is_word(top) {
                Err(InstructionError::FailedU32Conversion(top))
            } else if !is_word(below) {
                Err(InstructionError::FailedU32Conversion(below))
            } else if below.value == 0 {
                Err(InstructionError::DivisionByZero)
            } else {
                Ok((next, Some(CallRecord::U32(instruction, top, below))))
            },
        },
        Instruction::PopCount => match rewritten(
            stack,
            1,
            seq![BFieldElement { value: bit_count(top.value as nat) as u64 }],
        ) {
            Err(error) => Err(error),
            Ok(next) => if !is_word(top) {
                Err(InstructionError::FailedU32Conversion(top))
            } else {
                Ok((next, Some(CallRecord::U32(instruction, top, zero()))))
            },
        },
        _ => Ok((stack, None)),
    }
}

/// Whether the instruction works on the operational stack alone, and then steps to the
/// instruction that follows it.
pub open spec fn works_on_stack_alone(instruction: Instruction) -> bool {
    match instruction {
        Instruction::Divine
        | Instruction::Skiz
        | Instruction::Call(_)
        | Instruction::Return
        | Instruction::Recurse
        | Instruction::Halt
        | Instruction::ReadMem
        | Instruction::WriteMem
        | Instruction::AbsorbInit
        | Instruction::Absorb
        | Instruction::Squeeze
        | Instruction::ReadIo
        | Instruction::WriteIo => false,
        _ => true,
    }
}

/// The address of the instruction that follows the one at the instruction pointer.
pub open spec fn following(state: MachineState, instruction: Instruction) -> usize {
    saturated(state.instruction_pointer + instruction.spec_size())
}

/// What an instruction makes of a state, but for the count of cycles.
pub open spec fn effect(state: MachineState, instruction: Instruction) -> Outcome {
    let stack = state.op_stack;
    let top = at_depth(stack, 0);
    let next = following(state, instruction);
    match instruction {
        Instruction::Divine => if state.secret_input.len() == 0 {
            Err(InstructionError::EmptySecretInput)
        } else {
            match rewritten(stack, 0, seq![state.secret_input[0]]) {
                Err(error) => Err(error),
                Ok(op_stack) => Ok(
                    (
                        MachineState {
                            op_stack,
                            secret_input: state.secret_input.skip(1),
                            instruction_pointer: next,
                            ..state
                        },
                        None,
                    ),
                ),
            }
        },
        Instruction::ReadIo => if state.public_input.len() == 0 {
            Err(InstructionError::EmptyPublicInput)
        } else {
            match rewritten(stack, 0, seq![state.public_input[0]]) {
                Err(error) => Err(error),
                Ok(op_stack) => Ok(
                    (
                        MachineState {
                            op_stack,
                            public_input: state.public_input.skip(1),
                            instruction_pointer: next,
                            ..state
                        },
                        None,
                    ),
                ),
            }
        },
        Instruction::WriteIo => match rewritten(stack, 1, seq![]) {
            Err(error) => Err(error),
            Ok(op_stack) => Ok(
                (
                    MachineState {
                        op_stack,
                        public_output: state.public_output.push(top),
                        instruction_pointer: next,
                        ..state
                    },
                    None,
                ),
            ),
        },
        Instruction::Skiz => match rewritten(stack, 1, seq![]) {
            Err(error) => Err(error),
            Ok(op_stack) => if top.value % P != 0 {
                Ok((MachineState { op_stack, instruction_pointer: next, ..state }, None))
            } else if state.instruction_pointer + 1 >= state.program.len() {
                Err(
                    InstructionError::InstructionPointerOverflow(
                        saturated(state.instruction_pointer + 1),
                    ),
                )
            } else {
                Ok(
                    (
                        MachineState {
                            op_stack,
                            instruction_pointer: saturated(
                                state.instruction_pointer + 1
                                    + state.program[state.instruction_pointer + 1].spec_size(),
                            ),
                            ..state
                        },
                        None,
                    ),
                )
            },
        },
        Instruction::Call(address) => Ok(
            (
                MachineState {
                    jump_stack: state.jump_stack.push((next, saturated(address.value as int))),
                    instruction_pointer: saturated(address.value as int),
                    ..state
                },
                None,
            ),
        ),
        Instruction::Return => if state.jump_stack.len() == 0 {
            Err(InstructionError::JumpStackIsEmpty)
        } else {
            Ok(
                (
                    MachineState {
                        jump_stack: state.jump_stack.drop_last(),
                        instruction_pointer: state.jump_stack.last().0,
                        ..state
                    },
                    None,
                ),
            )
        },
        Instruction::Recurse => if state.jump_stack.len() == 0 {
            Err(InstructionError::JumpStackIsEmpty)
        } else {
            Ok((MachineState { instruction_pointer: state.jump_stack.last().1, ..state }, None))
        },
        Instruction::Halt => Ok(
            (MachineState { halting: true, instruction_pointer: next, ..state }, None),
        ),
        Instruction::ReadMem => if stack.len() < 1 {
            Err(InstructionError::OpStackTooShallow)
        } else {
            let found = if state.ram.contains_key(top.value) {
                state.ram[top.value]
            } else {
                zero()
            };
            match rewritten(stack, 0, seq![found]) {
                Err(error) => Err(error),
                Ok(op_stack) => Ok(
                    (
                        MachineState { op_stack, instruction_pointer: next, ..state },
                        Some(CallRecord::Ram(top, found, false)),
                    ),
                ),
            }
        },
        Instruction::WriteMem => if stack.len() < 2 {
            Err(InstructionError::OpStackTooShallow)
        } else {
            match rewritten(stack, 1, seq![]) {
                Err(error) => Err(error),
                Ok(op_stack) => Ok(
                    (
                        MachineState {
                            op_stack,
                            ram: state.ram.insert(at_depth(stack, 1).value, top),
                            instruction_pointer: next,
                            ..state
                        },
                        Some(CallRecord::Ram(at_depth(stack, 1), top, true)),
                    ),
                ),
            }
        },
        Instruction::AbsorbInit | Instruction::Absorb => if stack.len() < 10 {
            Err(InstructionError::OpStackTooShallow)
        } else {
            let before = absorbing(
                stack,
                if instruction == Instruction::Absorb {
                    state.sponge_state
                } else {
                    Seq::new(16, |i: int| zero())
                },
            );
            let after = permutation_of(before);
            Ok(
                (
                    MachineState { sponge_state: after, instruction_pointer: next, ..state },
                    Some(CallRecord::Permutation(instruction, before, after)),
                ),
            )
        },
        Instruction::Squeeze => match rewritten(
            stack,
            10,
            squeeze_produce(state.sponge_state),
        ) {
            Err(error) => Err(error),
            Ok(op_stack) => {
                let after = permutation_of(state.sponge_state);
                Ok(
                    (
                        MachineState {
                            op_stack,
                            sponge_state: after,
                            instruction_pointer: next,
                            ..state
                        },
                        Some(CallRecord::Permutation(instruction, state.sponge_state, after)),
                    ),
                )
            },
        },
        _ => match stack_effect(instruction, stack) {
            Err(error) => Err(error),
            Ok((op_stack, call)) => Ok(
                (MachineState { op_stack, instruction_pointer: next, ..state }, call),
            ),
        },
    }
}

/// One step of the machine: the instruction at the instruction pointer is executed, and the
/// count of cycles grows by one. The step fails where the instruction pointer points beyond
/// the program, where the count of cycles cannot grow, and where the instruction fails.
pub open spec fn vm_step(state: MachineState) -> Outcome {
    if state.instruction_pointer >= state.program.len() {
        Err(InstructionError::InstructionPointerOverflow(state.instruction_pointer))
    } else if state.cycle_count == u32::MAX {
        Err(InstructionError::CycleCountOverflow)
    } else {
        match effect(state, state.program[state.instruction_pointer as int]) {
            Err(error) => Err(error),
            Ok((next, call)) => Ok(
                (MachineState { cycle_count: (state.cycle_count + 1) as u32, ..next }, call),
            ),
        }
    }
}

/// A step that succeeds counts one cycle, leaves the program as it is, and hands something to
/// a co-processor exactly where the instruction executed needs one.
pub proof fn lemma_step_counts(state: MachineState)
    ensures
        vm_step(state) matches Ok((next, call)) ==> next.cycle_count == state.cycle_count + 1
            && next.program == state.program && state.instruction_pointer < state.program.len()
            && (call is Some <==> needs_co_processor(
            state.program[state.instruction_pointer as int],
        )),
{
}

} // verus!
