//! The machine that executes a program, one instruction at a time.

use crate::error::InstructionError;
use crate::field::BFieldElement;
use crate::hashing::permuted;
use crate::instruction::Instruction;
use crate::instruction::Ord16;
use crate::machine::CallRecord;
use crate::machine::MachineState;
use crate::machine::Outcome;
use crate::machine::StackOutcome;
use crate::machine::absorbing;
use crate::machine::at_depth;
use crate::machine::effect;
use crate::machine::hash_produce;
use crate::machine::initial_state;
use crate::machine::rewritten;
use crate::machine::saturated;
use crate::machine::squeeze_produce;
use crate::machine::stack_effect;
use crate::machine::vector_mismatch;
use crate::machine::vm_step;
use crate::machine::works_on_stack_alone;
use crate::program::Program;
use crate::word::word_bit_count;
use crate::word::word_log_2_floor;
use std::collections::HashMap;
use std::collections::VecDeque;
use vstd::prelude::*;

verus! {

broadcast use vstd::std_specs::hash::group_hash_axioms;

/// What an instruction hands to a co-processor.
#[derive(Clone, Copy, Debug, PartialEq, Eq)]
pub enum CoProcessorCall {
    /// The instruction that hashed, the sponge state it permuted, and the permuted state.
    Permutation(Instruction, [BFieldElement; 16], [BFieldElement; 16]),
    /// The instruction that worked on 32-bit words, and its operands.
    U32(Instruction, BFieldElement, BFieldElement),
    /// An address in memory, the element found or put there, and whether it was put.
    Ram(BFieldElement, BFieldElement, bool),
}

impl View for CoProcessorCall {
    type V = CallRecord;

    open spec fn view(&self) -> CallRecord {
        match *self {
            CoProcessorCall::Permutation(instruction, before, after) => CallRecord::Permutation(
                instruction,
                before@,
                after@,
            ),
            CoProcessorCall::U32(instruction, left, right) => CallRecord::U32(
                instruction,
                left,
                right,
            ),
            CoProcessorCall::Ram(address, element, put) => CallRecord::Ram(address, element, put),
        }
    }
}

/// The record of a call, if there is a call.
pub open spec fn call_record(call: Option<CoProcessorCall>) -> Option<CallRecord> {
    match call {
        Some(found) => Some(found@),
        None => None,
    }
}

/// Whether what an instruction returned, and the state it left, are what the instruction is
/// to make of the state before. Where the instruction fails, the state it leaves is open.
pub open spec fn conforms(
    outcome: Outcome,
    result: Result<Option<CoProcessorCall>, InstructionError>,
    after: MachineState,
) -> bool {
    match outcome {
        Ok((state, call)) => result matches Ok(found) && after == state && call_record(found)
            == call,
        Err(error) => result matches Err(found) && found == error,
    }
}

/// [`conforms`], for an instruction that works on the operational stack alone.
pub open spec fn stack_conforms(
    outcome: StackOutcome,
    result: Result<Option<CoProcessorCall>, InstructionError>,
    after: Seq<BFieldElement>,
) -> bool {
    match outcome {
        Ok((stack, call)) => result matches Ok(found) && after == stack && call_record(found)
            == call,
        Err(error) => result matches Err(found) && found == error,
    }
}

/// The state of the machine between two instructions. It reads the program and does not own
/// it.
#[derive(Debug)]
pub struct VMState<'pgm> {
    /// The slots of the program that is executed.
    pub program: &'pgm [Instruction],
    /// The public input that is not yet read.
    pub public_input: VecDeque<BFieldElement>,
    /// The secret input that is not yet read.
    pub secret_input: VecDeque<BFieldElement>,
    /// The output written so far.
    pub public_output: Vec<BFieldElement>,
    /// The memory: what was written, by address.
    pub ram: HashMap<u64, BFieldElement>,
    /// The operational stack, its top last.
    pub op_stack: Vec<BFieldElement>,
    /// For each call that has not returned, where to return to and where the call went.
    pub jump_stack: Vec<(usize, usize)>,
    /// The number of instructions executed.
    pub cycle_count: u32,
    /// The index of the slot that holds the next instruction.
    pub instruction_pointer: usize,
    /// The state of the sponge.
    pub sponge_state: [BFieldElement; 16],
    /// Whether `halt` was executed.
    pub halting: bool,
}

impl<'pgm> View for VMState<'pgm> {
    type V = MachineState;

    open spec fn view(&self) -> MachineState {
        MachineState {
            program: self.program@,
            public_input: self.public_input@,
            secret_input: self.secret_input@,
            public_output: self.public_output@,
            ram: self.ram@,
            op_stack: self.op_stack@,
            jump_stack: self.jump_stack@,
            cycle_count: self.cycle_count,
            instruction_pointer: self.instruction_pointer,
            sponge_state: self.sponge_state@,
            halting: self.halting,
        }
    }
}

/// A vector with the same elements.
pub fn copied<T: Copy>(elements: &Vec<T>) -> (r: Vec<T>)
    ensures
        r@ == elements@,
{
    let mut copy: Vec<T> = Vec::new();
    let mut i: usize = 0;
    while i < elements.len()
        invariant
            i <= elements@.len(),
            copy@ == elements@.take(i as int),
        decreases elements@.len() - i,
    {
        copy.push(elements[i]);
        assert(elements@.take(i + 1) =~= elements@.take(i as int).push(elements@[i as int]));
        i += 1;
    }
    assert(elements@.take(i as int) =~= elements@);
    copy
}

/// A queue with the same elements.
pub fn copied_queue(elements: &VecDeque<BFieldElement>) -> (r: VecDeque<BFieldElement>)
    ensures
        r@ == elements@,
{
    let mut copy: VecDeque<BFieldElement> = VecDeque::new();
    let mut i: usize = 0;
    while i < elements.len()
        invariant
            i <= elements@.len(),
            copy@ == elements@.take(i as int),
        decreases elements@.len() - i,
    {
        copy.push_back(elements[i]);
        assert(elements@.take(i + 1) =~= elements@.take(i as int).push(elements@[i as int]));
        i += 1;
    }
    assert(elements@.take(i as int) =~= elements@);
    copy
}

/// A queue with the elements of a vector, the first in front.
pub fn queue_of(elements: &Vec<BFieldElement>) -> (r: VecDeque<BFieldElement>)
    ensures
        r@ == elements@,
{
    let mut queue: VecDeque<BFieldElement> = VecDeque::new();
    let mut i: usize = 0;
    while i < elements.len()
        invariant
            i <= elements@.len(),
            queue@ == elements@.take(i as int),
        decreases elements@.len() - i,
    {
        queue.push_back(elements[i]);
        assert(elements@.take(i + 1) =~= elements@.take(i as int).push(elements@[i as int]));
        i += 1;
    }
    assert(elements@.take(i as int) =~= elements@);
    queue
}

/// The address `offset` slots after `pointer`, or the largest address where there is none.
pub fn saturating_address(pointer: usize, offset: usize) -> (r: usize)
    ensures
        r == saturated(pointer + offset),
{
    if pointer > usize::MAX - offset {
        usize::MAX
    } else {
        pointer + offset
    }
}

/// The address that a field element names, or the largest address where it names none.
pub fn address_of(element: BFieldElement) -> (r: usize)
    ensures
        r == saturated(element.value as int),
{
    if element.value() > usize::MAX as u64 {
        usize::MAX
    } else {
        element.value() as usize
    }
}

/// Whether the stack can lose `consumed` elements and gain `produced`.
pub fn deep_enough(stack: &Vec<BFieldElement>, consumed: usize, produced: usize) -> (r: bool)
    ensures
        r == !(stack@.len() < consumed || stack@.len() - consumed + produced < 16),
{
    let length: usize = stack.len();
    if length < consumed {
        false
    } else {
        let left: usize = length - consumed;
        left >= 16 || produced >= 16 - left
    }
}

/// The element at a given depth of the stack.
pub(crate) fn peek(stack: &Vec<BFieldElement>, depth: usize) -> (r: BFieldElement)
    requires
        depth < stack@.len(),
    ensures
        r == at_depth(stack@, depth as int),
{
    stack[stack.len() - 1 - depth]
}

/// Replaces the `consumed` topmost elements of the stack by `produced`.
pub fn rewrite(stack: &mut Vec<BFieldElement>, consumed: usize, produced: Vec<BFieldElement>) -> (r:
    Result<(), InstructionError>)
    ensures
        match rewritten(old(stack)@, consumed as int, produced@) {
            Ok(next) => r is Ok && final(stack)@ == next,
            Err(error) => r == Err::<(), InstructionError>(error) && final(stack)@ == old(
                stack,
            )@,
        },
{
    if !deep_enough(stack, consumed, produced.len()) {
        return Err(InstructionError::OpStackTooShallow);
    }
    let mut produced = produced;
    let left: usize = stack.len() - consumed;
    stack.truncate(left);
    stack.append(&mut produced);
    Ok(())
}

/// The sponge state that absorbing the ten topmost elements of the stack makes of a state.
pub(crate) fn absorb(stack: &Vec<BFieldElement>, state: &[BFieldElement; 16]) -> (r: [BFieldElement; 16])
    requires
        stack@.len() >= 10,
    ensures
        r@ == absorbing(stack@, state@),
{
    let mut absorbed: [BFieldElement; 16] = *state;
    let mut i: usize = 0;
    while i < 10
        invariant
            i <= 10,
            stack@.len() >= 10,
            forall|k: int| 0 <= k < i ==> absorbed@[k] == at_depth(stack@, k),
            forall|k: int| i <= k < 16 ==> absorbed@[k] == state@[k],
        decreases 10 - i,
    {
        absorbed[i] = peek(stack, i);
        i += 1;
    }
    assert(absorbed@ =~= absorbing(stack@, state@));
    absorbed
}

/// An array that holds one element sixteen times.
pub fn filled(element: BFieldElement) -> (r: [BFieldElement; 16])
    ensures
        r@ == Seq::new(16, |i: int| element),
{
    let state: [BFieldElement; 16] = [element;16];
    assert(state@ =~= Seq::new(16, |i: int| element));
    state
}

/// A vector of no element.
pub fn none_produced() -> (r: Vec<BFieldElement>)
    ensures
        r@ == Seq::<BFieldElement>::empty(),
{
    Vec::new()
}

/// A vector of one element.
pub fn one_produced(element: BFieldElement) -> (r: Vec<BFieldElement>)
    ensures
        r@ == seq![element],
{
    let mut produced: Vec<BFieldElement> = Vec::new();
    produced.push(element);
    assert(produced@ =~= seq![element]);
    produced
}

/// A vector of two elements, the second of which becomes the top of the stack.
pub fn two_produced(lower: BFieldElement, upper: BFieldElement) -> (r: Vec<BFieldElement>)
    ensures
        r@ == seq![lower, upper],
{
    let mut produced: Vec<BFieldElement> = Vec::new();
    produced.push(lower);
    produced.push(upper);
    assert(produced@ =~= seq![lower, upper]);
    produced
}

/// Executes an instruction that moves elements on the stack or tests them: `pop`, `push`,
/// `dup`, `swap`, `nop`, `assert`, `assert_vector`.
pub(crate) fn execute_stack_manipulation(instruction: Instruction, stack: &mut Vec<BFieldElement>) -> (r:
    Result<Option<CoProcessorCall>, InstructionError>)
    requires
        instruction is Pop || instruction is Push || instruction is Dup || instruction is Swap
            || instruction is Nop || instruction is Assert || instruction is AssertVector,
    ensures
        stack_conforms(stack_effect(instruction, old(stack)@), r, final(stack)@),
{
    match instruction {
        Instruction::Pop => {
            match rewrite(stack, 1, none_produced()) {
                Ok(()) => Ok(None),
                Err(error) => Err(error),
            }
        },
        Instruction::Push(element) => {
            match rewrite(stack, 0, one_produced(element)) {
                Ok(()) => Ok(None),
                Err(error) => Err(error),
            }
        },
        Instruction::Dup(register) => {
            let depth: usize = register.index() as usize;
            if stack.len() <= depth {
                return Err(InstructionError::OpStackTooShallow);
            }
            let element = peek(stack, depth);
            match rewrite(stack, 0, one_produced(element)) {
                Ok(()) => Ok(None),
                Err(error) => Err(error),
            }
        },
        Instruction::Swap(register) => {
            if register == Ord16::ST0 {
                return Err(InstructionError::SwapST0);
            }
            let depth: usize = register.index() as usize;
            let length: usize = stack.len();
            if length <= depth {
                return Err(InstructionError::OpStackTooShallow);
            }
            let top = peek(stack, 0);
            let other = peek(stack, depth);
            stack.set(length - 1, other);
            stack.set(length - 1 - depth, top);
            Ok(None)
        },
        Instruction::Nop => Ok(None),
        Instruction::Assert => {
            if !deep_enough(stack, 1, 0) {
                return Err(InstructionError::OpStackTooShallow);
            }
            let top = peek(stack, 0);
            if top.value() != 1 {
                return Err(InstructionError::AssertionFailed(top));
            }
            match rewrite(stack, 1, none_produced()) {
                Ok(()) => Ok(None),
                Err(error) => Err(error),
            }
        },
        _ => {
            if stack.len() < 10 {
                return Err(InstructionError::OpStackTooShallow);
            }
            let mut depth: usize = 0;
            while depth < 5
                invariant
                    depth <= 5,
                    stack@.len() >= 10,
                    stack@ == old(stack)@,
                    instruction is AssertVector,
                    vector_mismatch(stack@, 0) == vector_mismatch(stack@, depth as int),
                decreases 5 - depth,
            {
                let upper = peek(stack, depth);
                let lower = peek(stack, depth + 5);
                if !(upper == lower) {
                    return Err(InstructionError::VectorAssertionFailed(depth));
                }
                depth += 1;
            }
            Ok(None)
        },
    }
}

/// What `hash` puts on the stack, given the permuted state.
pub fn produce_of_hash(permuted: &[BFieldElement; 16]) -> (r: Vec<BFieldElement>)
    ensures
        r@ == hash_produce(permuted@),
{
    let mut produced: Vec<BFieldElement> = Vec::new();
    let mut i: usize = 0;
    while i < 10
        invariant
            i <= 10,
            produced@.len() == i,
            forall|k: int| 0 <= k < i ==> produced@[k] == hash_produce(permuted@)[k],
        decreases 10 - i,
    {
        if i < 5 {
            produced.push(BFieldElement::zero());
        } else {
            produced.push(permuted[9 - i]);
        }
        i += 1;
    }
    assert(produced@ =~= hash_produce(permuted@));
    produced
}

/// What `squeeze` puts on the stack, given the sponge state.
pub fn produce_of_squeeze(state: &[BFieldElement; 16]) -> (r: Vec<BFieldElement>)
    ensures
        r@ == squeeze_produce(state@),
{
    let mut produced: Vec<BFieldElement> = Vec::new();
    let mut i: usize = 0;
    while i < 10
        invariant
            i <= 10,
            produced@.len() == i,
            forall|k: int| 0 <= k < i ==> produced@[k] == state@[9 - k],
        decreases 10 - i,
    {
        produced.push(state[9 - i]);
        i += 1;
    }
    assert(produced@ =~= squeeze_produce(state@));
    produced
}

/// Executes `hash`, given the sponge state that the instruction permutes and the permuted
/// state: the ten topmost elements of the stack give way to the digest.
pub fn finish_hash(
    stack: &mut Vec<BFieldElement>,
    before: [BFieldElement; 16],
    after: [BFieldElement; 16],
) -> (r: Result<Option<CoProcessorCall>, InstructionError>)
    ensures
        match rewritten(old(stack)@, 10, hash_produce(after@)) {
            Ok(next) => r == Ok::<Option<CoProcessorCall>, InstructionError>(
                Some(CoProcessorCall::Permutation(Instruction::Hash, before, after)),
            ) && final(stack)@ == next,
            Err(error) => r matches Err(found) && found == error,
        },
{
    let produced = produce_of_hash(&after);
    match rewrite(stack, 10, produced) {
        Ok(()) => Ok(Some(CoProcessorCall::Permutation(Instruction::Hash, before, after))),
        Err(error) => Err(error),
    }
}

/// Executes `hash`.
pub(crate) fn execute_hash(stack: &mut Vec<BFieldElement>) -> (r: Result<
    Option<CoProcessorCall>,
    InstructionError,
>)
    ensures
        stack_conforms(stack_effect(Instruction::Hash, old(stack)@), r, final(stack)@),
{
    if !deep_enough(stack, 10, 10) {
        return Err(InstructionError::OpStackTooShallow);
    }
    let before = absorb(stack, &filled(BFieldElement::one()));
    let after = permuted(&before);
    finish_hash(stack, before, after)
}

/// Executes an instruction of field arithmetic: `add`, `mul`, `invert`, `eq`.
pub(crate) fn execute_field_arithmetic(instruction: Instruction, stack: &mut Vec<BFieldElement>) -> (r:
    Result<Option<CoProcessorCall>, InstructionError>)
    requires
        instruction is Add || instruction is Mul || instruction is Invert || instruction is Eq,
    ensures
        stack_conforms(stack_effect(instruction, old(stack)@), r, final(stack)@),
{
    if let Instruction::Invert = instruction {
        if !deep_enough(stack, 1, 1) {
            return Err(InstructionError::OpStackTooShallow);
        }
        let top = peek(stack, 0);
        return match top.inverse() {
            None => Err(InstructionError::InverseOfZero),
            Some(inverse) => match rewrite(stack, 1, one_produced(inverse)) {
                Ok(()) => Ok(None),
                Err(error) => Err(error),
            },
        };
    }
    if !deep_enough(stack, 2, 1) {
        return Err(InstructionError::OpStackTooShallow);
    }
    let top = peek(stack, 0);
    let below = peek(stack, 1);
    let result = match instruction {
        Instruction::Add => top.plus(below),
        Instruction::Mul => top.times(below),
        _ => if top == below {
            BFieldElement::one()
        } else {
            BFieldElement::zero()
        },
    };
    match rewrite(stack, 2, one_produced(result)) {
        Ok(()) => Ok(None),
        Err(error) => Err(error),
    }
}

/// Executes an instruction on one 32-bit word: `split`, `log_2_floor`, `pop_count`.
pub(crate) fn execute_word_unary(instruction: Instruction, stack: &mut Vec<BFieldElement>) -> (r: Result<
    Option<CoProcessorCall>,
    InstructionError,
>)
    requires
        instruction is Split || instruction is Log2Floor || instruction is PopCount,
    ensures
        stack_conforms(stack_effect(instruction, old(stack)@), r, final(stack)@),
{
    if let Instruction::Split = instruction {
        if !deep_enough(stack, 1, 2) {
            return Err(InstructionError::OpStackTooShallow);
        }
        let top = peek(stack, 0);
        let high = BFieldElement { value: top.value() / 0x1_0000_0000 };
        let low = BFieldElement { value: top.value() % 0x1_0000_0000 };
        return match rewrite(stack, 1, two_produced(high, low)) {
            Ok(()) => Ok(Some(CoProcessorCall::U32(instruction, low, high))),
            Err(error) => Err(error),
        };
    }
    if !deep_enough(stack, 1, 1) {
        return Err(InstructionError::OpStackTooShallow);
    }
    let top = peek(stack, 0);
    if top.value() > 0xffff_ffff {
        return Err(InstructionError::FailedU32Conversion(top));
    }
    let word: u32 = top.value() as u32;
    let result: u32 = if let Instruction::Log2Floor = instruction {
        if word == 0 {
            return Err(InstructionError::LogarithmOfZero);
        }
        word_log_2_floor(word)
    } else {
        word_bit_count(word)
    };
    match rewrite(stack, 1, one_produced(BFieldElement { value: result as u64 })) {
        Ok(()) => Ok(Some(CoProcessorCall::U32(instruction, top, BFieldElement::zero()))),
        Err(error) => Err(error),
    }
}

/// Executes an instruction on two operands of which at least one is a 32-bit word: `lt`,
/// `and`, `xor`, `pow`, `div`.
pub(crate) fn execute_word_binary(instruction: Instruction, stack: &mut Vec<BFieldElement>) -> (r: Result<
    Option<CoProcessorCall>,
    InstructionError,
>)
    requires
        instruction is Lt || instruction is And || instruction is Xor || instruction is Pow
            || instruction is Div,
    ensures
        stack_conforms(stack_effect(instruction, old(stack)@), r, final(stack)@),
{
    let produced_count: usize = if let Instruction::Div = instruction {
        2
    } else {
        1
    };
    if !deep_enough(stack, 2, produced_count) {
        return Err(InstructionError::OpStackTooShallow);
    }
    let top = peek(stack, 0);
    let below = peek(stack, 1);
    if let Instruction::Pow = instruction {
        if below.value() > 0xffff_ffff {
            return Err(InstructionError::FailedU32Conversion(below));
        }
        let power = top.power(below.value() as u32);
        return match rewrite(stack, 2, one_produced(power)) {
            Ok(()) => Ok(Some(CoProcessorCall::U32(instruction, top, below))),
            Err(error) => Err(error),
        };
    }
    if top.value() > 0xffff_ffff {
        return Err(InstructionError::FailedU32Conversion(top));
    }
    if below.value() > 0xffff_ffff {
        return Err(InstructionError::FailedU32Conversion(below));
    }
    let left: u32 = top.value() as u32;
    let right: u32 = below.value() as u32;
    let produced: Vec<BFieldElement> = match instruction {
        Instruction::Div => {
            if right == 0 {
                return Err(InstructionError::DivisionByZero);
            }
            two_produced(
                BFieldElement { value: top.value() % below.value() },
                BFieldElement { value: top.value() / below.value() },
            )
        },
        Instruction::Lt => one_produced(
            if left < right {
                BFieldElement::one()
            } else {
                BFieldElement::zero()
            },
        ),
        Instruction::And => one_produced(BFieldElement { value: (left & right) as u64 }),
        _ => one_produced(BFieldElement { value: (left ^ right) as u64 }),
    };
    match rewrite(stack, 2, produced) {
        Ok(()) => Ok(Some(CoProcessorCall::U32(instruction, top, below))),
        Err(error) => Err(error),
    }
}

/// Executes an instruction that works on the operational stack alone.
pub(crate) fn execute_on_stack(instruction: Instruction, stack: &mut Vec<BFieldElement>) -> (r: Result<
    Option<CoProcessorCall>,
    InstructionError,
>)
    requires
        works_on_stack_alone(instruction),
    ensures
        stack_conforms(stack_effect(instruction, old(stack)@), r, final(stack)@),
{
    match instruction {
        Instruction::Hash => execute_hash(stack),
        Instruction::Add | Instruction::Mul | Instruction::Invert | Instruction::Eq => {
            execute_field_arithmetic(instruction, stack)
        },
        Instruction::Split | Instruction::Log2Floor | Instruction::PopCount => {
            execute_word_unary(instruction, stack)
        },
        Instruction::Lt
        | Instruction::And
        | Instruction::Xor
        | Instruction::Pow
        | Instruction::Div => execute_word_binary(instruction, stack),
        _ => execute_stack_manipulation(instruction, stack),
    }
}

impl<'pgm> Clone for VMState<'pgm> {
    fn clone(&self) -> (r: Self)
        ensures
            r@ == self@,
    {
        VMState {
            program: self.program,
            public_input: copied_queue(&self.public_input),
            secret_input: copied_queue(&self.secret_input),
            public_output: copied(&self.public_output),
            ram: self.ram.clone(),
            op_stack: copied(&self.op_stack),
            jump_stack: copied(&self.jump_stack),
            cycle_count: self.cycle_count,
            instruction_pointer: self.instruction_pointer,
            sponge_state: self.sponge_state,
            halting: self.halting,
        }
    }
}

impl<'pgm> VMState<'pgm> {
    /// The state in which a program starts: sixteen registers holding zero, nothing read,
    /// nothing written.
    pub fn new(
        program: &'pgm Program,
        public_input: Vec<BFieldElement>,
        secret_input: Vec<BFieldElement>,
    ) -> (r: Self)
        ensures
            r@ == initial_state(program@, public_input@, secret_input@),
    {
        let mut op_stack: Vec<BFieldElement> = Vec::new();
        let mut i: usize = 0;
        while i < 16
            invariant
                i <= 16,
                op_stack@.len() == i,
                forall|k: int| 0 <= k < i ==> op_stack@[k] == (BFieldElement { value: 0 }),
            decreases 16 - i,
        {
            op_stack.push(BFieldElement::zero());
            i += 1;
        }
        let state = VMState {
            program: program.instructions.as_slice(),
            public_input: queue_of(&public_input),
            secret_input: queue_of(&secret_input),
            public_output: Vec::new(),
            ram: HashMap::new(),
            op_stack,
            jump_stack: Vec::new(),
            cycle_count: 0,
            instruction_pointer: 0,
            sponge_state: filled(BFieldElement::zero()),
            halting: false,
        };
        assert(state@ =~= initial_state(program@, public_input@, secret_input@));
        state
    }

    /// Executes `divine`, `read_io` or `write_io`.
    pub(crate) fn execute_input_output(&mut self, instruction: Instruction) -> (r: Result<
        Option<CoProcessorCall>,
        InstructionError,
    >)
        requires
            instruction is Divine || instruction is ReadIo || instruction is WriteIo,
        ensures
            conforms(effect(old(self)@, instruction), r, final(self)@),
    {
        let next: usize = saturating_address(self.instruction_pointer, instruction.size());
        match instruction {
            Instruction::Divine => {
                if self.secret_input.len() == 0 {
                    return Err(InstructionError::EmptySecretInput);
                }
                let element = self.secret_input[0];
                match rewrite(&mut self.op_stack, 0, one_produced(element)) {
                    Ok(()) => {},
                    Err(error) => {
                        return Err(error);
                    },
                }
                let _ = self.secret_input.pop_front();
                assert(self.secret_input@ =~= old(self).secret_input@.skip(1));
            },
            Instruction::ReadIo => {
                if self.public_input.len() == 0 {
                    return Err(InstructionError::EmptyPublicInput);
                }
                let element = self.public_input[0];
                match rewrite(&mut self.op_stack, 0, one_produced(element)) {
                    Ok(()) => {},
                    Err(error) => {
                        return Err(error);
                    },
                }
                let _ = self.public_input.pop_front();
                assert(self.public_input@ =~= old(self).public_input@.skip(1));
            },
            _ => {
                if !deep_enough(&self.op_stack, 1, 0) {
                    return Err(InstructionError::OpStackTooShallow);
                }
                let top = peek(&self.op_stack, 0);
                match rewrite(&mut self.op_stack, 1, none_produced()) {
                    Ok(()) => {},
                    Err(error) => {
                        return Err(error);
                    },
                }
                self.public_output.push(top);
            },
        }
        self.instruction_pointer = next;
        Ok(None)
    }

    /// Executes `skiz`, `call`, `return`, `recurse` or `halt`.
    pub(crate) fn execute_control_flow(&mut self, instruction: Instruction) -> (r: Result<
        Option<CoProcessorCall>,
        InstructionError,
    >)
        requires
            instruction is Skiz || instruction is Call || instruction is Return
                || instruction is Recurse || instruction is Halt,
        ensures
            conforms(effect(old(self)@, instruction), r, final(self)@),
    {
        let pointer: usize = self.instruction_pointer;
        let next: usize = saturating_address(pointer, instruction.size());
        match instruction {
            Instruction::Skiz => {
                if !deep_enough(&self.op_stack, 1, 0) {
                    return Err(InstructionError::OpStackTooShallow);
                }
                let top = peek(&self.op_stack, 0);
                let skipped: usize = saturating_address(pointer, 1);
                let target: usize = if !top.is_zero() {
                    next
                } else if skipped >= self.program.len() {
                    return Err(InstructionError::InstructionPointerOverflow(skipped));
                } else {
                    saturating_address(skipped, self.program[skipped].size())
                };
                match rewrite(&mut self.op_stack, 1, none_produced()) {
                    Ok(()) => {},
                    Err(error) => {
                        return Err(error);
                    },
                }
                self.instruction_pointer = target;
            },
            Instruction::Call(address) => {
                let target: usize = address_of(address);
                self.jump_stack.push((next, target));
                self.instruction_pointer = target;
            },
            Instruction::Return => {
                match self.jump_stack.pop() {
                    None => {
                        return Err(InstructionError::JumpStackIsEmpty);
                    },
                    Some(entry) => {
                        self.instruction_pointer = entry.0;
                    },
                }
            },
            Instruction::Recurse => {
                let length: usize = self.jump_stack.len();
                if length == 0 {
                    return Err(InstructionError::JumpStackIsEmpty);
                }
                self.instruction_pointer = self.jump_stack[length - 1].1;
            },
            _ => {
                self.halting = true;
                self.instruction_pointer = next;
            },
        }
        Ok(None)
    }

    /// Executes `read_mem` or `write_mem`.
    pub(crate) fn execute_memory(&mut self, instruction: Instruction) -> (r: Result<
        Option<CoProcessorCall>,
        InstructionError,
    >)
        requires
            instruction is ReadMem || instruction is WriteMem,
        ensures
            conforms(effect(old(self)@, instruction), r, final(self)@),
    {
        let next: usize = saturating_address(self.instruction_pointer, instruction.size());
        if let Instruction::ReadMem = instruction {
            if self.op_stack.len() < 1 {
                return Err(InstructionError::OpStackTooShallow);
            }
            let address = peek(&self.op_stack, 0);
            let key: u64 = address.value();
            let found = match self.ram.get(&key) {
                Some(element) => *element,
                None => BFieldElement::zero(),
            };
            match rewrite(&mut self.op_stack, 0, one_produced(found)) {
                Ok(()) => {},
                Err(error) => {
                    return Err(error);
                },
            }
            self.instruction_pointer = next;
            Ok(Some(CoProcessorCall::Ram(address, found, false)))
        } else {
            if self.op_stack.len() < 2 {
                return Err(InstructionError::OpStackTooShallow);
            }
            let element = peek(&self.op_stack, 0);
            let address = peek(&self.op_stack, 1);
            match rewrite(&mut self.op_stack, 1, none_produced()) {
                Ok(()) => {},
                Err(error) => {
                    return Err(error);
                },
            }
            let _ = self.ram.insert(address.value(), element);
            self.instruction_pointer = next;
            Ok(Some(CoProcessorCall::Ram(address, element, true)))
        }
    }

    /// Executes `absorb_init`, `absorb` or `squeeze`, given the sponge state that the
    /// instruction permutes and the permuted state: the permuted state becomes the state of
    /// the sponge, and `squeeze` first puts the state it permutes on the stack.
    pub fn finish_sponge(
        &mut self,
        instruction: Instruction,
        before: [BFieldElement; 16],
        after: [BFieldElement; 16],
    ) -> (r: Result<Option<CoProcessorCall>, InstructionError>)
        ensures
            match (if instruction is Squeeze {
                rewritten(old(self)@.op_stack, 10, squeeze_produce(before@))
            } else {
                Ok(old(self)@.op_stack)
            }) {
                Ok(op_stack) => r == Ok::<Option<CoProcessorCall>, InstructionError>(
                    Some(CoProcessorCall::Permutation(instruction, before, after)),
                ) && final(self)@ == (MachineState {
                    op_stack,
                    sponge_state: after@,
                    instruction_pointer: saturated(
                        old(self).instruction_pointer + instruction.spec_size(),
                    ),
                    ..old(self)@
                }),
                Err(error) => r matches Err(found) && found == error,
            },
    {
        let next: usize = saturating_address(self.instruction_pointer, instruction.size());
        if let Instruction::Squeeze = instruction {
            match rewrite(&mut self.op_stack, 10, produce_of_squeeze(&before)) {
                Ok(()) => {},
                Err(error) => {
                    return Err(error);
                },
            }
        }
        self.sponge_state = after;
        self.instruction_pointer = next;
        Ok(Some(CoProcessorCall::Permutation(instruction, before, after)))
    }

    /// Executes `absorb_init`, `absorb` or `squeeze`.
    pub(crate) fn execute_sponge(&mut self, instruction: Instruction) -> (r: Result<
        Option<CoProcessorCall>,
        InstructionError,
    >)
        requires
            instruction is AbsorbInit || instruction is Absorb || instruction is Squeeze,
        ensures
            conforms(effect(old(self)@, instruction), r, final(self)@),
    {
        let before = match instruction {
            Instruction::Squeeze => {
                if !deep_enough(&self.op_stack, 10, 10) {
                    return Err(InstructionError::OpStackTooShallow);
                }
                self.sponge_state
            },
            _ => {
                if self.op_stack.len() < 10 {
                    return Err(InstructionError::OpStackTooShallow);
                }
                if let Instruction::Absorb = instruction {
                    absorb(&self.op_stack, &self.sponge_state)
                } else {
                    absorb(&self.op_stack, &filled(BFieldElement::zero()))
                }
            },
        };
        let after = permuted(&before);
        self.finish_sponge(instruction, before, after)
    }

    /// Executes an instruction, whatever the instruction pointer holds, and leaves the count
    /// of cycles as it is.
    pub fn execute(&mut self, instruction: Instruction) -> (r: Result<
        Option<CoProcessorCall>,
        InstructionError,
    >)
        ensures
            conforms(effect(old(self)@, instruction), r, final(self)@),
    {
        match instruction {
            Instruction::Divine | Instruction::ReadIo | Instruction::WriteIo => {
                self.execute_input_output(instruction)
            },
            Instruction::Skiz
            | Instruction::Call(_)
            | Instruction::Return
            | Instruction::Recurse
            | Instruction::Halt => self.execute_control_flow(instruction),
            Instruction::ReadMem | Instruction::WriteMem => self.execute_memory(instruction),
            Instruction::AbsorbInit | Instruction::Absorb | Instruction::Squeeze => {
                self.execute_sponge(instruction)
            },
            _ => {
                let next: usize = saturating_address(self.instruction_pointer, instruction.size());
                match execute_on_stack(instruction, &mut self.op_stack) {
                    Ok(call) => {
                        self.instruction_pointer = next;
                        Ok(call)
                    },
                    Err(error) => Err(error),
                }
            },
        }
    }

    /// One step of the machine: executes the instruction at the instruction pointer and counts
    /// one cycle. Where the step fails, the state is left as far as the instruction got.
    pub fn step(&mut self) -> (r: Result<Option<CoProcessorCall>, InstructionError>)
        ensures
            conforms(vm_step(old(self)@), r, final(self)@),
    {
        let pointer: usize = self.instruction_pointer;
        if pointer >= self.program.len() {
            return Err(InstructionError::InstructionPointerOverflow(pointer));
        }
        if self.cycle_count == u32::MAX {
            return Err(InstructionError::CycleCountOverflow);
        }
        let instruction = self.program[pointer];
        match self.execute(instruction) {
            Ok(call) => {
                self.cycle_count = self.cycle_count + 1;
                Ok(call)
            },
            Err(error) => Err(error),
        }
    }
}

} // verus!
