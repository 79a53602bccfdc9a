//! The program: instructions laid out so that a slot's index is its address.

use crate::aet::AlgebraicExecutionTrace;
use crate::aet::fresh_trace;
use crate::codec::all_encodable;
use crate::codec::decoding;
use crate::codec::encoding;
use crate::codec::lemma_decode_inverts_encode;
use crate::codec::lemma_decoded_slots_well_formed;
use crate::codec::logical_instructions;
use crate::codec::opcode_instruction;
use crate::codec::parse_words;
use crate::codec::prefix_then;
use crate::codec::rest_after_first;
use crate::codec::slots_well_formed;
use crate::codec::wire_words;
use crate::error::InstructionError;
use crate::error::ParseError;
use crate::error::ProgramDecodingError;
use crate::execution::cycle_limit;
use crate::execution::run_outcome;
use crate::execution::snapshots;
use crate::execution::terminal_state;
use crate::execution::traced;
use crate::field::BFieldElement;
use crate::field::P;
use crate::hashing::AlgebraicHasher;
use crate::hashing::Digest;
use crate::instruction::Instruction;
use crate::instruction::instruction_text;
use crate::label::LabelledInstruction;
use crate::label::calls_resolve;
use crate::label::convert_labels;
use crate::label::expand;
use crate::label::expanded;
use crate::label::item_views;
use crate::label::lemma_expanded_well_formed;
use crate::label::resolved_instructions;
use crate::machine::MachineState;
use crate::machine::lemma_step_counts;
use crate::parser::lemma_parsed_items_encodable;
use crate::parser::lemma_resolved_encodable;
use crate::parser::parse;
use crate::parser::parsed_program;
use crate::parser::tokens;
use crate::vm::VMState;
use vstd::prelude::*;

verus! {

/// A program is a list of slots. An instruction with an argument fills two consecutive slots,
/// both holding the instruction, so that the index of a slot is the value of the instruction
/// pointer that addresses it. The copies are skipped when a program is walked, printed or
/// encoded.
#[derive(Debug)]
pub struct Program {
    pub instructions: Vec<Instruction>,
}

impl View for Program {
    type V = Seq<Instruction>;

    open spec fn view(&self) -> Seq<Instruction> {
        self.instructions@
    }
}

impl Clone for Program {
    fn clone(&self) -> (r: Self)
        ensures
            r@ == self@,
    {
        let mut instructions: Vec<Instruction> = Vec::new();
        let mut i: usize = 0;
        while i < self.instructions.len()
            invariant
                i <= self.instructions.len(),
                instructions@ == self.instructions@.take(i as int),
            decreases self.instructions.len() - i,
        {
            instructions.push(self.instructions[i]);
            assert(self.instructions@.take(i + 1) =~= self.instructions@.take(i as int).push(
                self.instructions@[i as int],
            ));
            i += 1;
        }
        assert(self.instructions@.take(i as int) =~= self.instructions@);
        Program { instructions }
    }
}

impl PartialEq for Program {
    fn eq(&self, other: &Self) -> (r: bool) {
        if self.instructions.len() != other.instructions.len() {
            return false;
        }
        let mut i: usize = 0;
        while i < self.instructions.len()
            invariant
                i <= self.instructions.len(),
                self.instructions.len() == other.instructions.len(),
                forall|k: int| 0 <= k < i ==> self.instructions@[k] == other.instructions@[k],
            decreases self.instructions.len() - i,
        {
            if self.instructions[i] != other.instructions[i] {
                return false;
            }
            i += 1;
        }
        assert(self.instructions@ =~= other.instructions@);
        true
    }
}

impl Eq for Program {

}

impl vstd::std_specs::cmp::PartialEqSpecImpl for Program {
    open spec fn obeys_eq_spec() -> bool {
        true
    }

    open spec fn eq_spec(&self, other: &Self) -> bool {
        self@ == other@
    }
}

impl Default for Program {
    fn default() -> (r: Self)
        ensures
            r@ == Seq::<Instruction>::empty(),
    {
        Program { instructions: Vec::new() }
    }
}

/// Walks the instructions of a program, each once, skipping the copies.
#[derive(Debug)]
pub struct InstructionIter {
    instructions: Vec<Instruction>,
    position: usize,
}

impl InstructionIter {
    /// The instructions that are still to come.
    pub closed spec fn remaining(&self) -> Seq<Instruction> {
        if self.position >= self.instructions@.len() {
            Seq::empty()
        } else {
            logical_instructions(self.instructions@.skip(self.position as int))
        }
    }

    /// The next instruction, if any is left, and a step past its slots.
    pub fn next(&mut self) -> (r: Option<Instruction>)
        ensures
            match r {
                Some(instruction) => old(self).remaining() == seq![instruction]
                    + final(self).remaining(),
                None => old(self).remaining().len() == 0 && final(self).remaining().len() == 0,
            },
    {
        let length: usize = self.instructions.len();
        if self.position >= length {
            return None;
        }
        let instruction = self.instructions[self.position];
        let ghost slots = self.instructions@.skip(self.position as int);
        assert(slots[0] == instruction);
        if instruction.size() >= length - self.position {
            self.position = length;
            assert(logical_instructions(rest_after_first(slots)) =~= Seq::<Instruction>::empty());
        } else {
            self.position = self.position + instruction.size();
            assert(rest_after_first(slots) =~= self.instructions@.skip(self.position as int));
        }
        Some(instruction)
    }
}

impl Program {
    /// Whether the slots are whole instructions, each with an argument that its encoding can
    /// carry.
    pub open spec fn well_formed(&self) -> bool {
        slots_well_formed(self@) && all_encodable(self@)
    }

    /// Walks the program's instructions, each once.
    pub fn into_iter(self) -> (r: InstructionIter)
        ensures
            r.remaining() == logical_instructions(self@),
    {
        let ghost slots = self.instructions@;
        assert(slots.skip(0) =~= slots);
        InstructionIter { instructions: self.instructions, position: 0 }
    }

    /// The program's wire form: for each instruction its opcode and, where it has one, its
    /// argument. The copies that fill the second slots are left out.
    pub fn to_bwords(&self) -> (r: Vec<BFieldElement>)
        ensures
            r@ == wire_words(self@),
    {
        let length: usize = self.instructions.len();
        let mut words: Vec<BFieldElement> = Vec::new();
        let mut position: usize = 0;
        assert(self@.skip(0) =~= self@);
        while position < length
            invariant
                length == self.instructions@.len(),
                position <= length,
                wire_words(self@) == words@ + (if position >= length {
                    Seq::<BFieldElement>::empty()
                } else {
                    wire_words(self@.skip(position as int))
                }),
            decreases length - position,
        {
            let instruction = self.instructions[position];
            let ghost slots = self@.skip(position as int);
            let ghost before = words@;
            proof {
                crate::codec::lemma_wire_words_unfold(slots);
            }
            words.push(instruction.opcode_b());
            match instruction.arg() {
                Some(argument) => {
                    words.push(argument);
                },
                None => {},
            }
            assert(words@ =~= before + crate::codec::instruction_words(instruction));
            if instruction.size() >= length - position {
                position = length;
            } else {
                position = position + instruction.size();
                assert(rest_after_first(slots) =~= self@.skip(position as int));
            }
            assert(wire_words(self@) =~= words@ + (if position >= length {
                Seq::<BFieldElement>::empty()
            } else {
                wire_words(self@.skip(position as int))
            }));
        }
        assert(words@ + Seq::<BFieldElement>::empty() =~= words@);
        words
    }

    /// The number of the program's slots. For a program of whole instructions this is the
    /// number of words of its wire form.
    pub fn len_bwords(&self) -> (r: usize)
        ensures
            r == self@.len(),
    {
        self.instructions.len()
    }

    pub fn is_empty(&self) -> (r: bool)
        ensures
            r == (self@.len() == 0),
    {
        self.instructions.len() == 0
    }

    /// The number of words of an encoding, where every program's encoding has the same: there
    /// is no such number.
    pub fn static_length() -> (r: Option<usize>)
        ensures
            r is None,
    {
        None
    }

    /// The program's encoding: the number of its slots, then its wire form.
    pub fn encode(&self) -> (r: Vec<BFieldElement>)
        ensures
            r@ == encoding(self@),
    {
        let mut sequence: Vec<BFieldElement> = Vec::new();
        sequence.push(BFieldElement::new(self.len_bwords() as u64));
        let mut words = self.to_bwords();
        sequence.append(&mut words);
        assert(sequence@ =~= encoding(self@));
        sequence
    }

    /// The program that a sequence encodes. The sequence must hold a length and then exactly
    /// that many words; the words are read from left to right as opcodes and arguments, and
    /// the first fault found is reported.
    pub fn decode(sequence: &[BFieldElement]) -> (r: Result<Box<Program>, ProgramDecodingError>)
        ensures
            match decoding(sequence@) {
                Ok(slots) => r matches Ok(program) && program@ == slots && program.well_formed(),
                Err(error) => r matches Err(found) && found == error,
            },
    {
        if sequence.len() == 0 {
            return Err(ProgramDecodingError::EmptySequence);
        }
        let declared: u64 = sequence[0].value();
        let length: usize = sequence.len() - 1;
        if length as u64 != declared {
            return Err(ProgramDecodingError::LengthMismatch(declared, length));
        }
        let ghost body = sequence@.skip(1);
        let mut index: usize = 0;
        let mut instructions: Vec<Instruction> = Vec::new();
        assert(body.skip(0) =~= body);
        assert(instructions@ + parse_words(body, 0)->Ok_0 =~= parse_words(body, 0)->Ok_0);
        while index < length
            invariant
                length == sequence@.len() - 1,
                body == sequence@.skip(1),
                index <= length,
                decoding(sequence@) == parse_words(body, 0),
                parse_words(body, 0) == prefix_then(
                    instructions@,
                    parse_words(body.skip(index as int), index as int),
                ),
            decreases length - index,
        {
            let ghost words = body.skip(index as int);
            let ghost before = instructions@;
            assert(words[0] == sequence@[index + 1]);
            let word: u64 = sequence[index + 1].value();
            if word > 0xffff_ffff {
                return Err(ProgramDecodingError::InvalidOpcode(word, index));
            }
            let instruction = match Instruction::from_opcode(word as u32) {
                Some(instruction) => instruction,
                None => {
                    return Err(ProgramDecodingError::InvalidOpcode(word, index));
                },
            };
            assert(opcode_instruction(word) == Some(instruction));
            if !instruction.has_arg() {
                instructions.push(instruction);
                assert(words.skip(1) =~= body.skip(index + 1));
                proof {
                    lemma_prefix_then_joins(
                        before,
                        seq![instruction],
                        parse_words(words.skip(1), index + 1),
                    );
                }
                assert(before + seq![instruction] =~= instructions@);
                index = index + 1;
            } else if index + 1 >= length {
                return Err(ProgramDecodingError::MissingArgument(instruction, index));
            } else {
                assert(words[1] == sequence@[index + 2]);
                match instruction.change_arg(sequence[index + 2]) {
                    Some(changed) => {
                        instructions.push(changed);
                        instructions.push(changed);
                        assert(words.skip(2) =~= body.skip(index + 2));
                        proof {
                            lemma_prefix_then_joins(
                                before,
                                seq![changed, changed],
                                parse_words(words.skip(2), index + 2),
                            );
                        }
                        assert(before + seq![changed, changed] =~= instructions@);
                        index = index + 2;
                    },
                    None => {
                        return Err(ProgramDecodingError::InvalidArgument(instruction, index));
                    },
                }
            }
        }
        proof {
            lemma_decoded_slots_well_formed(sequence@);
            assert(body.skip(index as int).len() == 0);
            assert(instructions@ + Seq::<Instruction>::empty() =~= instructions@);
        }
        Ok(Box::new(Program { instructions }))
    }
}

/// A program as it is written: its instructions, each once and each on a line of its own.
pub open spec fn listing(instructions: Seq<Instruction>) -> Seq<char>
    decreases instructions.len(),
{
    if instructions.len() == 0 {
        Seq::empty()
    } else {
        instruction_text(instructions[0]) + seq!['\n'] + listing(instructions.skip(1))
    }
}

impl Program {
    /// The program that the items stand for: each call of a label becomes a call of the
    /// address that the label names, and each instruction fills one slot, or two where it has
    /// an argument. Every call must name a label that is there.
    pub fn new(input: &[LabelledInstruction]) -> (r: Self)
        requires
            calls_resolve(item_views(input@)),
        ensures
            r@ == expanded(resolved_instructions(item_views(input@))),
            slots_well_formed(r@),
            logical_instructions(r@) == resolved_instructions(item_views(input@)),
            all_encodable(resolved_instructions(item_views(input@))) ==> r.well_formed(),
    {
        let instructions = convert_labels(input);
        proof {
            lemma_expanded_well_formed(instructions@);
        }
        Program { instructions: expand(&instructions) }
    }

    /// The program that a text stands for, or why the text stands for none.
    pub fn from_code(code: &str) -> (r: Result<Program, ParseError>)
        ensures
            match parsed_program(code@) {
                Ok(items) => r matches Ok(program) && program@ == expanded(
                    resolved_instructions(items),
                ) && program.well_formed(),
                Err(error) => r matches Err(found) && found == error,
            },
    {
        match parse(code) {
            Ok(items) => {
                proof {
                    lemma_resolved_encodable(item_views(items@), 0);
                }
                Ok(Program::new(items.as_slice()))
            },
            Err(error) => Err(error),
        }
    }

    /// The program as it is written: its instructions, each once and each on a line of its
    /// own. An instruction's argument is written with the instruction, and not again for the
    /// slot that holds the instruction's copy.
    pub fn to_string(&self) -> (r: String)
        ensures
            r@ == listing(logical_instructions(self@)),
    {
        let length: usize = self.instructions.len();
        let mut text = String::new();
        let mut position: usize = 0;
        assert(self@.skip(0) =~= self@);
        assert(text@ + listing(logical_instructions(self@)) =~= listing(
            logical_instructions(self@),
        ));
        while position < length
            invariant
                length == self.instructions@.len(),
                position <= length,
                listing(logical_instructions(self@)) == text@ + (if position >= length {
                    Seq::<char>::empty()
                } else {
                    listing(logical_instructions(self@.skip(position as int)))
                }),
            decreases length - position,
        {
            let instruction = self.instructions[position];
            let ghost slots = self@.skip(position as int);
            let ghost before = text@;
            let ghost rest = logical_instructions(rest_after_first(slots));
            assert(logical_instructions(slots).skip(1) =~= rest);
            instruction.append_to(&mut text);
            proof {
                reveal_strlit("\n");
            }
            text.append("\n");
            if instruction.size() >= length - position {
                position = length;
                assert(listing(rest) =~= Seq::<char>::empty());
            } else {
                position = position + instruction.size();
                assert(rest_after_first(slots) =~= self@.skip(position as int));
            }
            assert(before + (instruction_text(instruction) + seq!['\n'] + listing(rest))
                =~= text@ + listing(rest));
        }
        assert(text@ + Seq::<char>::empty() =~= text@);
        text
    }
}

/// A program read from text survives encoding: its slots are whole instructions whose
/// arguments their encoding can carry, and decoding its encoding gives the program back,
/// provided that the number of its slots is a canonical field element.
pub proof fn lemma_program_of_text_survives_encoding(text: Seq<char>)
    ensures
        parsed_program(text) matches Ok(items) ==> ({
            let slots = expanded(resolved_instructions(items));
            &&& slots_well_formed(slots)
            &&& all_encodable(slots)
            &&& slots.len() < P ==> decoding(encoding(slots)) == Ok::<
                Seq<Instruction>,
                ProgramDecodingError,
            >(slots)
        }),
{
    if let Ok(items) = parsed_program(text) {
        let slots = expanded(resolved_instructions(items));
        lemma_parsed_items_encodable(tokens(text), 0);
        lemma_resolved_encodable(items, 0);
        lemma_expanded_well_formed(resolved_instructions(items));
        if slots.len() < P {
            lemma_decode_inverts_encode(slots);
        }
    }
}

/// The state from which debugging starts: the given state, or else the state in which the
/// program starts on the given input.
pub open spec fn debug_start(
    program: Seq<Instruction>,
    public_input: Seq<BFieldElement>,
    secret_input: Seq<BFieldElement>,
    given: Option<VMState>,
) -> MachineState {
    match given {
        Some(state) => state@,
        None => crate::machine::initial_state(program, public_input, secret_input),
    }
}

/// The count of cycles at which debugging stops.
pub fn limit_of_cycles(state: &VMState, num_cycles: Option<u32>) -> (r: u32)
    ensures
        r == cycle_limit(state@, num_cycles),
{
    match num_cycles {
        Some(number) => if number > u32::MAX - state.cycle_count {
            u32::MAX
        } else {
            state.cycle_count + number
        },
        None => u32::MAX,
    }
}

impl Program {
    /// The digest of the program's wire form under a given hasher.
    pub fn hash<H: AlgebraicHasher>(&self) -> (r: Digest)
        ensures
            r@ == H::digest_of(wire_words(self@)),
    {
        let words = self.to_bwords();
        H::hash_varlen(words.as_slice())
    }

    /// Runs the program on the given input until the machine halts, and returns what the
    /// program has written. The first step that fails ends the run with its fault.
    #[verifier::loop_isolation(false)]
    pub fn run(&self, public_input: Vec<BFieldElement>, secret_input: Vec<BFieldElement>) -> (r:
        Result<Vec<BFieldElement>, InstructionError>)
        ensures
            match run_outcome(
                crate::machine::initial_state(self@, public_input@, secret_input@),
            ) {
                Ok(last) => r matches Ok(output) && output@ == last.public_output,
                Err(error) => r matches Err(found) && found == error,
            },
    {
        let mut state = VMState::new(self, public_input, secret_input);
        let ghost start = state@;
        while !state.halting
            invariant
                run_outcome(start) == run_outcome(state@),
            decreases u32::MAX - state.cycle_count,
        {
            let ghost before = state@;
            proof {
                lemma_step_counts(before);
            }
            match state.step() {
                Ok(_) => {},
                Err(error) => {
                    return Err(error);
                },
            }
        }
        Ok(state.public_output)
    }

    /// Runs the program as [`run`](Self::run) does, and records the execution: before each
    /// step the instruction about to be executed is counted, after it what the instruction
    /// handed to a co-processor is appended. The first fault ends the execution, and nothing
    /// of the trace is returned.
    #[verifier::loop_isolation(false)]
    pub fn trace_execution(
        &self,
        public_input: Vec<BFieldElement>,
        secret_input: Vec<BFieldElement>,
    ) -> (r: Result<(AlgebraicExecutionTrace, Vec<BFieldElement>), InstructionError>)
        ensures
            match traced(
                crate::machine::initial_state(self@, public_input@, secret_input@),
                fresh_trace(self@),
            ) {
                Ok((trace, last)) => r matches Ok(found) && found.0@ == trace && found.1@
                    == last.public_output && found.0.well_formed(),
                Err(error) => r matches Err(found) && found == error,
            },
    {
        let mut aet = AlgebraicExecutionTrace::new(self.clone());
        let mut state = VMState::new(self, public_input, secret_input);
        let ghost start = state@;
        let ghost fresh = aet@;
        while !state.halting
            invariant
                traced(start, fresh) == traced(state@, aet@),
                aet.well_formed(),
            decreases u32::MAX - state.cycle_count,
        {
            let ghost before = state@;
            let ghost trace_before = aet@;
            proof {
                lemma_step_counts(before);
            }
            match aet.record_state(&state) {
                Ok(()) => {},
                Err(error) => {
                    return Err(error);
                },
            }
            match state.step() {
                Ok(Some(call)) => {
                    aet.record_co_processor_call(call);
                },
                Ok(None) => {},
                Err(error) => {
                    return Err(error);
                },
            }
        }
        Ok((aet, state.public_output))
    }

    /// Runs the program and lists every state: each state before a step, and last the state
    /// in which the machine halts or reaches the limit of cycles. Where a step fails, the list
    /// ends with the state before that step, and the fault comes with it.
    ///
    /// Debugging starts from `initial_state` where one is given; the program and the input
    /// given here are then ignored. It executes at most `num_cycles_to_execute` cycles, or as
    /// many as the count of cycles can hold where none is given.
    #[verifier::loop_isolation(false)]
    pub fn debug<'pgm>(
        &'pgm self,
        public_input: Vec<BFieldElement>,
        secret_input: Vec<BFieldElement>,
        initial_state: Option<VMState<'pgm>>,
        num_cycles_to_execute: Option<u32>,
    ) -> (r: (Vec<VMState<'pgm>>, Option<InstructionError>))
        ensures
            ({
                let start = debug_start(self@, public_input@, secret_input@, initial_state);
                let all = snapshots(start, cycle_limit(start, num_cycles_to_execute));
                &&& r.1 == all.1
                &&& r.0@.len() == all.0.len()
                &&& forall|i: int| 0 <= i < all.0.len() ==> (#[trigger] r.0@[i])@ == all.0[i]
            }),
    {
        let mut states: Vec<VMState<'pgm>> = Vec::new();
        let mut state = match initial_state {
            Some(given) => given,
            None => VMState::new(self, public_input, secret_input),
        };
        let ghost start = state@;
        let max_cycles: u32 = limit_of_cycles(&state, num_cycles_to_execute);
        while !state.halting && state.cycle_count < max_cycles
            invariant
                snapshots(start, max_cycles).1 == snapshots(state@, max_cycles).1,
                snapshots(start, max_cycles).0.len() == states@.len() + snapshots(
                    state@,
                    max_cycles,
                ).0.len(),
                forall|i: int|
                    0 <= i < states@.len() ==> (#[trigger] states@[i])@ == snapshots(
                        start,
                        max_cycles,
                    ).0[i],
                forall|i: int|
                    0 <= i < snapshots(state@, max_cycles).0.len() ==> snapshots(
                        start,
                        max_cycles,
                    ).0[states@.len() + i] == #[trigger] snapshots(state@, max_cycles).0[i],
            decreases max_cycles - state.cycle_count,
        {
            let ghost before = state@;
            let ghost listed = states@.len();
            proof {
                lemma_step_counts(before);
            }
            states.push(state.clone());
            assert(snapshots(before, max_cycles).0[0] == before);
            match state.step() {
                Ok(_) => {
                    assert forall|i: int|
                        0 <= i < snapshots(state@, max_cycles).0.len() implies snapshots(
                        start,
                        max_cycles,
                    ).0[states@.len() + i] == #[trigger] snapshots(state@, max_cycles).0[i] by {
                        assert(snapshots(before, max_cycles).0[1 + i] == snapshots(
                            state@,
                            max_cycles,
                        ).0[i]);
                    }
                },
                Err(error) => {
                    return (states, Some(error));
                },
            }
        }
        assert(snapshots(state@, max_cycles).0[0] == state@);
        states.push(state);
        (states, None)
    }

    /// Runs the program as [`debug`](Self::debug) does and returns the last state only: the
    /// state in which the machine halts or reaches the limit of cycles. Where a step fails,
    /// the fault is returned with the state before that step, since the failed step may have
    /// changed the state in part.
    #[verifier::loop_isolation(false)]
    pub fn debug_terminal_state<'pgm>(
        &'pgm self,
        public_input: Vec<BFieldElement>,
        secret_input: Vec<BFieldElement>,
        initial_state: Option<VMState<'pgm>>,
        num_cycles_to_execute: Option<u32>,
    ) -> (r: Result<VMState<'pgm>, (InstructionError, VMState<'pgm>)>)
        ensures
            ({
                let start = debug_start(self@, public_input@, secret_input@, initial_state);
                match terminal_state(start, cycle_limit(start, num_cycles_to_execute)) {
                    Ok(last) => r matches Ok(found) && found@ == last,
                    Err((error, last)) => r matches Err(found) && found.0 == error && found.1@
                        == last,
                }
            }),
    {
        let mut state = match initial_state {
            Some(given) => given,
            None => VMState::new(self, public_input, secret_input),
        };
        let ghost start = state@;
        let max_cycles: u32 = limit_of_cycles(&state, num_cycles_to_execute);
        while !state.halting && state.cycle_count < max_cycles
            invariant
                terminal_state(start, max_cycles) == terminal_state(state@, max_cycles),
            decreases max_cycles - state.cycle_count,
        {
            let ghost before = state@;
            proof {
                lemma_step_counts(before);
            }
            let previous_state = state.clone();
            match state.step() {
                Ok(_) => {},
                Err(error) => {
                    return Err((error, previous_state));
                },
            }
        }
        Ok(state)
    }
}

/// Putting one prefix before another, and both before the rest, is putting their
/// concatenation before it.
pub proof fn lemma_prefix_then_joins(
    first: Seq<Instruction>,
    second: Seq<Instruction>,
    rest: Result<Seq<Instruction>, ProgramDecodingError>,
)
    ensures
        prefix_then(first, prefix_then(second, rest)) == prefix_then(first + second, rest),
{
    if let Ok(slots) = rest {
        assert(first + (second + slots) =~= (first + second) + slots);
    }
}

} // verus!
