//! The algebraic execution trace: what is recorded of an execution for the proof of its
//! correctness.

use crate::error::InstructionError;
use crate::instruction::Instruction;
use crate::machine::CallRecord;
use crate::program::Program;
use crate::vm::CoProcessorCall;
use crate::vm::VMState;
use vstd::prelude::*;

verus! {

/// What a trace holds, as mathematics.
#[verifier::ext_equal]
pub struct TraceRecord {
    /// The slots of the program that was executed.
    pub program: Seq<Instruction>,
    /// For each slot of the program, how often the instruction pointer pointed at it when an
    /// instruction was executed.
    pub instruction_multiplicities: Seq<u32>,
    /// What was handed to the co-processors, in the order of the cycles.
    pub co_processor_calls: Seq<CallRecord>,
}

/// The trace of a program of which nothing is executed yet.
pub open spec fn fresh_trace(program: Seq<Instruction>) -> TraceRecord {
    TraceRecord {
        program,
        instruction_multiplicities: Seq::new(program.len(), |i: int| 0u32),
        co_processor_calls: Seq::empty(),
    }
}

/// The trace after one more execution of the instruction at `pointer` is counted. This fails
/// where the pointer is beyond the trace, and where the count cannot grow.
pub open spec fn recorded_state(trace: TraceRecord, pointer: usize) -> Result<
    TraceRecord,
    InstructionError,
> {
    if pointer >= trace.instruction_multiplicities.len() {
        Err(InstructionError::InstructionPointerOverflow(pointer))
    } else if trace.instruction_multiplicities[pointer as int] == u32::MAX {
        Err(InstructionError::MultiplicityOverflow(pointer))
    } else {
        Ok(
            TraceRecord {
                instruction_multiplicities: trace.instruction_multiplicities.update(
                    pointer as int,
                    (trace.instruction_multiplicities[pointer as int] + 1) as u32,
                ),
                ..trace
            },
        )
    }
}

/// The trace after a call is appended, if there is one.
pub open spec fn recorded_call(trace: TraceRecord, call: Option<CallRecord>) -> TraceRecord {
    match call {
        Some(record) => TraceRecord {
            co_processor_calls: trace.co_processor_calls.push(record),
            ..trace
        },
        None => trace,
    }
}

/// The sum of counts.
pub open spec fn total(counts: Seq<u32>) -> nat
    decreases counts.len(),
{
    if counts.len() == 0 {
        0
    } else {
        total(counts.drop_last()) + counts.last() as nat
    }
}

/// The records of calls.
pub open spec fn call_records(calls: Seq<CoProcessorCall>) -> Seq<CallRecord> {
    calls.map_values(|call: CoProcessorCall| call@)
}

/// Raising one count by one raises the sum by one.
pub proof fn lemma_total_after_increment(counts: Seq<u32>, index: int)
    requires
        0 <= index < counts.len(),
        counts[index] < u32::MAX,
    ensures
        total(counts.update(index, (counts[index] + 1) as u32)) == total(counts) + 1,
    decreases counts.len(),
{
    let raised = counts.update(index, (counts[index] + 1) as u32);
    if index == counts.len() - 1 {
        assert(raised.drop_last() =~= counts.drop_last());
    } else {
        lemma_total_after_increment(counts.drop_last(), index);
        assert(raised.drop_last() =~= counts.drop_last().update(
            index,
            (counts[index] + 1) as u32,
        ));
    }
}

/// Counts that are all zero sum to zero.
pub proof fn lemma_total_of_zeros(length: nat)
    ensures
        total(Seq::new(length, |i: int| 0u32)) == 0,
    decreases length,
{
    if length > 0 {
        lemma_total_of_zeros((length - 1) as nat);
        assert(Seq::new(length, |i: int| 0u32).drop_last() =~= Seq::new(
            (length - 1) as nat,
            |i: int| 0u32,
        ));
    }
}

/// The record of an execution: how often each slot of the program was executed, and what the
/// instructions handed to the co-processors.
#[derive(Debug)]
pub struct AlgebraicExecutionTrace {
    /// The program that was executed.
    pub program: Program,
    /// For each slot of the program, how often the instruction in it was executed.
    pub instruction_multiplicities: Vec<u32>,
    /// What was handed to the co-processors, in the order of the cycles.
    pub co_processor_calls: Vec<CoProcessorCall>,
}

impl View for AlgebraicExecutionTrace {
    type V = TraceRecord;

    open spec fn view(&self) -> TraceRecord {
        TraceRecord {
            program: self.program@,
            instruction_multiplicities: self.instruction_multiplicities@,
            co_processor_calls: call_records(self.co_processor_calls@),
        }
    }
}

impl AlgebraicExecutionTrace {
    /// Whether the trace has one count for each slot of its program.
    pub open spec fn well_formed(&self) -> bool {
        self.instruction_multiplicities@.len() == self.program@.len()
    }

    /// The trace of a program of which nothing is executed yet: one count of zero for each
    /// slot, and no call.
    pub fn new(program: Program) -> (r: Self)
        ensures
            r@ == fresh_trace(program@),
            r.well_formed(),
    {
        let length: usize = program.len_bwords();
        let mut instruction_multiplicities: Vec<u32> = Vec::new();
        let mut i: usize = 0;
        while i < length
            invariant
                i <= length,
                instruction_multiplicities@.len() == i,
                forall|k: int| 0 <= k < i ==> instruction_multiplicities@[k] == 0u32,
            decreases length - i,
        {
            instruction_multiplicities.push(0);
            i += 1;
        }
        let trace = AlgebraicExecutionTrace {
            program,
            instruction_multiplicities,
            co_processor_calls: Vec::new(),
        };
        assert(trace@ =~= fresh_trace(program@));
        trace
    }

    /// Counts one more execution of the instruction at which the state's instruction pointer
    /// points. To be called before the state steps. Where this fails, the trace is unchanged.
    pub fn record_state(&mut self, state: &VMState) -> (r: Result<(), InstructionError>)
        ensures
            match recorded_state(old(self)@, state.instruction_pointer) {
                Ok(trace) => r is Ok && final(self)@ == trace,
                Err(error) => r == Err::<(), InstructionError>(error) && final(self)@ == old(
                    self,
                )@,
            },
            old(self).well_formed() ==> final(self).well_formed(),
    {
        let pointer: usize = state.instruction_pointer;
        if pointer >= self.instruction_multiplicities.len() {
            return Err(InstructionError::InstructionPointerOverflow(pointer));
        }
        let count: u32 = self.instruction_multiplicities[pointer];
        if count == u32::MAX {
            return Err(InstructionError::MultiplicityOverflow(pointer));
        }
        self.instruction_multiplicities.set(pointer, count + 1);
        assert(self@ =~= recorded_state(old(self)@, pointer)->Ok_0);
        Ok(())
    }

    /// Appends what an instruction handed to a co-processor.
    pub fn record_co_processor_call(&mut self, call: CoProcessorCall)
        ensures
            final(self)@ == recorded_call(old(self)@, Some(call@)),
            old(self).well_formed() ==> final(self).well_formed(),
    {
        self.co_processor_calls.push(call);
        assert(call_records(self.co_processor_calls@) =~= call_records(
            old(self).co_processor_calls@,
        ).push(call@));
        assert(self@ =~= recorded_call(old(self)@, Some(call@)));
    }
}

} // verus!
