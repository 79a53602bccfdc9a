//! Whole executions, as mathematics: what running, tracing and debugging a program yield.
//!
//! Every execution ends: a step that succeeds counts a cycle, and the count of cycles has a
//! largest value at which a step fails.

use crate::aet::TraceRecord;
use crate::aet::fresh_trace;
use crate::aet::lemma_total_after_increment;
use crate::aet::lemma_total_of_zeros;
use crate::aet::recorded_call;
use crate::aet::recorded_state;
use crate::aet::total;
use crate::error::InstructionError;
use crate::machine::MachineState;
use crate::machine::lemma_step_counts;
use crate::machine::needs_co_processor;
use crate::machine::vm_step;
use vstd::prelude::*;

verus! {

/// The state in which the machine halts, or the fault of the first step that fails.
pub open spec fn run_outcome(state: MachineState) -> Result<MachineState, InstructionError>
    decreases u32::MAX - state.cycle_count,
{
    if state.halting {
        Ok(state)
    } else {
        match vm_step(state) {
            Err(error) => Err(error),
            Ok((next, _)) => {
                proof {
                    lemma_step_counts(state);
                }
                run_outcome(next)
            },
        }
    }
}

/// The number of steps that succeed before the machine halts or a step fails.
pub open spec fn steps_taken(state: MachineState) -> nat
    decreases u32::MAX - state.cycle_count,
{
    if state.halting {
        0
    } else {
        match vm_step(state) {
            Err(_) => 0,
            Ok((next, _)) => {
                proof {
                    lemma_step_counts(state);
                }
                1 + steps_taken(next)
            },
        }
    }
}

/// The number of those steps whose instruction hands something to a co-processor.
pub open spec fn co_processor_steps(state: MachineState) -> nat
    decreases u32::MAX - state.cycle_count,
{
    if state.halting {
        0
    } else {
        match vm_step(state) {
            Err(_) => 0,
            Ok((next, _)) => {
                proof {
                    lemma_step_counts(state);
                }
                (if needs_co_processor(state.program[state.instruction_pointer as int]) {
                    1nat
                } else {
                    0nat
                }) + co_processor_steps(next)
            },
        }
    }
}

/// The trace and the state in which the machine halts, where before each step the state is
/// recorded in the trace and after it the call, if the step makes one; or the first fault.
pub open spec fn traced(state: MachineState, trace: TraceRecord) -> Result<
    (TraceRecord, MachineState),
    InstructionError,
>
    decreases u32::MAX - state.cycle_count,
{
    if state.halting {
        Ok((trace, state))
    } else {
        match recorded_state(trace, state.instruction_pointer) {
            Err(error) => Err(error),
            Ok(counted) => match vm_step(state) {
                Err(error) => Err(error),
                Ok((next, call)) => {
                    proof {
                        lemma_step_counts(state);
                    }
                    traced(next, recorded_call(counted, call))
                },
            },
        }
    }
}

/// The count of cycles at which debugging stops: `num_cycles` more than the state counts, or
/// the largest count where none is given or the sum exceeds it.
pub open spec fn cycle_limit(state: MachineState, num_cycles: Option<u32>) -> u32 {
    match num_cycles {
        Some(number) => if state.cycle_count + number > u32::MAX {
            u32::MAX
        } else {
            (state.cycle_count + number) as u32
        },
        None => u32::MAX,
    }
}

/// Every state before a step, then the state in which the machine halts or reaches the limit
/// of cycles; with the fault where a step fails, after which no state follows.
pub open spec fn snapshots(state: MachineState, max_cycles: u32) -> (
    Seq<MachineState>,
    Option<InstructionError>,
)
    decreases max_cycles - state.cycle_count,
{
    if state.halting || state.cycle_count >= max_cycles {
        (seq![state], None)
    } else {
        match vm_step(state) {
            Err(error) => (seq![state], Some(error)),
            Ok((next, _)) => {
                proof {
                    lemma_step_counts(state);
                }
                let rest = snapshots(next, max_cycles);
                (seq![state] + rest.0, rest.1)
            },
        }
    }
}

/// The state in which the machine halts or reaches the limit of cycles; or the fault of the
/// step that fails, with the state before that step.
pub open spec fn terminal_state(state: MachineState, max_cycles: u32) -> Result<
    MachineState,
    (InstructionError, MachineState),
>
    decreases max_cycles - state.cycle_count,
{
    if state.halting || state.cycle_count >= max_cycles {
        Ok(state)
    } else {
        match vm_step(state) {
            Err(error) => Err((error, state)),
            Ok((next, _)) => {
                proof {
                    lemma_step_counts(state);
                }
                terminal_state(next, max_cycles)
            },
        }
    }
}

/// The state in which debugging ends is the last of the states that debugging lists: where
/// the machine halts or reaches the limit of cycles, the state it is then in; where a step
/// fails, the state before that step, with the same fault.
pub proof fn lemma_terminal_state_is_last_snapshot(state: MachineState, max_cycles: u32)
    ensures
        snapshots(state, max_cycles).0.len() > 0,
        match terminal_state(state, max_cycles) {
            Ok(last) => snapshots(state, max_cycles).1 is None && snapshots(
                state,
                max_cycles,
            ).0.last() == last,
            Err((error, last)) => snapshots(state, max_cycles).1 == Some(error) && snapshots(
                state,
                max_cycles,
            ).0.last() == last,
        },
    decreases max_cycles - state.cycle_count,
{
    if !(state.halting || state.cycle_count >= max_cycles) {
        if let Ok((next, _)) = vm_step(state) {
            lemma_step_counts(state);
            lemma_terminal_state_is_last_snapshot(next, max_cycles);
        }
    }
}

/// Where tracing succeeds, running succeeds and halts in the same state; the counts of the
/// trace have grown by the number of steps taken, which is the number of cycles that the
/// machine has counted since; and the list of calls has grown by the number of steps whose
/// instruction hands something to a co-processor.
pub proof fn lemma_trace_follows_run(state: MachineState, trace: TraceRecord)
    ensures
        traced(state, trace) matches Ok((last_trace, last)) ==> {
            &&& run_outcome(state) == Ok::<MachineState, InstructionError>(last)
            &&& last_trace.program == trace.program
            &&& last_trace.instruction_multiplicities.len()
                == trace.instruction_multiplicities.len()
            &&& total(last_trace.instruction_multiplicities) == total(
                trace.instruction_multiplicities,
            ) + steps_taken(state)
            &&& steps_taken(state) == last.cycle_count - state.cycle_count
            &&& last_trace.co_processor_calls.len() == trace.co_processor_calls.len()
                + co_processor_steps(state)
        },
    decreases u32::MAX - state.cycle_count,
{
    if !state.halting {
        if let Ok(counted) = recorded_state(trace, state.instruction_pointer) {
            if let Ok((next, call)) = vm_step(state) {
                lemma_step_counts(state);
                lemma_total_after_increment(
                    trace.instruction_multiplicities,
                    state.instruction_pointer as int,
                );
                lemma_trace_follows_run(next, recorded_call(counted, call));
            }
        }
    }
}

/// The trace of a whole execution: where tracing a program from its start succeeds, running
/// it succeeds and halts in the same state, with the same output; the counts of the trace sum
/// to the number of cycles executed; and the trace lists as many calls as instructions were
/// executed that hand something to a co-processor.
pub proof fn lemma_trace_consistent(start: MachineState)
    requires
        start.cycle_count == 0,
    ensures
        traced(start, fresh_trace(start.program)) matches Ok((trace, last)) ==> {
            &&& run_outcome(start) == Ok::<MachineState, InstructionError>(last)
            &&& total(trace.instruction_multiplicities) == last.cycle_count
            &&& last.cycle_count == steps_taken(start)
            &&& trace.co_processor_calls.len() == co_processor_steps(start)
            &&& trace.instruction_multiplicities.len() == start.program.len()
        },
{
    lemma_total_of_zeros(start.program.len());
    lemma_trace_follows_run(start, fresh_trace(start.program));
}

} // verus!
