//! The wire form of a program and what it means to decode one, as mathematics.
//!
//! In memory an instruction with an argument fills two consecutive slots, both holding the
//! instruction, so that a slot's index is the address of what it holds. On the wire the same
//! instruction is its opcode followed by its argument. An encoded program is its number of
//! words followed by the words.

use crate::error::ProgramDecodingError;
use crate::field::BFieldElement;
use crate::field::P;
use crate::field::field_element;
use crate::instruction::Instruction;
use crate::instruction::lemma_opcode_names_instruction;
use vstd::prelude::*;

verus! {

/// Whether the slots are whole instructions: each instruction with an argument is followed by
/// its own copy.
pub open spec fn slots_well_formed(slots: Seq<Instruction>) -> bool
    decreases slots.len(),
{
    if slots.len() == 0 {
        true
    } else if slots[0].spec_has_arg() {
        slots.len() >= 2 && slots[1] == slots[0] && slots_well_formed(slots.skip(2))
    } else {
        slots_well_formed(slots.skip(1))
    }
}

/// Whether every slot holds an instruction whose argument its encoding can carry.
pub open spec fn all_encodable(slots: Seq<Instruction>) -> bool {
    forall|i: int| 0 <= i < slots.len() ==> (#[trigger] slots[i]).is_encodable()
}

/// The slots that follow the first instruction.
pub open spec fn rest_after_first(slots: Seq<Instruction>) -> Seq<Instruction>
    recommends
        slots.len() > 0,
{
    if slots[0].spec_size() >= slots.len() {
        Seq::empty()
    } else {
        slots.skip(slots[0].spec_size() as int)
    }
}

/// The instructions of a program, each once: the slots without the copies.
pub open spec fn logical_instructions(slots: Seq<Instruction>) -> Seq<Instruction>
    decreases slots.len(),
{
    if slots.len() == 0 {
        Seq::empty()
    } else {
        seq![slots[0]] + logical_instructions(rest_after_first(slots))
    }
}

/// The words of one instruction: its opcode, and its argument if it has one.
pub open spec fn instruction_words(instruction: Instruction) -> Seq<BFieldElement> {
    match instruction.spec_arg() {
        Some(argument) => seq![
            BFieldElement { value: instruction.spec_opcode() as u64 },
            argument,
        ],
        None => seq![BFieldElement { value: instruction.spec_opcode() as u64 }],
    }
}

/// The words of a list of instructions, one after the other.
pub open spec fn words_of(instructions: Seq<Instruction>) -> Seq<BFieldElement>
    decreases instructions.len(),
{
    if instructions.len() == 0 {
        Seq::empty()
    } else {
        instruction_words(instructions[0]) + words_of(instructions.skip(1))
    }
}

/// The wire form of a program: the words of its instructions, each instruction once.
pub open spec fn wire_words(slots: Seq<Instruction>) -> Seq<BFieldElement> {
    words_of(logical_instructions(slots))
}

/// The encoding of a program: the number of its slots, then its wire form.
pub open spec fn encoding(slots: Seq<Instruction>) -> Seq<BFieldElement> {
    seq![field_element(slots.len() as int)] + wire_words(slots)
}

/// The instruction that a word names as an opcode.
pub open spec fn opcode_instruction(word: u64) -> Option<Instruction> {
    if word > 0xffff_ffff {
        None
    } else {
        Instruction::spec_from_opcode(word as u32)
    }
}

/// `prefix` put before what `rest` holds, and the error of `rest` where it holds one.
pub open spec fn prefix_then(
    prefix: Seq<Instruction>,
    rest: Result<Seq<Instruction>, ProgramDecodingError>,
) -> Result<Seq<Instruction>, ProgramDecodingError> {
    match rest {
        Ok(slots) => Ok(prefix + slots),
        Err(error) => Err(error),
    }
}

/// The slots that wire words stand for, read from left to right, or the first fault found.
/// `base` is the index of the first of the words, for the faults to report.
pub open spec fn parse_words(words: Seq<BFieldElement>, base: int) -> Result<
    Seq<Instruction>,
    ProgramDecodingError,
>
    decreases words.len(),
{
    if words.len() == 0 {
        Ok(Seq::empty())
    } else {
        match opcode_instruction(words[0].value) {
            None => Err(ProgramDecodingError::InvalidOpcode(words[0].value, base as usize)),
            Some(instruction) => if !instruction.spec_has_arg() {
                prefix_then(seq![instruction], parse_words(words.skip(1), base + 1))
            } else if words.len() < 2 {
                Err(ProgramDecodingError::MissingArgument(instruction, base as usize))
            } else {
                match instruction.spec_change_arg(words[1]) {
                    None => Err(
                        ProgramDecodingError::InvalidArgument(instruction, base as usize),
                    ),
                    Some(changed) => prefix_then(
                        seq![changed, changed],
                        parse_words(words.skip(2), base + 2),
                    ),
                }
            },
        }
    }
}

/// The slots of the program that a sequence encodes, or why it encodes none.
pub open spec fn decoding(sequence: Seq<BFieldElement>) -> Result<
    Seq<Instruction>,
    ProgramDecodingError,
> {
    if sequence.len() == 0 {
        Err(ProgramDecodingError::EmptySequence)
    } else if sequence[0].value != sequence.len() - 1 {
        Err(
            ProgramDecodingError::LengthMismatch(
                sequence[0].value,
                (sequence.len() - 1) as usize,
            ),
        )
    } else {
        parse_words(sequence.skip(1), 0)
    }
}

/// The wire form of a program begins with the words of its first instruction.
pub proof fn lemma_wire_words_unfold(slots: Seq<Instruction>)
    requires
        slots.len() > 0,
    ensures
        wire_words(slots) == instruction_words(slots[0]) + wire_words(rest_after_first(slots)),
{
    let logical = logical_instructions(slots);
    let rest = logical_instructions(rest_after_first(slots));
    assert(logical == seq![slots[0]] + rest);
    assert(logical.skip(1) =~= rest);
}

/// Where the slots are whole instructions, so are those that follow the first instruction,
/// and they are the slots from the first instruction's size on.
pub proof fn lemma_rest_well_formed(slots: Seq<Instruction>)
    requires
        slots.len() > 0,
        slots_well_formed(slots),
    ensures
        slots[0].spec_size() <= slots.len(),
        rest_after_first(slots) == slots.skip(slots[0].spec_size() as int),
        slots_well_formed(rest_after_first(slots)),
        slots[0].spec_has_arg() ==> slots[1] == slots[0],
        all_encodable(slots) ==> all_encodable(rest_after_first(slots)),
{
    let size = slots[0].spec_size() as int;
    assert(rest_after_first(slots) =~= slots.skip(size));
    if all_encodable(slots) {
        assert forall|i: int| 0 <= i < slots.skip(size).len() implies (#[trigger] slots.skip(
            size,
        )[i]).is_encodable() by {
            assert(slots.skip(size)[i] == slots[i + size]);
        }
    }
}

/// Parsing the wire form of a program gives the program back. The wire form has one word for
/// each slot.
pub proof fn lemma_parse_inverts_wire_words(slots: Seq<Instruction>, base: int)
    requires
        slots_well_formed(slots),
        all_encodable(slots),
    ensures
        parse_words(wire_words(slots), base) == Ok::<Seq<Instruction>, ProgramDecodingError>(
            slots,
        ),
        wire_words(slots).len() == slots.len(),
    decreases slots.len(),
{
    let words = wire_words(slots);
    if slots.len() == 0 {
        assert(slots =~= Seq::<Instruction>::empty());
    } else {
        let first = slots[0];
        let rest = rest_after_first(slots);
        lemma_wire_words_unfold(slots);
        lemma_rest_well_formed(slots);
        lemma_opcode_names_instruction(first);
        assert(first.is_encodable());
        lemma_parse_inverts_wire_words(rest, base + first.spec_size());
        assert(words[0].value == first.spec_opcode());
        assert(opcode_instruction(words[0].value) == Instruction::spec_from_opcode(
            first.spec_opcode(),
        ));
        if first.spec_has_arg() {
            assert(words.skip(2) =~= wire_words(rest));
            assert(words[1] == first.spec_arg()->0);
            assert(seq![first, first] + rest =~= slots);
        } else {
            assert(words.skip(1) =~= wire_words(rest));
            assert(seq![first] + rest =~= slots);
        }
    }
}

/// What parsing yields are whole instructions with arguments that their encoding can carry,
/// one slot for each word.
pub proof fn lemma_parsed_slots_well_formed(words: Seq<BFieldElement>, base: int)
    ensures
        parse_words(words, base) matches Ok(slots) ==> slots_well_formed(slots) && all_encodable(
            slots,
        ) && slots.len() == words.len(),
    decreases words.len(),
{
    if words.len() > 0 {
        if let Some(instruction) = opcode_instruction(words[0].value) {
            if !instruction.spec_has_arg() {
                lemma_parsed_slots_well_formed(words.skip(1), base + 1);
                if let Ok(rest) = parse_words(words.skip(1), base + 1) {
                    let slots = seq![instruction] + rest;
                    assert(slots.skip(1) =~= rest);
                    assert(instruction.is_encodable());
                }
            } else if words.len() >= 2 {
                if let Some(changed) = instruction.spec_change_arg(words[1]) {
                    lemma_parsed_slots_well_formed(words.skip(2), base + 2);
                    if let Ok(rest) = parse_words(words.skip(2), base + 2) {
                        let slots = seq![changed, changed] + rest;
                        assert(slots.skip(2) =~= rest);
                        assert(changed.spec_has_arg());
                        assert(changed.is_encodable());
                    }
                }
            }
        }
    }
}

/// Decoding the encoding of a program gives the program back, provided that its slots are
/// whole instructions, that each argument is one its encoding can carry, and that the number
/// of slots is a canonical field element.
pub proof fn lemma_decode_inverts_encode(slots: Seq<Instruction>)
    requires
        slots_well_formed(slots),
        all_encodable(slots),
        slots.len() < P,
    ensures
        decoding(encoding(slots)) == Ok::<Seq<Instruction>, ProgramDecodingError>(slots),
{
    let sequence = encoding(slots);
    lemma_parse_inverts_wire_words(slots, 0);
    assert(sequence.skip(1) =~= wire_words(slots));
    assert(sequence[0].value == slots.len());
}

/// What decoding yields are whole instructions with arguments that their encoding can carry.
pub proof fn lemma_decoded_slots_well_formed(sequence: Seq<BFieldElement>)
    ensures
        decoding(sequence) matches Ok(slots) ==> slots_well_formed(slots) && all_encodable(slots)
            && slots.len() == sequence.len() - 1,
{
    if sequence.len() > 0 {
        lemma_parsed_slots_well_formed(sequence.skip(1), 0);
    }
}

} // verus!
