//! The ways in which decoding a program and executing an instruction can fail.

use crate::field::BFieldElement;
use crate::instruction::Instruction;
use crate::instruction::instruction_text;
use crate::text::append_decimal;
use crate::text::append_element;
use crate::text::decimal;
use crate::text::element_text;
use vstd::prelude::*;

verus! {

/// Why a sequence of field elements is not the encoding of a program.
#[derive(Clone, Copy, Debug, PartialEq, Eq, Structural)]
pub enum ProgramDecodingError {
    /// The sequence holds no element at all, not even a length.
    EmptySequence,
    /// The declared length, and the number of words that follow it.
    LengthMismatch(u64, usize),
    /// A word that is no instruction's opcode, and its index among the words.
    InvalidOpcode(u64, usize),
    /// An instruction whose argument lies beyond the last word, and the instruction's index.
    MissingArgument(Instruction, usize),
    /// An instruction that rejects the word which follows it, and the instruction's index.
    InvalidArgument(Instruction, usize),
}

/// Why a text is no program. Each fault holds an index: that of a word among the words of the
/// text, or that of an item among the items that the words stand for.
#[derive(Clone, Copy, Debug, PartialEq, Eq, Structural)]
pub enum ParseError {
    /// The word at the index names no instruction.
    UnknownInstruction(usize),
    /// The word at the index names an instruction that takes an argument, and is the last.
    MissingArgument(usize),
    /// The word at the index names an instruction that does not take the word after it.
    InvalidArgument(usize),
    /// The item at the index sets a label that is set before.
    DuplicateLabel(usize),
    /// The item at the index calls a label that is not set.
    UndefinedLabel(usize),
}

/// Why the machine cannot execute an instruction.
#[derive(Clone, Copy, Debug, PartialEq, Eq, Structural)]
pub enum InstructionError {
    /// The instruction pointer, which points beyond the program.
    InstructionPointerOverflow(usize),
    /// The cycle counter holds the largest count it can.
    CycleCountOverflow,
    /// The count of how often an instruction was executed holds the largest count it can.
    MultiplicityOverflow(usize),
    /// The operational stack holds too few elements for the instruction.
    OpStackTooShallow,
    /// The jump stack is empty.
    JumpStackIsEmpty,
    /// `assert` found an element other than one on top of the stack.
    AssertionFailed(BFieldElement),
    /// `assert_vector` found two elements that differ, the upper one in the given register.
    VectorAssertionFailed(usize),
    /// `swap` names the top of the stack itself.
    SwapST0,
    /// Zero has no multiplicative inverse.
    InverseOfZero,
    /// The divisor is zero.
    DivisionByZero,
    /// Zero has no logarithm.
    LogarithmOfZero,
    /// An operand is no 32-bit word.
    FailedU32Conversion(BFieldElement),
    /// The public input is used up.
    EmptyPublicInput,
    /// The secret input is used up.
    EmptySecretInput,
}

/// What is said of a fault of decoding.
pub open spec fn decoding_error_text(error: ProgramDecodingError) -> Seq<char> {
    match error {
        ProgramDecodingError::EmptySequence => "Sequence to decode must not be empty."@,
        ProgramDecodingError::LengthMismatch(expected, actual) => {
            "Sequence to decode must have length "@ + decimal(expected as nat)
                + ", but has length "@ + decimal(actual as nat) + "."@
        },
        ProgramDecodingError::InvalidOpcode(value, index) => {
            "Invalid opcode "@ + decimal(value as nat) + " at index "@ + decimal(index as nat)
                + "."@
        },
        ProgramDecodingError::MissingArgument(instruction, index) => {
            "Missing argument for instruction "@ + instruction_text(instruction) + " at index "@
                + decimal(index as nat) + "."@
        },
        ProgramDecodingError::InvalidArgument(instruction, index) => {
            "Invalid argument for instruction "@ + instruction_text(instruction) + " at index "@
                + decimal(index as nat) + "."@
        },
    }
}

impl ProgramDecodingError {
    /// What is said of the fault.
    pub fn to_string(&self) -> (r: String)
        ensures
            r@ == decoding_error_text(*self),
    {
        let mut text = String::new();
        match self {
            ProgramDecodingError::EmptySequence => {
                text.append("Sequence to decode must not be empty.");
            },
            ProgramDecodingError::LengthMismatch(expected, actual) => {
                text.append("Sequence to decode must have length ");
                append_decimal(&mut text, *expected);
                text.append(", but has length ");
                append_decimal(&mut text, *actual as u64);
                text.append(".");
            },
            ProgramDecodingError::InvalidOpcode(value, index) => {
                text.append("Invalid opcode ");
                append_decimal(&mut text, *value);
                text.append(" at index ");
                append_decimal(&mut text, *index as u64);
                text.append(".");
            },
            ProgramDecodingError::MissingArgument(instruction, index) => {
                text.append("Missing argument for instruction ");
                instruction.append_to(&mut text);
                text.append(" at index ");
                append_decimal(&mut text, *index as u64);
                text.append(".");
            },
            ProgramDecodingError::InvalidArgument(instruction, index) => {
                text.append("Invalid argument for instruction ");
                instruction.append_to(&mut text);
                text.append(" at index ");
                append_decimal(&mut text, *index as u64);
                text.append(".");
            },
        }
        assert(text@ =~= decoding_error_text(*self));
        text
    }
}

/// What is said of the fault.
pub open spec fn parse_error_text(error: ParseError) -> Seq<char> {
    match error {
        ParseError::UnknownInstruction(index) => {
            "Word "@
                + decimal(index as nat)
                + " names no instruction."@
        },
        ParseError::MissingArgument(index) => {
            "Missing argument for the instruction at word "@
                + decimal(index as nat)
                + "."@
        },
        ParseError::InvalidArgument(index) => {
            "Invalid argument for the instruction at word "@
                + decimal(index as nat)
                + "."@
        },
        ParseError::DuplicateLabel(index) => {
            "Item "@
                + decimal(index as nat)
                + " sets a label that is set before."@
        },
        ParseError::UndefinedLabel(index) => {
            "Item "@
                + decimal(index as nat)
                + " calls a label that is not set."@
        },
    }
}

impl ParseError {
    /// What is said of the fault.
    pub fn to_string(&self) -> (r: String)
        ensures
            r@ == parse_error_text(*self),
    {
        let mut text = String::new();
        match self {
            ParseError::UnknownInstruction(index) => {
                text.append("Word ");
                append_decimal(&mut text, *index as u64);
                text.append(" names no instruction.");
            },
            ParseError::MissingArgument(index) => {
                text.append("Missing argument for the instruction at word ");
                append_decimal(&mut text, *index as u64);
                text.append(".");
            },
            ParseError::InvalidArgument(index) => {
                text.append("Invalid argument for the instruction at word ");
                append_decimal(&mut text, *index as u64);
                text.append(".");
            },
            ParseError::DuplicateLabel(index) => {
                text.append("Item ");
                append_decimal(&mut text, *index as u64);
                text.append(" sets a label that is set before.");
            },
            ParseError::UndefinedLabel(index) => {
                text.append("Item ");
                append_decimal(&mut text, *index as u64);
                text.append(" calls a label that is not set.");
            },
        }
        assert(text@ =~= parse_error_text(*self));
        text
    }
}

/// What is said of the fault.
pub open spec fn instruction_error_text(error: InstructionError) -> Seq<char> {
    match error {
        InstructionError::InstructionPointerOverflow(pointer) => {
            "Instruction pointer "@
                + decimal(pointer as nat)
                + " points outside of the program."@
        },
        InstructionError::CycleCountOverflow => {
            "The count of cycles cannot grow any further."@
        },
        InstructionError::MultiplicityOverflow(pointer) => {
            "The count of executions of the instruction at "@
                + decimal(pointer as nat)
                + " cannot grow any further."@
        },
        InstructionError::OpStackTooShallow => {
            "Operational stack is too shallow."@
        },
        InstructionError::JumpStackIsEmpty => {
            "Jump stack is empty."@
        },
        InstructionError::AssertionFailed(element) => {
            "Assertion failed: the top of the stack is "@
                + element_text(element)
                + ", not 1."@
        },
        InstructionError::VectorAssertionFailed(depth) => {
            "Vector assertion failed at register "@
                + decimal(depth as nat)
                + "."@
        },
        InstructionError::SwapST0 => {
            "Cannot swap the top of the stack with itself."@
        },
        InstructionError::InverseOfZero => {
            "Zero has no inverse."@
        },
        InstructionError::DivisionByZero => {
            "Cannot divide by zero."@
        },
        InstructionError::LogarithmOfZero => {
            "Zero has no logarithm."@
        },
        InstructionError::FailedU32Conversion(element) => {
            "Element "@
                + element_text(element)
                + " is no 32-bit word."@
        },
        InstructionError::EmptyPublicInput => {
            "Public input is used up."@
        },
        InstructionError::EmptySecretInput => {
            "Secret input is used up."@
        },
    }
}

impl InstructionError {
    /// What is said of the fault.
    pub fn to_string(&self) -> (r: String)
        ensures
            r@ == instruction_error_text(*self),
    {
        let mut text = String::new();
        match self {
            InstructionError::InstructionPointerOverflow(pointer) => {
                text.append("Instruction pointer ");
                append_decimal(&mut text, *pointer as u64);
                text.append(" points outside of the program.");
            },
            InstructionError::CycleCountOverflow => {
                text.append("The count of cycles cannot grow any further.");
            },
            InstructionError::MultiplicityOverflow(pointer) => {
                text.append("The count of executions of the instruction at ");
                append_decimal(&mut text, *pointer as u64);
                text.append(" cannot grow any further.");
            },
            InstructionError::OpStackTooShallow => {
                text.append("Operational stack is too shallow.");
            },
            InstructionError::JumpStackIsEmpty => {
                text.append("Jump stack is empty.");
            },
            InstructionError::AssertionFailed(element) => {
                text.append("Assertion failed: the top of the stack is ");
                append_element(&mut text, *element);
                text.append(", not 1.");
            },
            InstructionError::VectorAssertionFailed(depth) => {
                text.append("Vector assertion failed at register ");
                append_decimal(&mut text, *depth as u64);
                text.append(".");
            },
            InstructionError::SwapST0 => {
                text.append("Cannot swap the top of the stack with itself.");
            },
            InstructionError::InverseOfZero => {
                text.append("Zero has no inverse.");
            },
            InstructionError::DivisionByZero => {
                text.append("Cannot divide by zero.");
            },
            InstructionError::LogarithmOfZero => {
                text.append("Zero has no logarithm.");
            },
            InstructionError::FailedU32Conversion(element) => {
                text.append("Element ");
                append_element(&mut text, *element);
                text.append(" is no 32-bit word.");
            },
            InstructionError::EmptyPublicInput => {
                text.append("Public input is used up.");
            },
            InstructionError::EmptySecretInput => {
                text.append("Secret input is used up.");
            },
        }
        assert(text@ =~= instruction_error_text(*self));
        text
    }
}

} // verus!
