use triton_vm::error::ParseError;
use triton_vm::field::BFieldElement;
use triton_vm::field::P;
use triton_vm::instruction::Instruction;
use triton_vm::instruction::Ord16;
use triton_vm::label::LabelledInstruction;
use triton_vm::parser::parse;
use triton_vm::program::Program;

fn instruction(instruction: Instruction) -> LabelledInstruction {
    LabelledInstruction::Instruction(instruction)
}

#[test]
fn words_are_parted_by_blanks_of_any_kind() {
    let items = parse("  push 3\n\tdup  2\r\nhalt ").unwrap();
    assert_eq!(
        vec![
            instruction(Instruction::Push(BFieldElement::new(3))),
            instruction(Instruction::Dup(Ord16::ST2)),
            instruction(Instruction::Halt),
        ],
        items
    );
}

#[test]
fn comments_run_to_the_end_of_the_line() {
    let items = parse("nop // pop pop\n// halt\nadd //").unwrap();
    assert_eq!(
        vec![instruction(Instruction::Nop), instruction(Instruction::Add)],
        items
    );
    assert_eq!(Ok(vec![]), parse("// nothing but a comment"));
    assert_eq!(Ok(vec![]), parse(""));
    assert_eq!(Ok(vec![]), parse(" \n\t"));
}

#[test]
fn labels_and_calls_keep_their_names() {
    let items = parse("call end end: halt").unwrap();
    assert_eq!(
        vec![
            LabelledInstruction::Call("end".to_string()),
            LabelledInstruction::Label("end".to_string()),
            instruction(Instruction::Halt),
        ],
        items
    );
}

#[test]
fn every_instruction_has_a_name() {
    let source = "pop divine nop skiz return recurse assert halt read_mem write_mem hash \
                  assert_vector absorb_init absorb squeeze add mul invert eq split lt and xor \
                  log_2_floor pow div pop_count read_io write_io";
    let plain = [
        Instruction::Pop,
        Instruction::Divine,
        Instruction::Nop,
        Instruction::Skiz,
        Instruction::Return,
        Instruction::Recurse,
        Instruction::Assert,
        Instruction::Halt,
        Instruction::ReadMem,
        Instruction::WriteMem,
        Instruction::Hash,
        Instruction::AssertVector,
        Instruction::AbsorbInit,
        Instruction::Absorb,
        Instruction::Squeeze,
        Instruction::Add,
        Instruction::Mul,
        Instruction::Invert,
        Instruction::Eq,
        Instruction::Split,
        Instruction::Lt,
        Instruction::And,
        Instruction::Xor,
        Instruction::Log2Floor,
        Instruction::Pow,
        Instruction::Div,
        Instruction::PopCount,
        Instruction::ReadIo,
        Instruction::WriteIo,
    ];
    let expected: Vec<LabelledInstruction> = plain.into_iter().map(instruction).collect();
    assert_eq!(expected, parse(source).unwrap());
    for found in plain {
        assert_eq!(
            vec![instruction(found)],
            parse(&found.to_string()).unwrap()
        );
    }
}

#[test]
fn push_takes_numbers_below_the_modulus_and_their_negatives() {
    let pushed = |source: &str| match parse(source) {
        Ok(items) => match items.as_slice() {
            [LabelledInstruction::Instruction(Instruction::Push(element))] => Some(element.value()),
            _ => None,
        },
        Err(_) => None,
    };
    assert_eq!(Some(0), pushed("push 0"));
    assert_eq!(Some(0), pushed("push -0"));
    assert_eq!(Some(7), pushed("push 007"));
    assert_eq!(Some(P - 1), pushed("push -1"));
    assert_eq!(Some(P - 1), pushed("push 18446744069414584320"));
    assert_eq!(Some(1), pushed("push -18446744069414584320"));
    assert_eq!(None, pushed("push 18446744069414584321"));
    assert_eq!(None, pushed("push -18446744069414584321"));
    assert_eq!(None, pushed("push 99999999999999999999999999"));
    assert_eq!(None, pushed("push 1a"));
    assert_eq!(None, pushed("push -"));
    assert_eq!(None, pushed("push +1"));
}

#[test]
fn a_word_that_names_no_instruction_is_a_fault() {
    assert_eq!(Err(ParseError::UnknownInstruction(1)), parse("nop frobnicate halt"));
    assert_eq!(Err(ParseError::UnknownInstruction(0)), parse(":"));
    assert_eq!(Err(ParseError::UnknownInstruction(0)), parse("Halt"));
    assert_eq!(Err(ParseError::UnknownInstruction(1)), parse("halt x//"));
    assert_eq!(Ok(vec![instruction(Instruction::Halt)]), parse("halt //x"));
}

#[test]
fn a_missing_argument_is_a_fault() {
    assert_eq!(Err(ParseError::MissingArgument(2)), parse("nop nop push"));
    assert_eq!(Err(ParseError::MissingArgument(0)), parse("call // f"));
    assert_eq!(Err(ParseError::MissingArgument(1)), parse("halt swap"));
    assert_eq!(Err(ParseError::MissingArgument(0)), parse("dup"));
}

#[test]
fn an_argument_that_the_instruction_does_not_take_is_a_fault() {
    assert_eq!(Err(ParseError::InvalidArgument(0)), parse("push halt"));
    assert_eq!(Err(ParseError::InvalidArgument(1)), parse("nop dup 16"));
    assert_eq!(Err(ParseError::InvalidArgument(0)), parse("swap 0"));
    assert_eq!(Err(ParseError::InvalidArgument(0)), parse("swap 16"));
    assert_eq!(Err(ParseError::InvalidArgument(0)), parse("dup -1"));
    assert_eq!(Err(ParseError::InvalidArgument(0)), parse("call f: f: halt"));
}

#[test]
fn a_label_set_twice_is_a_fault() {
    assert_eq!(Err(ParseError::DuplicateLabel(2)), parse("a: halt a: halt"));
    assert_eq!(
        Err(ParseError::DuplicateLabel(3)),
        parse("a: b: halt b: a: call c")
    );
}

#[test]
fn a_call_of_a_label_that_is_not_set_is_a_fault() {
    assert_eq!(Err(ParseError::UndefinedLabel(1)), parse("halt call f"));
    assert_eq!(Err(ParseError::UndefinedLabel(2)), parse("g: call g call f"));
}

#[test]
fn faults_among_the_words_come_before_faults_among_the_labels() {
    assert_eq!(Err(ParseError::UnknownInstruction(4)), parse("a: a: call f bogus"));
    assert_eq!(Err(ParseError::DuplicateLabel(1)), parse("a: a: call f"));
}

#[test]
fn from_code_reports_the_fault_of_the_text() {
    assert_eq!(
        Err(ParseError::UnknownInstruction(0)),
        Program::from_code("bogus").map(|program| program.instructions)
    );
    assert_eq!(
        Err(ParseError::UndefinedLabel(0)),
        Program::from_code("call nowhere").map(|program| program.instructions)
    );
}

#[test]
fn a_label_names_the_address_of_what_follows_it() {
    let program = Program::from_code("a: push 1 b: c: halt call c call a call b").unwrap();
    let mut iter = program.into_iter();
    let mut calls: Vec<u64> = vec![];
    while let Some(instruction) = iter.next() {
        if let Instruction::Call(address) = instruction {
            calls.push(address.value());
        }
    }
    assert_eq!(vec![2, 0, 2], calls);
}

#[test]
fn faults_of_the_text_say_what_is_wrong() {
    assert_eq!(
        "Word 3 names no instruction.",
        ParseError::UnknownInstruction(3).to_string()
    );
    assert_eq!(
        "Missing argument for the instruction at word 0.",
        ParseError::MissingArgument(0).to_string()
    );
    assert_eq!(
        "Invalid argument for the instruction at word 12.",
        ParseError::InvalidArgument(12).to_string()
    );
    assert_eq!(
        "Item 7 sets a label that is set before.",
        ParseError::DuplicateLabel(7).to_string()
    );
    assert_eq!(
        "Item 1 calls a label that is not set.",
        ParseError::UndefinedLabel(1).to_string()
    );
}
