use triton_vm::error::ProgramDecodingError;
use triton_vm::field::BFieldElement;
use triton_vm::hashing::Digest;
use triton_vm::hashing::Tip5;
use triton_vm::instruction::Instruction;
use triton_vm::instruction::Ord16;
use triton_vm::label::LabelledInstruction;
use triton_vm::program::Program;

fn bfe(value: u64) -> BFieldElement {
    BFieldElement::new(value)
}

fn bfes(values: &[u64]) -> Vec<BFieldElement> {
    values.iter().map(|&value| BFieldElement::new(value)).collect()
}

/// A small generator of numbers that look random and are the same on every run.
struct Generator(u64);

impl Generator {
    fn next(&mut self) -> u64 {
        self.0 = self
            .0
            .wrapping_mul(6364136223846793005)
            .wrapping_add(1442695040888963407);
        self.0 >> 33
    }

    fn below(&mut self, bound: u64) -> u64 {
        self.next() % bound
    }
}

fn program_gen(generator: &mut Generator, size: usize) -> String {
    let plain = [
        "pop", "divine", "nop", "skiz", "return", "recurse", "assert", "halt", "read_mem",
        "write_mem", "hash", "assert_vector", "absorb_init", "absorb", "squeeze", "add", "mul",
        "invert", "eq", "split", "lt", "and", "xor", "log_2_floor", "pow", "div", "pop_count",
        "read_io", "write_io",
    ];
    let mut source = String::new();
    let mut labels = 0;
    for _ in 0..size {
        match generator.below(8) {
            0 => source.push_str(&format!("push {} ", generator.next())),
            1 => source.push_str(&format!("push -{} ", generator.below(1000))),
            2 => source.push_str(&format!("dup {} ", generator.below(16))),
            3 => source.push_str(&format!("swap {} ", 1 + generator.below(15))),
            4 => {
                source.push_str(&format!("label_{labels}: "));
                labels += 1;
                source.push_str(&format!("call label_{} ", generator.below(labels)));
            }
            _ => {
                let name = plain[generator.below(plain.len() as u64) as usize];
                source.push_str(name);
                source.push(' ');
            }
        }
    }
    source
}

#[test]
fn random_program_encode_decode_equivalence() {
    let mut generator = Generator(0x5eed);
    for _ in 0..50 {
        let program_len = 20 + generator.below(400) as usize;
        let source_code = program_gen(&mut generator, program_len);
        let program = Program::from_code(&source_code).unwrap();

        let encoded = program.encode();
        let decoded = *Program::decode(&encoded).unwrap();

        assert_eq!(program, decoded);
    }
}

#[test]
fn decode_program_with_missing_argument_as_last_instruction() {
    let program = Program::from_code("push 3 push 3 eq assert push 3").unwrap();
    let program_length = program.len_bwords() as u64;
    let encoded = program.encode();

    let mut encoded = encoded[0..encoded.len() - 1].to_vec();
    encoded[0] = BFieldElement::new(program_length - 1);

    let err = Program::decode(&encoded).err().unwrap();
    assert_eq!(
        "Missing argument for instruction push 0 at index 6.",
        err.to_string(),
    );
}

#[test]
fn decode_program_with_length_mismatch() {
    let program = Program::from_code("nop nop hash push 0 skiz end: halt call end").unwrap();
    let program_length = program.len_bwords() as u64;
    let mut encoded = program.encode();

    encoded[0] = BFieldElement::new(program_length + 1);

    let err = Program::decode(&encoded).err().unwrap();
    assert_eq!(
        "Sequence to decode must have length 10, but has length 9.",
        err.to_string(),
    );
}

#[test]
fn decode_program_from_empty_sequence() {
    let encoded: Vec<BFieldElement> = vec![];
    let err = Program::decode(&encoded).err().unwrap();
    assert_eq!("Sequence to decode must not be empty.", err.to_string(),);
}

#[test]
fn hash_simple_program() {
    let program = Program::from_code("halt").unwrap();
    let digest = program.hash::<Tip5>();

    let expected_digest = [
        4843866011885844809,
        16618866032559590857,
        18247689143239181392,
        7637465675240023996,
        9104890367162237026,
    ]
    .map(BFieldElement::new);
    let expected_digest = Digest::new(expected_digest);

    assert_eq!(expected_digest, digest);
}

#[test]
fn empty_program_is_empty() {
    let program = Program::from_code("").unwrap();
    assert!(program.is_empty());
}

#[test]
fn program_hash_is_the_hash_of_its_wire_form() {
    let program = Program::from_code("push 7 dup 0 mul write_io halt").unwrap();
    let words: Vec<twenty_first::prelude::BFieldElement> = program
        .to_bwords()
        .iter()
        .map(|word| twenty_first::prelude::BFieldElement::new(word.value()))
        .collect();
    let expected = twenty_first::prelude::Tip5::hash_varlen(&words);
    let found = program.hash::<Tip5>();
    for i in 0..5 {
        assert_eq!(expected.values()[i].value(), found.values()[i].value());
    }
    let other = Program::from_code("push 8 dup 0 mul write_io halt").unwrap();
    assert_ne!(found, other.hash::<Tip5>());
}

#[test]
fn slots_hold_instructions_with_arguments_twice() {
    let program = Program::from_code("push 3 halt call 0_start 0_start: dup 4").unwrap();
    let push = Instruction::Push(bfe(3));
    let call = Instruction::Call(bfe(5));
    let dup = Instruction::Dup(Ord16::ST4);
    assert_eq!(
        vec![push, push, Instruction::Halt, call, call, dup, dup],
        program.instructions
    );
    assert_eq!(7, program.len_bwords());
    assert!(!program.is_empty());
}

#[test]
fn wire_form_leaves_the_copies_out() {
    let program = Program::from_code("push 3 halt swap 2").unwrap();
    assert_eq!(bfes(&[1, 3, 0, 17, 2]), program.to_bwords());
    assert_eq!(bfes(&[5, 1, 3, 0, 17, 2]), program.encode());
}

#[test]
fn encoding_of_the_empty_program_is_its_length() {
    let program = Program::default();
    assert_eq!(bfes(&[0]), program.encode());
    let decoded = Program::decode(&bfes(&[0])).unwrap();
    assert!(decoded.is_empty());
}

#[test]
fn decoding_inverts_encoding() {
    let source = "start: push -1 dup 15 swap 1 call start skiz recurse return halt";
    let program = Program::from_code(source).unwrap();
    let decoded = *Program::decode(&program.encode()).unwrap();
    assert_eq!(program, decoded);
    assert_eq!(program.instructions, decoded.instructions);
}

#[test]
fn decoding_fails_on_a_word_that_is_no_opcode() {
    let err = Program::decode(&bfes(&[2, 0, 3])).err().unwrap();
    assert_eq!(ProgramDecodingError::InvalidOpcode(3, 1), err);
    assert_eq!("Invalid opcode 3 at index 1.", err.to_string());
}

#[test]
fn decoding_fails_on_a_word_too_large_for_an_opcode() {
    let err = Program::decode(&bfes(&[1, 4294967296])).err().unwrap();
    assert_eq!(ProgramDecodingError::InvalidOpcode(4294967296, 0), err);
    assert_eq!("Invalid opcode 4294967296 at index 0.", err.to_string());
}

#[test]
fn decoding_fails_on_an_argument_that_the_instruction_rejects() {
    let err = Program::decode(&bfes(&[3, 16, 17, 0])).err().unwrap();
    assert_eq!(
        ProgramDecodingError::InvalidArgument(Instruction::Swap(Ord16::ST0), 1),
        err
    );
    assert_eq!(
        "Invalid argument for instruction swap 0 at index 1.",
        err.to_string()
    );
    let err = Program::decode(&bfes(&[2, 9, 16])).err().unwrap();
    assert_eq!(
        ProgramDecodingError::InvalidArgument(Instruction::Dup(Ord16::ST0), 0),
        err
    );
}

#[test]
fn decoding_fails_on_a_wrong_length_before_it_reads_a_word() {
    let err = Program::decode(&bfes(&[1, 3, 3])).err().unwrap();
    assert_eq!(ProgramDecodingError::LengthMismatch(1, 2), err);
    assert_eq!(
        "Sequence to decode must have length 1, but has length 2.",
        err.to_string()
    );
}

#[test]
fn decoding_reports_the_first_fault() {
    let err = Program::decode(&bfes(&[4, 3, 0, 17, 0])).err().unwrap();
    assert_eq!(ProgramDecodingError::InvalidOpcode(3, 0), err);
    let err = Program::decode(&bfes(&[3, 0, 3, 1])).err().unwrap();
    assert_eq!(ProgramDecodingError::InvalidOpcode(3, 1), err);
}

#[test]
fn iteration_skips_the_copies() {
    let program = Program::from_code("push 3 halt dup 1 nop").unwrap();
    let mut iter = program.into_iter();
    assert_eq!(Some(Instruction::Push(bfe(3))), iter.next());
    assert_eq!(Some(Instruction::Halt), iter.next());
    assert_eq!(Some(Instruction::Dup(Ord16::ST1)), iter.next());
    assert_eq!(Some(Instruction::Nop), iter.next());
    assert_eq!(None, iter.next());
    assert_eq!(None, iter.next());
}

#[test]
fn iteration_ends_after_an_instruction_whose_copy_is_missing() {
    let program = Program {
        instructions: vec![Instruction::Nop, Instruction::Push(bfe(1))],
    };
    let mut iter = program.clone().into_iter();
    assert_eq!(Some(Instruction::Nop), iter.next());
    assert_eq!(Some(Instruction::Push(bfe(1))), iter.next());
    assert_eq!(None, iter.next());
    assert_eq!(bfes(&[16, 1, 1]), program.to_bwords());
}

#[test]
fn listing_writes_each_instruction_once() {
    let program = Program::from_code("push 3 halt f: call f swap 7 push -2 push 300").unwrap();
    assert_eq!(
        "push 3\nhalt\ncall 3\nswap 7\npush -2\npush 00000000000000000300\n",
        program.to_string()
    );
    assert_eq!("", Program::default().to_string());
}

#[test]
fn new_resolves_labels_to_addresses() {
    let items = vec![
        LabelledInstruction::Call("end".to_string()),
        LabelledInstruction::Instruction(Instruction::Push(bfe(1))),
        LabelledInstruction::Label("end".to_string()),
        LabelledInstruction::Instruction(Instruction::Halt),
    ];
    let program = Program::new(&items);
    let call = Instruction::Call(bfe(4));
    let push = Instruction::Push(bfe(1));
    assert_eq!(
        vec![call, call, push, push, Instruction::Halt],
        program.instructions
    );
}

#[test]
fn clone_and_equality_go_by_the_slots() {
    let program = Program::from_code("push 3 halt").unwrap();
    assert_eq!(program, program.clone());
    assert_ne!(program, Program::from_code("push 4 halt").unwrap());
    assert_ne!(program, Program::from_code("push 3").unwrap());
}

#[test]
fn no_length_is_common_to_all_encodings() {
    assert_eq!(None, Program::static_length());
}
