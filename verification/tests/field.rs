use triton_vm::field::BFieldElement;
use triton_vm::field::P;
use triton_vm::instruction::Instruction;
use triton_vm::instruction::Ord16;
use triton_vm::word::word_bit_count;
use triton_vm::word::word_log_2_floor;

#[test]
fn modulus_is_the_prime_of_the_field() {
    assert_eq!(18446744069414584321, P);
}

#[test]
fn new_reduces_its_argument() {
    assert_eq!(0, BFieldElement::new(P).value());
    assert_eq!(5, BFieldElement::new(P + 5).value());
    assert_eq!(P - 1, BFieldElement::new(P - 1).value());
    assert_eq!(4294967294, BFieldElement::new(u64::MAX).value());
    assert_eq!(0, BFieldElement::zero().value());
    assert_eq!(1, BFieldElement::one().value());
    assert!(BFieldElement::zero().is_zero());
    assert!(!BFieldElement::one().is_zero());
}

#[test]
fn sums_and_differences_wrap_around_the_modulus() {
    let largest = BFieldElement::new(P - 1);
    let two = BFieldElement::new(2);
    assert_eq!(BFieldElement::new(1), largest.plus(two));
    assert_eq!(largest, BFieldElement::zero().minus(BFieldElement::one()));
    assert_eq!(BFieldElement::new(5), BFieldElement::new(7).minus(two));
    assert_eq!(BFieldElement::new(P - 3), two.minus(BFieldElement::new(5)));
}

#[test]
fn products_are_reduced() {
    let largest = BFieldElement::new(P - 1);
    assert_eq!(BFieldElement::one(), largest.times(largest));
    assert_eq!(
        BFieldElement::new(4294967295),
        BFieldElement::new(1 << 32).times(BFieldElement::new(1 << 32))
    );
    assert_eq!(BFieldElement::new(42), BFieldElement::new(6).times(BFieldElement::new(7)));
}

#[test]
fn inverse_multiplies_to_one() {
    let two = BFieldElement::new(2);
    let half = two.inverse().unwrap();
    assert_eq!(BFieldElement::new(9223372034707292161), half);
    assert_eq!(BFieldElement::one(), two.times(half));
    let some = BFieldElement::new(123456789);
    assert_eq!(BFieldElement::one(), some.times(some.inverse().unwrap()));
    assert_eq!(Some(BFieldElement::one()), BFieldElement::one().inverse());
}

#[test]
fn zero_has_no_inverse() {
    assert_eq!(None, BFieldElement::zero().inverse());
    assert_eq!(None, BFieldElement::new(P).inverse());
}

#[test]
fn power_multiplies_repeatedly() {
    let two = BFieldElement::new(2);
    assert_eq!(BFieldElement::one(), two.power(0));
    assert_eq!(BFieldElement::new(1024), two.power(10));
    assert_eq!(BFieldElement::new(4294967295), two.power(64));
    assert_eq!(BFieldElement::new(243), BFieldElement::new(3).power(5));
    assert_eq!(BFieldElement::one(), BFieldElement::zero().power(0));
    assert_eq!(BFieldElement::zero(), BFieldElement::zero().power(3));
}

#[test]
fn logarithm_is_the_position_of_the_highest_bit() {
    assert_eq!(0, word_log_2_floor(1));
    assert_eq!(1, word_log_2_floor(2));
    assert_eq!(1, word_log_2_floor(3));
    assert_eq!(10, word_log_2_floor(1024));
    assert_eq!(31, word_log_2_floor(u32::MAX));
}

#[test]
fn bit_count_counts_the_bits_that_are_set() {
    assert_eq!(0, word_bit_count(0));
    assert_eq!(3, word_bit_count(0b1011));
    assert_eq!(1, word_bit_count(1 << 31));
    assert_eq!(32, word_bit_count(u32::MAX));
}

#[test]
fn registers_are_counted_from_the_top() {
    assert_eq!(0, Ord16::ST0.index());
    assert_eq!(15, Ord16::ST15.index());
    assert_eq!(Some(Ord16::ST7), Ord16::from_index(7));
    assert_eq!(None, Ord16::from_index(16));
}

#[test]
fn opcode_is_odd_for_instructions_with_an_argument() {
    let with_argument = [
        Instruction::Push(BFieldElement::new(9)),
        Instruction::Dup(Ord16::ST3),
        Instruction::Swap(Ord16::ST3),
        Instruction::Call(BFieldElement::new(9)),
    ];
    for instruction in with_argument {
        assert_eq!(1, instruction.opcode() % 2);
        assert_eq!(2, instruction.size());
        assert!(instruction.has_arg());
        assert!(instruction.arg().is_some());
    }
    for instruction in [Instruction::Halt, Instruction::Hash, Instruction::ReadIo] {
        assert_eq!(0, instruction.opcode() % 2);
        assert_eq!(1, instruction.size());
        assert!(!instruction.has_arg());
        assert_eq!(None, instruction.arg());
    }
    assert_eq!(0, Instruction::Halt.opcode());
    assert_eq!(BFieldElement::new(25), Instruction::Call(BFieldElement::new(9)).opcode_b());
}

#[test]
fn opcode_names_the_instruction_again() {
    for opcode in 0..200 {
        if let Some(instruction) = Instruction::from_opcode(opcode) {
            assert_eq!(opcode, instruction.opcode());
        }
    }
    assert_eq!(Some(Instruction::Halt), Instruction::from_opcode(0));
    assert_eq!(
        Some(Instruction::Push(BFieldElement::zero())),
        Instruction::from_opcode(1)
    );
    assert_eq!(None, Instruction::from_opcode(3));
    assert_eq!(None, Instruction::from_opcode(56));
}

#[test]
fn change_arg_replaces_the_argument_where_the_instruction_takes_it() {
    let seven = BFieldElement::new(7);
    assert_eq!(
        Some(Instruction::Push(seven)),
        Instruction::Push(BFieldElement::zero()).change_arg(seven)
    );
    assert_eq!(
        Some(Instruction::Call(seven)),
        Instruction::Call(BFieldElement::zero()).change_arg(seven)
    );
    assert_eq!(
        Some(Instruction::Dup(Ord16::ST7)),
        Instruction::Dup(Ord16::ST0).change_arg(seven)
    );
    assert_eq!(
        Some(Instruction::Dup(Ord16::ST0)),
        Instruction::Dup(Ord16::ST3).change_arg(BFieldElement::zero())
    );
    assert_eq!(
        Some(Instruction::Swap(Ord16::ST7)),
        Instruction::Swap(Ord16::ST1).change_arg(seven)
    );
    assert_eq!(None, Instruction::Swap(Ord16::ST1).change_arg(BFieldElement::zero()));
    assert_eq!(None, Instruction::Dup(Ord16::ST1).change_arg(BFieldElement::new(16)));
    assert_eq!(None, Instruction::Halt.change_arg(seven));
}

#[test]
fn instructions_are_written_with_their_arguments() {
    assert_eq!("halt", Instruction::Halt.to_string());
    assert_eq!("log_2_floor", Instruction::Log2Floor.to_string());
    assert_eq!("push 0", Instruction::Push(BFieldElement::new(0)).to_string());
    assert_eq!("push 256", Instruction::Push(BFieldElement::new(256)).to_string());
    assert_eq!(
        "push 00000000000000000257",
        Instruction::Push(BFieldElement::new(257)).to_string()
    );
    assert_eq!("push -1", Instruction::Push(BFieldElement::new(P - 1)).to_string());
    assert_eq!("push -256", Instruction::Push(BFieldElement::new(P - 256)).to_string());
    assert_eq!(
        "push 18446744069414584064",
        Instruction::Push(BFieldElement::new(P - 257)).to_string()
    );
    assert_eq!("dup 15", Instruction::Dup(Ord16::ST15).to_string());
    assert_eq!("swap 10", Instruction::Swap(Ord16::ST10).to_string());
    assert_eq!("call 5", Instruction::Call(BFieldElement::new(5)).to_string());
}
