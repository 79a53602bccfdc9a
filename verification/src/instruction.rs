//! The instruction set: every instruction, its opcode, its size in words and its argument.

use crate::field::BFieldElement;
use crate::text::append_decimal;
use crate::text::append_element;
use crate::text::decimal;
use crate::text::element_text;
use vstd::prelude::*;

verus! {

/// One of the sixteen registers at the top of the operational stack, counted from the top.
#[derive(Clone, Copy, Debug, PartialEq, Eq, Structural)]
pub enum Ord16 {
    ST0,
    ST1,
    ST2,
    ST3,
    ST4,
    ST5,
    ST6,
    ST7,
    ST8,
    ST9,
    ST10,
    ST11,
    ST12,
    ST13,
    ST14,
    ST15,
}

impl Ord16 {
    /// The register's distance from the top of the stack.
    pub open spec fn spec_index(self) -> u64 {
        match self {
            Ord16::ST0 => 0,
            Ord16::ST1 => 1,
            Ord16::ST2 => 2,
            Ord16::ST3 => 3,
            Ord16::ST4 => 4,
            Ord16::ST5 => 5,
            Ord16::ST6 => 6,
            Ord16::ST7 => 7,
            Ord16::ST8 => 8,
            Ord16::ST9 => 9,
            Ord16::ST10 => 10,
            Ord16::ST11 => 11,
            Ord16::ST12 => 12,
            Ord16::ST13 => 13,
            Ord16::ST14 => 14,
            Ord16::ST15 => 15,
        }
    }

    /// The register at a given distance from the top, if there is one.
    pub open spec fn spec_from_index(index: u64) -> Option<Ord16> {
        if index == 0 {
            Some(Ord16::ST0)
        } else if index == 1 {
            Some(Ord16::ST1)
        } else if index == 2 {
            Some(Ord16::ST2)
        } else if index == 3 {
            Some(Ord16::ST3)
        } else if index == 4 {
            Some(Ord16::ST4)
        } else if index == 5 {
            Some(Ord16::ST5)
        } else if index == 6 {
            Some(Ord16::ST6)
        } else if index == 7 {
            Some(Ord16::ST7)
        } else if index == 8 {
            Some(Ord16::ST8)
        } else if index == 9 {
            Some(Ord16::ST9)
        } else if index == 10 {
            Some(Ord16::ST10)
        } else if index == 11 {
            Some(Ord16::ST11)
        } else if index == 12 {
            Some(Ord16::ST12)
        } else if index == 13 {
            Some(Ord16::ST13)
        } else if index == 14 {
            Some(Ord16::ST14)
        } else if index == 15 {
            Some(Ord16::ST15)
        } else {
            None
        }
    }

    #[verifier::when_used_as_spec(spec_index)]
    pub fn index(self) -> (r: u64)
        ensures
            r == self.spec_index(),
            r < 16,
    {
        match self {
            Ord16::ST0 => 0,
            Ord16::ST1 => 1,
            Ord16::ST2 => 2,
            Ord16::ST3 => 3,
            Ord16::ST4 => 4,
            Ord16::ST5 => 5,
            Ord16::ST6 => 6,
            Ord16::ST7 => 7,
            Ord16::ST8 => 8,
            Ord16::ST9 => 9,
            Ord16::ST10 => 10,
            Ord16::ST11 => 11,
            Ord16::ST12 => 12,
            Ord16::ST13 => 13,
            Ord16::ST14 => 14,
            Ord16::ST15 => 15,
        }
    }

    #[verifier::when_used_as_spec(spec_from_index)]
    pub fn from_index(index: u64) -> (r: Option<Ord16>)
        ensures
            r == Ord16::spec_from_index(index),
            r is Some <==> index < 16,
            r matches Some(register) ==> register.spec_index() == index,
    {
        match index {
            0 => Some(Ord16::ST0),
            1 => Some(Ord16::ST1),
            2 => Some(Ord16::ST2),
            3 => Some(Ord16::ST3),
            4 => Some(Ord16::ST4),
            5 => Some(Ord16::ST5),
            6 => Some(Ord16::ST6),
            7 => Some(Ord16::ST7),
            8 => Some(Ord16::ST8),
            9 => Some(Ord16::ST9),
            10 => Some(Ord16::ST10),
            11 => Some(Ord16::ST11),
            12 => Some(Ord16::ST12),
            13 => Some(Ord16::ST13),
            14 => Some(Ord16::ST14),
            15 => Some(Ord16::ST15),
            _ => None,
        }
    }
}

/// An instruction of the machine. An instruction either stands alone and takes one word, or
/// carries one argument and takes two.
#[derive(Clone, Copy, Debug, PartialEq, Eq, Structural)]
pub enum Instruction {
    // operational stack
    Pop,
    Push(BFieldElement),
    Divine,
    Dup(Ord16),
    Swap(Ord16),
    // control flow
    Nop,
    Skiz,
    Call(BFieldElement),
    Return,
    Recurse,
    Assert,
    Halt,
    // memory
    ReadMem,
    WriteMem,
    // hashing
    Hash,
    AssertVector,
    AbsorbInit,
    Absorb,
    Squeeze,
    // field arithmetic
    Add,
    Mul,
    Invert,
    Eq,
    // arithmetic on 32-bit words
    Split,
    Lt,
    And,
    Xor,
    Log2Floor,
    Pow,
    Div,
    PopCount,
    // input and output
    ReadIo,
    WriteIo,
}

impl Instruction {
    /// The instruction's number. It is odd exactly for the instructions that carry an argument.
    pub open spec fn spec_opcode(&self) -> u32 {
        match *self {
            Instruction::Pop => 2,
            Instruction::Push(_) => 1,
            Instruction::Divine => 8,
            Instruction::Dup(_) => 9,
            Instruction::Swap(_) => 17,
            Instruction::Nop => 16,
            Instruction::Skiz => 10,
            Instruction::Call(_) => 25,
            Instruction::Return => 24,
            Instruction::Recurse => 32,
            Instruction::Assert => 18,
            Instruction::Halt => 0,
            Instruction::ReadMem => 40,
            Instruction::WriteMem => 26,
            Instruction::Hash => 48,
            Instruction::AssertVector => 64,
            Instruction::AbsorbInit => 72,
            Instruction::Absorb => 80,
            Instruction::Squeeze => 88,
            Instruction::Add => 34,
            Instruction::Mul => 42,
            Instruction::Invert => 96,
            Instruction::Eq => 50,
            Instruction::Split => 4,
            Instruction::Lt => 12,
            Instruction::And => 20,
            Instruction::Xor => 28,
            Instruction::Log2Floor => 36,
            Instruction::Pow => 44,
            Instruction::Div => 52,
            Instruction::PopCount => 60,
            Instruction::ReadIo => 128,
            Instruction::WriteIo => 66,
        }
    }

    /// The argument that the instruction carries, as a field element.
    pub open spec fn spec_arg(&self) -> Option<BFieldElement> {
        match *self {
            Instruction::Push(element) => Some(element),
            Instruction::Dup(register) => Some(BFieldElement { value: register.spec_index() }),
            Instruction::Swap(register) => Some(BFieldElement { value: register.spec_index() }),
            Instruction::Call(address) => Some(address),
            _ => None,
        }
    }

    pub open spec fn spec_has_arg(&self) -> bool {
        self.spec_arg() is Some
    }

    /// The number of words that the instruction takes: two with an argument, else one.
    pub open spec fn spec_size(&self) -> usize {
        if self.spec_has_arg() {
            2
        } else {
            1
        }
    }

    /// The instruction with its argument replaced, where the instruction carries an argument
    /// and accepts the new one. `dup` accepts the registers 0 to 15, `swap` the registers 1 to
    /// 15, `push` and `call` every field element.
    pub open spec fn spec_change_arg(&self, new_arg: BFieldElement) -> Option<Instruction> {
        match *self {
            Instruction::Push(_) => Some(Instruction::Push(new_arg)),
            Instruction::Dup(_) => match Ord16::spec_from_index(new_arg.value) {
                Some(register) => Some(Instruction::Dup(register)),
                None => None,
            },
            Instruction::Swap(_) => match Ord16::spec_from_index(new_arg.value) {
                Some(register) => if register == Ord16::ST0 {
                    None
                } else {
                    Some(Instruction::Swap(register))
                },
                None => None,
            },
            Instruction::Call(_) => Some(Instruction::Call(new_arg)),
            _ => None,
        }
    }

    /// The instruction with a given opcode, an instruction with an argument carrying zero.
    pub open spec fn spec_from_opcode(opcode: u32) -> Option<Instruction> {
        if opcode == 2 {
            Some(Instruction::Pop)
        } else if opcode == 1 {
            Some(Instruction::Push(BFieldElement { value: 0 }))
        } else if opcode == 8 {
            Some(Instruction::Divine)
        } else if opcode == 9 {
            Some(Instruction::Dup(Ord16::ST0))
        } else if opcode == 17 {
            Some(Instruction::Swap(Ord16::ST0))
        } else if opcode == 16 {
            Some(Instruction::Nop)
        } else if opcode == 10 {
            Some(Instruction::Skiz)
        } else if opcode == 25 {
            Some(Instruction::Call(BFieldElement { value: 0 }))
        } else if opcode == 24 {
            Some(Instruction::Return)
        } else if opcode == 32 {
            Some(Instruction::Recurse)
        } else if opcode == 18 {
            Some(Instruction::Assert)
        } else if opcode == 0 {
            Some(Instruction::Halt)
        } else if opcode == 40 {
            Some(Instruction::ReadMem)
        } else if opcode == 26 {
            Some(Instruction::WriteMem)
        } else if opcode == 48 {
            Some(Instruction::Hash)
        } else if opcode == 64 {
            Some(Instruction::AssertVector)
        } else if opcode == 72 {
            Some(Instruction::AbsorbInit)
        } else if opcode == 80 {
            Some(Instruction::Absorb)
        } else if opcode == 88 {
            Some(Instruction::Squeeze)
        } else if opcode == 34 {
            Some(Instruction::Add)
        } else if opcode == 42 {
            Some(Instruction::Mul)
        } else if opcode == 96 {
            Some(Instruction::Invert)
        } else if opcode == 50 {
            Some(Instruction::Eq)
        } else if opcode == 4 {
            Some(Instruction::Split)
        } else if opcode == 12 {
            Some(Instruction::Lt)
        } else if opcode == 20 {
            Some(Instruction::And)
        } else if opcode == 28 {
            Some(Instruction::Xor)
        } else if opcode == 36 {
            Some(Instruction::Log2Floor)
        } else if opcode == 44 {
            Some(Instruction::Pow)
        } else if opcode == 52 {
            Some(Instruction::Div)
        } else if opcode == 60 {
            Some(Instruction::PopCount)
        } else if opcode == 128 {
            Some(Instruction::ReadIo)
        } else if opcode == 66 {
            Some(Instruction::WriteIo)
        } else {
            None
        }
    }

    /// Whether the instruction's argument is one that its encoding can carry: every
    /// instruction but a `swap` of the top register with itself.
    pub open spec fn is_encodable(self) -> bool {
        self != Instruction::Swap(Ord16::ST0)
    }

    #[verifier::when_used_as_spec(spec_opcode)]
    pub fn opcode(&self) -> (r: u32)
        ensures
            r == self.spec_opcode(),
            r <= 128,
            r % 2 == 1 <==> self.spec_has_arg(),
    {
        match self {
            Instruction::Pop => 2,
            Instruction::Push(_) => 1,
            Instruction::Divine => 8,
            Instruction::Dup(_) => 9,
            Instruction::Swap(_) => 17,
            Instruction::Nop => 16,
            Instruction::Skiz => 10,
            Instruction::Call(_) => 25,
            Instruction::Return => 24,
            Instruction::Recurse => 32,
            Instruction::Assert => 18,
            Instruction::Halt => 0,
            Instruction::ReadMem => 40,
            Instruction::WriteMem => 26,
            Instruction::Hash => 48,
            Instruction::AssertVector => 64,
            Instruction::AbsorbInit => 72,
            Instruction::Absorb => 80,
            Instruction::Squeeze => 88,
            Instruction::Add => 34,
            Instruction::Mul => 42,
            Instruction::Invert => 96,
            Instruction::Eq => 50,
            Instruction::Split => 4,
            Instruction::Lt => 12,
            Instruction::And => 20,
            Instruction::Xor => 28,
            Instruction::Log2Floor => 36,
            Instruction::Pow => 44,
            Instruction::Div => 52,
            Instruction::PopCount => 60,
            Instruction::ReadIo => 128,
            Instruction::WriteIo => 66,
        }
    }

    /// The opcode as a field element.
    pub fn opcode_b(&self) -> (r: BFieldElement)
        ensures
            r.value == self.spec_opcode(),
    {
        let opcode: u32 = self.opcode();
        BFieldElement::new(opcode as u64)
    }

    #[verifier::when_used_as_spec(spec_arg)]
    pub fn arg(&self) -> (r: Option<BFieldElement>)
        ensures
            r == self.spec_arg(),
    {
        match self {
            Instruction::Push(element) => Some(*element),
            Instruction::Dup(register) => Some(BFieldElement::new(register.index())),
            Instruction::Swap(register) => Some(BFieldElement::new(register.index())),
            Instruction::Call(address) => Some(*address),
            _ => None,
        }
    }

    #[verifier::when_used_as_spec(spec_has_arg)]
    pub fn has_arg(&self) -> (r: bool)
        ensures
            r == self.spec_has_arg(),
    {
        match self {
            Instruction::Push(_) | Instruction::Dup(_) | Instruction::Swap(_) | Instruction::Call(
                _,
            ) => true,
            _ => false,
        }
    }

    #[verifier::when_used_as_spec(spec_size)]
    pub fn size(&self) -> (r: usize)
        ensures
            r == self.spec_size(),
            r == 1 || r == 2,
            r == 2 <==> self.spec_has_arg(),
    {
        if self.has_arg() {
            2
        } else {
            1
        }
    }

    #[verifier::when_used_as_spec(spec_change_arg)]
    pub fn change_arg(&self, new_arg: BFieldElement) -> (r: Option<Instruction>)
        ensures
            r == self.spec_change_arg(new_arg),
            r matches Some(changed) ==> changed.spec_opcode() == self.spec_opcode()
                && changed.spec_arg() == Some(new_arg) && changed.is_encodable(),
            !self.spec_has_arg() ==> r is None,
    {
        match self {
            Instruction::Push(_) => Some(Instruction::Push(new_arg)),
            Instruction::Dup(_) => match Ord16::from_index(new_arg.value()) {
                Some(register) => Some(Instruction::Dup(register)),
                None => None,
            },
            Instruction::Swap(_) => match Ord16::from_index(new_arg.value()) {
                Some(register) => if register == Ord16::ST0 {
                    None
                } else {
                    Some(Instruction::Swap(register))
                },
                None => None,
            },
            Instruction::Call(_) => Some(Instruction::Call(new_arg)),
            _ => None,
        }
    }

    #[verifier::when_used_as_spec(spec_from_opcode)]
    pub fn from_opcode(opcode: u32) -> (r: Option<Instruction>)
        ensures
            r == Instruction::spec_from_opcode(opcode),
            r matches Some(instruction) ==> instruction.spec_opcode() == opcode,
    {
        match opcode {
            2 => Some(Instruction::Pop),
            1 => Some(Instruction::Push(BFieldElement::zero())),
            8 => Some(Instruction::Divine),
            9 => Some(Instruction::Dup(Ord16::ST0)),
            17 => Some(Instruction::Swap(Ord16::ST0)),
            16 => Some(Instruction::Nop),
            10 => Some(Instruction::Skiz),
            25 => Some(Instruction::Call(BFieldElement::zero())),
            24 => Some(Instruction::Return),
            32 => Some(Instruction::Recurse),
            18 => Some(Instruction::Assert),
            0 => Some(Instruction::Halt),
            40 => Some(Instruction::ReadMem),
            26 => Some(Instruction::WriteMem),
            48 => Some(Instruction::Hash),
            64 => Some(Instruction::AssertVector),
            72 => Some(Instruction::AbsorbInit),
            80 => Some(Instruction::Absorb),
            88 => Some(Instruction::Squeeze),
            34 => Some(Instruction::Add),
            42 => Some(Instruction::Mul),
            96 => Some(Instruction::Invert),
            50 => Some(Instruction::Eq),
            4 => Some(Instruction::Split),
            12 => Some(Instruction::Lt),
            20 => Some(Instruction::And),
            28 => Some(Instruction::Xor),
            36 => Some(Instruction::Log2Floor),
            44 => Some(Instruction::Pow),
            52 => Some(Instruction::Div),
            60 => Some(Instruction::PopCount),
            128 => Some(Instruction::ReadIo),
            66 => Some(Instruction::WriteIo),
            _ => None,
        }
    }
}

/// An instruction's opcode names the instruction again, and an encodable instruction's
/// argument, put into the instruction that its opcode names, gives the instruction back.
pub proof fn lemma_opcode_names_instruction(instruction: Instruction)
    ensures
        match Instruction::spec_from_opcode(instruction.spec_opcode()) {
            Some(named) => named.spec_opcode() == instruction.spec_opcode()
                && named.spec_has_arg() == instruction.spec_has_arg() && match instruction.spec_arg() {
                Some(argument) => instruction.is_encodable() ==> named.spec_change_arg(argument)
                    == Some(instruction),
                None => named == instruction,
            },
            None => false,
        },
{
}

/// The name by which an instruction is written.
pub open spec fn instruction_name(instruction: Instruction) -> Seq<char> {
    match instruction {
        Instruction::Pop => "pop"@,
        Instruction::Push(_) => "push"@,
        Instruction::Divine => "divine"@,
        Instruction::Dup(_) => "dup"@,
        Instruction::Swap(_) => "swap"@,
        Instruction::Nop => "nop"@,
        Instruction::Skiz => "skiz"@,
        Instruction::Call(_) => "call"@,
        Instruction::Return => "return"@,
        Instruction::Recurse => "recurse"@,
        Instruction::Assert => "assert"@,
        Instruction::Halt => "halt"@,
        Instruction::ReadMem => "read_mem"@,
        Instruction::WriteMem => "write_mem"@,
        Instruction::Hash => "hash"@,
        Instruction::AssertVector => "assert_vector"@,
        Instruction::AbsorbInit => "absorb_init"@,
        Instruction::Absorb => "absorb"@,
        Instruction::Squeeze => "squeeze"@,
        Instruction::Add => "add"@,
        Instruction::Mul => "mul"@,
        Instruction::Invert => "invert"@,
        Instruction::Eq => "eq"@,
        Instruction::Split => "split"@,
        Instruction::Lt => "lt"@,
        Instruction::And => "and"@,
        Instruction::Xor => "xor"@,
        Instruction::Log2Floor => "log_2_floor"@,
        Instruction::Pow => "pow"@,
        Instruction::Div => "div"@,
        Instruction::PopCount => "pop_count"@,
        Instruction::ReadIo => "read_io"@,
        Instruction::WriteIo => "write_io"@,
    }
}

/// An instruction as it is written: its name and, after a blank, its argument if it has one.
pub open spec fn instruction_text(instruction: Instruction) -> Seq<char> {
    match instruction {
        Instruction::Push(element) => instruction_name(instruction) + seq![' '] + element_text(
            element,
        ),
        Instruction::Call(address) => instruction_name(instruction) + seq![' '] + element_text(
            address,
        ),
        Instruction::Dup(register) => instruction_name(instruction) + seq![' '] + decimal(
            register.spec_index() as nat,
        ),
        Instruction::Swap(register) => instruction_name(instruction) + seq![' '] + decimal(
            register.spec_index() as nat,
        ),
        _ => instruction_name(instruction),
    }
}

impl Instruction {
    /// The name by which the instruction is written.
    pub fn name(&self) -> (r: &'static str)
        ensures
            r@ == instruction_name(*self),
    {
        match self {
            Instruction::Pop => "pop",
            Instruction::Push(_) => "push",
            Instruction::Divine => "divine",
            Instruction::Dup(_) => "dup",
            Instruction::Swap(_) => "swap",
            Instruction::Nop => "nop",
            Instruction::Skiz => "skiz",
            Instruction::Call(_) => "call",
            Instruction::Return => "return",
            Instruction::Recurse => "recurse",
            Instruction::Assert => "assert",
            Instruction::Halt => "halt",
            Instruction::ReadMem => "read_mem",
            Instruction::WriteMem => "write_mem",
            Instruction::Hash => "hash",
            Instruction::AssertVector => "assert_vector",
            Instruction::AbsorbInit => "absorb_init",
            Instruction::Absorb => "absorb",
            Instruction::Squeeze => "squeeze",
            Instruction::Add => "add",
            Instruction::Mul => "mul",
            Instruction::Invert => "invert",
            Instruction::Eq => "eq",
            Instruction::Split => "split",
            Instruction::Lt => "lt",
            Instruction::And => "and",
            Instruction::Xor => "xor",
            Instruction::Log2Floor => "log_2_floor",
            Instruction::Pow => "pow",
            Instruction::Div => "div",
            Instruction::PopCount => "pop_count",
            Instruction::ReadIo => "read_io",
            Instruction::WriteIo => "write_io",
        }
    }

    /// Appends the instruction as it is written.
    pub fn append_to(&self, text: &mut String)
        ensures
            final(text)@ == old(text)@ + instruction_text(*self),
    {
        text.append(self.name());
        proof {
            reveal_strlit(" ");
        }
        match self {
            Instruction::Push(element) => {
                text.append(" ");
                append_element(text, *element);
            },
            Instruction::Call(address) => {
                text.append(" ");
                append_element(text, *address);
            },
            Instruction::Dup(register) => {
                text.append(" ");
                append_decimal(text, register.index());
            },
            Instruction::Swap(register) => {
                text.append(" ");
                append_decimal(text, register.index());
            },
            _ => {},
        }
        assert(text@ =~= old(text)@ + instruction_text(*self));
    }

    /// The instruction as it is written.
    pub fn to_string(&self) -> (r: String)
        ensures
            r@ == instruction_text(*self),
    {
        let mut text = String::new();
        self.append_to(&mut text);
        assert(text@ =~= instruction_text(*self));
        text
    }
}

} // verus!
