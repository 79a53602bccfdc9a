//! Instructions as they are written down: with labels in place of addresses.

use crate::codec::all_encodable;
use crate::codec::logical_instructions;
use crate::codec::rest_after_first;
use crate::codec::slots_well_formed;
use crate::field::BFieldElement;
use crate::field::P;
use crate::field::field_element;
use crate::instruction::Instruction;
use vstd::prelude::*;

verus! {

/// An item of a program as it is written down.
#[derive(Clone, Debug, PartialEq, Eq)]
pub enum LabelledInstruction {
    /// An instruction as it stands.
    Instruction(Instruction),
    /// A `call` of whatever follows the label of the given name.
    Call(String),
    /// A label: a name for the address of whatever follows it.
    Label(String),
}

/// An item of a program as it is written down, as mathematics.
pub enum Item {
    /// An instruction as it stands.
    Instruction(Instruction),
    /// A `call` of whatever follows the label of the given name.
    Call(Seq<char>),
    /// A label: a name for the address of whatever follows it.
    Label(Seq<char>),
}

impl View for LabelledInstruction {
    type V = Item;

    open spec fn view(&self) -> Item {
        match *self {
            LabelledInstruction::Instruction(instruction) => Item::Instruction(instruction),
            LabelledInstruction::Call(name) => Item::Call(name@),
            LabelledInstruction::Label(name) => Item::Label(name@),
        }
    }
}

/// The items that a list holds, as mathematics.
pub open spec fn item_views(items: Seq<LabelledInstruction>) -> Seq<Item> {
    items.map_values(|item: LabelledInstruction| item@)
}

/// The number of slots that an item fills.
pub open spec fn item_size(item: Item) -> nat {
    match item {
        Item::Instruction(instruction) => instruction.spec_size() as nat,
        Item::Call(_) => 2,
        Item::Label(_) => 0,
    }
}

/// The address of the first label of a given name among the items from `from` on, where
/// `address` is the address of the item at `from`.
pub open spec fn label_address_from(
    items: Seq<Item>,
    name: Seq<char>,
    from: int,
    address: nat,
) -> Option<nat>
    decreases items.len() - from,
{
    if from < 0 || from >= items.len() {
        None
    } else {
        match items[from] {
            Item::Label(label) => if label == name {
                Some(address)
            } else {
                label_address_from(items, name, from + 1, address)
            },
            item => label_address_from(items, name, from + 1, address + item_size(item)),
        }
    }
}

/// The address that a label names: the number of slots that the items before the first label
/// of that name fill.
pub open spec fn label_address(items: Seq<Item>, name: Seq<char>) -> Option<nat> {
    label_address_from(items, name, 0, 0)
}

/// Whether every call names a label that is there.
pub open spec fn calls_resolve(items: Seq<Item>) -> bool {
    forall|k: int|
        0 <= k < items.len() ==> (#[trigger] items[k] matches Item::Call(name)
            ==> label_address(items, name) is Some)
}

/// The instruction that an item stands for, if it is not a label. A call of a label that is
/// not there is a call of address zero.
pub open spec fn resolved_item(items: Seq<Item>, item: Item) -> Option<
    Instruction,
> {
    match item {
        Item::Instruction(instruction) => Some(instruction),
        Item::Call(name) => Some(
            Instruction::Call(
                match label_address(items, name) {
                    Some(address) => field_element(address as int),
                    None => BFieldElement { value: 0 },
                },
            ),
        ),
        Item::Label(_) => None,
    }
}

/// The instructions that the items from `from` on stand for.
pub open spec fn resolved_from(items: Seq<Item>, from: int) -> Seq<Instruction>
    decreases items.len() - from,
{
    if from < 0 || from >= items.len() {
        Seq::empty()
    } else {
        match resolved_item(items, items[from]) {
            Some(instruction) => seq![instruction] + resolved_from(items, from + 1),
            None => resolved_from(items, from + 1),
        }
    }
}

/// The instructions that the items stand for, the labels replaced by addresses.
pub open spec fn resolved_instructions(items: Seq<Item>) -> Seq<Instruction> {
    resolved_from(items, 0)
}

/// The slots that instructions fill: one for an instruction without argument, two that hold
/// the same for an instruction with one.
pub open spec fn expanded(instructions: Seq<Instruction>) -> Seq<Instruction>
    decreases instructions.len(),
{
    if instructions.len() == 0 {
        Seq::empty()
    } else if instructions[0].spec_has_arg() {
        seq![instructions[0], instructions[0]] + expanded(instructions.skip(1))
    } else {
        seq![instructions[0]] + expanded(instructions.skip(1))
    }
}

/// The slots that instructions fill are whole instructions, and walking them gives the
/// instructions back, each once. The slots hold the instructions' arguments and no other.
pub proof fn lemma_expanded_well_formed(instructions: Seq<Instruction>)
    ensures
        slots_well_formed(expanded(instructions)),
        logical_instructions(expanded(instructions)) == instructions,
        all_encodable(instructions) ==> all_encodable(expanded(instructions)),
    decreases instructions.len(),
{
    let slots = expanded(instructions);
    if instructions.len() == 0 {
        assert(logical_instructions(slots) =~= instructions);
    } else {
        let first = instructions[0];
        let rest = expanded(instructions.skip(1));
        lemma_expanded_well_formed(instructions.skip(1));
        if first.spec_has_arg() {
            assert(slots.skip(2) =~= rest);
        } else {
            assert(slots.skip(1) =~= rest);
        }
        assert(rest_after_first(slots) =~= rest);
        assert(seq![first] + instructions.skip(1) =~= instructions);
        if all_encodable(instructions) {
            assert forall|i: int| 0 <= i < instructions.skip(1).len() implies (
            #[trigger] instructions.skip(1)[i]).is_encodable() by {
                assert(instructions.skip(1)[i] == instructions[i + 1]);
            }
            assert(first.is_encodable());
        }
    }
}

/// The address that a label names, if the label is there.
pub fn address_of_label(items: &[LabelledInstruction], name: &String) -> (r: Option<u128>)
    ensures
        match label_address(item_views(items@), name@) {
            Some(address) => r == Some(address as u128) && address <= 2 * items@.len(),
            None => r is None,
        },
{
    let mut address: u128 = 0;
    let mut k: usize = 0;
    while k < items.len()
        invariant
            k <= items@.len(),
            address <= 2 * k,
            label_address(item_views(items@), name@) == label_address_from(
                item_views(items@),
                name@,
                k as int,
                address as nat,
            ),
        decreases items@.len() - k,
    {
        match &items[k] {
            LabelledInstruction::Label(label) => {
                if *label == *name {
                    return Some(address);
                }
            },
            LabelledInstruction::Call(_) => {
                address = address + 2;
            },
            LabelledInstruction::Instruction(instruction) => {
                address = address + instruction.size() as u128;
            },
        }
        k += 1;
    }
    None
}

/// Whether every call names a label that is there.
pub fn calls_are_resolved(items: &[LabelledInstruction]) -> (r: bool)
    ensures
        r == calls_resolve(item_views(items@)),
{
    let mut k: usize = 0;
    while k < items.len()
        invariant
            k <= items@.len(),
            forall|j: int|
                0 <= j < k ==> (#[trigger] item_views(items@)[j] matches Item::Call(name)
                    ==> label_address(item_views(items@), name) is Some),
        decreases items@.len() - k,
    {
        assert(item_views(items@)[k as int] == items@[k as int]@);
        if let LabelledInstruction::Call(name) = &items[k] {
            if address_of_label(items, name).is_none() {
                return false;
            }
        }
        k += 1;
    }
    true
}

/// The instructions that the items stand for: the labels are left out, and each call of a
/// label becomes a call of the address that the label names.
pub fn convert_labels(items: &[LabelledInstruction]) -> (r: Vec<Instruction>)
    requires
        calls_resolve(item_views(items@)),
    ensures
        r@ == resolved_instructions(item_views(items@)),
{
    let mut instructions: Vec<Instruction> = Vec::new();
    let mut k: usize = 0;
    while k < items.len()
        invariant
            k <= items@.len(),
            calls_resolve(item_views(items@)),
            resolved_instructions(item_views(items@)) == instructions@ + resolved_from(
                item_views(items@),
                k as int,
            ),
        decreases items@.len() - k,
    {
        let ghost before = instructions@;
        let ghost rest = resolved_from(item_views(items@), k + 1);
        assert(item_views(items@)[k as int] == items@[k as int]@);
        match &items[k] {
            LabelledInstruction::Label(_) => {},
            LabelledInstruction::Call(name) => {
                let address: u128 = match address_of_label(items, name) {
                    Some(address) => address,
                    None => 0,
                };
                let residue: u64 = (address % (P as u128)) as u64;
                let call = Instruction::Call(BFieldElement { value: residue });
                instructions.push(call);
                assert(before + (seq![call] + rest) =~= instructions@ + rest);
            },
            LabelledInstruction::Instruction(instruction) => {
                instructions.push(*instruction);
                assert(before + (seq![*instruction] + rest) =~= instructions@ + rest);
            },
        }
        k += 1;
    }
    assert(instructions@ + Seq::<Instruction>::empty() =~= instructions@);
    instructions
}

/// The slots that instructions fill.
pub fn expand(instructions: &Vec<Instruction>) -> (r: Vec<Instruction>)
    ensures
        r@ == expanded(instructions@),
{
    let mut slots: Vec<Instruction> = Vec::new();
    let mut k: usize = 0;
    assert(instructions@.skip(0) =~= instructions@);
    while k < instructions.len()
        invariant
            k <= instructions@.len(),
            expanded(instructions@) == slots@ + expanded(instructions@.skip(k as int)),
        decreases instructions@.len() - k,
    {
        let ghost before = slots@;
        let ghost rest = expanded(instructions@.skip(k + 1));
        let instruction = instructions[k];
        assert(instructions@.skip(k as int).skip(1) =~= instructions@.skip(k + 1));
        slots.push(instruction);
        if instruction.has_arg() {
            slots.push(instruction);
            assert(before + (seq![instruction, instruction] + rest) =~= slots@ + rest);
        } else {
            assert(before + (seq![instruction] + rest) =~= slots@ + rest);
        }
        k += 1;
    }
    assert(slots@ + Seq::<Instruction>::empty() =~= slots@);
    slots
}

} // verus!
