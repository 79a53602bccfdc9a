//! Hashing with Tip5, the hash function that the crate twenty-first implements.
//!
//! The permutation at the heart of Tip5 is not restated here. It is named, and everything
//! built on it is stated over that name.

use crate::field::BFieldElement;
use crate::field::field_element;
use vstd::prelude::*;

verus! {

/// The number of elements in the state of the Tip5 sponge.
pub const STATE_SIZE: usize = 16;

/// The number of elements that the sponge takes in or gives out at once.
pub const RATE: usize = 10;

/// The number of elements in a digest.
pub const DIGEST_LENGTH: usize = 5;

/// The state that the Tip5 permutation makes of a state, both as the residues of their
/// sixteen elements.
pub uninterp spec fn tip5_permutation(state: Seq<u64>) -> Seq<u64>;

/// The digest of a sequence of any length, both as the residues of their elements.
pub uninterp spec fn tip5_varlen_digest(input: Seq<u64>) -> Seq<u64>;

/// The residues of a sequence of elements.
pub open spec fn values_of(elements: Seq<BFieldElement>) -> Seq<u64> {
    elements.map_values(|element: BFieldElement| element.value)
}

/// The elements that a sequence of residues stands for.
pub open spec fn elements_of(values: Seq<u64>) -> Seq<BFieldElement> {
    values.map_values(|value: u64| field_element(value as int))
}

/// The state that the Tip5 permutation makes of a state.
pub open spec fn permutation_of(state: Seq<BFieldElement>) -> Seq<BFieldElement> {
    elements_of(tip5_permutation(values_of(state)))
}

/// Calls `Tip5::permutation` of the crate twenty-first on a sponge whose state is made of the
/// given residues, and reads the state back. The contract names the result; the array types
/// say that sixteen residues go in and sixteen come out.
#[verifier::external_body]
fn tip5_permute(state: &[u64; 16]) -> (r: [u64; 16])
    ensures
        r@ == tip5_permutation(state@),
{
    let mut sponge = twenty_first::tip5::Tip5 {
        state: state.map(twenty_first::math::b_field_element::BFieldElement::new),
    };
    sponge.permutation();
    sponge.state.map(|element| element.value())
}

/// Calls `Tip5::hash_varlen` of the crate twenty-first on the elements that the given residues
/// stand for, and reads the digest back. The contract names the result; the array type says
/// that five residues come out.
#[verifier::external_body]
fn tip5_hash_varlen(input: &Vec<u64>) -> (r: [u64; 5])
    ensures
        r@ == tip5_varlen_digest(input@),
{
    let elements: Vec<twenty_first::math::b_field_element::BFieldElement> =
        input.iter().map(|value| twenty_first::math::b_field_element::BFieldElement::new(*value)).collect();
    twenty_first::tip5::Tip5::hash_varlen(&elements).values().map(|element| element.value())
}

/// The residues of elements.
pub fn values(elements: &[BFieldElement]) -> (r: Vec<u64>)
    ensures
        r@ == values_of(elements@),
{
    let mut residues: Vec<u64> = Vec::new();
    let mut i: usize = 0;
    while i < elements.len()
        invariant
            i <= elements@.len(),
            residues@ == values_of(elements@.take(i as int)),
        decreases elements@.len() - i,
    {
        residues.push(elements[i].value());
        assert(values_of(elements@.take(i + 1)) =~= values_of(elements@.take(i as int)).push(
            elements@[i as int].value,
        ));
        i += 1;
    }
    assert(elements@.take(i as int) =~= elements@);
    residues
}

/// The state that the Tip5 permutation makes of a state.
pub fn permuted(state: &[BFieldElement; 16]) -> (r: [BFieldElement; 16])
    ensures
        r@ == permutation_of(state@),
{
    let mut residues: [u64; 16] = [0u64;16];
    let mut i: usize = 0;
    while i < 16
        invariant
            i <= 16,
            forall|k: int| 0 <= k < i ==> residues@[k] == state@[k].value,
        decreases 16 - i,
    {
        residues[i] = state[i].value();
        i += 1;
    }
    assert(residues@ =~= values_of(state@));
    let raw = tip5_permute(&residues);
    state_of_residues(&raw)
}

/// The state that sixteen residues stand for.
pub fn state_of_residues(residues: &[u64; 16]) -> (r: [BFieldElement; 16])
    ensures
        r@ == elements_of(residues@),
{
    let mut state: [BFieldElement; 16] = [BFieldElement { value: 0 };16];
    let mut i: usize = 0;
    while i < 16
        invariant
            i <= 16,
            forall|k: int| 0 <= k < i ==> state@[k] == field_element(residues@[k] as int),
        decreases 16 - i,
    {
        state[i] = BFieldElement::new(residues[i]);
        i += 1;
    }
    assert(state@ =~= elements_of(residues@));
    state
}

/// What hashing gives: five field elements.
#[derive(Clone, Copy, Debug, PartialEq, Eq)]
pub struct Digest {
    pub values: [BFieldElement; 5],
}

impl View for Digest {
    type V = Seq<BFieldElement>;

    open spec fn view(&self) -> Seq<BFieldElement> {
        self.values@
    }
}

impl Digest {
    pub fn new(values: [BFieldElement; 5]) -> (r: Self)
        ensures
            r@ == values@,
    {
        Digest { values }
    }

    pub fn values(self) -> (r: [BFieldElement; 5])
        ensures
            r@ == self@,
    {
        self.values
    }

    /// The digest that five residues stand for.
    pub fn of_residues(residues: &[u64; 5]) -> (r: Self)
        ensures
            r@ == elements_of(residues@),
    {
        let mut values: [BFieldElement; 5] = [BFieldElement { value: 0 };5];
        let mut i: usize = 0;
        while i < 5
            invariant
                i <= 5,
                forall|k: int| 0 <= k < i ==> values@[k] == field_element(residues@[k] as int),
            decreases 5 - i,
        {
            values[i] = BFieldElement::new(residues[i]);
            i += 1;
        }
        assert(values@ =~= elements_of(residues@));
        Digest { values }
    }
}

/// A way to hash a sequence of field elements of any length to a digest.
pub trait AlgebraicHasher {
    /// The elements of the digest of a sequence.
    spec fn digest_of(input: Seq<BFieldElement>) -> Seq<BFieldElement>;

    /// The digest of a sequence.
    fn hash_varlen(input: &[BFieldElement]) -> (r: Digest)
        ensures
            r@ == Self::digest_of(input@),
    ;
}

/// The hash function Tip5.
#[derive(Clone, Copy, Debug)]
pub struct Tip5;

impl AlgebraicHasher for Tip5 {
    open spec fn digest_of(input: Seq<BFieldElement>) -> Seq<BFieldElement> {
        elements_of(tip5_varlen_digest(values_of(input)))
    }

    fn hash_varlen(input: &[BFieldElement]) -> (r: Digest) {
        let residues = values(input);
        let raw = tip5_hash_varlen(&residues);
        Digest::of_residues(&raw)
    }
}

} // verus!
