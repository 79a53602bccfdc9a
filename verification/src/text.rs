//! Text: the characters of a string, and numbers written in decimal.

use crate::field::BFieldElement;
use crate::field::P;
use vstd::prelude::*;

verus! {

/// The characters of a string.
pub fn characters(text: &str) -> (r: Vec<char>)
    ensures
        r@ == text@,
{
    let mut all: Vec<char> = Vec::new();
    for character in it: text.chars()
        invariant
            all@ == it.history(),
            it.seq() == text@,
    {
        all.push(character);
    }
    assert(all@ =~= text@);
    all
}

/// The character for a digit.
pub open spec fn digit_character(digit: int) -> char {
    if digit == 0 {
        '0'
    } else if digit == 1 {
        '1'
    } else if digit == 2 {
        '2'
    } else if digit == 3 {
        '3'
    } else if digit == 4 {
        '4'
    } else if digit == 5 {
        '5'
    } else if digit == 6 {
        '6'
    } else if digit == 7 {
        '7'
    } else if digit == 8 {
        '8'
    } else {
        '9'
    }
}

/// A number written in decimal, without leading zeros.
pub open spec fn decimal(n: nat) -> Seq<char>
    decreases n,
{
    if n < 10 {
        seq![digit_character(n as int)]
    } else {
        decimal(n / 10).push(digit_character((n % 10) as int))
    }
}

/// A number written in decimal with leading zeros, so that it has at least `width` digits.
pub open spec fn padded_decimal(n: nat, width: nat) -> Seq<char> {
    if decimal(n).len() >= width {
        decimal(n)
    } else {
        Seq::new((width - decimal(n).len()) as nat, |i: int| '0') + decimal(n)
    }
}

/// A field element as text: its canonical residue in decimal. The 256 largest residues are
/// written as the negative numbers they stand for, and the residues above 256 that are not
/// among them with leading zeros, as twenty digits.
pub open spec fn element_text(element: BFieldElement) -> Seq<char> {
    let residue = (element.value % P) as nat;
    if residue >= P - 256 {
        seq!['-'] + decimal((P - residue) as nat)
    } else if residue <= 256 {
        decimal(residue)
    } else {
        padded_decimal(residue, 20)
    }
}

/// The text of a digit.
pub(crate) fn digit_text(digit: u64) -> (r: &'static str)
    requires
        digit < 10,
    ensures
        r@ == seq![digit_character(digit as int)],
{
    proof {
        reveal_strlit("0");
        reveal_strlit("1");
        reveal_strlit("2");
        reveal_strlit("3");
        reveal_strlit("4");
        reveal_strlit("5");
        reveal_strlit("6");
        reveal_strlit("7");
        reveal_strlit("8");
        reveal_strlit("9");
    }
    let text: &'static str = match digit {
        0 => "0",
        1 => "1",
        2 => "2",
        3 => "3",
        4 => "4",
        5 => "5",
        6 => "6",
        7 => "7",
        8 => "8",
        _ => "9",
    };
    assert(text@ =~= seq![digit_character(digit as int)]);
    text
}

/// Appends a number in decimal.
pub fn append_decimal(text: &mut String, n: u64)
    ensures
        final(text)@ == old(text)@ + decimal(n as nat),
    decreases n,
{
    if n >= 10 {
        append_decimal(text, n / 10);
    }
    text.append(digit_text(n % 10));
    assert(text@ =~= old(text)@ + decimal(n as nat));
}

/// The number of digits of a number in decimal.
pub fn decimal_length(n: u64) -> (r: usize)
    ensures
        r == decimal(n as nat).len(),
        1 <= r <= 20,
    decreases n,
{
    if n >= 10 {
        let shorter = decimal_length(n / 10);
        assert(shorter < 20) by {
            lemma_decimal_length_bound((n / 10) as nat);
        }
        shorter + 1
    } else {
        1
    }
}

/// A number below the nineteenth power of ten has at most nineteen digits.
pub proof fn lemma_decimal_length_bound(n: nat)
    requires
        n < 1_844_674_407_370_955_162,
    ensures
        decimal(n).len() <= 19,
{
    assert(power_of_ten(19) == 10_000_000_000_000_000_000) by {
        reveal_with_fuel(power_of_ten, 20);
    }
    lemma_decimal_length(n, 19, 10_000_000_000_000_000_000);
}

/// A number below ten to the power `digits` has at most `digits` digits.
pub proof fn lemma_decimal_length(n: nat, digits: nat, bound: nat)
    requires
        digits >= 1,
        n < bound,
        bound == power_of_ten(digits),
    ensures
        decimal(n).len() <= digits,
    decreases digits,
{
    if n >= 10 {
        if digits == 1 {
            assert(power_of_ten(1) == 10) by {
                reveal_with_fuel(power_of_ten, 2);
            }
        } else {
            lemma_decimal_length(n / 10, (digits - 1) as nat, power_of_ten((digits - 1) as nat));
        }
    }
}

/// Ten to the power `n`.
pub open spec fn power_of_ten(n: nat) -> nat
    decreases n,
{
    if n == 0 {
        1
    } else {
        10 * power_of_ten((n - 1) as nat)
    }
}

/// Appends a field element as text.
pub fn append_element(text: &mut String, element: BFieldElement)
    ensures
        final(text)@ == old(text)@ + element_text(element),
{
    let residue: u64 = element.value() % P;
    if residue >= P - 256 {
        proof {
            reveal_strlit("-");
        }
        text.append("-");
        append_decimal(text, P - residue);
        assert(text@ =~= old(text)@ + element_text(element));
    } else if residue <= 256 {
        append_decimal(text, residue);
    } else {
        let length: usize = decimal_length(residue);
        let ghost before = text@;
        let mut padding: usize = 0;
        while padding < 20 - length
            invariant
                length <= 20,
                padding <= 20 - length,
                text@ == before + Seq::new(padding as nat, |i: int| '0'),
            decreases 20 - length - padding,
        {
            proof {
                reveal_strlit("0");
            }
            text.append("0");
            assert(text@ =~= before + Seq::new((padding + 1) as nat, |i: int| '0'));
            padding += 1;
        }
        append_decimal(text, residue);
        assert(text@ =~= old(text)@ + element_text(element));
    }
}

} // verus!
