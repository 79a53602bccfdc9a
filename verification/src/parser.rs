//! Reading a program from text.
//!
//! A program is written as words parted by blanks. A word that ends in a colon sets a label.
//! `push`, `dup`, `swap` and `call` take the word that follows as their argument. Two slashes
//! at the start of a word begin a comment, which runs to the end of the line.

use crate::codec::all_encodable;
use crate::error::ParseError;
use crate::field::BFieldElement;
use crate::field::P;
use crate::field::field_element;
use crate::instruction::Instruction;
use crate::instruction::Ord16;
use crate::label::Item;
use crate::label::LabelledInstruction;
use crate::label::address_of_label;
use crate::label::calls_resolve;
use crate::label::item_views;
use crate::label::label_address;
use crate::label::resolved_from;
use crate::label::resolved_item;
use crate::text::characters;
use vstd::prelude::*;

verus! {

/// Whether a character parts words.
pub open spec fn is_blank(character: char) -> bool {
    character == ' ' || character == '\t' || character == '\n' || character == '\r'
}

/// The index at which the word that begins at `from` ends: that of the next blank, or the
/// length of the text.
pub open spec fn token_end(text: Seq<char>, from: int) -> int
    decreases text.len() - from,
{
    if from < 0 || from >= text.len() || is_blank(text[from]) {
        from
    } else {
        token_end(text, from + 1)
    }
}

/// The index at which the line that holds `from` ends: that of the next line feed, or the
/// length of the text.
pub open spec fn line_end(text: Seq<char>, from: int) -> int
    decreases text.len() - from,
{
    if from < 0 || from >= text.len() || text[from] == '\n' {
        from
    } else {
        line_end(text, from + 1)
    }
}

/// Whether a comment begins at `from`.
pub open spec fn starts_comment(text: Seq<char>, from: int) -> bool {
    0 <= from && from + 1 < text.len() && text[from] == '/' && text[from + 1] == '/'
}

/// A word ends within the text and not before it begins, and a line likewise.
pub proof fn lemma_ends_in_text(text: Seq<char>, from: int)
    requires
        0 <= from <= text.len(),
    ensures
        from <= token_end(text, from) <= text.len(),
        from <= line_end(text, from) <= text.len(),
        from < text.len() && !is_blank(text[from]) ==> from < token_end(text, from),
        from < text.len() && text[from] != '\n' ==> from < line_end(text, from),
    decreases text.len() - from,
{
    if from < text.len() {
        lemma_ends_in_text(text, from + 1);
    }
}

/// The words of a text from `from` on, the comments left out.
pub open spec fn tokens_from(text: Seq<char>, from: int) -> Seq<Seq<char>>
    decreases text.len() - from,
{
    if from < 0 || from >= text.len() {
        Seq::empty()
    } else if is_blank(text[from]) {
        tokens_from(text, from + 1)
    } else if starts_comment(text, from) {
        proof {
            lemma_ends_in_text(text, from);
        }
        tokens_from(text, line_end(text, from))
    } else {
        proof {
            lemma_ends_in_text(text, from);
        }
        seq![text.subrange(from, token_end(text, from))] + tokens_from(
            text,
            token_end(text, from),
        )
    }
}

/// The words of a text.
pub open spec fn tokens(text: Seq<char>) -> Seq<Seq<char>> {
    tokens_from(text, 0)
}

/// The words that ranges of a text hold.
pub open spec fn token_texts(text: Seq<char>, ranges: Seq<(usize, usize)>) -> Seq<Seq<char>> {
    ranges.map_values(|range: (usize, usize)| text.subrange(range.0 as int, range.1 as int))
}

/// Whether every range lies in a text of the given length.
pub open spec fn ranges_in_text(ranges: Seq<(usize, usize)>, length: nat) -> bool {
    forall|k: int| 0 <= k < ranges.len() ==> (#[trigger] ranges[k]).0 <= ranges[k].1 <= length
}

/// The instruction without argument that a word names.
pub open spec fn keyword_instruction(token: Seq<char>) -> Option<Instruction> {
    if token == "pop"@ {
        Some(Instruction::Pop)
    } else if token == "divine"@ {
        Some(Instruction::Divine)
    } else if token == "nop"@ {
        Some(Instruction::Nop)
    } else if token == "skiz"@ {
        Some(Instruction::Skiz)
    } else if token == "return"@ {
        Some(Instruction::Return)
    } else if token == "recurse"@ {
        Some(Instruction::Recurse)
    } else if token == "assert"@ {
        Some(Instruction::Assert)
    } else if token == "halt"@ {
        Some(Instruction::Halt)
    } else if token == "read_mem"@ {
        Some(Instruction::ReadMem)
    } else if token == "write_mem"@ {
        Some(Instruction::WriteMem)
    } else if token == "hash"@ {
        Some(Instruction::Hash)
    } else if token == "assert_vector"@ {
        Some(Instruction::AssertVector)
    } else if token == "absorb_init"@ {
        Some(Instruction::AbsorbInit)
    } else if token == "absorb"@ {
        Some(Instruction::Absorb)
    } else if token == "squeeze"@ {
        Some(Instruction::Squeeze)
    } else if token == "add"@ {
        Some(Instruction::Add)
    } else if token == "mul"@ {
        Some(Instruction::Mul)
    } else if token == "invert"@ {
        Some(Instruction::Invert)
    } else if token == "eq"@ {
        Some(Instruction::Eq)
    } else if token == "split"@ {
        Some(Instruction::Split)
    } else if token == "lt"@ {
        Some(Instruction::Lt)
    } else if token == "and"@ {
        Some(Instruction::And)
    } else if token == "xor"@ {
        Some(Instruction::Xor)
    } else if token == "log_2_floor"@ {
        Some(Instruction::Log2Floor)
    } else if token == "pow"@ {
        Some(Instruction::Pow)
    } else if token == "div"@ {
        Some(Instruction::Div)
    } else if token == "pop_count"@ {
        Some(Instruction::PopCount)
    } else if token == "read_io"@ {
        Some(Instruction::ReadIo)
    } else if token == "write_io"@ {
        Some(Instruction::WriteIo)
    } else {
        None
    }
}

/// The digit that a character stands for.
pub open spec fn digit_value(character: char) -> Option<nat> {
    if character == '0' {
        Some(0)
    } else if character == '1' {
        Some(1)
    } else if character == '2' {
        Some(2)
    } else if character == '3' {
        Some(3)
    } else if character == '4' {
        Some(4)
    } else if character == '5' {
        Some(5)
    } else if character == '6' {
        Some(6)
    } else if character == '7' {
        Some(7)
    } else if character == '8' {
        Some(8)
    } else if character == '9' {
        Some(9)
    } else {
        None
    }
}

/// The number that a word of digits stands for in decimal.
pub open spec fn digits_value(digits: Seq<char>) -> Option<nat>
    decreases digits.len(),
{
    if digits.len() == 0 {
        None
    } else {
        match digit_value(digits.last()) {
            None => None,
            Some(digit) => if digits.len() == 1 {
                Some(digit)
            } else {
                match digits_value(digits.drop_last()) {
                    None => None,
                    Some(value) => Some(value * 10 + digit),
                }
            },
        }
    }
}

/// Where a word stands for a number, each of its beginnings stands for a number that is not
/// larger.
pub proof fn lemma_digits_prefix(digits: Seq<char>, length: int)
    requires
        1 <= length <= digits.len(),
    ensures
        digits_value(digits) matches Some(value) ==> (digits_value(digits.take(length)) matches Some(
            part,
        ) && part <= value),
    decreases digits.len() - length,
{
    if length == digits.len() {
        assert(digits.take(length) =~= digits);
    } else {
        lemma_digits_prefix(digits.drop_last(), length);
        assert(digits.drop_last().take(length) =~= digits.take(length));
    }
}

/// The field element that a word stands for: a number below the modulus in decimal, or the
/// negative of one.
pub open spec fn field_literal(token: Seq<char>) -> Option<BFieldElement> {
    if token.len() > 0 && token[0] == '-' {
        match digits_value(token.skip(1)) {
            Some(value) => if value < P {
                Some(field_element(-(value as int)))
            } else {
                None
            },
            None => None,
        }
    } else {
        match digits_value(token) {
            Some(value) => if value < P {
                Some(field_element(value as int))
            } else {
                None
            },
            None => None,
        }
    }
}

/// The register that a word stands for: a number below sixteen in decimal.
pub open spec fn register_literal(token: Seq<char>) -> Option<Ord16> {
    match digits_value(token) {
        Some(value) => if value < 16 {
            Ord16::spec_from_index(value as u64)
        } else {
            None
        },
        None => None,
    }
}

/// Whether a word sets a label: it ends in a colon, after a name.
pub open spec fn sets_label(token: Seq<char>) -> bool {
    token.len() >= 2 && token.last() == ':'
}

/// Whether a word names an instruction that takes the next word as its argument.
pub open spec fn takes_argument(token: Seq<char>) -> bool {
    token == "push"@ || token == "dup"@ || token == "swap"@ || token == "call"@
}

/// The item that an instruction's name and its argument stand for, if the argument is one
/// that the instruction takes: a field element for `push`, a register for `dup`, a register
/// other than the topmost for `swap`, a label's name for `call`.
pub open spec fn argument_item(keyword: Seq<char>, argument: Seq<char>) -> Option<Item> {
    if keyword == "push"@ {
        match field_literal(argument) {
            Some(element) => Some(Item::Instruction(Instruction::Push(element))),
            None => None,
        }
    } else if keyword == "dup"@ {
        match register_literal(argument) {
            Some(register) => Some(Item::Instruction(Instruction::Dup(register))),
            None => None,
        }
    } else if keyword == "swap"@ {
        match register_literal(argument) {
            Some(register) => if register == Ord16::ST0 {
                None
            } else {
                Some(Item::Instruction(Instruction::Swap(register)))
            },
            None => None,
        }
    } else if sets_label(argument) {
        None
    } else {
        Some(Item::Call(argument))
    }
}

/// `prefix` put before what `rest` holds, and the fault of `rest` where it holds one.
pub open spec fn items_then(prefix: Seq<Item>, rest: Result<Seq<Item>, ParseError>) -> Result<
    Seq<Item>,
    ParseError,
> {
    match rest {
        Ok(items) => Ok(prefix + items),
        Err(error) => Err(error),
    }
}

/// The items that the words from `from` on stand for, or the first fault found: a word that
/// names no instruction, an instruction whose argument is missing, or one whose argument it
/// does not take. The fault holds the index of the word that names the instruction.
pub open spec fn parse_items(tokens: Seq<Seq<char>>, from: int) -> Result<Seq<Item>, ParseError>
    decreases tokens.len() - from,
{
    if from < 0 || from >= tokens.len() {
        Ok(Seq::empty())
    } else if sets_label(tokens[from]) {
        items_then(seq![Item::Label(tokens[from].drop_last())], parse_items(tokens, from + 1))
    } else if takes_argument(tokens[from]) {
        if from + 1 >= tokens.len() {
            Err(ParseError::MissingArgument(from as usize))
        } else {
            match argument_item(tokens[from], tokens[from + 1]) {
                None => Err(ParseError::InvalidArgument(from as usize)),
                Some(item) => items_then(seq![item], parse_items(tokens, from + 2)),
            }
        }
    } else {
        match keyword_instruction(tokens[from]) {
            None => Err(ParseError::UnknownInstruction(from as usize)),
            Some(instruction) => items_then(
                seq![Item::Instruction(instruction)],
                parse_items(tokens, from + 1),
            ),
        }
    }
}

/// Whether a label of the given name is set among the first `before` items.
pub open spec fn set_before(items: Seq<Item>, name: Seq<char>, before: int) -> bool
    decreases before,
{
    if before <= 0 || before > items.len() {
        false
    } else {
        items[before - 1] == Item::Label(name) || set_before(items, name, before - 1)
    }
}

/// The index of the first item from `from` on that sets a label set before.
pub open spec fn first_duplicate(items: Seq<Item>, from: int) -> Option<int>
    decreases items.len() - from,
{
    if from < 0 || from >= items.len() {
        None
    } else if items[from] matches Item::Label(name) && set_before(items, name, from) {
        Some(from)
    } else {
        first_duplicate(items, from + 1)
    }
}

/// The index of the first item from `from` on that calls a label which is not set.
pub open spec fn first_undefined(items: Seq<Item>, from: int) -> Option<int>
    decreases items.len() - from,
{
    if from < 0 || from >= items.len() {
        None
    } else if items[from] matches Item::Call(name) && label_address(items, name) is None {
        Some(from)
    } else {
        first_undefined(items, from + 1)
    }
}

/// What is wrong with the labels, if anything: the first label that is set twice, or else the
/// first call of a label that is not set. The fault holds the item's index.
pub open spec fn label_fault(items: Seq<Item>) -> Option<ParseError> {
    match first_duplicate(items, 0) {
        Some(index) => Some(ParseError::DuplicateLabel(index as usize)),
        None => match first_undefined(items, 0) {
            Some(index) => Some(ParseError::UndefinedLabel(index as usize)),
            None => None,
        },
    }
}

/// The items that a text stands for, or the first fault found: first among the words, then
/// among the labels.
pub open spec fn parsed_program(text: Seq<char>) -> Result<Seq<Item>, ParseError> {
    match parse_items(tokens(text), 0) {
        Err(error) => Err(error),
        Ok(items) => match label_fault(items) {
            Some(error) => Err(error),
            None => Ok(items),
        },
    }
}

/// Whether every instruction among the items has an argument that its encoding can carry.
pub open spec fn items_encodable(items: Seq<Item>) -> bool {
    forall|k: int|
        0 <= k < items.len() ==> (#[trigger] items[k] matches Item::Instruction(instruction)
            ==> instruction.is_encodable())
}

/// Where every instruction among the items has an argument that its encoding can carry, so
/// has every instruction that the items stand for.
pub proof fn lemma_resolved_encodable(items: Seq<Item>, from: int)
    requires
        items_encodable(items),
        0 <= from,
    ensures
        all_encodable(resolved_from(items, from)),
    decreases items.len() - from,
{
    if from < items.len() {
        lemma_resolved_encodable(items, from + 1);
        let rest = resolved_from(items, from + 1);
        match resolved_item(items, items[from]) {
            Some(instruction) => {
                assert(instruction.is_encodable());
                assert forall|i: int| 0 <= i < (seq![instruction] + rest).len() implies (
                #[trigger] (seq![instruction] + rest)[i]).is_encodable() by {
                    if i > 0 {
                        assert((seq![instruction] + rest)[i] == rest[i - 1]);
                    }
                }
            },
            None => {},
        }
    }
}

/// Every instruction among the items that words stand for has an argument that its encoding
/// can carry.
pub proof fn lemma_parsed_items_encodable(tokens: Seq<Seq<char>>, from: int)
    requires
        0 <= from,
    ensures
        parse_items(tokens, from) matches Ok(items) ==> items_encodable(items),
    decreases tokens.len() - from,
{
    if from < tokens.len() {
        lemma_parsed_items_encodable(tokens, from + 1);
        if from + 2 <= tokens.len() {
            lemma_parsed_items_encodable(tokens, from + 2);
        }
        if let Ok(items) = parse_items(tokens, from) {
            let rest = if !sets_label(tokens[from]) && takes_argument(tokens[from]) {
                parse_items(tokens, from + 2)->Ok_0
            } else {
                parse_items(tokens, from + 1)->Ok_0
            };
            assert(items.len() == rest.len() + 1);
            assert forall|k: int| 0 <= k < items.len() implies (
            #[trigger] items[k] matches Item::Instruction(instruction)
                ==> instruction.is_encodable()) by {
                if k > 0 {
                    assert(items[k] == rest[k - 1]);
                }
            }
        }
    }
}

/// The index at which the word that begins at `from` ends.
pub(crate) fn end_of_token(chars: &Vec<char>, from: usize) -> (r: usize)
    requires
        from <= chars@.len(),
    ensures
        r == token_end(chars@, from as int),
        from <= r <= chars@.len(),
{
    let mut end: usize = from;
    while end < chars.len() && !(chars[end] == ' ' || chars[end] == '\t' || chars[end] == '\n'
        || chars[end] == '\r')
        invariant
            from <= end <= chars@.len(),
            token_end(chars@, from as int) == token_end(chars@, end as int),
        decreases chars@.len() - end,
    {
        end += 1;
    }
    end
}

/// The index at which the line that holds `from` ends.
pub(crate) fn end_of_line(chars: &Vec<char>, from: usize) -> (r: usize)
    requires
        from <= chars@.len(),
    ensures
        r == line_end(chars@, from as int),
        from <= r <= chars@.len(),
{
    let mut end: usize = from;
    while end < chars.len() && chars[end] != '\n'
        invariant
            from <= end <= chars@.len(),
            line_end(chars@, from as int) == line_end(chars@, end as int),
        decreases chars@.len() - end,
    {
        end += 1;
    }
    end
}

/// The ranges of the words of a text, the comments left out.
pub fn tokenize(chars: &Vec<char>) -> (r: Vec<(usize, usize)>)
    ensures
        token_texts(chars@, r@) == tokens(chars@),
        ranges_in_text(r@, chars@.len()),
{
    let mut ranges: Vec<(usize, usize)> = Vec::new();
    let mut position: usize = 0;
    assert(token_texts(chars@, ranges@) + tokens_from(chars@, 0) =~= tokens(chars@));
    while position < chars.len()
        invariant
            position <= chars@.len(),
            ranges_in_text(ranges@, chars@.len()),
            tokens(chars@) == token_texts(chars@, ranges@) + tokens_from(chars@, position as int),
        decreases chars@.len() - position,
    {
        let character = chars[position];
        proof {
            lemma_ends_in_text(chars@, position as int);
        }
        if character == ' ' || character == '\t' || character == '\n' || character == '\r' {
            position += 1;
        } else if character == '/' && position + 1 < chars.len() && chars[position + 1] == '/' {
            position = end_of_line(chars, position);
        } else {
            let end: usize = end_of_token(chars, position);
            let ghost before = ranges@;
            let ghost rest = tokens_from(chars@, end as int);
            ranges.push((position, end));
            assert(token_texts(chars@, before) + (seq![
                chars@.subrange(position as int, end as int),
            ] + rest) =~= token_texts(chars@, ranges@) + rest);
            position = end;
        }
    }
    assert(token_texts(chars@, ranges@) + Seq::<Seq<char>>::empty() =~= token_texts(
        chars@,
        ranges@,
    ));
    ranges
}

/// Whether the characters in a range are a given word.
pub(crate) fn token_is(chars: &Vec<char>, start: usize, end: usize, word: &str) -> (r: bool)
    requires
        start <= end <= chars@.len(),
    ensures
        r == (chars@.subrange(start as int, end as int) == word@),
{
    let length: usize = word.unicode_len();
    if end - start != length {
        return false;
    }
    let mut i: usize = 0;
    while i < length
        invariant
            i <= length,
            length == word@.len(),
            end - start == length,
            end <= chars@.len(),
            forall|k: int| 0 <= k < i ==> chars@[start + k] == word@[k],
        decreases length - i,
    {
        if chars[start + i] != word.get_char(i) {
            assert(chars@.subrange(start as int, end as int)[i as int] != word@[i as int]);
            return false;
        }
        i += 1;
    }
    assert(chars@.subrange(start as int, end as int) =~= word@);
    true
}

/// The instruction without argument that the word in a range names.
pub(crate) fn keyword_of(chars: &Vec<char>, start: usize, end: usize) -> (r: Option<Instruction>)
    requires
        start <= end <= chars@.len(),
    ensures
        r == keyword_instruction(chars@.subrange(start as int, end as int)),
{
    let ghost token = chars@.subrange(start as int, end as int);
    if token_is(chars, start, end, "pop") {
        Some(Instruction::Pop)
    } else if token_is(chars, start, end, "divine") {
        Some(Instruction::Divine)
    } else if token_is(chars, start, end, "nop") {
        Some(Instruction::Nop)
    } else if token_is(chars, start, end, "skiz") {
        Some(Instruction::Skiz)
    } else if token_is(chars, start, end, "return") {
        Some(Instruction::Return)
    } else if token_is(chars, start, end, "recurse") {
        Some(Instruction::Recurse)
    } else if token_is(chars, start, end, "assert") {
        Some(Instruction::Assert)
    } else if token_is(chars, start, end, "halt") {
        Some(Instruction::Halt)
    } else if token_is(chars, start, end, "read_mem") {
        Some(Instruction::ReadMem)
    } else if token_is(chars, start, end, "write_mem") {
        Some(Instruction::WriteMem)
    } else if token_is(chars, start, end, "hash") {
        Some(Instruction::Hash)
    } else if token_is(chars, start, end, "assert_vector") {
        Some(Instruction::AssertVector)
    } else if token_is(chars, start, end, "absorb_init") {
        Some(Instruction::AbsorbInit)
    } else if token_is(chars, start, end, "absorb") {
        Some(Instruction::Absorb)
    } else if token_is(chars, start, end, "squeeze") {
        Some(Instruction::Squeeze)
    } else if token_is(chars, start, end, "add") {
        Some(Instruction::Add)
    } else if token_is(chars, start, end, "mul") {
        Some(Instruction::Mul)
    } else if token_is(chars, start, end, "invert") {
        Some(Instruction::Invert)
    } else if token_is(chars, start, end, "eq") {
        Some(Instruction::Eq)
    } else if token_is(chars, start, end, "split") {
        Some(Instruction::Split)
    } else if token_is(chars, start, end, "lt") {
        Some(Instruction::Lt)
    } else if token_is(chars, start, end, "and") {
        Some(Instruction::And)
    } else if token_is(chars, start, end, "xor") {
        Some(Instruction::Xor)
    } else if token_is(chars, start, end, "log_2_floor") {
        Some(Instruction::Log2Floor)
    } else if token_is(chars, start, end, "pow") {
        Some(Instruction::Pow)
    } else if token_is(chars, start, end, "div") {
        Some(Instruction::Div)
    } else if token_is(chars, start, end, "pop_count") {
        Some(Instruction::PopCount)
    } else if token_is(chars, start, end, "read_io") {
        Some(Instruction::ReadIo)
    } else if token_is(chars, start, end, "write_io") {
        Some(Instruction::WriteIo)
    } else {
        None
    }
}

/// The digit that a character stands for.
pub fn digit_of(character: char) -> (r: Option<u64>)
    ensures
        match digit_value(character) {
            Some(digit) => r == Some(digit as u64) && digit < 10,
            None => r is None,
        },
{
    match character {
        '0' => Some(0),
        '1' => Some(1),
        '2' => Some(2),
        '3' => Some(3),
        '4' => Some(4),
        '5' => Some(5),
        '6' => Some(6),
        '7' => Some(7),
        '8' => Some(8),
        '9' => Some(9),
        _ => None,
    }
}

/// The number below the modulus that the digits in a range stand for.
pub(crate) fn number_of(chars: &Vec<char>, start: usize, end: usize) -> (r: Option<u64>)
    requires
        start <= end <= chars@.len(),
    ensures
        match digits_value(chars@.subrange(start as int, end as int)) {
            Some(value) => if value < P {
                r == Some(value as u64)
            } else {
                r is None
            },
            None => r is None,
        },
{
    let ghost token = chars@.subrange(start as int, end as int);
    if start == end {
        return None;
    }
    let mut value: u64 = 0;
    let mut i: usize = start;
    while i < end
        invariant
            start <= i <= end <= chars@.len(),
            token == chars@.subrange(start as int, end as int),
            value < P,
            i == start ==> value == 0,
            i > start ==> digits_value(token.take(i - start)) == Some(value as nat),
        decreases end - i,
    {
        let ghost part = token.take(i - start + 1);
        proof {
            lemma_digits_prefix(token, i - start + 1);
            assert(part.last() == chars@[i as int]);
            assert(part.drop_last() =~= token.take(i - start));
        }
        match digit_of(chars[i]) {
            None => {
                return None;
            },
            Some(digit) => {
                let next: u128 = value as u128 * 10 + digit as u128;
                assert(digits_value(part) == Some(next as nat));
                if next >= P as u128 {
                    return None;
                }
                value = next as u64;
            },
        }
        i += 1;
    }
    assert(token.take(end - start) =~= token);
    Some(value)
}

/// The field element that the word in a range stands for.
pub(crate) fn field_literal_of(chars: &Vec<char>, start: usize, end: usize) -> (r: Option<BFieldElement>)
    requires
        start <= end <= chars@.len(),
    ensures
        r == field_literal(chars@.subrange(start as int, end as int)),
{
    let ghost token = chars@.subrange(start as int, end as int);
    if start < end && chars[start] == '-' {
        assert(token.skip(1) =~= chars@.subrange(start + 1, end as int));
        match number_of(chars, start + 1, end) {
            Some(value) => Some(
                BFieldElement {
                    value: if value == 0 {
                        0
                    } else {
                        P - value
                    },
                },
            ),
            None => None,
        }
    } else {
        match number_of(chars, start, end) {
            Some(value) => Some(BFieldElement { value }),
            None => None,
        }
    }
}

/// The register that the word in a range stands for.
pub(crate) fn register_literal_of(chars: &Vec<char>, start: usize, end: usize) -> (r: Option<Ord16>)
    requires
        start <= end <= chars@.len(),
    ensures
        r == register_literal(chars@.subrange(start as int, end as int)),
{
    match number_of(chars, start, end) {
        Some(value) => if value < 16 {
            Ord16::from_index(value)
        } else {
            None
        },
        None => None,
    }
}

/// Whether the word in a range sets a label.
pub(crate) fn sets_label_in(chars: &Vec<char>, start: usize, end: usize) -> (r: bool)
    requires
        start <= end <= chars@.len(),
    ensures
        r == sets_label(chars@.subrange(start as int, end as int)),
{
    end - start >= 2 && chars[end - 1] == ':'
}

/// The text in a range, as a string of its own.
pub(crate) fn owned_text(code: &str, start: usize, end: usize) -> (r: String)
    requires
        start <= end <= code@.len(),
    ensures
        r@ == code@.subrange(start as int, end as int),
{
    String::from_str(code.substring_char(start, end))
}

/// The item that an instruction's name and its argument stand for, both given as ranges.
pub(crate) fn argument_item_of(
    code: &str,
    chars: &Vec<char>,
    keyword: (usize, usize),
    argument: (usize, usize),
) -> (r: Option<LabelledInstruction>)
    requires
        chars@ == code@,
        keyword.0 <= keyword.1 <= chars@.len(),
        argument.0 <= argument.1 <= chars@.len(),
        takes_argument(chars@.subrange(keyword.0 as int, keyword.1 as int)),
    ensures
        match argument_item(
            chars@.subrange(keyword.0 as int, keyword.1 as int),
            chars@.subrange(argument.0 as int, argument.1 as int),
        ) {
            Some(item) => r matches Some(found) && found@ == item && (
            item matches Item::Instruction(instruction) ==> instruction.is_encodable()),
            None => r is None,
        },
{
    if token_is(chars, keyword.0, keyword.1, "push") {
        match field_literal_of(chars, argument.0, argument.1) {
            Some(element) => Some(LabelledInstruction::Instruction(Instruction::Push(element))),
            None => None,
        }
    } else if token_is(chars, keyword.0, keyword.1, "dup") {
        match register_literal_of(chars, argument.0, argument.1) {
            Some(register) => Some(LabelledInstruction::Instruction(Instruction::Dup(register))),
            None => None,
        }
    } else if token_is(chars, keyword.0, keyword.1, "swap") {
        match register_literal_of(chars, argument.0, argument.1) {
            Some(register) => if register == Ord16::ST0 {
                None
            } else {
                Some(LabelledInstruction::Instruction(Instruction::Swap(register)))
            },
            None => None,
        }
    } else if sets_label_in(chars, argument.0, argument.1) {
        None
    } else {
        Some(LabelledInstruction::Call(owned_text(code, argument.0, argument.1)))
    }
}

/// Whether the word in a range names an instruction that takes an argument.
pub(crate) fn takes_argument_in(chars: &Vec<char>, start: usize, end: usize) -> (r: bool)
    requires
        start <= end <= chars@.len(),
    ensures
        r == takes_argument(chars@.subrange(start as int, end as int)),
{
    token_is(chars, start, end, "push") || token_is(chars, start, end, "dup") || token_is(
        chars,
        start,
        end,
        "swap",
    ) || token_is(chars, start, end, "call")
}

/// Putting one prefix before another, and both before the rest, is putting their
/// concatenation before it.
pub proof fn lemma_items_then_joins(
    first: Seq<Item>,
    second: Seq<Item>,
    rest: Result<Seq<Item>, ParseError>,
)
    ensures
        items_then(first, items_then(second, rest)) == items_then(first + second, rest),
{
    if let Ok(items) = rest {
        assert(first + (second + items) =~= (first + second) + items);
    }
}

/// The items that the words of a text stand for, the words given as ranges.
pub(crate) fn parse_tokens(code: &str, chars: &Vec<char>, ranges: &Vec<(usize, usize)>) -> (r: Result<
    Vec<LabelledInstruction>,
    ParseError,
>)
    requires
        chars@ == code@,
        ranges_in_text(ranges@, chars@.len()),
    ensures
        match parse_items(token_texts(chars@, ranges@), 0) {
            Ok(items) => r matches Ok(found) && item_views(found@) == items && items_encodable(
                items,
            ),
            Err(error) => r matches Err(found) && found == error,
        },
{
    let ghost words = token_texts(chars@, ranges@);
    let mut items: Vec<LabelledInstruction> = Vec::new();
    let mut k: usize = 0;
    assert(item_views(items@) + parse_items(words, 0)->Ok_0 =~= parse_items(words, 0)->Ok_0);
    while k < ranges.len()
        invariant
            k <= ranges@.len(),
            chars@ == code@,
            ranges_in_text(ranges@, chars@.len()),
            words == token_texts(chars@, ranges@),
            items_encodable(item_views(items@)),
            parse_items(words, 0) == items_then(
                item_views(items@),
                parse_items(words, k as int),
            ),
        decreases ranges@.len() - k,
    {
        let range = ranges[k];
        let ghost before = item_views(items@);
        proof {
            assert(words[k as int] == chars@.subrange(range.0 as int, range.1 as int));
        }
        if sets_label_in(chars, range.0, range.1) {
            let label = LabelledInstruction::Label(owned_text(code, range.0, range.1 - 1));
            assert(label@ == Item::Label(words[k as int].drop_last())) by {
                assert(words[k as int].drop_last() =~= chars@.subrange(
                    range.0 as int,
                    range.1 - 1,
                ));
            }
            items.push(label);
            proof {
                lemma_items_then_joins(before, seq![label@], parse_items(words, k + 1));
                assert(before + seq![label@] =~= item_views(items@));
            }
            k += 1;
        } else if takes_argument_in(chars, range.0, range.1) {
            if k + 1 >= ranges.len() {
                return Err(ParseError::MissingArgument(k));
            }
            let argument = ranges[k + 1];
            proof {
                assert(words[k + 1] == chars@.subrange(argument.0 as int, argument.1 as int));
            }
            match argument_item_of(code, chars, range, argument) {
                None => {
                    return Err(ParseError::InvalidArgument(k));
                },
                Some(item) => {
                    let ghost view = item@;
                    items.push(item);
                    proof {
                        lemma_items_then_joins(before, seq![view], parse_items(words, k + 2));
                        assert(before + seq![view] =~= item_views(items@));
                    }
                    k += 2;
                },
            }
        } else {
            match keyword_of(chars, range.0, range.1) {
                None => {
                    return Err(ParseError::UnknownInstruction(k));
                },
                Some(instruction) => {
                    let item = LabelledInstruction::Instruction(instruction);
                    items.push(item);
                    proof {
                        lemma_items_then_joins(before, seq![item@], parse_items(words, k + 1));
                        assert(before + seq![item@] =~= item_views(items@));
                    }
                    k += 1;
                },
            }
        }
    }
    assert(item_views(items@) + Seq::<Item>::empty() =~= item_views(items@));
    Ok(items)
}

/// Whether a label of the given name is set among the first `before` items.
pub(crate) fn is_set_before(items: &Vec<LabelledInstruction>, name: &String, before: usize) -> (r: bool)
    requires
        before <= items@.len(),
    ensures
        r == set_before(item_views(items@), name@, before as int),
{
    let mut j: usize = before;
    while j > 0
        invariant
            j <= before <= items@.len(),
            set_before(item_views(items@), name@, before as int) == set_before(
                item_views(items@),
                name@,
                j as int,
            ),
        decreases j,
    {
        assert(item_views(items@)[j - 1] == items@[j - 1]@);
        if let LabelledInstruction::Label(label) = &items[j - 1] {
            if *label == *name {
                return true;
            }
        }
        j -= 1;
    }
    false
}

/// What is wrong with the labels, if anything.
pub fn fault_of_labels(items: &Vec<LabelledInstruction>) -> (r: Option<ParseError>)
    ensures
        r == label_fault(item_views(items@)),
        r is None ==> calls_resolve(item_views(items@)),
{
    let mut k: usize = 0;
    while k < items.len()
        invariant
            k <= items@.len(),
            first_duplicate(item_views(items@), 0) == first_duplicate(
                item_views(items@),
                k as int,
            ),
        decreases items@.len() - k,
    {
        assert(item_views(items@)[k as int] == items@[k as int]@);
        if let LabelledInstruction::Label(name) = &items[k] {
            if is_set_before(items, name, k) {
                return Some(ParseError::DuplicateLabel(k));
            }
        }
        k += 1;
    }
    let mut k: usize = 0;
    while k < items.len()
        invariant
            k <= items@.len(),
            first_duplicate(item_views(items@), 0) is None,
            first_undefined(item_views(items@), 0) == first_undefined(
                item_views(items@),
                k as int,
            ),
            forall|j: int|
                0 <= j < k ==> (#[trigger] item_views(items@)[j] matches Item::Call(name)
                    ==> label_address(item_views(items@), name) is Some),
        decreases items@.len() - k,
    {
        assert(item_views(items@)[k as int] == items@[k as int]@);
        if let LabelledInstruction::Call(name) = &items[k] {
            if address_of_label(items.as_slice(), name).is_none() {
                return Some(ParseError::UndefinedLabel(k));
            }
        }
        k += 1;
    }
    None
}

/// The items that a text stands for, or the first fault found: first among the words, then
/// among the labels.
pub fn parse(code: &str) -> (r: Result<Vec<LabelledInstruction>, ParseError>)
    ensures
        match parsed_program(code@) {
            Ok(items) => r matches Ok(found) && item_views(found@) == items && items_encodable(
                items,
            ) && calls_resolve(items),
            Err(error) => r matches Err(found) && found == error,
        },
{
    let chars = characters(code);
    let ranges = tokenize(&chars);
    match parse_tokens(code, &chars, &ranges) {
        Err(error) => Err(error),
        Ok(items) => match fault_of_labels(&items) {
            Some(error) => Err(error),
            None => Ok(items),
        },
    }
}

} // verus!
