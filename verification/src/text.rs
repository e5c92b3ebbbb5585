//! The two text encodings of a hash line: decimal numbers and lowercase
//! hexadecimal byte strings, with the facts about `*` that make the line
//! splittable.

use vstd::prelude::*;

verus! {

/// The character that separates the fields of a hash line.
pub const SEPARATOR: char = '*';

/// The decimal digit for a value below ten.
pub open spec fn digit(d: int) -> char {
    seq!['0', '1', '2', '3', '4', '5', '6', '7', '8', '9'][d]
}

/// The lowercase hexadecimal digit for a value below sixteen.
pub open spec fn hex_digit(d: int) -> char {
    seq!['0', '1', '2', '3', '4', '5', '6', '7', '8', '9', 'a', 'b', 'c', 'd', 'e', 'f'][d]
}

/// A natural number in decimal, without leading zeros.
pub open spec fn decimal_of_nat(n: nat) -> Seq<char>
    decreases n,
{
    if n < 10 {
        seq![digit(n as int)]
    } else {
        decimal_of_nat(n / 10).push(digit((n % 10) as int))
    }
}

/// An integer in decimal, with a leading `-` where it is negative.
pub open spec fn decimal(n: int) -> Seq<char> {
    if n < 0 {
        seq!['-'] + decimal_of_nat((-n) as nat)
    } else {
        decimal_of_nat(n as nat)
    }
}

/// A byte string in hexadecimal: two lowercase digits per byte, the high
/// half first, nothing in between.
pub open spec fn hex_text(data: Seq<u8>) -> Seq<char> {
    Seq::new(
        2 * data.len(),
        |i: int|
            if i % 2 == 0 {
                hex_digit(data[i / 2] as int / 16)
            } else {
                hex_digit(data[i / 2] as int % 16)
            },
    )
}

/// No character of the text is a separator.
pub open spec fn star_free(text: Seq<char>) -> bool {
    forall|i: int| 0 <= i < text.len() ==> text[i] != SEPARATOR
}

/// The number of separators in the text.
pub open spec fn stars(text: Seq<char>) -> nat
    decreases text.len(),
{
    if text.len() == 0 {
        0
    } else {
        stars(text.drop_last()) + if text.last() == SEPARATOR {
            1nat
        } else {
            0nat
        }
    }
}

/// The fields, joined by separators.
pub open spec fn join(fields: Seq<Seq<char>>) -> Seq<char>
    decreases fields.len(),
{
    if fields.len() == 0 {
        Seq::empty()
    } else if fields.len() == 1 {
        fields[0]
    } else {
        join(fields.drop_last()) + seq![SEPARATOR] + fields.last()
    }
}

/// A decimal number holds no separator.
pub proof fn lemma_decimal_star_free(n: int)
    ensures
        star_free(decimal(n)),
        decimal(n).len() >= 1,
{
    if n < 0 {
        lemma_decimal_of_nat_star_free((-n) as nat);
    } else {
        lemma_decimal_of_nat_star_free(n as nat);
    }
}

proof fn lemma_decimal_of_nat_star_free(n: nat)
    ensures
        star_free(decimal_of_nat(n)),
        decimal_of_nat(n).len() >= 1,
    decreases n,
{
    if n >= 10 {
        lemma_decimal_of_nat_star_free(n / 10);
    }
}

/// A hexadecimal text holds no separator and is twice as long as the bytes.
pub proof fn lemma_hex_star_free(data: Seq<u8>)
    ensures
        star_free(hex_text(data)),
        hex_text(data).len() == 2 * data.len(),
{
    assert forall|i: int| 0 <= i < hex_text(data).len() implies hex_text(data)[i] != SEPARATOR by {
        let byte = data[i / 2] as int;
        assert(0 <= byte / 16 < 16 && 0 <= byte % 16 < 16);
    }
}

/// The separators of a concatenation are those of its parts.
pub proof fn lemma_stars_concat(a: Seq<char>, b: Seq<char>)
    ensures
        stars(a + b) == stars(a) + stars(b),
    decreases b.len(),
{
    if b.len() == 0 {
        assert(a + b == a);
    } else {
        assert((a + b).drop_last() == a + b.drop_last());
        lemma_stars_concat(a, b.drop_last());
    }
}

/// A text without separators counts none.
pub proof fn lemma_star_free_counts_none(text: Seq<char>)
    requires
        star_free(text),
    ensures
        stars(text) == 0,
    decreases text.len(),
{
    if text.len() > 0 {
        lemma_star_free_counts_none(text.drop_last());
    }
}

/// Joining `n >= 1` fields that hold no separator gives a text with exactly
/// `n - 1` separators, so the text falls into `n` fields again.
pub proof fn lemma_join_stars(fields: Seq<Seq<char>>)
    requires
        fields.len() >= 1,
        forall|i: int| 0 <= i < fields.len() ==> star_free(#[trigger] fields[i]),
    ensures
        stars(join(fields)) == fields.len() - 1,
    decreases fields.len(),
{
    if fields.len() == 1 {
        lemma_star_free_counts_none(fields[0]);
    } else {
        let front = fields.drop_last();
        lemma_join_stars(front);
        lemma_star_free_counts_none(fields.last());
        lemma_stars_concat(join(front), seq![SEPARATOR]);
        lemma_stars_concat(join(front) + seq![SEPARATOR], fields.last());
        assert(stars(seq![SEPARATOR]) == 1) by {
            assert(seq![SEPARATOR].drop_last() =~= Seq::<char>::empty());
            reveal_with_fuel(stars, 2);
        }
    }
}

/// Joining one more field appends a separator and the field.
pub proof fn lemma_join_push(fields: Seq<Seq<char>>, field: Seq<char>)
    requires
        fields.len() >= 1,
    ensures
        join(fields.push(field)) == join(fields) + seq![SEPARATOR] + field,
{
    assert(fields.push(field).drop_last() == fields);
}

/// `String::push` of the standard library. Claimed, as documented: it
/// appends the character to the end of the string.
pub assume_specification[ String::push ](text: &mut String, ch: char)
    ensures
        final(text)@ == old(text)@.push(ch),
;

fn digit_char(d: u8) -> (c: char)
    requires
        d < 10,
    ensures
        c == digit(d as int),
{
    match d {
        0 => '0',
        1 => '1',
        2 => '2',
        3 => '3',
        4 => '4',
        5 => '5',
        6 => '6',
        7 => '7',
        8 => '8',
        _ => '9',
    }
}

/// Appends a natural number in decimal.
pub fn push_unsigned(out: &mut String, n: u64)
    ensures
        final(out)@ == old(out)@ + decimal_of_nat(n as nat),
    decreases n,
{
    if n >= 10 {
        push_unsigned(out, n / 10);
    }
    out.push(digit_char((n % 10) as u8));
}

/// Appends an integer in decimal, with its sign where it is negative.
pub fn push_signed(out: &mut String, n: i64)
    ensures
        final(out)@ == old(out)@ + decimal(n as int),
{
    if n < 0 {
        out.push('-');
        let magnitude: u64 = ((-(n + 1)) as u64) + 1;
        push_unsigned(out, magnitude);
    } else {
        push_unsigned(out, n as u64);
    }
}

/// `hex::encode`. Claimed, as its source shows: each byte becomes two
/// characters of `0123456789abcdef`, the one for its high four bits and
/// then the one for its low four bits, in the order of the bytes.
#[verifier::external_body]
pub(crate) fn hex_encode(data: &[u8]) -> (text: String)
    ensures
        text@ == hex_text(data@),
{
    hex::encode(data)
}

} // verus!
