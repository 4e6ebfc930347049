//! Cell references: a column in capital letters, then a row in digits.

use crate::text::{
    chars_of, decimal_digits, is_digit, lemma_decimal_round_trip, parse_digits, parse_digits_spec,
    usize_to_text,
};
use vstd::prelude::*;
use vstd::string::*;

verus! {

/// Whether `c` is a capital letter of the Latin alphabet.
pub open spec fn is_letter(c: char) -> bool {
    'A' <= c <= 'Z'
}

/// The place of a capital letter in the alphabet, from 1.
pub open spec fn letter_value(c: char) -> nat {
    (c as int - 'A' as int + 1) as nat
}

/// The capital letter at place `d` of the alphabet, from 0.
pub open spec fn letter_of(d: nat) -> char {
    (d + 'A' as nat) as char
}

/// How many capital letters stand in a row in `s` from position `from` on.
pub open spec fn letter_run(s: Seq<char>, from: int) -> nat
    decreases s.len() - from,
{
    if 0 <= from < s.len() && is_letter(s[from]) {
        1 + letter_run(s, from + 1)
    } else {
        0
    }
}

/// The number of the column that the letters name: `A` is 1, `Z` is 26,
/// `AA` is 27.
pub open spec fn column_number(letters: Seq<char>) -> nat
    decreases letters.len(),
{
    if letters.len() == 0 {
        0
    } else {
        column_number(letters.drop_last()) * 26 + letter_value(letters.last())
    }
}

/// The letters that name column `n`; none for 0.
pub open spec fn column_letters(n: nat) -> Seq<char>
    decreases n,
{
    if n == 0 {
        Seq::empty()
    } else {
        column_letters(((n - 1) / 26) as nat).push(letter_of(((n - 1) % 26) as nat))
    }
}

/// The column and the row that a reference names: one or more capital
/// letters, then one or more digits, and nothing else; `None` for any other
/// text and where a number does not fit.
pub open spec fn decode_coordinate(s: Seq<char>) -> Option<(usize, usize)> {
    let letters = letter_run(s, 0);
    let column = column_number(s.take(letters as int));
    match parse_digits_spec(s, letters as int) {
        Some(row) if letters > 0 && column <= usize::MAX => Some((column as usize, row)),
        _ => None,
    }
}

/// The reference that names a column and a row.
pub open spec fn encode_coordinate(column: usize, row: usize) -> Seq<char> {
    column_letters(column as nat) + decimal_digits(row as nat)
}

/// The letters written for a column name that column, and are letters.
pub proof fn lemma_column_round_trip(n: nat)
    ensures
        column_number(column_letters(n)) == n,
        forall|i: int|
            0 <= i < column_letters(n).len() ==> is_letter(#[trigger] column_letters(n)[i]),
        n > 0 ==> column_letters(n).len() > 0,
    decreases n,
{
    if n > 0 {
        let rest = ((n - 1) / 26) as nat;
        lemma_column_round_trip(rest);
        assert(column_letters(n).drop_last() =~= column_letters(rest));
    }
}

/// Where the letters of a text stop, given that they are letters up to
/// `end` and no letter stands there.
pub proof fn lemma_letter_run(s: Seq<char>, from: int, end: int)
    requires
        0 <= from <= end <= s.len(),
        forall|i: int| from <= i < end ==> is_letter(#[trigger] s[i]),
        end == s.len() || !is_letter(s[end]),
    ensures
        letter_run(s, from) == end - from,
    decreases end - from,
{
    if from < end {
        lemma_letter_run(s, from + 1, end);
    }
}

/// Reading back the reference written for a column and a row gives that
/// column and that row.
pub proof fn lemma_coordinate_round_trip(column: usize, row: usize)
    requires
        column >= 1,
    ensures
        decode_coordinate(encode_coordinate(column, row)) == Some((column, row)),
{
    let letters = column_letters(column as nat);
    let digits = decimal_digits(row as nat);
    let s = encode_coordinate(column, row);
    lemma_column_round_trip(column as nat);
    lemma_decimal_round_trip(row as nat);
    assert(is_digit(digits[0]));
    assert(s[letters.len() as int] == digits[0]);
    assert forall|i: int| 0 <= i < letters.len() implies is_letter(#[trigger] s[i]) by {
        assert(s[i] == letters[i]);
    }
    lemma_letter_run(s, 0, letters.len() as int);
    assert(s.take(letters.len() as int) =~= letters);
    assert(s.skip(letters.len() as int) =~= digits);
}

/// Reads a cell reference in capital letters.
pub fn index_from_coordinate(coordinate: &str) -> (index: Option<(usize, usize)>)
    ensures
        index == decode_coordinate(coordinate@),
{
    let chars = chars_of(coordinate);
    let mut column: usize = 0;
    let mut overflow = false;
    let mut i: usize = 0;
    while i < chars.len() && 'A' <= chars[i] && chars[i] <= 'Z'
        invariant
            i <= chars.len(),
            letter_run(chars@, 0) == i + letter_run(chars@, i as int),
            !overflow ==> column == column_number(chars@.take(i as int)),
            overflow ==> column_number(chars@.take(i as int)) > usize::MAX,
        decreases chars.len() - i,
    {
        let ghost next = chars@.take(i + 1);
        proof {
            assert(next.drop_last() =~= chars@.take(i as int));
            assert(next.last() == chars@[i as int]);
        }
        let d: usize = (chars[i] as u8 - 64) as usize;
        if !overflow {
            match column.checked_mul(26) {
                Some(shifted) => match shifted.checked_add(d) {
                    Some(v) => {
                        column = v;
                    },
                    None => {
                        overflow = true;
                    },
                },
                None => {
                    overflow = true;
                },
            }
        }
        i += 1;
    }
    if i == 0 || overflow {
        return None;
    }
    match parse_digits(&chars, i) {
        Some(row) => Some((column, row)),
        None => None,
    }
}

/// Writes the reference of a cell.
pub fn coordinate_from_index(column: usize, row: usize) -> (coordinate: String)
    ensures
        coordinate@ == encode_coordinate(column, row),
{
    let mut reversed: Vec<char> = Vec::new();
    let mut rest: usize = column;
    while rest > 0
        invariant
            column_letters(column as nat) == column_letters(rest as nat) + Seq::new(
                reversed.len() as nat,
                |j: int| reversed[reversed.len() - 1 - j],
            ),
        decreases rest,
    {
        let ghost before = reversed@;
        let ghost rest_before = rest;
        let d: u8 = ((rest - 1) % 26) as u8;
        reversed.push((65u8 + d) as char);
        rest = (rest - 1) / 26;
        assert(column_letters(rest_before as nat) == column_letters(rest as nat).push(
            letter_of(d as nat),
        ));
        assert(column_letters(rest as nat).push(letter_of(d as nat)) + Seq::new(
            before.len() as nat,
            |j: int| before[before.len() - 1 - j],
        ) =~= column_letters(rest as nat) + Seq::new(
            reversed.len() as nat,
            |j: int| reversed[reversed.len() - 1 - j],
        ));
    }
    let mut coordinate = String::new();
    let mut k: usize = reversed.len();
    while k > 0
        invariant
            k <= reversed.len(),
            coordinate@ == Seq::new(
                (reversed.len() - k) as nat,
                |j: int| reversed[reversed.len() - 1 - j],
            ),
        decreases k,
    {
        k -= 1;
        coordinate.push(reversed[k]);
        assert(coordinate@ =~= Seq::new(
            (reversed.len() - k) as nat,
            |j: int| reversed[reversed.len() - 1 - j],
        ));
    }
    assert(coordinate@ =~= column_letters(column as nat));
    coordinate.append(usize_to_text(row).as_str());
    coordinate
}

} // verus!
