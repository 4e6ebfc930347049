//! Text helpers: comparison of strings, decimal numbers and the grammar of
//! real numbers, all stated over sequences of characters.

use vstd::prelude::*;
use vstd::string::*;

verus! {

/// `String::push`: the contract claims what its documentation says, that
/// the given character is appended to the end of the string.
pub assume_specification[ String::push ](s: &mut String, ch: char)
    ensures
        final(s)@ == old(s)@.push(ch),
;

/// Whether `c` is one of the ten decimal digits.
pub open spec fn is_digit(c: char) -> bool {
    '0' <= c <= '9'
}

/// The number that the decimal digit `c` stands for.
pub open spec fn digit_value(c: char) -> nat {
    (c as int - '0' as int) as nat
}

/// The character that writes the number `d`, for `d` below ten.
pub open spec fn digit_of(d: nat) -> char {
    (d + '0' as nat) as char
}

/// Whether every character of `s` is a decimal digit.
pub open spec fn all_digits(s: Seq<char>) -> bool {
    forall|i: int| 0 <= i < s.len() ==> is_digit(#[trigger] s[i])
}

/// The number written by the digits `s`, most significant digit first.
pub open spec fn decimal_value(s: Seq<char>) -> nat
    decreases s.len(),
{
    if s.len() == 0 {
        0
    } else {
        decimal_value(s.drop_last()) * 10 + digit_value(s.last())
    }
}

/// The shortest decimal writing of `n`.
pub open spec fn decimal_digits(n: nat) -> Seq<char>
    decreases n,
{
    if n < 10 {
        seq![digit_of(n)]
    } else {
        decimal_digits(n / 10).push(digit_of(n % 10))
    }
}

/// The digits of an unsigned number, once an optional leading `+` is dropped.
pub open spec fn unsigned_digits(s: Seq<char>) -> Seq<char> {
    if s.len() > 0 && s[0] == '+' {
        s.skip(1)
    } else {
        s
    }
}

/// What `s` denotes as an unsigned machine integer: an optional `+`, then
/// one or more digits and nothing else, the value of which fits.
pub open spec fn parse_usize_spec(s: Seq<char>) -> Option<usize> {
    let digits = unsigned_digits(s);
    if digits.len() > 0 && all_digits(digits) && decimal_value(digits) <= usize::MAX {
        Some(decimal_value(digits) as usize)
    } else {
        None
    }
}

/// A longer digit string never denotes a smaller number than its prefix.
pub proof fn lemma_decimal_value_prefix(s: Seq<char>, n: int)
    requires
        0 <= n <= s.len(),
    ensures
        decimal_value(s.take(n)) <= decimal_value(s),
    decreases s.len(),
{
    if n == s.len() {
        assert(s.take(n) =~= s);
    } else {
        assert(s.drop_last().take(n) =~= s.take(n));
        lemma_decimal_value_prefix(s.drop_last(), n);
    }
}

/// Whether two strings hold the same characters.
pub fn text_eq(a: &str, b: &str) -> (same: bool)
    ensures
        same == (a@ == b@),
{
    let x = a.as_bytes();
    let y = b.as_bytes();
    proof {
        vstd::utf8::encode_utf8_decode_utf8(a@);
        vstd::utf8::encode_utf8_decode_utf8(b@);
    }
    if x.len() != y.len() {
        return false;
    }
    let mut i: usize = 0;
    while i < x.len()
        invariant
            i <= x.len(),
            x.len() == y.len(),
            x@ == a.spec_bytes(),
            y@ == b.spec_bytes(),
            forall|j: int| 0 <= j < i ==> x@[j] == y@[j],
        decreases x.len() - i,
    {
        if x[i] != y[i] {
            return false;
        }
        i += 1;
    }
    assert(x@ =~= y@);
    true
}

/// The characters of a string, one by one.
pub fn chars_of(s: &str) -> (chars: Vec<char>)
    ensures
        chars@ == s@,
{
    let mut chars: Vec<char> = Vec::new();
    for c in it: s.chars()
        invariant
            chars@ == it.seq().take(it.index() as int),
            it.seq() == s@,
    {
        chars.push(c);
    }
    chars
}

/// The number that the digits from `from` to the end write, if there is a
/// digit, there are digits only, and the number fits.
pub open spec fn parse_digits_spec(s: Seq<char>, from: int) -> Option<usize> {
    let digits = s.skip(from);
    if digits.len() > 0 && all_digits(digits) && decimal_value(digits) <= usize::MAX {
        Some(decimal_value(digits) as usize)
    } else {
        None
    }
}

/// Reads the digits that make up the rest of `chars`.
pub fn parse_digits(chars: &Vec<char>, from: usize) -> (number: Option<usize>)
    requires
        from <= chars.len(),
    ensures
        number == parse_digits_spec(chars@, from as int),
{
    let ghost digits = chars@.skip(from as int);
    if from == chars.len() {
        return None;
    }
    let mut value: usize = 0;
    let mut i: usize = from;
    while i < chars.len()
        invariant
            from <= i <= chars.len(),
            digits == chars@.skip(from as int),
            all_digits(digits.take(i - from)),
            value == decimal_value(digits.take(i - from)),
        decreases chars.len() - i,
    {
        let c = chars[i];
        let ghost next = digits.take(i - from + 1);
        proof {
            assert(next.drop_last() =~= digits.take(i - from));
            assert(next.last() == chars@[i as int]);
            lemma_decimal_value_prefix(digits, i - from + 1);
        }
        if c < '0' || c > '9' {
            assert(!is_digit(digits[i - from]));
            return None;
        }
        let d: usize = (c as u8 - 48) as usize;
        let shifted = match value.checked_mul(10) {
            Some(v) => v,
            None => {
                return None;
            },
        };
        value = match shifted.checked_add(d) {
            Some(v) => v,
            None => {
                return None;
            },
        };
        i += 1;
        assert forall|j: int| 0 <= j < next.len() implies is_digit(#[trigger] next[j]) by {
            if j < next.len() - 1 {
                assert(next[j] == digits.take(i - from - 1)[j]);
            }
        }
    }
    assert(digits.take(i - from) =~= digits);
    Some(value)
}

/// Reads an unsigned decimal number: an optional `+`, then digits only.
pub fn parse_usize(s: &str) -> (number: Option<usize>)
    ensures
        number == parse_usize_spec(s@),
{
    let chars = chars_of(s);
    let from: usize = if chars.len() > 0 && chars[0] == '+' {
        1
    } else {
        0
    };
    assert(unsigned_digits(s@) =~= chars@.skip(from as int));
    parse_digits(&chars, from)
}

/// Writes `n` in decimal, without sign and without leading zeros.
pub fn usize_to_text(n: usize) -> (text: String)
    ensures
        text@ == decimal_digits(n as nat),
{
    let mut reversed: Vec<u8> = Vec::new();
    let mut rest: usize = n;
    while rest >= 10
        invariant
            forall|j: int| 0 <= j < reversed.len() ==> #[trigger] reversed[j] < 10,
            decimal_digits(n as nat) == decimal_digits(rest as nat) + Seq::new(
                reversed.len() as nat,
                |j: int| digit_of(reversed[reversed.len() - 1 - j] as nat),
            ),
        decreases rest,
    {
        let ghost before = reversed@;
        reversed.push((rest % 10) as u8);
        assert(decimal_digits(rest as nat) == decimal_digits((rest / 10) as nat).push(
            digit_of((rest % 10) as nat),
        ));
        assert(decimal_digits((rest / 10) as nat).push(digit_of((rest % 10) as nat)) + Seq::new(
            before.len() as nat,
            |j: int| digit_of(before[before.len() - 1 - j] as nat),
        ) =~= decimal_digits((rest / 10) as nat) + Seq::new(
            reversed.len() as nat,
            |j: int| digit_of(reversed[reversed.len() - 1 - j] as nat),
        ));
        rest = rest / 10;
    }
    let mut text = String::new();
    text.push((48u8 + rest as u8) as char);
    let mut k: usize = reversed.len();
    while k > 0
        invariant
            k <= reversed.len(),
            forall|j: int| 0 <= j < reversed.len() ==> #[trigger] reversed[j] < 10,
            text@ == decimal_digits(rest as nat) + Seq::new(
                (reversed.len() - k) as nat,
                |j: int| digit_of(reversed[reversed.len() - 1 - j] as nat),
            ),
        decreases k,
    {
        k -= 1;
        let ghost before = text@;
        text.push((48u8 + reversed[k]) as char);
        assert(text@ =~= decimal_digits(rest as nat) + Seq::new(
            (reversed.len() - k) as nat,
            |j: int| digit_of(reversed[reversed.len() - 1 - j] as nat),
        ));
    }
    text
}

/// The digits written for a number read back give the number.
pub proof fn lemma_decimal_round_trip(n: nat)
    ensures
        all_digits(decimal_digits(n)),
        decimal_digits(n).len() > 0,
        decimal_value(decimal_digits(n)) == n,
    decreases n,
{
    if n < 10 {
        let s = decimal_digits(n);
        assert(s.drop_last() =~= Seq::<char>::empty());
        assert(decimal_value(s.drop_last()) == 0);
    } else {
        lemma_decimal_round_trip(n / 10);
        let s = decimal_digits(n);
        assert(s.drop_last() =~= decimal_digits(n / 10));
    }
}

/// Whether `c` is a sign.
pub open spec fn is_sign(c: char) -> bool {
    c == '+' || c == '-'
}

/// `c` in lower case, where it is a capital letter of the Latin alphabet.
pub open spec fn lower(c: char) -> char {
    if 'A' <= c <= 'Z' {
        (c as int + 32) as char
    } else {
        c
    }
}

/// `c` as a capital letter, where it is a small letter of the Latin alphabet.
pub open spec fn upper(c: char) -> char {
    if 'a' <= c <= 'z' {
        (c as int - 32) as char
    } else {
        c
    }
}

/// `s` with its small Latin letters made capital.
pub open spec fn upper_text(s: Seq<char>) -> Seq<char> {
    Seq::new(s.len(), |i: int| upper(s[i]))
}

/// How many digits stand in a row in `s` from position `from` on.
pub open spec fn digit_run(s: Seq<char>, from: int) -> nat
    decreases s.len() - from,
{
    if 0 <= from < s.len() && is_digit(s[from]) {
        1 + digit_run(s, from + 1)
    } else {
        0
    }
}

/// Whether `s` from `from` on is `word`, whatever the case of its letters.
/// `word` is in lower case.
pub open spec fn is_word_at(s: Seq<char>, from: int, word: Seq<char>) -> bool {
    &&& s.len() == from + word.len()
    &&& forall|i: int| 0 <= i < word.len() ==> lower(#[trigger] s[from + i]) == word[i]
}

/// Whether `s` from `from` to its end is an exponent: `e`, an optional
/// sign, and one or more digits.
pub open spec fn is_exponent_at(s: Seq<char>, from: int) -> bool {
    let digits = if from + 1 < s.len() && is_sign(s[from + 1]) {
        from + 2
    } else {
        from + 1
    };
    &&& 0 <= from < s.len()
    &&& lower(s[from]) == 'e'
    &&& digit_run(s, digits) > 0
    &&& digits + digit_run(s, digits) == s.len()
}

/// Whether `s` from `from` to its end is a number: digits with at most one
/// point among them and at least one digit, then an optional exponent.
pub open spec fn is_number_at(s: Seq<char>, from: int) -> bool {
    let whole = digit_run(s, from);
    let point = from + whole;
    if point < s.len() && s[point] == '.' {
        let fraction = digit_run(s, point + 1);
        let end = point + 1 + fraction;
        whole + fraction > 0 && (end == s.len() || is_exponent_at(s, end))
    } else {
        whole > 0 && (point == s.len() || is_exponent_at(s, point))
    }
}

/// Whether `s` writes a real number: an optional sign, then a number, or
/// one of the words `inf`, `infinity` and `nan` in any case.
pub open spec fn is_real_text(s: Seq<char>) -> bool {
    let from: int = if s.len() > 0 && is_sign(s[0]) {
        1
    } else {
        0
    };
    ||| is_word_at(s, from, seq!['i', 'n', 'f'])
    ||| is_word_at(s, from, seq!['i', 'n', 'f', 'i', 'n', 'i', 't', 'y'])
    ||| is_word_at(s, from, seq!['n', 'a', 'n'])
    ||| is_number_at(s, from)
}

fn to_lower(c: char) -> (l: char)
    ensures
        l == lower(c),
{
    if 'A' <= c && c <= 'Z' {
        (c as u8 + 32) as char
    } else {
        c
    }
}

fn to_upper(c: char) -> (u: char)
    ensures
        u == upper(c),
{
    if 'a' <= c && c <= 'z' {
        (c as u8 - 32) as char
    } else {
        c
    }
}

/// Makes the small Latin letters of a string capital.
pub fn to_upper_text(s: &str) -> (text: String)
    ensures
        text@ == upper_text(s@),
{
    let chars = chars_of(s);
    let mut text = String::new();
    let mut i: usize = 0;
    while i < chars.len()
        invariant
            i <= chars.len(),
            text@ == upper_text(chars@.take(i as int)),
        decreases chars.len() - i,
    {
        text.push(to_upper(chars[i]));
        i += 1;
        assert(text@ =~= upper_text(chars@.take(i as int)));
    }
    assert(chars@.take(i as int) =~= chars@);
    text
}

fn end_of_digits(chars: &Vec<char>, from: usize) -> (end: usize)
    requires
        from <= chars.len(),
    ensures
        end == from + digit_run(chars@, from as int),
        end <= chars.len(),
{
    let mut i: usize = from;
    while i < chars.len() && '0' <= chars[i] && chars[i] <= '9'
        invariant
            from <= i <= chars.len(),
            digit_run(chars@, from as int) == (i - from) + digit_run(chars@, i as int),
        decreases chars.len() - i,
    {
        i += 1;
    }
    i
}

fn word_at(chars: &Vec<char>, from: usize, word: &Vec<char>) -> (found: bool)
    requires
        from <= chars.len(),
    ensures
        found == is_word_at(chars@, from as int, word@),
{
    if chars.len() - from != word.len() {
        return false;
    }
    let mut i: usize = 0;
    while i < word.len()
        invariant
            i <= word.len(),
            chars.len() == from + word.len(),
            forall|j: int| 0 <= j < i ==> lower(#[trigger] chars@[from + j]) == word@[j],
        decreases word.len() - i,
    {
        if to_lower(chars[from + i]) != word[i] {
            return false;
        }
        i += 1;
    }
    true
}

fn exponent_at(chars: &Vec<char>, from: usize) -> (found: bool)
    requires
        from <= chars.len(),
    ensures
        found == is_exponent_at(chars@, from as int),
{
    if from >= chars.len() || to_lower(chars[from]) != 'e' {
        return false;
    }
    let digits: usize = if from + 1 < chars.len() && (chars[from + 1] == '+' || chars[from + 1]
        == '-') {
        from + 2
    } else {
        from + 1
    };
    let end = end_of_digits(chars, digits);
    end > digits && end == chars.len()
}

/// Whether a text writes a real number.
pub fn is_real(s: &str) -> (accepted: bool)
    ensures
        accepted == is_real_text(s@),
{
    let chars = chars_of(s);
    let from: usize = if chars.len() > 0 && (chars[0] == '+' || chars[0] == '-') {
        1
    } else {
        0
    };
    if word_at(&chars, from, &vec!['i', 'n', 'f']) {
        return true;
    }
    if word_at(&chars, from, &vec!['i', 'n', 'f', 'i', 'n', 'i', 't', 'y']) {
        return true;
    }
    if word_at(&chars, from, &vec!['n', 'a', 'n']) {
        return true;
    }
    let point = end_of_digits(&chars, from);
    if point < chars.len() && chars[point] == '.' {
        let end = end_of_digits(&chars, point + 1);
        end - point - 1 + (point - from) > 0 && (end == chars.len() || exponent_at(&chars, end))
    } else {
        point > from && (point == chars.len() || exponent_at(&chars, point))
    }
}

} // verus!
