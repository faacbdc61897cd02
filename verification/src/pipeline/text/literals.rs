//! Literals of floating-point numbers: the strings that the standard
//! library's parser of such numbers takes.

use vstd::prelude::*;

verus! {

/// A decimal digit.
pub open spec fn is_digit(c: char) -> bool {
    '0' <= c <= '9'
}

/// A sign.
pub open spec fn is_sign(c: char) -> bool {
    c == '+' || c == '-'
}

/// `c` is the small letter `small`, or its capital.
pub open spec fn is_letter(c: char, small: char) -> bool {
    c == small || c as u32 + 32 == small as u32
}

/// Where the run of digits that begins at `from` ends.
pub open spec fn digits_end(s: Seq<char>, from: int) -> int
    decreases s.len() - from,
{
    if 0 <= from < s.len() && is_digit(s[from]) {
        digits_end(s, from + 1)
    } else {
        from
    }
}

/// From `from` to its end, `s` spells `word`, in small or capital letters.
pub open spec fn spells(s: Seq<char>, from: int, word: Seq<char>) -> bool {
    &&& s.len() - from == word.len()
    &&& forall|i: int| 0 <= i < word.len() ==> is_letter(s[from + i], #[trigger] word[i])
}

/// From `from` to its end, `s` is an exponent: the letter `e`, a sign or
/// none, and one digit or more.
pub open spec fn is_exponent(s: Seq<char>, from: int) -> bool {
    let digits = if from + 1 < s.len() && is_sign(s[from + 1]) {
        from + 2
    } else {
        from + 1
    };
    &&& 0 <= from < s.len()
    &&& is_letter(s[from], 'e')
    &&& digits < s.len()
    &&& digits_end(s, digits) == s.len()
}

/// From `from` to its end, `s` is a number: digits with at most one point
/// among them, before it or after it or both, at least one digit in all, and
/// then an exponent or nothing.
pub open spec fn is_number(s: Seq<char>, from: int) -> bool {
    let point = digits_end(s, from);
    let fraction = if point < s.len() && s[point] == '.' {
        point + 1
    } else {
        point
    };
    let end = digits_end(s, fraction);
    &&& (point - from) + (end - fraction) > 0
    &&& (end == s.len() || is_exponent(s, end))
}

/// `s` is a literal of a floating-point number: a sign or none, and then a
/// number or one of the words `inf`, `infinity` and `nan`.
pub open spec fn is_float_literal(s: Seq<char>) -> bool {
    let from = if s.len() > 0 && is_sign(s[0]) {
        1int
    } else {
        0int
    };
    ||| is_number(s, from)
    ||| spells(s, from, seq!['i', 'n', 'f'])
    ||| spells(s, from, seq!['n', 'a', 'n'])
    ||| spells(s, from, seq!['i', 'n', 'f', 'i', 'n', 'i', 't', 'y'])
}

/// Whether `s` is a literal of a floating-point number.
pub fn float_literal(s: &Vec<char>) -> (b: bool)
    ensures
        b == is_float_literal(s@),
{
    let from: usize = if s.len() > 0 && sign(s[0]) {
        1
    } else {
        0
    };
    number(s, from) || word(s, from)
}

fn digit(c: char) -> (b: bool)
    ensures
        b == is_digit(c),
{
    '0' <= c && c <= '9'
}

fn sign(c: char) -> (b: bool)
    ensures
        b == is_sign(c),
{
    c == '+' || c == '-'
}

fn letter(c: char, small: char) -> (b: bool)
    ensures
        b == is_letter(c, small),
{
    c == small || (c as u32) + 32 == (small as u32)
}

fn end_of_digits(s: &Vec<char>, from: usize) -> (end: usize)
    requires
        from <= s.len(),
    ensures
        end == digits_end(s@, from as int),
        from <= end <= s.len(),
{
    let mut end: usize = from;
    while end < s.len() && digit(s[end])
        invariant
            from <= end <= s.len(),
            digits_end(s@, from as int) == digits_end(s@, end as int),
        decreases s.len() - end,
    {
        end = end + 1;
    }
    end
}

fn exponent(s: &Vec<char>, from: usize) -> (b: bool)
    requires
        from < s.len(),
    ensures
        b == is_exponent(s@, from as int),
{
    if !letter(s[from], 'e') {
        return false;
    }
    let digits: usize = if from + 1 < s.len() && sign(s[from + 1]) {
        from + 2
    } else {
        from + 1
    };
    digits < s.len() && end_of_digits(s, digits) == s.len()
}

fn number(s: &Vec<char>, from: usize) -> (b: bool)
    requires
        from <= s.len(),
    ensures
        b == is_number(s@, from as int),
{
    let point: usize = end_of_digits(s, from);
    let fraction: usize = if point < s.len() && s[point] == '.' {
        point + 1
    } else {
        point
    };
    let end: usize = end_of_digits(s, fraction);
    (point - from) + (end - fraction) > 0 && (end == s.len() || exponent(s, end))
}

fn word(s: &Vec<char>, from: usize) -> (b: bool)
    requires
        from <= s.len(),
    ensures
        b == (spells(s@, from as int, seq!['i', 'n', 'f']) || spells(
            s@,
            from as int,
            seq!['n', 'a', 'n'],
        ) || spells(s@, from as int, seq!['i', 'n', 'f', 'i', 'n', 'i', 't', 'y'])),
{
    let ghost inf = seq!['i', 'n', 'f'];
    let ghost nan = seq!['n', 'a', 'n'];
    let ghost infinity = seq!['i', 'n', 'f', 'i', 'n', 'i', 't', 'y'];
    let n: usize = s.len() - from;
    if n == 3 {
        let is_inf = letter(s[from], 'i') && letter(s[from + 1], 'n') && letter(s[from + 2], 'f');
        let is_nan = letter(s[from], 'n') && letter(s[from + 1], 'a') && letter(s[from + 2], 'n');
        proof {
            assert(inf[0] == 'i' && inf[1] == 'n' && inf[2] == 'f');
            assert(nan[0] == 'n' && nan[1] == 'a' && nan[2] == 'n');
            assert(is_inf == spells(s@, from as int, inf));
            assert(is_nan == spells(s@, from as int, nan));
        }
        is_inf || is_nan
    } else if n == 8 {
        let b = letter(s[from], 'i') && letter(s[from + 1], 'n') && letter(s[from + 2], 'f')
            && letter(s[from + 3], 'i') && letter(s[from + 4], 'n') && letter(s[from + 5], 'i')
            && letter(s[from + 6], 't') && letter(s[from + 7], 'y');
        proof {
            assert(infinity[0] == 'i' && infinity[1] == 'n' && infinity[2] == 'f' && infinity[3]
                == 'i' && infinity[4] == 'n' && infinity[5] == 'i' && infinity[6] == 't'
                && infinity[7] == 'y');
            assert(b == spells(s@, from as int, infinity));
        }
        b
    } else {
        false
    }
}

} // verus!
