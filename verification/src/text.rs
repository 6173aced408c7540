//! Reading and writing the two numerals of a cell's notation: row letters and
//! decimal digits.

use crate::notation::{
    all_digits, all_letters, decimal, digit_of, digit_value, digits_value, is_digit,
    is_row_letter, letter_of, letter_value, letters_value, row_letters,
};
use vstd::prelude::*;

verus! {

/// `String::push` of the standard library appends the given character to the
/// end of the string.
pub assume_specification[ String::push ](text: &mut String, c: char)
    ensures
        final(text)@ == old(text)@.push(c),
;

/// The characters of a string, in order.
pub(crate) fn chars_of(s: &str) -> (chars: Vec<char>)
    ensures
        chars@ == s@,
{
    let mut chars: Vec<char> = Vec::new();
    let ghost all = s@;
    for c in it: s.chars()
        invariant
            it.seq() == all,
            chars@ == all.take(it.index()),
    {
        proof {
            assert(all.take(it.index() + 1) =~= all.take(it.index()).push(c));
        }
        chars.push(c);
    }
    proof {
        assert(all.take(all.len() as int) =~= all);
    }
    chars
}

/// Appends the characters of `rev`, last one first.
pub(crate) fn push_reversed(text: &mut String, rev: &Vec<char>)
    ensures
        final(text)@ == old(text)@ + rev@.reverse(),
{
    let mut i: usize = rev.len();
    while i > 0
        invariant
            i <= rev.len(),
            text@ == old(text)@ + rev@.reverse().take(rev.len() - i),
        decreases i,
    {
        i -= 1;
        proof {
            let r = rev@.reverse();
            let k = rev.len() - i - 1;
            assert(r[k] == rev@[i as int]);
            assert(r.take(k + 1) =~= r.take(k).push(rev@[i as int]));
            assert(old(text)@ + r.take(k + 1) =~= (old(text)@ + r.take(k)).push(rev@[i as int]));
        }
        text.push(rev[i]);
    }
    proof {
        let r = rev@.reverse();
        assert(r.take(rev.len() as int) =~= r);
    }
}

/// The upper-case letter for a digit from 0 (`A`) to 25 (`Z`).
fn letter(d: u8) -> (c: char)
    requires
        d < 26,
    ensures
        c == letter_of(d as int),
{
    (65u8 + d) as char
}

/// The character for a digit from 0 to 9.
fn digit(d: u8) -> (c: char)
    requires
        d < 10,
    ensures
        c == digit_of(d as int),
{
    (48u8 + d) as char
}

/// Appends the letters that spell a row: the digits of the row in base 26
/// without a zero, found from the last to the first and then turned round.
pub(crate) fn push_row_letters(text: &mut String, row: usize)
    ensures
        final(text)@ == old(text)@ + row_letters(row as nat),
{
    let mut rev: Vec<char> = Vec::new();
    let mut n: usize = row;
    loop
        invariant_except_break
            row_letters(row as nat) == row_letters(n as nat) + rev@.reverse(),
        ensures
            row_letters(row as nat) == rev@.reverse(),
        decreases n,
    {
        let d: u8 = (n % 26) as u8;
        let ghost before = rev@;
        rev.push(letter(d));
        proof {
            assert(rev@.reverse() =~= seq![letter_of(d as int)] + before.reverse());
            if n >= 26 {
                let head = row_letters((n / 26 - 1) as nat);
                assert(row_letters(n as nat) == head.push(letter_of(d as int)));
                assert(head.push(letter_of(d as int)) + before.reverse() =~= head + rev@.reverse());
            } else {
                assert(row_letters(n as nat) + before.reverse() =~= rev@.reverse());
            }
        }
        if n < 26 {
            break ;
        }
        n = n / 26 - 1;
    }
    push_reversed(text, &rev);
}

/// Appends the decimal digits of a number, found from the last to the first
/// and then turned round.
pub(crate) fn push_decimal(text: &mut String, number: u128)
    ensures
        final(text)@ == old(text)@ + decimal(number as nat),
{
    let mut rev: Vec<char> = Vec::new();
    let mut n: u128 = number;
    loop
        invariant_except_break
            decimal(number as nat) == decimal(n as nat) + rev@.reverse(),
        ensures
            decimal(number as nat) == rev@.reverse(),
        decreases n,
    {
        let d: u8 = (n % 10) as u8;
        let ghost before = rev@;
        rev.push(digit(d));
        proof {
            assert(rev@.reverse() =~= seq![digit_of(d as int)] + before.reverse());
            if n >= 10 {
                let head = decimal((n / 10) as nat);
                assert(decimal(n as nat) == head.push(digit_of(d as int)));
                assert(head.push(digit_of(d as int)) + before.reverse() =~= head + rev@.reverse());
            } else {
                assert(decimal(n as nat) + before.reverse() =~= rev@.reverse());
            }
        }
        if n < 10 {
            break ;
        }
        n = n / 10;
    }
    push_reversed(text, &rev);
}

/// Whether a character is an ASCII letter, of either case.
pub(crate) fn is_letter(c: char) -> (b: bool)
    ensures
        b == is_row_letter(c),
{
    ('A' <= c && c <= 'Z') || ('a' <= c && c <= 'z')
}

/// Whether a character is a decimal digit.
pub(crate) fn is_decimal_digit(c: char) -> (b: bool)
    ensures
        b == is_digit(c),
{
    '0' <= c && c <= '9'
}

/// How many letters `chars` starts with.
pub(crate) fn leading_letters(chars: &Vec<char>) -> (k: usize)
    ensures
        k <= chars.len(),
        all_letters(chars@.take(k as int)),
        k < chars.len() ==> !is_row_letter(chars@[k as int]),
{
    let mut k: usize = 0;
    while k < chars.len() && is_letter(chars[k])
        invariant
            k <= chars.len(),
            all_letters(chars@.take(k as int)),
        decreases chars.len() - k,
    {
        proof {
            assert forall|i: int| 0 <= i < k + 1 implies is_row_letter(
                #[trigger] chars@.take(k + 1)[i],
            ) by {
                if i < k {
                    assert(chars@.take(k as int)[i] == chars@[i]);
                }
            }
        }
        k += 1;
    }
    k
}

/// Whether everything from index `start` on is a decimal digit.
pub(crate) fn only_digits_from(chars: &Vec<char>, start: usize) -> (b: bool)
    requires
        start <= chars.len(),
    ensures
        b == all_digits(chars@.skip(start as int)),
{
    let mut i: usize = start;
    while i < chars.len()
        invariant
            start <= i <= chars.len(),
            all_digits(chars@.subrange(start as int, i as int)),
        decreases chars.len() - i,
    {
        if !is_decimal_digit(chars[i]) {
            proof {
                assert(chars@.skip(start as int)[i - start] == chars@[i as int]);
            }
            return false;
        }
        proof {
            assert forall|j: int| 0 <= j < i + 1 - start implies is_digit(
                #[trigger] chars@.subrange(start as int, i + 1)[j],
            ) by {
                if j < i - start {
                    assert(chars@.subrange(start as int, i as int)[j] == chars@[start + j]);
                }
            }
        }
        i += 1;
    }
    proof {
        assert(chars@.subrange(start as int, chars.len() as int) =~= chars@.skip(start as int));
    }
    true
}

/// A numeral of row letters never spells less than a part it starts with, and
/// spells at least one as soon as it has a letter.
pub proof fn letters_value_grows(s: Seq<char>, k: int)
    requires
        all_letters(s),
        0 <= k <= s.len(),
    ensures
        letters_value(s.take(k)) <= letters_value(s),
        s.len() > 0 ==> letters_value(s) >= 1,
    decreases s.len(),
{
    if s.len() > 0 {
        assert(is_row_letter(s[s.len() - 1]));
        assert(all_letters(s.drop_last())) by {
            assert forall|i: int| 0 <= i < s.drop_last().len() implies is_row_letter(
                #[trigger] s.drop_last()[i],
            ) by {
                assert(s.drop_last()[i] == s[i]);
            }
        }
        if k < s.len() {
            letters_value_grows(s.drop_last(), k);
            assert(s.drop_last().take(k) =~= s.take(k));
        } else {
            assert(s.take(k) =~= s);
        }
    } else {
        assert(s.take(k) =~= s);
    }
}

/// A decimal numeral never spells less than a part it starts with.
pub proof fn digits_value_grows(s: Seq<char>, k: int)
    requires
        all_digits(s),
        0 <= k <= s.len(),
    ensures
        digits_value(s.take(k)) <= digits_value(s),
    decreases s.len(),
{
    if s.len() > 0 {
        assert(is_digit(s[s.len() - 1]));
        assert(all_digits(s.drop_last())) by {
            assert forall|i: int| 0 <= i < s.drop_last().len() implies is_digit(
                #[trigger] s.drop_last()[i],
            ) by {
                assert(s.drop_last()[i] == s[i]);
            }
        }
        if k < s.len() {
            digits_value_grows(s.drop_last(), k);
            assert(s.drop_last().take(k) =~= s.take(k));
        } else {
            assert(s.take(k) =~= s);
        }
    } else {
        assert(s.take(k) =~= s);
    }
}

/// The number that the first `end` characters spell as row letters, where it
/// is at most `limit`.
pub(crate) fn read_letters(chars: &Vec<char>, end: usize, limit: u128) -> (value: Option<u128>)
    requires
        end <= chars.len(),
        all_letters(chars@.take(end as int)),
        limit <= usize::MAX + 1,
    ensures
        match value {
            Some(v) => v == letters_value(chars@.take(end as int)) && v <= limit,
            None => letters_value(chars@.take(end as int)) > limit,
        },
{
    let ghost s = chars@.take(end as int);
    let mut acc: u128 = 0;
    let mut i: usize = 0;
    while i < end
        invariant
            i <= end <= chars.len(),
            s == chars@.take(end as int),
            all_letters(s),
            acc == letters_value(s.take(i as int)),
            acc <= limit <= usize::MAX + 1,
        decreases end - i,
    {
        let c = chars[i];
        proof {
            assert(s[i as int] == c);
            assert(is_row_letter(s[i as int]));
            assert(s.take(i + 1).drop_last() =~= s.take(i as int));
            assert(s.take(i + 1).last() == c);
        }
        let d: u128 = if 'a' <= c && c <= 'z' {
            (c as u128) - 96
        } else {
            (c as u128) - 64
        };
        assert(d == letter_value(c));
        acc = acc * 26 + d;
        i += 1;
        if acc > limit {
            proof {
                letters_value_grows(s, i as int);
            }
            return None;
        }
    }
    proof {
        assert(s.take(end as int) =~= s);
    }
    Some(acc)
}

/// The number that the characters from index `start` on spell in decimal,
/// where it is at most `limit`.
pub(crate) fn read_digits(chars: &Vec<char>, start: usize, limit: u128) -> (value: Option<u128>)
    requires
        start <= chars.len(),
        all_digits(chars@.skip(start as int)),
        limit <= usize::MAX + 1,
    ensures
        match value {
            Some(v) => v == digits_value(chars@.skip(start as int)) && v <= limit,
            None => digits_value(chars@.skip(start as int)) > limit,
        },
{
    let ghost s = chars@.skip(start as int);
    let mut acc: u128 = 0;
    let mut i: usize = start;
    while i < chars.len()
        invariant
            start <= i <= chars.len(),
            s == chars@.skip(start as int),
            all_digits(s),
            acc == digits_value(s.take(i - start)),
            acc <= limit <= usize::MAX + 1,
        decreases chars.len() - i,
    {
        let c = chars[i];
        proof {
            assert(s[i - start] == c);
            assert(is_digit(s[i - start]));
            assert(s.take(i + 1 - start).drop_last() =~= s.take(i - start));
            assert(s.take(i + 1 - start).last() == c);
        }
        let d: u128 = (c as u128) - 48;
        assert(d == digit_value(c));
        acc = acc * 10 + d;
        i += 1;
        if acc > limit {
            proof {
                digits_value_grows(s, i - start);
            }
            return None;
        }
    }
    proof {
        assert(s.take(chars.len() - start) =~= s);
    }
    Some(acc)
}

} // verus!
