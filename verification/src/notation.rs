//! The algebraic notation of a cell, as mathematics.
//!
//! A cell is written as its row in letters, a colon, and its column as a
//! decimal number counted from one: `A:1` is row 0, column 0. The row letters
//! are a numeral in base 26 whose digits are `A` = 1 up to `Z` = 26; there is
//! no digit for zero, so every row has exactly one spelling: `A`, `B`, ...,
//! `Z`, `AA`, `AB`, ...

use vstd::prelude::*;

verus! {

/// Whether a character may stand in the row part: an ASCII letter of either
/// case.
pub open spec fn is_row_letter(c: char) -> bool {
    ('A' as int <= c as int <= 'Z' as int) || ('a' as int <= c as int <= 'z' as int)
}

/// The digit, from 1 to 26, that a row letter stands for, whatever its case.
pub open spec fn letter_value(c: char) -> int {
    if 'a' as int <= c as int <= 'z' as int {
        c as int - 'a' as int + 1
    } else {
        c as int - 'A' as int + 1
    }
}

/// The upper-case letter for a digit from 0 (`A`) to 25 (`Z`).
pub open spec fn letter_of(d: int) -> char {
    ('A' as int + d) as char
}

/// The number that a string of row letters spells, read as a base-26 numeral
/// with the digits 1 to 26. The row is one less.
pub open spec fn letters_value(s: Seq<char>) -> nat
    decreases s.len(),
{
    if s.len() == 0 {
        0
    } else {
        (letters_value(s.drop_last()) * 26 + letter_value(s.last())) as nat
    }
}

/// The letters that spell a row.
pub open spec fn row_letters(row: nat) -> Seq<char>
    decreases row,
{
    if row < 26 {
        seq![letter_of(row as int)]
    } else {
        row_letters((row / 26 - 1) as nat).push(letter_of((row % 26) as int))
    }
}

/// Whether a character is a decimal digit.
pub open spec fn is_digit(c: char) -> bool {
    '0' as int <= c as int <= '9' as int
}

/// The value of a decimal digit.
pub open spec fn digit_value(c: char) -> int {
    c as int - '0' as int
}

/// The character for a digit from 0 to 9.
pub open spec fn digit_of(d: int) -> char {
    ('0' as int + d) as char
}

/// The number that a string of decimal digits spells.
pub open spec fn digits_value(s: Seq<char>) -> nat
    decreases s.len(),
{
    if s.len() == 0 {
        0
    } else {
        (digits_value(s.drop_last()) * 10 + digit_value(s.last())) as nat
    }
}

/// The decimal digits of a number, without leading zeros.
pub open spec fn decimal(n: nat) -> Seq<char>
    decreases n,
{
    if n < 10 {
        seq![digit_of(n as int)]
    } else {
        decimal(n / 10).push(digit_of((n % 10) as int))
    }
}

/// Whether every character of `s` is a row letter.
pub open spec fn all_letters(s: Seq<char>) -> bool {
    forall|i: int| 0 <= i < s.len() ==> is_row_letter(#[trigger] s[i])
}

/// Whether every character of `s` is a decimal digit.
pub open spec fn all_digits(s: Seq<char>) -> bool {
    forall|i: int| 0 <= i < s.len() ==> is_digit(#[trigger] s[i])
}

/// The notation of the cell in row `row` and column `col`.
pub open spec fn notation(row: nat, col: nat) -> Seq<char> {
    row_letters(row) + seq![':'] + decimal(col + 1)
}

/// Whether `s` is one or more row letters, a colon at index `k`, and one or
/// more digits.
pub open spec fn splits_at(s: Seq<char>, k: int) -> bool {
    &&& 0 < k < s.len() - 1
    &&& s[k] == ':'
    &&& all_letters(s.take(k))
    &&& all_digits(s.skip(k + 1))
}

/// Whether `s` has the shape of a cell's notation: letters, colon, digits.
pub open spec fn is_notation(s: Seq<char>) -> bool {
    exists|k: int| splits_at(s, k)
}

/// Where the colon of a notation stands.
pub open spec fn colon_of(s: Seq<char>) -> int {
    choose|k: int| splits_at(s, k)
}

/// The row and the column that a text denotes: `None` where the text has not
/// the shape of a notation, or names column zero, which no cell has.
pub open spec fn denoted(s: Seq<char>) -> Option<(nat, nat)> {
    if is_notation(s) && digits_value(s.skip(colon_of(s) + 1)) >= 1 {
        Some(
            (
                (letters_value(s.take(colon_of(s))) - 1) as nat,
                (digits_value(s.skip(colon_of(s) + 1)) - 1) as nat,
            ),
        )
    } else {
        None
    }
}

/// In a notation the colon stands right after the letters that the text
/// starts with.
pub proof fn colon_follows_the_letters(s: Seq<char>, k: int)
    requires
        0 <= k <= s.len(),
        all_letters(s.take(k)),
        k < s.len() ==> !is_row_letter(s[k]),
        is_notation(s),
    ensures
        colon_of(s) == k,
        splits_at(s, k),
{
    let c = colon_of(s);
    assert(splits_at(s, c));
    if c < k {
        assert(s.take(k)[c] == s[c]);
        assert(is_row_letter(s.take(k)[c]));
    } else if k < c {
        assert(s.take(c)[k] == s[k]);
        assert(is_row_letter(s.take(c)[k]));
    }
}

/// A notation has its colon in one place only.
pub proof fn colon_is_unique(s: Seq<char>, k: int)
    requires
        splits_at(s, k),
    ensures
        is_notation(s),
        colon_of(s) == k,
{
    colon_follows_the_letters(s, k);
}

/// The letters of a row are upper-case letters, at least one of them.
pub proof fn row_letters_are_letters(row: nat)
    ensures
        row_letters(row).len() >= 1,
        all_letters(row_letters(row)),
        forall|i: int|
            0 <= i < row_letters(row).len() ==> 'A' as int <= (#[trigger] row_letters(
                row,
            )[i]) as int <= 'Z' as int,
    decreases row,
{
    if row >= 26 {
        row_letters_are_letters((row / 26 - 1) as nat);
    }
}

/// Reading the letters of a row gives the row back (and one more, as the
/// numeral counts from one).
pub proof fn letters_value_of_row_letters(row: nat)
    ensures
        letters_value(row_letters(row)) == row + 1,
    decreases row,
{
    if row < 26 {
        let s = row_letters(row);
        assert(s.drop_last().len() == 0);
        assert(letters_value(s.drop_last()) == 0);
    } else {
        let head = row_letters((row / 26 - 1) as nat);
        let s = head.push(letter_of((row % 26) as int));
        letters_value_of_row_letters((row / 26 - 1) as nat);
        assert(s.drop_last() =~= head);
        assert(s.last() == letter_of((row % 26) as int));
    }
}

/// The digits of a number are digits, at least one of them.
pub proof fn decimal_is_digits(n: nat)
    ensures
        decimal(n).len() >= 1,
        all_digits(decimal(n)),
    decreases n,
{
    if n >= 10 {
        decimal_is_digits(n / 10);
    }
}

/// Reading the digits of a number gives the number back.
pub proof fn digits_value_of_decimal(n: nat)
    ensures
        digits_value(decimal(n)) == n,
    decreases n,
{
    if n < 10 {
        let s = decimal(n);
        assert(s.drop_last().len() == 0);
        assert(digits_value(s.drop_last()) == 0);
    } else {
        let head = decimal(n / 10);
        let s = head.push(digit_of((n % 10) as int));
        digits_value_of_decimal(n / 10);
        assert(s.drop_last() =~= head);
        assert(s.last() == digit_of((n % 10) as int));
    }
}

/// The notation of a cell has the shape of a notation, with its colon right
/// after the row letters.
pub proof fn notation_splits(row: nat, col: nat)
    ensures
        splits_at(notation(row, col), row_letters(row).len() as int),
        notation(row, col).take(row_letters(row).len() as int) == row_letters(row),
        notation(row, col).skip(row_letters(row).len() as int + 1) == decimal(col + 1),
{
    let s = notation(row, col);
    let k = row_letters(row).len() as int;
    row_letters_are_letters(row);
    decimal_is_digits(col + 1);
    assert(s.take(k) =~= row_letters(row));
    assert(s.skip(k + 1) =~= decimal(col + 1));
}

/// The notation of a cell denotes that cell.
pub proof fn notation_denotes_its_cell(row: nat, col: nat)
    ensures
        denoted(notation(row, col)) == Some((row, col)),
{
    let s = notation(row, col);
    let k = row_letters(row).len() as int;
    notation_splits(row, col);
    colon_is_unique(s, k);
    letters_value_of_row_letters(row);
    digits_value_of_decimal(col + 1);
}

} // verus!
