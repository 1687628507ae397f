//! What holds of the text that numbers, lists and words are turned into.

use vstd::prelude::*;
use vstd::utf8::is_ascii_chars;
use crate::text::{
    ascii_lower, decimal, has_infix, has_infix_and_digit, infix_at, joined, lowercase, pad_left,
    signed_decimal, unicode_lowercase,
};

verus! {

/// The characters are decimal digits, and there are some.
pub open spec fn all_digits(s: Seq<char>) -> bool {
    s.len() > 0 && forall|i: int| 0 <= i < s.len() ==> '0' <= #[trigger] s[i] <= '9'
}

/// The number that decimal digits stand for, most significant first.
pub open spec fn number_read(digits: Seq<char>) -> int
    decreases digits.len(),
{
    if digits.len() == 0 {
        0
    } else {
        10 * number_read(digits.drop_last()) + (digits.last() as int - 48)
    }
}

/// A number that was written in decimal reads back: it is all digits, without a
/// zero in front, and they stand for the number.
pub proof fn decimal_reads_back(n: nat)
    ensures
        all_digits(decimal(n)),
        number_read(decimal(n)) == n,
        decimal(n)[0] == '0' ==> n == 0 && decimal(n).len() == 1,
    decreases n,
{
    if n >= 10 {
        decimal_reads_back(n / 10);
        assert(decimal(n).drop_last() =~= decimal(n / 10));
        assert(decimal(n)[0] == decimal(n / 10)[0]);
    } else {
        assert(decimal(n).drop_last() =~= seq![]);
        assert(number_read(seq![]) == 0);
    }
}

/// Different numbers are written differently.
pub proof fn decimals_differ(a: nat, b: nat)
    requires
        a != b,
    ensures
        decimal(a) != decimal(b),
{
    decimal_reads_back(a);
    decimal_reads_back(b);
}

/// A whole number that was written with its sign reads back.
pub proof fn signed_decimal_reads_back(i: int)
    ensures
        i >= 0 ==> all_digits(signed_decimal(i)) && number_read(signed_decimal(i)) == i,
        i < 0 ==> {
            &&& signed_decimal(i).len() > 1
            &&& signed_decimal(i)[0] == '-'
            &&& all_digits(signed_decimal(i).skip(1))
            &&& number_read(signed_decimal(i).skip(1)) == -i
        },
{
    if i < 0 {
        decimal_reads_back((-i) as nat);
        assert(signed_decimal(i).skip(1) =~= decimal((-i) as nat));
    } else {
        decimal_reads_back(i as nat);
    }
}

/// Different whole numbers are written differently.
pub proof fn signed_decimals_differ(a: int, b: int)
    requires
        a != b,
    ensures
        signed_decimal(a) != signed_decimal(b),
{
    signed_decimal_reads_back(a);
    signed_decimal_reads_back(b);
}

/// A text in a column stands at the right of it, behind spaces alone, and is never
/// cut short.
pub proof fn padding_is_spaces_in_front(s: Seq<char>, width: nat)
    ensures
        pad_left(s, width).len() == if s.len() < width {
            width
        } else {
            s.len()
        },
        pad_left(s, width).skip(pad_left(s, width).len() - s.len()) == s,
        forall|i: int|
            0 <= i < pad_left(s, width).len() - s.len() ==> #[trigger] pad_left(s, width)[i] == ' ',
{
    assert(pad_left(s, width).skip(pad_left(s, width).len() - s.len()) =~= s);
}

/// Nothing joined is nothing; one text joined is that text; and two lists joined to
/// one are what each of them is joined to, with one separator between.
pub proof fn joining_lists(a: Seq<Seq<char>>, b: Seq<Seq<char>>, x: Seq<char>, separator: Seq<char>)
    ensures
        joined(seq![], separator) == Seq::<char>::empty(),
        joined(seq![x], separator) == x,
        a.len() > 0 && b.len() > 0 ==> joined(a + b, separator) == joined(a, separator) + separator
            + joined(b, separator),
    decreases b.len(),
{
    if a.len() > 0 && b.len() > 0 {
        assert((a + b).drop_last() =~= a + b.drop_last());
        assert((a + b).last() == b.last());
        if b.len() == 1 {
            assert(a + b.drop_last() =~= a);
            assert(joined(b, separator) == b[0]);
        } else {
            joining_lists(a, b.drop_last(), x, separator);
            assert(joined(a + b, separator) =~= joined(a, separator) + separator + joined(
                b,
                separator,
            ));
        }
    }
}

/// An ASCII text in lower case has the same length, each letter from `A` to `Z`
/// turned into its small form and every other character as it was. Any other text
/// is turned by the Unicode rules.
pub proof fn lower_case_by_character(s: Seq<char>, i: int)
    ensures
        !is_ascii_chars(s) ==> lowercase(s) == unicode_lowercase(s),
        is_ascii_chars(s) ==> lowercase(s).len() == s.len(),
        is_ascii_chars(s) && 0 <= i < s.len() ==> lowercase(s)[i] as int == s[i] as int + if 'A'
            <= s[i] <= 'Z' {
            32int
        } else {
            0
        },
{
    if is_ascii_chars(s) && 0 <= i < s.len() {
        assert(lowercase(s)[i] == ascii_lower(s[i]));
    }
}

/// A text occurs in another exactly where the other is made of something before
/// it, the text, and something after it.
pub proof fn occurring_is_standing_between(s: Seq<char>, part: Seq<char>)
    ensures
        has_infix(s, part) <==> exists|before: Seq<char>, after: Seq<char>|
            s == #[trigger] (before + part + after),
{
    if has_infix(s, part) {
        let i = choose|i: int| #[trigger] infix_at(s, part, i);
        assert(s =~= s.take(i) + part + s.skip(i + part.len()));
    }
    if exists|before: Seq<char>, after: Seq<char>| s == #[trigger] (before + part + after) {
        let (before, after) = choose|before: Seq<char>, after: Seq<char>|
            s == #[trigger] (before + part + after);
        let i = before.len() as int;
        assert(s.subrange(i, i + part.len()) =~= part);
        assert(infix_at(s, part, i));
    }
}

/// A text occurs in another with a digit right behind it exactly where the other is
/// made of something before it, the text, a digit, and something after it.
pub proof fn digit_stands_right_behind(s: Seq<char>, part: Seq<char>)
    ensures
        has_infix_and_digit(s, part) <==> exists|before: Seq<char>, d: char, after: Seq<char>|
            '0' <= d <= '9' && s == #[trigger] (before + part + seq![d] + after),
{
    if has_infix_and_digit(s, part) {
        let i = choose|i: int| #[trigger]
            infix_at(s, part, i) && i + part.len() < s.len() && '0' <= s[i + part.len()] <= '9';
        let d = s[i + part.len()];
        assert(s =~= s.take(i) + part + seq![d] + s.skip(i + part.len() + 1));
    }
    if exists|before: Seq<char>, d: char, after: Seq<char>|
        '0' <= d <= '9' && s == #[trigger] (before + part + seq![d] + after) {
        let (before, d, after) = choose|before: Seq<char>, d: char, after: Seq<char>|
            '0' <= d <= '9' && s == #[trigger] (before + part + seq![d] + after);
        let i = before.len() as int;
        assert(s.subrange(i, i + part.len()) =~= part);
        assert(infix_at(s, part, i));
        assert(s[i + part.len()] == d);
    }
}

} // verus!
