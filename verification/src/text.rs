//! Building text: decimal numbers, padding, joining and searching.

use vstd::prelude::*;
use vstd::utf8::is_ascii_chars;

verus! {

/// The character of a decimal digit.
pub open spec fn digit_char(d: nat) -> char {
    (48 + d) as char
}

/// The decimal digits of `n`, most significant first, without leading zeros.
pub open spec fn decimal(n: nat) -> Seq<char>
    decreases n,
{
    if n < 10 {
        seq![digit_char(n)]
    } else {
        decimal(n / 10).push(digit_char(n % 10))
    }
}

/// `decimal` with a leading minus sign for numbers below zero.
pub open spec fn signed_decimal(i: int) -> Seq<char> {
    if i < 0 {
        seq!['-'] + decimal((-i) as nat)
    } else {
        decimal(i as nat)
    }
}

/// `s` with spaces put in front of it until it is `width` characters long.
pub open spec fn pad_left(s: Seq<char>, width: nat) -> Seq<char> {
    if s.len() < width {
        Seq::new((width - s.len()) as nat, |i: int| ' ') + s
    } else {
        s
    }
}

/// The texts one after the other, with `separator` between neighbours.
pub open spec fn joined(parts: Seq<Seq<char>>, separator: Seq<char>) -> Seq<char>
    decreases parts.len(),
{
    if parts.len() == 0 {
        seq![]
    } else if parts.len() == 1 {
        parts[0]
    } else {
        joined(parts.drop_last(), separator) + separator + parts.last()
    }
}

/// `part` occurs in `s` as an uninterrupted run of characters.
pub open spec fn has_infix(s: Seq<char>, part: Seq<char>) -> bool {
    exists|i: int| #[trigger] infix_at(s, part, i)
}

/// `part` stands in `s` from position `i` on.
pub open spec fn infix_at(s: Seq<char>, part: Seq<char>, i: int) -> bool {
    0 <= i && i + part.len() <= s.len() && s.subrange(i, i + part.len()) == part
}

/// `part` occurs in `s` with a decimal digit right behind it.
pub open spec fn has_infix_and_digit(s: Seq<char>, part: Seq<char>) -> bool {
    exists|i: int| #[trigger]
        infix_at(s, part, i) && i + part.len() < s.len() && '0' <= s[i + part.len()] <= '9'
}

/// A decimal number is made of one or more decimal digits.
pub proof fn lemma_decimal_digits(n: nat)
    ensures
        decimal(n).len() >= 1,
        forall|i: int| 0 <= i < decimal(n).len() ==> '0' <= #[trigger] decimal(n)[i] <= '9',
    decreases n,
{
    if n >= 10 {
        lemma_decimal_digits(n / 10);
    }
}

/// A text put between two others occurs in the whole.
pub proof fn lemma_infix_between(before: Seq<char>, part: Seq<char>, after: Seq<char>)
    ensures
        has_infix(before + part + after, part),
{
    let s = before + part + after;
    assert(s.subrange(before.len() as int, before.len() as int + part.len()) =~= part);
    assert(infix_at(s, part, before.len() as int));
}

/// A text does not occur where one of its characters does not.
pub proof fn lemma_char_missing(s: Seq<char>, part: Seq<char>, k: int)
    requires
        0 <= k < part.len(),
        forall|i: int| 0 <= i < s.len() ==> #[trigger] s[i] != part[k],
    ensures
        !has_infix(s, part),
{
    assert forall|i: int| !infix_at(s, part, i) by {
        if infix_at(s, part, i) {
            assert(s.subrange(i, i + part.len())[k] == s[i + k]);
        }
    }
}

/// Each of the texts that were joined stands in the result, between what comes
/// before it and what comes after it.
pub proof fn lemma_joined_around(parts: Seq<Seq<char>>, separator: Seq<char>, i: int) -> (around: (
    Seq<char>,
    Seq<char>,
))
    requires
        0 <= i < parts.len(),
    ensures
        joined(parts, separator) == around.0 + parts[i] + around.1,
    decreases parts.len(),
{
    if parts.len() == 1 {
        assert(joined(parts, separator) =~= seq![] + parts[i] + seq![]);
        (seq![], seq![])
    } else if i == parts.len() - 1 {
        let before = joined(parts.drop_last(), separator) + separator;
        assert(joined(parts, separator) =~= before + parts[i] + seq![]);
        (before, seq![])
    } else {
        let (before, after) = lemma_joined_around(parts.drop_last(), separator, i);
        let rest = after + separator + parts.last();
        assert(joined(parts, separator) =~= before + parts[i] + rest);
        (before, rest)
    }
}

/// A text with one character more stands where the text does, with that
/// character behind it.
proof fn lemma_infix_pushed(s: Seq<char>, part: Seq<char>, c: char, i: int)
    ensures
        infix_at(s, part.push(c), i) <==> infix_at(s, part, i) && i + part.len() < s.len()
            && s[i + part.len()] == c,
{
    let n = part.len();
    if infix_at(s, part.push(c), i) {
        let found = s.subrange(i, i + n + 1);
        assert(found[n as int] == s[i + n]);
        assert(s.subrange(i, i + n) =~= found.drop_last());
        assert(part =~= part.push(c).drop_last());
    }
    if infix_at(s, part, i) && i + n < s.len() && s[i + n] == c {
        assert(s.subrange(i, i + n + 1) =~= s.subrange(i, i + n).push(c));
    }
}

fn digit_text(d: u128) -> (s: &'static str)
    requires
        d < 10,
    ensures
        s@ == seq![digit_char(d as nat)],
{
    proof {
        reveal_strlit("0");
        reveal_strlit("1");
        reveal_strlit("2");
        reveal_strlit("3");
        reveal_strlit("4");
        reveal_strlit("5");
        reveal_strlit("6");
        reveal_strlit("7");
        reveal_strlit("8");
        reveal_strlit("9");
    }
    if d == 0 {
        "0"
    } else if d == 1 {
        "1"
    } else if d == 2 {
        "2"
    } else if d == 3 {
        "3"
    } else if d == 4 {
        "4"
    } else if d == 5 {
        "5"
    } else if d == 6 {
        "6"
    } else if d == 7 {
        "7"
    } else if d == 8 {
        "8"
    } else {
        "9"
    }
}

/// Appends `n` in decimal.
pub fn push_decimal(out: &mut String, n: u128)
    ensures
        final(out)@ == old(out)@ + decimal(n as nat),
    decreases n,
{
    if n >= 10 {
        push_decimal(out, n / 10);
    }
    out.append(digit_text(n % 10));
    assert(out@ =~= old(out)@ + decimal(n as nat));
}

/// Appends `i` in decimal, with a minus sign where it is below zero.
pub fn push_signed_decimal(out: &mut String, i: i64)
    ensures
        final(out)@ == old(out)@ + signed_decimal(i as int),
{
    if i < 0 {
        proof {
            reveal_strlit("-");
        }
        out.append("-");
        let magnitude: i128 = 0 - (i as i128);
        push_decimal(out, magnitude as u128);
        assert(out@ =~= old(out)@ + signed_decimal(i as int));
    } else {
        push_decimal(out, i as u128);
    }
}

/// Appends `n` in decimal, right-aligned in a column of `width` characters.
pub fn push_padded_decimal(out: &mut String, n: u128, width: usize)
    ensures
        final(out)@ == old(out)@ + pad_left(decimal(n as nat), width as nat),
{
    let mut digits = String::new();
    push_decimal(&mut digits, n);
    assert(digits@ =~= decimal(n as nat));
    let used: usize = digits.as_str().unicode_len();
    let mut put: usize = used;
    proof {
        reveal_strlit(" ");
    }
    while put < width
        invariant
            used <= put,
            put <= width || put == used,
            out@ == old(out)@ + Seq::new((put - used) as nat, |i: int| ' '),
            " "@ == seq![' '],
        decreases width - put,
    {
        out.append(" ");
        put += 1;
        assert(out@ =~= old(out)@ + Seq::new((put - used) as nat, |i: int| ' '));
    }
    out.append(digits.as_str());
    assert(out@ =~= old(out)@ + pad_left(decimal(n as nat), width as nat));
}

/// The parts one after the other, with `separator` between neighbours.
pub fn join(parts: &Vec<String>, separator: &str) -> (out: String)
    ensures
        out@ == joined(parts@.map_values(|p: String| p@), separator@),
{
    let ghost views = parts@.map_values(|p: String| p@);
    let mut out = String::new();
    for i in 0..parts.len()
        invariant
            views == parts@.map_values(|p: String| p@),
            out@ == joined(views.take(i as int), separator@),
    {
        if i > 0 {
            out.append(separator);
        }
        out.append(parts[i].as_str());
        proof {
            assert(views.take(i + 1).drop_last() =~= views.take(i as int));
            assert(views.take(i + 1).last() == parts[i as int]@);
            assert(out@ =~= joined(views.take(i + 1), separator@));
        }
    }
    assert(views.take(parts.len() as int) =~= views);
    out
}

/// `String::from` on a string slice: the same characters, owned. Also what
/// `into` makes of a slice that is given for a `String`.
pub assume_specification<'a>[ <String as From<&'a str>>::from ](s: &str) -> (r: String)
    ensures
        r@ == s@,
;

/// `T::from` on a `T`: the value itself. This is what `into` makes of a `String`
/// that is given for a `String`.
pub assume_specification<T>[ <T as From<T>>::from ](t: T) -> (r: T)
    ensures
        r == t,
;

/// `str::contains` with a string as the pattern: whether the pattern is a
/// sub-slice of the text.
#[verifier::external_body]
pub(crate) fn contains(s: &str, part: &str) -> (found: bool)
    ensures
        found == has_infix(s@, part@),
{
    s.contains(part)
}

/// Whether `part` occurs in `s` with a decimal digit right behind it.
pub fn contains_and_digit(s: &str, part: &str) -> (found: bool)
    ensures
        found == has_infix_and_digit(s@, part@),
{
    let mut d: u128 = 0;
    while d < 10
        invariant
            d <= 10,
            forall|i: int, k: u128|
                k < d && #[trigger] infix_at(s@, part@, i) && i + part@.len() < s@.len()
                    ==> s@[i + part@.len()] != #[trigger] digit_char(k as nat),
        decreases 10 - d,
    {
        let mut mark = part.to_owned();
        mark.append(digit_text(d));
        let ghost c = digit_char(d as nat);
        assert(mark@ =~= part@.push(c));
        if contains(s, mark.as_str()) {
            proof {
                let i = choose|i: int| #[trigger] infix_at(s@, mark@, i);
                lemma_infix_pushed(s@, part@, c, i);
            }
            return true;
        }
        proof {
            assert forall|i: int| #[trigger]
                infix_at(s@, part@, i) && i + part@.len() < s@.len() implies s@[i + part@.len()]
                != c by {
                lemma_infix_pushed(s@, part@, c, i);
                assert(!infix_at(s@, mark@, i));
            }
        }
        d = d + 1;
    }
    proof {
        assert forall|i: int| #[trigger]
            infix_at(s@, part@, i) && i + part@.len() < s@.len() implies !('0' <= s@[i
            + part@.len()] <= '9') by {
            let next = s@[i + part@.len()];
            if '0' <= next <= '9' {
                let k = (next as u32 - 48) as u128;
                assert(digit_char(k as nat) == next);
            }
        }
    }
    false
}

/// What `str::to_lowercase` makes of a text with characters beyond ASCII.
pub uninterp spec fn unicode_lowercase(s: Seq<char>) -> Seq<char>;

/// The lower-case form of an ASCII character.
pub open spec fn ascii_lower(c: char) -> char {
    if 'A' <= c && c <= 'Z' {
        (c as u32 + 32) as char
    } else {
        c
    }
}

/// A text in lower case.
pub open spec fn lowercase(s: Seq<char>) -> Seq<char> {
    if is_ascii_chars(s) {
        s.map_values(|c: char| ascii_lower(c))
    } else {
        unicode_lowercase(s)
    }
}

/// `str::to_lowercase`: the lower-case equivalent of a text by the Unicode
/// rules. On ASCII text that is the ASCII mapping, character by character. No
/// upper-case ASCII letter is left in any result, and an at sign is in a result
/// only where one is in the text: it is no letter, and no letter's lower-case
/// form has one.
#[verifier::external_body]
pub(crate) fn to_lowercase(s: &str) -> (lower: String)
    ensures
        is_ascii_chars(s@) ==> lower@ == s@.map_values(|c: char| ascii_lower(c)),
        !is_ascii_chars(s@) ==> lower@ == unicode_lowercase(s@),
        forall|i: int| 0 <= i < lower@.len() ==> !('A' <= #[trigger] lower@[i] <= 'Z'),
        lower@.contains('@') ==> s@.contains('@'),
{
    s.to_lowercase()
}

} // verus!
