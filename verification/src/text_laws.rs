//! What the string operations promise, whatever they are applied to.

use vstd::prelude::*;

use crate::text;

verus! {

/// Lower-casing keeps the length and every character but the letters `A` to `Z`, which become the
/// letters 32 code points on.
pub proof fn law_lower_changes_capitals_only(s: Seq<char>, i: int)
    requires
        0 <= i < s.len(),
    ensures
        text::lower(s).len() == s.len(),
        text::lower(s)[i] as u32 == if 65 <= s[i] as u32 <= 90 {
            (s[i] as u32 + 32) as u32
        } else {
            s[i] as u32
        },
{
}

/// Trimming leaves a front of the text that does not end in `c`, and takes off nothing but `c`.
pub proof fn law_trim_takes_off_one_run(s: Seq<char>, c: char)
    ensures
        text::trim_end(s, c).len() <= s.len(),
        text::trim_end(s, c) == s.take(text::trim_end(s, c).len() as int),
        text::trim_end(s, c).len() > 0 ==> text::trim_end(s, c).last() != c,
        forall|i: int| text::trim_end(s, c).len() <= i < s.len() ==> s[i] == c,
    decreases s.len(),
{
    if s.len() > 0 && s.last() == c {
        let front = s.drop_last();
        law_trim_takes_off_one_run(front, c);
        let t = text::trim_end(s, c);
        assert(front.take(t.len() as int) =~= s.take(t.len() as int));
        assert forall|i: int| t.len() <= i < s.len() implies s[i] == c by {
            if i < front.len() {
                assert(front[i] == c);
            }
        }
    } else {
        assert(s.take(s.len() as int) =~= s);
    }
}

/// Text that does not end in `c` is what is left when any number of `c` was put behind it.
pub proof fn law_trim_undoes_padding(s: Seq<char>, c: char, n: nat)
    requires
        s.len() > 0 ==> s.last() != c,
    ensures
        text::trim_end(s + Seq::new(n, |i: int| c), c) == s,
    decreases n,
{
    let padded = s + Seq::new(n, |i: int| c);
    if n > 0 {
        law_trim_undoes_padding(s, c, (n - 1) as nat);
        assert(padded.last() == c);
        assert(padded.drop_last() =~= s + Seq::new((n - 1) as nat, |i: int| c));
    } else {
        assert(padded =~= s);
    }
}

/// The white space characters, one by one.
pub proof fn law_white_space(c: char)
    ensures
        text::is_white(c) <==> c == ' ' || '\t' <= c && c <= '\r' || c == '\u{85}' || c == '\u{a0}'
            || c == '\u{1680}' || '\u{2000}' <= c && c <= '\u{200a}' || c == '\u{2028}' || c
            == '\u{2029}' || c == '\u{202f}' || c == '\u{205f}' || c == '\u{3000}',
{
}

/// Text is blank unless it holds a character that is not white space.
pub proof fn law_blank(s: Seq<char>)
    ensures
        !text::is_blank(s) <==> exists|i: int| 0 <= i < s.len() && !text::is_white(#[trigger] s[i]),
{
}

/// A numeral consists of digits and starts with no zero, but for that of zero itself.
pub proof fn law_numeral_is_canonical(n: nat, i: int)
    requires
        0 <= i < text::decimal(n).len(),
    ensures
        '0' <= text::decimal(n)[i] && text::decimal(n)[i] <= '9',
        text::decimal(n)[0] == '0' <==> n == 0,
        n == 0 ==> text::decimal(n).len() == 1,
    decreases n,
{
    if n >= 10 {
        let front = text::decimal(n / 10);
        lemma_numeral_is_not_empty(n / 10);
        law_numeral_is_canonical(n / 10, 0);
        if i < front.len() {
            law_numeral_is_canonical(n / 10, i);
        }
    }
}

proof fn lemma_numeral_is_not_empty(n: nat)
    ensures
        text::decimal(n).len() > 0,
{
}

/// A numeral has one digit below ten, and then one more for each power of ten; its last digit is
/// the remainder.
pub proof fn law_numeral_grows_by_digits(n: nat, d: nat)
    requires
        n > 0,
        d < 10,
    ensures
        text::decimal(d) == seq![(48 + d) as char],
        text::decimal(n * 10 + d) == text::decimal(n).push((48 + d) as char),
{
    assert((n * 10 + d) / 10 == n);
    assert((n * 10 + d) % 10 == d);
}

/// What a single digit stands for, and what a digit behind a numeral adds, up to the limit.
pub proof fn law_digits_are_read_by_place(s: Seq<char>, d: nat, max: nat)
    requires
        d < 10,
    ensures
        text::parse_number(seq![(48 + d) as char], max) == if d <= max {
            Some(d)
        } else {
            None
        },
        text::parse_number(s, max) matches Some(n) ==> text::parse_number(
            s.push((48 + d) as char),
            max,
        ) == if n * 10 + d <= max {
            Some((n * 10 + d) as nat)
        } else {
            None
        },
{
    let c = (48 + d) as char;
    let one = seq![c];
    assert(one.drop_last() =~= Seq::empty());
    reveal_with_fuel(text::digits_value, 2);
    assert(text::digits_value(one) == d);
    assert(text::is_digit(one[0]));
    if text::parse_number(s, max) is Some {
        let more = s.push(c);
        let digits = text::unsigned_part(s);
        assert(text::unsigned_part(more) =~= digits.push(c));
        assert(digits.push(c).drop_last() =~= digits);
        assert forall|i: int| 0 <= i < digits.push(c).len() implies text::is_digit(
            #[trigger] digits.push(c)[i],
        ) by {
            if i < digits.len() {
                assert(text::is_digit(digits[i]));
            }
        }
    }
}

/// Once digits stand for too much, more digits do not help.
pub proof fn law_too_large_stays_too_large(s: Seq<char>, d: nat, max: nat)
    requires
        d < 10,
        s.len() > 0,
        text::all_digits(s),
        text::parse_number(s, max) is None,
    ensures
        text::parse_number(s.push((48 + d) as char), max) is None,
{
    let c = (48 + d) as char;
    assert(text::is_digit(s[0]));
    assert(s.push(c)[0] == s[0]);
    assert(s.push(c).drop_last() =~= s);
}

/// One `+` in front of digits changes nothing. Nothing else may stand in a numeral, and there has
/// to be a digit.
pub proof fn law_only_digits_are_numerals(s: Seq<char>, i: int, max: nat)
    ensures
        s.len() > 0 && '0' <= s[0] && s[0] <= '9' ==> text::parse_number(seq!['+'] + s, max)
            == text::parse_number(s, max),
        0 <= i < s.len() && !('0' <= s[i] && s[i] <= '9') && !(i == 0 && s[i] == '+') ==>
            text::parse_number(s, max) is None,
        text::parse_number(Seq::empty(), max) is None,
        text::parse_number(seq!['+'], max) is None,
{
    if s.len() > 0 && '0' <= s[0] && s[0] <= '9' {
        assert((seq!['+'] + s).skip(1) =~= s);
    }
    if 0 <= i < s.len() && !('0' <= s[i] && s[i] <= '9') && !(i == 0 && s[i] == '+') {
        let digits = text::unsigned_part(s);
        let k = if s[0] == '+' { i - 1 } else { i };
        assert(digits[k] == s[i]);
        assert(!text::is_digit(digits[k]));
    }
    assert(seq!['+'].skip(1) =~= Seq::empty());
}

/// What is left when a prefix is taken off makes up the text together with it.
pub proof fn law_prefix_is_taken_off_whole(s: Seq<char>, prefix: Seq<char>)
    ensures
        text::after_prefix(s, prefix) matches Some(rest) ==> s == prefix + rest,
{
    if prefix.is_prefix_of(s) {
        assert(s =~= prefix + s.skip(prefix.len() as int));
    }
}

} // verus!
