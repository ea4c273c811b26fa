//! Characters, decimal numerals and the few string operations that the hub needs.

use vstd::prelude::*;

verus! {

/// `String::push`: the character is appended at the end of the string.
pub assume_specification[ String::push ](s: &mut String, c: char)
    ensures
        final(s)@ == old(s)@.push(c),
;

/// The upper-case ASCII letters become lower-case, every other character stays.
pub open spec fn ascii_lower(c: char) -> char {
    if 'A' <= c && c <= 'Z' {
        (c as u32 + 32) as char
    } else {
        c
    }
}

/// `s` with its upper-case ASCII letters made lower-case.
pub open spec fn lower(s: Seq<char>) -> Seq<char> {
    s.map_values(|c: char| ascii_lower(c))
}

/// `s` without the run of `c` at its end.
pub open spec fn trim_end(s: Seq<char>, c: char) -> Seq<char>
    decreases s.len(),
{
    if s.len() > 0 && s.last() == c {
        trim_end(s.drop_last(), c)
    } else {
        s
    }
}

/// The characters with the Unicode property `White_Space`.
pub open spec fn is_white(c: char) -> bool {
    let u = c as u32;
    ||| 0x09 <= u <= 0x0d
    ||| u == 0x20
    ||| u == 0x85
    ||| u == 0xa0
    ||| u == 0x1680
    ||| 0x2000 <= u <= 0x200a
    ||| u == 0x2028
    ||| u == 0x2029
    ||| u == 0x202f
    ||| u == 0x205f
    ||| u == 0x3000
}

/// Nothing but white space.
pub open spec fn is_blank(s: Seq<char>) -> bool {
    forall|i: int| 0 <= i < s.len() ==> is_white(#[trigger] s[i])
}

/// The decimal digit for `d`, where `d < 10`.
pub open spec fn digit(d: nat) -> char {
    (48 + d) as char
}

/// The decimal numeral of `n`, without leading zeros.
pub open spec fn decimal(n: nat) -> Seq<char>
    decreases n,
{
    if n < 10 {
        seq![digit(n)]
    } else {
        decimal(n / 10).push(digit(n % 10))
    }
}

pub open spec fn is_digit(c: char) -> bool {
    '0' <= c && c <= '9'
}

pub open spec fn all_digits(s: Seq<char>) -> bool {
    forall|i: int| 0 <= i < s.len() ==> is_digit(#[trigger] s[i])
}

/// The number that a string of digits stands for.
pub open spec fn digits_value(s: Seq<char>) -> nat
    decreases s.len(),
{
    if s.len() == 0 {
        0
    } else {
        (digits_value(s.drop_last()) * 10 + (s.last() as u32 - 48)) as nat
    }
}

/// `s` without the one `+` that a numeral may start with.
pub open spec fn unsigned_part(s: Seq<char>) -> Seq<char> {
    if s.len() > 0 && s[0] == '+' {
        s.skip(1)
    } else {
        s
    }
}

/// The number that `s` writes down: an optional `+`, then at least one digit and nothing else,
/// standing for at most `max`.
pub open spec fn parse_number(s: Seq<char>, max: nat) -> Option<nat> {
    let digits = unsigned_part(s);
    if digits.len() > 0 && all_digits(digits) && digits_value(digits) <= max {
        Some(digits_value(digits))
    } else {
        None
    }
}

/// What follows `prefix` in `s`, where `s` starts with it.
pub open spec fn after_prefix(s: Seq<char>, prefix: Seq<char>) -> Option<Seq<char>> {
    if prefix.is_prefix_of(s) {
        Some(s.skip(prefix.len() as int))
    } else {
        None
    }
}

/// The characters of `s`, one by one.
pub fn chars_of(s: &str) -> (r: Vec<char>)
    ensures
        r@ == s@,
{
    let mut out: Vec<char> = Vec::new();
    for c in it: s.chars()
        invariant
            out@ == s@.take(it.index()),
            it.seq() == s@,
    {
        out.push(c);
        assert(s@.take(it.index() + 1) =~= s@.take(it.index()).push(s@[it.index()]));
    }
    assert(s@.take(s@.len() as int) =~= s@);
    out
}

/// The string made of `chars[from..to]`.
pub fn text_of(chars: &Vec<char>, from: usize, to: usize) -> (r: String)
    requires
        from <= to <= chars@.len(),
    ensures
        r@ == chars@.subrange(from as int, to as int),
{
    let mut out = String::new();
    let mut i: usize = from;
    while i < to
        invariant
            from <= i <= to <= chars@.len(),
            out@ == chars@.subrange(from as int, i as int),
        decreases to - i,
    {
        out.push(chars[i]);
        assert(chars@.subrange(from as int, i + 1) =~= chars@.subrange(from as int, i as int).push(
            chars@[i as int],
        ));
        i += 1;
    }
    out
}

/// Whether two strings hold the same characters.
pub fn same_text(a: &str, b: &str) -> (r: bool)
    ensures
        r == (a@ == b@),
{
    a.to_owned() == b.to_owned()
}

/// `a` followed by `b`.
pub fn join(a: &str, b: &str) -> (r: String)
    ensures
        r@ == a@ + b@,
{
    let mut out = a.to_owned();
    out.append(b);
    out
}

/// `a`, `b` and `c` in a row.
pub fn join3(a: &str, b: &str, c: &str) -> (r: String)
    ensures
        r@ == a@ + b@ + c@,
{
    let mut out = join(a, b);
    out.append(c);
    out
}

/// Whether `part` stands in `s` at position `at`.
fn stands_at(s: &Vec<char>, at: usize, part: &Vec<char>) -> (r: bool)
    requires
        at + part@.len() <= s@.len(),
    ensures
        r == (s@.subrange(at as int, at + part@.len()) == part@),
{
    let len: usize = s.len();
    let mut i: usize = 0;
    while i < part.len()
        invariant
            i <= part@.len(),
            len == s@.len(),
            at + part@.len() <= len,
            forall|k: int| 0 <= k < i ==> s@[at + k] == part@[k],
        decreases part@.len() - i,
    {
        if s[at + i] != part[i] {
            proof {
                let window = s@.subrange(at as int, at + part@.len());
                assert(window[i as int] == s@[at + i]);
            }
            return false;
        }
        i += 1;
    }
    assert(s@.subrange(at as int, at + part@.len()) =~= part@);
    true
}

/// Whether `s` starts with `prefix`.
pub fn starts_with(s: &str, prefix: &str) -> (r: bool)
    ensures
        r == prefix@.is_prefix_of(s@),
{
    let s = chars_of(s);
    let prefix = chars_of(prefix);
    prefix.len() <= s.len() && stands_at(&s, 0, &prefix)
}

/// Whether `s` ends with `suffix`.
pub fn ends_with(s: &str, suffix: &str) -> (r: bool)
    ensures
        r == suffix@.is_suffix_of(s@),
{
    let s = chars_of(s);
    let suffix = chars_of(suffix);
    suffix.len() <= s.len() && stands_at(&s, s.len() - suffix.len(), &suffix)
}

/// What follows `prefix` in `s`; `None` where `s` does not start with it.
pub fn strip_prefix(s: &str, prefix: &str) -> (r: Option<String>)
    ensures
        r.deep_view() == after_prefix(s@, prefix@),
{
    let chars = chars_of(s);
    let lead = chars_of(prefix);
    if lead.len() <= chars.len() && stands_at(&chars, 0, &lead) {
        let rest = text_of(&chars, lead.len(), chars.len());
        assert(rest@ =~= s@.skip(prefix@.len() as int));
        Some(rest)
    } else {
        None
    }
}

/// `s` without the run of `c` at its end.
pub fn trim_end_matches(s: &str, c: char) -> (r: String)
    ensures
        r@ == trim_end(s@, c),
{
    let chars = chars_of(s);
    let mut end: usize = chars.len();
    assert(chars@.take(end as int) =~= chars@);
    while end > 0 && chars[end - 1] == c
        invariant
            end <= chars@.len(),
            trim_end(chars@.take(end as int), c) == trim_end(chars@, c),
        decreases end,
    {
        assert(chars@.take(end as int).drop_last() =~= chars@.take(end - 1));
        end -= 1;
    }
    let r = text_of(&chars, 0, end);
    assert(r@ =~= chars@.take(end as int));
    r
}

/// `s` with its upper-case ASCII letters made lower-case.
pub fn to_ascii_lowercase(s: &str) -> (r: String)
    ensures
        r@ == lower(s@),
{
    let chars = chars_of(s);
    let mut out = String::new();
    let mut i: usize = 0;
    while i < chars.len()
        invariant
            i <= chars@.len(),
            out@ == lower(chars@.take(i as int)),
        decreases chars@.len() - i,
    {
        let c = chars[i];
        if 'A' <= c && c <= 'Z' {
            let code: u8 = c as u8 + 32;
            out.push(code as char);
        } else {
            out.push(c);
        }
        assert(out@ =~= lower(chars@.take(i + 1)));
        i += 1;
    }
    assert(chars@.take(i as int) =~= chars@);
    out
}

/// Whether `c` is white space.
pub fn is_whitespace(c: char) -> (r: bool)
    ensures
        r == is_white(c),
{
    let u: u32 = c as u32;
    (0x09 <= u && u <= 0x0d) || u == 0x20 || u == 0x85 || u == 0xa0 || u == 0x1680 || (0x2000 <= u
        && u <= 0x200a) || u == 0x2028 || u == 0x2029 || u == 0x202f || u == 0x205f || u == 0x3000
}

/// Whether `s` holds nothing but white space.
pub fn blank(s: &str) -> (r: bool)
    ensures
        r == is_blank(s@),
{
    let chars = chars_of(s);
    let mut i: usize = 0;
    while i < chars.len()
        invariant
            i <= chars@.len(),
            chars@ == s@,
            forall|k: int| 0 <= k < i ==> is_white(#[trigger] chars@[k]),
        decreases chars@.len() - i,
    {
        if !is_whitespace(chars[i]) {
            assert(!is_white(chars@[i as int]));
            return false;
        }
        i += 1;
    }
    true
}

/// The decimal numeral of `n`.
pub fn to_decimal(n: u64) -> (r: String)
    ensures
        r@ == decimal(n as nat),
    decreases n,
{
    if n < 10 {
        let mut out = String::new();
        let code: u8 = 48 + n as u8;
        out.push(code as char);
        assert(out@ =~= seq![digit(n as nat)]);
        out
    } else {
        let mut out = to_decimal(n / 10);
        let code: u8 = 48 + (n % 10) as u8;
        out.push(code as char);
        out
    }
}

/// More digits never stand for a smaller number.
proof fn lemma_digits_value_grows(s: Seq<char>, i: int)
    requires
        all_digits(s),
        0 <= i <= s.len(),
    ensures
        digits_value(s.take(i)) <= digits_value(s),
    decreases s.len() - i,
{
    if i == s.len() {
        assert(s.take(i) =~= s);
    } else {
        lemma_digits_value_grows(s, i + 1);
        assert(s.take(i + 1).drop_last() =~= s.take(i));
        assert(is_digit(s[i]));
    }
}

/// The number that `s` writes down, if it writes one down that is at most `max`.
pub fn parse_decimal(s: &str, max: u64) -> (r: Option<u64>)
    ensures
        r is Some <==> parse_number(s@, max as nat) is Some,
        r matches Some(n) ==> parse_number(s@, max as nat) == Some(n as nat),
{
    let chars = chars_of(s);
    let start: usize = if chars.len() > 0 && chars[0] == '+' {
        1
    } else {
        0
    };
    let ghost digits = unsigned_part(s@);
    assert(digits =~= s@.skip(start as int));
    if start == chars.len() {
        return None;
    }
    let mut value: u128 = 0;
    let mut i: usize = start;
    assert(digits.take(0) =~= Seq::empty());
    while i < chars.len()
        invariant
            start <= i <= chars@.len(),
            chars@ == s@,
            digits == s@.skip(start as int),
            digits == unsigned_part(s@),
            forall|k: int| 0 <= k < i - start ==> is_digit(#[trigger] digits[k]),
            value == digits_value(digits.take(i - start)),
            value <= max,
        decreases chars@.len() - i,
    {
        let c = chars[i];
        assert(digits[i - start] == c);
        if !('0' <= c && c <= '9') {
            assert(!is_digit(digits[i - start]));
            return None;
        }
        let d: u32 = c as u32 - 48;
        assert(digits.take(i + 1 - start).drop_last() =~= digits.take(i - start));
        value = value * 10 + d as u128;
        i += 1;
        if value > max as u128 {
            proof {
                if all_digits(digits) {
                    lemma_digits_value_grows(digits, i - start);
                }
            }
            return None;
        }
    }
    assert(digits.take(i - start) =~= digits);
    Some(value as u64)
}

/// A numeral consists of digits, at least one, and stands for the number that it was made from.
proof fn lemma_decimal_digits(n: nat)
    ensures
        decimal(n).len() > 0,
        all_digits(decimal(n)),
        digits_value(decimal(n)) == n,
    decreases n,
{
    reveal_with_fuel(digits_value, 2);
    if n < 10 {
        assert(decimal(n).drop_last() =~= Seq::empty());
    } else {
        lemma_decimal_digits(n / 10);
        assert(decimal(n).drop_last() =~= decimal(n / 10));
    }
}

/// Reading a numeral gives back the number that was written.
pub proof fn law_decimal_round_trip(n: nat, max: nat)
    requires
        n <= max,
    ensures
        parse_number(decimal(n), max) == Some(n),
{
    lemma_decimal_digits(n);
    assert(is_digit(decimal(n)[0]));
}

/// Taking a prefix off gives back what was put behind it.
pub proof fn law_prefix_round_trip(prefix: Seq<char>, rest: Seq<char>)
    ensures
        after_prefix(prefix + rest, prefix) == Some(rest),
{
    assert((prefix + rest).skip(prefix.len() as int) =~= rest);
    assert((prefix + rest).subrange(0, prefix.len() as int) =~= prefix);
}

} // verus!
