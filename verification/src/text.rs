//! Numbers as text, in both directions.

use vstd::prelude::*;

verus! {

/// The digit character of `d`, lower case from ten on.
pub open spec fn digit_char(d: int) -> char {
    if d < 10 {
        (48 + d) as char
    } else {
        (87 + d) as char
    }
}

/// `n` in decimal, without leading zeros.
pub open spec fn decimal(n: nat) -> Seq<char>
    decreases n,
{
    if n < 10 {
        seq![digit_char(n as int)]
    } else {
        decimal(n / 10).push(digit_char((n % 10) as int))
    }
}

/// `n` in decimal, with a minus sign where it is negative.
pub open spec fn signed_decimal(n: int) -> Seq<char> {
    if n < 0 {
        seq!['-'] + decimal((-n) as nat)
    } else {
        decimal(n as nat)
    }
}

/// The `width` low hexadecimal digits of `n`.
pub open spec fn hexadecimal(n: nat, width: nat) -> Seq<char>
    decreases width,
{
    if width == 0 {
        Seq::empty()
    } else {
        hexadecimal(n / 16, (width - 1) as nat).push(digit_char((n % 16) as int))
    }
}

/// `n` in hexadecimal, without leading zeros.
pub open spec fn short_hexadecimal(n: nat) -> Seq<char>
    decreases n,
{
    if n < 16 {
        seq![digit_char(n as int)]
    } else {
        short_hexadecimal(n / 16).push(digit_char((n % 16) as int))
    }
}

fn digit_text(digit: u8) -> (text: &'static str)
    requires
        digit < 16,
    ensures
        text@ == seq![digit_char(digit as int)],
{
    proof {
        reveal_strlit("0");
        reveal_strlit("1");
        reveal_strlit("2");
        reveal_strlit("3");
        reveal_strlit("4");
        reveal_strlit("5");
        reveal_strlit("6");
        reveal_strlit("7");
        reveal_strlit("8");
        reveal_strlit("9");
        reveal_strlit("a");
        reveal_strlit("b");
        reveal_strlit("c");
        reveal_strlit("d");
        reveal_strlit("e");
        reveal_strlit("f");
    }
    let text: &'static str = match digit {
        0 => "0",
        1 => "1",
        2 => "2",
        3 => "3",
        4 => "4",
        5 => "5",
        6 => "6",
        7 => "7",
        8 => "8",
        9 => "9",
        10 => "a",
        11 => "b",
        12 => "c",
        13 => "d",
        14 => "e",
        _ => "f",
    };
    assert(text@ =~= seq![digit_char(digit as int)]);
    text
}

/// Writes a number in decimal.
pub fn decimal_text(n: u64) -> (text: String)
    ensures
        text@ == decimal(n as nat),
    decreases n,
{
    if n < 10 {
        digit_text(n as u8).to_string()
    } else {
        let mut text = decimal_text(n / 10);
        text.append(digit_text((n % 10) as u8));
        assert(text@ =~= decimal(n as nat));
        text
    }
}

/// Writes a signed number in decimal.
pub fn signed_text(n: i64) -> (text: String)
    requires
        n > i64::MIN,
    ensures
        text@ == signed_decimal(n as int),
{
    if n < 0 {
        let mut text = "-".to_string();
        text.append(decimal_text((-n) as u64).as_str());
        proof {
            reveal_strlit("-");
            assert(text@ =~= signed_decimal(n as int));
        }
        text
    } else {
        decimal_text(n as u64)
    }
}

/// Writes the `width` low hexadecimal digits of a number.
pub fn hexadecimal_text(n: u64, width: u8) -> (text: String)
    ensures
        text@ == hexadecimal(n as nat, width as nat),
    decreases width,
{
    if width == 0 {
        String::new()
    } else {
        let mut text = hexadecimal_text(n / 16, width - 1);
        text.append(digit_text((n % 16) as u8));
        assert(text@ =~= hexadecimal(n as nat, width as nat));
        text
    }
}

/// Writes a number in hexadecimal, without leading zeros.
pub fn short_hexadecimal_text(n: u64) -> (text: String)
    ensures
        text@ == short_hexadecimal(n as nat),
    decreases n,
{
    if n < 16 {
        digit_text(n as u8).to_string()
    } else {
        let mut text = short_hexadecimal_text(n / 16);
        text.append(digit_text((n % 16) as u8));
        assert(text@ =~= short_hexadecimal(n as nat));
        text
    }
}

/// `c` has the Unicode property `White_Space`.
pub open spec fn white(c: char) -> bool {
    let n = c as u32;
    ||| 0x09 <= n <= 0x0d
    ||| n == 0x20
    ||| n == 0x85
    ||| n == 0xa0
    ||| n == 0x1680
    ||| 0x2000 <= n <= 0x200a
    ||| n == 0x2028
    ||| n == 0x2029
    ||| n == 0x202f
    ||| n == 0x205f
    ||| n == 0x3000
}

/// Whether a character is white space.
pub fn is_white(c: char) -> (yes: bool)
    ensures
        yes == white(c),
{
    let n = c as u32;
    (0x09 <= n && n <= 0x0d) || n == 0x20 || n == 0x85 || n == 0xa0 || n == 0x1680 || (0x2000 <= n
        && n <= 0x200a) || n == 0x2028 || n == 0x2029 || n == 0x202f || n == 0x205f || n == 0x3000
}

/// `s` without white space at its start.
pub open spec fn trimmed_start(s: Seq<char>) -> Seq<char>
    decreases s.len(),
{
    if s.len() > 0 && white(s[0]) {
        trimmed_start(s.skip(1))
    } else {
        s
    }
}

/// `s` without white space at its end.
pub open spec fn trimmed_end(s: Seq<char>) -> Seq<char>
    decreases s.len(),
{
    if s.len() > 0 && white(s.last()) {
        trimmed_end(s.drop_last())
    } else {
        s
    }
}

/// A text without white space at its start and end.
pub fn trim(text: &str) -> (trimmed: String)
    ensures
        trimmed@ == trimmed_end(trimmed_start(text@)),
{
    let length = text.unicode_len();
    let mut from: usize = 0;
    assert(text@.skip(0) =~= text@);
    while from < length && is_white(text.get_char(from))
        invariant
            length == text@.len(),
            from <= length,
            trimmed_start(text@) == trimmed_start(text@.skip(from as int)),
        decreases length - from,
    {
        assert(text@.skip(from as int).skip(1) =~= text@.skip(from + 1));
        from += 1;
    }
    let ghost rest = text@.skip(from as int);
    assert(trimmed_start(text@) == rest);
    let mut to: usize = length;
    assert(rest =~= text@.subrange(from as int, to as int));
    while to > from && is_white(text.get_char(to - 1))
        invariant
            length == text@.len(),
            from <= to <= length,
            trimmed_end(rest) == trimmed_end(text@.subrange(from as int, to as int)),
        decreases to,
    {
        assert(text@.subrange(from as int, to as int).drop_last() =~= text@.subrange(
            from as int,
            to - 1,
        ));
        to -= 1;
    }
    text.substring_char(from, to).to_string()
}

/// What each of several texts says.
pub open spec fn texts(list: Seq<String>) -> Seq<Seq<char>> {
    list.map_values(|t: String| t@)
}

/// Whether two texts are equal.
pub fn same_text(a: &str, b: &str) -> (same: bool)
    ensures
        same == (a@ == b@),
{
    let left: String = a.to_string();
    let right: String = b.to_string();
    left == right
}

/// `first` followed by `second`.
pub fn join(first: &str, second: &str) -> (text: String)
    ensures
        text@ == first@ + second@,
{
    let mut text = first.to_string();
    text.append(second);
    text
}

/// `first` followed by `second` and `third`.
pub fn join3(first: &str, second: &str, third: &str) -> (text: String)
    ensures
        text@ == first@ + second@ + third@,
{
    let mut text = join(first, second);
    text.append(third);
    text
}

/// `byte` is an ASCII digit.
pub open spec fn is_digit(byte: u8) -> bool {
    48 <= byte <= 57
}

pub open spec fn all_digits(s: Seq<u8>) -> bool {
    forall|i: int| 0 <= i < s.len() ==> is_digit(#[trigger] s[i])
}

/// The number that a row of digits writes.
pub open spec fn digits_value(s: Seq<u8>) -> nat
    decreases s.len(),
{
    if s.len() == 0 {
        0
    } else {
        (10 * digits_value(s.drop_last()) + (s.last() - 48)) as nat
    }
}

/// The number that `s` writes: an optional sign, then digits and nothing else.
/// A minus sign counts only where `signed` says so.
pub open spec fn number_value(s: Seq<u8>, signed: bool) -> Option<int> {
    let negative = signed && s.len() > 0 && s[0] == 45;
    let marked = negative || (s.len() > 0 && s[0] == 43);
    let digits = if marked {
        s.skip(1)
    } else {
        s
    };
    if digits.len() > 0 && all_digits(digits) {
        if negative {
            Some(-digits_value(digits))
        } else {
            Some(digits_value(digits) as int)
        }
    } else {
        None
    }
}

/// The number that `s` writes, if it lies between `low` and `high`. Negative
/// numbers are read only where `low` is negative.
pub open spec fn bounded_number(s: Seq<u8>, low: int, high: int) -> Option<int> {
    match number_value(s, low < 0) {
        Some(v) => if low <= v <= high {
            Some(v)
        } else {
            None
        },
        None => None,
    }
}

proof fn digits_value_grows(s: Seq<u8>, k: int)
    requires
        0 <= k <= s.len(),
        all_digits(s),
    ensures
        digits_value(s.take(k)) <= digits_value(s),
    decreases s.len(),
{
    if k == s.len() {
        assert(s.take(k) =~= s);
    } else {
        assert(s.drop_last().take(k) =~= s.take(k));
        assert forall|i: int| 0 <= i < s.drop_last().len() implies is_digit(
            #[trigger] s.drop_last()[i],
        ) by {
            assert(is_digit(s[i]));
        }
        digits_value_grows(s.drop_last(), k);
        assert(is_digit(s[s.len() - 1]));
    }
}

/// Reads a row of digits that writes a number of at most `limit`.
fn read_digits(digits: &[u8], limit: u64) -> (value: Option<u64>)
    requires
        limit <= 0xffff_ffff,
    ensures
        match value {
            Some(v) => digits@.len() > 0 && all_digits(digits@) && v == digits_value(digits@) && v
                <= limit,
            None => !(digits@.len() > 0 && all_digits(digits@) && digits_value(digits@) <= limit),
        },
{
    if digits.len() == 0 {
        return None;
    }
    let mut value: u64 = 0;
    let mut i: usize = 0;
    while i < digits.len()
        invariant
            i <= digits@.len(),
            limit <= 0xffff_ffff,
            value <= limit,
            forall|j: int| 0 <= j < i ==> is_digit(#[trigger] digits@[j]),
            value == digits_value(digits@.take(i as int)),
        decreases digits@.len() - i,
    {
        let byte = digits[i];
        if byte < 48 || byte > 57 {
            assert(!is_digit(digits@[i as int]));
            return None;
        }
        assert(digits@.take(i + 1).drop_last() =~= digits@.take(i as int));
        let next: u64 = 10 * value + (byte - 48) as u64;
        assert(next == digits_value(digits@.take(i + 1)));
        if next > limit {
            proof {
                if all_digits(digits@) {
                    digits_value_grows(digits@, i + 1);
                }
            }
            return None;
        }
        value = next;
        i += 1;
    }
    assert(digits@.take(i as int) =~= digits@);
    Some(value)
}

/// Reads an unsigned number of at most `limit`.
fn read_unsigned(text: &[u8], limit: u64) -> (value: Option<u64>)
    requires
        limit <= 0xffff_ffff,
    ensures
        match bounded_number(text@, 0, limit as int) {
            Some(v) => value matches Some(x) && x == v,
            None => value is None,
        },
{
    if text.len() > 0 && text[0] == 43 {
        read_digits(&text[1..text.len()], limit)
    } else {
        read_digits(text, limit)
    }
}

/// Reads an unsigned 8-bit number.
pub fn parse_u8(text: &[u8]) -> (value: Option<u8>)
    ensures
        match bounded_number(text@, 0, 255) {
            Some(v) => value matches Some(x) && x == v,
            None => value is None,
        },
{
    match read_unsigned(text, 255) {
        Some(value) => Some(value as u8),
        None => None,
    }
}

/// Reads an unsigned 32-bit number.
pub fn parse_u32(text: &[u8]) -> (value: Option<u32>)
    ensures
        match bounded_number(text@, 0, u32::MAX as int) {
            Some(v) => value matches Some(x) && x == v,
            None => value is None,
        },
{
    match read_unsigned(text, 0xffff_ffff) {
        Some(value) => Some(value as u32),
        None => None,
    }
}

/// Reads a signed 32-bit number.
pub fn parse_i32(text: &[u8]) -> (value: Option<i32>)
    ensures
        match bounded_number(text@, i32::MIN as int, i32::MAX as int) {
            Some(v) => value matches Some(x) && x == v,
            None => value is None,
        },
{
    if text.len() > 0 && text[0] == 45 {
        match read_digits(&text[1..text.len()], 0x8000_0000) {
            Some(value) => Some((-(value as i64)) as i32),
            None => None,
        }
    } else {
        match read_unsigned(text, 0x7fff_ffff) {
            Some(value) => Some(value as i32),
            None => None,
        }
    }
}

/// The bytes of a text whose characters are all ASCII.
pub open spec fn ascii(text: Seq<char>) -> Seq<u8> {
    text.map_values(|c: char| c as u8)
}

/// A number written in decimal reads back as the same number.
pub proof fn decimal_round_trip(n: nat)
    ensures
        all_digits(ascii(decimal(n))),
        decimal(n).len() > 0,
        digits_value(ascii(decimal(n))) == n,
        number_value(ascii(decimal(n)), false) == Some(n as int),
        number_value(ascii(decimal(n)), true) == Some(n as int),
    decreases n,
{
    let s = ascii(decimal(n));
    if n >= 10 {
        decimal_round_trip(n / 10);
        assert(s.drop_last() =~= ascii(decimal(n / 10)));
        assert forall|i: int| 0 <= i < s.len() implies is_digit(#[trigger] s[i]) by {
            if i < s.len() - 1 {
                assert(is_digit(s.drop_last()[i]));
            }
        }
        assert(s.last() == 48 + n % 10);
    } else {
        assert(s.drop_last() =~= Seq::<u8>::empty());
        assert(digits_value(s.drop_last()) == 0);
        assert(s.last() == 48 + n);
    }
    assert(digits_value(s) == 10 * digits_value(s.drop_last()) + (s.last() - 48));
    assert(is_digit(s[0]));
}

/// The same for signed numbers.
pub proof fn signed_decimal_round_trip(n: int)
    ensures
        number_value(ascii(signed_decimal(n)), true) == Some(n),
{
    if n < 0 {
        decimal_round_trip((-n) as nat);
        assert(ascii(signed_decimal(n)).skip(1) =~= ascii(decimal((-n) as nat)));
    } else {
        decimal_round_trip(n as nat);
    }
}

/// Trimming takes off the white space around a text, and nothing of the text itself.
pub proof fn trimming_leaves_the_middle(before: Seq<char>, middle: Seq<char>, after: Seq<char>)
    requires
        forall|i: int| 0 <= i < before.len() ==> white(#[trigger] before[i]),
        forall|i: int| 0 <= i < after.len() ==> white(#[trigger] after[i]),
        middle.len() > 0 ==> !white(middle[0]) && !white(middle.last()),
    ensures
        trimmed_end(trimmed_start(before + middle + after)) == middle,
{
    start_comes_off(before, middle + after);
    assert(before + middle + after =~= before + (middle + after));
    if middle.len() > 0 {
        assert((middle + after)[0] == middle[0]);
        assert(trimmed_start(middle + after) == middle + after);
        end_comes_off(middle, after);
        assert(trimmed_end(middle) == middle);
    } else {
        assert(middle + after =~= after + middle);
        start_comes_off(after, middle);
        assert(trimmed_start(middle) =~= middle);
        assert(trimmed_end(middle) =~= middle);
    }
}

proof fn start_comes_off(before: Seq<char>, rest: Seq<char>)
    requires
        forall|i: int| 0 <= i < before.len() ==> white(#[trigger] before[i]),
    ensures
        trimmed_start(before + rest) == trimmed_start(rest),
    decreases before.len(),
{
    if before.len() == 0 {
        assert(before + rest =~= rest);
    } else {
        start_comes_off(before.skip(1), rest);
        assert((before + rest).skip(1) =~= before.skip(1) + rest);
        assert((before + rest)[0] == before[0]);
    }
}

proof fn end_comes_off(body: Seq<char>, after: Seq<char>)
    requires
        forall|i: int| 0 <= i < after.len() ==> white(#[trigger] after[i]),
    ensures
        trimmed_end(body + after) == trimmed_end(body),
    decreases after.len(),
{
    if after.len() == 0 {
        assert(body + after =~= body);
    } else {
        end_comes_off(body, after.drop_last());
        assert((body + after).drop_last() =~= body + after.drop_last());
        assert((body + after).last() == after[after.len() - 1]);
    }
}

} // verus!
