//! Finding the transmit sequence of the stock software in a frozen process.
//!
//! The memory map of a process is a row of characters here, in lines: the address
//! range, the permissions and the file offset come first, apart by white space.

use crate::text;
use crate::text::is_white;
use crate::text::join;
use crate::text::join3;
use crate::text::parse_u32;
use crate::text::short_hexadecimal_text;
use vstd::prelude::*;
use vstd::string::*;

verus! {

/// Offset of the transmit sequence in the UART library of Roborock firmware
/// 4.1.2_1668 (build ID 8d639ff160b8766b7bb87e848e9b0a9c0ff12a08). It has to be
/// derived again for any other build of the firmware or the library.
pub const SEQUENCE_OFFSET: u64 = 0x2ff4d;

/// How the program is to be called.
pub open spec fn usage() -> Seq<char> {
    "usage: roborock_s5max_sequence <rr_loader-pid>"@
}

/// The process argument: the only one, and a number.
pub fn pid_argument(arguments: &Vec<String>) -> (pid: Result<String, String>)
    ensures
        if arguments@.len() == 1 && text::bounded_number(
            vstd::utf8::encode_utf8(arguments@[0]@),
            0,
            u32::MAX as int,
        ) is Some {
            pid matches Ok(p) && p@ == arguments@[0]@
        } else {
            pid matches Err(said) && said@ == usage()
        },
{
    if arguments.len() == 1 {
        let number = parse_u32(arguments[0].as_str().as_bytes());
        if number.is_some() {
            return Ok(arguments[0].clone());
        }
    }
    Err("usage: roborock_s5max_sequence <rr_loader-pid>".to_string())
}

/// The first place of `s`, from `from` on, that holds `c`, or else the end.
pub open spec fn end_of(s: Seq<char>, from: int, c: char) -> int
    decreases s.len() - from,
{
    if from >= s.len() || s[from] == c {
        from
    } else {
        end_of(s, from + 1, c)
    }
}

/// The end of the field that starts at `from`: white space, or the end.
pub open spec fn field_end(s: Seq<char>, from: int) -> int
    decreases s.len() - from,
{
    if from >= s.len() || text::white(s[from]) {
        from
    } else {
        field_end(s, from + 1)
    }
}

/// The start of the next field from `from` on, or the end.
pub open spec fn field_start(s: Seq<char>, from: int) -> int
    decreases s.len() - from,
{
    if from < s.len() && text::white(s[from]) {
        field_start(s, from + 1)
    } else {
        from
    }
}

/// The next field of `s` from `from` on, which is empty at the end, and where it ends.
pub open spec fn next_field(s: Seq<char>, from: int) -> (Seq<char>, int) {
    let start = field_start(s, from);
    let end = field_end(s, start);
    (s.subrange(start, end), end)
}

/// The value of a hexadecimal digit.
pub open spec fn hex_value(c: char) -> Option<int> {
    if '0' <= c <= '9' {
        Some(c as int - '0' as int)
    } else if 'a' <= c <= 'f' {
        Some(c as int - 'a' as int + 10)
    } else if 'A' <= c <= 'F' {
        Some(c as int - 'A' as int + 10)
    } else {
        None
    }
}

/// The number that a row of hexadecimal digits writes.
pub open spec fn hex_number(s: Seq<char>) -> Option<int>
    decreases s.len(),
{
    if s.len() == 0 {
        Some(0)
    } else {
        match (hex_number(s.drop_last()), hex_value(s.last())) {
            (Some(high), Some(low)) => Some(16 * high + low),
            _ => None,
        }
    }
}

/// The 64-bit number that `s` writes in hexadecimal, after an optional plus sign.
pub open spec fn hex_u64(s: Seq<char>) -> Option<int> {
    let digits = if s.len() > 0 && s[0] == '+' {
        s.skip(1)
    } else {
        s
    };
    match hex_number(digits) {
        Some(n) => if digits.len() > 0 && n <= u64::MAX {
            Some(n)
        } else {
            None
        },
        None => None,
    }
}

/// The name of the UART library occurs in `s`.
pub open spec fn names_library(s: Seq<char>) -> bool {
    exists|i: int|
        0 <= i <= s.len() - "libuart_api"@.len() && #[trigger] s.subrange(
            i,
            i + "libuart_api"@.len(),
        ) == "libuart_api"@
}

/// The load bias that a line gives, if it maps the UART library.
pub open spec fn line_bias(line: Seq<char>) -> Option<int> {
    let range = next_field(line, 0);
    let permissions = next_field(line, range.1);
    let offset = next_field(line, permissions.1);
    let dash = end_of(range.0, 0, '-');
    let start = hex_u64(range.0.take(dash));
    let file_offset = hex_u64(offset.0);
    if offset.0.len() > 0 && names_library(line) && dash < range.0.len() && start is Some
        && file_offset is Some && file_offset->0 <= start->0 {
        Some(start->0 - file_offset->0)
    } else {
        None
    }
}

/// The load bias that a memory map gives: that of the first line which gives one.
pub open spec fn load_bias(maps: Seq<char>) -> Option<int>
    decreases maps.len(),
{
    if maps.len() == 0 {
        None
    } else {
        let end = end_of(maps, 0, '\n');
        let bias = line_bias(maps.take(end));
        if bias is Some {
            bias
        } else if end < maps.len() {
            proof {
                end_of_bounds(maps, 0, '\n');
            }
            load_bias(maps.skip(end + 1))
        } else {
            None
        }
    }
}

/// A character is found within bounds.
pub proof fn end_of_bounds(s: Seq<char>, from: int, c: char)
    requires
        0 <= from <= s.len(),
    ensures
        from <= end_of(s, from, c) <= s.len(),
    decreases s.len() - from,
{
    if from < s.len() && s[from] != c {
        end_of_bounds(s, from + 1, c);
    }
}

fn find_end(s: &[char], c: char) -> (at: usize)
    ensures
        at == end_of(s@, 0, c),
        at <= s@.len(),
{
    let mut at: usize = 0;
    while at < s.len() && s[at] != c
        invariant
            at <= s@.len(),
            end_of(s@, 0, c) == end_of(s@, at as int, c),
        decreases s@.len() - at,
    {
        at += 1;
    }
    at
}

/// The next field from `from` on, and where it ends.
fn take_field(s: &[char], from: usize) -> (field: (Vec<char>, usize))
    requires
        from <= s@.len(),
    ensures
        field.0@ == next_field(s@, from as int).0,
        field.1 == next_field(s@, from as int).1,
        field.1 <= s@.len(),
{
    let mut start: usize = from;
    while start < s.len() && is_white(s[start])
        invariant
            start <= s@.len(),
            field_start(s@, from as int) == field_start(s@, start as int),
        decreases s@.len() - start,
    {
        start += 1;
    }
    let mut end: usize = start;
    let mut field: Vec<char> = Vec::new();
    while end < s.len() && !is_white(s[end])
        invariant
            start <= end <= s@.len(),
            field_end(s@, start as int) == field_end(s@, end as int),
            field@ == s@.subrange(start as int, end as int),
        decreases s@.len() - end,
    {
        field.push(s[end]);
        assert(field@ =~= s@.subrange(start as int, end + 1));
        end += 1;
    }
    (field, end)
}

fn digit_value(c: char) -> (value: Option<u8>)
    ensures
        match hex_value(c) {
            Some(n) => value matches Some(v) && v == n && v < 16,
            None => value is None,
        },
{
    let n = c as u32;
    if 48 <= n && n <= 57 {
        Some((n - 48) as u8)
    } else if 97 <= n && n <= 102 {
        Some((n - 87) as u8)
    } else if 65 <= n && n <= 70 {
        Some((n - 55) as u8)
    } else {
        None
    }
}

proof fn hex_number_grows(s: Seq<char>, k: int)
    requires
        0 <= k <= s.len(),
        hex_number(s) is Some,
    ensures
        hex_number(s.take(k)) is Some,
        0 <= hex_number(s.take(k))->0 <= hex_number(s)->0,
    decreases s.len(),
{
    if k == s.len() {
        assert(s.take(k) =~= s);
        if s.len() > 0 {
            hex_number_grows(s.drop_last(), k - 1);
        }
    } else {
        assert(s.drop_last().take(k) =~= s.take(k));
        hex_number_grows(s.drop_last(), k);
        assert(hex_value(s.last()) is Some);
    }
}

/// Reads hexadecimal digits from `from` on.
fn read_hex(s: &[char], from: usize) -> (value: Option<u64>)
    requires
        from <= s@.len(),
    ensures
        ({
            let digits = s@.skip(from as int);
            let n = hex_number(digits);
            if digits.len() > 0 && n is Some && n->0 <= u64::MAX {
                value matches Some(v) && v == n->0
            } else {
                value is None
            }
        }),
{
    let ghost digits = s@.skip(from as int);
    if from == s.len() {
        return None;
    }
    let mut value: u64 = 0;
    let mut i: usize = from;
    while i < s.len()
        invariant
            from <= i <= s@.len(),
            digits == s@.skip(from as int),
            hex_number(digits.take(i - from)) == Some(value as int),
        decreases s@.len() - i,
    {
        let ghost k = i - from;
        assert(digits.take(k + 1).drop_last() =~= digits.take(k));
        assert(digits.take(k + 1).last() == s@[i as int]);
        proof {
            if hex_number(digits) is Some {
                hex_number_grows(digits, k + 1);
            }
        }
        let digit = match digit_value(s[i]) {
            Some(digit) => digit,
            None => {
                return None;
            },
        };
        if value > (0xffff_ffff_ffff_ffff - digit as u64) / 16 {
            return None;
        }
        value = 16 * value + digit as u64;
        i += 1;
    }
    assert(digits.take(i - from) =~= digits);
    Some(value)
}

/// Reads a 64-bit hexadecimal number.
pub fn parse_hex(s: &[char]) -> (value: Option<u64>)
    ensures
        match hex_u64(s@) {
            Some(n) => value matches Some(v) && v == n,
            None => value is None,
        },
{
    assert(s@.skip(0) =~= s@);
    if s.len() > 0 && s[0] == '+' {
        read_hex(s, 1)
    } else {
        read_hex(s, 0)
    }
}

/// Whether `name` stands at `at`.
fn stands_at(s: &[char], at: usize, name: &str) -> (yes: bool)
    requires
        at + name@.len() <= s@.len(),
    ensures
        yes == (s@.subrange(at as int, at + name@.len()) == name@),
{
    let length = name.unicode_len();
    let mut k: usize = 0;
    while k < length
        invariant
            k <= length,
            length == name@.len(),
            at + length <= s@.len(),
            forall|j: int| 0 <= j < k ==> s@[at + j] == #[trigger] name@[j],
        decreases length - k,
    {
        assert(at + k < s.len());
        if s[at + k] != name.get_char(k) {
            assert(s@.subrange(at as int, at + length)[k as int] != name@[k as int]);
            return false;
        }
        k += 1;
    }
    assert(s@.subrange(at as int, at + length) =~= name@);
    true
}

/// Whether the name of the UART library occurs in a line.
fn has_library(line: &[char]) -> (yes: bool)
    ensures
        yes == names_library(line@),
{
    let name = "libuart_api";
    let length = name.unicode_len();
    if line.len() < length {
        return false;
    }
    let last: usize = line.len() - length;
    let mut i: usize = 0;
    while i <= last
        invariant
            name@ == "libuart_api"@,
            length == name@.len(),
            last == line@.len() - length,
            i <= last + 1,
            forall|j: int|
                0 <= j < i ==> #[trigger] line@.subrange(j, j + "libuart_api"@.len())
                    != "libuart_api"@,
        decreases last + 1 - i,
    {
        if stands_at(line, i, name) {
            assert(line@.subrange(i as int, i + "libuart_api"@.len()) == "libuart_api"@);
            return true;
        }
        if i == last {
            return false;
        }
        i += 1;
    }
    false
}

/// The load bias that a line of a memory map gives.
pub fn bias_of_line(line: &[char]) -> (bias: Option<u64>)
    ensures
        match line_bias(line@) {
            Some(n) => bias matches Some(b) && b == n,
            None => bias is None,
        },
{
    let range = take_field(line, 0);
    let permissions = take_field(line, range.1);
    let offset = take_field(line, permissions.1);
    if offset.0.len() == 0 || !has_library(line) {
        return None;
    }
    let range = range.0.as_slice();
    let dash = find_end(range, '-');
    if dash == range.len() {
        return None;
    }
    assert(range@.subrange(0, dash as int) =~= range@.take(dash as int));
    let start = parse_hex(&range[0..dash]);
    let file_offset = parse_hex(offset.0.as_slice());
    match (start, file_offset) {
        (Some(start), Some(file_offset)) => start.checked_sub(file_offset),
        _ => None,
    }
}

/// The load bias that a memory map gives.
pub fn find_load_bias(maps: &[char]) -> (bias: Option<u64>)
    ensures
        match load_bias(maps@) {
            Some(n) => bias matches Some(b) && b == n,
            None => bias is None,
        },
{
    let mut from: usize = 0;
    assert(maps@.skip(0) =~= maps@);
    while from < maps.len()
        invariant
            from <= maps@.len(),
            load_bias(maps@) == load_bias(maps@.skip(from as int)),
        decreases maps@.len() - from,
    {
        let ghost rest = maps@.skip(from as int);
        assert(maps@.subrange(from as int, maps@.len() as int) =~= rest);
        let left = &maps[from..maps.len()];
        let end = find_end(left, '\n');
        assert(left@.subrange(0, end as int) =~= rest.take(end as int));
        let bias = bias_of_line(&left[0..end]);
        if bias.is_some() {
            return bias;
        }
        if end == left.len() {
            return None;
        }
        assert(rest.skip(end + 1) =~= maps@.skip(from + end + 1));
        from = from + end + 1;
    }
    None
}

/// The load bias of the UART library, or what is said where there is none. `path` is
/// the file of the memory map.
pub fn library_bias(maps: &[char], path: &str) -> (bias: Result<u64, String>)
    ensures
        match load_bias(maps@) {
            Some(n) => bias matches Ok(b) && b == n,
            None => bias matches Err(said) && said@ == "cannot find libuart_api mapping in "@
                + path@,
        },
{
    match find_load_bias(maps) {
        Some(bias) => Ok(bias),
        None => Err(join("cannot find libuart_api mapping in ", path)),
    }
}

/// Where the transmit sequence stands in the memory of the process.
pub fn sequence_address(load_bias: u64) -> (address: Result<u64, String>)
    ensures
        if load_bias + SEQUENCE_OFFSET <= u64::MAX {
            address matches Ok(a) && a == load_bias + SEQUENCE_OFFSET
        } else {
            address matches Err(said) && said@ == "sequence address overflow"@
        },
        address matches Ok(a) ==> a - load_bias == 0x2ff4d,
{
    match load_bias.checked_add(SEQUENCE_OFFSET) {
        Some(address) => Ok(address),
        None => Err("sequence address overflow".to_string()),
    }
}

/// What is said where the memory cannot be read from that address on; `why` are the
/// words of the operating system.
pub fn seek_failure(path: &str, address: u64, why: &str) -> (said: String)
    ensures
        said@ == "seek "@ + path@ + " to 0x"@ + text::short_hexadecimal(address as nat) + ": "@
            + why@,
{
    let number = short_hexadecimal_text(address);
    let start = join3("seek ", path, " to 0x");
    let middle = join3(start.as_str(), number.as_str(), ": ");
    join(middle.as_str(), why)
}

/// What is said where the sequence cannot be read; `why` are the words of the
/// operating system.
pub fn read_failure(address: u64, why: &str) -> (said: String)
    ensures
        said@ == "read sequence at 0x"@ + text::short_hexadecimal(address as nat) + ": "@ + why@,
{
    let number = short_hexadecimal_text(address);
    let start = join3("read sequence at 0x", number.as_str(), ": ");
    join(start.as_str(), why)
}

/// A number written in hexadecimal reads back as the same number.
pub proof fn hexadecimal_reads_back(n: nat)
    ensures
        text::short_hexadecimal(n).len() > 0,
        text::short_hexadecimal(n)[0] != '+',
        hex_number(text::short_hexadecimal(n)) == Some(n as int),
        n <= u64::MAX ==> hex_u64(text::short_hexadecimal(n)) == Some(n as int),
        forall|i: int|
            0 <= i < text::short_hexadecimal(n).len() ==> hex_value(
                #[trigger] text::short_hexadecimal(n)[i],
            ) is Some,
    decreases n,
{
    let s = text::short_hexadecimal(n);
    let last = text::digit_char((n % 16) as int);
    assert(hex_value(last) == Some((n % 16) as int));
    if n < 16 {
        assert(s.drop_last() =~= Seq::<char>::empty());
        assert(hex_number(s.drop_last()) == Some(0int));
    } else {
        hexadecimal_reads_back(n / 16);
        assert(s.drop_last() =~= text::short_hexadecimal(n / 16));
    }
    assert(s.last() == last);
    assert forall|i: int| 0 <= i < s.len() implies hex_value(#[trigger] s[i]) is Some by {
        if i < s.len() - 1 {
            assert(s[i] == s.drop_last()[i]);
            assert(hex_value(text::short_hexadecimal(n / 16)[i]) is Some);
        }
    }
    assert(hex_value(s[0]) is Some);
}

proof fn field_ends_at(s: Seq<char>, from: int, end: int)
    requires
        0 <= from <= end < s.len(),
        forall|i: int| from <= i < end ==> !text::white(#[trigger] s[i]),
        text::white(s[end]),
    ensures
        field_end(s, from) == end,
    decreases end - from,
{
    if from < end {
        field_ends_at(s, from + 1, end);
    }
}

proof fn dash_stands_at(s: Seq<char>, from: int, at: int)
    requires
        0 <= from <= at < s.len(),
        forall|i: int| from <= i < at ==> #[trigger] s[i] != '-',
        s[at] == '-',
    ensures
        end_of(s, from, '-') == at,
    decreases at - from,
{
    if from < at {
        dash_stands_at(s, from + 1, at);
    }
}

/// `s` holds no white space.
pub open spec fn one_field(s: Seq<char>) -> bool {
    s.len() > 0 && forall|i: int| 0 <= i < s.len() ==> !text::white(#[trigger] s[i])
}

/// A line of a memory map that names the UART library gives as its bias the start of the
/// mapped range less the offset in the file, whatever the end of the range, the
/// permissions and the rest of the line are.
pub proof fn bias_is_start_less_offset(
    start: u64,
    end: Seq<char>,
    permissions: Seq<char>,
    offset: u64,
    rest: Seq<char>,
)
    requires
        one_field(end),
        one_field(permissions),
        offset <= start,
        names_library(
            text::short_hexadecimal(start as nat) + seq!['-'] + end + seq![' '] + permissions + seq![
                ' ',
            ] + text::short_hexadecimal(offset as nat) + seq![' '] + rest,
        ),
    ensures
        line_bias(
            text::short_hexadecimal(start as nat) + seq!['-'] + end + seq![' '] + permissions + seq![
                ' ',
            ] + text::short_hexadecimal(offset as nat) + seq![' '] + rest,
        ) == Some(start - offset),
{
    let a = text::short_hexadecimal(start as nat);
    let o = text::short_hexadecimal(offset as nat);
    let line = a + seq!['-'] + end + seq![' '] + permissions + seq![' '] + o + seq![' '] + rest;
    hexadecimal_reads_back(start as nat);
    hexadecimal_reads_back(offset as nat);
    let range = a + seq!['-'] + end;
    let e1 = range.len() as int;
    let e2 = e1 + 1 + permissions.len();
    let e3 = e2 + 1 + o.len();
    assert(line.subrange(0, e1) =~= range);
    assert(line.subrange(e1 + 1, e2) =~= permissions);
    assert(line.subrange(e2 + 1, e3) =~= o);
    assert(line[e1] == ' ' && line[e2] == ' ' && line[e3] == ' ');
    assert forall|i: int| 0 <= i < e1 implies !text::white(#[trigger] line[i]) by {
        if i < a.len() {
            assert(line[i] == a[i]);
        } else if i > a.len() {
            assert(line[i] == end[i - a.len() - 1]);
        } else {
            assert(line[i] == '-');
        }
    }
    assert forall|i: int| e1 + 1 <= i < e2 implies !text::white(#[trigger] line[i]) by {
        assert(line[i] == permissions[i - e1 - 1]);
    }
    assert forall|i: int| e2 + 1 <= i < e3 implies !text::white(#[trigger] line[i]) by {
        assert(line[i] == o[i - e2 - 1]);
    }
    field_ends_at(line, 0, e1);
    field_ends_at(line, e1 + 1, e2);
    field_ends_at(line, e2 + 1, e3);
    assert(field_start(line, 0) == 0);
    assert(field_start(line, e1 + 1) == e1 + 1) by {
        assert(line[e1 + 1] == permissions[0]);
    }
    assert(field_start(line, e1) == e1 + 1);
    assert(field_start(line, e2 + 1) == e2 + 1) by {
        assert(line[e2 + 1] == o[0]);
    }
    assert(field_start(line, e2) == e2 + 1);
    assert forall|i: int| 0 <= i < a.len() implies #[trigger] range[i] != '-' by {
        assert(range[i] == a[i]);
    }
    dash_stands_at(range, 0, a.len() as int);
    assert(range.take(a.len() as int) =~= a);
}

/// A number of two hexadecimal digits is written as two digits that read back as it.
pub proof fn two_digits_read_back(n: u8)
    ensures
        text::hexadecimal(n as nat, 2).len() == 2,
        hex_number(text::hexadecimal(n as nat, 2)) == Some(n as int),
{
    reveal_with_fuel(text::hexadecimal, 3);
    reveal_with_fuel(hex_number, 3);
    let s = text::hexadecimal(n as nat, 2);
    let high = text::digit_char((n as nat / 16 % 16) as int);
    let low = text::digit_char((n as nat % 16) as int);
    assert(s =~= seq![high, low]);
    assert(s.drop_last() =~= seq![high]);
    assert(seq![high].drop_last() =~= Seq::<char>::empty());
    assert(hex_value(high) == Some((n as nat / 16 % 16) as int));
    assert(hex_value(low) == Some((n as nat % 16) as int));
    assert(hex_number(seq![high]) == Some((n as nat / 16) as int));
}

} // verus!
