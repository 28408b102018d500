//! Little-endian numbers, and searching in byte strings.

use vstd::prelude::*;

verus! {

/// The number that `s` writes in little-endian order.
pub open spec fn le_value(s: Seq<u8>) -> nat
    decreases s.len(),
{
    if s.len() == 0 {
        0
    } else {
        s[0] as nat + 256 * le_value(s.skip(1))
    }
}

/// The `width` low bytes of `n`, least significant first.
pub open spec fn le_bytes(n: nat, width: nat) -> Seq<u8>
    decreases width,
{
    if width == 0 {
        Seq::empty()
    } else {
        seq![(n % 256) as u8] + le_bytes(n / 256, (width - 1) as nat)
    }
}

/// The number that the two bytes of `s` at `at` make, least significant first.
pub open spec fn pair(s: Seq<u8>, at: int) -> int {
    s[at] + 0x100 * s[at + 1]
}

/// The number that the four bytes of `s` at `at` make, least significant first.
pub open spec fn quad(s: Seq<u8>, at: int) -> int {
    s[at] + 0x100 * s[at + 1] + 0x1_0000 * s[at + 2] + 0x100_0000 * s[at + 3]
}

/// The number that a 32-bit pattern stands for in two's complement.
pub open spec fn signed32(n: int) -> int {
    if n < 0x8000_0000 {
        n
    } else {
        n - 0x1_0000_0000
    }
}

/// The number that an 8-bit pattern stands for in two's complement.
pub open spec fn signed8(n: int) -> int {
    if n < 0x80 {
        n
    } else {
        n - 0x100
    }
}

/// 256 to the power of `width`.
pub open spec fn byte_span(width: nat) -> nat
    decreases width,
{
    if width == 0 {
        1
    } else {
        256 * byte_span((width - 1) as nat)
    }
}

/// Writing a number and reading it back gives the number, as long as it fits.
pub proof fn le_round_trip(n: nat, width: nat)
    requires
        n < byte_span(width),
    ensures
        le_bytes(n, width).len() == width,
        le_value(le_bytes(n, width)) == n,
    decreases width,
{
    if width > 0 {
        le_round_trip(n / 256, (width - 1) as nat);
        let all = le_bytes(n, width);
        assert(all.skip(1) =~= le_bytes(n / 256, (width - 1) as nat));
    }
}

/// Two bytes at `at`, as one number.
pub proof fn le_value_2(s: Seq<u8>, at: int)
    requires
        0 <= at,
        at + 2 <= s.len(),
    ensures
        le_value(s.subrange(at, at + 2)) == s[at] + 256 * s[at + 1],
{
    let p = s.subrange(at, at + 2);
    assert(p.skip(1).skip(1) =~= Seq::<u8>::empty());
    assert(p.skip(1)[0] == s[at + 1]);
    assert(le_value(p.skip(1)) == p.skip(1)[0] as nat + 256 * le_value(p.skip(1).skip(1)));
}

/// The four bytes that a 32-bit number is written as make that number again.
pub proof fn le_bytes_make_quad(n: nat)
    requires
        n <= 0xffff_ffff,
    ensures
        le_bytes(n, 4).len() == 4,
        quad(le_bytes(n, 4), 0) == n,
{
    reveal_with_fuel(byte_span, 5);
    le_round_trip(n, 4);
    let all = le_bytes(n, 4);
    assert(all.subrange(0, 4) =~= all);
    le_value_4(all, 0);
}

/// Four bytes at `at`, as one number.
pub proof fn le_value_4(s: Seq<u8>, at: int)
    requires
        0 <= at,
        at + 4 <= s.len(),
    ensures
        le_value(s.subrange(at, at + 4)) == s[at] + 256 * s[at + 1] + 65536 * s[at + 2]
            + 16777216 * s[at + 3],
{
    let p = s.subrange(at, at + 4);
    le_value_2(s, at + 2);
    assert(p.skip(1).skip(1) =~= s.subrange(at + 2, at + 4));
    assert(p.skip(1)[0] == s[at + 1]);
    assert(le_value(p.skip(1)) == p.skip(1)[0] as nat + 256 * le_value(p.skip(1).skip(1)));
}

/// Eight bytes at `at`, as one number.
pub proof fn le_value_8(s: Seq<u8>, at: int)
    requires
        0 <= at,
        at + 8 <= s.len(),
    ensures
        le_value(s.subrange(at, at + 8)) == le_value(s.subrange(at, at + 4)) + 0x1_0000_0000
            * le_value(s.subrange(at + 4, at + 8)),
{
    let p = s.subrange(at, at + 8);
    le_value_4(s, at);
    let p1 = p.skip(1);
    let p2 = p1.skip(1);
    let p3 = p2.skip(1);
    assert(p3.skip(1) =~= s.subrange(at + 4, at + 8));
    assert(p[0] == s[at] && p1[0] == s[at + 1] && p2[0] == s[at + 2] && p3[0] == s[at + 3]);
    assert(le_value(p) == p[0] as nat + 256 * le_value(p1));
    assert(le_value(p1) == p1[0] as nat + 256 * le_value(p2));
    assert(le_value(p2) == p2[0] as nat + 256 * le_value(p3));
    assert(le_value(p3) == p3[0] as nat + 256 * le_value(p3.skip(1)));
}

/// Reads the 16-bit number at `at`.
pub fn read_u16(bytes: &[u8], at: usize) -> (value: u16)
    requires
        at + 2 <= bytes@.len(),
    ensures
        value == le_value(bytes@.subrange(at as int, at + 2)),
{
    proof {
        le_value_2(bytes@, at as int);
    }
    bytes[at] as u16 + 256 * (bytes[at + 1] as u16)
}

/// Reads the 32-bit number at `at`.
pub fn read_u32(bytes: &[u8], at: usize) -> (value: u32)
    requires
        at + 4 <= bytes@.len(),
    ensures
        value == le_value(bytes@.subrange(at as int, at + 4)),
{
    proof {
        le_value_4(bytes@, at as int);
    }
    bytes[at] as u32 + 256 * (bytes[at + 1] as u32) + 65536 * (bytes[at + 2] as u32) + 16777216 * (
    bytes[at + 3] as u32)
}

/// Reads the 64-bit number at `at`.
pub fn read_u64(bytes: &[u8], at: usize) -> (value: u64)
    requires
        at + 8 <= bytes@.len(),
    ensures
        value == le_value(bytes@.subrange(at as int, at + 8)),
{
    proof {
        le_value_8(bytes@, at as int);
    }
    assert(at + 8 <= bytes.len());
    let low = read_u32(bytes, at);
    let high = read_u32(bytes, at + 4);
    low as u64 + 0x1_0000_0000 * (high as u64)
}

/// Reads the signed 32-bit number at `at`.
pub fn read_i32(bytes: &[u8], at: usize) -> (value: i32)
    requires
        at + 4 <= bytes@.len(),
    ensures
        value == signed32(le_value(bytes@.subrange(at as int, at + 4)) as int),
{
    let pattern = read_u32(bytes, at);
    if pattern < 0x8000_0000 {
        pattern as i32
    } else {
        -((0xffff_ffff - pattern) as i32) - 1
    }
}

/// The signed value of one byte.
pub fn signed_byte(byte: u8) -> (value: i8)
    ensures
        value == signed8(byte as int),
{
    if byte < 0x80 {
        byte as i8
    } else {
        -((0xff - byte) as i8) - 1
    }
}

/// Writes a 32-bit number in little-endian order.
pub fn write_u32(value: u32) -> (bytes: [u8; 4])
    ensures
        bytes@ == le_bytes(value as nat, 4),
{
    let bytes: [u8; 4] = [
        (value % 256) as u8,
        (value / 256 % 256) as u8,
        (value / 65536 % 256) as u8,
        (value / 16777216 % 256) as u8,
    ];
    proof {
        reveal_with_fuel(le_bytes, 5);
        assert(value as nat / 256 / 256 == value as nat / 65536);
        assert(value as nat / 65536 / 256 == value as nat / 16777216);
        assert(bytes@ =~= le_bytes(value as nat, 4));
    }
    bytes
}

/// A copy of `bytes` from `from` up to `to`.
pub fn copy_range(bytes: &[u8], from: usize, to: usize) -> (copy: Vec<u8>)
    requires
        from <= to <= bytes@.len(),
    ensures
        copy@ == bytes@.subrange(from as int, to as int),
{
    let mut copy: Vec<u8> = Vec::new();
    copy.extend_from_slice(&bytes[from..to]);
    assert(copy@ =~= bytes@.subrange(from as int, to as int));
    copy
}

/// Removes the first `count` bytes of `buffer` and returns them.
pub fn take_front(buffer: &mut Vec<u8>, count: usize) -> (front: Vec<u8>)
    requires
        count <= old(buffer)@.len(),
    ensures
        front@ == old(buffer)@.take(count as int),
        final(buffer)@ == old(buffer)@.skip(count as int),
{
    let mut rest = buffer.split_off(count);
    std::mem::swap(buffer, &mut rest);
    rest
}

/// Appends `more` to `buffer`.
pub fn append_bytes(buffer: &mut Vec<u8>, more: &[u8])
    ensures
        final(buffer)@ == old(buffer)@ + more@,
{
    buffer.extend_from_slice(more);
    assert(buffer@ =~= old(buffer)@ + more@);
}

/// Whether two byte strings are equal.
pub fn same_bytes(a: &[u8], b: &[u8]) -> (same: bool)
    ensures
        same == (a@ == b@),
{
    if a.len() != b.len() {
        return false;
    }
    let mut i: usize = 0;
    while i < a.len()
        invariant
            i <= a@.len(),
            a@.len() == b@.len(),
            forall|j: int| 0 <= j < i ==> a@[j] == b@[j],
        decreases a@.len() - i,
    {
        if a[i] != b[i] {
            return false;
        }
        i += 1;
    }
    assert(a@ =~= b@);
    true
}

/// Where `byte` first stands in `s`, if it does.
pub open spec fn first_byte(s: Seq<u8>, byte: u8) -> Option<int>
    decreases s.len(),
{
    if s.len() == 0 {
        None
    } else if s[0] == byte {
        Some(0)
    } else {
        match first_byte(s.skip(1), byte) {
            Some(i) => Some(i + 1),
            None => None,
        }
    }
}

/// What it means to be the first place of a byte, said without recursion.
pub proof fn first_byte_meaning(s: Seq<u8>, byte: u8)
    ensures
        first_byte(s, byte) matches Some(i) ==> 0 <= i < s.len() && s[i] == byte && (forall|j: int|
            0 <= j < i ==> s[j] != byte),
        first_byte(s, byte) is None ==> forall|j: int| 0 <= j < s.len() ==> s[j] != byte,
    decreases s.len(),
{
    if s.len() > 0 && s[0] != byte {
        first_byte_meaning(s.skip(1), byte);
        match first_byte(s.skip(1), byte) {
            Some(i) => {
                assert forall|j: int| 0 <= j < i + 1 implies s[j] != byte by {
                    if j > 0 {
                        assert(s.skip(1)[j - 1] != byte);
                    }
                }
            },
            None => {
                assert forall|j: int| 0 <= j < s.len() implies s[j] != byte by {
                    if j > 0 {
                        assert(s.skip(1)[j - 1] != byte);
                    }
                }
            },
        }
    }
}

/// A place that holds `byte`, with no such byte before it, is the first one.
pub proof fn first_byte_at(s: Seq<u8>, byte: u8, at: int)
    requires
        0 <= at < s.len(),
        s[at] == byte,
        forall|j: int| 0 <= j < at ==> s[j] != byte,
    ensures
        first_byte(s, byte) == Some(at),
{
    first_byte_meaning(s, byte);
}

/// Where a byte first stands in two pieces that follow each other.
pub proof fn first_byte_extended(s: Seq<u8>, more: Seq<u8>, byte: u8)
    ensures
        first_byte(s, byte) matches Some(i) ==> first_byte(s + more, byte) == Some(i),
        first_byte(s, byte) is None ==> match first_byte(more, byte) {
            Some(i) => first_byte(s + more, byte) == Some(i + s.len()),
            None => first_byte(s + more, byte) is None,
        },
{
    first_byte_meaning(s, byte);
    first_byte_meaning(more, byte);
    first_byte_meaning(s + more, byte);
    match first_byte(s, byte) {
        Some(i) => {
            assert((s + more)[i] == byte);
            assert forall|j: int| 0 <= j < i implies (s + more)[j] != byte by {
                assert(s[j] != byte);
            }
            first_byte_at(s + more, byte, i);
        },
        None => {
            match first_byte(more, byte) {
                Some(i) => {
                    assert((s + more)[i + s.len()] == byte);
                    assert forall|j: int| 0 <= j < i + s.len() implies (s + more)[j] != byte by {
                        if j < s.len() {
                            assert(s[j] != byte);
                        } else {
                            assert(more[j - s.len()] != byte);
                        }
                    }
                    first_byte_at(s + more, byte, i + s.len());
                },
                None => {
                    assert forall|j: int| 0 <= j < (s + more).len() implies (s + more)[j]
                        != byte by {
                        if j < s.len() {
                            assert(s[j] != byte);
                        } else {
                            assert(more[j - s.len()] != byte);
                        }
                    }
                },
            }
        },
    }
}

/// Finds the first place of `byte`.
pub fn find_byte(bytes: &[u8], byte: u8) -> (at: Option<usize>)
    ensures
        match first_byte(bytes@, byte) {
            Some(i) => at matches Some(x) && x == i && x < bytes@.len(),
            None => at is None,
        },
{
    proof {
        first_byte_meaning(bytes@, byte);
    }
    let mut i: usize = 0;
    while i < bytes.len()
        invariant
            i <= bytes@.len(),
            forall|j: int| 0 <= j < i ==> bytes@[j] != byte,
        decreases bytes@.len() - i,
    {
        if bytes[i] == byte {
            proof {
                first_byte_at(bytes@, byte, i as int);
            }
            return Some(i);
        }
        i += 1;
    }
    proof {
        first_byte_meaning(bytes@, byte);
    }
    None
}

/// `part` stands in `s` from `at` on.
pub open spec fn stands(s: Seq<u8>, part: Seq<u8>, at: int) -> bool {
    &&& 0 <= at
    &&& at + part.len() <= s.len()
    &&& s.subrange(at, at + part.len()) == part
}

/// Where `part` first stands in `s`, if it does.
pub open spec fn first_occurrence(s: Seq<u8>, part: Seq<u8>) -> Option<int>
    decreases s.len(),
{
    if stands(s, part, 0) {
        Some(0)
    } else if s.len() == 0 {
        None
    } else {
        match first_occurrence(s.skip(1), part) {
            Some(i) => Some(i + 1),
            None => None,
        }
    }
}

proof fn stands_shifted(s: Seq<u8>, part: Seq<u8>, at: int)
    requires
        0 < at,
        s.len() > 0,
    ensures
        stands(s, part, at) == stands(s.skip(1), part, at - 1),
{
    if at + part.len() <= s.len() {
        assert(s.skip(1).subrange(at - 1, at - 1 + part.len()) =~= s.subrange(
            at,
            at + part.len(),
        ));
    }
}

/// What it means to be the first occurrence, said without recursion.
pub proof fn first_occurrence_meaning(s: Seq<u8>, part: Seq<u8>)
    ensures
        match first_occurrence(s, part) {
            Some(i) => stands(s, part, i) && (forall|j: int|
                0 <= j < i ==> !#[trigger] stands(s, part, j)),
            None => forall|j: int| !#[trigger] stands(s, part, j),
        },
    decreases s.len(),
{
    if !stands(s, part, 0) && s.len() > 0 {
        let t = s.skip(1);
        first_occurrence_meaning(t, part);
        assert forall|j: int| 0 < j implies #[trigger] stands(s, part, j) == stands(t, part, j - 1)
            by {
            stands_shifted(s, part, j);
        }
    }
}

/// A place where `part` stands, with no earlier one, is its first occurrence.
pub proof fn first_occurrence_at(s: Seq<u8>, part: Seq<u8>, at: int)
    requires
        stands(s, part, at),
        forall|j: int| 0 <= j < at ==> !#[trigger] stands(s, part, j),
    ensures
        first_occurrence(s, part) == Some(at),
{
    first_occurrence_meaning(s, part);
}

/// Whether `part` stands in `bytes` at `at`.
fn stands_at(bytes: &[u8], part: &[u8], at: usize) -> (found: bool)
    requires
        at + part@.len() <= bytes@.len(),
    ensures
        found == stands(bytes@, part@, at as int),
{
    assert(at + part.len() <= bytes.len());
    same_bytes(&bytes[at..at + part.len()], part)
}

/// Finds the first occurrence of `part`.
pub fn find_bytes(bytes: &[u8], part: &[u8]) -> (at: Option<usize>)
    ensures
        match first_occurrence(bytes@, part@) {
            Some(i) => at matches Some(x) && x == i && x + part@.len() <= bytes@.len(),
            None => at is None,
        },
{
    proof {
        first_occurrence_meaning(bytes@, part@);
    }
    if part.len() > bytes.len() {
        return None;
    }
    let last: usize = bytes.len() - part.len();
    let mut i: usize = 0;
    loop
        invariant
            last == bytes@.len() - part@.len(),
            i <= last,
            forall|j: int| 0 <= j < i ==> !#[trigger] stands(bytes@, part@, j),
        decreases last - i,
    {
        if stands_at(bytes, part, i) {
            proof {
                first_occurrence_at(bytes@, part@, i as int);
            }
            return Some(i);
        }
        if i == last {
            proof {
                first_occurrence_meaning(bytes@, part@);
            }
            return None;
        }
        i += 1;
    }
}

/// What follows `prefix` in `s`, if `s` starts with it.
pub open spec fn after_prefix(s: Seq<u8>, prefix: Seq<u8>) -> Option<Seq<u8>> {
    if prefix.is_prefix_of(s) {
        Some(s.skip(prefix.len() as int))
    } else {
        None
    }
}

/// What precedes `suffix` in `s`, if `s` ends with it.
pub open spec fn before_suffix(s: Seq<u8>, suffix: Seq<u8>) -> Option<Seq<u8>> {
    if suffix.is_suffix_of(s) {
        Some(s.take(s.len() - suffix.len()))
    } else {
        None
    }
}

/// Removes `prefix`.
pub fn strip_prefix<'a>(bytes: &'a [u8], prefix: &[u8]) -> (rest: Option<&'a [u8]>)
    ensures
        match after_prefix(bytes@, prefix@) {
            Some(r) => rest matches Some(x) && x@ == r,
            None => rest is None,
        },
{
    if prefix.len() > bytes.len() {
        return None;
    }
    let matched = stands_at(bytes, prefix, 0);
    if matched {
        Some(&bytes[prefix.len()..bytes.len()])
    } else {
        assert(prefix@.is_prefix_of(bytes@) ==> bytes@.subrange(0, prefix@.len() as int)
            =~= prefix@);
        None
    }
}

/// Removes `suffix`.
pub fn strip_suffix<'a>(bytes: &'a [u8], suffix: &[u8]) -> (rest: Option<&'a [u8]>)
    ensures
        match before_suffix(bytes@, suffix@) {
            Some(r) => rest matches Some(x) && x@ == r,
            None => rest is None,
        },
{
    if suffix.len() > bytes.len() {
        return None;
    }
    let at: usize = bytes.len() - suffix.len();
    let matched = stands_at(bytes, suffix, at);
    if matched {
        assert(bytes@.subrange(at as int, bytes@.len() as int) =~= suffix@);
        Some(&bytes[0..at])
    } else {
        assert(suffix@.is_suffix_of(bytes@) ==> bytes@.subrange(at as int, bytes@.len() as int)
            =~= suffix@);
        None
    }
}

} // verus!
