//! Passive Roborock LDS packet framing.
//!
//! Captured S5 Max traffic uses the 22-byte XV11 packet layout:
//! `fa index speed_le sample[4] checksum_le`. Each packet contains four
//! consecutive one-degree samples. Index `0xa0` starts at 0 degrees and index
//! `0xf9` ends at 359 degrees.
//!
//! Synchronized scan/IMU registration shows that raw angles increase clockwise
//! when viewed from above. Fixed-wall synchronization measured robot-forward at
//! raw 261.2 degrees. The reader keeps this mounting angle configurable and
//! transforms samples with `body = wrap(forward_raw - raw_angle)`.

use crate::bytes;
use crate::bytes::append_bytes;
use crate::bytes::find_byte;
use crate::bytes::read_u16;
use crate::bytes::take_front;
use vstd::arithmetic::power2::*;
use vstd::prelude::*;

verus! {

pub const SYNC: u8 = 0xfa;

pub const PACKET_LENGTH: usize = 22;

pub const INDEX_MIN: u8 = 0xa0;

pub const INDEX_MAX: u8 = 0xf9;

pub const PACKETS_PER_REVOLUTION: usize = 90;

pub const SAMPLES_PER_REVOLUTION: usize = 360;

#[derive(Debug, Clone, Copy, PartialEq, Eq)]
pub struct LdsSample {
    pub distance_raw: u16,
    pub signal_strength: u16,
}

impl LdsSample {
    /// Bit 15 of the distance is set.
    pub open spec fn no_return(self) -> bool {
        self.distance_raw >= 0x8000
    }

    /// Bit 14 of the distance is set.
    pub open spec fn weak(self) -> bool {
        self.distance_raw as int / 0x4000 % 2 == 1
    }

    /// The distance bits.
    pub open spec fn millimetres(self) -> int {
        self.distance_raw as int % 0x4000
    }

    /// Bit 15 marks a sample for which no valid distance was returned.
    pub fn invalid(self) -> (yes: bool)
        ensures
            yes == self.no_return(),
    {
        self.distance_raw >= 0x8000
    }

    /// Bit 14 marks a sample whose signal strength is below the sensor limit.
    pub fn strength_warning(self) -> (yes: bool)
        ensures
            yes == self.weak(),
    {
        self.distance_raw / 0x4000 % 2 == 1
    }

    /// Valid distance bits, in millimetres.
    pub fn distance_mm(self) -> (distance: u16)
        ensures
            distance == self.millimetres(),
            distance < 16384,
            self.distance_raw < 16384 ==> distance == self.distance_raw,
    {
        self.distance_raw % 0x4000
    }

    /// The distance word is the distance, with the strength warning at 16384 and the
    /// mark of an invalid sample at 32768, and nothing else: all fourteen lower bits
    /// are distance.
    pub proof fn distance_word_splits(self)
        ensures
            0 <= self.millimetres() < 16384,
            self.distance_raw == self.millimetres() + (if self.weak() {
                16384int
            } else {
                0int
            }) + (if self.no_return() {
                32768int
            } else {
                0int
            }),
            self.distance_raw < 16384 ==> self.millimetres() == self.distance_raw && !self.weak()
                && !self.no_return(),
    {
    }
}

#[derive(Debug, Clone, Copy, PartialEq, Eq)]
pub struct LdsPacket {
    pub index: u8,
    pub speed_raw: u16,
    pub samples: [LdsSample; 4],
    pub checksum: u16,
}

/// What an [`LdsPacket`] holds.
pub struct LdsPacketView {
    pub index: u8,
    pub speed_raw: u16,
    pub samples: Seq<LdsSample>,
    pub checksum: u16,
}

impl View for LdsPacket {
    type V = LdsPacketView;

    open spec fn view(&self) -> LdsPacketView {
        LdsPacketView {
            index: self.index,
            speed_raw: self.speed_raw,
            samples: self.samples@,
            checksum: self.checksum,
        }
    }
}

/// The 16-bit number in `b` at `at`.
pub open spec fn word(b: Seq<u8>, at: int) -> u16 {
    bytes::le_value(b.subrange(at, at + 2)) as u16
}

/// `b` starts as a packet does: with the sync byte and an index in range.
pub open spec fn starts_packet(b: Seq<u8>) -> bool {
    b[0] == SYNC && INDEX_MIN <= b[1] <= INDEX_MAX
}

/// The packet that the 22 bytes `b` hold.
pub open spec fn packet_of(b: Seq<u8>) -> LdsPacketView {
    LdsPacketView {
        index: b[1],
        speed_raw: word(b, 2),
        samples: Seq::new(
            4,
            |i: int|
                LdsSample { distance_raw: word(b, 4 + 4 * i), signal_strength: word(b, 6 + 4 * i) },
        ),
        checksum: word(b, 20),
    }
}

/// The first `count` little-endian words of `b`, each added to twice what came
/// before it.
pub open spec fn rolling_sum(b: Seq<u8>, count: nat) -> int
    decreases count,
{
    if count == 0 {
        0
    } else {
        2 * rolling_sum(b, (count - 1) as nat) + word(b, 2 * (count - 1))
    }
}

/// The checksum that belongs to the first twenty bytes of `b`: the rolling sum of
/// its ten words, folded into fifteen bits.
pub open spec fn checksum_of(b: Seq<u8>) -> int {
    let sum = rolling_sum(b, 10);
    (sum % 0x8000 + sum / 0x8000) % 0x8000
}

/// `b` holds a packet whose checksum is right.
pub open spec fn holds_packet(b: Seq<u8>) -> bool {
    starts_packet(b) && word(b, 20) == checksum_of(b)
}

/// Where each field of a packet stands: sync byte, index, speed, four samples of
/// distance and strength, checksum; numbers least significant byte first.
pub proof fn packet_layout(b: Seq<u8>)
    requires
        b.len() == 22,
    ensures
        starts_packet(b) <==> b[0] == 0xfa && 0xa0 <= b[1] <= 0xf9,
        packet_of(b).index == b[1],
        packet_of(b).speed_raw == b[2] + 256 * b[3],
        packet_of(b).samples.len() == 4,
        forall|i: int|
            0 <= i < 4 ==> (#[trigger] packet_of(b).samples[i]).distance_raw == b[4 + 4 * i] + 256
                * b[5 + 4 * i] && packet_of(b).samples[i].signal_strength == b[6 + 4 * i] + 256 * b[7
                + 4 * i],
        packet_of(b).checksum == b[20] + 256 * b[21],
{
    bytes::le_value_2(b, 2);
    bytes::le_value_2(b, 20);
    assert forall|i: int| 0 <= i < 4 implies (#[trigger] packet_of(b).samples[i]).distance_raw == b[4
        + 4 * i] + 256 * b[5 + 4 * i] && packet_of(b).samples[i].signal_strength == b[6 + 4 * i]
        + 256 * b[7 + 4 * i] by {
        bytes::le_value_2(b, 4 + 4 * i);
        bytes::le_value_2(b, 6 + 4 * i);
    }
}

/// The checksum weighs the ten words before it by falling powers of two, from 512 on
/// the first to one on the last, and adds what lies above fifteen bits back in.
pub proof fn checksum_weighs_the_words(b: Seq<u8>)
    requires
        b.len() == 22,
    ensures
        ({
            let sum = 512 * bytes::pair(b, 0) + 256 * bytes::pair(b, 2) + 128 * bytes::pair(b, 4)
                + 64 * bytes::pair(b, 6) + 32 * bytes::pair(b, 8) + 16 * bytes::pair(b, 10) + 8
                * bytes::pair(b, 12) + 4 * bytes::pair(b, 14) + 2 * bytes::pair(b, 16)
                + bytes::pair(b, 18);
            &&& checksum_of(b) == (sum % 32768 + sum / 32768) % 32768
            &&& 0 <= checksum_of(b) < 32768
        }),
{
    reveal_with_fuel(rolling_sum, 11);
    bytes::le_value_2(b, 0);
    bytes::le_value_2(b, 2);
    bytes::le_value_2(b, 4);
    bytes::le_value_2(b, 6);
    bytes::le_value_2(b, 8);
    bytes::le_value_2(b, 10);
    bytes::le_value_2(b, 12);
    bytes::le_value_2(b, 14);
    bytes::le_value_2(b, 16);
    bytes::le_value_2(b, 18);
}

fn read_sample(raw: &[u8; 22], at: usize) -> (sample: LdsSample)
    requires
        at + 4 <= 22,
    ensures
        sample == (LdsSample {
            distance_raw: word(raw@, at as int),
            signal_strength: word(raw@, at + 2),
        }),
{
    LdsSample { distance_raw: read_u16(raw, at), signal_strength: read_u16(raw, at + 2) }
}

impl LdsPacket {
    pub fn parse(bytes: &[u8; 22]) -> (packet: Option<Self>)
        ensures
            if starts_packet(bytes@) {
                packet matches Some(p) && p@ == packet_of(bytes@)
            } else {
                packet is None
            },
    {
        if bytes[0] != SYNC || bytes[1] < INDEX_MIN || bytes[1] > INDEX_MAX {
            return None;
        }
        let samples: [LdsSample; 4] = [
            read_sample(bytes, 4),
            read_sample(bytes, 8),
            read_sample(bytes, 12),
            read_sample(bytes, 16),
        ];
        assert(samples@ =~= packet_of(bytes@).samples);
        Some(
            LdsPacket {
                index: bytes[1],
                speed_raw: read_u16(bytes, 2),
                samples,
                checksum: read_u16(bytes, 20),
            },
        )
    }

    /// The raw angle of the first sample.
    pub fn start_angle_degrees(self) -> (angle: u16)
        requires
            self.index >= INDEX_MIN,
        ensures
            angle == (self.index - INDEX_MIN) * 4,
            angle == 4 * self.index - 640,
    {
        (self.index - INDEX_MIN) as u16 * 4
    }

    pub fn checksum_valid(self, bytes: &[u8; 22]) -> (valid: bool)
        ensures
            valid == (self.checksum == checksum_of(bytes@)),
    {
        self.checksum == packet_checksum(bytes)
    }
}

proof fn rolling_sum_bound(b: Seq<u8>, count: nat)
    requires
        count <= 10,
    ensures
        0 <= rolling_sum(b, count) <= 65535 * (pow2(count) - 1),
        pow2(count) <= 1024,
    decreases count,
{
    lemma2_to64();
    if count > 0 {
        rolling_sum_bound(b, (count - 1) as nat);
        lemma_pow2_unfold(count);
    }
    if count < 10 {
        lemma_pow2_strictly_increases(count, 10);
    }
}

/// XV11's 15-bit rolling checksum over the first ten little-endian words.
pub fn packet_checksum(bytes: &[u8; 22]) -> (checksum: u16)
    ensures
        checksum == checksum_of(bytes@),
{
    let mut accumulator: u32 = 0;
    let mut i: usize = 0;
    while i < 10
        invariant
            i <= 10,
            accumulator == rolling_sum(bytes@, i as nat),
        decreases 10 - i,
    {
        proof {
            rolling_sum_bound(bytes@, i as nat + 1);
        }
        let next = read_u16(bytes, 2 * i);
        assert(rolling_sum(bytes@, i as nat + 1) == 2 * accumulator + next);
        accumulator = 2 * accumulator + next as u32;
        i += 1;
    }
    let folded: u32 = (accumulator % 0x8000 + accumulator / 0x8000) % 0x8000;
    folded as u16
}

/// The packets in a byte stream, how many bytes belong to none, and what is left
/// for the next bytes to complete.
pub struct LdsDecoded {
    pub packets: Seq<LdsPacketView>,
    pub discarded: nat,
    pub rest: Seq<u8>,
}

/// What a byte stream holds. Bytes before a sync byte are discarded. So is a sync
/// byte whose 22 bytes are no packet, and the search goes on right behind it.
pub open spec fn decoded(s: Seq<u8>) -> LdsDecoded
    decreases s.len(), 1nat,
{
    match bytes::first_byte(s, SYNC) {
        None => LdsDecoded { packets: Seq::empty(), discarded: s.len(), rest: Seq::empty() },
        Some(start) => if 0 <= start < s.len() {
            let found = decoded_from_sync(s.skip(start));
            LdsDecoded { discarded: start as nat + found.discarded, ..found }
        } else {
            LdsDecoded { packets: Seq::empty(), discarded: s.len(), rest: Seq::empty() }
        },
    }
}

/// The same for a stream that starts with a sync byte.
pub open spec fn decoded_from_sync(s: Seq<u8>) -> LdsDecoded
    decreases s.len(), 0nat,
{
    if s.len() < 22 {
        LdsDecoded { packets: Seq::empty(), discarded: 0, rest: s }
    } else if holds_packet(s.take(22)) {
        let more = decoded(s.skip(22));
        LdsDecoded { packets: seq![packet_of(s.take(22))] + more.packets, ..more }
    } else {
        let more = decoded(s.skip(1));
        LdsDecoded { discarded: 1 + more.discarded, ..more }
    }
}

/// Every byte is accounted for: it belongs to a packet, was discarded, or is left.
/// What is left starts with a sync byte and is shorter than a packet.
pub proof fn every_byte_counts(s: Seq<u8>)
    ensures
        22 * decoded(s).packets.len() + decoded(s).discarded + decoded(s).rest.len() == s.len(),
        decoded(s).rest.len() < 22,
        decoded(s).rest.len() > 0 ==> decoded(s).rest[0] == SYNC,
    decreases s.len(),
{
    bytes::first_byte_meaning(s, SYNC);
    match bytes::first_byte(s, SYNC) {
        None => {},
        Some(start) => {
            let t = s.skip(start);
            if t.len() >= 22 {
                if holds_packet(t.take(22)) {
                    every_byte_counts(t.skip(22));
                } else {
                    every_byte_counts(t.skip(1));
                }
            }
        },
    }
}

/// Every packet found has an index in range and four samples.
pub proof fn packets_in_range(s: Seq<u8>)
    ensures
        forall|i: int|
            0 <= i < decoded(s).packets.len() ==> INDEX_MIN <= (
            #[trigger] decoded(s).packets[i]).index <= INDEX_MAX && decoded(
                s,
            ).packets[i].samples.len() == 4,
    decreases s.len(),
{
    bytes::first_byte_meaning(s, SYNC);
    match bytes::first_byte(s, SYNC) {
        None => {},
        Some(start) => {
            let t = s.skip(start);
            assert(decoded(s).packets == decoded_from_sync(t).packets);
            if t.len() >= 22 {
                if holds_packet(t.take(22)) {
                    packets_in_range(t.skip(22));
                    let head = packet_of(t.take(22));
                    let more = decoded(t.skip(22)).packets;
                    assert(decoded(s).packets == seq![head] + more);
                    assert forall|i: int| 0 <= i < decoded(s).packets.len() implies INDEX_MIN <= (
                    #[trigger] decoded(s).packets[i]).index <= INDEX_MAX && decoded(
                        s,
                    ).packets[i].samples.len() == 4 by {
                        if i > 0 {
                            assert(decoded(s).packets[i] == more[i - 1]);
                        }
                    }
                } else {
                    packets_in_range(t.skip(1));
                    assert(decoded(s).packets == decoded(t.skip(1)).packets);
                }
            }
        },
    }
}

/// A stream gives the same packets, and the same count of discarded bytes, however
/// it is cut.
pub proof fn decoding_in_pieces(first: Seq<u8>, second: Seq<u8>)
    ensures
        ({
            let whole = decoded(first + second);
            let left = decoded(first);
            let right = decoded(left.rest + second);
            &&& whole.packets == left.packets + right.packets
            &&& whole.discarded == left.discarded + right.discarded
            &&& whole.rest == right.rest
        }),
    decreases first.len(),
{
    let both = first + second;
    let left = decoded(first);
    bytes::first_byte_meaning(first, SYNC);
    bytes::first_byte_extended(first, second, SYNC);
    match bytes::first_byte(first, SYNC) {
        None => {
            assert(left.rest + second =~= second);
            bytes::first_byte_meaning(second, SYNC);
            match bytes::first_byte(second, SYNC) {
                Some(i) => {
                    assert(both.skip(i + first.len()) =~= second.skip(i));
                },
                None => {},
            }
            assert(left.packets + decoded(second).packets =~= decoded(second).packets);
        },
        Some(start) => {
            let s = first.skip(start);
            assert(both.skip(start) =~= s + second);
            if s.len() < 22 {
                let rest = s + second;
                bytes::first_byte_at(rest, SYNC, 0);
                assert(rest.skip(0) =~= rest);
                assert(left.packets + decoded(rest).packets =~= decoded(rest).packets);
            } else {
                assert((s + second).take(22) =~= s.take(22));
                if holds_packet(s.take(22)) {
                    decoding_in_pieces(s.skip(22), second);
                    assert((s + second).skip(22) =~= s.skip(22) + second);
                    let head = seq![packet_of(s.take(22))];
                    let more = decoded(s.skip(22));
                    let right = decoded(more.rest + second);
                    assert(head + (more.packets + right.packets) =~= (head + more.packets)
                        + right.packets);
                } else {
                    decoding_in_pieces(s.skip(1), second);
                    assert((s + second).skip(1) =~= s.skip(1) + second);
                }
            }
        },
    }
}

/// A packet behind bytes without a sync byte is found, and what follows it is
/// decoded as if it stood alone.
pub proof fn packet_is_found(noise: Seq<u8>, raw: Seq<u8>, more: Seq<u8>)
    requires
        raw.len() == 22,
        holds_packet(raw),
        bytes::first_byte(noise, SYNC) is None,
    ensures
        decoded(noise + raw + more) == (LdsDecoded {
            packets: seq![packet_of(raw)] + decoded(more).packets,
            discarded: noise.len() + decoded(more).discarded,
            rest: decoded(more).rest,
        }),
{
    let s = raw + more;
    assert(noise + raw + more =~= noise + s);
    bytes::first_byte_extended(noise, s, SYNC);
    bytes::first_byte_at(s, SYNC, 0);
    assert((noise + s).skip(noise.len() as int) =~= s);
    assert(s.take(22) =~= raw);
    assert(s.skip(22) =~= more);
    assert(decoded(noise + s).discarded == noise.len() + decoded_from_sync(s).discarded);
}

/// The 22 bytes of `s` at `at` are a sound packet: the sync byte, an index from 0xa0 to
/// 0xf9, and the checksum of the bytes before it.
pub open spec fn sound_at(s: Seq<u8>, at: int) -> bool {
    &&& 0 <= at
    &&& at + 22 <= s.len()
    &&& s[at] == 0xfa
    &&& 0xa0 <= s[at + 1] <= 0xf9
    &&& s[at + 20] + 256 * s[at + 21] == checksum_of(s.subrange(at, at + 22))
}

/// A sound packet that starts a stream is found there, with its fields.
pub proof fn sound_packet_is_found(raw: Seq<u8>, more: Seq<u8>)
    requires
        raw.len() == 22,
        sound_at(raw, 0),
    ensures
        decoded(raw + more).packets == seq![packet_of(raw)] + decoded(more).packets,
        decoded(raw + more).discarded == decoded(more).discarded,
        decoded(raw + more).rest == decoded(more).rest,
{
    assert(raw.subrange(0, 22) =~= raw);
    bytes::le_value_2(raw, 20);
    let none = Seq::<u8>::empty();
    assert(none + raw + more =~= raw + more);
    packet_is_found(none, raw, more);
}

/// Whatever is found stands in the stream as a sound packet.
pub proof fn only_sound_packets_are_found(s: Seq<u8>, i: int)
    requires
        0 <= i < decoded(s).packets.len(),
    ensures
        exists|at: int| #[trigger]
            sound_at(s, at) && decoded(s).packets[i] == packet_of(s.subrange(at, at + 22)),
    decreases s.len(),
{
    bytes::first_byte_meaning(s, SYNC);
    match bytes::first_byte(s, SYNC) {
        None => {},
        Some(start) => {
            let t = s.skip(start);
            if t.len() >= 22 {
                if holds_packet(t.take(22)) {
                    let more = decoded(t.skip(22)).packets;
                    if i == 0 {
                        assert(t.take(22) =~= s.subrange(start, start + 22));
                        bytes::le_value_2(t.take(22), 20);
                        assert(sound_at(s, start));
                    } else {
                        only_sound_packets_are_found(t.skip(22), i - 1);
                        let at = choose|at: int| #[trigger]
                            sound_at(t.skip(22), at) && more[i - 1] == packet_of(
                                t.skip(22).subrange(at, at + 22),
                            );
                        let there = start + 22 + at;
                        assert(t.skip(22).subrange(at, at + 22) =~= s.subrange(there, there + 22));
                        assert(sound_at(s, there));
                        assert(decoded(s).packets[i] == more[i - 1]);
                    }
                } else {
                    only_sound_packets_are_found(t.skip(1), i);
                    let found = decoded(t.skip(1)).packets;
                    let at = choose|at: int| #[trigger]
                        sound_at(t.skip(1), at) && found[i] == packet_of(
                            t.skip(1).subrange(at, at + 22),
                        );
                    let there = start + 1 + at;
                    assert(t.skip(1).subrange(at, at + 22) =~= s.subrange(there, there + 22));
                    assert(sound_at(s, there));
                }
            }
        },
    }
}

/// What each of several packets holds.
pub open spec fn packet_views(packets: Seq<LdsPacket>) -> Seq<LdsPacketView> {
    packets.map_values(|packet: LdsPacket| packet@)
}

/// Finds packets in bytes that arrive piece by piece.
#[derive(Debug)]
pub struct LdsDecoder {
    buffer: Vec<u8>,
    discarded: u64,
}

/// The first 22 bytes of `buffer`.
fn first_packet_bytes(buffer: &Vec<u8>) -> (raw: [u8; 22])
    requires
        buffer@.len() >= 22,
    ensures
        raw@ == buffer@.take(22),
{
    let mut raw: [u8; 22] = [0;22];
    let mut i: usize = 0;
    while i < 22
        invariant
            i <= 22,
            buffer@.len() >= 22,
            forall|j: int| 0 <= j < i ==> raw@[j] == buffer@[j],
        decreases 22 - i,
    {
        raw[i] = buffer[i];
        i += 1;
    }
    assert(raw@ =~= buffer@.take(22));
    raw
}

impl Default for LdsDecoder {
    fn default() -> (decoder: Self)
        ensures
            decoder.pending() == Seq::<u8>::empty(),
            decoder.lost() == 0,
    {
        LdsDecoder::new()
    }
}

impl LdsDecoder {
    /// The bytes kept for the next piece to complete.
    pub closed spec fn pending(&self) -> Seq<u8> {
        self.buffer@
    }

    /// How many bytes belonged to no packet so far.
    pub closed spec fn lost(&self) -> nat {
        self.discarded as nat
    }

    pub fn new() -> (decoder: Self)
        ensures
            decoder.pending() == Seq::<u8>::empty(),
            decoder.lost() == 0,
    {
        LdsDecoder { buffer: Vec::new(), discarded: 0 }
    }

    pub fn discarded(&self) -> (count: u64)
        ensures
            count == self.lost(),
    {
        self.discarded
    }

    /// Takes the next piece and returns the packets that it completes.
    pub fn push(&mut self, bytes: &[u8]) -> (packets: Vec<LdsPacket>)
        requires
            old(self).lost() + old(self).pending().len() + bytes@.len() <= u64::MAX,
        ensures
            ({
                let found = decoded(old(self).pending() + bytes@);
                &&& packet_views(packets@) == found.packets
                &&& final(self).pending() == found.rest
                &&& final(self).lost() == old(self).lost() + found.discarded
            }),
            forall|i: int|
                0 <= i < packets@.len() ==> INDEX_MIN <= (#[trigger] packets@[i]).index
                    <= INDEX_MAX,
    {
        append_bytes(&mut self.buffer, bytes);
        let ghost whole = self.buffer@;
        let ghost lost = self.discarded;
        let mut packets: Vec<LdsPacket> = Vec::new();
        assert(packet_views(packets@) + decoded(whole).packets =~= decoded(whole).packets);
        proof {
            every_byte_counts(whole);
            packets_in_range(whole);
        }
        loop
            invariant_except_break
                decoded(whole).packets == packet_views(packets@) + decoded(self.buffer@).packets,
                decoded(whole).rest == decoded(self.buffer@).rest,
                self.discarded + decoded(self.buffer@).discarded == lost + decoded(whole).discarded,
                lost + decoded(whole).discarded <= u64::MAX,
            ensures
                decoded(whole).packets == packet_views(packets@),
                decoded(whole).rest == self.buffer@,
                self.discarded == lost + decoded(whole).discarded,
            decreases self.buffer@.len(),
        {
            let ghost here = self.buffer@;
            proof {
                bytes::first_byte_meaning(here, SYNC);
            }
            let start = match find_byte(self.buffer.as_slice(), SYNC) {
                Some(at) => at,
                None => {
                    assert(packet_views(packets@) + decoded(here).packets =~= packet_views(
                        packets@,
                    ));
                    self.discarded += self.buffer.len() as u64;
                    self.buffer.clear();
                    break ;
                },
            };
            self.discarded += start as u64;
            let _skipped = take_front(&mut self.buffer, start);
            let ghost found = decoded_from_sync(self.buffer@);
            assert(decoded(here) == (LdsDecoded {
                discarded: start as nat + found.discarded,
                ..found
            }));
            if self.buffer.len() < PACKET_LENGTH {
                assert(packet_views(packets@) + found.packets =~= packet_views(packets@));
                break ;
            }
            let raw = first_packet_bytes(&self.buffer);
            let accepted: Option<LdsPacket> = match LdsPacket::parse(&raw) {
                Some(packet) => if packet.checksum_valid(&raw) {
                    Some(packet)
                } else {
                    None
                },
                None => None,
            };
            match accepted {
                Some(packet) => {
                    let ghost before = packet_views(packets@);
                    packets.push(packet);
                    let _packet = take_front(&mut self.buffer, PACKET_LENGTH);
                    proof {
                        let more = decoded(self.buffer@).packets;
                        assert(packet_views(packets@) =~= before.push(packet@));
                        assert(before + (seq![packet@] + more) =~= before.push(packet@) + more);
                    }
                },
                None => {
                    self.discarded += 1;
                    let _sync = take_front(&mut self.buffer, 1);
                },
            }
        }
        assert forall|i: int| 0 <= i < packets@.len() implies INDEX_MIN <= (
        #[trigger] packets@[i]).index <= INDEX_MAX by {
            assert(packet_views(packets@)[i] == packets@[i]@);
        }
        packets
    }

    /// Whether `count` more bytes can be taken in.
    pub fn can_receive(&self, count: usize) -> (yes: bool)
        ensures
            yes == (self.lost() + self.pending().len() + count <= u64::MAX),
    {
        let kept: u64 = self.buffer.len() as u64;
        let room: u64 = 0xffff_ffff_ffff_ffff - self.discarded;
        room >= kept && room - kept >= count as u64
    }
}

} // verus!
