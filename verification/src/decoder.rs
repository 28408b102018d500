//! Finding MCU frames in a byte stream.

use crate::bytes;
use crate::bytes::append_bytes;
use crate::bytes::find_byte;
use crate::bytes::take_front;
use crate::crc::crc8;
use crate::frame;
use crate::frame::SYNC;
use crate::packet;
use crate::packet::Frame;
use crate::packet::FrameView;
use crate::packet::LOG_ESCAPE_OVERHEAD;
use crate::packet::LOG_MESSAGE;
use crate::packet::LOG_SUBTYPE_DEBUG;
use crate::packet::LOG_SUBTYPE_LAST;
use vstd::prelude::*;

verus! {

/// What a row of bytes holds as a frame body of a given length.
pub enum Body {
    /// More bytes are needed.
    Incomplete,
    /// An escape pair is none of the two known ones.
    Malformed,
    /// `used` bytes hold the unescaped body `content`.
    Complete { used: nat, content: Seq<u8> },
}

/// `rest`, after `used` bytes that hold `content`.
pub open spec fn preceded(used: nat, content: Seq<u8>, rest: Body) -> Body {
    match rest {
        Body::Complete { used: u, content: c } => Body::Complete {
            used: used + u,
            content: content + c,
        },
        other => other,
    }
}

/// The frame body of `need` unescaped bytes at the start of `s`.
pub open spec fn unescaped(s: Seq<u8>, need: nat) -> Body
    decreases s.len(),
{
    if need == 0 {
        Body::Complete { used: 0, content: Seq::empty() }
    } else if s.len() == 0 {
        Body::Incomplete
    } else if s[0] != 0xa9 {
        preceded(1, seq![s[0]], unescaped(s.skip(1), (need - 1) as nat))
    } else if s.len() == 1 {
        Body::Incomplete
    } else if s[1] == 0x00 {
        preceded(2, seq![0xa9u8], unescaped(s.skip(2), (need - 1) as nat))
    } else if s[1] == 0x01 {
        preceded(2, seq![0xaau8], unescaped(s.skip(2), (need - 1) as nat))
    } else {
        Body::Malformed
    }
}

/// What `s`, which starts with the sync byte, holds as a frame. The header is
/// three bytes; a payload has at least three bytes, and its checksum follows.
pub open spec fn frame_body(s: Seq<u8>) -> Body {
    if s.len() < 2 {
        Body::Incomplete
    } else if s[1] < 3 {
        Body::Malformed
    } else if s.len() < 3 {
        Body::Incomplete
    } else {
        preceded(3, Seq::empty(), unescaped(s.skip(3), (s[1] + 1) as nat))
    }
}

/// The frames in a byte stream, and what is left for the next bytes to complete.
///
/// Bytes before a sync byte are skipped. A sync byte that starts no frame is
/// skipped as well, and the search goes on right behind it.
pub open spec fn decoded(s: Seq<u8>) -> (Seq<FrameView>, Seq<u8>)
    decreases s.len(), 1nat,
{
    match bytes::first_byte(s, SYNC) {
        None => (Seq::empty(), Seq::empty()),
        Some(start) => if 0 <= start < s.len() {
            decoded_from_sync(s.skip(start))
        } else {
            (Seq::empty(), Seq::empty())
        },
    }
}

/// The same for a stream that starts with a sync byte.
pub open spec fn decoded_from_sync(s: Seq<u8>) -> (Seq<FrameView>, Seq<u8>)
    decreases s.len(), 0nat,
{
    match frame_body(s) {
        Body::Incomplete => (Seq::empty(), s),
        Body::Malformed => if s.len() > 0 {
            decoded(s.skip(1))
        } else {
            (Seq::empty(), s)
        },
        Body::Complete { used, content } => if 0 < used <= s.len() {
            let rest = decoded(s.skip(used as int));
            (seq![packet::frame_of(s.take(used as int), content)] + rest.0, rest.1)
        } else {
            (Seq::empty(), s)
        },
    }
}

/// A complete body uses bytes that are there, and has the length asked for.
pub proof fn unescaped_bounds(s: Seq<u8>, need: nat)
    ensures
        unescaped(s, need) matches Body::Complete { used, content } ==> need <= used <= s.len()
            && content.len() == need,
    decreases s.len(),
{
    if need > 0 && s.len() > 0 {
        if s[0] != 0xa9 {
            unescaped_bounds(s.skip(1), (need - 1) as nat);
        } else if s.len() > 1 {
            unescaped_bounds(s.skip(2), (need - 1) as nat);
        }
    }
}

/// Bytes that come later do not change what earlier ones have settled.
pub proof fn unescaped_settled(s: Seq<u8>, more: Seq<u8>, need: nat)
    requires
        unescaped(s, need) !is Incomplete,
    ensures
        unescaped(s + more, need) == unescaped(s, need),
    decreases s.len(),
{
    if need > 0 && s.len() > 0 {
        if s[0] != 0xa9 {
            unescaped_settled(s.skip(1), more, (need - 1) as nat);
            assert((s + more).skip(1) =~= s.skip(1) + more);
        } else if s.len() > 1 {
            if s[1] == 0x00 || s[1] == 0x01 {
                unescaped_settled(s.skip(2), more, (need - 1) as nat);
                assert((s + more).skip(2) =~= s.skip(2) + more);
            }
        }
    }
}

proof fn frame_body_bounds(s: Seq<u8>)
    ensures
        frame_body(s) matches Body::Complete { used, content } ==> 7 <= used <= s.len()
            && content.len() == s[1] + 1 && content.len() >= 4,
{
    if s.len() >= 3 && s[1] >= 3 {
        unescaped_bounds(s.skip(3), (s[1] + 1) as nat);
    }
}

proof fn frame_body_settled(s: Seq<u8>, more: Seq<u8>)
    requires
        frame_body(s) !is Incomplete,
    ensures
        frame_body(s + more) == frame_body(s),
{
    if s[1] >= 3 {
        unescaped_settled(s.skip(3), more, (s[1] + 1) as nat);
        assert((s + more).skip(3) =~= s.skip(3) + more);
    }
}

/// A stream gives the same frames however it is cut: decoding a first piece,
/// then what it left over together with the second piece, is decoding the whole.
pub proof fn decoding_in_pieces(first: Seq<u8>, second: Seq<u8>)
    ensures
        decoded(first + second).0 == decoded(first).0 + decoded(decoded(first).1 + second).0,
        decoded(first + second).1 == decoded(decoded(first).1 + second).1,
    decreases first.len(),
{
    bytes::first_byte_meaning(first, SYNC);
    bytes::first_byte_extended(first, second, SYNC);
    let whole = first + second;
    match bytes::first_byte(first, SYNC) {
        None => {
            assert(decoded(first).1 + second =~= second);
            match bytes::first_byte(second, SYNC) {
                Some(i) => {
                    bytes::first_byte_meaning(second, SYNC);
                    assert(whole.skip(i + first.len()) =~= second.skip(i));
                },
                None => {},
            }
            assert(decoded(first).0 + decoded(second).0 =~= decoded(second).0);
        },
        Some(start) => {
            let s = first.skip(start);
            assert(whole.skip(start) =~= s + second);
            assert(s[0] == SYNC);
            frame_body_bounds(s);
            match frame_body(s) {
                Body::Incomplete => {
                    let rest = s + second;
                    bytes::first_byte_at(rest, SYNC, 0);
                    assert(rest.skip(0) =~= rest);
                    assert(decoded(first).0 + decoded(rest).0 =~= decoded(rest).0);
                },
                Body::Malformed => {
                    frame_body_settled(s, second);
                    decoding_in_pieces(s.skip(1), second);
                    assert((s + second).skip(1) =~= s.skip(1) + second);
                },
                Body::Complete { used, content } => {
                    frame_body_settled(s, second);
                    decoding_in_pieces(s.skip(used as int), second);
                    assert((s + second).skip(used as int) =~= s.skip(used as int) + second);
                    assert((s + second).take(used as int) =~= s.take(used as int));
                    let head = seq![packet::frame_of(s.take(used as int), content)];
                    let left = decoded(s.skip(used as int));
                    let right = decoded(left.1 + second);
                    assert(head + (left.0 + right.0) =~= (head + left.0) + right.0);
                },
            }
        },
    }
}

/// Unescaping undoes escaping, and looks no further.
pub proof fn unescaped_undoes_escaped(content: Seq<u8>, more: Seq<u8>)
    ensures
        unescaped(frame::escaped(content) + more, content.len()) == (Body::Complete {
            used: frame::escaped(content).len(),
            content,
        }),
    decreases content.len(),
{
    let s = frame::escaped(content) + more;
    if content.len() == 0 {
        assert(content =~= Seq::<u8>::empty());
    } else {
        let tail = content.skip(1);
        unescaped_undoes_escaped(tail, more);
        let head = frame::escaped_byte(content[0]);
        assert(frame::escaped(content) == head + frame::escaped(tail));
        assert(s.skip(head.len() as int) =~= frame::escaped(tail) + more);
        assert(seq![content[0]] + tail =~= content);
    }
}

/// What a decoded frame says of itself is what its bytes say: it starts with the sync
/// byte, then comes the length of its payload, then the escape overhead; message and
/// command are the first two bytes of the payload; it is sound exactly where the byte
/// behind the payload is its checksum; and it is a text log exactly where the overhead
/// is zero, the message `f9` and the command from `80` to `87`.
pub proof fn frames_tell_their_bytes(s: Seq<u8>, i: int)
    requires
        0 <= i < decoded(s).0.len(),
    ensures
        ({
            let f = decoded(s).0[i];
            &&& f.payload.len() >= 3
            &&& f.raw.len() >= f.payload.len() + 4
            &&& f.raw[0] == 0xaa
            &&& f.raw[1] == f.payload.len()
            &&& f.raw[2] == f.escape_overhead
            &&& f.message == f.payload[0]
            &&& f.command == f.payload[1]
            &&& f.crc_valid <==> crate::crc::crc8_of(f.payload, 0) == f.crc
            &&& f.is_log <==> f.raw[2] == 0 && f.payload[0] == 0xf9 && 0x80 <= f.payload[1] <= 0x87
        }),
    decreases s.len(),
{
    bytes::first_byte_meaning(s, SYNC);
    match bytes::first_byte(s, SYNC) {
        None => {},
        Some(start) => {
            let t = s.skip(start);
            match frame_body(t) {
                Body::Incomplete => {},
                Body::Malformed => {
                    frames_tell_their_bytes(t.skip(1), i);
                },
                Body::Complete { used, content } => {
                    frame_body_bounds(t);
                    if i > 0 {
                        frames_tell_their_bytes(t.skip(used as int), i - 1);
                    } else {
                        unescaped_bounds(t.skip(3), (t[1] + 1) as nat);
                    }
                },
            }
        },
    }
}

/// The frame that a payload of at least three bytes comes back as.
pub open spec fn frame_of_payload(payload: Seq<u8>) -> FrameView {
    FrameView {
        raw: frame::encoded(payload),
        payload,
        escape_overhead: (frame::expansions(frame::sealed(payload)) + 1) as u8,
        message: payload[0],
        command: payload[1],
        crc: crate::crc::crc8_of(payload, 0),
        crc_valid: true,
        is_log: false,
    }
}

/// What is encoded is decoded: behind any bytes without a sync byte, the wire
/// form of a payload comes back as that payload with a valid checksum, and the
/// bytes behind it are decoded as if they stood alone.
pub proof fn decoding_undoes_encoding(noise: Seq<u8>, payload: Seq<u8>, more: Seq<u8>)
    requires
        payload.len() >= 3,
        frame::encodable(payload),
        bytes::first_byte(noise, SYNC) is None,
    ensures
        decoded(noise + frame::encoded(payload) + more).0 == seq![frame_of_payload(payload)]
            + decoded(more).0,
        decoded(noise + frame::encoded(payload) + more).1 == decoded(more).1,
{
    let raw = frame::encoded(payload);
    let content = frame::sealed(payload);
    let all = noise + raw + more;
    let s = raw + more;
    assert(all =~= noise + s);
    bytes::first_byte_extended(noise, s, SYNC);
    bytes::first_byte_at(s, SYNC, 0);
    assert(all.skip(noise.len() as int) =~= s);
    assert(s.skip(3) =~= frame::escaped(content) + more);
    unescaped_undoes_escaped(content, more);
    frame::escaped_length(content);
    assert(Seq::<u8>::empty() + content =~= content);
    assert(frame_body(s) == (Body::Complete { used: raw.len(), content }));
    assert(s.take(raw.len() as int) =~= raw);
    assert(s.skip(raw.len() as int) =~= more);
    assert(content.drop_last() =~= payload);
    assert(packet::frame_of(raw, content) == frame_of_payload(payload));
}

/// What is left over starts with a sync byte whose frame is still incomplete, or
/// is nothing at all.
pub proof fn leftover_waits(s: Seq<u8>)
    ensures
        decoded(s).1.len() > 0 ==> decoded(s).1[0] == SYNC && frame_body(decoded(s).1)
            is Incomplete,
        decoded(s).1.len() <= s.len(),
    decreases s.len(),
{
    bytes::first_byte_meaning(s, SYNC);
    match bytes::first_byte(s, SYNC) {
        None => {},
        Some(start) => {
            let t = s.skip(start);
            frame_body_bounds(t);
            match frame_body(t) {
                Body::Incomplete => {},
                Body::Malformed => {
                    leftover_waits(t.skip(1));
                },
                Body::Complete { used, content } => {
                    leftover_waits(t.skip(used as int));
                },
            }
        },
    }
}

/// The outcome of a scan for one frame.
enum Scan {
    Incomplete,
    Malformed,
    Complete { used: usize, content: Vec<u8> },
}

/// Reads the frame that starts at the first byte of `buffer`.
fn scan_frame(buffer: &[u8]) -> (scan: Scan)
    ensures
        match frame_body(buffer@) {
            Body::Incomplete => scan is Incomplete,
            Body::Malformed => scan is Malformed,
            Body::Complete { used, content } => scan matches Scan::Complete { used: u, content: c }
                && u == used && c@ == content && u <= buffer@.len(),
        },
{
    if buffer.len() < 2 {
        return Scan::Incomplete;
    }
    if buffer[1] < 3 {
        return Scan::Malformed;
    }
    if buffer.len() < 3 {
        return Scan::Incomplete;
    }
    let need: usize = buffer[1] as usize + 1;
    let ghost body = buffer@.skip(3);
    let mut cursor: usize = 3;
    let mut content: Vec<u8> = Vec::new();
    assert(body.skip(0) =~= body);
    proof {
        unescaped_bounds(body, need as nat);
        match unescaped(body, need as nat) {
            Body::Complete { used, content: c } => {
                assert(Seq::<u8>::empty() + c =~= c);
            },
            _ => {},
        }
    }
    while content.len() < need
        invariant
            buffer@[1] >= 3,
            need == buffer@[1] + 1,
            body == buffer@.skip(3),
            3 <= cursor <= buffer@.len(),
            content@.len() <= need,
            unescaped(body, need as nat) == preceded(
                (cursor - 3) as nat,
                content@,
                unescaped(body.skip(cursor - 3), (need - content@.len()) as nat),
            ),
        decreases buffer@.len() - cursor,
    {
        let ghost here = body.skip(cursor - 3);
        let ghost rest = unescaped(here, (need - content@.len()) as nat);
        let ghost before = content@;
        if cursor == buffer.len() {
            return Scan::Incomplete;
        }
        let byte = buffer[cursor];
        assert(here[0] == byte);
        if byte == 0xa9 {
            if cursor + 1 == buffer.len() {
                // The escaped byte comes with the next chunk.
                return Scan::Incomplete;
            }
            let pair = buffer[cursor + 1];
            assert(here[1] == pair);
            if pair == 0x00 {
                content.push(0xa9);
            } else if pair == 0x01 {
                content.push(0xaa);
            } else {
                return Scan::Malformed;
            }
            cursor += 2;
            assert(here.skip(2) =~= body.skip(cursor - 3));
        } else {
            content.push(byte);
            cursor += 1;
            assert(here.skip(1) =~= body.skip(cursor - 3));
        }
        proof {
            match unescaped(body.skip(cursor - 3), (need - content@.len()) as nat) {
                Body::Complete { used, content: c } => {
                    assert(content@ =~= before + seq![content@.last()]);
                    assert(before + (seq![content@.last()] + c) =~= content@ + c);
                },
                _ => {},
            }
        }
    }
    assert(content@ + Seq::<u8>::empty() =~= content@);
    assert(Seq::<u8>::empty() + content@ =~= content@);
    Scan::Complete { used: cursor, content }
}

/// Builds the frame whose wire form is `raw` and whose unescaped body is `body`.
fn assemble(raw: Vec<u8>, mut body: Vec<u8>) -> (frame: Frame)
    requires
        raw@.len() >= 3,
        body@.len() >= 4,
    ensures
        frame@ == packet::frame_of(raw@, body@),
{
    let ghost whole = body@;
    let crc: u8 = body[body.len() - 1];
    body.truncate(body.len() - 1);
    assert(body@ =~= whole.drop_last());
    let calculated = crc8(body.as_slice(), 0);
    let escape_overhead = raw[2];
    let message = body[0];
    let command = body[1];
    let is_log = escape_overhead == LOG_ESCAPE_OVERHEAD && message == LOG_MESSAGE
        && LOG_SUBTYPE_DEBUG <= command && command <= LOG_SUBTYPE_LAST;
    Frame {
        escape_overhead,
        message,
        command,
        payload: body,
        crc,
        crc_valid: calculated == crc,
        is_log,
        raw,
    }
}

/// Finds frames in bytes that arrive piece by piece.
#[derive(Debug)]
pub struct FrameDecoder {
    buffer: Vec<u8>,
}

impl Default for FrameDecoder {
    fn default() -> (decoder: Self)
        ensures
            decoder.pending() == Seq::<u8>::empty(),
    {
        FrameDecoder::new()
    }
}

impl FrameDecoder {
    /// The bytes kept for the next piece to complete.
    pub closed spec fn pending(&self) -> Seq<u8> {
        self.buffer@
    }

    pub fn new() -> (decoder: Self)
        ensures
            decoder.pending() == Seq::<u8>::empty(),
    {
        FrameDecoder { buffer: Vec::new() }
    }

    /// Takes the next piece and returns the frames that it completes.
    pub fn push(&mut self, bytes: &[u8]) -> (frames: Vec<Frame>)
        ensures
            packet::frame_views(frames@) == decoded(old(self).pending() + bytes@).0,
            final(self).pending() == decoded(old(self).pending() + bytes@).1,
    {
        append_bytes(&mut self.buffer, bytes);
        let ghost whole = self.buffer@;
        let mut frames: Vec<Frame> = Vec::new();
        assert(packet::frame_views(frames@) =~= Seq::<FrameView>::empty());
        assert(Seq::<FrameView>::empty() + decoded(whole).0 =~= decoded(whole).0);
        loop
            invariant_except_break
                decoded(whole).0 == packet::frame_views(frames@) + decoded(self.buffer@).0,
                decoded(whole).1 == decoded(self.buffer@).1,
            ensures
                decoded(whole).0 == packet::frame_views(frames@),
                decoded(whole).1 == self.buffer@,
            decreases self.buffer@.len(),
        {
            proof {
                bytes::first_byte_meaning(self.buffer@, SYNC);
            }
            let sync = match find_byte(self.buffer.as_slice(), SYNC) {
                Some(at) => at,
                None => {
                    assert(packet::frame_views(frames@) + Seq::<FrameView>::empty()
                        =~= packet::frame_views(frames@));
                    self.buffer.clear();
                    break ;
                },
            };
            let ghost unskipped = self.buffer@;
            let _skipped = take_front(&mut self.buffer, sync);
            proof {
                assert(decoded(unskipped) == decoded_from_sync(self.buffer@));
                frame_body_bounds(self.buffer@);
            }
            match scan_frame(self.buffer.as_slice()) {
                Scan::Incomplete => {
                    assert(packet::frame_views(frames@) + Seq::<FrameView>::empty()
                        =~= packet::frame_views(frames@));
                    break ;
                },
                Scan::Malformed => {
                    let _sync = take_front(&mut self.buffer, 1);
                },
                Scan::Complete { used, content } => {
                    let ghost before = packet::frame_views(frames@);
                    let raw = take_front(&mut self.buffer, used);
                    let frame = assemble(raw, content);
                    let ghost view = frame@;
                    frames.push(frame);
                    proof {
                        let rest = decoded(self.buffer@).0;
                        assert(packet::frame_views(frames@) =~= before.push(view));
                        assert(before + (seq![view] + rest) =~= before.push(view) + rest);
                    }
                },
            }
        }
        frames
    }
}

} // verus!
