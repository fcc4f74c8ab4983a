//! Framing. On the wire every message is followed by one NUL byte. A NUL
//! right after another stands for an empty frame, which is a sign of life and
//! no message: it is dropped.

use std::collections::VecDeque;
use vstd::prelude::*;
use vstd::utf8::{decode_utf8, encode_scalar, encode_utf8, valid_utf8};
use vstd::string::StringSliceAdditionalSpecFns;
use crate::pkt::xml;
use crate::pkt::xt::{
    XTError, XTPacket, XTPacketView, XTVariant, decode, deserialize, lemma_decoded_well_formed,
    lemma_round_trip,
};
use crate::text::{
    join, lemma_split_join, lemma_split_of_join, lemma_terminated_join, sep_free, split,
    terminated,
};

verus! {

/// The byte that ends a frame.
pub const TERMINATOR: u8 = 0;

/// Why a frame is no message.
#[derive(Debug, Clone, Copy, PartialEq, Eq)]
pub enum ParseFault {
    /// The frame is no UTF-8 text.
    Encoding,
    /// The text is no XT message.
    Xt(XTError),
    /// The text is no handshake message.
    Xml,
}

/// What went wrong with the connection itself.
#[derive(Debug, Clone, Copy, PartialEq, Eq)]
pub enum EnvFault {
    /// The peer closed the stream inside a frame.
    ClosedMidFrame,
    /// Reading from the stream failed.
    Io,
}

/// Why reading a message failed.
#[derive(Debug, Clone, Copy, PartialEq, Eq)]
pub enum ReadError {
    /// The frame arrived but is no message; the connection is intact.
    ParseError(ParseFault),
    /// The connection failed.
    EnvError(EnvFault),
}

/// The fields that are not empty, in order.
pub open spec fn nonempty(fields: Seq<Seq<u8>>) -> Seq<Seq<u8>>
    decreases fields.len(),
{
    if fields.len() == 0 {
        seq![]
    } else if fields.last().len() > 0 {
        nonempty(fields.drop_last()).push(fields.last())
    } else {
        nonempty(fields.drop_last())
    }
}

/// The messages that the bytes hold in full: what stands before each
/// terminator, without the empty frames.
pub open spec fn frames_of(bytes: Seq<u8>) -> Seq<Seq<u8>> {
    nonempty(split(bytes, TERMINATOR).drop_last())
}

/// What follows the last terminator: the start of a frame that is not
/// complete yet.
pub open spec fn tail_of(bytes: Seq<u8>) -> Seq<u8> {
    split(bytes, TERMINATOR).last()
}

/// A payload as it goes on the wire.
pub open spec fn framed(payload: Seq<u8>) -> Seq<u8> {
    payload.push(TERMINATOR)
}

/// What a reader holds between two reads.
pub struct LineBufferView {
    /// Complete messages that have not been handed out, oldest first.
    pub queue: Seq<Seq<u8>>,
    /// The bytes of the frame that is still arriving.
    pub partial: Seq<u8>,
}

impl LineBufferView {
    /// A reader that has seen nothing.
    pub open spec fn fresh() -> LineBufferView {
        LineBufferView { queue: seq![], partial: seq![] }
    }

    /// The reader after one more byte: a terminator completes the partial
    /// frame, which is queued unless it is empty; any other byte is added to
    /// the partial frame.
    pub open spec fn step(self, b: u8) -> LineBufferView {
        if b == TERMINATOR {
            LineBufferView {
                queue: if self.partial.len() > 0 {
                    self.queue.push(self.partial)
                } else {
                    self.queue
                },
                partial: seq![],
            }
        } else {
            LineBufferView { queue: self.queue, partial: self.partial.push(b) }
        }
    }

    /// The reader after the bytes of one more read.
    pub open spec fn absorb(self, chunk: Seq<u8>) -> LineBufferView
        decreases chunk.len(),
    {
        if chunk.len() == 0 {
            self
        } else {
            self.absorb(chunk.drop_last()).step(chunk.last())
        }
    }

    /// The reader after the bytes of one more read, said at once: the frames
    /// that the partial frame and the new bytes complete are queued, and what
    /// follows the last terminator is the new partial frame.
    pub open spec fn absorb_at_once(self, chunk: Seq<u8>) -> LineBufferView {
        LineBufferView {
            queue: self.queue + frames_of(self.partial + chunk),
            partial: tail_of(self.partial + chunk),
        }
    }

    /// Whether what is held is sound: no queued message is empty, and neither
    /// a message nor the partial frame holds a terminator.
    pub open spec fn wf(self) -> bool {
        &&& !self.partial.contains(TERMINATOR)
        &&& forall|i: int|
            0 <= i < self.queue.len() ==> (#[trigger] self.queue[i]).len() > 0
                && !self.queue[i].contains(TERMINATOR)
    }
}

/// How the bytes are cut into reads does not matter: taking in `a` and then
/// `b` leaves the reader as taking in both at once.
pub proof fn lemma_absorb_concat(st: LineBufferView, a: Seq<u8>, b: Seq<u8>)
    ensures
        st.absorb(a).absorb(b) == st.absorb(a + b),
    decreases b.len(),
{
    if b.len() == 0 {
        assert(a + b =~= a);
    } else {
        lemma_absorb_concat(st, a, b.drop_last());
        assert((a + b).drop_last() =~= a + b.drop_last());
    }
}

/// Taking in bytes one by one comes to what is said at once, for a reader
/// whose partial frame holds no terminator.
pub proof fn lemma_absorb_at_once(st: LineBufferView, chunk: Seq<u8>)
    requires
        !st.partial.contains(TERMINATOR),
    ensures
        st.absorb(chunk) == st.absorb_at_once(chunk),
    decreases chunk.len(),
{
    if chunk.len() == 0 {
        assert(st.partial + chunk =~= st.partial);
        crate::text::lemma_split_plain(st.partial, TERMINATOR);
        assert(split(st.partial, TERMINATOR).drop_last() =~= Seq::<Seq<u8>>::empty());
        assert(st.queue + frames_of(st.partial) =~= st.queue);
    } else {
        let seen = chunk.drop_last();
        let b = chunk.last();
        lemma_absorb_at_once(st, seen);
        let x = st.partial + seen;
        let f = split(x, TERMINATOR);
        lemma_split_join(x, TERMINATOR);
        assert(st.partial + chunk =~= x.push(b));
        assert(x.push(b).drop_last() =~= x);
        let g = split(x.push(b), TERMINATOR);
        if b == TERMINATOR {
            assert(g.drop_last() =~= f);
            assert(f.drop_last().push(f.last()) =~= f);
            if f.last().len() > 0 {
                assert(st.absorb_at_once(chunk).queue =~= st.absorb_at_once(seen).queue.push(
                    f.last(),
                ));
            } else {
                assert(st.absorb_at_once(chunk).queue =~= st.absorb_at_once(seen).queue);
            }
        } else {
            assert(g.drop_last() =~= f.drop_last());
        }
    }
}

/// Taking in bytes keeps a sound reader sound.
pub proof fn lemma_absorb_wf(st: LineBufferView, chunk: Seq<u8>)
    requires
        st.wf(),
    ensures
        st.absorb(chunk).wf(),
    decreases chunk.len(),
{
    if chunk.len() > 0 {
        lemma_absorb_wf(st, chunk.drop_last());
        let at = st.absorb(chunk.drop_last());
        let b = chunk.last();
        let out = at.step(b);
        if b == TERMINATOR {
            assert forall|i: int| 0 <= i < out.queue.len() implies (#[trigger] out.queue[i]).len()
                > 0 && !out.queue[i].contains(TERMINATOR) by {
                if i < at.queue.len() {
                    assert(out.queue[i] == at.queue[i]);
                }
            }
        } else {
            assert forall|j: int| 0 <= j < out.partial.len() implies out.partial[j]
                != TERMINATOR by {
                if j < at.partial.len() {
                    assert(at.partial.contains(at.partial[j]));
                }
            }
        }
    }
}

/// Framed messages come out as they went in. When each of `payloads`, none
/// of which holds a terminator, is framed and the frames arrive one after the
/// other, a reader that held nothing hands out the payloads that are not
/// empty, in order, and holds no partial frame.
pub proof fn lemma_frames_round_trip(payloads: Seq<Seq<u8>>)
    requires
        sep_free(payloads, TERMINATOR),
    ensures
        LineBufferView::fresh().absorb(terminated(payloads, TERMINATOR)) == (LineBufferView {
            queue: nonempty(payloads),
            partial: seq![],
        }),
{
    let wire = terminated(payloads, TERMINATOR);
    lemma_absorb_at_once(LineBufferView::fresh(), wire);
    assert(Seq::<u8>::empty() + wire =~= wire);
    if payloads.len() == 0 {
        assert(split(wire, TERMINATOR).drop_last() =~= payloads);
    } else {
        lemma_terminated_join(payloads, TERMINATOR);
        lemma_split_of_join(payloads, TERMINATOR);
        let body = join(payloads, TERMINATOR);
        assert(wire.drop_last() =~= body);
        assert(split(wire, TERMINATOR) == payloads.push(Seq::<u8>::empty()));
        assert(split(wire, TERMINATOR).drop_last() =~= payloads);
    }
    assert(LineBufferView::fresh().absorb_at_once(wire).queue =~= nonempty(payloads));
}

/// Frame round trip. A payload that is not empty and holds no terminator,
/// framed and taken in by a reader that held nothing, is the one message that
/// the reader hands out.
pub proof fn lemma_frame_round_trip(payload: Seq<u8>)
    requires
        payload.len() > 0,
        !payload.contains(TERMINATOR),
    ensures
        LineBufferView::fresh().absorb(framed(payload)) == (LineBufferView {
            queue: seq![payload],
            partial: seq![],
        }),
{
    let one = seq![payload];
    lemma_frames_round_trip(one);
    assert(one.drop_last() =~= Seq::<Seq<u8>>::empty());
    assert(terminated(one.drop_last(), TERMINATOR) =~= Seq::<u8>::empty());
    assert(terminated(one, TERMINATOR) =~= framed(payload));
    assert(nonempty(one.drop_last()) =~= Seq::<Seq<u8>>::empty());
    assert(nonempty(one) =~= one);
}

/// The UTF-8 bytes of a character other than NUL hold no terminator.
proof fn lemma_scalar_bytes(c: u32)
    requires
        c != 0,
    ensures
        encode_scalar(c).len() > 0,
        !encode_scalar(c).contains(TERMINATOR),
{
    assert((c & 0x7F) as u8 != 0 || !(0 < c <= 0x7F)) by (bit_vector);
    assert(0xC0u8 | ((c >> 6) & 0x1F) as u8 != 0) by (bit_vector);
    assert(0xE0u8 | ((c >> 12) & 0x0F) as u8 != 0) by (bit_vector);
    assert(0xF0u8 | ((c >> 18) & 0x7) as u8 != 0) by (bit_vector);
    assert(0x80u8 | (c & 0x3F) as u8 != 0) by (bit_vector);
    assert(0x80u8 | ((c >> 6) & 0x3F) as u8 != 0) by (bit_vector);
    assert(0x80u8 | ((c >> 12) & 0x3F) as u8 != 0) by (bit_vector);
}

/// The UTF-8 bytes of a text without NUL hold no terminator, and there are
/// some unless the text is empty.
pub proof fn lemma_text_bytes(text: Seq<char>)
    requires
        !text.contains('\0'),
    ensures
        !encode_utf8(text).contains(TERMINATOR),
        text.len() > 0 ==> encode_utf8(text).len() > 0,
    decreases text.len(),
{
    if text.len() > 0 {
        let rest = text.drop_first();
        assert forall|i: int| 0 <= i < rest.len() implies rest[i] != '\0' by {
            assert(text.contains(text[i + 1]));
        }
        lemma_text_bytes(rest);
        assert(text.contains(text[0]));
        let c = text[0] as u32;
        assert(c != 0) by {
            vstd::utf8::char_u32_cast(text[0], c);
            assert('\0' as u32 == 0);
            if c == 0 {
                assert(0u32 as char == '\0');
            }
        }
        vstd::utf8::char_is_scalar(text[0]);
        lemma_scalar_bytes(c);
        let head = encode_scalar(c);
        let tail = encode_utf8(rest);
        let all = encode_utf8(text);
        assert forall|k: int| 0 <= k < all.len() implies all[k] != TERMINATOR by {
            if k < head.len() {
                assert(head.contains(all[k]));
            } else {
                assert(tail[k - head.len()] == all[k]);
                assert(tail.contains(all[k]));
            }
        }
    }
}

/// Frame round trip for texts. A text that is not empty and holds no NUL,
/// written as a frame and taken in by a reader that held nothing, is the one
/// message that the reader hands out, and that message reads as the text.
pub proof fn lemma_text_round_trip(text: Seq<char>)
    requires
        text.len() > 0,
        !text.contains('\0'),
    ensures
        LineBufferView::fresh().absorb(framed(encode_utf8(text))) == (LineBufferView {
            queue: seq![encode_utf8(text)],
            partial: seq![],
        }),
        valid_utf8(encode_utf8(text)),
        decode_utf8(encode_utf8(text)) == text,
{
    lemma_text_bytes(text);
    lemma_frame_round_trip(encode_utf8(text));
    vstd::utf8::encode_utf8_valid_utf8(text);
    vstd::utf8::encode_utf8_decode_utf8(text);
}

/// The views of a sequence of byte vectors.
pub open spec fn byte_views(v: Seq<Vec<u8>>) -> Seq<Seq<u8>> {
    Seq::new(v.len(), |i: int| v[i]@)
}

/// What a reader holds between two reads: the messages that arrived with
/// earlier reads and were not asked for yet, and the start of the frame that
/// is still arriving.
pub struct LineBuffer {
    queue: VecDeque<Vec<u8>>,
    partial: Vec<u8>,
}

impl View for LineBuffer {
    type V = LineBufferView;

    closed spec fn view(&self) -> LineBufferView {
        LineBufferView { queue: byte_views(self.queue@), partial: self.partial@ }
    }
}

impl LineBuffer {
    /// A reader that has seen nothing.
    pub fn new() -> (out: LineBuffer)
        ensures
            out@ == LineBufferView::fresh(),
    {
        let out = LineBuffer { queue: VecDeque::with_capacity(16), partial: Vec::new() };
        assert(out@.queue =~= Seq::<Seq<u8>>::empty());
        out
    }

    /// Takes in the bytes of one read: every frame that they complete is
    /// queued, unless it is empty, and what follows the last terminator is
    /// kept for the next read.
    pub fn feed(&mut self, chunk: &[u8])
        ensures
            final(self)@ == old(self)@.absorb(chunk@),
            old(self)@.wf() ==> final(self)@.wf(),
    {
        let ghost start = self@;
        let mut i: usize = 0;
        proof {
            assert(chunk@.take(0) =~= Seq::<u8>::empty());
        }
        while i < chunk.len()
            invariant
                0 <= i <= chunk.len(),
                self@ == start.absorb(chunk@.take(i as int)),
            decreases chunk.len() - i,
        {
            let b = chunk[i];
            let ghost before = self@;
            let ghost seen = chunk@.take(i as int);
            proof {
                assert(chunk@.take(i + 1).drop_last() =~= seen);
                assert(chunk@.take(i + 1).last() == b);
            }
            if b == TERMINATOR {
                if self.partial.len() > 0 {
                    let frame = self.partial.split_off(0);
                    assert(frame@ =~= before.partial);
                    self.queue.push_back(frame);
                    assert(self@.queue =~= before.queue.push(before.partial));
                }
                assert(self@.partial =~= Seq::<u8>::empty());
            } else {
                self.partial.push(b);
            }
            assert(self@ == before.step(b));
            i += 1;
        }
        proof {
            assert(chunk@.take(chunk.len() as int) =~= chunk@);
            if start.wf() {
                lemma_absorb_wf(start, chunk@);
            }
        }
    }

    /// The oldest message that has not been handed out, if there is one.
    pub fn next_frame(&mut self) -> (out: Option<Vec<u8>>)
        ensures
            final(self)@.partial == old(self)@.partial,
            match out {
                Some(frame) => old(self)@.queue.len() > 0 && frame@ == old(self)@.queue[0]
                    && final(self)@.queue == old(self)@.queue.drop_first(),
                None => old(self)@.queue.len() == 0 && final(self)@ == old(self)@,
            },
            old(self)@.wf() ==> final(self)@.wf(),
    {
        let out = self.queue.pop_front();
        proof {
            if out is Some {
                assert(self@.queue =~= old(self)@.queue.drop_first());
                assert(out->0@ == old(self)@.queue[0]);
                if old(self)@.wf() {
                    assert forall|i: int| 0 <= i < self@.queue.len() implies (
                    #[trigger] self@.queue[i]).len() > 0 && !self@.queue[i].contains(
                        TERMINATOR,
                    ) by {
                        assert(self@.queue[i] == old(self)@.queue[i + 1]);
                    }
                }
            } else {
                assert(self@.queue =~= old(self)@.queue);
            }
        }
        out
    }

    /// What the end of the stream means for this reader. It is a clean end
    /// when nothing of a frame is held, and a fault inside a frame.
    pub fn close(&self) -> (out: Result<(), ReadError>)
        ensures
            out == if self@.partial.len() == 0 {
                Ok::<(), ReadError>(())
            } else {
                Err::<(), ReadError>(ReadError::EnvError(EnvFault::ClosedMidFrame))
            },
    {
        if self.partial.len() == 0 {
            Ok(())
        } else {
            Err(ReadError::EnvError(EnvFault::ClosedMidFrame))
        }
    }
}

/// A payload as it goes on the wire: the payload and then the terminator.
pub fn encode_line(payload: &[u8]) -> (out: Vec<u8>)
    ensures
        out@ == framed(payload@),
{
    let mut out: Vec<u8> = Vec::with_capacity(payload.len());
    let mut i: usize = 0;
    while i < payload.len()
        invariant
            0 <= i <= payload.len(),
            out@ == payload@.take(i as int),
        decreases payload.len() - i,
    {
        out.push(payload[i]);
        i += 1;
    }
    assert(payload@.take(payload.len() as int) =~= payload@);
    out.push(TERMINATOR);
    out
}

/// A text as it goes on the wire: its UTF-8 bytes and then the terminator.
pub fn encode_text(text: &str) -> (out: Vec<u8>)
    ensures
        out@ == framed(text.spec_bytes()),
{
    encode_line(text.as_bytes())
}

/// The text that the bytes write in UTF-8, if they do.
///
/// Trusted: stands for `String::from_utf8`, which the standard library
/// documents as failing exactly when the bytes are no valid UTF-8, and as
/// giving the string with those bytes otherwise.
#[verifier::external_body]
fn text_from_utf8(bytes: Vec<u8>) -> (out: Option<String>)
    ensures
        match out {
            Some(text) => valid_utf8(bytes@) && text@ == decode_utf8(bytes@),
            None => !valid_utf8(bytes@),
        },
{
    String::from_utf8(bytes).ok()
}

/// The text of a frame. A frame that is no UTF-8 is a parse failure; nothing
/// is replaced or skipped.
pub fn decode_text(frame: Vec<u8>) -> (out: Result<String, ReadError>)
    ensures
        match out {
            Ok(text) => valid_utf8(frame@) && text@ == decode_utf8(frame@),
            Err(e) => !valid_utf8(frame@) && e == ReadError::ParseError(ParseFault::Encoding),
        },
{
    match text_from_utf8(frame) {
        Some(text) => Ok(text),
        None => Err(ReadError::ParseError(ParseFault::Encoding)),
    }
}

/// What a frame that a client sent means as an XT message.
pub open spec fn read_xt_spec(frame: Seq<u8>) -> Result<XTPacketView, ReadError> {
    if !valid_utf8(frame) {
        Err(ReadError::ParseError(ParseFault::Encoding))
    } else {
        match decode(decode_utf8(frame), XTVariant::Client) {
            Ok(p) => Ok(p),
            Err(e) => Err(ReadError::ParseError(ParseFault::Xt(e))),
        }
    }
}

/// A client's packet survives the wire. A well-formed packet with a handler
/// id and without NUL, written as a text, framed and taken in by a reader
/// that held nothing, is the one message that the reader hands out, and that
/// message reads as the packet.
pub proof fn lemma_packet_round_trip(p: XTPacketView)
    requires
        p.well_formed(),
        p.handler_id is Some,
        !p.wire().contains('\0'),
    ensures
        LineBufferView::fresh().absorb(framed(encode_utf8(p.wire()))) == (LineBufferView {
            queue: seq![encode_utf8(p.wire())],
            partial: seq![],
        }),
        read_xt_spec(encode_utf8(p.wire())) == Ok::<XTPacketView, ReadError>(p),
{
    assert(p.wire()[0] == '%');
    lemma_text_round_trip(p.wire());
    lemma_round_trip(p);
}

/// Reads a frame that a client sent as an XT message. What comes out has a
/// handler id and is well formed.
pub fn read_xt(frame: Vec<u8>) -> (out: Result<XTPacket, ReadError>)
    ensures
        match out {
            Ok(p) => read_xt_spec(frame@) == Ok::<XTPacketView, ReadError>(p@)
                && p@.handler_id is Some && p@.well_formed(),
            Err(e) => read_xt_spec(frame@) == Err::<XTPacketView, ReadError>(e),
        },
{
    let text = match decode_text(frame) {
        Ok(text) => text,
        Err(e) => {
            return Err(e);
        },
    };
    match deserialize(text.as_str(), XTVariant::Client) {
        Ok(p) => {
            proof {
                lemma_decoded_well_formed(text@, XTVariant::Client);
            }
            Ok(p)
        },
        Err(e) => Err(ReadError::ParseError(ParseFault::Xt(e))),
    }
}

/// Reads a frame that a client sent during the handshake. A frame that is
/// no UTF-8, or no handshake message, is a parse failure.
pub fn read_xml(frame: Vec<u8>) -> (out: Result<xml::client::Packet, ReadError>)
    ensures
        !valid_utf8(frame@) ==> out == Err::<xml::client::Packet, ReadError>(
            ReadError::ParseError(ParseFault::Encoding),
        ),
        valid_utf8(frame@) ==> out is Ok || out == Err::<xml::client::Packet, ReadError>(
            ReadError::ParseError(ParseFault::Xml),
        ),
{
    let text = match decode_text(frame) {
        Ok(text) => text,
        Err(e) => {
            return Err(e);
        },
    };
    match xml::client::deserialize(text.as_str()) {
        Ok(p) => Ok(p),
        Err(_) => Err(ReadError::ParseError(ParseFault::Xml)),
    }
}

} // verus!
