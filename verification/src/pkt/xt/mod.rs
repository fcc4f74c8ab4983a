//! The XT text protocol: `%xt%[handler_id%]packet_id%correlation_id%arg%...%`.
//!
//! Every field is followed by a `%`; the leading `%` and the `xt` tag are
//! structure. Only packets sent by a client carry a handler id.

use vstd::prelude::*;
use crate::text::{
    fit_isize, join, lemma_parse_signed_decimal, lemma_signed_decimal_lacks, lemma_split_join,
    lemma_split_of_join, lemma_terminated_join, parse_isize_in, parse_signed, push_char,
    push_signed_decimal, sep_free, signed_decimal, span_texts, spans_within, split, split_spans,
    string_of, terminated, texts, to_chars,
};

pub mod as2;
pub mod decl;

verus! {

/// The correlation id that the server puts on packets of its own.
pub const XT_DEFAULT_INT_ID: isize = -1;

/// Which side wrote a packet.
#[derive(Debug, Clone, Copy, PartialEq, Eq)]
pub enum XTVariant {
    Server,
    Client,
}

/// One decoded XT message.
#[derive(Debug, Clone, PartialEq, Eq)]
pub struct XTPacket {
    /// Present on packets that a client sent, absent on the server's.
    pub handler_id: Option<String>,
    pub packet_id: String,
    /// A free-form id that legacy clients echo.
    pub internal_id: isize,
    pub data: Vec<String>,
}

/// An `XTPacket` as plain values.
pub struct XTPacketView {
    pub handler_id: Option<Seq<char>>,
    pub packet_id: Seq<char>,
    pub internal_id: int,
    pub data: Seq<Seq<char>>,
}

impl View for XTPacket {
    type V = XTPacketView;

    open spec fn view(&self) -> XTPacketView {
        XTPacketView {
            handler_id: match self.handler_id {
                Some(h) => Some(h@),
                None => None,
            },
            packet_id: self.packet_id@,
            internal_id: self.internal_id as int,
            data: texts(self.data@),
        }
    }
}

/// Why a text is no XT message: the first part of it that is wrong.
#[derive(Debug, Clone, Copy, PartialEq, Eq)]
pub enum XTError {
    /// The text does not start with `%`.
    BadLeading,
    /// The text does not end with a `%` of its own.
    BadTrailing,
    /// The first field is not `xt`.
    BadPrefix,
    /// A client packet without a handler id, or with an empty one.
    BadHandlerId,
    /// The packet id is missing or empty.
    BadPacketId,
    /// The correlation id is missing or no signed decimal number that fits.
    BadInternalId,
}

impl XTError {
    /// The error in words.
    pub open spec fn text(self) -> Seq<char> {
        match self {
            XTError::BadLeading => "bad leading %"@,
            XTError::BadTrailing => "bad trailing %"@,
            XTError::BadPrefix => "bad xt prefix"@,
            XTError::BadHandlerId => "bad extension"@,
            XTError::BadPacketId => "bad packet id"@,
            XTError::BadInternalId => "bad internal id"@,
        }
    }

    /// The error in words.
    pub fn message(&self) -> (out: String)
        ensures
            out@ == self.text(),
    {
        match self {
            XTError::BadLeading => "bad leading %".to_owned(),
            XTError::BadTrailing => "bad trailing %".to_owned(),
            XTError::BadPrefix => "bad xt prefix".to_owned(),
            XTError::BadHandlerId => "bad extension".to_owned(),
            XTError::BadPacketId => "bad packet id".to_owned(),
            XTError::BadInternalId => "bad internal id".to_owned(),
        }
    }
}

/// The tag that opens every message.
pub open spec fn xt_tag() -> Seq<char> {
    seq!['x', 't']
}

impl XTPacketView {
    /// The side that writes packets of this shape.
    pub open spec fn variant(self) -> XTVariant {
        if self.handler_id is Some {
            XTVariant::Client
        } else {
            XTVariant::Server
        }
    }

    /// The fields of the message in wire order, the tag first.
    pub open spec fn wire_fields(self) -> Seq<Seq<char>> {
        let head = match self.handler_id {
            Some(h) => seq![xt_tag(), h, self.packet_id, signed_decimal(self.internal_id)],
            None => seq![xt_tag(), self.packet_id, signed_decimal(self.internal_id)],
        };
        head + self.data
    }

    /// The message on the wire: a `%`, then every field followed by a `%`.
    pub open spec fn wire(self) -> Seq<char> {
        seq!['%'] + terminated(self.wire_fields(), '%')
    }

    /// Whether the packet can be written and read back: the ids are not
    /// empty, no field holds a `%`, and the correlation id fits `isize`.
    pub open spec fn well_formed(self) -> bool {
        &&& self.handler_id matches Some(h) ==> h.len() > 0 && !h.contains('%')
        &&& self.packet_id.len() > 0
        &&& !self.packet_id.contains('%')
        &&& isize::MIN <= self.internal_id <= isize::MAX
        &&& sep_free(self.data, '%')
    }
}

/// What a text on the wire decodes to, for the side that wrote it.
pub open spec fn decode(raw: Seq<char>, variant: XTVariant) -> Result<XTPacketView, XTError> {
    if raw.len() == 0 || raw[0] != '%' {
        Err(XTError::BadLeading)
    } else if raw.len() < 2 || raw.last() != '%' {
        Err(XTError::BadTrailing)
    } else {
        let f = split(raw.subrange(1, raw.len() - 1), '%');
        let k: int = if variant == XTVariant::Client {
            2
        } else {
            1
        };
        if f[0] != xt_tag() {
            Err(XTError::BadPrefix)
        } else if variant == XTVariant::Client && (f.len() < 2 || f[1].len() == 0) {
            Err(XTError::BadHandlerId)
        } else if f.len() <= k || f[k].len() == 0 {
            Err(XTError::BadPacketId)
        } else if f.len() <= k + 1 || fit_isize(parse_signed(f[k + 1])) is None {
            Err(XTError::BadInternalId)
        } else {
            Ok(
                XTPacketView {
                    handler_id: if variant == XTVariant::Client {
                        Some(f[1])
                    } else {
                        None
                    },
                    packet_id: f[k],
                    internal_id: fit_isize(parse_signed(f[k + 1]))->0 as int,
                    data: f.subrange(k + 2, f.len() as int),
                },
            )
        }
    }
}

/// Decodes one frame's text into a packet.
///
/// The text must start and end with `%` and open with the `xt` tag. A client's
/// packet must carry a handler id; every packet a packet id and a correlation
/// id. What follows are the arguments, empty ones included.
pub fn deserialize(raw: &str, variant: XTVariant) -> (res: Result<XTPacket, XTError>)
    ensures
        match res {
            Ok(p) => decode(raw@, variant) == Ok::<XTPacketView, XTError>(p@),
            Err(e) => decode(raw@, variant) == Err::<XTPacketView, XTError>(e),
        },
{
    let cs = to_chars(raw);
    let n = cs.len();
    if n == 0 || cs[0] != '%' {
        return Err(XTError::BadLeading);
    }
    if n < 2 || cs[n - 1] != '%' {
        return Err(XTError::BadTrailing);
    }
    let spans = split_spans(&cs, 1, n - 1, '%');
    let ghost f = split(raw@.subrange(1, raw@.len() - 1), '%');
    proof {
        lemma_split_join(raw@.subrange(1, raw@.len() - 1), '%');
        assert(span_texts(cs@, spans@) == f);
        assert(spans@.len() == f.len());
    }
    let (a0, b0) = spans[0];
    assert(f[0] == cs@.subrange(a0 as int, b0 as int));
    if !(b0 - a0 == 2 && cs[a0] == 'x' && cs[a0 + 1] == 't') {
        proof {
            if f[0] == xt_tag() {
                assert(f[0].len() == 2);
                assert(f[0][0] == 'x');
                assert(f[0][1] == 't');
            }
        }
        return Err(XTError::BadPrefix);
    }
    assert(f[0] =~= xt_tag());
    let mut next: usize = 1;
    let handler_id: Option<String> = match variant {
        XTVariant::Client => {
            if spans.len() < 2 {
                return Err(XTError::BadHandlerId);
            }
            let (a, b) = spans[1];
            assert(f[1] == cs@.subrange(a as int, b as int));
            if a == b {
                return Err(XTError::BadHandlerId);
            }
            next = 2;
            Some(string_of(&cs, a, b))
        },
        XTVariant::Server => None,
    };
    if spans.len() <= next {
        return Err(XTError::BadPacketId);
    }
    let (a, b) = spans[next];
    assert(f[next as int] == cs@.subrange(a as int, b as int));
    if a == b {
        return Err(XTError::BadPacketId);
    }
    let packet_id = string_of(&cs, a, b);
    if spans.len() <= next + 1 {
        return Err(XTError::BadInternalId);
    }
    let (a, b) = spans[next + 1];
    assert(f[next + 1] == cs@.subrange(a as int, b as int));
    let internal_id = match parse_isize_in(&cs, a, b) {
        Some(v) => v,
        None => {
            return Err(XTError::BadInternalId);
        },
    };
    let mut data: Vec<String> = Vec::new();
    let mut j: usize = next + 2;
    while j < spans.len()
        invariant
            next + 2 <= j <= spans.len(),
            spans@.len() == f.len(),
            spans_within(spans@, 1, n - 1),
            n == cs.len(),
            span_texts(cs@, spans@) == f,
            texts(data@) == f.subrange(next + 2, j as int),
        decreases spans.len() - j,
    {
        let (a, b) = spans[j];
        assert(f[j as int] == cs@.subrange(a as int, b as int));
        let ghost before = texts(data@);
        data.push(string_of(&cs, a, b));
        assert(texts(data@) =~= before.push(f[j as int]));
        j += 1;
        assert(texts(data@) =~= f.subrange(next + 2, j as int));
    }
    Ok(XTPacket { handler_id, packet_id, internal_id, data })
}

/// Appends `text` and a `%` to `s`.
fn push_field(s: &mut String, text: &str)
    ensures
        final(s)@ == old(s)@ + text@ + seq!['%'],
{
    s.append(text);
    push_char(s, '%');
}

/// Writes a packet as it goes on the wire. A packet without handler id gets
/// no segment for it, not an empty one.
pub fn serialize(xt: XTPacket) -> (out: String)
    ensures
        out@ == xt@.wire(),
{
    let ghost fields = xt@.wire_fields();
    let mut s = String::new();
    push_char(&mut s, '%');
    push_char(&mut s, 'x');
    push_char(&mut s, 't');
    push_char(&mut s, '%');
    let ghost mut done: Seq<Seq<char>> = seq![xt_tag()];
    proof {
        assert(done.drop_last() =~= Seq::<Seq<char>>::empty());
        assert(terminated(done.drop_last(), '%') =~= Seq::<char>::empty());
        assert(s@ =~= seq!['%'] + terminated(done, '%'));
    }
    match &xt.handler_id {
        Some(handler_id) => {
            push_field(&mut s, handler_id.as_str());
            proof {
                let next = done.push(handler_id@);
                assert(next.drop_last() =~= done);
                assert(s@ =~= seq!['%'] + terminated(next, '%'));
                done = next;
            }
        },
        None => {},
    }
    push_field(&mut s, xt.packet_id.as_str());
    proof {
        let next = done.push(xt.packet_id@);
        assert(next.drop_last() =~= done);
        assert(s@ =~= seq!['%'] + terminated(next, '%'));
        done = next;
    }
    let ghost before = s@;
    push_signed_decimal(&mut s, xt.internal_id as i64);
    push_char(&mut s, '%');
    proof {
        let next = done.push(signed_decimal(xt.internal_id as int));
        assert(next.drop_last() =~= done);
        assert(s@ =~= seq!['%'] + terminated(next, '%'));
        done = next;
        assert(done + texts(xt.data@).take(0) =~= done);
    }
    let mut i: usize = 0;
    while i < xt.data.len()
        invariant
            0 <= i <= xt.data.len(),
            s@ == seq!['%'] + terminated(done + texts(xt.data@).take(i as int), '%'),
        decreases xt.data.len() - i,
    {
        let ghost prev = done + texts(xt.data@).take(i as int);
        push_field(&mut s, xt.data[i].as_str());
        proof {
            let next = done + texts(xt.data@).take(i + 1);
            assert(next.drop_last() =~= prev);
            assert(next.last() == xt.data@[i as int]@);
        }
        i += 1;
    }
    proof {
        assert(texts(xt.data@).take(xt.data.len() as int) =~= texts(xt.data@));
        assert(done + texts(xt.data@) =~= fields);
    }
    s
}

/// Writing a well-formed packet and reading the text back, as the side that
/// wrote it, gives the packet.
pub proof fn lemma_round_trip(p: XTPacketView)
    requires
        p.well_formed(),
    ensures
        decode(p.wire(), p.variant()) == Ok::<XTPacketView, XTError>(p),
{
    let f = p.wire_fields();
    let id = signed_decimal(p.internal_id);
    lemma_signed_decimal_lacks(p.internal_id, '%');
    lemma_parse_signed_decimal(p.internal_id);
    assert(!xt_tag().contains('%'));
    let k: int = if p.handler_id is Some {
        2
    } else {
        1
    };
    assert(sep_free(f, '%')) by {
        assert forall|i: int| 0 <= i < f.len() implies !(#[trigger] f[i]).contains('%') by {
            if i >= k + 2 {
                assert(f[i] == p.data[i - (k + 2)]);
            }
        }
    }
    lemma_terminated_join(f, '%');
    lemma_split_of_join(f, '%');
    let raw = p.wire();
    assert(raw =~= seq!['%'] + join(f, '%') + seq!['%']);
    assert(raw.subrange(1, raw.len() - 1) =~= join(f, '%'));
    assert(f.subrange(k + 2, f.len() as int) =~= p.data);
    assert(f[0] == xt_tag());
}

/// What decodes without error is well formed and was written by the side it
/// was decoded for.
pub proof fn lemma_decoded_well_formed(raw: Seq<char>, variant: XTVariant)
    requires
        decode(raw, variant) is Ok,
    ensures
        decode(raw, variant)->Ok_0.well_formed(),
        decode(raw, variant)->Ok_0.variant() == variant,
{
    let inner = raw.subrange(1, raw.len() - 1);
    let f = split(inner, '%');
    lemma_split_join(inner, '%');
    let p = decode(raw, variant)->Ok_0;
    assert forall|i: int| 0 <= i < p.data.len() implies !(#[trigger] p.data[i]).contains('%') by {
        let k: int = if variant == XTVariant::Client {
            2
        } else {
            1
        };
        assert(p.data[i] == f[i + k + 2]);
    }
}

/// Whatever a text decodes to is written as a text that decodes to the
/// same: decoding forgets only how the correlation id was spelled.
pub proof fn lemma_decode_canonical(raw: Seq<char>, variant: XTVariant)
    requires
        decode(raw, variant) is Ok,
    ensures
        decode(decode(raw, variant)->Ok_0.wire(), variant) == decode(raw, variant),
{
    lemma_decoded_well_formed(raw, variant);
    lemma_round_trip(decode(raw, variant)->Ok_0);
}

} // verus!
