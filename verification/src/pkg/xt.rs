//! XT messages whose fields are slices of the text they were read from.
//! Such a message holds a fixed number of arguments at most.

use vstd::prelude::*;
use vstd::string::StrSliceExecFns;
use crate::pkt::xt::{XTError, XTPacket, XTPacketView, XTVariant, decode, xt_tag};
use crate::text::{
    fit_isize, lemma_split_join, parse_isize_in, parse_signed, span_texts, spans_within, split,
    split_spans, texts, to_chars,
};

verus! {

/// How many arguments a message can hold.
pub const XT_MAX_ARG_LEN: usize = 32;

/// One XT message of a client, borrowed from the text it was read from.
#[derive(Debug, Clone, Copy)]
pub struct XTPackage<'raw> {
    pub handler_id: &'raw str,
    pub packet_id: &'raw str,
    pub internal_id: isize,
    /// How many entries of `data` are arguments.
    pub data_len: usize,
    pub data: [&'raw str; 32],
}

/// Why a text is no message that fits.
#[derive(Debug, Clone, Copy, PartialEq, Eq)]
pub enum PackageError {
    /// The text is no XT message of a client.
    Malformed(XTError),
    /// The message has more arguments than fit.
    ArgLimit,
}

/// Something that can be written as an XT message.
pub trait IntoXT {
    fn into_xt<'raw>(&'raw self) -> XTPackage<'raw>;
}

/// Something that can be read from an XT message.
pub trait FromXT: Sized {
    fn from_xt<'raw>(xt: &'raw XTPackage<'raw>) -> Self;
}

/// The views of a sequence of texts.
pub open spec fn slice_texts(v: Seq<&str>) -> Seq<Seq<char>> {
    Seq::new(v.len(), |i: int| v[i]@)
}

impl<'raw> XTPackage<'raw> {
    /// Whether the count of arguments is one that fits.
    pub open spec fn wf(&self) -> bool {
        self.data_len <= XT_MAX_ARG_LEN
    }

    /// The arguments as plain values.
    pub open spec fn args(&self) -> Seq<Seq<char>> {
        slice_texts(self.data@.take(self.data_len as int))
    }

    /// The message as plain values.
    pub open spec fn model(&self) -> XTPacketView {
        XTPacketView {
            handler_id: Some(self.handler_id@),
            packet_id: self.packet_id@,
            internal_id: self.internal_id as int,
            data: self.args(),
        }
    }

    /// The arguments that the message holds.
    pub fn data_slice(&self) -> (out: &[&'raw str])
        requires
            self.wf(),
        ensures
            out@ == self.data@.take(self.data_len as int),
    {
        let all: &[&'raw str] = self.data.as_slice();
        vstd::slice::slice_subrange(all, 0, self.data_len)
    }
}

/// What a text decodes to: what it decodes to as a client's message, unless
/// that has more arguments than fit.
pub open spec fn decode_package(raw: Seq<char>) -> Result<XTPacketView, PackageError> {
    match decode(raw, XTVariant::Client) {
        Err(e) => Err(PackageError::Malformed(e)),
        Ok(p) => if p.data.len() > XT_MAX_ARG_LEN {
            Err(PackageError::ArgLimit)
        } else {
            Ok(p)
        },
    }
}

/// Decodes one frame's text into a message whose fields borrow from it.
pub fn deserialize<'raw>(raw: &'raw str) -> (res: Result<XTPackage<'raw>, PackageError>)
    ensures
        match res {
            Ok(p) => p.wf() && decode_package(raw@) == Ok::<XTPacketView, PackageError>(p.model()),
            Err(e) => decode_package(raw@) == Err::<XTPacketView, PackageError>(e),
        },
{
    let cs = to_chars(raw);
    let n = cs.len();
    if n == 0 || cs[0] != '%' {
        return Err(PackageError::Malformed(XTError::BadLeading));
    }
    if n < 2 || cs[n - 1] != '%' {
        return Err(PackageError::Malformed(XTError::BadTrailing));
    }
    let spans = split_spans(&cs, 1, n - 1, '%');
    let ghost f = split(raw@.subrange(1, raw@.len() - 1), '%');
    proof {
        lemma_split_join(raw@.subrange(1, raw@.len() - 1), '%');
        assert(span_texts(cs@, spans@) == f);
        assert(spans@.len() == f.len());
    }
    let (a0, b0) = spans[0];
    assert(f[0] == cs@.subrange(a0 as int, b0 as int));
    if !(b0 - a0 == 2 && cs[a0] == 'x' && cs[a0 + 1] == 't') {
        proof {
            if f[0] == xt_tag() {
                assert(f[0].len() == 2);
                assert(f[0][0] == 'x');
                assert(f[0][1] == 't');
            }
        }
        return Err(PackageError::Malformed(XTError::BadPrefix));
    }
    assert(f[0] =~= xt_tag());
    if spans.len() < 2 {
        return Err(PackageError::Malformed(XTError::BadHandlerId));
    }
    let (a, b) = spans[1];
    assert(f[1] == cs@.subrange(a as int, b as int));
    if a == b {
        return Err(PackageError::Malformed(XTError::BadHandlerId));
    }
    let handler_id = raw.substring_char(a, b);
    if spans.len() < 3 {
        return Err(PackageError::Malformed(XTError::BadPacketId));
    }
    let (a, b) = spans[2];
    assert(f[2] == cs@.subrange(a as int, b as int));
    if a == b {
        return Err(PackageError::Malformed(XTError::BadPacketId));
    }
    let packet_id = raw.substring_char(a, b);
    if spans.len() < 4 {
        return Err(PackageError::Malformed(XTError::BadInternalId));
    }
    let (a, b) = spans[3];
    assert(f[3] == cs@.subrange(a as int, b as int));
    let internal_id = match parse_isize_in(&cs, a, b) {
        Some(v) => v,
        None => {
            return Err(PackageError::Malformed(XTError::BadInternalId));
        },
    };
    if spans.len() - 4 > XT_MAX_ARG_LEN {
        assert(f.subrange(4, f.len() as int).len() > XT_MAX_ARG_LEN);
        return Err(PackageError::ArgLimit);
    }
    let data_len: usize = spans.len() - 4;
    let mut data: [&'raw str; 32] = [""; 32];
    let mut j: usize = 0;
    while j < data_len
        invariant
            0 <= j <= data_len,
            data_len == spans.len() - 4,
            data_len <= XT_MAX_ARG_LEN,
            spans@.len() == f.len(),
            spans_within(spans@, 1, n - 1),
            n == cs.len(),
            cs@ == raw@,
            span_texts(cs@, spans@) == f,
            forall|k: int| 0 <= k < j ==> (#[trigger] data@[k])@ == f[k + 4],
        decreases data_len - j,
    {
        let (a, b) = spans[j + 4];
        assert(f[j + 4] == cs@.subrange(a as int, b as int));
        data[j] = raw.substring_char(a, b);
        j += 1;
    }
    let out = XTPackage { handler_id, packet_id, internal_id, data_len, data };
    assert(out.args() =~= f.subrange(4, f.len() as int));
    Ok(out)
}

/// Writes a message as it goes on the wire.
pub fn serialize(xt: XTPackage<'_>) -> (out: String)
    requires
        xt.wf(),
    ensures
        out@ == xt.model().wire(),
{
    let mut data: Vec<String> = Vec::new();
    let args = xt.data_slice();
    let mut i: usize = 0;
    while i < args.len()
        invariant
            0 <= i <= args.len(),
            args@ == xt.data@.take(xt.data_len as int),
            texts(data@) == xt.args().take(i as int),
        decreases args.len() - i,
    {
        let ghost before = texts(data@);
        data.push(args[i].to_owned());
        assert(texts(data@) =~= before.push(args@[i as int]@));
        i += 1;
        assert(texts(data@) =~= xt.args().take(i as int));
    }
    assert(xt.args().take(args.len() as int) =~= xt.args());
    let owned = XTPacket {
        handler_id: Some(xt.handler_id.to_owned()),
        packet_id: xt.packet_id.to_owned(),
        internal_id: xt.internal_id,
        data,
    };
    crate::pkt::xt::serialize(owned)
}

} // verus!
