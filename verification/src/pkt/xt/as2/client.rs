//! Client packets read from XT messages.

use vstd::prelude::*;
use vstd::string::StringExecFns;
use crate::pkt::meta;
use crate::pkt::xt::{XTPacket, XTPacketView};
use crate::text::{fit_isize, fit_usize, parse_isize, parse_signed, parse_unsigned, parse_usize, same_text, texts};

verus! {

/// Why a message is no packet of this dialect.
#[derive(Debug, Clone, PartialEq, Eq)]
pub enum PacketError {
    /// Fewer or more arguments than expected.
    BadArgCount,
    /// This argument should have been a whole number.
    BadDatatypeInt(String),
    /// Entirely not recognized.
    Unrecognized { handler_id: String, packet_id: String },
}

/// A `PacketError` as plain values.
pub enum PacketErrorView {
    BadArgCount,
    BadDatatypeInt(Seq<char>),
    Unrecognized { handler_id: Seq<char>, packet_id: Seq<char> },
}

impl View for PacketError {
    type V = PacketErrorView;

    open spec fn view(&self) -> PacketErrorView {
        match *self {
            PacketError::BadArgCount => PacketErrorView::BadArgCount,
            PacketError::BadDatatypeInt(text) => PacketErrorView::BadDatatypeInt(text@),
            PacketError::Unrecognized { handler_id, packet_id } => PacketErrorView::Unrecognized {
                handler_id: handler_id@,
                packet_id: packet_id@,
            },
        }
    }
}

impl PacketErrorView {
    /// The error in words.
    pub open spec fn text(self) -> Seq<char> {
        match self {
            PacketErrorView::BadArgCount => "Bad argument count, received fewer or more arguments than expected"@,
            PacketErrorView::BadDatatypeInt(text) => "Bad data type: failed to parse integer - "@
                + text,
            PacketErrorView::Unrecognized { handler_id, packet_id } => "Unrecognized packet: handler_id='"@
                + handler_id + "', packet_id='"@ + packet_id + "'"@,
        }
    }
}

impl PacketError {
    /// The error in words.
    pub fn message(&self) -> (out: String)
        ensures
            out@ == self@.text(),
    {
        match self {
            PacketError::BadArgCount => String::from_str(
                "Bad argument count, received fewer or more arguments than expected",
            ),
            PacketError::BadDatatypeInt(text) => {
                let mut out = String::from_str("Bad data type: failed to parse integer - ");
                out.append(text.as_str());
                out
            },
            PacketError::Unrecognized { handler_id, packet_id } => {
                let mut out = String::from_str("Unrecognized packet: handler_id='");
                out.append(handler_id.as_str());
                out.append("', packet_id='");
                out.append(packet_id.as_str());
                out.append("'");
                out
            },
        }
    }
}

/// A client packet that was read in this dialect.
#[derive(Clone, Debug, PartialEq, Eq)]
pub struct Packet(pub meta::client::Packet);

/// A request that takes no arguments.
pub open spec fn bare(data: Seq<Seq<char>>, packet: meta::client::PacketView) -> Result<
    meta::client::PacketView,
    PacketErrorView,
> {
    if data.len() == 0 {
        Ok(packet)
    } else {
        Err(PacketErrorView::BadArgCount)
    }
}

/// The player id that the text writes, or the text as the error.
pub open spec fn player_id_of(text: Seq<char>) -> Result<usize, PacketErrorView> {
    match fit_usize(parse_unsigned(text)) {
        Some(id) => Ok(id),
        None => Err(PacketErrorView::BadDatatypeInt(text)),
    }
}

/// The packet that a client's message stands for.
pub open spec fn read_form(x: XTPacketView) -> Result<meta::client::PacketView, PacketErrorView>
    recommends
        x.handler_id is Some,
{
    let h = x.handler_id->0;
    let p = x.packet_id;
    let d = x.data;
    if h == "s"@ {
        if p == "j#js"@ {
            if d.len() != 3 {
                Err(PacketErrorView::BadArgCount)
            } else {
                match player_id_of(d[0]) {
                    Ok(penguin_id) => Ok(
                        meta::client::PacketView::JoinServer {
                            penguin_id,
                            login_key: d[1],
                            language: d[2],
                        },
                    ),
                    Err(e) => Err(e),
                }
            }
        } else if p == "i#gi"@ {
            bare(d, meta::client::PacketView::GetInventory)
        } else if p == "b#gb"@ {
            bare(d, meta::client::PacketView::GetBuddies)
        } else if p == "n#gn"@ {
            bare(d, meta::client::PacketView::GetIgnoreList)
        } else if p == "l#mst"@ {
            bare(d, meta::client::PacketView::StartMailEngine)
        } else if p == "l#mg"@ {
            bare(d, meta::client::PacketView::GetMail)
        } else if p == "p#pgu"@ {
            bare(d, meta::client::PacketView::GetMyPuffles)
        } else if p == "u#glr"@ {
            bare(d, meta::client::PacketView::GetLastRevision)
        } else if p == "f#epfgr"@ {
            bare(d, meta::client::PacketView::GetEPFPoints)
        } else if p == "f#epfgf"@ {
            bare(d, meta::client::PacketView::GetEPFPoints)
        } else if p == "f#epfga"@ {
            bare(d, meta::client::PacketView::GetEPFAgentStatus)
        } else if p == "i#qpa"@ {
            if d.len() != 1 {
                Err(PacketErrorView::BadArgCount)
            } else {
                match player_id_of(d[0]) {
                    Ok(player_id) => Ok(meta::client::PacketView::QueryPlayerAwards { player_id }),
                    Err(e) => Err(e),
                }
            }
        } else if p == "u#gp"@ {
            if d.len() != 1 {
                Err(PacketErrorView::BadArgCount)
            } else {
                match player_id_of(d[0]) {
                    Ok(player) => Ok(meta::client::PacketView::GetPlayer { player }),
                    Err(e) => Err(e),
                }
            }
        } else if p == "u#sp"@ {
            if d.len() != 2 {
                Err(PacketErrorView::BadArgCount)
            } else if fit_isize(parse_signed(d[0])) is None {
                Err(PacketErrorView::BadDatatypeInt(d[0]))
            } else if fit_isize(parse_signed(d[1])) is None {
                Err(PacketErrorView::BadDatatypeInt(d[1]))
            } else {
                Ok(
                    meta::client::PacketView::SetPosition {
                        x: fit_isize(parse_signed(d[0]))->0,
                        y: fit_isize(parse_signed(d[1]))->0,
                    },
                )
            }
        } else {
            Err(PacketErrorView::Unrecognized { handler_id: h, packet_id: p })
        }
    } else if h == "z"@ && p == "gw"@ {
        Ok(meta::client::PacketView::GetWaddlePopulation)
    } else {
        Err(PacketErrorView::Unrecognized { handler_id: h, packet_id: p })
    }
}

/// Whether a read packet, or the error in its place, is what `expected` says.
pub open spec fn agrees(
    got: Result<Packet, PacketError>,
    expected: Result<meta::client::PacketView, PacketErrorView>,
) -> bool {
    match got {
        Ok(p) => expected == Ok::<meta::client::PacketView, PacketErrorView>(p.0@),
        Err(e) => expected == Err::<meta::client::PacketView, PacketErrorView>(e@),
    }
}

/// A request that takes no arguments.
fn read_bare(data: &Vec<String>, packet: meta::client::Packet) -> (out: Result<Packet, PacketError>)
    ensures
        agrees(out, bare(texts(data@), packet@)),
{
    if data.len() == 0 {
        Ok(Packet(packet))
    } else {
        Err(PacketError::BadArgCount)
    }
}

/// The player id that the text writes, or the text as the error.
fn read_player_id(text: &String) -> (out: Result<usize, PacketError>)
    ensures
        match out {
            Ok(id) => player_id_of(text@) == Ok::<usize, PacketErrorView>(id),
            Err(e) => player_id_of(text@) == Err::<usize, PacketErrorView>(e@),
        },
{
    match parse_usize(text.as_str()) {
        Some(id) => Ok(id),
        None => Err(PacketError::BadDatatypeInt(text.clone())),
    }
}

impl Packet {
    /// Reads a client's message as a packet of the game.
    ///
    /// A message that the server wrote has no handler id and is not taken.
    pub fn try_from_xt(value: XTPacket) -> (out: Result<Packet, PacketError>)
        requires
            value@.handler_id is Some,
        ensures
            agrees(out, read_form(value@)),
    {
        let XTPacket { handler_id, packet_id, internal_id: _, data } = value;
        let handler_id = match handler_id {
            Some(h) => h,
            None => vstd::pervasive::unreached(),
        };
        let h = handler_id.as_str();
        let p = packet_id.as_str();
        let ghost d = texts(data@);
        if same_text(h, "s") {
            if same_text(p, "j#js") {
                if data.len() != 3 {
                    return Err(PacketError::BadArgCount);
                }
                assert(d[0] == data@[0]@ && d[1] == data@[1]@ && d[2] == data@[2]@);
                match read_player_id(&data[0]) {
                    Ok(penguin_id) => Ok(
                        Packet(
                            meta::client::Packet::JoinServer {
                                penguin_id,
                                login_key: data[1].clone(),
                                language: data[2].clone(),
                            },
                        ),
                    ),
                    Err(e) => Err(e),
                }
            } else if same_text(p, "i#gi") {
                read_bare(&data, meta::client::Packet::GetInventory)
            } else if same_text(p, "b#gb") {
                read_bare(&data, meta::client::Packet::GetBuddies)
            } else if same_text(p, "n#gn") {
                read_bare(&data, meta::client::Packet::GetIgnoreList)
            } else if same_text(p, "l#mst") {
                read_bare(&data, meta::client::Packet::StartMailEngine)
            } else if same_text(p, "l#mg") {
                read_bare(&data, meta::client::Packet::GetMail)
            } else if same_text(p, "p#pgu") {
                read_bare(&data, meta::client::Packet::GetMyPuffles)
            } else if same_text(p, "u#glr") {
                read_bare(&data, meta::client::Packet::GetLastRevision)
            } else if same_text(p, "f#epfgr") {
                read_bare(&data, meta::client::Packet::GetEPFPoints)
            } else if same_text(p, "f#epfgf") {
                read_bare(&data, meta::client::Packet::GetEPFPoints)
            } else if same_text(p, "f#epfga") {
                read_bare(&data, meta::client::Packet::GetEPFAgentStatus)
            } else if same_text(p, "i#qpa") {
                if data.len() != 1 {
                    return Err(PacketError::BadArgCount);
                }
                assert(d[0] == data@[0]@);
                match read_player_id(&data[0]) {
                    Ok(player_id) => Ok(Packet(meta::client::Packet::QueryPlayerAwards { player_id })),
                    Err(e) => Err(e),
                }
            } else if same_text(p, "u#gp") {
                if data.len() != 1 {
                    return Err(PacketError::BadArgCount);
                }
                assert(d[0] == data@[0]@);
                match read_player_id(&data[0]) {
                    Ok(player) => Ok(Packet(meta::client::Packet::GetPlayer { player })),
                    Err(e) => Err(e),
                }
            } else if same_text(p, "u#sp") {
                if data.len() != 2 {
                    return Err(PacketError::BadArgCount);
                }
                assert(d[0] == data@[0]@ && d[1] == data@[1]@);
                let x = match parse_isize(data[0].as_str()) {
                    Some(x) => x,
                    None => {
                        return Err(PacketError::BadDatatypeInt(data[0].clone()));
                    },
                };
                let y = match parse_isize(data[1].as_str()) {
                    Some(y) => y,
                    None => {
                        return Err(PacketError::BadDatatypeInt(data[1].clone()));
                    },
                };
                Ok(Packet(meta::client::Packet::SetPosition { x, y }))
            } else {
                Err(PacketError::Unrecognized { handler_id, packet_id })
            }
        } else if same_text(h, "z") && same_text(p, "gw") {
            Ok(Packet(meta::client::Packet::GetWaddlePopulation {  }))
        } else {
            Err(PacketError::Unrecognized { handler_id, packet_id })
        }
    }
}

} // verus!
