//! Server packets as XT messages.

use vstd::prelude::*;
use crate::datamodel::{IntoPlayerGistString, MapCategory, PlayerGist, PlayerGistView, gist_views};
use crate::pkt::meta;
use crate::datamodel::lemma_gist_text_lacks;
use crate::pkt::xt::{
    XTError, XTPacket, XTPacketView, XTVariant, XT_DEFAULT_INT_ID, decode, lemma_round_trip,
    serialize,
};
use crate::text::{
    decimal, decimal_string, flag_string, flag_text, lemma_decimal_lacks, sep_free, texts,
};

verus! {

/// A server packet that is to be written in this dialect.
#[derive(Clone, Debug, PartialEq, Eq)]
pub struct Packet(pub meta::server::Packet);

/// A message of the server: no handler id, and the server's own correlation
/// id.
pub open spec fn server_xt(packet_id: Seq<char>, data: Seq<Seq<char>>) -> XTPacketView {
    XTPacketView { handler_id: None, packet_id, internal_id: XT_DEFAULT_INT_ID as int, data }
}

/// The decimal writings of the numbers.
pub open spec fn decimals(items: Seq<usize>) -> Seq<Seq<char>> {
    Seq::new(items.len(), |i: int| decimal(items[i] as nat))
}

/// The gist strings of the players.
pub open spec fn gist_texts(players: Seq<PlayerGistView>) -> Seq<Seq<char>> {
    Seq::new(players.len(), |i: int| players[i].text())
}

/// Whether this dialect has a message for the packet.
pub open spec fn has_wire_form(p: meta::server::PacketView) -> bool {
    !(p is Heartbeat || p is SetPosition || p is SendMessage)
}

/// The message that stands for the packet.
pub open spec fn wire_form(p: meta::server::PacketView) -> XTPacketView
    recommends
        has_wire_form(p),
{
    match p {
        meta::server::PacketView::Error(error) => server_xt("e"@, seq![decimal(error.code())]),
        meta::server::PacketView::Loaded => server_xt("l"@, seq![]),
        meta::server::PacketView::LoginResponse => server_xt("l"@, seq![""@]),
        meta::server::PacketView::ActiveFeatures => server_xt("activefeatures"@, seq![]),
        meta::server::PacketView::JoinedServer {
            agent_status,
            moderator_status,
            book_modified,
        } => server_xt(
            "js"@,
            seq![
                flag_text(agent_status),
                "0"@,
                decimal(moderator_status.rank()),
                flag_text(book_modified),
            ],
        ),
        meta::server::PacketView::LoadPlayer {
            gist,
            coins,
            safe_chat,
            egg_timer_minutes,
            penguin_standard_time,
            age,
            minutes_played,
            membership_days_remain,
            server_time_offset,
            opened_playercard,
        } => server_xt(
            "lp"@,
            seq![
                gist.text(),
                decimal(coins as nat),
                flag_text(safe_chat),
                decimal(egg_timer_minutes as nat),
                decimal(penguin_standard_time as nat),
                decimal(age as nat),
                "0"@,
                decimal(minutes_played as nat),
                decimal(membership_days_remain as nat),
                decimal(server_time_offset as nat),
                flag_text(opened_playercard),
                "0"@,
                "0"@,
            ],
        ),
        meta::server::PacketView::GetInventory { items } => server_xt("gi"@, decimals(items)),
        meta::server::PacketView::GetBuddies => server_xt("gb"@, seq![]),
        meta::server::PacketView::GetIgnoreList => server_xt("gn"@, seq![]),
        meta::server::PacketView::GetPlayerStamps { player_id } => server_xt(
            "gps"@,
            seq![decimal(player_id as nat), "93|96|189"@],
        ),
        meta::server::PacketView::QueryPlayerAwards { player_id } => server_xt(
            "qpa"@,
            seq![decimal(player_id as nat), "8009"@],
        ),
        meta::server::PacketView::GetMail => server_xt(
            "mg"@,
            seq!["sys|0|112||1752891915|2|1"@, "sys|0|125||1752251683|1|1"@],
        ),
        meta::server::PacketView::GetLastRevision(revision) => server_xt("glr"@, seq![revision]),
        meta::server::PacketView::StartMailEngine { unread_mail_count, mail_count } => server_xt(
            "mst"@,
            seq![decimal(unread_mail_count as nat), decimal(mail_count as nat)],
        ),
        meta::server::PacketView::GetEPFPoints { career_medals, agent_medals } => server_xt(
            "epfgr"@,
            seq![decimal(career_medals as nat), decimal(agent_medals as nat)],
        ),
        meta::server::PacketView::GetFieldOPStatus => server_xt("epfgf"@, seq!["0"@]),
        meta::server::PacketView::GetEPFAgentStatus => server_xt("epfga"@, seq!["1"@]),
        meta::server::PacketView::JoinRoom { room_id, players } => server_xt(
            "jr"@,
            seq![decimal(room_id as nat)] + gist_texts(players),
        ),
        meta::server::PacketView::AddedPlayer { player } => server_xt("ap"@, seq![player.text()]),
        meta::server::PacketView::GetWaddlePopulation => server_xt(
            "gw"@,
            seq!["100|,,,"@, "101|,,"@, "102|,"@, "103|,"@],
        ),
        meta::server::PacketView::GetPlayer { player } => server_xt("gp"@, seq![player.text()]),
        _ => server_xt(""@, seq![]),
    }
}

/// Whether none of the texts that the packet carries holds a `%`.
pub open spec fn clean(p: meta::server::PacketView) -> bool {
    match p {
        meta::server::PacketView::LoadPlayer { gist, .. } => !gist.nickname.contains('%'),
        meta::server::PacketView::GetLastRevision(revision) => !revision.contains('%'),
        meta::server::PacketView::JoinRoom { players, .. } => forall|i: int|
            0 <= i < players.len() ==> !(#[trigger] players[i]).nickname.contains('%'),
        meta::server::PacketView::AddedPlayer { player } => !player.nickname.contains('%'),
        meta::server::PacketView::GetPlayer { player } => !player.nickname.contains('%'),
        _ => true,
    }
}

/// The message of a packet whose texts hold no `%` is well formed, so that it
/// reads back from the wire as it was written.
pub proof fn lemma_wire_form_well_formed(p: meta::server::PacketView)
    requires
        has_wire_form(p),
        clean(p),
    ensures
        wire_form(p).well_formed(),
        decode(wire_form(p).wire(), XTVariant::Server) == Ok::<XTPacketView, XTError>(wire_form(p)),
{
    let x = wire_form(p);
    reveal_strlit("e");
    reveal_strlit("l");
    reveal_strlit("");
    reveal_strlit("activefeatures");
    reveal_strlit("js");
    reveal_strlit("0");
    reveal_strlit("1");
    reveal_strlit("lp");
    reveal_strlit("gi");
    reveal_strlit("gb");
    reveal_strlit("gn");
    reveal_strlit("gps");
    reveal_strlit("93|96|189");
    reveal_strlit("qpa");
    reveal_strlit("8009");
    reveal_strlit("mg");
    reveal_strlit("sys|0|112||1752891915|2|1");
    reveal_strlit("sys|0|125||1752251683|1|1");
    reveal_strlit("glr");
    reveal_strlit("mst");
    reveal_strlit("epfgr");
    reveal_strlit("epfgf");
    reveal_strlit("epfga");
    reveal_strlit("jr");
    reveal_strlit("ap");
    reveal_strlit("gw");
    reveal_strlit("100|,,,");
    reveal_strlit("101|,,");
    reveal_strlit("102|,");
    reveal_strlit("103|,");
    reveal_strlit("gp");
    assert(sep_free(x.data, '%')) by {
        match p {
            meta::server::PacketView::Error(error) => {
                lemma_decimal_lacks(error.code(), '%');
            },
            meta::server::PacketView::JoinedServer {
                agent_status,
                moderator_status,
                book_modified,
            } => {
                lemma_decimal_lacks(moderator_status.rank(), '%');
            },
            meta::server::PacketView::LoadPlayer {
                gist,
                coins,
                safe_chat,
                egg_timer_minutes,
                penguin_standard_time,
                age,
                minutes_played,
                membership_days_remain,
                server_time_offset,
                opened_playercard,
            } => {
                lemma_gist_text_lacks(gist, '%');
                lemma_decimal_lacks(coins as nat, '%');
                lemma_decimal_lacks(egg_timer_minutes as nat, '%');
                lemma_decimal_lacks(penguin_standard_time as nat, '%');
                lemma_decimal_lacks(age as nat, '%');
                lemma_decimal_lacks(minutes_played as nat, '%');
                lemma_decimal_lacks(membership_days_remain as nat, '%');
                lemma_decimal_lacks(server_time_offset as nat, '%');
            },
            meta::server::PacketView::GetInventory { items } => {
                assert forall|i: int| 0 <= i < x.data.len() implies !(#[trigger] x.data[i]).contains(
                    '%',
                ) by {
                    lemma_decimal_lacks(items[i] as nat, '%');
                }
            },
            meta::server::PacketView::GetPlayerStamps { player_id } => {
                lemma_decimal_lacks(player_id as nat, '%');
            },
            meta::server::PacketView::QueryPlayerAwards { player_id } => {
                lemma_decimal_lacks(player_id as nat, '%');
            },
            meta::server::PacketView::StartMailEngine { unread_mail_count, mail_count } => {
                lemma_decimal_lacks(unread_mail_count as nat, '%');
                lemma_decimal_lacks(mail_count as nat, '%');
            },
            meta::server::PacketView::GetEPFPoints { career_medals, agent_medals } => {
                lemma_decimal_lacks(career_medals as nat, '%');
                lemma_decimal_lacks(agent_medals as nat, '%');
            },
            meta::server::PacketView::JoinRoom { room_id, players } => {
                assert forall|i: int| 0 <= i < x.data.len() implies !(#[trigger] x.data[i]).contains(
                    '%',
                ) by {
                    if i == 0 {
                        lemma_decimal_lacks(room_id as nat, '%');
                    } else {
                        assert(x.data[i] == players[i - 1].text());
                        lemma_gist_text_lacks(players[i - 1], '%');
                    }
                }
            },
            meta::server::PacketView::AddedPlayer { player } => {
                lemma_gist_text_lacks(player, '%');
            },
            meta::server::PacketView::GetPlayer { player } => {
                lemma_gist_text_lacks(player, '%');
            },
            _ => {},
        }
    }
    lemma_round_trip(x);
}

/// The server's message with this packet id and these arguments.
fn server_packet(packet_id: &str, data: Vec<String>) -> (out: XTPacket)
    ensures
        out@ == server_xt(packet_id@, texts(data@)),
{
    XTPacket {
        handler_id: None,
        packet_id: packet_id.to_owned(),
        internal_id: XT_DEFAULT_INT_ID,
        data,
    }
}

/// The text `s` as a string of its own.
fn owned(s: &str) -> (out: String)
    ensures
        out@ == s@,
{
    s.to_owned()
}

impl Packet {
    /// Whether this dialect has a message for the packet.
    pub fn has_wire_form(&self) -> (out: bool)
        ensures
            out == has_wire_form(self.0@),
    {
        match &self.0 {
            meta::server::Packet::Heartbeat => false,
            meta::server::Packet::SetPosition { .. } => false,
            meta::server::Packet::SendMessage { .. } => false,
            _ => true,
        }
    }

    /// The message that stands for the packet.
    pub fn into_xt(self) -> (out: XTPacket)
        requires
            has_wire_form(self.0@),
        ensures
            out@ == wire_form(self.0@),
    {
        let ghost view = self.0@;
        let mut data: Vec<String> = Vec::new();
        match self.0 {
            meta::server::Packet::Error(error) => {
                data.push(decimal_string(error.wire_code() as u64));
                assert(texts(data@) =~= wire_form(view).data);
                server_packet("e", data)
            },
            meta::server::Packet::Loaded => {
                assert(texts(data@) =~= wire_form(view).data);
                server_packet("l", data)
            },
            meta::server::Packet::LoginResponse {  } => {
                data.push(owned(""));
                assert(texts(data@) =~= wire_form(view).data);
                server_packet("l", data)
            },
            meta::server::Packet::ActiveFeatures {  } => {
                assert(texts(data@) =~= wire_form(view).data);
                server_packet("activefeatures", data)
            },
            meta::server::Packet::JoinedServer { agent_status, moderator_status, book_modified } => {
                data.push(flag_string(agent_status));
                data.push(owned("0"));
                data.push(decimal_string(moderator_status.wire_rank()));
                data.push(flag_string(book_modified));
                assert(texts(data@) =~= wire_form(view).data);
                server_packet("js", data)
            },
            meta::server::Packet::LoadPlayer {
                gist,
                coins,
                safe_chat,
                egg_timer_minutes,
                penguin_standard_time,
                age,
                minutes_played,
                membership_days_remain,
                server_time_offset,
                opened_playercard,
                map_category,
                new_player_status,
            } => {
                data.push(gist.into_gist_string());
                data.push(decimal_string(coins as u64));
                data.push(flag_string(safe_chat));
                data.push(decimal_string(egg_timer_minutes as u64));
                data.push(decimal_string(penguin_standard_time as u64));
                data.push(decimal_string(age as u64));
                data.push(owned("0"));
                data.push(decimal_string(minutes_played as u64));
                data.push(decimal_string(membership_days_remain as u64));
                data.push(decimal_string(server_time_offset as u64));
                data.push(flag_string(opened_playercard));
                data.push(
                    match map_category {
                        MapCategory::Normal => owned("0"),
                    },
                );
                data.push(owned("0"));
                assert(texts(data@) =~= wire_form(view).data);
                server_packet("lp", data)
            },
            meta::server::Packet::GetInventory { items } => {
                let mut i: usize = 0;
                while i < items.len()
                    invariant
                        0 <= i <= items.len(),
                        texts(data@) == decimals(items@).take(i as int),
                    decreases items.len() - i,
                {
                    let ghost before = texts(data@);
                    data.push(decimal_string(items[i] as u64));
                    assert(texts(data@) =~= before.push(decimal(items@[i as int] as nat)));
                    i += 1;
                    assert(texts(data@) =~= decimals(items@).take(i as int));
                }
                assert(texts(data@) =~= wire_form(view).data);
                server_packet("gi", data)
            },
            meta::server::Packet::GetBuddies {  } => {
                assert(texts(data@) =~= wire_form(view).data);
                server_packet("gb", data)
            },
            meta::server::Packet::GetIgnoreList {  } => {
                assert(texts(data@) =~= wire_form(view).data);
                server_packet("gn", data)
            },
            meta::server::Packet::GetPlayerStamps { player_id } => {
                data.push(decimal_string(player_id as u64));
                data.push(owned("93|96|189"));
                assert(texts(data@) =~= wire_form(view).data);
                server_packet("gps", data)
            },
            meta::server::Packet::QueryPlayerAwards { player_id } => {
                data.push(decimal_string(player_id as u64));
                data.push(owned("8009"));
                assert(texts(data@) =~= wire_form(view).data);
                server_packet("qpa", data)
            },
            meta::server::Packet::GetMail {  } => {
                data.push(owned("sys|0|112||1752891915|2|1"));
                data.push(owned("sys|0|125||1752251683|1|1"));
                assert(texts(data@) =~= wire_form(view).data);
                server_packet("mg", data)
            },
            meta::server::Packet::GetLastRevision(revision) => {
                data.push(revision);
                assert(texts(data@) =~= wire_form(view).data);
                server_packet("glr", data)
            },
            meta::server::Packet::StartMailEngine { unread_mail_count, mail_count } => {
                data.push(decimal_string(unread_mail_count as u64));
                data.push(decimal_string(mail_count as u64));
                assert(texts(data@) =~= wire_form(view).data);
                server_packet("mst", data)
            },
            meta::server::Packet::GetEPFPoints { career_medals, agent_medals } => {
                data.push(decimal_string(career_medals as u64));
                data.push(decimal_string(agent_medals as u64));
                assert(texts(data@) =~= wire_form(view).data);
                server_packet("epfgr", data)
            },
            meta::server::Packet::GetFieldOPStatus {  } => {
                data.push(owned("0"));
                assert(texts(data@) =~= wire_form(view).data);
                server_packet("epfgf", data)
            },
            meta::server::Packet::GetEPFAgentStatus {  } => {
                data.push(owned("1"));
                assert(texts(data@) =~= wire_form(view).data);
                server_packet("epfga", data)
            },
            meta::server::Packet::JoinRoom { room_id, players } => {
                data.push(decimal_string(room_id as u64));
                let ghost all = gist_texts(gist_views(players@));
                let mut i: usize = 0;
                assert(texts(data@) =~= seq![decimal(room_id as nat)] + all.take(0));
                while i < players.len()
                    invariant
                        0 <= i <= players.len(),
                        all == gist_texts(gist_views(players@)),
                        texts(data@) == seq![decimal(room_id as nat)] + all.take(i as int),
                    decreases players.len() - i,
                {
                    let ghost before = texts(data@);
                    data.push(players[i].duplicate().into_gist_string());
                    assert(texts(data@) =~= before.push(all[i as int]));
                    i += 1;
                    assert(texts(data@) =~= seq![decimal(room_id as nat)] + all.take(i as int));
                }
                assert(all.take(players.len() as int) =~= all);
                server_packet("jr", data)
            },
            meta::server::Packet::AddedPlayer { player } => {
                data.push(player.into_gist_string());
                assert(texts(data@) =~= wire_form(view).data);
                server_packet("ap", data)
            },
            meta::server::Packet::GetWaddlePopulation {  } => {
                data.push(owned("100|,,,"));
                data.push(owned("101|,,"));
                data.push(owned("102|,"));
                data.push(owned("103|,"));
                assert(texts(data@) =~= wire_form(view).data);
                server_packet("gw", data)
            },
            meta::server::Packet::GetPlayer { player } => {
                data.push(player.into_gist_string());
                assert(texts(data@) =~= wire_form(view).data);
                server_packet("gp", data)
            },
            _ => vstd::pervasive::unreached(),
        }
    }

    /// The packet as the text of one frame.
    pub fn into_string(self) -> (out: String)
        requires
            has_wire_form(self.0@),
        ensures
            out@ == wire_form(self.0@).wire(),
    {
        serialize(self.into_xt())
    }
}

} // verus!
