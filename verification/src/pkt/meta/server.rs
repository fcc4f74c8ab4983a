//! What the server can tell a client.

use vstd::prelude::*;
use crate::datamodel;
use crate::datamodel::{gist_views, PlayerGistView};
use crate::pkt::meta::ModeratorStatus;

verus! {

#[derive(Clone, Debug, PartialEq, Eq)]
pub enum Packet {
    Heartbeat,
    Error(Error),
    Loaded,
    LoginResponse {  },
    ActiveFeatures {  },
    JoinedServer { agent_status: bool, moderator_status: ModeratorStatus, book_modified: bool },
    LoadPlayer {
        gist: datamodel::PlayerGist,
        coins: usize,
        safe_chat: bool,
        egg_timer_minutes: usize,
        /// Unix time in milliseconds, rounded to the second.
        penguin_standard_time: usize,
        /// Days since registration.
        age: usize,
        minutes_played: usize,
        membership_days_remain: usize,
        /// Hours behind UTC.
        server_time_offset: usize,
        opened_playercard: bool,
        map_category: datamodel::MapCategory,
        new_player_status: datamodel::NewPlayerStatus,
    },
    GetInventory { items: Vec<datamodel::ItemId> },
    GetBuddies {  },
    GetIgnoreList {  },
    GetPlayerStamps { player_id: datamodel::PlayerId },
    QueryPlayerAwards { player_id: datamodel::PlayerId },
    GetMail {  },
    GetLastRevision(String),
    StartMailEngine { unread_mail_count: usize, mail_count: usize },
    GetEPFPoints { career_medals: usize, agent_medals: usize },
    GetFieldOPStatus {  },
    GetEPFAgentStatus {  },
    JoinRoom { room_id: datamodel::RoomId, players: Vec<datamodel::PlayerGist> },
    AddedPlayer { player: datamodel::PlayerGist },
    GetWaddlePopulation {  },
    GetPlayer { player: datamodel::PlayerGist },
    SetPosition { player_id: datamodel::PlayerId, x: isize, y: isize },
    SendMessage { player_id: datamodel::PlayerId, message: String },
}

/// A server packet as plain values.
pub enum PacketView {
    Heartbeat,
    Error(Error),
    Loaded,
    LoginResponse,
    ActiveFeatures,
    JoinedServer { agent_status: bool, moderator_status: ModeratorStatus, book_modified: bool },
    LoadPlayer {
        gist: PlayerGistView,
        coins: usize,
        safe_chat: bool,
        egg_timer_minutes: usize,
        penguin_standard_time: usize,
        age: usize,
        minutes_played: usize,
        membership_days_remain: usize,
        server_time_offset: usize,
        opened_playercard: bool,
    },
    GetInventory { items: Seq<datamodel::ItemId> },
    GetBuddies,
    GetIgnoreList,
    GetPlayerStamps { player_id: datamodel::PlayerId },
    QueryPlayerAwards { player_id: datamodel::PlayerId },
    GetMail,
    GetLastRevision(Seq<char>),
    StartMailEngine { unread_mail_count: usize, mail_count: usize },
    GetEPFPoints { career_medals: usize, agent_medals: usize },
    GetFieldOPStatus,
    GetEPFAgentStatus,
    JoinRoom { room_id: datamodel::RoomId, players: Seq<PlayerGistView> },
    AddedPlayer { player: PlayerGistView },
    GetWaddlePopulation,
    GetPlayer { player: PlayerGistView },
    SetPosition { player_id: datamodel::PlayerId, x: isize, y: isize },
    SendMessage { player_id: datamodel::PlayerId, message: Seq<char> },
}

impl View for Packet {
    type V = PacketView;

    open spec fn view(&self) -> PacketView {
        match *self {
            Packet::Heartbeat => PacketView::Heartbeat,
            Packet::Error(e) => PacketView::Error(e),
            Packet::Loaded => PacketView::Loaded,
            Packet::LoginResponse {  } => PacketView::LoginResponse,
            Packet::ActiveFeatures {  } => PacketView::ActiveFeatures,
            Packet::JoinedServer {
                agent_status,
                moderator_status,
                book_modified,
            } => PacketView::JoinedServer { agent_status, moderator_status, book_modified },
            Packet::LoadPlayer {
                gist,
                coins,
                safe_chat,
                egg_timer_minutes,
                penguin_standard_time,
                age,
                minutes_played,
                membership_days_remain,
                server_time_offset,
                opened_playercard,
                map_category,
                new_player_status,
            } => PacketView::LoadPlayer {
                gist: gist@,
                coins,
                safe_chat,
                egg_timer_minutes,
                penguin_standard_time,
                age,
                minutes_played,
                membership_days_remain,
                server_time_offset,
                opened_playercard,
            },
            Packet::GetInventory { items } => PacketView::GetInventory { items: items@ },
            Packet::GetBuddies {  } => PacketView::GetBuddies,
            Packet::GetIgnoreList {  } => PacketView::GetIgnoreList,
            Packet::GetPlayerStamps { player_id } => PacketView::GetPlayerStamps { player_id },
            Packet::QueryPlayerAwards { player_id } => PacketView::QueryPlayerAwards { player_id },
            Packet::GetMail {  } => PacketView::GetMail,
            Packet::GetLastRevision(revision) => PacketView::GetLastRevision(revision@),
            Packet::StartMailEngine { unread_mail_count, mail_count } => PacketView::StartMailEngine {
                unread_mail_count,
                mail_count,
            },
            Packet::GetEPFPoints { career_medals, agent_medals } => PacketView::GetEPFPoints {
                career_medals,
                agent_medals,
            },
            Packet::GetFieldOPStatus {  } => PacketView::GetFieldOPStatus,
            Packet::GetEPFAgentStatus {  } => PacketView::GetEPFAgentStatus,
            Packet::JoinRoom { room_id, players } => PacketView::JoinRoom {
                room_id,
                players: gist_views(players@),
            },
            Packet::AddedPlayer { player } => PacketView::AddedPlayer { player: player@ },
            Packet::GetWaddlePopulation {  } => PacketView::GetWaddlePopulation,
            Packet::GetPlayer { player } => PacketView::GetPlayer { player: player@ },
            Packet::SetPosition { player_id, x, y } => PacketView::SetPosition { player_id, x, y },
            Packet::SendMessage { player_id, message } => PacketView::SendMessage {
                player_id,
                message: message@,
            },
        }
    }
}

/// The protocol's error codes, by name.
#[derive(Clone, Copy, Debug, PartialEq, Eq)]
pub enum Error {
    ConnectionLost,
    TimeOut,
    MultiConnections,
    Disconnect,
    Kick,
    ConnectionNotAllowed,
    NameNotFound,
    PasswordWrong,
    ServerFull,
    OldSaltError,
    PasswordRequired,
    PasswordShort,
    PasswordLong,
    NameRequired,
    NameShort,
    NameLong,
    LoginFlooding,
    PlayerInRoom,
    RoomFull,
    GameFull,
    RoomCapacityRule,
    RoomDoesNotExist,
    AlreadyOwnInventoryItem,
    NotEnoughCoins,
    ItemNotExist,
    MaxFurnitureItems,
    NotEnoughMedals,
    MaxPufflecareItems,
    MaxPufflhatItems,
    AlreadyOwnSuperplayItem,
    MaxCjMats,
    ItemNotAvailable,
    PuffleLimit,
    NameNotAllowed,
    PuffleLimitNm,
    AlreadyOwnIgloo,
    AlreadyOwnFloor,
    AlreadyOwnLocation,
    BanDuration,
    BanAnHour,
    BanForever,
    AutoBan,
    HackingAutoBan,
    GameCheat,
    InvalidRoomIdSpecifiedInJJr,
    AccountNotActivate,
    BuddyLimit,
    PlayTimeUp,
    OutPlayTime,
    Grounded,
    PlayTimeEnding,
    PlayHoursEnding,
    PlayHoursUp,
    PlayHoursHasntStart,
    PlayHoursUpdate,
    SystemReboot,
    NotMember,
    NoDbConnection,
    NoSocketConnection,
    Timeout,
    PasswordSavePrompt,
    SocketLostConnection,
    LoadError,
    MaxIglooFurnitureError,
    MultipleConnections,
    ConnectionTimeout,
    MaxStampbookCoverItems,
    WebServiceLoadError,
    WebServiceSendError,
    ChromeMacLoginError,
    RedemptionConnectionLost,
    RedemptionAlreadyHaveItem,
    RedemptionServerFull,
    NameRequiredRedemption,
    NameShortRedemption,
    PasswordRequiredRedemption,
    PasswordShortRedemption,
    RedemptionBookIdNotExist,
    RedemptionBookAlreadyRedeemed,
    RedemptionWrongBookAnswer,
    RedemptionBookTooManyAttempts,
    RedemptionCodeNotFound,
    RedemptionCodeAlreadyRedeemed,
    RedemptionTooManyAttempts,
    RedemptionCatalogNotAvailable,
    RedemptionNoExclusiveRedeems,
    RedemptionCodeGroupRedeemed,
    RedemptionCodeExpired,
    RedemptionPufflesMax,
    RedemptionPuffleInvalid,
    RedemptionPuffleCodeMax,
    RedemptionCodeTooShort,
    RedemptionCodeTooLong,
    GoldenCodeNotReady,
    RedemptionPuffleNameEmpty,
}

impl Error {
    /// The number that the client knows the error by.
    pub open spec fn code(self) -> nat {
        match self {
            Error::ConnectionLost => 1,
            Error::TimeOut => 2,
            Error::MultiConnections => 3,
            Error::Disconnect => 4,
            Error::Kick => 5,
            Error::ConnectionNotAllowed => 6,
            Error::NameNotFound => 100,
            Error::PasswordWrong => 101,
            Error::ServerFull => 103,
            Error::OldSaltError => 104,
            Error::PasswordRequired => 130,
            Error::PasswordShort => 131,
            Error::PasswordLong => 132,
            Error::NameRequired => 140,
            Error::NameShort => 141,
            Error::NameLong => 142,
            Error::LoginFlooding => 150,
            Error::PlayerInRoom => 200,
            Error::RoomFull => 210,
            Error::GameFull => 211,
            Error::RoomCapacityRule => 212,
            Error::RoomDoesNotExist => 213,
            Error::AlreadyOwnInventoryItem => 400,
            Error::NotEnoughCoins => 401,
            Error::ItemNotExist => 402,
            Error::MaxFurnitureItems => 403,
            Error::NotEnoughMedals => 405,
            Error::MaxPufflecareItems => 406,
            Error::MaxPufflhatItems => 407,
            Error::AlreadyOwnSuperplayItem => 408,
            Error::MaxCjMats => 409,
            Error::ItemNotAvailable => 410,
            Error::PuffleLimit => 440,
            Error::NameNotAllowed => 441,
            Error::PuffleLimitNm => 442,
            Error::AlreadyOwnIgloo => 500,
            Error::AlreadyOwnFloor => 501,
            Error::AlreadyOwnLocation => 502,
            Error::BanDuration => 601,
            Error::BanAnHour => 602,
            Error::BanForever => 603,
            Error::AutoBan => 610,
            Error::HackingAutoBan => 611,
            Error::GameCheat => 800,
            Error::InvalidRoomIdSpecifiedInJJr => 851,
            Error::AccountNotActivate => 900,
            Error::BuddyLimit => 901,
            Error::PlayTimeUp => 910,
            Error::OutPlayTime => 911,
            Error::Grounded => 913,
            Error::PlayTimeEnding => 914,
            Error::PlayHoursEnding => 915,
            Error::PlayHoursUp => 916,
            Error::PlayHoursHasntStart => 917,
            Error::PlayHoursUpdate => 918,
            Error::SystemReboot => 990,
            Error::NotMember => 999,
            Error::NoDbConnection => 1000,
            Error::NoSocketConnection => 10001,
            Error::Timeout => 10002,
            Error::PasswordSavePrompt => 10003,
            Error::SocketLostConnection => 10004,
            Error::LoadError => 10005,
            Error::MaxIglooFurnitureError => 10006,
            Error::MultipleConnections => 10007,
            Error::ConnectionTimeout => 10008,
            Error::MaxStampbookCoverItems => 10009,
            Error::WebServiceLoadError => 10010,
            Error::WebServiceSendError => 10011,
            Error::ChromeMacLoginError => 10104,
            Error::RedemptionConnectionLost => 20001,
            Error::RedemptionAlreadyHaveItem => 20002,
            Error::RedemptionServerFull => 20103,
            Error::NameRequiredRedemption => 20140,
            Error::NameShortRedemption => 20141,
            Error::PasswordRequiredRedemption => 20130,
            Error::PasswordShortRedemption => 20131,
            Error::RedemptionBookIdNotExist => 20710,
            Error::RedemptionBookAlreadyRedeemed => 20711,
            Error::RedemptionWrongBookAnswer => 20712,
            Error::RedemptionBookTooManyAttempts => 20713,
            Error::RedemptionCodeNotFound => 20720,
            Error::RedemptionCodeAlreadyRedeemed => 20721,
            Error::RedemptionTooManyAttempts => 20722,
            Error::RedemptionCatalogNotAvailable => 20723,
            Error::RedemptionNoExclusiveRedeems => 20724,
            Error::RedemptionCodeGroupRedeemed => 20725,
            Error::RedemptionCodeExpired => 20726,
            Error::RedemptionPufflesMax => 20730,
            Error::RedemptionPuffleInvalid => 21700,
            Error::RedemptionPuffleCodeMax => 21701,
            Error::RedemptionCodeTooShort => 21702,
            Error::RedemptionCodeTooLong => 21703,
            Error::GoldenCodeNotReady => 21704,
            Error::RedemptionPuffleNameEmpty => 21705,
        }
    }

    /// The number that the client knows the error by.
    pub fn wire_code(&self) -> (out: u32)
        ensures
            out == self.code(),
    {
        match self {
            Error::ConnectionLost => 1,
            Error::TimeOut => 2,
            Error::MultiConnections => 3,
            Error::Disconnect => 4,
            Error::Kick => 5,
            Error::ConnectionNotAllowed => 6,
            Error::NameNotFound => 100,
            Error::PasswordWrong => 101,
            Error::ServerFull => 103,
            Error::OldSaltError => 104,
            Error::PasswordRequired => 130,
            Error::PasswordShort => 131,
            Error::PasswordLong => 132,
            Error::NameRequired => 140,
            Error::NameShort => 141,
            Error::NameLong => 142,
            Error::LoginFlooding => 150,
            Error::PlayerInRoom => 200,
            Error::RoomFull => 210,
            Error::GameFull => 211,
            Error::RoomCapacityRule => 212,
            Error::RoomDoesNotExist => 213,
            Error::AlreadyOwnInventoryItem => 400,
            Error::NotEnoughCoins => 401,
            Error::ItemNotExist => 402,
            Error::MaxFurnitureItems => 403,
            Error::NotEnoughMedals => 405,
            Error::MaxPufflecareItems => 406,
            Error::MaxPufflhatItems => 407,
            Error::AlreadyOwnSuperplayItem => 408,
            Error::MaxCjMats => 409,
            Error::ItemNotAvailable => 410,
            Error::PuffleLimit => 440,
            Error::NameNotAllowed => 441,
            Error::PuffleLimitNm => 442,
            Error::AlreadyOwnIgloo => 500,
            Error::AlreadyOwnFloor => 501,
            Error::AlreadyOwnLocation => 502,
            Error::BanDuration => 601,
            Error::BanAnHour => 602,
            Error::BanForever => 603,
            Error::AutoBan => 610,
            Error::HackingAutoBan => 611,
            Error::GameCheat => 800,
            Error::InvalidRoomIdSpecifiedInJJr => 851,
            Error::AccountNotActivate => 900,
            Error::BuddyLimit => 901,
            Error::PlayTimeUp => 910,
            Error::OutPlayTime => 911,
            Error::Grounded => 913,
            Error::PlayTimeEnding => 914,
            Error::PlayHoursEnding => 915,
            Error::PlayHoursUp => 916,
            Error::PlayHoursHasntStart => 917,
            Error::PlayHoursUpdate => 918,
            Error::SystemReboot => 990,
            Error::NotMember => 999,
            Error::NoDbConnection => 1000,
            Error::NoSocketConnection => 10001,
            Error::Timeout => 10002,
            Error::PasswordSavePrompt => 10003,
            Error::SocketLostConnection => 10004,
            Error::LoadError => 10005,
            Error::MaxIglooFurnitureError => 10006,
            Error::MultipleConnections => 10007,
            Error::ConnectionTimeout => 10008,
            Error::MaxStampbookCoverItems => 10009,
            Error::WebServiceLoadError => 10010,
            Error::WebServiceSendError => 10011,
            Error::ChromeMacLoginError => 10104,
            Error::RedemptionConnectionLost => 20001,
            Error::RedemptionAlreadyHaveItem => 20002,
            Error::RedemptionServerFull => 20103,
            Error::NameRequiredRedemption => 20140,
            Error::NameShortRedemption => 20141,
            Error::PasswordRequiredRedemption => 20130,
            Error::PasswordShortRedemption => 20131,
            Error::RedemptionBookIdNotExist => 20710,
            Error::RedemptionBookAlreadyRedeemed => 20711,
            Error::RedemptionWrongBookAnswer => 20712,
            Error::RedemptionBookTooManyAttempts => 20713,
            Error::RedemptionCodeNotFound => 20720,
            Error::RedemptionCodeAlreadyRedeemed => 20721,
            Error::RedemptionTooManyAttempts => 20722,
            Error::RedemptionCatalogNotAvailable => 20723,
            Error::RedemptionNoExclusiveRedeems => 20724,
            Error::RedemptionCodeGroupRedeemed => 20725,
            Error::RedemptionCodeExpired => 20726,
            Error::RedemptionPufflesMax => 20730,
            Error::RedemptionPuffleInvalid => 21700,
            Error::RedemptionPuffleCodeMax => 21701,
            Error::RedemptionCodeTooShort => 21702,
            Error::RedemptionCodeTooLong => 21703,
            Error::GoldenCodeNotReady => 21704,
            Error::RedemptionPuffleNameEmpty => 21705,
        }
    }
}

} // verus!
