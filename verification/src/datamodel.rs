//! What the game knows of a player, and how it is written for clients.

use vstd::prelude::*;
use crate::text::{
    decimal, decimal_string, flag_string, flag_text, is_digit, join, join_strings,
    lemma_decimal_lacks, lemma_join_lacks, lemma_signed_decimal_lacks, push_char, signed_decimal,
    signed_decimal_string, texts,
};

verus! {

pub type ItemId = usize;

pub type PlayerId = usize;

pub type RoomId = usize;

#[derive(Debug, Clone, Copy, PartialEq, Eq)]
pub enum MapCategory {
    Normal,
}

/// What other clients are told of a player.
#[derive(Debug, Clone, PartialEq, Eq)]
pub struct PlayerGist {
    pub id: PlayerId,
    pub nickname: String,
    pub approval: bool,
    pub color: ItemId,
    pub head: ItemId,
    pub face: ItemId,
    pub neck: ItemId,
    pub body: ItemId,
    pub hand: ItemId,
    pub feet: ItemId,
    pub flag: ItemId,
    pub photo: ItemId,
    pub x: isize,
    pub y: isize,
    pub frame: u8,
    pub member: bool,
    pub membership_days: u32,
    pub avatar: ItemId,
    pub puffle_state: PlayerPuffleGist,
}

/// A `PlayerGist` as plain values.
pub struct PlayerGistView {
    pub id: PlayerId,
    pub nickname: Seq<char>,
    pub approval: bool,
    pub color: ItemId,
    pub head: ItemId,
    pub face: ItemId,
    pub neck: ItemId,
    pub body: ItemId,
    pub hand: ItemId,
    pub feet: ItemId,
    pub flag: ItemId,
    pub photo: ItemId,
    pub x: isize,
    pub y: isize,
    pub frame: u8,
    pub member: bool,
    pub membership_days: u32,
    pub avatar: ItemId,
}

impl View for PlayerGist {
    type V = PlayerGistView;

    open spec fn view(&self) -> PlayerGistView {
        PlayerGistView {
            id: self.id,
            nickname: self.nickname@,
            approval: self.approval,
            color: self.color,
            head: self.head,
            face: self.face,
            neck: self.neck,
            body: self.body,
            hand: self.hand,
            feet: self.feet,
            flag: self.flag,
            photo: self.photo,
            x: self.x,
            y: self.y,
            frame: self.frame,
            member: self.member,
            membership_days: self.membership_days,
            avatar: self.avatar,
        }
    }
}

#[derive(Debug, Clone, Copy, PartialEq, Eq)]
pub struct PlayerStampsGist {}

#[derive(Debug, Clone, Copy, PartialEq, Eq)]
pub struct NewPlayerStatus {}

#[derive(Debug, Clone, Copy, PartialEq, Eq)]
pub struct PlayerPuffleGist {}

/// The views of a sequence of gists.
pub open spec fn gist_views(v: Seq<PlayerGist>) -> Seq<PlayerGistView> {
    Seq::new(v.len(), |i: int| v[i]@)
}

/// What stands for the puffle state: four separators, that is five empty
/// sub-fields.
pub open spec fn puffle_text() -> Seq<char> {
    seq!['|', '|', '|', '|']
}

impl PlayerGistView {
    /// The fields of the gist string, in order.
    pub open spec fn fields(self) -> Seq<Seq<char>> {
        seq![
            decimal(self.id as nat),
            self.nickname,
            flag_text(self.approval),
            decimal(self.color as nat),
            decimal(self.head as nat),
            decimal(self.face as nat),
            decimal(self.neck as nat),
            decimal(self.body as nat),
            decimal(self.hand as nat),
            decimal(self.feet as nat),
            decimal(self.flag as nat),
            decimal(self.photo as nat),
            signed_decimal(self.x as int),
            signed_decimal(self.y as int),
            decimal(self.frame as nat),
            flag_text(self.member),
            decimal(self.membership_days as nat),
            decimal(self.avatar as nat),
            seq!['0'],
            seq!['0'],
            puffle_text(),
        ]
    }

    /// The gist string: the fields with `|` between them.
    pub open spec fn text(self) -> Seq<char> {
        join(self.fields(), '|')
    }
}

/// A gist string holds digits, signs, `|` and the nickname: a character that
/// is none of these and not in the nickname is not in the gist string.
pub proof fn lemma_gist_text_lacks(gist: PlayerGistView, c: char)
    requires
        !is_digit(c),
        c != '-',
        c != '|',
        !gist.nickname.contains(c),
    ensures
        !gist.text().contains(c),
{
    let f = gist.fields();
    assert forall|i: int| 0 <= i < f.len() implies !(#[trigger] f[i]).contains(c) by {
        lemma_decimal_lacks(gist.id as nat, c);
        lemma_decimal_lacks(gist.color as nat, c);
        lemma_decimal_lacks(gist.head as nat, c);
        lemma_decimal_lacks(gist.face as nat, c);
        lemma_decimal_lacks(gist.neck as nat, c);
        lemma_decimal_lacks(gist.body as nat, c);
        lemma_decimal_lacks(gist.hand as nat, c);
        lemma_decimal_lacks(gist.feet as nat, c);
        lemma_decimal_lacks(gist.flag as nat, c);
        lemma_decimal_lacks(gist.photo as nat, c);
        lemma_signed_decimal_lacks(gist.x as int, c);
        lemma_signed_decimal_lacks(gist.y as int, c);
        lemma_decimal_lacks(gist.frame as nat, c);
        lemma_decimal_lacks(gist.membership_days as nat, c);
        lemma_decimal_lacks(gist.avatar as nat, c);
    }
    lemma_join_lacks(f, '|', c);
}

/// Serialized information used in communication.
pub trait IntoPlayerGistString {
    fn into_gist_string(self) -> String;
}

impl PlayerGist {
    /// A copy of the gist.
    pub fn duplicate(&self) -> (out: PlayerGist)
        ensures
            out@ == self@,
    {
        PlayerGist {
            id: self.id,
            nickname: self.nickname.clone(),
            approval: self.approval,
            color: self.color,
            head: self.head,
            face: self.face,
            neck: self.neck,
            body: self.body,
            hand: self.hand,
            feet: self.feet,
            flag: self.flag,
            photo: self.photo,
            x: self.x,
            y: self.y,
            frame: self.frame,
            member: self.member,
            membership_days: self.membership_days,
            avatar: self.avatar,
            puffle_state: PlayerPuffleGist {  },
        }
    }
}

impl IntoPlayerGistString for PlayerGist {
    fn into_gist_string(self) -> (out: String)
        ensures
            out@ == self@.text(),
    {
        let mut fields: Vec<String> = Vec::new();
        fields.push(decimal_string(self.id as u64));
        fields.push(self.nickname);
        fields.push(flag_string(self.approval));
        fields.push(decimal_string(self.color as u64));
        fields.push(decimal_string(self.head as u64));
        fields.push(decimal_string(self.face as u64));
        fields.push(decimal_string(self.neck as u64));
        fields.push(decimal_string(self.body as u64));
        fields.push(decimal_string(self.hand as u64));
        fields.push(decimal_string(self.feet as u64));
        fields.push(decimal_string(self.flag as u64));
        fields.push(decimal_string(self.photo as u64));
        fields.push(signed_decimal_string(self.x as i64));
        fields.push(signed_decimal_string(self.y as i64));
        fields.push(decimal_string(self.frame as u64));
        fields.push(flag_string(self.member));
        fields.push(decimal_string(self.membership_days as u64));
        fields.push(decimal_string(self.avatar as u64));
        fields.push(decimal_string(0));
        fields.push(decimal_string(0));
        let mut puffle = String::new();
        push_char(&mut puffle, '|');
        push_char(&mut puffle, '|');
        push_char(&mut puffle, '|');
        push_char(&mut puffle, '|');
        assert(puffle@ =~= puffle_text());
        fields.push(puffle);
        assert(decimal(0) =~= seq!['0']);
        assert(texts(fields@) =~= self@.fields());
        join_strings(&fields, '|')
    }
}

} // verus!
