//! What kind of channel a channel is.

use vstd::prelude::*;

verus! {

/// Channel kind. `Unknown` must stay: kinds are added without notice.
#[derive(Debug, Clone, Copy, PartialEq, Eq, Structural)]
pub enum ChannelKind {
    GuildText,
    Dm,
    GuildVoice,
    GroupDm,
    GuildCategory,
    GuildAnnouncement,
    AnnouncementThread,
    PublicThread,
    PrivateThread,
    GuildStageVoice,
    GuildForum,
    /// A kind this client does not know. Not drawn, but not fatal.
    Unknown(u8),
}

pub open spec fn kind_of(v: u8) -> ChannelKind {
    match v {
        0 => ChannelKind::GuildText,
        1 => ChannelKind::Dm,
        2 => ChannelKind::GuildVoice,
        3 => ChannelKind::GroupDm,
        4 => ChannelKind::GuildCategory,
        5 => ChannelKind::GuildAnnouncement,
        10 => ChannelKind::AnnouncementThread,
        11 => ChannelKind::PublicThread,
        12 => ChannelKind::PrivateThread,
        13 => ChannelKind::GuildStageVoice,
        15 => ChannelKind::GuildForum,
        other => ChannelKind::Unknown(other),
    }
}

pub open spec fn kind_number(k: ChannelKind) -> u8 {
    match k {
        ChannelKind::GuildText => 0,
        ChannelKind::Dm => 1,
        ChannelKind::GuildVoice => 2,
        ChannelKind::GroupDm => 3,
        ChannelKind::GuildCategory => 4,
        ChannelKind::GuildAnnouncement => 5,
        ChannelKind::AnnouncementThread => 10,
        ChannelKind::PublicThread => 11,
        ChannelKind::PrivateThread => 12,
        ChannelKind::GuildStageVoice => 13,
        ChannelKind::GuildForum => 15,
        ChannelKind::Unknown(v) => v,
    }
}

impl vstd::std_specs::convert::FromSpecImpl<u8> for ChannelKind {
    open spec fn obeys_from_spec() -> bool {
        true
    }

    open spec fn from_spec(v: u8) -> ChannelKind {
        kind_of(v)
    }
}

impl From<u8> for ChannelKind {
    fn from(v: u8) -> (r: ChannelKind) {
        kind_from(v)
    }
}

/// The kind that a number stands for.
pub fn kind_from(v: u8) -> (r: ChannelKind)
    ensures
        r == kind_of(v),
{
    match v {
        0 => ChannelKind::GuildText,
        1 => ChannelKind::Dm,
        2 => ChannelKind::GuildVoice,
        3 => ChannelKind::GroupDm,
        4 => ChannelKind::GuildCategory,
        5 => ChannelKind::GuildAnnouncement,
        10 => ChannelKind::AnnouncementThread,
        11 => ChannelKind::PublicThread,
        12 => ChannelKind::PrivateThread,
        13 => ChannelKind::GuildStageVoice,
        15 => ChannelKind::GuildForum,
        other => ChannelKind::Unknown(other),
    }
}

impl vstd::std_specs::convert::FromSpecImpl<ChannelKind> for u8 {
    open spec fn obeys_from_spec() -> bool {
        true
    }

    open spec fn from_spec(k: ChannelKind) -> u8 {
        kind_number(k)
    }
}

impl From<ChannelKind> for u8 {
    fn from(k: ChannelKind) -> (r: u8) {
        match k {
            ChannelKind::GuildText => 0,
            ChannelKind::Dm => 1,
            ChannelKind::GuildVoice => 2,
            ChannelKind::GroupDm => 3,
            ChannelKind::GuildCategory => 4,
            ChannelKind::GuildAnnouncement => 5,
            ChannelKind::AnnouncementThread => 10,
            ChannelKind::PublicThread => 11,
            ChannelKind::PrivateThread => 12,
            ChannelKind::GuildStageVoice => 13,
            ChannelKind::GuildForum => 15,
            ChannelKind::Unknown(v) => v,
        }
    }
}

/// Whatever number a kind travels as comes back unchanged, known or not.
pub proof fn kind_numbers_survive(v: u8)
    ensures
        kind_number(kind_of(v)) == v,
{
}

/// Every known kind comes back from its number.
pub proof fn known_kinds_round_trip(k: ChannelKind)
    requires
        !(k is Unknown),
    ensures
        kind_of(kind_number(k)) == k,
{
}

pub open spec fn kind_is_text(k: ChannelKind) -> bool {
    k is GuildText || k is Dm || k is GroupDm || k is GuildAnnouncement
}

pub open spec fn kind_icon(k: ChannelKind) -> Seq<char> {
    if k is GuildVoice || k is GuildStageVoice {
        "channel.voice"@
    } else {
        "channel.text"@
    }
}

impl ChannelKind {
    /// Whether text can be read and written here.
    pub fn is_text(self) -> (r: bool)
        ensures
            r == kind_is_text(self),
    {
        matches!(
            self,
            ChannelKind::GuildText | ChannelKind::Dm | ChannelKind::GroupDm
                | ChannelKind::GuildAnnouncement
        )
    }

    /// A heading, not something that opens.
    pub fn is_category(self) -> (r: bool)
        ensures
            r == (self is GuildCategory),
    {
        matches!(self, ChannelKind::GuildCategory)
    }

    /// Renderer icon name.
    pub fn icon(self) -> (r: &'static str)
        ensures
            r@ == kind_icon(self),
    {
        match self {
            ChannelKind::GuildVoice | ChannelKind::GuildStageVoice => "channel.voice",
            _ => "channel.text",
        }
    }
}

} // verus!
