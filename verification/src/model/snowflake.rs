//! Identifiers.
//!
//! Distinct types per kind, so that passing a channel id where a guild id
//! belongs fails to compile.
//!
//! 64-bit ids travel as JSON *strings*, because JavaScript numbers are only
//! exact to 53 bits. The conversion is confined here.

use vstd::prelude::*;
use crate::json::{Json, Value};
use crate::text;

verus! {

/// A 64-bit identifier.
///
/// The high 42 bits hold milliseconds since the service's epoch, so id order
/// is creation order and can be used for sorting.
#[derive(Debug, Clone, Copy, PartialEq, Eq, Structural, PartialOrd, Ord, Hash)]
pub struct Snowflake(pub u64);

/// 2015-01-01T00:00:00Z in UNIX milliseconds.
pub const DISCORD_EPOCH_MS: u64 = 1_420_070_400_000;

/// The text is no 64-bit number.
#[derive(Debug, Clone, Copy, PartialEq, Eq, Structural)]
pub struct BadId;

/// The number that an id's text writes: digits, a leading `+` allowed.
pub open spec fn id_of(s: Seq<char>) -> Option<u64> {
    if s.len() > 0 && s[0] == '+' {
        text::number(s.skip(1))
    } else {
        text::number(s)
    }
}

/// The creation time that an id carries, in UNIX milliseconds.
pub open spec fn created_ms(id: u64) -> u64 {
    (id / 0x40_0000 + DISCORD_EPOCH_MS) as u64
}

/// The id in a JSON value: text is the norm, a number is accepted too.
pub open spec fn id_value(v: Value) -> Option<u64> {
    match v {
        Value::Text(t) => id_of(t),
        _ => v.unsigned(),
    }
}

impl Snowflake {
    pub fn get(self) -> (r: u64)
        ensures
            r == self.0,
    {
        self.0
    }

    /// Creation time in UNIX milliseconds, carried by the id itself.
    pub fn created_at_ms(self) -> (r: u64)
        ensures
            r == created_ms(self.0),
    {
        self.0 / 0x40_0000 + DISCORD_EPOCH_MS
    }

    /// The decimal digits.
    pub fn to_string(self) -> (r: String)
        ensures
            r@ == text::dec(self.0 as nat),
    {
        text::dec_string(self.0)
    }

    /// Reads an id from its decimal digits.
    pub fn from_str(s: &str) -> (r: Result<Snowflake, BadId>)
        ensures
            match r {
                Ok(id) => id_of(s@) == Some(id.0),
                Err(_) => id_of(s@) is None,
            },
    {
        let c = text::chars(s);
        let from: usize = if c.len() > 0 && c[0] == '+' { 1 } else { 0 };
        let digits = vstd::slice::slice_subrange(c.as_slice(), from, c.len());
        assert(digits@ =~= if from == 1 { s@.skip(1) } else { s@ });
        match text::parse_number(digits) {
            Some(n) => Ok(Snowflake(n)),
            None => Err(BadId),
        }
    }

    /// How an id travels: as a string, since a number loses precision on the
    /// JavaScript side.
    pub fn to_json(self) -> (r: Json)
        ensures
            r@ == Value::Text(text::dec(self.0 as nat)),
    {
        Json::Text(self.to_string())
    }

    /// Reads an id as it travels. Strings are the norm, but numbers are
    /// accepted too rather than failing on the sender's choice of encoding.
    pub fn from_json(v: &Json) -> (r: Option<Snowflake>)
        ensures
            match r {
                Some(id) => id_value(v@) == Some(id.0),
                None => id_value(v@) is None,
            },
    {
        match v {
            Json::Text(t) => match Snowflake::from_str(t.as_str()) {
                Ok(id) => Some(id),
                Err(_) => None,
            },
            _ => match v.as_unsigned() {
                Some(n) => Some(Snowflake(n)),
                None => None,
            },
        }
    }
}

impl vstd::std_specs::convert::FromSpecImpl<u64> for Snowflake {
    open spec fn obeys_from_spec() -> bool {
        true
    }

    open spec fn from_spec(v: u64) -> Snowflake {
        Snowflake(v)
    }
}

impl From<u64> for Snowflake {
    fn from(v: u64) -> (r: Snowflake) {
        Snowflake(v)
    }
}

/// Id order is creation order: what has the smaller id was not created later.
pub proof fn ids_sort_by_creation(a: Snowflake, b: Snowflake)
    requires
        a.0 <= b.0,
    ensures
        created_ms(a.0) <= created_ms(b.0),
{
}

/// An id that was sent is read back, and so is one that came as a number.
pub proof fn ids_travel_unchanged(id: Snowflake)
    ensures
        id_value(Value::Text(text::dec(id.0 as nat))) == Some(id.0),
        id_value(Value::Number(crate::json::Number::Unsigned(id.0))) == Some(id.0),
{
    text::dec_reads_back(id.0 as nat);
    assert(text::is_digit(text::dec(id.0 as nat)[0]));
}

/// A guild (server).
#[derive(Debug, Clone, Copy, PartialEq, Eq, Structural, PartialOrd, Ord, Hash)]
pub struct GuildId(pub Snowflake);

impl GuildId {
    pub fn get(self) -> (r: u64)
        ensures
            r == self.0.0,
    {
        self.0.get()
    }

    pub fn created_at_ms(self) -> (r: u64)
        ensures
            r == created_ms(self.0.0),
    {
        self.0.created_at_ms()
    }

    pub fn to_string(self) -> (r: String)
        ensures
            r@ == text::dec(self.0.0 as nat),
    {
        self.0.to_string()
    }

    pub fn to_json(self) -> (r: Json)
        ensures
            r@ == Value::Text(text::dec(self.0.0 as nat)),
    {
        self.0.to_json()
    }

    pub fn from_json(v: &Json) -> (r: Option<GuildId>)
        ensures
            match r {
                Some(id) => id_value(v@) == Some(id.0.0),
                None => id_value(v@) is None,
            },
    {
        match Snowflake::from_json(v) {
            Some(id) => Some(GuildId(id)),
            None => None,
        }
    }
}

impl vstd::std_specs::convert::FromSpecImpl<u64> for GuildId {
    open spec fn obeys_from_spec() -> bool {
        true
    }

    open spec fn from_spec(v: u64) -> GuildId {
        GuildId(Snowflake(v))
    }
}

impl From<u64> for GuildId {
    fn from(v: u64) -> (r: GuildId) {
        GuildId(Snowflake(v))
    }
}

impl vstd::std_specs::convert::FromSpecImpl<Snowflake> for GuildId {
    open spec fn obeys_from_spec() -> bool {
        true
    }

    open spec fn from_spec(v: Snowflake) -> GuildId {
        GuildId(v)
    }
}

impl From<Snowflake> for GuildId {
    fn from(v: Snowflake) -> (r: GuildId) {
        GuildId(v)
    }
}

/// A channel, including DMs.
#[derive(Debug, Clone, Copy, PartialEq, Eq, Structural, PartialOrd, Ord, Hash)]
pub struct ChannelId(pub Snowflake);

impl ChannelId {
    pub fn get(self) -> (r: u64)
        ensures
            r == self.0.0,
    {
        self.0.get()
    }

    pub fn created_at_ms(self) -> (r: u64)
        ensures
            r == created_ms(self.0.0),
    {
        self.0.created_at_ms()
    }

    pub fn to_string(self) -> (r: String)
        ensures
            r@ == text::dec(self.0.0 as nat),
    {
        self.0.to_string()
    }

    pub fn to_json(self) -> (r: Json)
        ensures
            r@ == Value::Text(text::dec(self.0.0 as nat)),
    {
        self.0.to_json()
    }

    pub fn from_json(v: &Json) -> (r: Option<ChannelId>)
        ensures
            match r {
                Some(id) => id_value(v@) == Some(id.0.0),
                None => id_value(v@) is None,
            },
    {
        match Snowflake::from_json(v) {
            Some(id) => Some(ChannelId(id)),
            None => None,
        }
    }
}

impl vstd::std_specs::convert::FromSpecImpl<u64> for ChannelId {
    open spec fn obeys_from_spec() -> bool {
        true
    }

    open spec fn from_spec(v: u64) -> ChannelId {
        ChannelId(Snowflake(v))
    }
}

impl From<u64> for ChannelId {
    fn from(v: u64) -> (r: ChannelId) {
        ChannelId(Snowflake(v))
    }
}

impl vstd::std_specs::convert::FromSpecImpl<Snowflake> for ChannelId {
    open spec fn obeys_from_spec() -> bool {
        true
    }

    open spec fn from_spec(v: Snowflake) -> ChannelId {
        ChannelId(v)
    }
}

impl From<Snowflake> for ChannelId {
    fn from(v: Snowflake) -> (r: ChannelId) {
        ChannelId(v)
    }
}

/// A message.
#[derive(Debug, Clone, Copy, PartialEq, Eq, Structural, PartialOrd, Ord, Hash)]
pub struct MessageId(pub Snowflake);

impl MessageId {
    pub fn get(self) -> (r: u64)
        ensures
            r == self.0.0,
    {
        self.0.get()
    }

    pub fn created_at_ms(self) -> (r: u64)
        ensures
            r == created_ms(self.0.0),
    {
        self.0.created_at_ms()
    }

    pub fn to_string(self) -> (r: String)
        ensures
            r@ == text::dec(self.0.0 as nat),
    {
        self.0.to_string()
    }

    pub fn to_json(self) -> (r: Json)
        ensures
            r@ == Value::Text(text::dec(self.0.0 as nat)),
    {
        self.0.to_json()
    }

    pub fn from_json(v: &Json) -> (r: Option<MessageId>)
        ensures
            match r {
                Some(id) => id_value(v@) == Some(id.0.0),
                None => id_value(v@) is None,
            },
    {
        match Snowflake::from_json(v) {
            Some(id) => Some(MessageId(id)),
            None => None,
        }
    }
}

impl vstd::std_specs::convert::FromSpecImpl<u64> for MessageId {
    open spec fn obeys_from_spec() -> bool {
        true
    }

    open spec fn from_spec(v: u64) -> MessageId {
        MessageId(Snowflake(v))
    }
}

impl From<u64> for MessageId {
    fn from(v: u64) -> (r: MessageId) {
        MessageId(Snowflake(v))
    }
}

impl vstd::std_specs::convert::FromSpecImpl<Snowflake> for MessageId {
    open spec fn obeys_from_spec() -> bool {
        true
    }

    open spec fn from_spec(v: Snowflake) -> MessageId {
        MessageId(v)
    }
}

impl From<Snowflake> for MessageId {
    fn from(v: Snowflake) -> (r: MessageId) {
        MessageId(v)
    }
}

/// A user.
#[derive(Debug, Clone, Copy, PartialEq, Eq, Structural, PartialOrd, Ord, Hash)]
pub struct UserId(pub Snowflake);

impl UserId {
    pub fn get(self) -> (r: u64)
        ensures
            r == self.0.0,
    {
        self.0.get()
    }

    pub fn created_at_ms(self) -> (r: u64)
        ensures
            r == created_ms(self.0.0),
    {
        self.0.created_at_ms()
    }

    pub fn to_string(self) -> (r: String)
        ensures
            r@ == text::dec(self.0.0 as nat),
    {
        self.0.to_string()
    }

    pub fn to_json(self) -> (r: Json)
        ensures
            r@ == Value::Text(text::dec(self.0.0 as nat)),
    {
        self.0.to_json()
    }

    pub fn from_json(v: &Json) -> (r: Option<UserId>)
        ensures
            match r {
                Some(id) => id_value(v@) == Some(id.0.0),
                None => id_value(v@) is None,
            },
    {
        match Snowflake::from_json(v) {
            Some(id) => Some(UserId(id)),
            None => None,
        }
    }
}

impl vstd::std_specs::convert::FromSpecImpl<u64> for UserId {
    open spec fn obeys_from_spec() -> bool {
        true
    }

    open spec fn from_spec(v: u64) -> UserId {
        UserId(Snowflake(v))
    }
}

impl From<u64> for UserId {
    fn from(v: u64) -> (r: UserId) {
        UserId(Snowflake(v))
    }
}

impl vstd::std_specs::convert::FromSpecImpl<Snowflake> for UserId {
    open spec fn obeys_from_spec() -> bool {
        true
    }

    open spec fn from_spec(v: Snowflake) -> UserId {
        UserId(v)
    }
}

impl From<Snowflake> for UserId {
    fn from(v: Snowflake) -> (r: UserId) {
        UserId(v)
    }
}

/// An attachment.
#[derive(Debug, Clone, Copy, PartialEq, Eq, Structural, PartialOrd, Ord, Hash)]
pub struct AttachmentId(pub Snowflake);

impl AttachmentId {
    pub fn get(self) -> (r: u64)
        ensures
            r == self.0.0,
    {
        self.0.get()
    }

    pub fn created_at_ms(self) -> (r: u64)
        ensures
            r == created_ms(self.0.0),
    {
        self.0.created_at_ms()
    }

    pub fn to_string(self) -> (r: String)
        ensures
            r@ == text::dec(self.0.0 as nat),
    {
        self.0.to_string()
    }

    pub fn to_json(self) -> (r: Json)
        ensures
            r@ == Value::Text(text::dec(self.0.0 as nat)),
    {
        self.0.to_json()
    }

    pub fn from_json(v: &Json) -> (r: Option<AttachmentId>)
        ensures
            match r {
                Some(id) => id_value(v@) == Some(id.0.0),
                None => id_value(v@) is None,
            },
    {
        match Snowflake::from_json(v) {
            Some(id) => Some(AttachmentId(id)),
            None => None,
        }
    }
}

impl vstd::std_specs::convert::FromSpecImpl<u64> for AttachmentId {
    open spec fn obeys_from_spec() -> bool {
        true
    }

    open spec fn from_spec(v: u64) -> AttachmentId {
        AttachmentId(Snowflake(v))
    }
}

impl From<u64> for AttachmentId {
    fn from(v: u64) -> (r: AttachmentId) {
        AttachmentId(Snowflake(v))
    }
}

impl vstd::std_specs::convert::FromSpecImpl<Snowflake> for AttachmentId {
    open spec fn obeys_from_spec() -> bool {
        true
    }

    open spec fn from_spec(v: Snowflake) -> AttachmentId {
        AttachmentId(v)
    }
}

impl From<Snowflake> for AttachmentId {
    fn from(v: Snowflake) -> (r: AttachmentId) {
        AttachmentId(v)
    }
}

/// A role.
#[derive(Debug, Clone, Copy, PartialEq, Eq, Structural, PartialOrd, Ord, Hash)]
pub struct RoleId(pub Snowflake);

impl RoleId {
    pub fn get(self) -> (r: u64)
        ensures
            r == self.0.0,
    {
        self.0.get()
    }

    pub fn created_at_ms(self) -> (r: u64)
        ensures
            r == created_ms(self.0.0),
    {
        self.0.created_at_ms()
    }

    pub fn to_string(self) -> (r: String)
        ensures
            r@ == text::dec(self.0.0 as nat),
    {
        self.0.to_string()
    }

    pub fn to_json(self) -> (r: Json)
        ensures
            r@ == Value::Text(text::dec(self.0.0 as nat)),
    {
        self.0.to_json()
    }

    pub fn from_json(v: &Json) -> (r: Option<RoleId>)
        ensures
            match r {
                Some(id) => id_value(v@) == Some(id.0.0),
                None => id_value(v@) is None,
            },
    {
        match Snowflake::from_json(v) {
            Some(id) => Some(RoleId(id)),
            None => None,
        }
    }
}

impl vstd::std_specs::convert::FromSpecImpl<u64> for RoleId {
    open spec fn obeys_from_spec() -> bool {
        true
    }

    open spec fn from_spec(v: u64) -> RoleId {
        RoleId(Snowflake(v))
    }
}

impl From<u64> for RoleId {
    fn from(v: u64) -> (r: RoleId) {
        RoleId(Snowflake(v))
    }
}

impl vstd::std_specs::convert::FromSpecImpl<Snowflake> for RoleId {
    open spec fn obeys_from_spec() -> bool {
        true
    }

    open spec fn from_spec(v: Snowflake) -> RoleId {
        RoleId(v)
    }
}

impl From<Snowflake> for RoleId {
    fn from(v: Snowflake) -> (r: RoleId) {
        RoleId(v)
    }
}

/// A custom emoji.
#[derive(Debug, Clone, Copy, PartialEq, Eq, Structural, PartialOrd, Ord, Hash)]
pub struct EmojiId(pub Snowflake);

impl EmojiId {
    pub fn get(self) -> (r: u64)
        ensures
            r == self.0.0,
    {
        self.0.get()
    }

    pub fn created_at_ms(self) -> (r: u64)
        ensures
            r == created_ms(self.0.0),
    {
        self.0.created_at_ms()
    }

    pub fn to_string(self) -> (r: String)
        ensures
            r@ == text::dec(self.0.0 as nat),
    {
        self.0.to_string()
    }

    pub fn to_json(self) -> (r: Json)
        ensures
            r@ == Value::Text(text::dec(self.0.0 as nat)),
    {
        self.0.to_json()
    }

    pub fn from_json(v: &Json) -> (r: Option<EmojiId>)
        ensures
            match r {
                Some(id) => id_value(v@) == Some(id.0.0),
                None => id_value(v@) is None,
            },
    {
        match Snowflake::from_json(v) {
            Some(id) => Some(EmojiId(id)),
            None => None,
        }
    }
}

impl vstd::std_specs::convert::FromSpecImpl<u64> for EmojiId {
    open spec fn obeys_from_spec() -> bool {
        true
    }

    open spec fn from_spec(v: u64) -> EmojiId {
        EmojiId(Snowflake(v))
    }
}

impl From<u64> for EmojiId {
    fn from(v: u64) -> (r: EmojiId) {
        EmojiId(Snowflake(v))
    }
}

impl vstd::std_specs::convert::FromSpecImpl<Snowflake> for EmojiId {
    open spec fn obeys_from_spec() -> bool {
        true
    }

    open spec fn from_spec(v: Snowflake) -> EmojiId {
        EmojiId(v)
    }
}

impl From<Snowflake> for EmojiId {
    fn from(v: Snowflake) -> (r: EmojiId) {
        EmojiId(v)
    }
}

} // verus!
