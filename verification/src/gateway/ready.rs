//! The initial state, as it arrives with READY.

use std::collections::HashSet;
use vstd::prelude::*;
use crate::encoding::base64_decoded;
use crate::gateway::guild_order::{
    self, folder_views, folders_in, folders_of, ids_of, order_in, Folder, FolderView,
};
use crate::gateway::status::{self, status_in, Status};
use crate::json::{Json, Names, Value};
use crate::model::de::{
    agree, bool_in, bool_or_false, id_in, lenient, lenient_field, lenient_in, lenient_vec, maybe_id,
    maybe_id_in, maybe_text, maybe_text_in, need_id, need_text, text_in, to_message, u32_value,
    views_of, FromJson,
};
use crate::model::{
    guilds_of, opt_text, ChannelId, CurrentUser, CurrentUserView, Guild, GuildId, GuildView,
    MessageId, Snowflake,
};

verus! {

broadcast use vstd::std_specs::hash::group_hash_axioms;

/// One channel's read marker.
///
/// The same array carries markers for guild events and achievements; anything
/// whose id resolves to no channel is dropped, so no filtering is needed.
#[derive(Debug, Clone, Copy, PartialEq, Eq, Structural)]
pub struct ReadState {
    /// The channel.
    pub id: ChannelId,
    /// Read up to here; anything newer is unread.
    pub last_message_id: Option<MessageId>,
    /// Unread mentions, counted by the server.
    pub mention_count: u32,
}

impl View for ReadState {
    type V = ReadState;

    open spec fn view(&self) -> ReadState {
        *self
    }
}

pub open spec fn read_state_names() -> Set<Seq<char>> {
    set!["id"@, "last_message_id"@, "mention_count"@]
}

fn read_state_fields() -> (r: Names)
    ensures
        r@ == read_state_names(),
{
    Names::none().and("id").and("last_message_id").and("mention_count")
}

pub open spec fn override_names() -> Set<Seq<char>> {
    set!["channel_id"@, "message_notifications"@, "muted"@]
}

fn override_fields() -> (r: Names)
    ensures
        r@ == override_names(),
{
    Names::none().and("channel_id").and("message_notifications").and("muted")
}

pub open spec fn entry_names() -> Set<Seq<char>> {
    set!["guild_id"@, "message_notifications"@, "muted"@, "channel_overrides"@]
}

fn entry_fields() -> (r: Names)
    ensures
        r@ == entry_names(),
{
    Names::none().and("guild_id").and("message_notifications").and("muted")
        .and("channel_overrides")
}

pub open spec fn entries_names() -> Set<Seq<char>> {
    set!["entries"@]
}

fn entries_fields() -> (r: Names)
    ensures
        r@ == entries_names(),
{
    Names::none().and("entries")
}

pub open spec fn ready_names() -> Set<Seq<char>> {
    set![
        "user"@,
        "session_id"@,
        "resume_gateway_url"@,
        "guilds"@,
        "user_settings_proto"@,
        "read_state"@,
        "user_guild_settings"@
    ]
}

fn ready_fields() -> (r: Names)
    ensures
        r@ == ready_names(),
{
    Names::none().and("user").and("session_id").and("resume_gateway_url").and("guilds")
        .and("user_settings_proto").and("read_state").and("user_guild_settings")
}

/// A count that may be missing: then it is zero.
pub open spec fn u32_or_zero(v: Value, key: Seq<char>, k: int) -> Option<u32> {
    match v.at(key, k) {
        None => Some(0),
        Some(f) => u32_value(f),
    }
}

fn u32_in(j: &Json, key: &str, k: usize) -> (r: Option<u32>)
    ensures
        r == u32_or_zero(j@, key@, k as int),
{
    match j.at(key, k) {
        None => Some(0),
        Some(f) => match f.as_unsigned() {
            Some(n) => if n <= u32::MAX as u64 {
                Some(n as u32)
            } else {
                None
            },
            None => None,
        },
    }
}

/// A small number that may be missing: then it is zero.
pub open spec fn u8_or_zero(v: Value, key: Seq<char>, k: int) -> Option<u8> {
    match v.at(key, k) {
        None => Some(0),
        Some(f) => match f.unsigned() {
            Some(n) if n <= u8::MAX => Some(n as u8),
            _ => None,
        },
    }
}

fn u8_in(j: &Json, key: &str, k: usize) -> (r: Option<u8>)
    ensures
        r == u8_or_zero(j@, key@, k as int),
{
    match j.at(key, k) {
        None => Some(0),
        Some(f) => match f.as_unsigned() {
            Some(n) => if n <= u8::MAX as u64 {
                Some(n as u8)
            } else {
                None
            },
            None => None,
        },
    }
}

impl FromJson for ReadState {
    open spec fn decoded(v: Value) -> Option<ReadState> {
        match (
            need_id(v, "id"@, 0),
            maybe_id(v, "last_message_id"@, 1),
            u32_or_zero(v, "mention_count"@, 2),
        ) {
            (Some(id), Some(last), Some(mention_count))
                if v.is_record(read_state_names(), 1, 3) => Some(
                ReadState {
                    id: ChannelId(Snowflake(id)),
                    last_message_id: to_message(last),
                    mention_count,
                },
            ),
            _ => None,
        }
    }

    fn from_json(j: &Json) -> (r: Option<ReadState>) {
        if !j.is_record(read_state_fields(), 1, 3) {
            return None;
        }
        let last_message_id = match maybe_id_in(j, "last_message_id", 1)? {
            Some(id) => Some(MessageId(id)),
            None => None,
        };
        Some(
            ReadState {
                id: ChannelId(id_in(j, "id", 0)?),
                last_message_id,
                mention_count: u32_in(j, "mention_count", 2)?,
            },
        )
    }
}

/// Accepts both shapes the read markers arrive in.
#[derive(Debug, Clone, PartialEq, Eq)]
pub enum ReadStates {
    /// The newer shape.
    Wrapped { entries: Vec<ReadState> },
    /// The older shape: a bare array.
    Flat(Vec<ReadState>),
}

/// [`ReadStates`] over sequences.
pub ghost enum ReadStatesView {
    Wrapped { entries: Seq<ReadState> },
    Flat(Seq<ReadState>),
}

impl View for ReadStates {
    type V = ReadStatesView;

    open spec fn view(&self) -> ReadStatesView {
        match *self {
            ReadStates::Wrapped { entries } => ReadStatesView::Wrapped { entries: entries@ },
            ReadStates::Flat(v) => ReadStatesView::Flat(v@),
        }
    }
}

pub open spec fn entries_of(r: ReadStatesView) -> Seq<ReadState> {
    match r {
        ReadStatesView::Wrapped { entries } => entries,
        ReadStatesView::Flat(v) => v,
    }
}

impl ReadStates {
    pub fn entries(&self) -> (r: &Vec<ReadState>)
        ensures
            r@ == entries_of(self@),
    {
        match self {
            ReadStates::Wrapped { entries } => entries,
            ReadStates::Flat(v) => v,
        }
    }
}

impl FromJson for ReadStates {
    open spec fn decoded(v: Value) -> Option<ReadStatesView> {
        match v {
            Value::Object(_) => match lenient_field::<ReadState>(v, "entries"@, 0) {
                Some(entries) if v.is_record(entries_names(), 0, 1) => Some(
                    ReadStatesView::Wrapped { entries },
                ),
                _ => None,
            },
            _ => match lenient::<ReadState>(v) {
                Some(entries) => Some(ReadStatesView::Flat(entries)),
                None => None,
            },
        }
    }

    fn from_json(j: &Json) -> (r: Option<ReadStates>) {
        match j {
            Json::Object(_) => {
                if !j.is_record(entries_fields(), 0, 1) {
                    return None;
                }
                let entries = lenient_in::<ReadState>(j, "entries", 0)?;
                assert(views_of(entries@) =~= entries@);
                Some(ReadStates::Wrapped { entries })
            },
            _ => {
                let entries = lenient_vec::<ReadState>(j)?;
                assert(views_of(entries@) =~= entries@);
                Some(ReadStates::Flat(entries))
            },
        }
    }
}

/// A per-channel notification override within a guild.
#[derive(Debug, Clone, Copy, PartialEq, Eq, Structural)]
pub struct ChannelOverride {
    pub channel_id: ChannelId,
    /// 0 = all messages, 1 = only mentions, 2 = nothing.
    pub message_notifications: u8,
    /// Whether this channel is muted.
    pub muted: bool,
}

impl View for ChannelOverride {
    type V = ChannelOverride;

    open spec fn view(&self) -> ChannelOverride {
        *self
    }
}

impl FromJson for ChannelOverride {
    open spec fn decoded(v: Value) -> Option<ChannelOverride> {
        match (
            need_id(v, "channel_id"@, 0),
            u8_or_zero(v, "message_notifications"@, 1),
            bool_or_false(v, "muted"@, 2),
        ) {
            (Some(id), Some(message_notifications), Some(muted))
                if v.is_record(override_names(), 1, 3) => Some(
                ChannelOverride { channel_id: ChannelId(Snowflake(id)), message_notifications, muted },
            ),
            _ => None,
        }
    }

    fn from_json(j: &Json) -> (r: Option<ChannelOverride>) {
        if !j.is_record(override_fields(), 1, 3) {
            return None;
        }
        Some(
            ChannelOverride {
                channel_id: ChannelId(id_in(j, "channel_id", 0)?),
                message_notifications: u8_in(j, "message_notifications", 1)?,
                muted: bool_in(j, "muted", 2)?,
            },
        )
    }
}

/// One guild's notification settings, including per-channel overrides.
#[derive(Debug, Clone, PartialEq, Eq)]
pub struct GuildSettingsEntry {
    pub guild_id: GuildId,
    /// 0 = all messages, 1 = only mentions, 2 = nothing.
    pub message_notifications: u8,
    /// Whether the guild is fully muted.
    pub muted: bool,
    pub channel_overrides: Vec<ChannelOverride>,
}

/// [`GuildSettingsEntry`] over sequences.
pub ghost struct SettingsEntryView {
    pub guild_id: GuildId,
    pub message_notifications: u8,
    pub muted: bool,
    pub channel_overrides: Seq<ChannelOverride>,
}

impl View for GuildSettingsEntry {
    type V = SettingsEntryView;

    open spec fn view(&self) -> SettingsEntryView {
        SettingsEntryView {
            guild_id: self.guild_id,
            message_notifications: self.message_notifications,
            muted: self.muted,
            channel_overrides: self.channel_overrides@,
        }
    }
}

impl FromJson for GuildSettingsEntry {
    open spec fn decoded(v: Value) -> Option<SettingsEntryView> {
        match (
            need_id(v, "guild_id"@, 0),
            u8_or_zero(v, "message_notifications"@, 1),
            bool_or_false(v, "muted"@, 2),
            lenient_field::<ChannelOverride>(v, "channel_overrides"@, 3),
        ) {
            (Some(id), Some(message_notifications), Some(muted), Some(channel_overrides))
                if v.is_record(entry_names(), 1, 4) => Some(
                SettingsEntryView {
                    guild_id: GuildId(Snowflake(id)),
                    message_notifications,
                    muted,
                    channel_overrides,
                },
            ),
            _ => None,
        }
    }

    fn from_json(j: &Json) -> (r: Option<GuildSettingsEntry>) {
        if !j.is_record(entry_fields(), 1, 4) {
            return None;
        }
        let channel_overrides = lenient_in::<ChannelOverride>(j, "channel_overrides", 3)?;
        assert(views_of(channel_overrides@) =~= channel_overrides@);
        Some(
            GuildSettingsEntry {
                guild_id: GuildId(id_in(j, "guild_id", 0)?),
                message_notifications: u8_in(j, "message_notifications", 1)?,
                muted: bool_in(j, "muted", 2)?,
                channel_overrides,
            },
        )
    }
}

/// Per-guild and per-channel notification overrides.
#[derive(Debug, Clone, PartialEq, Eq)]
pub struct UserGuildSettings {
    pub entries: Vec<GuildSettingsEntry>,
}

pub open spec fn settings_of(v: Seq<GuildSettingsEntry>) -> Seq<SettingsEntryView> {
    Seq::new(v.len(), |i: int| v[i]@)
}

impl View for UserGuildSettings {
    type V = Seq<SettingsEntryView>;

    open spec fn view(&self) -> Seq<SettingsEntryView> {
        settings_of(self.entries@)
    }
}

impl FromJson for UserGuildSettings {
    open spec fn decoded(v: Value) -> Option<Seq<SettingsEntryView>> {
        if v.is_record(entries_names(), 0, 1) {
            lenient_field::<GuildSettingsEntry>(v, "entries"@, 0)
        } else {
            None
        }
    }

    fn from_json(j: &Json) -> (r: Option<UserGuildSettings>) {
        if !j.is_record(entries_fields(), 0, 1) {
            return None;
        }
        let entries = lenient_in::<GuildSettingsEntry>(j, "entries", 0)?;
        assert(views_of(entries@) =~= settings_of(entries@));
        Some(UserGuildSettings { entries })
    }
}

/// The initial state.
#[derive(Debug, Clone, PartialEq, Eq)]
pub struct Ready {
    pub user: CurrentUser,
    pub session_id: String,
    /// Where to resume; a region-specific host.
    pub resume_gateway_url: Option<String>,
    /// Unavailable guilds arrive as an id and nothing else. Unreadable entries
    /// are skipped: one shell must not make the whole payload unreadable.
    pub guilds: Vec<Guild>,
    /// User settings, as base64 protobuf. Carries the guild order.
    pub user_settings_proto: Option<String>,
    /// How far each channel is read.
    pub read_state: Option<ReadStates>,
    /// Per-guild and per-channel notification overrides.
    pub user_guild_settings: Option<UserGuildSettings>,
}

/// [`Ready`] with the text as character sequences.
pub ghost struct ReadyView {
    pub user: CurrentUserView,
    pub session_id: Seq<char>,
    pub resume_gateway_url: Option<Seq<char>>,
    pub guilds: Seq<GuildView>,
    pub user_settings_proto: Option<Seq<char>>,
    pub read_state: Option<ReadStatesView>,
    pub user_guild_settings: Option<Seq<SettingsEntryView>>,
}

pub open spec fn opt_states(r: Option<ReadStates>) -> Option<ReadStatesView> {
    match r {
        Some(r) => Some(r@),
        None => None,
    }
}

pub open spec fn opt_settings(s: Option<UserGuildSettings>) -> Option<Seq<SettingsEntryView>> {
    match s {
        Some(s) => Some(s@),
        None => None,
    }
}

impl View for Ready {
    type V = ReadyView;

    open spec fn view(&self) -> ReadyView {
        ReadyView {
            user: self.user@,
            session_id: self.session_id@,
            resume_gateway_url: opt_text(self.resume_gateway_url),
            guilds: guilds_of(self.guilds@),
            user_settings_proto: opt_text(self.user_settings_proto),
            read_state: opt_states(self.read_state),
            user_guild_settings: opt_settings(self.user_guild_settings),
        }
    }
}

pub open spec fn user_field(v: Value) -> Option<CurrentUserView> {
    match v.at("user"@, 0) {
        Some(f) => CurrentUser::decoded(f),
        None => None,
    }
}

pub open spec fn states_field(v: Value) -> Option<Option<ReadStatesView>> {
    match v.at("read_state"@, 5) {
        None => Some(None),
        Some(Value::Null) => Some(None),
        Some(f) => match ReadStates::decoded(f) {
            Some(s) => Some(Some(s)),
            None => None,
        },
    }
}

pub open spec fn settings_field(v: Value) -> Option<Option<Seq<SettingsEntryView>>> {
    match v.at("user_guild_settings"@, 6) {
        None => Some(None),
        Some(Value::Null) => Some(None),
        Some(f) => match UserGuildSettings::decoded(f) {
            Some(s) => Some(Some(s)),
            None => None,
        },
    }
}

impl FromJson for Ready {
    open spec fn decoded(v: Value) -> Option<ReadyView> {
        match (
            user_field(v),
            need_text(v, "session_id"@, 1),
            maybe_text(v, "resume_gateway_url"@, 2),
            lenient_field::<Guild>(v, "guilds"@, 3),
            maybe_text(v, "user_settings_proto"@, 4),
            states_field(v),
            settings_field(v),
        ) {
            (
                Some(user),
                Some(session_id),
                Some(resume_gateway_url),
                Some(guilds),
                Some(user_settings_proto),
                Some(read_state),
                Some(user_guild_settings),
            ) if v.is_record(ready_names(), 2, 7) => Some(
                ReadyView {
                    user,
                    session_id,
                    resume_gateway_url,
                    guilds,
                    user_settings_proto,
                    read_state,
                    user_guild_settings,
                },
            ),
            _ => None,
        }
    }

    fn from_json(j: &Json) -> (r: Option<Ready>) {
        if !j.is_record(ready_fields(), 2, 7) {
            return None;
        }
        let user = match j.at("user", 0) {
            Some(f) => CurrentUser::from_json(f)?,
            None => return None,
        };
        let read_state = match j.at("read_state", 5) {
            None => None,
            Some(Json::Null) => None,
            Some(f) => Some(ReadStates::from_json(f)?),
        };
        let user_guild_settings = match j.at("user_guild_settings", 6) {
            None => None,
            Some(Json::Null) => None,
            Some(f) => Some(UserGuildSettings::from_json(f)?),
        };
        let guilds = lenient_in::<Guild>(j, "guilds", 3)?;
        assert(views_of(guilds@) =~= guilds_of(guilds@));
        Some(
            Ready {
                user,
                session_id: text_in(j, "session_id", 1)?,
                resume_gateway_url: maybe_text_in(j, "resume_gateway_url", 2)?,
                guilds,
                user_settings_proto: maybe_text_in(j, "user_settings_proto", 4)?,
                read_state,
                user_guild_settings,
            },
        )
    }
}

/// The ids of the guilds we are in.
pub open spec fn known_ids(guilds: Seq<GuildView>) -> Set<u64>
    decreases guilds.len(),
{
    if guilds.len() == 0 {
        Set::empty()
    } else {
        known_ids(guilds.drop_last()).insert(guilds.last().id.0.0)
    }
}

/// The bytes of the settings, where there are any.
pub open spec fn settings_bytes(r: ReadyView) -> Option<Seq<u8>> {
    match r.user_settings_proto {
        Some(p) => base64_decoded(p),
        None => None,
    }
}

pub open spec fn arranged(r: ReadyView) -> Seq<u64> {
    match settings_bytes(r) {
        Some(b) => order_in(b, known_ids(r.guilds)),
        None => seq![],
    }
}

pub open spec fn arranged_folders(r: ReadyView) -> Seq<FolderView> {
    match settings_bytes(r) {
        Some(b) => folders_of(folders_in(b), known_ids(r.guilds)),
        None => seq![],
    }
}

/// One channel's notification level and whether it is muted.
pub open spec fn override_of(o: ChannelOverride) -> (ChannelId, u8, bool) {
    (o.channel_id, o.message_notifications, o.muted)
}

pub open spec fn level_of(e: SettingsEntryView) -> (GuildId, u8, bool, Seq<(ChannelId, u8, bool)>) {
    (
        e.guild_id,
        e.message_notifications,
        e.muted,
        e.channel_overrides.map_values(|o: ChannelOverride| override_of(o)),
    )
}

pub open spec fn levels_of(r: ReadyView) -> Seq<(GuildId, u8, bool, Seq<(ChannelId, u8, bool)>)> {
    match r.user_guild_settings {
        Some(s) => s.map_values(|e: SettingsEntryView| level_of(e)),
        None => seq![],
    }
}

pub open spec fn level_views(
    v: Seq<(GuildId, u8, bool, Vec<(ChannelId, u8, bool)>)>,
) -> Seq<(GuildId, u8, bool, Seq<(ChannelId, u8, bool)>)> {
    Seq::new(v.len(), |i: int| (v[i].0, v[i].1, v[i].2, v[i].3@))
}

impl Ready {
    fn known_guilds(&self) -> (r: HashSet<u64>)
        ensures
            r@ == known_ids(self@.guilds),
    {
        let ghost gs = self@.guilds;
        let mut out: HashSet<u64> = HashSet::new();
        let mut i: usize = 0;
        assert(out@ =~= known_ids(gs.take(0)));
        while i < self.guilds.len()
            invariant
                i <= self.guilds@.len(),
                gs == guilds_of(self.guilds@),
                out@ == known_ids(gs.take(i as int)),
            decreases self.guilds@.len() - i,
        {
            assert(gs.take(i + 1).drop_last() =~= gs.take(i as int));
            assert(gs.take(i + 1).last() == self.guilds@[i as int]@);
            out.insert(self.guilds[i].id.get());
            i += 1;
        }
        assert(gs.take(i as int) =~= gs);
        out
    }

    /// The order the user arranged.
    ///
    /// Never sorted by name: any other order stops being their guild list.
    /// Empty if it cannot be read, and the caller falls back to the order the
    /// guilds came in.
    pub fn guild_order(&self) -> (r: Vec<GuildId>)
        ensures
            ids_of(r@) == arranged(self@),
    {
        match &self.user_settings_proto {
            Some(p) => guild_order::from_settings_proto(p.as_str(), &self.known_guilds()),
            None => {
                let none: Vec<GuildId> = Vec::new();
                assert(ids_of(none@) =~= seq![]);
                none
            },
        }
    }

    /// Sidebar folders; lone guilds appear in the same list.
    pub fn guild_folders(&self) -> (r: Vec<Folder>)
        ensures
            folder_views(r@) == arranged_folders(self@),
    {
        match &self.user_settings_proto {
            Some(p) => guild_order::folders_from_settings_proto(p.as_str(), &self.known_guilds()),
            None => {
                let none: Vec<Folder> = Vec::new();
                assert(folder_views(none@) =~= seq![]);
                none
            },
        }
    }

    /// Our status, or `None` when unreadable. Being connected is not "online":
    /// it would lie about anyone set to do not disturb.
    pub fn status(&self) -> (r: Option<Status>)
        ensures
            r == (match settings_bytes(self@) {
                Some(b) => status_in(b),
                None => None,
            }),
    {
        match &self.user_settings_proto {
            Some(p) => status::from_settings_proto(p.as_str()),
            None => None,
        }
    }

    /// Resolved notification levels per guild:
    /// (guild, default level, muted, overrides).
    pub fn notification_settings(&self) -> (r: Vec<
        (GuildId, u8, bool, Vec<(ChannelId, u8, bool)>),
    >)
        ensures
            level_views(r@) == levels_of(self@),
    {
        let mut out: Vec<(GuildId, u8, bool, Vec<(ChannelId, u8, bool)>)> = Vec::new();
        let entries = match &self.user_guild_settings {
            Some(s) => &s.entries,
            None => {
                assert(level_views(out@) =~= seq![]);
                return out;
            },
        };
        let ghost want = levels_of(self@);
        let mut i: usize = 0;
        while i < entries.len()
            invariant
                i <= entries@.len(),
                want.len() == entries@.len(),
                want == settings_of(entries@).map_values(|e: SettingsEntryView| level_of(e)),
                level_views(out@) =~= want.take(i as int),
            decreases entries@.len() - i,
        {
            let e = &entries[i];
            let mut overrides: Vec<(ChannelId, u8, bool)> = Vec::new();
            let mut k: usize = 0;
            while k < e.channel_overrides.len()
                invariant
                    k <= e.channel_overrides@.len(),
                    overrides@ =~= e.channel_overrides@.take(k as int).map_values(
                        |o: ChannelOverride| override_of(o),
                    ),
                decreases e.channel_overrides@.len() - k,
            {
                let o = e.channel_overrides[k];
                overrides.push((o.channel_id, o.message_notifications, o.muted));
                k += 1;
            }
            assert(e.channel_overrides@.take(k as int) =~= e.channel_overrides@);
            let ghost before = out@;
            let ghost ov = overrides@;
            out.push((e.guild_id, e.message_notifications, e.muted, overrides));
            assert(level_of(e@) == (e.guild_id, e.message_notifications, e.muted, ov));
            assert(want[i as int] == level_of(e@));
            assert(level_views(out@) =~= level_views(before).push(level_of(e@)));
            i += 1;
        }
        assert(level_views(out@) =~= want);
        out
    }
}

/// Fields nobody knows do not break the initial state: objects that hold the
/// same under the names read here are read alike.
pub proof fn ready_ignores_unknown_fields(v: Value, w: Value)
    requires
        agree(
            v,
            w,
            ready_names(),
        ),
    ensures
        Ready::decoded(v) == Ready::decoded(w),
{
    crate::model::de::lemma_agree(v, w, ready_names(), 2, 7);
}

} // verus!
