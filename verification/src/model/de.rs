//! Reading the domain types out of JSON, and going on when something
//! unexpected arrives.
//!
//! Fields are added without notice and empty shells are mixed in. Failing a
//! whole list because one element is unreadable blanks the screen behind it,
//! so lists that matter skip what they cannot read.
//!
//! A record is an object that holds none of its fields twice. It may also come
//! as the list of its fields in order, of which those at the end may be missing
//! that have something to stand for them.

use vstd::prelude::*;
use crate::json::{both_under, member_from, values_of, Json, Names, Value};
use super::{
    attachments_of, channels_of, first_text, opt_member, opt_text, opt_user, or_empty, roles_of,
    users_of, Attachment, AttachmentId, AttachmentView, Channel, ChannelId, ChannelKind,
    ChannelView, CurrentUser, CurrentUserView, Guild, GuildId, GuildProperties, GuildView, Member,
    MemberView, Message, MessageId, MessageView, RawGuild, Role, RoleId, RoleView, Snowflake, User,
    UserId, UserView,
};
use super::snowflake::id_value;

verus! {

/// A type that is read out of JSON.
pub trait FromJson: View + Sized {
    /// What a value says, or `None` where it cannot be read.
    spec fn decoded(v: Value) -> Option<<Self as View>::V>;

    fn from_json(j: &Json) -> (r: Option<Self>)
        ensures
            match r {
                Some(t) => Self::decoded(j@) == Some(t@),
                None => Self::decoded(j@) is None,
            },
    ;
}

// ── lists ──────────────────────────────────────────────────────────────────

pub open spec fn views_of<T: View>(v: Seq<T>) -> Seq<<T as View>::V> {
    Seq::new(v.len(), |i: int| v[i]@)
}

/// The elements that can be read, in order, from the `k`-th on.
pub open spec fn readable<T: FromJson>(a: Seq<Value>, k: int) -> Seq<<T as View>::V>
    decreases a.len() - k,
{
    if k < 0 || k >= a.len() {
        seq![]
    } else {
        match T::decoded(a[k]) {
            Some(t) => seq![t] + readable::<T>(a, k + 1),
            None => readable::<T>(a, k + 1),
        }
    }
}

/// What [`lenient_vec`] reads.
pub open spec fn lenient<T: FromJson>(v: Value) -> Option<Seq<<T as View>::V>> {
    match v {
        Value::Array(a) => Some(readable::<T>(a, 0)),
        _ => None,
    }
}

/// Reads a list, skipping elements that cannot be read.
///
/// A non-list where a list belongs is still an error; only elements are
/// skipped.
pub fn lenient_vec<T: FromJson>(j: &Json) -> (r: Option<Vec<T>>)
    ensures
        match r {
            Some(v) => lenient::<T>(j@) == Some(views_of(v@)),
            None => lenient::<T>(j@) is None,
        },
{
    let a = match j.as_array() {
        Some(a) => a,
        None => return None,
    };
    let ghost vs = values_of(a@);
    let mut out: Vec<T> = Vec::new();
    let mut i: usize = 0;
    assert(views_of(out@) + readable::<T>(vs, 0) =~= readable::<T>(vs, 0));
    while i < a.len()
        invariant
            i <= a@.len(),
            vs == values_of(a@),
            views_of(out@) + readable::<T>(vs, i as int) == readable::<T>(vs, 0),
        decreases a@.len() - i,
    {
        let ghost before = out@;
        match T::from_json(&a[i]) {
            Some(t) => {
                out.push(t);
                assert(views_of(out@) =~= views_of(before).push(t@));
                assert(views_of(out@) + readable::<T>(vs, i + 1) =~= views_of(before) + readable::<
                    T,
                >(vs, i as int));
            },
            None => {},
        }
        i += 1;
    }
    assert(views_of(out@) + readable::<T>(vs, i as int) =~= views_of(out@));
    Some(out)
}

/// An unreadable element never takes the others with it: what reads on its
/// own is in the list.
pub proof fn readable_elements_stay<T: FromJson>(a: Seq<Value>, k: int, i: int)
    requires
        0 <= k <= i < a.len(),
        T::decoded(a[i]) is Some,
    ensures
        readable::<T>(a, k).contains(T::decoded(a[i])->0),
    decreases a.len() - k,
{
    let t = T::decoded(a[i])->0;
    if k == i {
        assert(readable::<T>(a, k)[0] == t);
    } else {
        readable_elements_stay::<T>(a, k + 1, i);
        let rest = readable::<T>(a, k + 1);
        let p = choose|p: int| 0 <= p < rest.len() && rest[p] == t;
        match T::decoded(a[k]) {
            Some(_) => {
                assert(readable::<T>(a, k)[p + 1] == t);
            },
            None => {},
        }
    }
}

/// The whole list read, or nothing where one element cannot be.
pub open spec fn strict<T: FromJson>(a: Seq<Value>, k: int) -> Option<Seq<<T as View>::V>>
    decreases a.len() - k,
{
    if k < 0 || k >= a.len() {
        Some(seq![])
    } else {
        match (T::decoded(a[k]), strict::<T>(a, k + 1)) {
            (Some(t), Some(rest)) => Some(seq![t] + rest),
            _ => None,
        }
    }
}

proof fn lemma_strict_stops<T: FromJson>(a: Seq<Value>, k: int, i: int)
    requires
        0 <= k <= i < a.len(),
        T::decoded(a[i]) is None,
    ensures
        strict::<T>(a, k) is None,
    decreases i - k,
{
    if k < i {
        lemma_strict_stops::<T>(a, k + 1, i);
    }
}

fn strict_vec<T: FromJson>(a: &Vec<Json>) -> (r: Option<Vec<T>>)
    ensures
        match r {
            Some(v) => strict::<T>(values_of(a@), 0) == Some(views_of(v@)),
            None => strict::<T>(values_of(a@), 0) is None,
        },
{
    let ghost vs = values_of(a@);
    let mut out: Vec<T> = Vec::new();
    let mut i: usize = 0;
    proof {
        match strict::<T>(vs, 0) {
            Some(rest) => {
                assert(views_of(out@) + rest =~= rest);
            },
            None => {},
        }
    }
    while i < a.len()
        invariant
            i <= a@.len(),
            vs == values_of(a@),
            strict::<T>(vs, 0) == (match strict::<T>(vs, i as int) {
                Some(rest) => Some(views_of(out@) + rest),
                None => None,
            }),
        decreases a@.len() - i,
    {
        let ghost before = out@;
        match T::from_json(&a[i]) {
            Some(t) => {
                out.push(t);
                assert(views_of(out@) =~= views_of(before).push(t@));
                proof {
                    match strict::<T>(vs, i + 1) {
                        Some(rest) => {
                            assert(views_of(out@) + rest =~= views_of(before) + (seq![t@] + rest));
                        },
                        None => {},
                    }
                }
            },
            None => {
                return None;
            },
        }
        i += 1;
    }
    assert(views_of(out@) + Seq::empty() =~= views_of(out@));
    Some(out)
}

/// A list that may be missing: then it is empty. Every element must be
/// readable.
pub open spec fn list_field<T: FromJson>(v: Value, key: Seq<char>, k: int) -> Option<
    Seq<<T as View>::V>,
> {
    match v.at(key, k) {
        None => Some(seq![]),
        Some(Value::Array(a)) => strict::<T>(a, 0),
        Some(_) => None,
    }
}

fn list_in<T: FromJson>(j: &Json, key: &str, k: usize) -> (r: Option<Vec<T>>)
    ensures
        match r {
            Some(v) => list_field::<T>(j@, key@, k as int) == Some(views_of(v@)),
            None => list_field::<T>(j@, key@, k as int) is None,
        },
{
    match j.at(key, k) {
        None => {
            let out: Vec<T> = Vec::new();
            assert(views_of(out@) =~= seq![]);
            Some(out)
        },
        Some(f) => match f.as_array() {
            Some(a) => strict_vec(a),
            None => None,
        },
    }
}

/// A list that may be missing, read leniently.
pub open spec fn lenient_field<T: FromJson>(v: Value, key: Seq<char>, k: int) -> Option<
    Seq<<T as View>::V>,
> {
    match v.at(key, k) {
        None => Some(seq![]),
        Some(f) => lenient::<T>(f),
    }
}

pub fn lenient_in<T: FromJson>(j: &Json, key: &str, k: usize) -> (r: Option<Vec<T>>)
    ensures
        match r {
            Some(v) => lenient_field::<T>(j@, key@, k as int) == Some(views_of(v@)),
            None => lenient_field::<T>(j@, key@, k as int) is None,
        },
{
    match j.at(key, k) {
        None => {
            let out: Vec<T> = Vec::new();
            assert(views_of(out@) =~= seq![]);
            Some(out)
        },
        Some(f) => lenient_vec(f),
    }
}

/// A value that may be missing or null.
pub open spec fn maybe_field<T: FromJson>(v: Value, key: Seq<char>, k: int) -> Option<
    Option<<T as View>::V>,
> {
    match v.at(key, k) {
        None => Some(None),
        Some(Value::Null) => Some(None),
        Some(f) => match T::decoded(f) {
            Some(t) => Some(Some(t)),
            None => None,
        },
    }
}

pub open spec fn opt_view<T: View>(t: Option<T>) -> Option<<T as View>::V> {
    match t {
        Some(t) => Some(t@),
        None => None,
    }
}

fn maybe_in<T: FromJson>(j: &Json, key: &str, k: usize) -> (r: Option<Option<T>>)
    ensures
        match r {
            Some(t) => maybe_field::<T>(j@, key@, k as int) == Some(opt_view(t)),
            None => maybe_field::<T>(j@, key@, k as int) is None,
        },
{
    match j.at(key, k) {
        None => Some(None),
        Some(Json::Null) => Some(None),
        Some(f) => match T::from_json(f) {
            Some(t) => Some(Some(t)),
            None => None,
        },
    }
}

// ── fields ─────────────────────────────────────────────────────────────────

pub open spec fn need_text(v: Value, key: Seq<char>, k: int) -> Option<Seq<char>> {
    match v.at(key, k) {
        Some(f) => f.text(),
        None => None,
    }
}

pub open spec fn maybe_text(v: Value, key: Seq<char>, k: int) -> Option<Option<Seq<char>>> {
    match v.at(key, k) {
        None => Some(None),
        Some(Value::Null) => Some(None),
        Some(Value::Text(t)) => Some(Some(t)),
        Some(_) => None,
    }
}

pub open spec fn text_or_empty(v: Value, key: Seq<char>, k: int) -> Option<Seq<char>> {
    match v.at(key, k) {
        None => Some(seq![]),
        Some(f) => f.text(),
    }
}

pub open spec fn bool_or_false(v: Value, key: Seq<char>, k: int) -> Option<bool> {
    match v.at(key, k) {
        None => Some(false),
        Some(f) => f.boolean(),
    }
}

pub open spec fn integer_or_zero(v: Value, key: Seq<char>, k: int) -> Option<i64> {
    match v.at(key, k) {
        None => Some(0),
        Some(f) => f.integer(),
    }
}

pub open spec fn need_id(v: Value, key: Seq<char>, k: int) -> Option<u64> {
    match v.at(key, k) {
        Some(f) => id_value(f),
        None => None,
    }
}

pub open spec fn maybe_id(v: Value, key: Seq<char>, k: int) -> Option<Option<u64>> {
    match v.at(key, k) {
        None => Some(None),
        Some(Value::Null) => Some(None),
        Some(f) => match id_value(f) {
            Some(id) => Some(Some(id)),
            None => None,
        },
    }
}

pub open spec fn u32_value(v: Value) -> Option<u32> {
    match v.unsigned() {
        Some(n) if n <= u32::MAX => Some(n as u32),
        _ => None,
    }
}

pub open spec fn maybe_u32(v: Value, key: Seq<char>, k: int) -> Option<Option<u32>> {
    match v.at(key, k) {
        None => Some(None),
        Some(Value::Null) => Some(None),
        Some(f) => match u32_value(f) {
            Some(n) => Some(Some(n)),
            None => None,
        },
    }
}

pub fn text_in(j: &Json, key: &str, k: usize) -> (r: Option<String>)
    ensures
        opt_text(r) == need_text(j@, key@, k as int),
{
    match j.at(key, k) {
        Some(f) => match f.as_text() {
            Some(t) => Some(t.clone()),
            None => None,
        },
        None => None,
    }
}

pub fn maybe_text_in(j: &Json, key: &str, k: usize) -> (r: Option<Option<String>>)
    ensures
        match r {
            Some(t) => maybe_text(j@, key@, k as int) == Some(opt_text(t)),
            None => maybe_text(j@, key@, k as int) is None,
        },
{
    match j.at(key, k) {
        None => Some(None),
        Some(f) => match f {
            Json::Null => Some(None),
            Json::Text(t) => Some(Some(t.clone())),
            _ => None,
        },
    }
}

pub fn text_or_empty_in(j: &Json, key: &str, k: usize) -> (r: Option<String>)
    ensures
        opt_text(r) == text_or_empty(j@, key@, k as int),
{
    match j.at(key, k) {
        None => {
            let s = String::new();
            assert(s@ =~= seq![]);
            Some(s)
        },
        Some(f) => match f.as_text() {
            Some(t) => Some(t.clone()),
            None => None,
        },
    }
}

pub fn bool_in(j: &Json, key: &str, k: usize) -> (r: Option<bool>)
    ensures
        r == bool_or_false(j@, key@, k as int),
{
    match j.at(key, k) {
        None => Some(false),
        Some(f) => f.as_bool(),
    }
}

fn integer_in(j: &Json, key: &str, k: usize) -> (r: Option<i64>)
    ensures
        r == integer_or_zero(j@, key@, k as int),
{
    match j.at(key, k) {
        None => Some(0),
        Some(f) => f.as_integer(),
    }
}

pub fn id_in(j: &Json, key: &str, k: usize) -> (r: Option<Snowflake>)
    ensures
        match r {
            Some(id) => need_id(j@, key@, k as int) == Some(id.0),
            None => need_id(j@, key@, k as int) is None,
        },
{
    match j.at(key, k) {
        Some(f) => Snowflake::from_json(f),
        None => None,
    }
}

pub fn maybe_id_in(j: &Json, key: &str, k: usize) -> (r: Option<Option<Snowflake>>)
    ensures
        match r {
            Some(Some(id)) => maybe_id(j@, key@, k as int) == Some(Some(id.0)),
            Some(None) => maybe_id(j@, key@, k as int) == Some(None::<u64>),
            None => maybe_id(j@, key@, k as int) is None,
        },
{
    match j.at(key, k) {
        None => Some(None),
        Some(Json::Null) => Some(None),
        Some(f) => match Snowflake::from_json(f) {
            Some(id) => Some(Some(id)),
            None => None,
        },
    }
}

fn maybe_u32_in(j: &Json, key: &str, k: usize) -> (r: Option<Option<u32>>)
    ensures
        r == maybe_u32(j@, key@, k as int),
{
    match j.at(key, k) {
        None => Some(None),
        Some(Json::Null) => Some(None),
        Some(f) => match f.as_unsigned() {
            Some(n) => if n <= u32::MAX as u64 {
                Some(Some(n as u32))
            } else {
                None
            },
            None => None,
        },
    }
}

// ── the types ──────────────────────────────────────────────────────────────

pub open spec fn user_names() -> Set<Seq<char>> {
    set!["id"@, "username"@, "global_name"@, "discriminator"@, "avatar"@, "bot"@]
}

fn user_fields() -> (r: Names)
    ensures
        r@ == user_names(),
{
    Names::none().and("id").and("username").and("global_name").and("discriminator")
        .and("avatar").and("bot")
}

pub open spec fn role_names() -> Set<Seq<char>> {
    set!["id"@, "name"@, "position"@, "hoist"@, "color"@]
}

fn role_fields() -> (r: Names)
    ensures
        r@ == role_names(),
{
    Names::none().and("id").and("name").and("position").and("hoist").and("color")
}

pub open spec fn member_names() -> Set<Seq<char>> {
    set!["nick"@, "avatar"@, "roles"@, "joined_at"@, "user"@]
}

fn member_fields() -> (r: Names)
    ensures
        r@ == member_names(),
{
    Names::none().and("nick").and("avatar").and("roles").and("joined_at").and("user")
}

pub open spec fn channel_names() -> Set<Seq<char>> {
    set![
        "id"@,
        "type"@,
        "name"@,
        "guild_id"@,
        "parent_id"@,
        "position"@,
        "topic"@,
        "nsfw"@,
        "recipients"@,
        "last_message_id"@
    ]
}

fn channel_fields() -> (r: Names)
    ensures
        r@ == channel_names(),
{
    Names::none().and("id").and("type").and("name").and("guild_id").and("parent_id")
        .and("position").and("topic").and("nsfw").and("recipients").and("last_message_id")
}

pub open spec fn property_names() -> Set<Seq<char>> {
    set!["name"@, "icon"@]
}

fn property_fields() -> (r: Names)
    ensures
        r@ == property_names(),
{
    Names::none().and("name").and("icon")
}

pub open spec fn guild_names() -> Set<Seq<char>> {
    set!["id"@, "name"@, "icon"@, "unavailable"@, "channels"@, "roles"@, "properties"@]
}

fn guild_fields() -> (r: Names)
    ensures
        r@ == guild_names(),
{
    Names::none().and("id").and("name").and("icon").and("unavailable").and("channels")
        .and("roles").and("properties")
}

pub open spec fn attachment_names() -> Set<Seq<char>> {
    set!["id"@, "filename"@, "size"@, "url"@, "content_type"@, "width"@, "height"@]
}

fn attachment_fields() -> (r: Names)
    ensures
        r@ == attachment_names(),
{
    Names::none().and("id").and("filename").and("size").and("url").and("content_type")
        .and("width").and("height")
}

pub open spec fn message_names() -> Set<Seq<char>> {
    set![
        "id"@,
        "channel_id"@,
        "guild_id"@,
        "author"@,
        "content"@,
        "timestamp"@,
        "edited_timestamp"@,
        "pinned"@,
        "attachments"@,
        "member"@,
        "referenced_message"@,
        "mentions"@,
        "mention_everyone"@
    ]
}

fn message_fields() -> (r: Names)
    ensures
        r@ == message_names(),
{
    Names::none().and("id").and("channel_id").and("guild_id").and("author").and("content")
        .and("timestamp").and("edited_timestamp").and("pinned").and("attachments").and("member")
        .and("referenced_message").and("mentions").and("mention_everyone")
}

/// The names beside those of the user.
pub open spec fn current_names() -> Set<Seq<char>> {
    set!["email"@, "verified"@, "mfa_enabled"@]
}

fn current_fields() -> (r: Names)
    ensures
        r@ == current_names(),
{
    Names::none().and("email").and("verified").and("mfa_enabled")
}

pub open spec fn user_of(v: Value) -> Option<UserView> {
    match (
        need_id(v, "id"@, 0),
        need_text(v, "username"@, 1),
        maybe_text(v, "global_name"@, 2),
        text_or_empty(v, "discriminator"@, 3),
        maybe_text(v, "avatar"@, 4),
        bool_or_false(v, "bot"@, 5),
    ) {
        (
            Some(id),
            Some(username),
            Some(global_name),
            Some(discriminator),
            Some(avatar_hash),
            Some(bot),
        ) if v.is_record(user_names(), 3, 6) => Some(
            UserView {
                id: UserId(Snowflake(id)),
                username,
                global_name,
                discriminator,
                avatar_hash,
                bot,
            },
        ),
        _ => None,
    }
}

impl FromJson for User {
    open spec fn decoded(v: Value) -> Option<UserView> {
        user_of(v)
    }

    fn from_json(j: &Json) -> (r: Option<User>) {
        assert(<User as FromJson>::decoded(j@) == user_of(j@));
        if !j.is_record(user_fields(), 3, 6) {
            return None;
        }
        let id = id_in(j, "id", 0)?;
        let username = text_in(j, "username", 1)?;
        let global_name = maybe_text_in(j, "global_name", 2)?;
        let discriminator = text_or_empty_in(j, "discriminator", 3)?;
        let avatar_hash = maybe_text_in(j, "avatar", 4)?;
        let bot = bool_in(j, "bot", 5)?;
        Some(User { id: UserId(id), username, global_name, discriminator, avatar_hash, bot })
    }
}

impl FromJson for Role {
    open spec fn decoded(v: Value) -> Option<RoleView> {
        match (
            need_id(v, "id"@, 0),
            text_or_empty(v, "name"@, 1),
            integer_or_zero(v, "position"@, 2),
            bool_or_false(v, "hoist"@, 3),
            maybe_u32(v, "color"@, 4),
        ) {
            (Some(id), Some(name), Some(position), Some(hoist), Some(color))
                if v.is_record(role_names(), 1, 5) => Some(
                RoleView { id: RoleId(Snowflake(id)), name, position, hoist, color },
            ),
            _ => None,
        }
    }

    fn from_json(j: &Json) -> (r: Option<Role>) {
        if !j.is_record(role_fields(), 1, 5) {
            return None;
        }
        Some(
            Role {
                id: RoleId(id_in(j, "id", 0)?),
                name: text_or_empty_in(j, "name", 1)?,
                position: integer_in(j, "position", 2)?,
                hoist: bool_in(j, "hoist", 3)?,
                color: maybe_u32_in(j, "color", 4)?,
            },
        )
    }
}

impl View for RoleId {
    type V = RoleId;

    open spec fn view(&self) -> RoleId {
        *self
    }
}

impl FromJson for RoleId {
    open spec fn decoded(v: Value) -> Option<RoleId> {
        match id_value(v) {
            Some(id) => Some(RoleId(Snowflake(id))),
            None => None,
        }
    }

    fn from_json(j: &Json) -> (r: Option<RoleId>) {
        match Snowflake::from_json(j) {
            Some(id) => Some(RoleId(id)),
            None => None,
        }
    }
}

pub open spec fn member_of(v: Value) -> Option<MemberView> {
    match (
        maybe_text(v, "nick"@, 0),
        maybe_text(v, "avatar"@, 1),
        list_field::<RoleId>(v, "roles"@, 2),
        maybe_text(v, "joined_at"@, 3),
        maybe_field::<User>(v, "user"@, 4),
    ) {
        (Some(nick), Some(avatar_hash), Some(roles), Some(joined_at), Some(user))
            if v.is_record(member_names(), 1, 5) =>
            Some(MemberView { nick, avatar_hash, roles, joined_at, user }),
        _ => None,
    }
}

impl FromJson for Member {
    open spec fn decoded(v: Value) -> Option<MemberView> {
        member_of(v)
    }

    fn from_json(j: &Json) -> (r: Option<Member>) {
        if !j.is_record(member_fields(), 1, 5) {
            return None;
        }
        let roles = list_in::<RoleId>(j, "roles", 2)?;
        assert(views_of(roles@) =~= roles@);
        let user = maybe_in::<User>(j, "user", 4)?;
        assert(opt_view(user) == opt_user(user));
        Some(
            Member {
                nick: maybe_text_in(j, "nick", 0)?,
                avatar_hash: maybe_text_in(j, "avatar", 1)?,
                roles,
                joined_at: maybe_text_in(j, "joined_at", 3)?,
                user,
            },
        )
    }
}

pub open spec fn kind_value(v: Value) -> Option<ChannelKind> {
    match v.unsigned() {
        Some(n) if n <= u8::MAX => Some(super::kind::kind_of(n as u8)),
        _ => None,
    }
}

pub open spec fn i32_value(n: i64) -> Option<i32> {
    if i32::MIN <= n <= i32::MAX {
        Some(n as i32)
    } else {
        None
    }
}

pub open spec fn to_guild(id: Option<u64>) -> Option<GuildId> {
    match id {
        Some(id) => Some(GuildId(Snowflake(id))),
        None => None,
    }
}

pub open spec fn to_channel(id: Option<u64>) -> Option<ChannelId> {
    match id {
        Some(id) => Some(ChannelId(Snowflake(id))),
        None => None,
    }
}

pub open spec fn to_message(id: Option<u64>) -> Option<MessageId> {
    match id {
        Some(id) => Some(MessageId(Snowflake(id))),
        None => None,
    }
}

fn guild_id_in(j: &Json, key: &str, k: usize) -> (r: Option<Option<GuildId>>)
    ensures
        r == (match maybe_id(j@, key@, k as int) {
            Some(id) => Some(to_guild(id)),
            None => None,
        }),
{
    match maybe_id_in(j, key, k) {
        Some(Some(id)) => Some(Some(GuildId(id))),
        Some(None) => Some(None),
        None => None,
    }
}

fn channel_id_in(j: &Json, key: &str, k: usize) -> (r: Option<Option<ChannelId>>)
    ensures
        r == (match maybe_id(j@, key@, k as int) {
            Some(id) => Some(to_channel(id)),
            None => None,
        }),
{
    match maybe_id_in(j, key, k) {
        Some(Some(id)) => Some(Some(ChannelId(id))),
        Some(None) => Some(None),
        None => None,
    }
}

fn message_id_in(j: &Json, key: &str, k: usize) -> (r: Option<Option<MessageId>>)
    ensures
        r == (match maybe_id(j@, key@, k as int) {
            Some(id) => Some(to_message(id)),
            None => None,
        }),
{
    match maybe_id_in(j, key, k) {
        Some(Some(id)) => Some(Some(MessageId(id))),
        Some(None) => Some(None),
        None => None,
    }
}

pub open spec fn kind_field(v: Value) -> Option<ChannelKind> {
    match v.at("type"@, 1) {
        Some(f) => kind_value(f),
        None => None,
    }
}

pub open spec fn position_field(v: Value) -> Option<i32> {
    match integer_or_zero(v, "position"@, 5) {
        Some(n) => i32_value(n),
        None => None,
    }
}

fn kind_in(j: &Json) -> (r: Option<ChannelKind>)
    ensures
        r == kind_field(j@),
{
    match j.at("type", 1) {
        Some(f) => match f.as_unsigned() {
            Some(n) => if n <= u8::MAX as u64 {
                Some(super::kind::kind_from(n as u8))
            } else {
                None
            },
            None => None,
        },
        None => None,
    }
}

fn position_in(j: &Json) -> (r: Option<i32>)
    ensures
        r == position_field(j@),
{
    let n: i64 = integer_in(j, "position", 5)?;
    if i32::MIN as i64 <= n && n <= i32::MAX as i64 {
        Some(n as i32)
    } else {
        None
    }
}

impl FromJson for Channel {
    open spec fn decoded(v: Value) -> Option<ChannelView> {
        match (
            need_id(v, "id"@, 0),
            kind_field(v),
            maybe_text(v, "name"@, 2),
            maybe_id(v, "guild_id"@, 3),
            maybe_id(v, "parent_id"@, 4),
            position_field(v),
            maybe_text(v, "topic"@, 6),
            bool_or_false(v, "nsfw"@, 7),
            list_field::<User>(v, "recipients"@, 8),
            maybe_id(v, "last_message_id"@, 9),
        ) {
            (
                Some(id),
                Some(kind),
                Some(name),
                Some(guild),
                Some(parent),
                Some(position),
                Some(topic),
                Some(nsfw),
                Some(recipients),
                Some(last),
            ) if v.is_record(channel_names(), 2, 10) => Some(
                ChannelView {
                    id: ChannelId(Snowflake(id)),
                    kind,
                    name,
                    guild_id: to_guild(guild),
                    parent_id: to_channel(parent),
                    position,
                    topic,
                    nsfw,
                    recipients,
                    last_message_id: to_message(last),
                },
            ),
            _ => None,
        }
    }

    fn from_json(j: &Json) -> (r: Option<Channel>) {
        if !j.is_record(channel_fields(), 2, 10) {
            return None;
        }
        let recipients = list_in::<User>(j, "recipients", 8)?;
        assert(views_of(recipients@) =~= users_of(recipients@));
        Some(
            Channel {
                id: ChannelId(id_in(j, "id", 0)?),
                kind: kind_in(j)?,
                name: maybe_text_in(j, "name", 2)?,
                guild_id: guild_id_in(j, "guild_id", 3)?,
                parent_id: channel_id_in(j, "parent_id", 4)?,
                position: position_in(j)?,
                topic: maybe_text_in(j, "topic", 6)?,
                nsfw: bool_in(j, "nsfw", 7)?,
                recipients,
                last_message_id: message_id_in(j, "last_message_id", 9)?,
            },
        )
    }
}

/// The fallback place of a guild's name and icon.
pub open spec fn properties_field(v: Value) -> Option<(Option<Seq<char>>, Option<Seq<char>>)> {
    match v.at("properties"@, 6) {
        None => Some((None, None)),
        Some(Value::Null) => Some((None, None)),
        Some(p) => match (maybe_text(p, "name"@, 0), maybe_text(p, "icon"@, 1)) {
            (Some(name), Some(icon)) if p.is_record(property_names(), 0, 2) => Some((name, icon)),
            _ => None,
        },
    }
}

fn properties_in(j: &Json) -> (r: Option<Option<GuildProperties>>)
    ensures
        match r {
            Some(p) => properties_field(j@) == Some(
                (super::property_name(p), super::property_icon(p)),
            ),
            None => properties_field(j@) is None,
        },
{
    match j.at("properties", 6) {
        None => Some(None),
        Some(Json::Null) => Some(None),
        Some(p) => {
            if !p.is_record(property_fields(), 0, 2) {
                return None;
            }
            Some(
                Some(
                    GuildProperties {
                        name: maybe_text_in(p, "name", 0)?,
                        icon: maybe_text_in(p, "icon", 1)?,
                    },
                ),
            )
        },
    }
}

pub open spec fn guild_of(v: Value) -> Option<GuildView> {
    match (
        need_id(v, "id"@, 0),
        maybe_text(v, "name"@, 1),
        maybe_text(v, "icon"@, 2),
        bool_or_false(v, "unavailable"@, 3),
        lenient_field::<Channel>(v, "channels"@, 4),
        lenient_field::<Role>(v, "roles"@, 5),
        properties_field(v),
    ) {
        (
            Some(id),
            Some(name),
            Some(icon),
            Some(unavailable),
            Some(channels),
            Some(roles),
            Some(p),
        ) if v.is_record(guild_names(), 1, 7) => Some(
            GuildView {
                id: GuildId(Snowflake(id)),
                name: or_empty(first_text(name, p.0)),
                icon_hash: first_text(icon, p.1),
                unavailable,
                channels,
                roles,
            },
        ),
        _ => None,
    }
}

impl FromJson for Guild {
    open spec fn decoded(v: Value) -> Option<GuildView> {
        guild_of(v)
    }

    fn from_json(j: &Json) -> (r: Option<Guild>) {
        if !j.is_record(guild_fields(), 1, 7) {
            return None;
        }
        let channels = lenient_in::<Channel>(j, "channels", 4)?;
        assert(views_of(channels@) =~= channels_of(channels@));
        let roles = lenient_in::<Role>(j, "roles", 5)?;
        assert(views_of(roles@) =~= roles_of(roles@));
        Some(
            Guild::from_raw(
                RawGuild {
                    id: GuildId(id_in(j, "id", 0)?),
                    name: maybe_text_in(j, "name", 1)?,
                    icon: maybe_text_in(j, "icon", 2)?,
                    unavailable: bool_in(j, "unavailable", 3)?,
                    channels,
                    roles,
                    properties: properties_in(j)?,
                },
            ),
        )
    }
}

pub open spec fn size_field(v: Value) -> Option<u64> {
    match v.at("size"@, 2) {
        Some(f) => f.unsigned(),
        None => None,
    }
}

impl FromJson for Attachment {
    open spec fn decoded(v: Value) -> Option<AttachmentView> {
        match (
            need_id(v, "id"@, 0),
            need_text(v, "filename"@, 1),
            size_field(v),
            need_text(v, "url"@, 3),
            maybe_text(v, "content_type"@, 4),
            maybe_u32(v, "width"@, 5),
            maybe_u32(v, "height"@, 6),
        ) {
            (
                Some(id),
                Some(filename),
                Some(size),
                Some(url),
                Some(content_type),
                Some(width),
                Some(height),
            ) if v.is_record(attachment_names(), 4, 7) => Some(
                AttachmentView {
                    id: AttachmentId(Snowflake(id)),
                    filename,
                    size,
                    url,
                    content_type,
                    width,
                    height,
                },
            ),
            _ => None,
        }
    }

    fn from_json(j: &Json) -> (r: Option<Attachment>) {
        if !j.is_record(attachment_fields(), 4, 7) {
            return None;
        }
        let size: u64 = match j.at("size", 2) {
            Some(f) => f.as_unsigned()?,
            None => return None,
        };
        Some(
            Attachment {
                id: AttachmentId(id_in(j, "id", 0)?),
                filename: text_in(j, "filename", 1)?,
                size,
                url: text_in(j, "url", 3)?,
                content_type: maybe_text_in(j, "content_type", 4)?,
                width: maybe_u32_in(j, "width", 5)?,
                height: maybe_u32_in(j, "height", 6)?,
            },
        )
    }
}

/// A field found in a record is smaller than the record.
pub proof fn field_is_smaller(v: Value, key: Seq<char>, k: int)
    ensures
        v.at(key, k) matches Some(m) ==> decreases_to!(v => m),
{
    if let Value::Object(o) = v {
        lemma_member_at(o, key, 0);
    }
}

proof fn lemma_member_at(o: Seq<(Seq<char>, Value)>, key: Seq<char>, k: int)
    requires
        0 <= k,
    ensures
        member_from(o, key, k) matches Some(m) ==> exists|i: int|
            0 <= i < o.len() && #[trigger] o[i].1 == m,
    decreases o.len() - k,
{
    if k < o.len() && o[k].0 != key {
        lemma_member_at(o, key, k + 1);
    }
}

pub open spec fn message_of(v: Value) -> Option<MessageView>
    decreases v,
{
    proof {
        field_is_smaller(v, "referenced_message"@, 10);
    }
    let referenced = match v.at("referenced_message"@, 10) {
        None => Some(None),
        Some(Value::Null) => Some(None),
        Some(r) => match message_of(r) {
            Some(m) => Some(Some(Box::new(m))),
            None => None,
        },
    };
    match (
        need_id(v, "id"@, 0),
        need_id(v, "channel_id"@, 1),
        maybe_id(v, "guild_id"@, 2),
        author_field(v),
        text_or_empty(v, "content"@, 4),
        text_or_empty(v, "timestamp"@, 5),
        maybe_text(v, "edited_timestamp"@, 6),
        bool_or_false(v, "pinned"@, 7),
        list_field::<Attachment>(v, "attachments"@, 8),
        maybe_field::<Member>(v, "member"@, 9),
        list_field::<User>(v, "mentions"@, 11),
        (bool_or_false(v, "mention_everyone"@, 12), referenced),
    ) {
        (
            Some(id),
            Some(channel),
            Some(guild),
            Some(author),
            Some(content),
            Some(timestamp),
            Some(edited_timestamp),
            Some(pinned),
            Some(attachments),
            Some(member),
            Some(mentions),
            (Some(mention_everyone), Some(referenced_message)),
        ) if v.is_record(message_names(), 4, 13) => Some(
            MessageView {
                id: MessageId(Snowflake(id)),
                channel_id: ChannelId(Snowflake(channel)),
                guild_id: to_guild(guild),
                author,
                content,
                timestamp,
                edited_timestamp,
                pinned,
                attachments,
                member,
                referenced_message,
                mentions,
                mention_everyone,
            },
        ),
        _ => None,
    }
}

pub open spec fn author_field(v: Value) -> Option<UserView> {
    match v.at("author"@, 3) {
        Some(f) => user_of(f),
        None => None,
    }
}

fn author_in(j: &Json) -> (r: Option<User>)
    ensures
        opt_user(r) == author_field(j@),
{
    match j.at("author", 3) {
        Some(f) => User::from_json(f),
        None => None,
    }
}

/// Reads a message and, below it, the one it answers.
fn read_message(j: &Json) -> (r: Option<Message>)
    ensures
        match r {
            Some(m) => message_of(j@) == Some(m@),
            None => message_of(j@) is None,
        },
    decreases *j,
{
    if !j.is_record(message_fields(), 4, 13) {
        return None;
    }
    let referenced_message = match j.at("referenced_message", 10) {
        None => None,
        Some(Json::Null) => None,
        Some(f) => match read_message(f) {
            Some(m) => Some(Box::new(m)),
            None => return None,
        },
    };
    let attachments = list_in::<Attachment>(j, "attachments", 8)?;
    assert(views_of(attachments@) =~= attachments_of(attachments@));
    let member = maybe_in::<Member>(j, "member", 9)?;
    assert(opt_view(member) == opt_member(member));
    let mentions = list_in::<User>(j, "mentions", 11)?;
    assert(views_of(mentions@) =~= users_of(mentions@));
    Some(
        Message {
            id: MessageId(id_in(j, "id", 0)?),
            channel_id: ChannelId(id_in(j, "channel_id", 1)?),
            guild_id: guild_id_in(j, "guild_id", 2)?,
            author: author_in(j)?,
            content: text_or_empty_in(j, "content", 4)?,
            timestamp: text_or_empty_in(j, "timestamp", 5)?,
            edited_timestamp: maybe_text_in(j, "edited_timestamp", 6)?,
            pinned: bool_in(j, "pinned", 7)?,
            attachments,
            member,
            referenced_message,
            mentions,
            mention_everyone: bool_in(j, "mention_everyone", 12)?,
        },
    )
}

impl FromJson for Message {
    open spec fn decoded(v: Value) -> Option<MessageView> {
        message_of(v)
    }

    fn from_json(j: &Json) -> (r: Option<Message>) {
        read_message(j)
    }
}

impl FromJson for CurrentUser {
    open spec fn decoded(v: Value) -> Option<CurrentUserView> {
        match (
            user_of(v),
            maybe_text(v, "email"@, 0),
            bool_or_false(v, "verified"@, 1),
            bool_or_false(v, "mfa_enabled"@, 2),
        ) {
            (Some(user), Some(email), Some(verified), Some(mfa_enabled)) if v is Object
                && v.is_record(current_names(), 0, 0) => Some(
                CurrentUserView { user, email, verified, mfa_enabled },
            ),
            _ => None,
        }
    }

    fn from_json(j: &Json) -> (r: Option<CurrentUser>) {
        // The user's own fields stand among these, so there is no order in
        // which they could be listed.
        if !matches!(j, Json::Object(_)) || !j.is_record(current_fields(), 0, 0) {
            return None;
        }
        Some(
            CurrentUser {
                user: User::from_json(j)?,
                email: maybe_text_in(j, "email", 0)?,
                verified: bool_in(j, "verified", 1)?,
                mfa_enabled: bool_in(j, "mfa_enabled", 2)?,
            },
        )
    }
}

// ── laws ───────────────────────────────────────────────────────────────────

/// Whether two objects hold the same under each of some names, and equally often
/// more than once.
pub open spec fn agree(v: Value, w: Value, names: Set<Seq<char>>) -> bool {
    &&& v is Object
    &&& w is Object
    &&& forall|name: Seq<char>| names.contains(name) ==> #[trigger] v.get(name) == w.get(name)
    &&& forall|name: Seq<char>|
        names.contains(name) ==> #[trigger] v.repeats(name) == w.repeats(name)
}

pub proof fn lemma_agree(v: Value, w: Value, names: Set<Seq<char>>, least: nat, most: nat)
    requires
        agree(v, w, names),
    ensures
        v.is_record(names, least, most) == w.is_record(names, least, most),
{
    assert forall|name: Seq<char>| names.contains(name) implies v.repeats(name) == w.repeats(
        name,
    ) by {}
    if v.is_record(names, least, most) {
        assert forall|name: Seq<char>| names.contains(name) implies !(#[trigger] w.repeats(
            name,
        )) by {
            assert(!v.repeats(name));
        }
    }
    if w.is_record(names, least, most) {
        assert forall|name: Seq<char>| names.contains(name) implies !(#[trigger] v.repeats(
            name,
        )) by {
            assert(!w.repeats(name));
        }
    }
}

/// Fields nobody knows are ignored: objects that hold the same under the names
/// that a type reads are read alike, whatever else they hold.
pub proof fn unknown_fields_are_ignored(v: Value, w: Value)
    ensures
        agree(v, w, user_names()) ==> User::decoded(v) == User::decoded(w),
        agree(v, w, role_names()) ==> Role::decoded(v) == Role::decoded(w),
        agree(v, w, member_names()) ==> Member::decoded(v) == Member::decoded(w),
        agree(v, w, channel_names()) ==> Channel::decoded(v) == Channel::decoded(w),
        agree(v, w, guild_names()) ==> Guild::decoded(v) == Guild::decoded(w),
        agree(v, w, attachment_names()) ==> Attachment::decoded(v) == Attachment::decoded(w),
        agree(v, w, message_names()) ==> Message::decoded(v) == Message::decoded(w),
        agree(v, w, user_names().union(current_names()))
            ==> CurrentUser::decoded(v) == CurrentUser::decoded(w),
{
    if agree(v, w, user_names()) {
        lemma_agree(v, w, user_names(), 3, 6);
    }
    if agree(v, w, role_names()) {
        lemma_agree(v, w, role_names(), 1, 5);
    }
    if agree(v, w, member_names()) {
        lemma_agree(v, w, member_names(), 1, 5);
    }
    if agree(v, w, channel_names()) {
        lemma_agree(v, w, channel_names(), 2, 10);
    }
    if agree(v, w, guild_names()) {
        lemma_agree(v, w, guild_names(), 1, 7);
    }
    if agree(v, w, attachment_names()) {
        lemma_agree(v, w, attachment_names(), 4, 7);
    }
    if agree(v, w, message_names()) {
        lemma_agree(v, w, message_names(), 4, 13);
    }
    let all = user_names().union(current_names());
    if agree(v, w, all) {
        assert forall|name: Seq<char>| user_names().contains(name) || current_names().contains(
            name,
        ) implies all.contains(name) by {}
        assert(agree(v, w, user_names()));
        assert(agree(v, w, current_names()));
        lemma_agree(v, w, user_names(), 3, 6);
        lemma_agree(v, w, current_names(), 0, 0);
    }
}

/// One more field changes nothing under the other names.
pub proof fn one_more_field_leaves_the_rest(
    v: Value,
    name: Seq<char>,
    x: Value,
    names: Set<Seq<char>>,
)
    requires
        v is Object,
        !names.contains(name),
    ensures
        agree(v, v.with(name, x), names),
{
    assert forall|other: Seq<char>| names.contains(other) implies #[trigger] v.get(other) == v.with(
        name,
        x,
    ).get(other) by {
        lemma_pushed(v->Object_0, name, x, other, 0);
    }
    let o = v->Object_0;
    let p = o.push((name, x));
    assert forall|other: Seq<char>| names.contains(other) implies #[trigger] v.repeats(other)
        == v.with(name, x).repeats(other) by {
        if v.repeats(other) {
            let (a, b) = choose|a: int, b: int| #[trigger] both_under(o, other, a, b);
            assert(both_under(p, other, a, b));
        }
        if v.with(name, x).repeats(other) {
            let (a, b) = choose|a: int, b: int| #[trigger] both_under(p, other, a, b);
            assert(both_under(o, other, a, b));
        }
    }
}

proof fn lemma_pushed(
    o: Seq<(Seq<char>, Value)>,
    name: Seq<char>,
    x: Value,
    other: Seq<char>,
    k: int,
)
    requires
        0 <= k <= o.len(),
        other != name,
    ensures
        member_from(o.push((name, x)), other, k) == member_from(o, other, k),
    decreases o.len() - k,
{
    if k < o.len() {
        lemma_pushed(o, name, x, other, k + 1);
    } else {
        reveal_with_fuel(member_from, 2);
    }
}

} // verus!
