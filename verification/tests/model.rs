//! The domain types and how they are read.

use std::fmt;

use gumicord::json::{Json, Number};
use gumicord::model::asset::{round_up_pow2, Asset, Format, BASE, MAX_SIZE, MIN_SIZE};
use gumicord::model::de::{lenient_in, FromJson};
use gumicord::model::snowflake::DISCORD_EPOCH_MS;
use gumicord::model::token::Token;
use gumicord::model::{
    Attachment, Channel, ChannelId, ChannelKind, Guild, GuildId, Member, Message, Role, RoleId, Snowflake,
    User, UserId,
};

fn plain(v: &serde_json::Value) -> Json {
    match v {
        serde_json::Value::Null => Json::Null,
        serde_json::Value::Bool(b) => Json::Bool(*b),
        serde_json::Value::Number(n) => Json::Number(match (n.as_u64(), n.as_i64()) {
            (Some(u), _) => Number::Unsigned(u),
            (None, Some(i)) => Number::Negative(i),
            (None, None) => Number::Other,
        }),
        serde_json::Value::String(s) => Json::Text(s.clone()),
        serde_json::Value::Array(a) => Json::Array(a.iter().map(plain).collect()),
        serde_json::Value::Object(o) => {
            Json::Object(o.iter().map(|(k, v)| (k.clone(), plain(v))).collect())
        }
    }
}

fn json(s: &str) -> Json {
    plain(&serde_json::from_str(s).expect("malformed JSON"))
}

fn read<T: FromJson>(s: &str) -> Option<T> {
    T::from_json(&json(s))
}

// ── ids ────────────────────────────────────────────────────────────────────

#[test]
fn snowflakes_round_trip_as_strings() {
    let id = Snowflake(1_234_567_890_123_456_789);
    let j = id.to_json();
    assert_eq!(j, json("\"1234567890123456789\""));
    assert_eq!(Snowflake::from_json(&j), Some(id));
}

#[test]
fn a_numeric_snowflake_is_accepted_too() {
    assert_eq!(Snowflake::from_json(&json("123")), Some(Snowflake(123)));
}

#[test]
fn a_bad_snowflake_is_an_error_not_a_panic() {
    assert!(Snowflake::from_json(&json("\"あ\"")).is_none());
    assert!(Snowflake::from_json(&json("null")).is_none());
    assert!(Snowflake::from_json(&json("[]")).is_none());
    assert!(Snowflake::from_str("18446744073709551616").is_err(), "beyond the largest id");
    assert_eq!(Snowflake::from_str("18446744073709551615"), Ok(Snowflake(u64::MAX)));
}

#[test]
fn a_snowflake_carries_its_own_timestamp() {
    assert_eq!(Snowflake(0).created_at_ms(), DISCORD_EPOCH_MS);
    // The low 22 bits are a sequence counter.
    assert_eq!(Snowflake(1 << 22).created_at_ms(), DISCORD_EPOCH_MS + 1);
}

#[test]
fn snowflakes_sort_by_creation_time() {
    let older = Snowflake(1 << 22);
    let newer = Snowflake(9 << 22);
    assert!(older < newer);
    assert!(older.created_at_ms() < newer.created_at_ms());
}

#[test]
fn typed_ids_serialise_like_snowflakes() {
    let c = ChannelId::from(42u64);
    assert_eq!(c.to_json(), json("\"42\""));
    assert_eq!(ChannelId::from_json(&json("\"42\"")), Some(c));
    assert_eq!(c.to_string(), "42");
}

// ── images ─────────────────────────────────────────────────────────────────

#[test]
fn a_size_is_rounded_up_to_a_power_of_two() {
    assert_eq!(round_up_pow2(128), 128);
    assert_eq!(round_up_pow2(100), 128);
    assert_eq!(round_up_pow2(1), MIN_SIZE);
    assert_eq!(round_up_pow2(u16::MAX), MAX_SIZE);
}

#[test]
fn an_animated_key_is_still_requested_as_png() {
    let a = Asset::user_avatar(UserId::from(7u64), "a_abc");
    assert!(a.is_animated());
    assert!(a.url().ends_with("a_abc.png"));
}

#[test]
fn a_fixed_asset_ignores_the_size() {
    let a = Asset::default_avatar(3).with_size(128);
    assert_eq!(a.url(), format!("{BASE}/embed/avatars/3.png"));
    assert_eq!(a.key(), "");
    assert!(!a.is_animated());
}

#[test]
fn size_and_format_stack_onto_the_place() {
    let a = Asset::guild_icon(GuildId::from(1u64), "abc")
        .with_size(100)
        .with_format(Format::Webp);
    assert_eq!(a.url(), format!("{BASE}/icons/1/abc.webp?size=128"));
    assert_eq!(a.to_string(), a.url());
}

// ── tokens ─────────────────────────────────────────────────────────────────

#[test]
fn a_token_never_prints_itself() {
    let t = Token::new("MTIzNDU2Nzg5.secret.abcdefg");

    for s in [t.debug_string(), t.to_string()] {
        assert!(t.is_absent_from(&s), "token leaked into output: {s}");
    }
}

/// Holds a token and shows it the only way there is.
struct Holder {
    token: Token,
    user: &'static str,
}

impl fmt::Debug for Holder {
    fn fmt(&self, f: &mut fmt::Formatter<'_>) -> fmt::Result {
        f.debug_struct("Holder")
            .field("token", &self.token.debug_string())
            .field("user", &self.user)
            .finish()
    }
}

/// Formatting a whole struct is where leaks would happen.
#[test]
fn a_token_nested_in_a_struct_stays_hidden() {
    let s = Holder { token: Token::new("MTIzNDU2Nzg5.secret.abcdefg"), user: "nennneko" };
    let printed = format!("{s:?}");

    assert!(s.token.is_absent_from(&printed));
    assert!(printed.contains("nennneko"), "other fields stay visible");
}

#[test]
fn exposing_is_explicit() {
    let t = Token::new("秘密の値です");
    assert_eq!(t.expose(), "秘密の値です");
}

/// The self-check is an aid, not a guarantee.
#[test]
fn the_self_check_ignores_short_tokens() {
    let t = Token::new("ab");
    assert!(t.is_absent_from("ab appears here"));
}

#[test]
fn the_self_check_finds_a_leak() {
    let t = Token::new("abcdefgh");
    assert!(!t.is_absent_from("xxabcdefghxx"));
    assert!(!t.is_absent_from("abcdefgh"));
    assert!(t.is_absent_from("abcdefg"));
}

// ── lists ──────────────────────────────────────────────────────────────────

fn guilds(s: &str) -> Option<Vec<Guild>> {
    lenient_in::<Guild>(&json(s), "guilds", 0)
}

#[test]
fn an_unreadable_element_does_not_take_the_list_with_it() {
    let list = guilds(
        r#"{"guilds":[
            {"id":"1","name":"ふつう"},
            {"no id at all":true},
            {"id":"3","name":"これも読める"}
        ]}"#,
    )
    .expect("the whole list failed");

    let names: Vec<_> = list.iter().map(|g| &*g.name).collect();
    assert_eq!(names, vec!["ふつう", "これも読める"]);
}

#[test]
fn a_non_list_is_still_an_error() {
    assert!(guilds(r#"{"guilds":42}"#).is_none());
}

/// The shell that caused the original reconnect loop.
#[test]
fn an_unavailable_guild_is_a_shell_but_still_readable() {
    let list = guilds(r#"{"guilds":[{"id":"1","unavailable":true}]}"#).unwrap();

    assert_eq!(list.len(), 1, "the shell was dropped");
    assert!(list[0].unavailable);
    assert!(list[0].name.is_empty());
}

// ── people, channels, messages ─────────────────────────────────────────────

#[test]
fn unknown_fields_are_ignored() {
    let u: User = read(
        r#"{
            "id": "1", "username": "ねんねこ",
            "a field we do not know": {"nested": [1,2,3]}
        }"#,
    )
    .unwrap();
    assert_eq!(u.username, "ねんねこ");
}

#[test]
fn an_unknown_channel_kind_survives() {
    let c: Channel = read(r#"{"id":"1","type":99}"#).unwrap();
    assert_eq!(c.kind, ChannelKind::Unknown(99));
    assert!(!c.kind.is_text());
    assert_eq!(u8::from(c.kind), 99);
}

#[test]
fn known_channel_kinds_round_trip() {
    for k in [
        ChannelKind::GuildText,
        ChannelKind::Dm,
        ChannelKind::GuildVoice,
        ChannelKind::GuildForum,
    ] {
        assert_eq!(ChannelKind::from(u8::from(k)), k);
    }
}

#[test]
fn the_display_name_wins_over_the_username() {
    let u: User = read(r#"{"id":"1","username":"nenneko","global_name":"ねんねこ"}"#).unwrap();
    assert_eq!(u.display_name(), "ねんねこ");

    let u: User = read(r#"{"id":"1","username":"nenneko"}"#).unwrap();
    assert_eq!(u.display_name(), "nenneko");
}

#[test]
fn a_dm_is_named_after_its_recipients() {
    let c: Channel = read(
        r#"{
            "id":"1","type":1,
            "recipients":[{"id":"2","username":"みどり"},{"id":"3","username":"sururu"}]
        }"#,
    )
    .unwrap();
    assert_eq!(c.display_name(), "みどり, sururu");
    assert!(c.kind.is_text());
}

/// An `a_` hash is a GIF, but asking for `.png` returns the first frame. The
/// decoder only reads PNG, so requesting the animated form would render
/// nothing at all.
#[test]
fn even_animated_avatars_are_requested_as_png() {
    let mut u: User = read(r#"{"id":"7","username":"x"}"#).unwrap();
    assert!(u.avatar().is_none());

    u.avatar_hash = Some("a_abc".into());
    let a = u.avatar().unwrap();
    assert!(a.is_animated());
    assert!(a.with_size(64).url().ends_with("a_abc.png?size=64"));

    u.avatar_hash = Some("abc".into());
    let a = u.avatar().unwrap();
    assert!(!a.is_animated());
    assert!(a.with_size(64).url().ends_with("abc.png?size=64"));
}

/// Bots were never migrated, so dropping the four digits would move them onto
/// the current scheme and change their faces.
#[test]
fn the_default_avatar_depends_on_the_old_four_digits() {
    // Current scheme; "0" means absent.
    let u: User = read(r#"{"id":"4194304","username":"x","discriminator":"0"}"#).unwrap();
    assert_eq!(u.tag(), None);
    assert_eq!(u.default_avatar_index(), 1, "(id >> 22) % 6");

    // Legacy scheme.
    let u: User = read(r#"{"id":"4194304","username":"x","discriminator":"0007"}"#).unwrap();
    assert_eq!(u.tag(), Some("0007"));
    assert_eq!(u.default_avatar_index(), 2, "7 % 5");

    // "0000" also means absent.
    let u: User = read(r#"{"id":"4194304","username":"x","discriminator":"0000"}"#).unwrap();
    assert_eq!(u.tag(), None);
    assert_eq!(u.default_avatar_index(), 1);
}

#[test]
fn everyone_has_a_face() {
    let mut u: User = read(r#"{"id":"7","username":"x"}"#).unwrap();
    assert!(u.display_avatar().url().contains("/embed/avatars/"));

    u.avatar_hash = Some("abc".into());
    assert!(u.display_avatar().with_size(64).url().ends_with("abc.png?size=64"));
}

/// People rename themselves per server; showing the global name would leave
/// the reader unable to tell who it is.
#[test]
fn a_guild_overrides_both_the_name_and_the_face() {
    let user: User = read(r#"{"id":"7","username":"nenneko","global_name":"ねんねこ"}"#).unwrap();
    let guild = GuildId::from(1u64);

    let m: Member = read("{}").unwrap();
    assert_eq!(m.display_name(&user), "ねんねこ");
    assert!(m.guild_avatar(guild, user.id).is_none());
    assert!(m.display_avatar(guild, &user).url().contains("/embed/avatars/"));

    let m: Member = read(r#"{"nick":"ねこ","avatar":"xyz"}"#).unwrap();
    assert_eq!(m.display_name(&user), "ねこ");
    assert_eq!(
        m.display_avatar(guild, &user).url(),
        "https://cdn.discordapp.com/guilds/1/users/7/avatars/xyz.png"
    );
}

#[test]
fn a_message_carries_the_senders_guild_face() {
    let m: Message = read(
        r#"{
            "id":"2","channel_id":"9","guild_id":"1","content":"はい",
            "author":{"id":"7","username":"nenneko"},
            "member":{"nick":"ねこ","roles":["3"],"joined_at":"2020-01-01T00:00:00+00:00"}
        }"#,
    )
    .unwrap();
    let member = m.member.as_ref().expect("member was dropped");

    assert_eq!(member.display_name(&m.author), "ねこ");
    assert_eq!(member.roles, vec![RoleId::from(3u64)]);
    assert!(member.user.is_none(), "the sender is author, not member.user");
}

#[test]
fn a_reply_carries_the_message_it_answers() {
    let m: Message = read(
        r#"{
            "id":"2","channel_id":"9","content":"はい",
            "author":{"id":"1","username":"a"},
            "referenced_message":{
                "id":"1","channel_id":"9","content":"ですか？",
                "author":{"id":"2","username":"b"}
            }
        }"#,
    )
    .unwrap();
    assert_eq!(m.referenced_message.unwrap().content, "ですか？");
}

#[test]
fn a_message_without_an_author_is_refused() {
    assert!(read::<Message>(r#"{"id":"2","channel_id":"9","content":"はい"}"#).is_none());
    assert!(read::<Channel>(r#"{"type":0}"#).is_none());
    assert!(read::<User>(r#"{"id":"1"}"#).is_none());
}

// ── guild shapes ───────────────────────────────────────────────────────────

#[test]
fn a_bot_style_guild_reads_its_name_from_the_top_level() {
    let g: Guild = read(r#"{"id":"1","name":"ふつう","icon":"abc"}"#).unwrap();
    assert_eq!(g.name, "ふつう");
    assert_eq!(g.icon_hash.as_deref(), Some("abc"));
    assert!(!g.unavailable);
}

/// The shape that once left the guild list empty.
#[test]
fn a_user_style_guild_reads_its_name_from_properties() {
    let g: Guild = read(
        r#"{
            "id":"1",
            "properties":{"name":"本物","icon":"xyz"},
            "channels":[{"id":"2","type":0,"name":"general"}],
            "lazy":true,
            "member_count":3
        }"#,
    )
    .expect("cannot read the READY shape");

    assert_eq!(g.name, "本物");
    assert_eq!(g.icon_hash.as_deref(), Some("xyz"));
    assert_eq!(g.channels.len(), 1);
}

#[test]
fn an_unavailable_guild_is_just_an_id() {
    let g: Guild = read(r#"{"id":"1","unavailable":true}"#).unwrap();
    assert!(g.unavailable);
    assert!(g.name.is_empty());
    assert!(g.channels.is_empty());
}

#[test]
fn the_top_level_wins_when_both_are_present() {
    let g: Guild = read(r#"{"id":"1","name":"うえ","properties":{"name":"した"}}"#).unwrap();
    assert_eq!(g.name, "うえ");
}

/// READY carries around eighteen fields this client ignores.
#[test]
fn unknown_fields_do_not_break_it() {
    let g: Guild = read(
        r#"{"id":"1","properties":{"name":"x"},
            "application_command_counts":{},"data_mode":"full","emojis":[],
            "guild_scheduled_events":[],"joined_at":"…","large":false,
            "premium_subscription_count":0,"roles":[],"stage_instances":[],
            "stickers":[],"threads":[],"version":12345}"#,
    )
    .unwrap();
    assert_eq!(g.name, "x");
}

// ── roles ──────────────────────────────────────────────────────────────────

/// Failing here would drop the whole role and take its name with it.
#[test]
fn a_null_colour_does_not_take_the_role_with_it() {
    let role: Role =
        read(r#"{ "id": "55", "name": "管理者", "position": 3, "color": null }"#).expect("unreadable");

    assert_eq!(role.name, "管理者");
    assert_eq!(role.tint(), None);
}

#[test]
fn zero_is_not_black() {
    let role: Role = read(r#"{ "id": "55", "name": "みんな", "color": 0 }"#).expect("unreadable");
    assert_eq!(role.tint(), None);
}

#[test]
fn a_colour_comes_through() {
    let role: Role =
        read(r#"{ "id": "55", "name": "管理者", "color": 14688352 }"#).expect("unreadable");
    assert_eq!(role.tint(), Some(14_688_352));
}

#[test]
fn one_unreadable_role_does_not_take_the_guild_with_it() {
    let guild: Guild = read(
        r#"{
            "id": "1", "name": "テスト",
            "roles": [
                { "id": "55", "name": "管理者", "color": 100 },
                { "id": "not an id at all", "name": "壊れている" },
                { "id": "56", "name": "みんな", "color": null }
            ]
        }"#,
    )
    .expect("unreadable");
    assert_eq!(guild.roles.len(), 2);
}

// ── small questions ────────────────────────────────────────────────────────

#[test]
fn only_images_are_images() {
    let file = |kind: &str| {
        read::<Attachment>(&format!(
            r#"{{"id":"1","filename":"f","size":3,"url":"u","content_type":{kind}}}"#
        ))
        .unwrap()
        .is_image()
    };
    assert!(file("\"image/png\""));
    assert!(!file("\"text/plain\""));
    assert!(!file("null"));
}

#[test]
fn a_message_says_whom_it_names() {
    let named = |extra: &str| {
        read::<Message>(&format!(
            r#"{{"id":"2","channel_id":"9","author":{{"id":"7","username":"a"}}{extra}}}"#
        ))
        .unwrap()
        .mentions_me(UserId::from(1u64))
    };
    assert!(named(r#","mentions":[{"id":"1","username":"me"}]"#));
    assert!(!named(r#","mentions":[{"id":"2","username":"you"}]"#));
    assert!(named(r#","mention_everyone":true"#));
    assert!(!named(""));
}

#[test]
fn a_category_is_a_heading() {
    assert!(ChannelKind::GuildCategory.is_category());
    assert!(!ChannelKind::GuildCategory.is_text());
    assert!(!ChannelKind::GuildText.is_category());
}

/// A record may come as the list of its fields in order. What may be missing
/// may be missing at the end.
#[test]
fn a_record_may_come_as_a_list() {
    let listed: User = read(r#"["7", "neko", null, "0"]"#).expect("not read");
    let named: User = read(r#"{"id":"7","username":"neko","discriminator":"0"}"#).unwrap();
    assert_eq!(listed, named);
    assert!(read::<User>(r#"["7", "neko"]"#).is_none(), "too short");
    assert!(read::<User>(r#"["7", "neko", null, "0", null, false, 1]"#).is_none(), "too long");
    let role: Role = read(r#"["3", "mods", 5]"#).expect("not read");
    assert_eq!((role.name.as_str(), role.position, role.hoist), ("mods", 5, false));
}

/// A field that is there twice says nothing; one that nobody knows may be.
#[test]
fn a_repeated_field_is_refused() {
    let member = |name: &str, value: &str| (name.to_owned(), Json::text(value));
    let once = vec![member("id", "7"), member("username", "a"), member("x", "1"), member("x", "2")];
    assert!(User::from_json(&Json::Object(once)).is_some());
    let twice = vec![member("id", "7"), member("username", "a"), member("username", "b")];
    assert!(User::from_json(&Json::Object(twice)).is_none());
}
