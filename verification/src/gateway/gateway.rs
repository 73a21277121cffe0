//! The gateway connection.
//!
//! Nothing but `Fatal` ends it — while the network is down it keeps retrying
//! with growing backoff.
//!
//! ```text
//!   ├─ open the WebSocket ───────▶│
//!   │◀────────────── op=10 Hello ─┤   carries heartbeat_interval
//!   ├─ op=2 Identify ────────────▶│   op=6 when resuming
//!   │◀───────── op=0 t=READY ─────┤
//!   ├─ op=1 Heartbeat ───────────▶│   first one after interval * jitter
//!   │◀────────── op=11 ACK ───────┤
//! ```
//!
//! Resuming connects to `resume_gateway_url`, a region-specific host from
//! READY. Going back to the original host lands on a different server and the
//! resume can fail.
//!
//! A missing heartbeat ACK means the connection is dead. TCP does not notice a
//! severed network for a long time, so this is the only detection there is:
//! drop it and resume rather than waiting.
//!
//! The socket and the clock are the caller's: it hands in what happened and
//! does what it is told. Times are milliseconds on the caller's clock.

use vstd::prelude::*;
use vstd::string::*;
use crate::gateway::ready::{Ready, ReadyView};
use crate::gateway::zstd_stream::{zstd_plain, ZstdStream};
use crate::encoding::base64_encoded;
use crate::json::{json_written, member_from, values_of, Json, Names, Number, Value};
use crate::model::de::FromJson;
use crate::model::identity::{claim_header, claim_json, Claim, Identity};
use crate::model::{opt_text, ChannelId, GuildId, Token, UserId};
use crate::text;

verus! {

/// Where the first connection goes.
pub const GATEWAY: &'static str =
    "wss://gateway.discord.gg/?v=10&encoding=json&compress=zstd-stream";

/// Query appended when resuming; `resume_gateway_url` arrives without one.
pub const QUERY: &'static str = "?v=10&encoding=json&compress=zstd-stream";

/// Where to resume when READY did not say.
pub const FALLBACK_HOST: &'static str = "wss://gateway.discord.gg";

/// Reconnects never stop; the backoff stops growing here.
pub const BACKOFF_MAX_MS: u64 = 60_000;

pub const BACKOFF_MIN_MS: u64 = 1_000;

pub const OP_DISPATCH: u8 = 0;

pub const OP_HEARTBEAT: u8 = 1;

pub const OP_IDENTIFY: u8 = 2;

pub const OP_RESUME: u8 = 6;

pub const OP_RECONNECT: u8 = 7;

/// Requests members by id, 100 at a time.
pub const OP_REQUEST_MEMBERS: u8 = 8;

pub const OP_INVALID_SESSION: u8 = 9;

pub const OP_HELLO: u8 = 10;

pub const OP_HEARTBEAT_ACK: u8 = 11;

/// Announces the watched guild and channel; required for a user token.
pub const OP_GUILD_SUBSCRIBE: u8 = 14;

/// Capabilities requested with a user token: the documented value, sent
/// verbatim.
pub const CAPABILITIES: u64 = 161_789;

/// The next heartbeat came due with the previous one unacknowledged.
pub const CLOSE_NO_ACK: u16 = 4_900;

/// Told to reconnect.
pub const CLOSE_RECONNECT: u16 = 4_901;

/// Invalid session; whether it is resumable is decided by the payload.
pub const CLOSE_INVALID_SESSION: u16 = 4_902;

/// Closed without explanation.
pub const CLOSE_ABNORMAL: u16 = 1_006;

/// The heartbeat interval until Hello arrives.
pub const INITIAL_HEARTBEAT_MS: u64 = 45_000;

/// What is said of a Hello without an interval, where the reader says nothing.
pub const NO_INTERVAL: &'static str = "heartbeat_interval が無い";

/// What is said of a READY that cannot be read, where the reader says nothing.
pub const BAD_READY: &'static str = "READY の形が違う";

// ── what can go wrong ──────────────────────────────────────────────────────

#[derive(Debug, Clone, PartialEq, Eq)]
pub enum GatewayError {
    /// Cannot connect; the transport says why.
    Connect(String),
    /// The bytes do not decompress; the decoder says why.
    Decompress(String),
    /// The answer cannot be read; the reader says why.
    Decode(String),
    /// The connection ended before Hello came.
    NoHello,
    /// The connection was closed with this code.
    Closed(u16),
}

/// [`GatewayError`] with the text as character sequences.
pub ghost enum Failure {
    Connect(Seq<char>),
    Decompress(Seq<char>),
    Decode(Seq<char>),
    NoHello,
    Closed(u16),
}

impl View for GatewayError {
    type V = Failure;

    open spec fn view(&self) -> Failure {
        match *self {
            GatewayError::Connect(s) => Failure::Connect(s@),
            GatewayError::Decompress(s) => Failure::Decompress(s@),
            GatewayError::Decode(s) => Failure::Decode(s@),
            GatewayError::NoHello => Failure::NoHello,
            GatewayError::Closed(c) => Failure::Closed(c),
        }
    }
}

/// The line to show.
pub open spec fn failure_text(e: Failure) -> Seq<char> {
    match e {
        Failure::Connect(s) => "接続できない: "@ + s,
        Failure::Decompress(s) => "解凍できない: "@ + s,
        Failure::Decode(s) => "読めない応答: "@ + s,
        Failure::NoHello => "Hello が来ないまま接続が終わった"@,
        Failure::Closed(code) => "接続が閉じられた (コード "@ + text::dec(code as nat) + ")"@,
    }
}

impl GatewayError {
    /// The line to show.
    pub fn to_string(&self) -> (r: String)
        ensures
            r@ == failure_text(self@),
    {
        match self {
            GatewayError::Connect(s) => text::joined("接続できない: ", s.as_str()),
            GatewayError::Decompress(s) => text::joined("解凍できない: ", s.as_str()),
            GatewayError::Decode(s) => text::joined("読めない応答: ", s.as_str()),
            GatewayError::NoHello => text::owned("Hello が来ないまま接続が終わった"),
            GatewayError::Closed(code) => {
                let mut r = text::joined(
                    "接続が閉じられた (コード ",
                    text::dec_string(*code as u64).as_str(),
                );
                r.append(")");
                r
            },
        }
    }
}

/// Why the connection is over. The caller decides what to do about it.
#[derive(Debug, Clone, PartialEq, Eq)]
pub enum Fatal {
    /// The token was rejected; discard it and return to login.
    Unauthorized,
    /// We sent something wrong; retrying changes nothing.
    Rejected { code: u16, reason: String },
}

/// [`Fatal`] with the text as character sequences.
pub ghost enum FatalView {
    Unauthorized,
    Rejected { code: u16, reason: Seq<char> },
}

impl View for Fatal {
    type V = FatalView;

    open spec fn view(&self) -> FatalView {
        match *self {
            Fatal::Unauthorized => FatalView::Unauthorized,
            Fatal::Rejected { code, reason } => FatalView::Rejected { code, reason: reason@ },
        }
    }
}

/// Why we were rejected, by close code.
pub open spec fn rejection(code: u16) -> Option<Seq<char>> {
    if code == 4010 {
        Some("シャードの指定が誤っている"@)
    } else if code == 4011 {
        Some("シャード分割が必要である"@)
    } else if code == 4012 {
        Some("API の版が古い"@)
    } else if code == 4013 {
        Some("intent の指定が誤っている"@)
    } else if code == 4014 {
        Some("許可されていない intent を要求した"@)
    } else {
        None
    }
}

/// Whether reconnecting is pointless, and why.
///
/// Anything not listed is retried: codes are added without notice, and treating
/// an unknown one as fatal would eject the user over a recoverable disconnect.
pub open spec fn fatal_in(e: Failure) -> Option<FatalView> {
    match e {
        Failure::Closed(code) => if code == 4004 {
            Some(FatalView::Unauthorized)
        } else {
            match rejection(code) {
                Some(reason) => Some(FatalView::Rejected { code, reason }),
                None => None,
            }
        },
        _ => None,
    }
}

pub open spec fn opt_fatal(f: Option<Fatal>) -> Option<FatalView> {
    match f {
        Some(f) => Some(f@),
        None => None,
    }
}

/// Whether reconnecting is pointless, and why.
pub fn fatal_of(error: &GatewayError) -> (r: Option<Fatal>)
    ensures
        opt_fatal(r) == fatal_in(error@),
{
    let code: u16 = match error {
        GatewayError::Closed(code) => *code,
        _ => return None,
    };
    let reason = if code == 4004 {
        // Authentication failed; discard the token.
        return Some(Fatal::Unauthorized);
    } else if code == 4010 {
        "シャードの指定が誤っている"
    } else if code == 4011 {
        "シャード分割が必要である"
    } else if code == 4012 {
        "API の版が古い"
    } else if code == 4013 {
        "intent の指定が誤っている"
    } else if code == 4014 {
        "許可されていない intent を要求した"
    } else {
        return None;
    };
    Some(Fatal::Rejected { code, reason: text::owned(reason) })
}

/// Whether resuming is still worth trying after this failure: not after a bad
/// sequence, an expired or an invalid session.
///
/// When unsure, resume: a wasted resume costs one round trip, while a wasted
/// identify loses the missed events for good.
pub open spec fn resumable(e: Failure) -> bool {
    match e {
        Failure::Closed(code) => code != 4007 && code != 4009 && code != CLOSE_INVALID_SESSION,
        _ => true,
    }
}

/// Whether resuming is still worth trying after this failure.
pub fn recoverable_session(error: &GatewayError) -> (r: bool)
    ensures
        r == resumable(error@),
{
    match error {
        GatewayError::Closed(code) => *code != 4007 && *code != 4009 && *code
            != CLOSE_INVALID_SESSION,
        _ => true,
    }
}

/// Giving up is for the listed codes alone.
pub proof fn unknown_codes_are_retried(e: Failure)
    ensures
        fatal_in(e) is Some ==> (e matches Failure::Closed(code) && (code == 4004 || (4010 <= code
            && code <= 4014))),
{
}

// ── what is sent ───────────────────────────────────────────────────────────

/// One row span of the member list: first and last, both inclusive.
#[derive(Debug, Clone, Copy, PartialEq, Eq, Structural)]
pub struct MemberRange {
    pub first: u32,
    pub last: u32,
}

/// A text without the slashes at its end.
pub open spec fn without_slashes(s: Seq<char>) -> Seq<char>
    decreases s.len(),
{
    if s.len() > 0 && s.last() == '/' {
        without_slashes(s.drop_last())
    } else {
        s
    }
}

/// The URL to connect to; a region-specific host when resuming.
pub open spec fn url_for(resume_host: Option<Seq<char>>) -> Seq<char> {
    match resume_host {
        Some(host) => without_slashes(host) + "/"@ + QUERY@,
        None => GATEWAY@,
    }
}

/// The path separator must survive: with the query appended directly the
/// request line has an empty path, and the same URL would be refused forever.
pub proof fn the_resume_url_keeps_its_path(host: Seq<char>)
    ensures
        ({
            let bare = without_slashes(host);
            let url = url_for(Some(host));
            &&& url.len() > bare.len() + 1
            &&& url[bare.len() as int] == '/'
            &&& url[bare.len() as int + 1] == '?'
            &&& bare.len() > 0 ==> bare.last() != '/'
        }),
{
    reveal_strlit("/");
    reveal_strlit("?v=10&encoding=json&compress=zstd-stream");
    lemma_without_slashes(host);
    let bare = without_slashes(host);
    let url = url_for(Some(host));
    assert(url[bare.len() as int] == "/"@[0]);
    assert(url[bare.len() as int + 1] == QUERY@[0]);
}

proof fn lemma_without_slashes(s: Seq<char>)
    ensures
        without_slashes(s).len() > 0 ==> without_slashes(s).last() != '/',
    decreases s.len(),
{
    if s.len() > 0 && s.last() == '/' {
        lemma_without_slashes(s.drop_last());
    }
}

/// The URL to connect to; a region-specific host when resuming.
pub fn connect_url(resume_host: Option<&str>) -> (r: String)
    ensures
        r@ == url_for(
            match resume_host {
                Some(h) => Some(h@),
                None => None,
            },
        ),
{
    match resume_host {
        Some(host) => {
            let c = text::chars(host);
            let mut n: usize = c.len();
            assert(c@.take(n as int) =~= host@);
            while n > 0 && c[n - 1] == '/'
                invariant
                    n <= c@.len(),
                    c@ == host@,
                    without_slashes(host@) == without_slashes(c@.take(n as int)),
                decreases n,
            {
                assert(c@.take(n as int).drop_last() =~= c@.take(n - 1));
                n -= 1;
            }
            let mut r = text::piece(c.as_slice(), 0, n);
            assert(r@ =~= c@.take(n as int));
            r.append("/");
            r.append(QUERY);
            r
        },
        None => text::owned(GATEWAY),
    }
}

pub open spec fn message(op: u8, d: Value) -> Value {
    Value::Object(seq![]).with("op"@, Value::Number(Number::Unsigned(op as u64))).with("d"@, d)
}

fn packed(op: u8, d: Json) -> (r: Json)
    ensures
        r@ == message(op, d@),
{
    Json::object().with("op", Json::number(op as u64)).with("d", d)
}

pub open spec fn range_value(r: MemberRange) -> Value {
    Value::Array(
        seq![
            Value::Number(Number::Unsigned(r.first as u64)),
            Value::Number(Number::Unsigned(r.last as u64)),
        ],
    )
}

pub open spec fn ranges_value(r: Seq<MemberRange>) -> Value {
    Value::Array(r.map_values(|r: MemberRange| range_value(r)))
}

fn range_json(r: MemberRange) -> (j: Json)
    ensures
        j@ == range_value(r),
{
    let mut a: Vec<Json> = Vec::new();
    a.push(Json::number(r.first as u64));
    a.push(Json::number(r.last as u64));
    proof {
        crate::json::lemma_array_view(a);
        assert(values_of(a@) =~= range_value(r)->Array_0);
    }
    Json::Array(a)
}

fn ranges_json(r: &Vec<MemberRange>) -> (j: Json)
    ensures
        j@ == ranges_value(r@),
{
    let ghost want = ranges_value(r@)->Array_0;
    let mut a: Vec<Json> = Vec::new();
    let mut i: usize = 0;
    while i < r.len()
        invariant
            i <= r@.len(),
            want == r@.map_values(|r: MemberRange| range_value(r)),
            values_of(a@) =~= want.take(i as int),
        decreases r@.len() - i,
    {
        let ghost before = a@;
        a.push(range_json(r[i]));
        assert(values_of(a@) =~= values_of(before).push(range_value(r@[i as int])));
        i += 1;
    }
    proof {
        crate::json::lemma_array_view(a);
        assert(values_of(a@) =~= want);
    }
    Json::Array(a)
}

pub open spec fn subscription(guild: GuildId, channel: ChannelId, ranges: Seq<MemberRange>) -> Value {
    message(
        OP_GUILD_SUBSCRIBE,
        Value::Object(seq![]).with("guild_id"@, Value::Text(text::dec(guild.0.0 as nat))).with(
            "typing"@,
            Value::Bool(true),
        ).with("threads"@, Value::Bool(false)).with("activities"@, Value::Bool(true)).with(
            "channels"@,
            Value::Object(seq![]).with(text::dec(channel.0.0 as nat), ranges_value(ranges)),
        ),
    )
}

/// Announces what is being watched.
///
/// The ranges say which rows of the member list are wanted; only those rows
/// arrive. The subscription does not work without them, so the caller always
/// supplies at least one.
pub fn subscribe(guild: GuildId, channel: ChannelId, ranges: &Vec<MemberRange>) -> (r: Json)
    ensures
        r@ == subscription(guild, channel, ranges@),
{
    let channels = Json::object().with(
        text::dec_string(channel.get()).as_str(),
        ranges_json(ranges),
    );
    let d = Json::object().with("guild_id", Json::Text(text::dec_string(guild.get()))).with(
        "typing",
        Json::Bool(true),
    ).with("threads", Json::Bool(false)).with("activities", Json::Bool(true)).with(
        "channels",
        channels,
    );
    packed(OP_GUILD_SUBSCRIBE, d)
}

pub open spec fn user_value(u: UserId) -> Value {
    Value::Text(text::dec(u.0.0 as nat))
}

pub open spec fn member_request(guild: GuildId, users: Seq<UserId>) -> Value {
    message(
        OP_REQUEST_MEMBERS,
        Value::Object(seq![]).with("guild_id"@, Value::Text(text::dec(guild.0.0 as nat))).with(
            "user_ids"@,
            Value::Array(users.map_values(|u: UserId| user_value(u))),
        ).with("presences"@, Value::Bool(false)),
    )
}

/// Requests members by id, 100 at a time.
///
/// No presences: the member list already carries who is online.
pub fn request_members(guild: GuildId, users: &Vec<UserId>) -> (r: Json)
    ensures
        r@ == member_request(guild, users@),
{
    let ghost want = users@.map_values(|u: UserId| user_value(u));
    let mut ids: Vec<Json> = Vec::new();
    let mut i: usize = 0;
    while i < users.len()
        invariant
            i <= users@.len(),
            want == users@.map_values(|u: UserId| user_value(u)),
            values_of(ids@) =~= want.take(i as int),
        decreases users@.len() - i,
    {
        let ghost before = ids@;
        ids.push(Json::Text(text::dec_string(users[i].get())));
        assert(values_of(ids@) =~= values_of(before).push(user_value(users@[i as int])));
        i += 1;
    }
    proof {
        crate::json::lemma_array_view(ids);
        assert(values_of(ids@) =~= want);
    }
    let d = Json::object().with("guild_id", Json::Text(text::dec_string(guild.get()))).with(
        "user_ids",
        Json::Array(ids),
    ).with("presences", Json::Bool(false));
    packed(OP_REQUEST_MEMBERS, d)
}

pub open spec fn zero() -> Value {
    Value::Number(Number::Unsigned(0))
}

pub open spec fn minus_one() -> Value {
    Value::Number(Number::Negative((-1) as i64))
}

pub open spec fn presence_value() -> Value {
    Value::Object(seq![]).with("status"@, Value::Text("unknown"@)).with("since"@, zero()).with(
        "activities"@,
        Value::Array(seq![]),
    ).with("afk"@, Value::Bool(false))
}

pub open spec fn client_state_value() -> Value {
    Value::Object(seq![]).with("guild_versions"@, Value::Object(seq![])).with(
        "highest_last_message_id"@,
        Value::Text("0"@),
    ).with("read_state_version"@, zero()).with("user_guild_settings_version"@, minus_one()).with(
        "user_settings_version"@,
        minus_one(),
    ).with("private_channels_version"@, Value::Text("0"@)).with("api_code_version"@, zero())
}

/// The identify payload of a token and a claim.
pub open spec fn identification(token: Seq<char>, claim: Claim) -> Value {
    message(
        OP_IDENTIFY,
        Value::Object(seq![]).with("token"@, Value::Text(token)).with(
            "capabilities"@,
            Value::Number(Number::Unsigned(CAPABILITIES)),
        ).with("properties"@, claim_json(claim)).with("presence"@, presence_value()).with(
            "compress"@,
            Value::Bool(false),
        ).with("client_state"@, client_state_value()),
    )
}

/// Both transports claim the same thing: what identifying sends as properties
/// is what the REST header holds, written as JSON and base64-encoded.
pub proof fn both_transports_claim_the_same(token: Seq<char>, claim: Claim)
    ensures
        identification(token, claim).get("d"@) matches Some(d) && d.get("properties"@) matches Some(
            p,
        ) && p == claim_json(claim) && claim_header(claim) == base64_encoded(json_written(p)),
{
    reveal_strlit("op");
    reveal_strlit("d");
    reveal_strlit("token");
    reveal_strlit("capabilities");
    reveal_strlit("properties");
        assert("properties"@[0] == 'p');
    assert("token"@[0] == 't');
    assert("capabilities"@[0] == 'c');
    assert("op"@.len() == 2 && "d"@.len() == 1);
    let whole = identification(token, claim)->Object_0;
    assert(whole[0].0 == "op"@ && whole[1].0 == "d"@);
    let d = whole[1].1;
    assert(member_from(whole, "d"@, 1) == Some(d));
    let inner = d->Object_0;
    assert(inner[0].0 == "token"@ && inner[1].0 == "capabilities"@);
    assert(inner[2] == ("properties"@, claim_json(claim)));
    assert(member_from(inner, "properties"@, 2) == Some(claim_json(claim)));
    assert(member_from(inner, "properties"@, 1) == Some(claim_json(claim)));
    assert(member_from(inner, "properties"@, 0) == Some(claim_json(claim)));
}

fn empty_array() -> (r: Json)
    ensures
        r@ == Value::Array(seq![]),
{
    let a: Vec<Json> = Vec::new();
    proof {
        crate::json::lemma_array_view(a);
        assert(values_of(a@) =~= seq![]);
    }
    Json::Array(a)
}

/// The identify payload.
///
/// The claim comes from one place; rebuilding it here would let it drift from
/// the REST header, and the disagreement is itself a signal.
pub fn identify(token: &Token, identity: &Identity) -> (r: Json)
    ensures
        r@ == identification(token@, identity@),
{
    let presence = Json::object().with("status", Json::text("unknown")).with(
        "since",
        Json::number(0),
    ).with("activities", empty_array()).with("afk", Json::Bool(false));
    let state = Json::object().with("guild_versions", Json::object()).with(
        "highest_last_message_id",
        Json::text("0"),
    ).with("read_state_version", Json::number(0)).with(
        "user_guild_settings_version",
        Json::Number(Number::Negative(-1)),
    ).with("user_settings_version", Json::Number(Number::Negative(-1))).with(
        "private_channels_version",
        Json::text("0"),
    ).with("api_code_version", Json::number(0));
    let d = Json::object().with("token", Json::text(token.expose())).with(
        "capabilities",
        Json::number(CAPABILITIES),
    ).with("properties", identity.properties()).with("presence", presence).with(
        "compress",
        Json::Bool(false),
    ).with("client_state", state);
    packed(OP_IDENTIFY, d)
}

pub open spec fn seq_value(s: Option<u64>) -> Value {
    match s {
        Some(n) => Value::Number(Number::Unsigned(n)),
        None => Value::Null,
    }
}

fn seq_json(s: Option<u64>) -> (r: Json)
    ensures
        r@ == seq_value(s),
{
    match s {
        Some(n) => Json::number(n),
        None => Json::Null,
    }
}

pub open spec fn beat(last: Option<u64>) -> Value {
    message(OP_HEARTBEAT, seq_value(last))
}

fn heartbeat(last: Option<u64>) -> (r: Json)
    ensures
        r@ == beat(last),
{
    packed(OP_HEARTBEAT, seq_json(last))
}

// ── sessions ───────────────────────────────────────────────────────────────

/// What resuming needs; survives a disconnect.
#[derive(Debug, Clone, PartialEq, Eq)]
pub struct SessionInfo {
    pub id: String,
    pub url: String,
    pub seq: Option<u64>,
}

/// [`SessionInfo`] with the text as character sequences.
pub ghost struct SessionView {
    pub id: Seq<char>,
    pub url: Seq<char>,
    pub seq: Option<u64>,
}

impl View for SessionInfo {
    type V = SessionView;

    open spec fn view(&self) -> SessionView {
        SessionView { id: self.id@, url: self.url@, seq: self.seq }
    }
}

pub open spec fn opt_session(s: Option<SessionInfo>) -> Option<SessionView> {
    match s {
        Some(s) => Some(s@),
        None => None,
    }
}

pub open spec fn resumption(token: Seq<char>, s: SessionView) -> Value {
    message(
        OP_RESUME,
        Value::Object(seq![]).with("token"@, Value::Text(token)).with(
            "session_id"@,
            Value::Text(s.id),
        ).with("seq"@, seq_value(s.seq)),
    )
}

fn resume(token: &Token, s: &SessionInfo) -> (r: Json)
    ensures
        r@ == resumption(token@, s@),
{
    let d = Json::object().with("token", Json::text(token.expose())).with(
        "session_id",
        Json::text(s.id.as_str()),
    ).with("seq", seq_json(s.seq));
    packed(OP_RESUME, d)
}

// ── events ─────────────────────────────────────────────────────────────────

/// What the gateway delivers.
#[derive(Debug, PartialEq)]
pub enum Event {
    /// Connected, with the initial state.
    Ready(Box<Ready>),
    /// The gap was filled; no `Ready` follows.
    Resumed,
    /// An event with no type of its own yet, passed through untouched: which
    /// ones matter is the store's decision.
    Dispatch { kind: String, data: Json },
    /// Dropped; retrying continues. For display only.
    Reconnecting { reason: String, wait_ms: u64 },
    /// Given up.
    Fatal(Fatal),
}

/// [`Event`] with the text as character sequences.
pub ghost enum EventView {
    Ready(ReadyView),
    Resumed,
    Dispatch { kind: Seq<char>, data: Value },
    Reconnecting { reason: Seq<char>, wait_ms: u64 },
    Fatal(FatalView),
}

impl View for Event {
    type V = EventView;

    open spec fn view(&self) -> EventView {
        match *self {
            Event::Ready(r) => EventView::Ready(r@),
            Event::Resumed => EventView::Resumed,
            Event::Dispatch { kind, data } => EventView::Dispatch { kind: kind@, data: data@ },
            Event::Reconnecting { reason, wait_ms } => EventView::Reconnecting {
                reason: reason@,
                wait_ms,
            },
            Event::Fatal(f) => EventView::Fatal(f@),
        }
    }
}

pub open spec fn opt_event(e: Option<Event>) -> Option<EventView> {
    match e {
        Some(e) => Some(e@),
        None => None,
    }
}

// ── payloads ───────────────────────────────────────────────────────────────

/// One payload as it arrives.
#[derive(Debug, PartialEq)]
pub struct Payload {
    pub op: u8,
    pub d: Option<Json>,
    pub s: Option<u64>,
    pub t: Option<String>,
    /// What the reader has against the data of a Hello or a READY, where it
    /// does not have their shape.
    pub complaint: Option<String>,
}

/// [`Payload`] with the text as character sequences.
pub ghost struct PayloadView {
    pub op: u8,
    pub d: Option<Value>,
    pub s: Option<u64>,
    pub t: Option<Seq<char>>,
    pub complaint: Option<Seq<char>>,
}

pub open spec fn opt_json(j: Option<Json>) -> Option<Value> {
    match j {
        Some(j) => Some(j@),
        None => None,
    }
}

impl View for Payload {
    type V = PayloadView;

    open spec fn view(&self) -> PayloadView {
        PayloadView {
            op: self.op,
            d: opt_json(self.d),
            s: self.s,
            t: opt_text(self.t),
            complaint: opt_text(self.complaint),
        }
    }
}

pub open spec fn payloads_of(v: Seq<Payload>) -> Seq<PayloadView> {
    Seq::new(v.len(), |i: int| v[i]@)
}

/// What is said of data that cannot be read: the reader's words, where there
/// are any.
pub open spec fn said_of(p: PayloadView, otherwise: Seq<char>) -> Seq<char> {
    match p.complaint {
        Some(c) => c,
        None => otherwise,
    }
}

fn said(complaint: Option<String>, otherwise: &str) -> (r: GatewayError)
    ensures
        r@ == Failure::Decode(
            match complaint {
                Some(c) => c@,
                None => otherwise@,
            },
        ),
{
    match complaint {
        Some(c) => GatewayError::Decode(c),
        None => GatewayError::Decode(text::owned(otherwise)),
    }
}

/// A payload's data; null where there is none.
pub open spec fn data_of(p: PayloadView) -> Value {
    match p.d {
        Some(d) => d,
        None => Value::Null,
    }
}

// ── subscriptions ──────────────────────────────────────────────────────────

/// A request to send to the gateway.
#[derive(Debug, Clone, PartialEq, Eq)]
pub enum Request {
    /// We are watching this channel, and which rows of its member list.
    Watch(GuildId, ChannelId, Vec<MemberRange>),
    /// We need these members in this guild.
    Members(GuildId, Vec<UserId>),
}

/// [`Request`] over sequences.
pub ghost enum RequestView {
    Watch(GuildId, ChannelId, Seq<MemberRange>),
    Members(GuildId, Seq<UserId>),
}

impl View for Request {
    type V = RequestView;

    open spec fn view(&self) -> RequestView {
        match *self {
            Request::Watch(g, c, r) => RequestView::Watch(g, c, r@),
            Request::Members(g, u) => RequestView::Members(g, u@),
        }
    }
}

pub open spec fn requests_of(v: Seq<Request>) -> Seq<RequestView> {
    Seq::new(v.len(), |i: int| v[i]@)
}

/// What is waiting to be told to the gateway.
///
/// A user token receives no messages until it subscribes. Guilds arrive marked
/// lazy, and only the guild on screen is subscribed to — sending everything to
/// someone in hundreds of servers would waste both ends. Without this, nothing
/// arrives at all.
#[derive(Debug, Clone, PartialEq, Eq)]
pub struct Subscriptions {
    pub pending: Vec<Request>,
}

impl Subscriptions {
    pub fn new() -> (r: Subscriptions)
        ensures
            requests_of(r.pending@) == Seq::<RequestView>::empty(),
    {
        let r = Subscriptions { pending: Vec::new() };
        assert(requests_of(r.pending@) =~= seq![]);
        r
    }

    /// Announces the watched channel and which rows of the member list to
    /// receive. Safe to call repeatedly.
    pub fn watch(&mut self, guild: GuildId, channel: ChannelId, ranges: Vec<MemberRange>)
        ensures
            requests_of(final(self).pending@) == requests_of(old(self).pending@).push(
                RequestView::Watch(guild, channel, ranges@),
            ),
    {
        let ghost before = self.pending@;
        self.pending.push(Request::Watch(guild, channel, ranges));
        assert(requests_of(self.pending@) =~= requests_of(before).push(
            RequestView::Watch(guild, channel, ranges@),
        ));
    }

    /// Requests members by id; asking for nobody sends nothing.
    ///
    /// REST messages carry no member, so nicknames, per-guild avatars and role
    /// colours only appear once this is asked for.
    ///
    /// At most 100 per call, and never the same person twice: too many of
    /// these gets the connection closed.
    pub fn request_members(&mut self, guild: GuildId, users: Vec<UserId>)
        ensures
            requests_of(final(self).pending@) == (if users@.len() == 0 {
                requests_of(old(self).pending@)
            } else {
                requests_of(old(self).pending@).push(RequestView::Members(guild, users@))
            }),
    {
        if users.len() == 0 {
            return;
        }
        let ghost before = self.pending@;
        self.pending.push(Request::Members(guild, users));
        assert(requests_of(self.pending@) =~= requests_of(before).push(
            RequestView::Members(guild, users@),
        ));
    }
}

/// One watched channel. Each guild has one at most.
#[derive(Debug, Clone, PartialEq, Eq)]
pub struct Watched {
    pub guild: GuildId,
    pub channel: ChannelId,
    pub ranges: Vec<MemberRange>,
}

/// [`Watched`] over sequences.
pub ghost struct WatchedView {
    pub guild: GuildId,
    pub channel: ChannelId,
    pub ranges: Seq<MemberRange>,
}

impl View for Watched {
    type V = WatchedView;

    open spec fn view(&self) -> WatchedView {
        WatchedView { guild: self.guild, channel: self.channel, ranges: self.ranges@ }
    }
}

pub open spec fn watched_of(v: Seq<Watched>) -> Seq<WatchedView> {
    Seq::new(v.len(), |i: int| v[i]@)
}

/// Where a guild stands among the watched ones, or the length.
pub open spec fn watch_index(w: Seq<WatchedView>, guild: GuildId, k: int) -> int
    decreases w.len() - k,
{
    if k < 0 || k >= w.len() {
        w.len() as int
    } else if w[k].guild == guild {
        k
    } else {
        watch_index(w, guild, k + 1)
    }
}

/// Whether exactly this is being watched already.
pub open spec fn watching(w: Seq<WatchedView>, x: WatchedView) -> bool {
    let i = watch_index(w, x.guild, 0);
    i < w.len() && w[i] == x
}

/// What is watched once `x` is: it takes the place of what was watched in its
/// guild.
pub open spec fn rewatched(w: Seq<WatchedView>, x: WatchedView) -> Seq<WatchedView> {
    let i = watch_index(w, x.guild, 0);
    if i < w.len() {
        w.update(i, x)
    } else {
        w.push(x)
    }
}

/// No guild is watched twice.
pub open spec fn one_each(w: Seq<WatchedView>) -> bool {
    forall|i: int, j: int| 0 <= i < j < w.len() ==> (#[trigger] w[i]).guild != (#[trigger] w[j]).guild
}

proof fn lemma_watch_index(w: Seq<WatchedView>, guild: GuildId, k: int)
    requires
        0 <= k <= w.len(),
    ensures
        k <= watch_index(w, guild, k) <= w.len(),
        watch_index(w, guild, k) < w.len() ==> w[watch_index(w, guild, k)].guild == guild,
        forall|i: int| k <= i < watch_index(w, guild, k) ==> (#[trigger] w[i]).guild != guild,
    decreases w.len() - k,
{
    if k < w.len() && w[k].guild != guild {
        lemma_watch_index(w, guild, k + 1);
    }
}

/// Watching keeps one channel per guild, and what was asked for last is what
/// is watched.
pub proof fn watching_replaces(w: Seq<WatchedView>, x: WatchedView)
    requires
        one_each(w),
    ensures
        one_each(rewatched(w, x)),
        watching(rewatched(w, x), x),
{
    lemma_watch_index(w, x.guild, 0);
    let n = rewatched(w, x);
    lemma_watch_index(n, x.guild, 0);
    let i = watch_index(w, x.guild, 0);
    assert(n[i] == x);
}

fn same_ranges(a: &Vec<MemberRange>, b: &Vec<MemberRange>) -> (r: bool)
    ensures
        r == (a@ == b@),
{
    if a.len() != b.len() {
        return false;
    }
    let mut i: usize = 0;
    while i < a.len()
        invariant
            i <= a@.len(),
            a@.len() == b@.len(),
            forall|k: int| 0 <= k < i ==> a@[k] == b@[k],
        decreases a@.len() - i,
    {
        if a[i] != b[i] {
            return false;
        }
        i += 1;
    }
    assert(a@ =~= b@);
    true
}

fn position_of(w: &Vec<Watched>, guild: GuildId) -> (r: usize)
    ensures
        r == watch_index(watched_of(w@), guild, 0),
        r <= w@.len(),
{
    let ghost ws = watched_of(w@);
    let mut i: usize = 0;
    while i < w.len()
        invariant
            i <= w@.len(),
            ws == watched_of(w@),
            watch_index(ws, guild, 0) == watch_index(ws, guild, i as int),
        decreases w@.len() - i,
    {
        if w[i].guild == guild {
            return i;
        }
        i += 1;
    }
    i
}

// ── one connection ─────────────────────────────────────────────────────────

/// What a WebSocket delivers.
#[derive(Debug, Clone, PartialEq, Eq)]
pub enum Frame {
    Binary(Vec<u8>),
    Text(String),
    Close(Option<u16>),
    /// Answered by the WebSocket library.
    Other,
}

/// What to do next: something to deliver, something to send.
#[derive(Debug, PartialEq)]
pub struct Step {
    pub event: Option<Event>,
    pub send: Option<Json>,
}

/// [`Step`] with the text as character sequences.
pub ghost struct StepView {
    pub event: Option<EventView>,
    pub send: Option<Value>,
}

impl View for Step {
    type V = StepView;

    open spec fn view(&self) -> StepView {
        StepView { event: opt_event(self.event), send: opt_json(self.send) }
    }
}

pub open spec fn quiet() -> StepView {
    StepView { event: None, send: None }
}

pub open spec fn delivers(e: EventView) -> StepView {
    StepView { event: Some(e), send: None }
}

pub open spec fn sends(v: Value) -> StepView {
    StepView { event: None, send: Some(v) }
}

pub open spec fn step_of(r: Result<Step, GatewayError>) -> Result<StepView, Failure> {
    match r {
        Ok(s) => Ok(s@),
        Err(e) => Err(e@),
    }
}

/// State for one connection; discarded entirely on reconnect.
pub struct Connection {
    /// One stream spanning frames, so it lives as long as the connection.
    zstd: ZstdStream,
    heartbeat_ms: u64,
    /// When the next heartbeat is due.
    next_beat: u64,
    /// Whether the last heartbeat was acknowledged; if not, the connection is
    /// dead.
    acked: bool,
    last_seq: Option<u64>,
    /// Leftovers from a frame that held several payloads.
    queued: Vec<Payload>,
}

/// [`Connection`] as it is seen from outside.
pub ghost struct Conn {
    pub fed: Seq<u8>,
    pub heartbeat_ms: u64,
    pub next_beat: u64,
    pub acked: bool,
    pub last_seq: Option<u64>,
    pub queued: Seq<PayloadView>,
}

impl View for Connection {
    type V = Conn;

    closed spec fn view(&self) -> Conn {
        Conn {
            fed: self.zstd.fed(),
            heartbeat_ms: self.heartbeat_ms,
            next_beat: self.next_beat,
            acked: self.acked,
            last_seq: self.last_seq,
            queued: payloads_of(self.queued@),
        }
    }
}

/// A moment `ms` after `now`, or the last one there is.
pub open spec fn later(now: u64, ms: u64) -> u64 {
    if now + ms > u64::MAX {
        u64::MAX
    } else {
        (now + ms) as u64
    }
}

fn add_ms(now: u64, ms: u64) -> (r: u64)
    ensures
        r == later(now, ms),
{
    if ms > u64::MAX - now {
        u64::MAX
    } else {
        now + ms
    }
}

/// How long to wait before the first heartbeat: a share of the interval, in
/// billionths.
pub open spec fn jittered(heartbeat_ms: u64, nanos: u32) -> u64 {
    (heartbeat_ms * nanos / 1_000_000_000) as u64
}

/// The first heartbeat never waits longer than the interval.
pub proof fn the_first_beat_is_early(heartbeat_ms: u64, nanos: u32)
    requires
        nanos < 1_000_000_000,
    ensures
        heartbeat_ms * nanos / 1_000_000_000 <= heartbeat_ms,
{
    assert(heartbeat_ms * nanos <= heartbeat_ms * 1_000_000_000) by (nonlinear_arith)
        requires
            nanos < 1_000_000_000,
    ;
}

/// The state after a payload's sequence number was noted.
pub open spec fn noted(c: Conn, s: Option<u64>) -> Conn {
    match s {
        Some(n) => Conn { last_seq: Some(n), ..c },
        None => c,
    }
}

pub open spec fn session_noted(session: Option<SessionView>, s: Option<u64>) -> Option<SessionView> {
    match (session, s) {
        (Some(i), Some(n)) => Some(SessionView { seq: Some(n), ..i }),
        _ => session,
    }
}

/// The session that READY opens.
pub open spec fn session_from(r: ReadyView, last: Option<u64>) -> SessionView {
    SessionView {
        id: r.session_id,
        url: match r.resume_gateway_url {
            Some(u) => u,
            None => FALLBACK_HOST@,
        },
        seq: last,
    }
}

pub open spec fn kind_of_event(p: PayloadView) -> Seq<char> {
    match p.t {
        Some(t) => t,
        None => seq![],
    }
}

pub open spec fn is_ready(p: PayloadView) -> bool {
    p.op == OP_DISPATCH && kind_of_event(p) == "READY"@
}

/// What a payload leads to.
pub open spec fn handled(c: Conn, p: PayloadView) -> Result<StepView, Failure> {
    if p.op == OP_DISPATCH {
        if kind_of_event(p) == "READY"@ {
            match Ready::decoded(data_of(p)) {
                Some(r) => Ok(delivers(EventView::Ready(r))),
                None => Err(Failure::Decode(said_of(p, BAD_READY@))),
            }
        } else if kind_of_event(p) == "RESUMED"@ {
            Ok(delivers(EventView::Resumed))
        } else {
            Ok(delivers(EventView::Dispatch { kind: kind_of_event(p), data: data_of(p) }))
        }
    } else if p.op == OP_HEARTBEAT {
        Ok(sends(beat(noted(c, p.s).last_seq)))
    } else if p.op == OP_RECONNECT {
        Err(Failure::Closed(CLOSE_RECONNECT))
    } else if p.op == OP_INVALID_SESSION {
        Err(Failure::Closed(CLOSE_INVALID_SESSION))
    } else {
        Ok(quiet())
    }
}

/// The connection after a payload.
pub open spec fn conn_after(c: Conn, p: PayloadView, now: u64) -> Conn {
    let n = noted(c, p.s);
    if p.op == OP_HEARTBEAT {
        Conn { acked: false, next_beat: later(now, c.heartbeat_ms), ..n }
    } else if p.op == OP_HEARTBEAT_ACK {
        Conn { acked: true, ..n }
    } else {
        n
    }
}

/// The session after a payload.
pub open spec fn session_after(
    session: Option<SessionView>,
    c: Conn,
    p: PayloadView,
) -> Option<SessionView> {
    let n = session_noted(session, p.s);
    if is_ready(p) {
        match Ready::decoded(data_of(p)) {
            Some(r) => Some(session_from(r, noted(c, p.s).last_seq)),
            None => n,
        }
    } else if p.op == OP_INVALID_SESSION {
        match p.d {
            Some(Value::Bool(true)) => n,
            _ => None,
        }
    } else {
        n
    }
}

/// What happened while waiting.
#[derive(Debug, Clone, PartialEq, Eq)]
pub enum Waited {
    /// The next heartbeat came due.
    Beat,
    /// A frame was read, and what it held was queued.
    Received,
    /// The socket ended.
    Ended,
    /// Someone asked for something.
    Asked(Request),
}

/// [`Waited`] over sequences.
pub ghost enum WaitedView {
    Beat,
    Received,
    Ended,
    Asked(RequestView),
}

impl View for Waited {
    type V = WaitedView;

    open spec fn view(&self) -> WaitedView {
        match *self {
            Waited::Beat => WaitedView::Beat,
            Waited::Received => WaitedView::Received,
            Waited::Ended => WaitedView::Ended,
            Waited::Asked(r) => WaitedView::Asked(r@),
        }
    }
}

pub open spec fn watch_of(r: RequestView) -> Option<WatchedView> {
    match r {
        RequestView::Watch(guild, channel, ranges) => Some(WatchedView { guild, channel, ranges }),
        RequestView::Members(..) => None,
    }
}

/// What something that happened leads to.
pub open spec fn pumped(c: Conn, wanted: Seq<WatchedView>, w: WaitedView) -> Result<
    StepView,
    Failure,
> {
    match w {
        WaitedView::Beat => if c.acked {
            Ok(sends(beat(c.last_seq)))
        } else {
            Err(Failure::Closed(CLOSE_NO_ACK))
        },
        WaitedView::Received => Ok(quiet()),
        WaitedView::Ended => Err(Failure::Closed(CLOSE_ABNORMAL)),
        WaitedView::Asked(RequestView::Members(guild, users)) => Ok(
            sends(member_request(guild, users)),
        ),
        WaitedView::Asked(RequestView::Watch(guild, channel, ranges)) => if watching(
            wanted,
            WatchedView { guild, channel, ranges },
        ) {
            Ok(quiet())
        } else {
            Ok(sends(subscription(guild, channel, ranges)))
        },
    }
}

pub open spec fn conn_pumped(c: Conn, w: WaitedView, now: u64) -> Conn {
    if w is Beat && c.acked {
        Conn { acked: false, next_beat: later(now, c.heartbeat_ms), ..c }
    } else {
        c
    }
}

pub open spec fn wanted_after(wanted: Seq<WatchedView>, w: WaitedView) -> Seq<WatchedView> {
    match w {
        WaitedView::Asked(RequestView::Watch(guild, channel, ranges)) => {
            let x = WatchedView { guild, channel, ranges };
            if watching(wanted, x) {
                wanted
            } else {
                rewatched(wanted, x)
            }
        },
        _ => wanted,
    }
}

/// An identical subscription is never sent twice in a row: once asked for, it
/// is watched, and asking again sends nothing.
pub proof fn subscriptions_are_sent_once(c: Conn, wanted: Seq<WatchedView>, r: RequestView)
    requires
        r is Watch,
        one_each(wanted),
    ensures
        ({
            let w = WaitedView::Asked(r);
            &&& pumped(c, wanted_after(wanted, w), w) == Ok::<StepView, Failure>(quiet())
            &&& wanted_after(wanted_after(wanted, w), w) == wanted_after(wanted, w)
            &&& one_each(wanted_after(wanted, w))
        }),
{
    let x = watch_of(r)->0;
    if !watching(wanted, x) {
        watching_replaces(wanted, x);
    }
}

/// A second heartbeat without an acknowledgement between the two ends the
/// connection.
pub proof fn a_missing_ack_ends_the_connection(c: Conn, wanted: Seq<WatchedView>, now: u64)
    ensures
        pumped(conn_pumped(c, WaitedView::Beat, now), wanted, WaitedView::Beat) == Err::<
            StepView,
            Failure,
        >(Failure::Closed(CLOSE_NO_ACK)),
{
}

/// Where Hello stands among the payloads, or the length.
pub open spec fn hello_at(q: Seq<PayloadView>, k: int) -> int
    decreases q.len() - k,
{
    if k < 0 || k >= q.len() {
        q.len() as int
    } else if q[k].op == OP_HELLO {
        k
    } else {
        hello_at(q, k + 1)
    }
}

pub open spec fn interval_in(p: PayloadView) -> Option<u64> {
    match data_of(p).at("heartbeat_interval"@, 0) {
        Some(f) if data_of(p).is_record(set!["heartbeat_interval"@], 1, 1) => f.unsigned(),
        _ => None,
    }
}

impl Connection {
    /// A connection before Hello.
    pub fn new(now: u64) -> (r: Result<Connection, GatewayError>)
        ensures
            r is Ok,
            match r {
                Ok(c) => c@ == (Conn {
                    fed: seq![],
                    heartbeat_ms: INITIAL_HEARTBEAT_MS,
                    next_beat: later(now, INITIAL_HEARTBEAT_MS),
                    acked: true,
                    last_seq: None,
                    queued: seq![],
                }),
                Err(e) => e@ is Decompress,
            },
    {
        match ZstdStream::new() {
            Ok(zstd) => {
                let c = Connection {
                    zstd,
                    heartbeat_ms: INITIAL_HEARTBEAT_MS,
                    next_beat: add_ms(now, INITIAL_HEARTBEAT_MS),
                    acked: true,
                    last_seq: None,
                    queued: Vec::new(),
                };
                assert(payloads_of(c.queued@) =~= seq![]);
                Ok(c)
            },
            Err(e) => Err(GatewayError::Decompress(e.0)),
        }
    }

    /// What the connection's stream has against a compressed frame, where it
    /// does not take it.
    pub closed spec fn refusal(self, bytes: Seq<u8>) -> Option<Seq<char>> {
        self.zstd.refusal(bytes)
    }

    /// When the next heartbeat is due.
    pub fn next_beat(&self) -> (r: u64)
        ensures
            r == self@.next_beat,
    {
        self.next_beat
    }

    /// Schedules the first heartbeat after interval * jitter, so that clients
    /// do not all beat at once. The clock's low bits are random enough.
    pub fn schedule_first_heartbeat(&mut self, now: u64, nanos: u32)
        requires
            nanos < 1_000_000_000,
        ensures
            final(self)@ == (Conn {
                next_beat: later(now, jittered(old(self)@.heartbeat_ms, nanos)),
                ..old(self)@
            }),
    {
        proof {
            the_first_beat_is_early(self.heartbeat_ms, nanos);
            assert(self.heartbeat_ms as u128 * nanos as u128 <= u128::MAX) by (nonlinear_arith)
                requires
                    self.heartbeat_ms <= 0xffff_ffff_ffff_ffff,
                    nanos <= 0xffff_ffff,
            ;
        }
        let wait: u128 = self.heartbeat_ms as u128 * nanos as u128 / 1_000_000_000;
        self.next_beat = add_ms(now, wait as u64);
    }

    /// Reads one frame: the bytes it completes. None is not an error: a
    /// message may span frames.
    ///
    /// What a compressed frame completes, and whether it is taken, is the
    /// stream's to say.
    pub fn receive(&mut self, frame: Frame) -> (r: Result<Vec<u8>, GatewayError>)
        ensures
            match frame {
                Frame::Binary(bytes) => match old(self).refusal(bytes@) {
                    None => r matches Ok(plain) && final(self)@ == (Conn {
                        fed: old(self)@.fed + bytes@,
                        ..old(self)@
                    }) && zstd_plain(final(self)@.fed) == zstd_plain(old(self)@.fed) + plain@,
                    Some(why) => r matches Err(e) && e@ == Failure::Decompress(why) && final(self)@
                        == (Conn { fed: final(self)@.fed, ..old(self)@ }),
                },
                Frame::Text(t) => r matches Ok(plain) && plain@ == vstd::utf8::encode_utf8(t@)
                    && final(self)@ == old(self)@,
                Frame::Close(code) => r matches Err(e) && e@ == Failure::Closed(
                    match code {
                        Some(c) => c,
                        None => CLOSE_ABNORMAL,
                    },
                ) && final(self)@ == old(self)@,
                Frame::Other => r matches Ok(plain) && plain@.len() == 0 && final(self)@ == old(
                    self,
                )@,
            },
    {
        match frame {
            Frame::Binary(bytes) => match self.zstd.push(bytes.as_slice()) {
                Ok(plain) => Ok(plain),
                Err(e) => Err(GatewayError::Decompress(e.0)),
            },
            // Unexpected given the compression request, but read it anyway.
            Frame::Text(t) => Ok(text::bytes(t.as_str())),
            Frame::Close(code) => Err(
                GatewayError::Closed(
                    match code {
                        Some(c) => c,
                        None => CLOSE_ABNORMAL,
                    },
                ),
            ),
            Frame::Other => Ok(Vec::new()),
        }
    }

    /// Queues the payloads of a frame; one frame can hold several. `broken` is
    /// what the reader has against what follows them, where it could not go on;
    /// the payloads before that are kept.
    pub fn queue(&mut self, payloads: Vec<Payload>, broken: Option<String>) -> (r: Result<
        (),
        GatewayError,
    >)
        ensures
            final(self)@ == (Conn {
                queued: old(self)@.queued + payloads_of(payloads@),
                ..old(self)@
            }),
            match broken {
                Some(e) => r matches Err(f) && f@ == Failure::Decode(e@),
                None => r is Ok,
            },
    {
        let mut payloads = payloads;
        let ghost held = self.queued@;
        let ghost more = payloads@;
        self.queued.append(&mut payloads);
        assert(payloads_of(self.queued@) =~= payloads_of(held) + payloads_of(more));
        match broken {
            Some(e) => Err(GatewayError::Decode(e)),
            None => Ok(()),
        }
    }

    /// The next payload that is queued.
    pub fn next_queued(&mut self) -> (r: Option<Payload>)
        ensures
            match r {
                Some(p) => old(self)@.queued.len() > 0 && p@ == old(self)@.queued[0]
                    && final(self)@ == (Conn { queued: old(self)@.queued.skip(1), ..old(self)@ }),
                None => old(self)@.queued.len() == 0 && final(self)@ == old(self)@,
            },
    {
        if self.queued.len() == 0 {
            return None;
        }
        let ghost held = self.queued@;
        let p = self.queued.remove(0);
        assert(payloads_of(self.queued@) =~= payloads_of(held).skip(1));
        Some(p)
    }

    /// Looks for Hello among what is queued, and takes its heartbeat interval.
    /// What stands before it is dropped. `None` asks for another frame.
    pub fn hello(&mut self) -> (r: Result<Option<u64>, GatewayError>)
        ensures
            ({
                let q = old(self)@.queued;
                let at = hello_at(q, 0);
                let rest = if at < q.len() {
                    q.skip(at + 1)
                } else {
                    seq![]
                };
                match r {
                    Ok(None) => at == q.len() && final(self)@ == (Conn {
                        queued: rest,
                        ..old(self)@
                    }),
                    Ok(Some(ms)) => at < q.len() && interval_in(q[at]) == Some(ms) && final(self)@
                        == (Conn { queued: rest, heartbeat_ms: ms, ..old(self)@ }),
                    Err(e) => at < q.len() && interval_in(q[at]) is None && e@
                        == Failure::Decode(said_of(q[at], NO_INTERVAL@)) && final(self)@ == (Conn {
                        queued: rest,
                        ..old(self)@
                    }),
                }
            }),
    {
        let ghost q = self@.queued;
        let ghost before = self@;
        let ghost mut n: int = 0;
        assert(q.skip(0) =~= q);
        loop
            invariant
                before == old(self)@,
                q == before.queued,
                0 <= n <= q.len(),
                self@ == (Conn { queued: q.skip(n), ..before }),
                hello_at(q, 0) == hello_at(q, n),
            decreases q.len() - n,
        {
            let p = match self.next_queued() {
                Some(p) => p,
                None => {
                    assert(q.skip(n) =~= seq![]);
                    return Ok(None);
                },
            };
            assert(q.skip(n).skip(1) =~= q.skip(n + 1));
            assert(q.skip(n)[0] == q[n]);
            if p.op == OP_HELLO {
                let interval = match &p.d {
                    Some(d) => match d.at("heartbeat_interval", 0) {
                        Some(f) => if d.is_record(Names::none().and("heartbeat_interval"), 1, 1) {
                            f.as_unsigned()
                        } else {
                            None
                        },
                        None => None,
                    },
                    None => None,
                };
                return match interval {
                    Some(ms) => {
                        self.heartbeat_ms = ms;
                        Ok(Some(ms))
                    },
                    None => Err(said(p.complaint, NO_INTERVAL)),
                };
            }
            proof {
                n = n + 1;
            }
        }
    }

    /// Handles one payload.
    pub fn handle(
        &mut self,
        payload: Payload,
        session: &mut Option<SessionInfo>,
        now: u64,
    ) -> (r: Result<Step, GatewayError>)
        ensures
            final(self)@ == conn_after(old(self)@, payload@, now),
            opt_session(*final(session)) == session_after(
                opt_session(*old(session)),
                old(self)@,
                payload@,
            ),
            step_of(r) == handled(old(self)@, payload@),
    {
        if let Some(s) = payload.s {
            self.last_seq = Some(s);
            if let Some(info) = session.take() {
                *session = Some(SessionInfo { id: info.id, url: info.url, seq: Some(s) });
            }
        }
        if payload.op == OP_DISPATCH {
            let kind = match payload.t {
                Some(t) => t,
                None => {
                    let e = String::new();
                    assert(e@ =~= seq![]);
                    e
                },
            };
            let data = match payload.d {
                Some(d) => d,
                None => Json::Null,
            };
            if text::same_text(kind.as_str(), "READY") {
                let ready = match Ready::from_json(&data) {
                    Some(r) => r,
                    None => return Err(said(payload.complaint, BAD_READY)),
                };
                let url = match &ready.resume_gateway_url {
                    Some(u) => u.clone(),
                    None => text::owned(FALLBACK_HOST),
                };
                *session = Some(
                    SessionInfo { id: ready.session_id.clone(), url, seq: self.last_seq },
                );
                Ok(Step { event: Some(Event::Ready(Box::new(ready))), send: None })
            } else if text::same_text(kind.as_str(), "RESUMED") {
                Ok(Step { event: Some(Event::Resumed), send: None })
            } else {
                Ok(Step { event: Some(Event::Dispatch { kind, data }), send: None })
            }
        } else if payload.op == OP_HEARTBEAT {
            // The server asked; answer at once.
            self.acked = false;
            self.next_beat = add_ms(now, self.heartbeat_ms);
            Ok(Step { event: None, send: Some(heartbeat(self.last_seq)) })
        } else if payload.op == OP_HEARTBEAT_ACK {
            self.acked = true;
            Ok(Step { event: None, send: None })
        } else if payload.op == OP_RECONNECT {
            // Told to reconnect; resuming is still allowed.
            Err(GatewayError::Closed(CLOSE_RECONNECT))
        } else if payload.op == OP_INVALID_SESSION {
            // True means resumable; otherwise the session is gone.
            let resumable = match &payload.d {
                Some(Json::Bool(b)) => *b,
                _ => false,
            };
            if !resumable {
                *session = None;
            }
            Err(GatewayError::Closed(CLOSE_INVALID_SESSION))
        } else {
            // The first Hello was consumed on opening; only a duplicate or an
            // unknown opcode reaches here.
            Ok(Step { event: None, send: None })
        }
    }

    /// Acts on what happened while waiting.
    pub fn pump(&mut self, waited: Waited, wanted: &mut Vec<Watched>, now: u64) -> (r: Result<
        Step,
        GatewayError,
    >)
        ensures
            final(self)@ == conn_pumped(old(self)@, waited@, now),
            watched_of(final(wanted)@) == wanted_after(watched_of(old(wanted)@), waited@),
            step_of(r) == pumped(old(self)@, watched_of(old(wanted)@), waited@),
    {
        match waited {
            Waited::Beat => {
                if !self.acked {
                    return Err(GatewayError::Closed(CLOSE_NO_ACK));
                }
                self.acked = false;
                self.next_beat = add_ms(now, self.heartbeat_ms);
                Ok(Step { event: None, send: Some(heartbeat(self.last_seq)) })
            },
            Waited::Received => Ok(Step { event: None, send: None }),
            Waited::Ended => Err(GatewayError::Closed(CLOSE_ABNORMAL)),
            Waited::Asked(Request::Members(guild, users)) => Ok(
                Step { event: None, send: Some(request_members(guild, &users)) },
            ),
            Waited::Asked(Request::Watch(guild, channel, ranges)) => {
                let ghost ws = watched_of(wanted@);
                let ghost x = WatchedView { guild, channel, ranges: ranges@ };
                let i = position_of(wanted, guild);
                if i < wanted.len() {
                    let same = wanted[i].channel == channel && same_ranges(
                        &wanted[i].ranges,
                        &ranges,
                    );
                    proof {
                        lemma_watch_index(ws, guild, 0);
                        assert(ws[i as int] == wanted@[i as int]@);
                    }
                    if same {
                        return Ok(Step { event: None, send: None });
                    }
                }
                let send = subscribe(guild, channel, &ranges);
                // Stored first, so the reconnect that follows a failed send
                // still carries it.
                let entry = Watched { guild, channel, ranges };
                if i < wanted.len() {
                    wanted.set(i, entry);
                } else {
                    wanted.push(entry);
                }
                assert(watched_of(wanted@) =~= rewatched(ws, x));
                Ok(Step { event: None, send: Some(send) })
            },
        }
    }
}

// ── keeping it alive ───────────────────────────────────────────────────────

/// Keeps the connection alive.
pub struct Gateway {
    token: Token,
    conn: Option<Connection>,
    /// What resuming needs; survives a disconnect.
    session: Option<SessionInfo>,
    backoff_ms: u64,
    /// How long to wait before connecting again.
    pending_wait: Option<u64>,
    /// What is being watched, member rows included. Resent on every reconnect:
    /// subscriptions belong to a connection.
    wanted: Vec<Watched>,
}

/// [`Gateway`] as it is seen from outside.
pub ghost struct Link {
    pub token: Seq<char>,
    pub conn: Option<Conn>,
    pub session: Option<SessionView>,
    pub backoff_ms: u64,
    pub pending_wait: Option<u64>,
    pub wanted: Seq<WatchedView>,
}

pub open spec fn opt_conn(c: Option<Connection>) -> Option<Conn> {
    match c {
        Some(c) => Some(c@),
        None => None,
    }
}

impl View for Gateway {
    type V = Link;

    closed spec fn view(&self) -> Link {
        Link {
            token: self.token@,
            conn: opt_conn(self.conn),
            session: opt_session(self.session),
            backoff_ms: self.backoff_ms,
            pending_wait: self.pending_wait,
            wanted: watched_of(self.wanted@),
        }
    }
}

/// Twice the wait, up to the maximum.
pub open spec fn doubled(ms: u64) -> u64 {
    if ms * 2 > BACKOFF_MAX_MS {
        BACKOFF_MAX_MS
    } else {
        (ms * 2) as u64
    }
}

/// The wait before the `n`-th reconnect in a row.
pub open spec fn backoff_after(n: nat) -> u64
    decreases n,
{
    if n == 0 {
        BACKOFF_MIN_MS
    } else {
        doubled(backoff_after((n - 1) as nat))
    }
}

/// The backoff stays between the two bounds, never shrinks while failing, and
/// reaches the maximum.
pub proof fn the_backoff_grows_but_is_capped(n: nat)
    ensures
        BACKOFF_MIN_MS <= backoff_after(n) <= BACKOFF_MAX_MS,
        backoff_after(n) <= backoff_after(n + 1),
        n >= 6 ==> backoff_after(n) == BACKOFF_MAX_MS,
    decreases n,
{
    reveal_with_fuel(backoff_after, 8);
    if n > 0 {
        the_backoff_grows_but_is_capped((n - 1) as nat);
    }
}

/// What is delivered about a failure, before anything is waited for.
pub open spec fn told(g: Link, e: Failure) -> EventView {
    match fatal_in(e) {
        Some(f) => EventView::Fatal(f),
        None => EventView::Reconnecting { reason: failure_text(e), wait_ms: g.backoff_ms },
    }
}

/// A failure that is not the end leaves a wait behind.
pub open spec fn waiting(g: Link) -> Link {
    Link { backoff_ms: doubled(g.backoff_ms), pending_wait: Some(g.backoff_ms), ..g }
}

/// The state after opening failed. The resume host is let go: resuming means
/// nothing against a host that will not answer, and keeping it would repeat the
/// same failure forever.
pub open spec fn after_open_failed(g: Link, e: Failure) -> Link {
    if fatal_in(e) is Some {
        g
    } else {
        Link { session: None, ..waiting(g) }
    }
}

/// Whether the session that is held outlives a broken connection. What an
/// invalid session leaves was decided by its payload already.
pub open spec fn keeps_session(e: Failure) -> bool {
    e == Failure::Closed(CLOSE_INVALID_SESSION) || resumable(e)
}

/// The state after an open connection broke.
pub open spec fn after_broken(g: Link, e: Failure) -> Link {
    if fatal_in(e) is Some {
        Link { conn: None, session: None, ..g }
    } else {
        Link {
            conn: None,
            session: if keeps_session(e) {
                g.session
            } else {
                None
            },
            ..waiting(g)
        }
    }
}

/// A failure is delivered before it is waited for: what is handed out at once
/// names the wait that is still to come, and it is the backoff so far. The end
/// is waited for by nobody.
pub proof fn the_notice_comes_before_the_wait(g: Link, e: Failure)
    ensures
        fatal_in(e) is None ==> told(g, e) == (EventView::Reconnecting {
            reason: failure_text(e),
            wait_ms: g.backoff_ms,
        }),
        fatal_in(e) is None ==> after_open_failed(g, e).pending_wait == Some(g.backoff_ms),
        fatal_in(e) is None ==> after_broken(g, e).pending_wait == Some(g.backoff_ms),
        fatal_in(e) matches Some(f) ==> told(g, e) == EventView::Fatal(f)
            && after_open_failed(g, e).pending_wait == g.pending_wait && after_broken(
            g,
            e,
        ).pending_wait == g.pending_wait,
{
}

/// What a payload leads to, where there is a connection for it.
pub open spec fn link_handled(g: Link, p: PayloadView) -> Result<StepView, Failure> {
    match g.conn {
        Some(c) => handled(c, p),
        None => Err(Failure::NoHello),
    }
}

/// The state after a payload.
pub open spec fn after_payload(g: Link, p: PayloadView, now: u64) -> Link {
    match g.conn {
        Some(c) => Link {
            conn: Some(conn_after(c, p, now)),
            session: session_after(g.session, c, p),
            ..g
        },
        None => g,
    }
}

/// What waiting leads to, where there is a connection.
pub open spec fn link_pumped(g: Link, w: WaitedView) -> Result<StepView, Failure> {
    match g.conn {
        Some(c) => pumped(c, g.wanted, w),
        None => Err(Failure::NoHello),
    }
}

/// The state after waiting.
pub open spec fn after_waiting(g: Link, w: WaitedView, now: u64) -> Link {
    match g.conn {
        Some(c) => Link {
            conn: Some(conn_pumped(c, w, now)),
            wanted: wanted_after(g.wanted, w),
            ..g
        },
        None => g,
    }
}

/// Where the next connection goes.
pub open spec fn link_url(g: Link) -> Seq<char> {
    url_for(
        match g.session {
            Some(s) => Some(s.url),
            None => None,
        },
    )
}

/// What is sent first on the next connection.
pub open spec fn first_message(g: Link, claim: Claim) -> Value {
    match g.session {
        Some(s) => resumption(g.token, s),
        None => identification(g.token, claim),
    }
}

/// An invalid session that is said to be resumable is resumed: the connection
/// breaks, the next one goes to the host of the session that is held, and what
/// it sends first resumes that session from the last number. One that is not is
/// given up, and the next connection identifies.
pub proof fn an_invalid_session_says_whether_to_resume(
    g: Link,
    p: PayloadView,
    now: u64,
    claim: Claim,
)
    requires
        p.op == OP_INVALID_SESSION,
        g.conn is Some,
        g.session is Some,
    ensures
        link_handled(g, p) == Err::<StepView, Failure>(Failure::Closed(CLOSE_INVALID_SESSION)),
        ({
            let next = after_broken(
                after_payload(g, p, now),
                Failure::Closed(CLOSE_INVALID_SESSION),
            );
            let held = g.session->0;
            let s = SessionView {
                seq: match p.s {
                    Some(n) => Some(n),
                    None => held.seq,
                },
                ..held
            };
            if p.d == Some(Value::Bool(true)) {
                &&& next.session == Some(s)
                &&& link_url(next) == url_for(Some(held.url))
                &&& first_message(next, claim) == resumption(g.token, s)
            } else {
                &&& next.session is None
                &&& link_url(next) == GATEWAY@
                &&& first_message(next, claim) == identification(g.token, claim)
            }
        }),
{
}

/// A hiccup of the network keeps the session, so what was missed is filled in.
pub proof fn a_hiccup_keeps_the_session(g: Link, e: Failure)
    requires
        fatal_in(e) is None,
        resumable(e),
    ensures
        after_broken(g, e).session == g.session,
        after_broken(g, e).wanted == g.wanted,
        after_broken(g, e).conn is None,
{
}

/// A host that would not open is never tried again as a resume host.
pub proof fn a_dead_resume_host_is_let_go(g: Link, e: Failure)
    requires
        fatal_in(e) is None,
    ensures
        after_open_failed(g, e).session is None,
        url_for(None) == GATEWAY@,
{
}

/// What an event that arrived asks to send: everything watched, when the
/// connection is new.
pub open spec fn resent(g: Link, e: EventView) -> Seq<Value> {
    if e is Ready || e is Resumed {
        g.wanted.map_values(|w: WatchedView| subscription(w.guild, w.channel, w.ranges))
    } else {
        seq![]
    }
}

impl Gateway {
    /// A gateway before its first connection.
    pub fn new(token: Token) -> (r: Gateway)
        ensures
            r@ == (Link {
                token: token@,
                conn: None,
                session: None,
                backoff_ms: BACKOFF_MIN_MS,
                pending_wait: None,
                wanted: seq![],
            }),
    {
        let r = Gateway {
            token,
            conn: None,
            session: None,
            backoff_ms: BACKOFF_MIN_MS,
            pending_wait: None,
            wanted: Vec::new(),
        };
        assert(watched_of(r.wanted@) =~= seq![]);
        r
    }

    /// How the gateway shows up in logs; the token does not.
    pub fn debug_string(&self) -> (r: String)
        ensures
            r@ == (match (self@.conn, self@.session) {
                (Some(_), Some(_)) => "Gateway { connected: true, resumable: true }"@,
                (Some(_), None) => "Gateway { connected: true, resumable: false }"@,
                (None, Some(_)) => "Gateway { connected: false, resumable: true }"@,
                (None, None) => "Gateway { connected: false, resumable: false }"@,
            }),
    {
        match (self.conn.is_some(), self.session.is_some()) {
            (true, true) => text::owned("Gateway { connected: true, resumable: true }"),
            (true, false) => text::owned("Gateway { connected: true, resumable: false }"),
            (false, true) => text::owned("Gateway { connected: false, resumable: true }"),
            (false, false) => text::owned("Gateway { connected: false, resumable: false }"),
        }
    }

    /// How long to wait, in milliseconds, before anything else. The failure
    /// that asks for it was delivered already.
    pub fn take_wait(&mut self) -> (r: Option<u64>)
        ensures
            r == old(self)@.pending_wait,
            final(self)@ == (Link { pending_wait: None, ..old(self)@ }),
    {
        self.pending_wait.take()
    }

    /// Where to connect.
    pub fn url(&self) -> (r: String)
        ensures
            r@ == link_url(self@),
    {
        match &self.session {
            Some(s) => connect_url(Some(s.url.as_str())),
            None => connect_url(None),
        }
    }

    /// Doubles the backoff, up to the maximum, and says how long to wait now.
    pub fn grow_backoff(&mut self) -> (r: u64)
        ensures
            r == old(self)@.backoff_ms,
            final(self)@ == (Link { backoff_ms: doubled(old(self)@.backoff_ms), ..old(self)@ }),
    {
        let wait = self.backoff_ms;
        self.backoff_ms = if wait > BACKOFF_MAX_MS / 2 {
            BACKOFF_MAX_MS
        } else {
            wait * 2
        };
        wait
    }

    /// Hello was taken: keeps the connection and says what to send first,
    /// resume where there is a session to go on with, identify otherwise.
    pub fn opened(&mut self, conn: Connection, identity: &Identity, now: u64, nanos: u32) -> (r:
        Json)
        requires
            nanos < 1_000_000_000,
        ensures
            r@ == first_message(old(self)@, identity@),
            final(self)@ == (Link {
                conn: Some(
                    Conn {
                        last_seq: match old(self)@.session {
                            Some(s) => s.seq,
                            None => conn@.last_seq,
                        },
                        next_beat: later(now, jittered(conn@.heartbeat_ms, nanos)),
                        ..conn@
                    },
                ),
                ..old(self)@
            }),
    {
        let mut conn = conn;
        let first = match &self.session {
            Some(s) => {
                conn.last_seq = s.seq;
                resume(&self.token, s)
            },
            None => identify(&self.token, identity),
        };
        conn.schedule_first_heartbeat(now, nanos);
        self.conn = Some(conn);
        first
    }

    /// Whether there is a connection.
    pub fn is_connected(&self) -> (r: bool)
        ensures
            r == (self@.conn is Some),
    {
        self.conn.is_some()
    }

    /// What resuming needs, where there is anything to resume.
    pub fn session(&self) -> (r: Option<&SessionInfo>)
        ensures
            match r {
                Some(s) => self@.session == Some(s@),
                None => self@.session is None,
            },
    {
        self.session.as_ref()
    }

    /// When the next heartbeat is due.
    pub fn next_beat(&self) -> (r: Option<u64>)
        ensures
            r == (match self@.conn {
                Some(c) => Some(c.next_beat),
                None => None,
            }),
    {
        match &self.conn {
            Some(c) => Some(c.next_beat()),
            None => None,
        }
    }

    /// What the connection's stream has against a compressed frame, where it
    /// does not take it.
    pub closed spec fn refusal(self, bytes: Seq<u8>) -> Option<Seq<char>> {
        match self.conn {
            Some(c) => c.refusal(bytes),
            None => None,
        }
    }

    /// Reads one frame of the connection: the bytes it completes.
    pub fn receive(&mut self, frame: Frame) -> (r: Result<Vec<u8>, GatewayError>)
        ensures
            match old(self)@.conn {
                None => final(self)@ == old(self)@ && (r matches Err(e) && e@ == Failure::NoHello),
                Some(c) => match frame {
                    Frame::Binary(bytes) => match old(self).refusal(bytes@) {
                        None => r matches Ok(plain) && final(self)@ == (Link {
                            conn: Some(Conn { fed: c.fed + bytes@, ..c }),
                            ..old(self)@
                        }) && zstd_plain(c.fed + bytes@) == zstd_plain(c.fed) + plain@,
                        Some(why) => (r matches Err(e) && e@ == Failure::Decompress(why)) && (
                        final(self)@.conn matches Some(n) && final(self)@ == (Link {
                            conn: Some(Conn { fed: n.fed, ..c }),
                            ..old(self)@
                        })),
                    },
                    Frame::Text(t) => r matches Ok(plain) && plain@ == vstd::utf8::encode_utf8(t@)
                        && final(self)@ == old(self)@,
                    Frame::Close(code) => r matches Err(e) && e@ == Failure::Closed(
                        match code {
                            Some(c) => c,
                            None => CLOSE_ABNORMAL,
                        },
                    ) && final(self)@ == old(self)@,
                    Frame::Other => r matches Ok(plain) && plain@.len() == 0 && final(self)@ == old(
                        self,
                    )@,
                },
            },
    {
        match self.conn.take() {
            Some(mut c) => {
                let r = c.receive(frame);
                self.conn = Some(c);
                r
            },
            None => Err(GatewayError::NoHello),
        }
    }

    /// Queues the payloads of a frame, as [`Connection::queue`] does.
    pub fn queue(&mut self, payloads: Vec<Payload>, broken: Option<String>) -> (r: Result<
        (),
        GatewayError,
    >)
        ensures
            match old(self)@.conn {
                None => final(self)@ == old(self)@ && (r matches Err(e) && e@ == Failure::NoHello),
                Some(c) => final(self)@ == (Link {
                    conn: Some(Conn { queued: c.queued + payloads_of(payloads@), ..c }),
                    ..old(self)@
                }) && match broken {
                    Some(e) => r matches Err(f) && f@ == Failure::Decode(e@),
                    None => r is Ok,
                },
            },
    {
        match self.conn.take() {
            Some(mut c) => {
                let r = c.queue(payloads, broken);
                self.conn = Some(c);
                r
            },
            None => Err(GatewayError::NoHello),
        }
    }

    /// The next payload that is queued.
    pub fn next_queued(&mut self) -> (r: Option<Payload>)
        ensures
            match old(self)@.conn {
                Some(c) if c.queued.len() > 0 => r matches Some(p) && p@ == c.queued[0]
                    && final(self)@ == (Link {
                    conn: Some(Conn { queued: c.queued.skip(1), ..c }),
                    ..old(self)@
                }),
                _ => r is None && final(self)@ == old(self)@,
            },
    {
        match self.conn.take() {
            Some(mut c) => {
                let r = c.next_queued();
                self.conn = Some(c);
                r
            },
            None => None,
        }
    }

    /// Handles one payload: what it does to the connection and to the session.
    pub fn handle(&mut self, payload: Payload, now: u64) -> (r: Result<Step, GatewayError>)
        ensures
            final(self)@ == after_payload(old(self)@, payload@, now),
            step_of(r) == link_handled(old(self)@, payload@),
    {
        match self.conn.take() {
            Some(mut c) => {
                let r = c.handle(payload, &mut self.session, now);
                self.conn = Some(c);
                r
            },
            None => Err(GatewayError::NoHello),
        }
    }

    /// Acts on what happened while waiting.
    pub fn pump(&mut self, waited: Waited, now: u64) -> (r: Result<Step, GatewayError>)
        ensures
            final(self)@ == after_waiting(old(self)@, waited@, now),
            step_of(r) == link_pumped(old(self)@, waited@),
    {
        match self.conn.take() {
            Some(mut c) => {
                let r = c.pump(waited, &mut self.wanted, now);
                self.conn = Some(c);
                r
            },
            None => Err(GatewayError::NoHello),
        }
    }

    /// Lets go of a connection on which the first message could not be sent.
    pub fn abandon(&mut self)
        ensures
            final(self)@ == (Link { conn: None, ..old(self)@ }),
    {
        self.conn = None;
    }

    /// Reported before waiting, or the screen looks frozen for up to a minute.
    fn reconnecting(&mut self, error: &GatewayError) -> (r: Event)
        ensures
            r@ == (EventView::Reconnecting {
                reason: failure_text(error@),
                wait_ms: old(self)@.backoff_ms,
            }),
            final(self)@ == waiting(old(self)@),
    {
        let wait_ms = self.grow_backoff();
        self.pending_wait = Some(wait_ms);
        Event::Reconnecting { reason: error.to_string(), wait_ms }
    }

    /// Opening failed: what to deliver now. The wait that it speaks of is taken
    /// up after that.
    pub fn open_failed(&mut self, error: &GatewayError) -> (r: Event)
        ensures
            r@ == told(old(self)@, error@),
            final(self)@ == after_open_failed(old(self)@, error@),
    {
        if let Some(f) = fatal_of(error) {
            return Event::Fatal(f);
        }
        self.session = None;
        self.reconnecting(error)
    }

    /// An open connection broke: what to deliver now. The wait that it speaks of
    /// is taken up after that.
    pub fn broken(&mut self, error: &GatewayError) -> (r: Event)
        ensures
            r@ == told(old(self)@, error@),
            final(self)@ == after_broken(old(self)@, error@),
    {
        self.conn = None;
        if let Some(f) = fatal_of(error) {
            // Not resumable; drop it.
            self.session = None;
            return Event::Fatal(f);
        }
        let decided = match error {
            GatewayError::Closed(code) => *code == CLOSE_INVALID_SESSION,
            _ => false,
        };
        if !decided && !recoverable_session(error) {
            // The session is gone, but identify still works.
            self.session = None;
        }
        self.reconnecting(error)
    }

    /// Something arrived: the connection works, so the backoff starts over. A
    /// new connection gets every subscription again, or nothing would arrive.
    pub fn arrived(&mut self, event: &Event) -> (r: Vec<Json>)
        ensures
            values_of(r@) == resent(old(self)@, event@),
            final(self)@ == (Link { backoff_ms: BACKOFF_MIN_MS, ..old(self)@ }),
    {
        self.backoff_ms = BACKOFF_MIN_MS;
        let mut out: Vec<Json> = Vec::new();
        if !matches!(event, Event::Ready(_) | Event::Resumed) {
            assert(values_of(out@) =~= seq![]);
            return out;
        }
        let ghost want = resent(self@, event@);
        let ghost now = self@;
        let mut i: usize = 0;
        while i < self.wanted.len()
            invariant
                i <= self.wanted@.len(),
                self@ == now,
                want == watched_of(self.wanted@).map_values(
                    |w: WatchedView| subscription(w.guild, w.channel, w.ranges),
                ),
                values_of(out@) =~= want.take(i as int),
            decreases self.wanted@.len() - i,
        {
            let ghost before = out@;
            let w = &self.wanted[i];
            out.push(subscribe(w.guild, w.channel, &w.ranges));
            assert(want[i as int] == subscription(w.guild, w.channel, w.ranges@));
            assert(values_of(out@) =~= values_of(before).push(want[i as int]));
            i += 1;
        }
        assert(values_of(out@) =~= want);
        out
    }
}

} // verus!
