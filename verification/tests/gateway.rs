//! The connection to the gateway.

use base64::Engine;
use gumicord::gateway::gateway::{
    connect_url, fatal_of, identify, recoverable_session, request_members, subscribe, Connection,
    Event, Fatal, Frame, Gateway, GatewayError, MemberRange, Payload, Request, SessionInfo,
    Subscriptions, Waited, BACKOFF_MAX_MS, BACKOFF_MIN_MS, CLOSE_ABNORMAL, CLOSE_INVALID_SESSION,
    CLOSE_NO_ACK, CLOSE_RECONNECT, OP_DISPATCH, OP_GUILD_SUBSCRIBE, OP_HEARTBEAT_ACK,
};
use gumicord::gateway::proto::put_varint;
use gumicord::gateway::ready::Ready;
use gumicord::gateway::status::Status;
use gumicord::json::{Json, Number};
use gumicord::model::de::FromJson;
use gumicord::model::identity::{Identity, Os, Surroundings};
use gumicord::model::token::Token;
use gumicord::model::{ChannelId, GuildId, UserId};
use std::io::Write;

fn plain(v: &serde_json::Value) -> Json {
    match v {
        serde_json::Value::Null => Json::Null,
        serde_json::Value::Bool(b) => Json::Bool(*b),
        serde_json::Value::Number(n) => Json::Number(match (n.as_u64(), n.as_i64()) {
            (Some(u), _) => Number::Unsigned(u),
            (None, Some(i)) => Number::Negative(i),
            (None, None) => Number::Other,
        }),
        serde_json::Value::String(s) => Json::Text(s.clone()),
        serde_json::Value::Array(a) => Json::Array(a.iter().map(plain).collect()),
        serde_json::Value::Object(o) => {
            Json::Object(o.iter().map(|(k, v)| (k.clone(), plain(v))).collect())
        }
    }
}

fn json(s: &str) -> Json {
    plain(&serde_json::from_str(s).expect("malformed JSON"))
}

fn closed(code: u16) -> GatewayError {
    GatewayError::Closed(code)
}

/// Objects with their members in order of name: which stands first says
/// nothing.
fn ordered(j: &Json) -> Json {
    match j {
        Json::Array(a) => Json::Array(a.iter().map(ordered).collect()),
        Json::Object(o) => {
            let mut o: Vec<(String, Json)> =
                o.iter().map(|(k, v)| (k.clone(), ordered(v))).collect();
            o.sort_by(|a, b| a.0.cmp(&b.0));
            Json::Object(o)
        }
        other => other.copy(),
    }
}

fn identity() -> Identity {
    Identity::detect(&Surroundings {
        os: Os::Other,
        client_version: None,
        client_build: None,
        measured: None,
        system_locale: "ja".to_owned(),
    })
}

fn at<'a>(j: &'a Json, path: &[&str]) -> &'a Json {
    path.iter().fold(j, |j, key| j.get(key).expect("no such member"))
}

fn connection() -> Connection {
    match Connection::new(0) {
        Ok(c) => c,
        Err(e) => panic!("{}", e.to_string()),
    }
}

fn read(v: &serde_json::Value) -> Payload {
    Payload {
        op: v["op"].as_u64().and_then(|n| u8::try_from(n).ok()).expect("no op"),
        d: v.get("d").filter(|d| !d.is_null()).map(plain),
        s: v["s"].as_u64(),
        t: v["t"].as_str().map(str::to_owned),
        complaint: None,
    }
}

fn payload(s: &str) -> Payload {
    read(&serde_json::from_str(s).expect("malformed JSON"))
}

/// The request line's path must start with `/`. Without it the server answers
/// 400, and the retained session makes it retry forever.
#[test]
fn the_resume_url_keeps_its_path() {
    let target = |url: &str| {
        url.parse::<tokio_tungstenite::tungstenite::http::Uri>()
            .expect("a valid URL")
            .path_and_query()
            .expect("a path")
            .as_str()
            .to_owned()
    };

    for host in [
        "wss://gateway-us-east1-b.discord.gg",
        // A trailing slash must not be doubled.
        "wss://gateway-us-east1-b.discord.gg/",
    ] {
        let url = connect_url(Some(host));
        assert!(url.starts_with(&format!("{}/?", host.trim_end_matches('/'))), "{url}");
        assert!(target(&url).starts_with("/?v=10"), "{url}");
    }

    // The first connection has the same shape.
    assert!(target(&connect_url(None)).starts_with("/?v=10"));
}

/// A rejected token is fatal, so the caller can discard it.
#[test]
fn an_invalid_token_is_fatal() {
    assert_eq!(fatal_of(&closed(4004)), Some(Fatal::Unauthorized));
}

/// The subscription carries exactly the rows it was given, under the channel's
/// id as text: asking wider than intended would show in this one place.
#[test]
fn the_subscription_asks_only_for_the_given_rows() {
    let first = MemberRange { first: 0, last: 99 };
    let second = MemberRange { first: 100, last: 199 };
    let payload = subscribe(GuildId::from(2), ChannelId::from(3), &vec![first]);
    assert_eq!(at(&payload, &["op"]).as_unsigned(), Some(OP_GUILD_SUBSCRIBE as u64));
    assert_eq!(*at(&payload, &["d", "guild_id"]), json("\"2\""));
    assert_eq!(*at(&payload, &["d", "typing"]), json("true"));
    assert_eq!(*at(&payload, &["d", "channels", "3"]), json("[[0, 99]]"));

    // Several ranges survive as several spans; scrolling will widen the ask
    // through this same shape.
    let wide = subscribe(GuildId::from(2), ChannelId::from(3), &vec![first, second]);
    assert_eq!(*at(&wide, &["d", "channels", "3"]), json("[[0, 99], [100, 199]]"));
}

/// Unknown codes are retried; new ones come without notice.
#[test]
fn unknown_close_codes_are_retried() {
    for code in [4000, 4001, 4002, 4003, 4005, 4008, 4020, 4999, 1006] {
        assert_eq!(fatal_of(&closed(code)), None, "gave up on code {code}");
    }
}

/// A network close leaves the session alive.
#[test]
fn a_network_hiccup_keeps_the_session() {
    assert!(recoverable_session(&GatewayError::NoHello));
    assert!(recoverable_session(&closed(1006)));
    assert!(recoverable_session(&closed(CLOSE_NO_ACK)));
    assert!(recoverable_session(&closed(CLOSE_RECONNECT)));
}

/// A dead session means starting from identify.
#[test]
fn an_expired_session_is_not_resumed() {
    assert!(!recoverable_session(&closed(4007)));
    assert!(!recoverable_session(&closed(4009)));
    assert!(!recoverable_session(&closed(CLOSE_INVALID_SESSION)));
}

/// The backoff doubles and stops at the maximum.
#[test]
fn the_backoff_grows_but_is_capped() {
    let mut g = Gateway::new(Token::new("x"));
    assert_eq!(g.grow_backoff(), BACKOFF_MIN_MS);
    assert_eq!(g.grow_backoff(), BACKOFF_MIN_MS * 2);
    assert_eq!(g.grow_backoff(), BACKOFF_MIN_MS * 4);

    for _ in 0..20 {
        g.grow_backoff();
    }
    assert_eq!(g.grow_backoff(), BACKOFF_MAX_MS, "grew past the maximum");
}

/// The token never reaches the debug output.
#[test]
fn the_token_never_appears_in_debug() {
    let g = Gateway::new(Token::new("mfa.SUPER_SECRET"));
    let shown = g.debug_string();
    assert!(!shown.contains("SUPER_SECRET"), "トークンが漏れている: {shown}");
}

/// What the gateway and the HTTP headers claim must agree, since a
/// disagreement is itself a signal.
#[test]
fn identify_matches_the_rest_headers() {
    let payload = identify(&Token::new("t"), &identity());
    assert_eq!(
        *at(&payload, &["d", "properties"]),
        identity().properties(),
        "the two claims disagree"
    );
    assert_eq!(*at(&payload, &["d", "token"]), json("\"t\""));
    // The user-token shape; `intents` would be the bot one.
    assert!(matches!(at(&payload, &["d", "capabilities"]), Json::Number(_)));
    assert!(at(&payload, &["d"]).get("intents").is_none());
}

/// READY parses, and unknown fields do not break it.
#[test]
fn ready_is_parsed_and_tolerates_unknown_fields() {
    let ready = Ready::from_json(&json(
        r#"{
            "user": {"id": "1", "username": "ねんねこ"},
            "session_id": "abc",
            "resume_gateway_url": "wss://gateway-us-east1-b.discord.gg",
            "guilds": [{"id": "2", "name": "テスト"}],
            "まだ知らないもの": {"入れ子": [1,2]}
        }"#,
    ))
    .expect("could not read READY");

    assert_eq!(ready.session_id, "abc");
    assert_eq!(ready.guilds.len(), 1);
    assert_eq!(ready.user.user.display_name(), "ねんねこ");
}

/// A missing `resume_gateway_url` is unusual but must still work.
#[test]
fn ready_without_a_resume_url_still_parses() {
    let ready =
        Ready::from_json(&json(r#"{"user":{"id":"1","username":"x"},"session_id":"s"}"#)).unwrap();
    assert!(ready.resume_gateway_url.is_none());
    assert!(ready.guilds.is_empty());
}

/// Several payloads in one frame all get read.
#[test]
fn several_payloads_in_one_frame_are_all_read() {
    let raw = br#"{"op":11}{"op":0,"t":"MESSAGE_CREATE","s":5,"d":{}}"#;
    let values: Vec<Payload> = serde_json::Deserializer::from_slice(raw)
        .into_iter::<serde_json::Value>()
        .map(|v| read(&v.expect("could not read concatenated JSON")))
        .collect();
    let mut c = connection();
    assert!(c.queue(values, None).is_ok());

    let payloads: Vec<Payload> = std::iter::from_fn(|| c.next_queued()).collect();
    assert_eq!(payloads.len(), 2);
    assert_eq!(payloads[0].op, OP_HEARTBEAT_ACK);
    assert_eq!(payloads[1].s, Some(5));
    assert_eq!(payloads[1].t.as_deref(), Some("MESSAGE_CREATE"));
}

/// What stands before an unreadable payload is kept.
#[test]
fn an_unreadable_payload_is_an_error() {
    let mut c = connection();
    let r = c.queue(vec![payload(r#"{"op":11}"#)], Some("missing field `op`".to_owned()));
    assert_eq!(r, Err(GatewayError::Decode("missing field `op`".to_owned())));
    assert_eq!(r.unwrap_err().to_string(), "読めない応答: missing field `op`");
    assert_eq!(c.next_queued().map(|p| p.op), Some(OP_HEARTBEAT_ACK));
    assert!(c.next_queued().is_none());
}

#[test]
fn frames_are_unpacked_by_their_kind() {
    let mut e = zstd::stream::write::Encoder::new(Vec::new(), 0).unwrap();
    e.write_all(br#"{"op":11}"#).unwrap();
    let mut c = connection();
    assert_eq!(c.receive(Frame::Binary(e.finish().unwrap())), Ok(br#"{"op":11}"#.to_vec()));
    assert_eq!(c.receive(Frame::Text("あ".to_owned())), Ok("あ".as_bytes().to_vec()));
    assert_eq!(c.receive(Frame::Other), Ok(Vec::new()));
    assert_eq!(c.receive(Frame::Close(Some(4004))), Err(closed(4004)));
    assert_eq!(c.receive(Frame::Close(None)), Err(closed(CLOSE_ABNORMAL)));
    match connection().receive(Frame::Binary(vec![0xff; 32])) {
        Err(GatewayError::Decompress(why)) => {
            assert!(!why.is_empty());
            let line = GatewayError::Decompress(why.clone()).to_string();
            assert_eq!(line, format!("解凍できない: {why}"));
        }
        other => panic!("{other:?}"),
    }
}

/// Hello sets the interval; what came before it is dropped.
#[test]
fn hello_sets_the_interval() {
    let mut c = connection();
    assert_eq!(c.hello(), Ok(None));
    let hello = payload(r#"{"op":10,"d":{"heartbeat_interval":41250}}"#);
    assert!(c.queue(vec![payload(r#"{"op":11}"#), hello], None).is_ok());
    assert_eq!(c.hello(), Ok(Some(41_250)));
    c.schedule_first_heartbeat(1_000, 500_000_000);
    assert_eq!(c.next_beat(), 1_000 + 20_625, "interval * jitter");

    let mut c = connection();
    assert!(c.queue(vec![payload(r#"{"op":10,"d":{}}"#)], None).is_ok());
    assert!(matches!(c.hello(), Err(GatewayError::Decode(_))));
}

/// READY opens a session, and each sequence number is kept for resuming.
#[test]
fn a_session_carries_the_last_number() {
    let mut c = connection();
    let mut session: Option<SessionInfo> = None;
    let ready = payload(
        r#"{"op":0,"t":"READY","s":1,
            "d":{"user":{"id":"1","username":"x"},"session_id":"abc",
                 "resume_gateway_url":"wss://example"}}"#,
    );
    let step = c.handle(ready, &mut session, 0).unwrap();
    assert!(matches!(step.event, Some(Event::Ready(_))));
    let held = session.clone().expect("no session");
    assert_eq!((held.id.as_str(), held.url.as_str(), held.seq), ("abc", "wss://example", Some(1)));

    let next = payload(r#"{"op":0,"t":"TYPING_START","s":7,"d":{"a":1}}"#);
    let step = c.handle(next, &mut session, 0).unwrap();
    assert_eq!(
        step.event,
        Some(Event::Dispatch { kind: "TYPING_START".to_owned(), data: json(r#"{"a":1}"#) })
    );
    assert_eq!(session.as_ref().and_then(|s| s.seq), Some(7));

    // Asked for a heartbeat, it answers with that number.
    let step = c.handle(payload(r#"{"op":1}"#), &mut session, 0).unwrap();
    assert_eq!(step.send.as_ref().map(ordered), Some(json(r#"{"op":1,"d":7}"#)));

    // Told to reconnect, the session stays; told it is invalid, it goes.
    assert_eq!(c.handle(payload(r#"{"op":7}"#), &mut session, 0), Err(closed(CLOSE_RECONNECT)));
    assert!(session.is_some());
    let invalid = payload(r#"{"op":9,"d":false}"#);
    assert_eq!(c.handle(invalid, &mut session, 0), Err(closed(CLOSE_INVALID_SESSION)));
    assert!(session.is_none());
}

#[test]
fn an_unreadable_ready_is_an_error() {
    let mut bad = payload(r#"{"op":0,"t":"READY","s":1,"d":{"session_id":"abc"}}"#);
    bad.complaint = Some("missing field `user`".to_owned());
    assert_eq!(
        connection().handle(bad, &mut None, 0),
        Err(GatewayError::Decode("missing field `user`".to_owned()))
    );
    let bad = payload(r#"{"op":0,"t":"READY","s":1,"d":{"session_id":"abc"}}"#);
    assert!(matches!(connection().handle(bad, &mut None, 0), Err(GatewayError::Decode(_))));
}

/// An unanswered heartbeat means that the connection is dead.
#[test]
fn a_missing_acknowledgement_closes() {
    let mut c = connection();
    let mut wanted = Vec::new();
    let step = c.pump(Waited::Beat, &mut wanted, 100).unwrap();
    assert_eq!(step.send.as_ref().map(ordered), Some(json(r#"{"op":1,"d":null}"#)));
    assert_eq!(c.pump(Waited::Beat, &mut wanted, 200), Err(closed(CLOSE_NO_ACK)));

    // Acknowledged, it beats on.
    assert!(c.handle(payload(r#"{"op":11}"#), &mut None, 200).is_ok());
    assert!(c.pump(Waited::Beat, &mut wanted, 300).is_ok());
    assert_eq!(c.pump(Waited::Ended, &mut wanted, 300), Err(closed(CLOSE_ABNORMAL)));
}

/// The same wish twice is sent once; a new one takes the guild's place.
#[test]
fn watching_is_sent_once_and_again_on_every_connection() {
    let mut subs = Subscriptions::new();
    let rows = vec![MemberRange { first: 0, last: 99 }];
    subs.watch(GuildId::from(2), ChannelId::from(3), rows.clone());
    subs.request_members(GuildId::from(2), Vec::new());
    subs.request_members(GuildId::from(2), vec![UserId::from(9)]);
    assert_eq!(subs.pending.len(), 2, "asking for nobody sends nothing");

    let mut g = Gateway::new(Token::new("t"));
    g.opened(connection(), &identity(), 0, 0);
    let watch = subs.pending.remove(0);
    let step = g.pump(Waited::Asked(watch.clone()), 0).unwrap();
    assert_eq!(step.send, Some(subscribe(GuildId::from(2), ChannelId::from(3), &rows)));
    let step = g.pump(Waited::Asked(watch), 0).unwrap();
    assert_eq!(step.send, None);
    let members = subs.pending.remove(0);
    let step = g.pump(Waited::Asked(members), 0).unwrap();
    assert_eq!(step.send, Some(request_members(GuildId::from(2), &vec![UserId::from(9)])));

    let other = Request::Watch(GuildId::from(2), ChannelId::from(4), rows.clone());
    assert!(g.pump(Waited::Asked(other), 0).unwrap().send.is_some());
    assert_eq!(
        g.arrived(&Event::Resumed),
        vec![subscribe(GuildId::from(2), ChannelId::from(4), &rows)]
    );
    let event = Event::Dispatch { kind: "X".to_owned(), data: Json::Null };
    assert!(g.arrived(&event).is_empty());
}

/// A gateway whose connection has seen READY and the number 4.
fn signed_in() -> Gateway {
    let mut g = Gateway::new(Token::new("t"));
    assert!(matches!(g.handle(payload(r#"{"op":11}"#), 0), Err(GatewayError::NoHello)));
    g.opened(connection(), &identity(), 0, 0);
    let ready = payload(
        r#"{"op":0,"t":"READY","s":4,
            "d":{"user":{"id":"1","username":"x"},"session_id":"abc",
                 "resume_gateway_url":"wss://example"}}"#,
    );
    assert!(g.queue(vec![ready], None).is_ok());
    let ready = g.next_queued().expect("nothing queued");
    assert!(matches!(g.handle(ready, 0).unwrap().event, Some(Event::Ready(_))));
    assert_eq!(g.session().and_then(|s| s.seq), Some(4));
    g
}

/// The payload of an invalid session decides whether it is resumed.
#[test]
fn an_invalid_session_may_be_resumable() {
    let mut g = signed_in();
    let error = g.handle(payload(r#"{"op":9,"d":true}"#), 0).unwrap_err();
    assert_eq!(error, closed(CLOSE_INVALID_SESSION));
    assert!(matches!(g.broken(&error), Event::Reconnecting { .. }));
    assert!(!g.is_connected() && g.next_beat().is_none());
    assert!(g.url().starts_with("wss://example/?v=10"), "{}", g.url());
    let first = g.opened(connection(), &identity(), 0, 0);
    assert_eq!(
        ordered(&first),
        json(r#"{"op":6,"d":{"token":"t","session_id":"abc","seq":4}}"#)
    );

    let mut g = signed_in();
    let error = g.handle(payload(r#"{"op":9,"d":false}"#), 0).unwrap_err();
    g.broken(&error);
    assert!(g.session().is_none());
    assert!(g.url().starts_with("wss://gateway.discord.gg/"));
    assert_eq!(at(&g.opened(connection(), &identity(), 0, 0), &["op"]), &json("2"));
    g.abandon();
    assert!(!g.is_connected());
}

/// Broken connections resume where they can; hosts that do not open are let go.
#[test]
fn breaking_keeps_what_can_be_resumed() {
    let mut g = signed_in();
    assert_eq!(g.take_wait(), None);
    // Told at once; the wait is still to come.
    assert_eq!(
        g.broken(&closed(1006)),
        Event::Reconnecting { reason: closed(1006).to_string(), wait_ms: BACKOFF_MIN_MS }
    );
    assert!(g.session().is_some());
    assert_eq!(g.take_wait(), Some(BACKOFF_MIN_MS));
    assert_eq!(g.take_wait(), None, "waited twice");
    assert!(g.url().starts_with("wss://example/?v=10"));

    // Opened again, it resumes from the last number.
    let first = g.opened(connection(), &identity(), 0, 0);
    assert_eq!(
        ordered(&first),
        json(r#"{"op":6,"d":{"token":"t","session_id":"abc","seq":4}}"#)
    );
    assert_eq!(g.debug_string(), "Gateway { connected: true, resumable: true }");

    assert_eq!(
        g.open_failed(&GatewayError::Connect("x".to_owned())),
        Event::Reconnecting { reason: "接続できない: x".to_owned(), wait_ms: BACKOFF_MIN_MS * 2 }
    );
    assert_eq!(g.take_wait(), Some(BACKOFF_MIN_MS * 2));
    assert!(g.session().is_none());
    assert_eq!(g.broken(&closed(4004)), Event::Fatal(Fatal::Unauthorized));
    assert_eq!(g.take_wait(), None);
    assert_eq!(g.debug_string(), "Gateway { connected: false, resumable: false }");
}

/// The order, the folders and the status come out of the settings blob.
#[test]
fn ready_carries_the_sidebar_and_the_status() {
    let ids: Vec<u8> = [20u64, 10].iter().flat_map(|id| id.to_le_bytes()).collect();
    let folder = block(1, &block(1, &ids));
    let mut blob = block(14, &folder);
    blob.extend(block(5, &block(1, &block(1, b"dnd"))));
    let proto = base64::engine::general_purpose::STANDARD.encode(blob);
    let ready = Ready::from_json(&json(&format!(
        r#"{{"user":{{"id":"1","username":"x"}},"session_id":"s",
            "guilds":[{{"id":"10","name":"a"}},{{"id":"20","name":"b"}}],
            "user_settings_proto":"{proto}"}}"#
    )))
    .unwrap();
    let order: Vec<u64> = ready.guild_order().iter().map(|g| g.get()).collect();
    assert_eq!(order, vec![20, 10]);
    let folders = ready.guild_folders();
    assert_eq!(folders.len(), 1);
    assert!(!folders[0].is_folder());
    assert_eq!(ready.status(), Some(Status::Dnd));
}

fn block(field: u64, body: &[u8]) -> Vec<u8> {
    let mut out = Vec::new();
    put_varint(&mut out, field << 3 | 2);
    put_varint(&mut out, body.len() as u64);
    out.extend(body);
    out
}

/// Notification levels come per guild, with the channels that differ.
#[test]
fn ready_carries_notification_levels() {
    let ready = Ready::from_json(&json(
        r#"{"user":{"id":"1","username":"x"},"session_id":"s",
            "read_state":[{"id":"7","last_message_id":"9","mention_count":2}],
            "user_guild_settings":{"entries":[
                {"guild_id":"10","message_notifications":1,"muted":true,
                 "channel_overrides":[
                    {"channel_id":"11","message_notifications":2,"muted":false}]}]}}"#,
    ))
    .unwrap();
    assert_eq!(
        ready.notification_settings(),
        vec![(
            GuildId::from(10),
            1,
            true,
            vec![(ChannelId::from(11), 2, false)]
        )]
    );
    let states = ready.read_state.expect("no read state");
    assert_eq!(states.entries()[0].mention_count, 2);
}

/// What nobody knows of an object does not change how it is read.
#[test]
fn one_more_field_changes_nothing() {
    let known = r#""user":{"id":"1","username":"x"},"session_id":"s""#;
    let a = Ready::from_json(&json(&format!("{{{known}}}"))).unwrap();
    let b = Ready::from_json(&json(&format!("{{\"new\":[1],{known}}}"))).unwrap();
    assert_eq!(a, b);
}

#[test]
fn failures_say_what_happened() {
    assert_eq!(closed(4004).to_string(), "接続が閉じられた (コード 4004)");
    assert_eq!(GatewayError::Connect("x".to_owned()).to_string(), "接続できない: x");
    assert_eq!(OP_DISPATCH, 0);
}
