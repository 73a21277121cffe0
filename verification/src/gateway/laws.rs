//! What holds of the gateway and of the member list as a whole, in plain
//! numbers and names.

use vstd::prelude::*;
use crate::gateway::gateway::{
    after_broken, after_open_failed, after_payload, after_waiting, backoff_after, beat, fatal_in,
    first_message, hello_at, identification, interval_in, jittered, later, link_handled,
    link_pumped, link_url, member_request, one_each, resent, resumption, rewatched, subscription,
    told, url_for, waiting, wanted_after, watch_index, watching, without_slashes, EventView,
    Failure, FatalView, Link, MemberRange, PayloadView, RequestView, SessionView, StepView,
    WaitedView, WatchedView,
};
use crate::gateway::member_list::{
    applied, count_in, last_count, op_in, ops_in, row_in, rows_in, update_in, OpView, RowView,
};
use crate::encoding::{base64_encoded, base64url_encoded, sha256_of};
use crate::gateway::ready::Ready;
use crate::gateway::remote_auth as remote;
use crate::gateway::remote_auth::{Auth, AuthEvent, AuthFault, Letter, ReplyView};
use crate::gateway::status::Status;
use crate::json::{Number, Value};
use crate::model::de::{member_of, FromJson};
use crate::model::identity::{claim_json, Claim};
use crate::model::snowflake::id_of;
use crate::model::{ChannelId, GuildId, MemberView, UserId};
use crate::text;

verus! {

/// A whole number as JSON holds it.
pub open spec fn number(n: int) -> Value {
    Value::Number(Number::Unsigned(n as u64))
}

/// A sequence number as it is sent; null before any came.
pub open spec fn sent_seq(s: Option<u64>) -> Value {
    match s {
        Some(n) => Value::Number(Number::Unsigned(n)),
        None => Value::Null,
    }
}

/// The heartbeat as it goes over the wire.
pub open spec fn wire_beat(last: Option<u64>) -> Value {
    Value::Object(seq![("op"@, number(1)), ("d"@, sent_seq(last))])
}

/// A step that sends this and delivers nothing.
pub open spec fn sending(v: Value) -> Result<StepView, Failure> {
    Ok(StepView { event: None, send: Some(v) })
}

/// A step that delivers this and sends nothing.
pub open spec fn delivering(e: EventView) -> Result<StepView, Failure> {
    Ok(StepView { event: Some(e), send: None })
}

// ── heartbeats ─────────────────────────────────────────────────────────────

/// A heartbeat that comes due is sent with the last sequence number, and the
/// next is due one interval after it, or at the end of time where that is
/// sooner. Nothing else of the connection changes but that it waits for the
/// acknowledgement. Without the acknowledgement of the last one the connection
/// is over, and nothing changes.
pub proof fn beats_are_an_interval_apart(g: Link, now: u64)
    requires
        g.conn is Some,
    ensures
        ({
            let c = g.conn->0;
            let next = after_waiting(g, WaitedView::Beat, now);
            &&& c.acked ==> {
                &&& link_pumped(g, WaitedView::Beat) == sending(wire_beat(c.last_seq))
                &&& next.conn matches Some(n) && {
                    &&& now + c.heartbeat_ms <= u64::MAX ==> n.next_beat == now + c.heartbeat_ms
                    &&& now + c.heartbeat_ms > u64::MAX ==> n.next_beat == u64::MAX
                    &&& !n.acked
                    &&& n.heartbeat_ms == c.heartbeat_ms
                    &&& n.last_seq == c.last_seq
                    &&& n.queued == c.queued
                    &&& n.fed == c.fed
                }
                &&& next.token == g.token
                &&& next.session == g.session
                &&& next.backoff_ms == g.backoff_ms
                &&& next.pending_wait == g.pending_wait
                &&& next.wanted == g.wanted
            }
            &&& !c.acked ==> link_pumped(g, WaitedView::Beat) == Err::<StepView, Failure>(
                Failure::Closed(4900),
            ) && next == g
        }),
{
    lemma_beat(g.conn->0.last_seq);
}

/// A heartbeat that the server asks for is sent at once, with the number that
/// came with the request where one did, and the next is due one interval later.
/// The acknowledgement moves nothing but lets the next one go.
pub proof fn asked_beats_are_sent_at_once(g: Link, p: PayloadView, now: u64)
    requires
        g.conn is Some,
    ensures
        ({
            let c = g.conn->0;
            let seen = match p.s {
                Some(n) => Some(n),
                None => c.last_seq,
            };
            &&& p.op == 1 ==> {
                &&& link_handled(g, p) == sending(wire_beat(seen))
                &&& after_payload(g, p, now).conn matches Some(n) && {
                    &&& now + c.heartbeat_ms <= u64::MAX ==> n.next_beat == now + c.heartbeat_ms
                    &&& now + c.heartbeat_ms > u64::MAX ==> n.next_beat == u64::MAX
                    &&& !n.acked
                }
            }
            &&& p.op == 11 ==> {
                &&& link_handled(g, p) == Ok::<StepView, Failure>(
                    StepView { event: None, send: None },
                )
                &&& after_payload(g, p, now).conn matches Some(n) && n.acked && n.next_beat
                    == c.next_beat
            }
            &&& p.op != 1 && p.op != 11 ==> (after_payload(g, p, now).conn matches Some(n)
                && n.acked == c.acked && n.next_beat == c.next_beat)
        }),
{
    let c = g.conn->0;
    lemma_beat(
        match p.s {
            Some(n) => Some(n),
            None => c.last_seq,
        },
    );
}

/// Heartbeats go on for as long as each is acknowledged: one, the
/// acknowledgement, and the next is sent when it is due, two intervals after the
/// first for the one behind it.
pub proof fn acknowledged_beats_go_on(g: Link, ack: PayloadView, first: u64, heard: u64)
    requires
        g.conn is Some,
        g.conn->0.acked,
        ack.op == 11,
        ack.s is None,
        first + 2 * g.conn->0.heartbeat_ms <= u64::MAX,
    ensures
        ({
            let c = g.conn->0;
            let one = after_payload(after_waiting(g, WaitedView::Beat, first), ack, heard);
            let due = one.conn->0.next_beat;
            let two = after_waiting(one, WaitedView::Beat, due);
            &&& link_pumped(one, WaitedView::Beat) == sending(wire_beat(c.last_seq))
            &&& two.conn matches Some(n) && n.next_beat == first + 2 * c.heartbeat_ms
        }),
{
    lemma_beat(g.conn->0.last_seq);
}

proof fn lemma_beat(last: Option<u64>)
    ensures
        beat(last) == wire_beat(last),
{
    assert(beat(last)->Object_0 =~= wire_beat(last)->Object_0);
}

/// Moments are counted in plain milliseconds, up to the last there is, and the
/// first heartbeat waits the whole milliseconds of its share of the interval.
pub proof fn waits_are_counted_in_milliseconds(now: u64, ms: u64, nanos: u32)
    requires
        nanos < 1_000_000_000,
    ensures
        now + ms <= u64::MAX ==> later(now, ms) == now + ms,
        now + ms > u64::MAX ==> later(now, ms) == u64::MAX,
        jittered(ms, nanos) * 1_000_000_000 <= ms * nanos,
        ms * nanos < (jittered(ms, nanos) + 1) * 1_000_000_000,
        jittered(ms, nanos) <= ms,
{
    crate::gateway::gateway::the_first_beat_is_early(ms, nanos);
    assert(0 <= ms * nanos) by (nonlinear_arith);
    let q = ms * nanos / 1_000_000_000;
    assert(0 <= q <= ms);
}

/// Hello names the interval, and is found wherever it stands among what came.
pub proof fn hello_names_the_interval(q: Seq<PayloadView>, k: int, ms: u64)
    requires
        0 <= k < q.len(),
        forall|i: int| 0 <= i < k ==> (#[trigger] q[i]).op != 10,
        q[k].op == 10,
        q[k].d == Some(Value::Object(seq![("heartbeat_interval"@, number(ms as int))])),
    ensures
        hello_at(q, 0) == k,
        interval_in(q[k]) == Some(ms),
{
    lemma_hello(q, 0, k);
    let o = seq![("heartbeat_interval"@, number(ms as int))];
    let d = Value::Object(o);
    assert(o[0].0 == "heartbeat_interval"@);
    assert(d.get("heartbeat_interval"@) == Some(number(ms as int)));
    assert forall|name: Seq<char>| set!["heartbeat_interval"@].contains(name) implies !(
    #[trigger] d.repeats(name)) by {
        if d.repeats(name) {
            let (a, b) = choose|a: int, b: int|
                #[trigger] crate::json::both_under(o, name, a, b);
            assert(false);
        }
    }
}

proof fn lemma_hello(q: Seq<PayloadView>, from: int, k: int)
    requires
        0 <= from <= k < q.len(),
        forall|i: int| 0 <= i < k ==> (#[trigger] q[i]).op != 10,
        q[k].op == 10,
    ensures
        hello_at(q, from) == k,
    decreases k - from,
{
    if from < k {
        assert(q[from].op != 10);
        lemma_hello(q, from + 1, k);
    }
}

// ── payloads ───────────────────────────────────────────────────────────────

/// Whatever comes, its sequence number is the last one from then on, for the
/// connection and for the session that would be resumed; without one both stay.
pub proof fn sequence_numbers_are_kept(g: Link, p: PayloadView, now: u64)
    requires
        g.conn is Some,
    ensures
        ({
            let seen = match p.s {
                Some(n) => Some(n),
                None => g.conn->0.last_seq,
            };
            let next = after_payload(g, p, now);
            &&& next.conn matches Some(n) && n.last_seq == seen && n.queued == g.conn->0.queued
                && n.fed == g.conn->0.fed && n.heartbeat_ms == g.conn->0.heartbeat_ms
            &&& p.op != 0 && p.op != 9 ==> match g.session {
                Some(s) => next.session matches Some(t) && t.id == s.id && t.url == s.url && t.seq
                    == (match p.s {
                    Some(n) => Some(n),
                    None => s.seq,
                }),
                None => next.session is None,
            }
            &&& next.token == g.token
            &&& next.wanted == g.wanted
            &&& next.backoff_ms == g.backoff_ms
            &&& next.pending_wait == g.pending_wait
        }),
{
}

/// A dispatch is delivered: READY with what it says, opening the session that it
/// names; RESUMED as such; anything else under its own name, its data untouched.
pub proof fn dispatches_are_delivered(g: Link, p: PayloadView, name: Seq<char>, now: u64)
    requires
        g.conn is Some,
        p.op == 0,
        p.t == Some(name),
    ensures
        name == "READY"@ && p.d is Some ==> match Ready::decoded(p.d->0) {
            Some(r) => link_handled(g, p) == delivering(EventView::Ready(r)) && (after_payload(
                g,
                p,
                now,
            ).session matches Some(s) && s.id == r.session_id && s.seq == (match p.s {
                Some(n) => Some(n),
                None => g.conn->0.last_seq,
            }) && s.url == (match r.resume_gateway_url {
                Some(u) => u,
                None => "wss://gateway.discord.gg"@,
            })),
            None => link_handled(g, p) matches Err(Failure::Decode(_)),
        },
        name == "RESUMED"@ ==> link_handled(g, p) == delivering(EventView::Resumed),
        name != "READY"@ && name != "RESUMED"@ ==> link_handled(g, p) == delivering(
            EventView::Dispatch {
                kind: name,
                data: match p.d {
                    Some(d) => d,
                    None => Value::Null,
                },
            },
        ),
        name != "READY"@ ==> (after_payload(g, p, now).session is Some <==> g.session is Some),
{
    reveal_strlit("READY");
    reveal_strlit("RESUMED");
    assert("READY"@.len() == 5 && "RESUMED"@.len() == 7);
}

/// Being told to reconnect, and an invalid session, end the connection; numbers
/// that mean nothing here change nothing.
pub proof fn other_codes_end_or_pass(g: Link, p: PayloadView)
    requires
        g.conn is Some,
    ensures
        p.op == 7 ==> link_handled(g, p) == Err::<StepView, Failure>(Failure::Closed(4901)),
        p.op == 9 ==> link_handled(g, p) == Err::<StepView, Failure>(Failure::Closed(4902)),
        p.op != 0 && p.op != 1 && p.op != 7 && p.op != 9 ==> link_handled(g, p) == Ok::<
            StepView,
            Failure,
        >(StepView { event: None, send: None }),
{
}

/// While waiting, a frame that was read asks for nothing by itself, the end of
/// the socket ends the connection, and a request goes out as it was made.
pub proof fn waiting_leads_to_what_happened(g: Link, w: WaitedView, now: u64)
    requires
        g.conn is Some,
        w !is Beat,
    ensures
        after_waiting(g, w, now).conn == g.conn,
        w is Received ==> link_pumped(g, w) == Ok::<StepView, Failure>(
            StepView { event: None, send: None },
        ),
        w is Ended ==> link_pumped(g, w) == Err::<StepView, Failure>(Failure::Closed(1006)),
        w matches WaitedView::Asked(RequestView::Members(guild, users)) ==> link_pumped(g, w)
            == sending(wire_members(guild, users)) && after_waiting(g, w, now).wanted == g.wanted,
        w matches WaitedView::Asked(RequestView::Watch(guild, channel, ranges)) ==> {
            let x = WatchedView { guild, channel, ranges };
            &&& !g.wanted.contains(x) ==> link_pumped(g, w) == sending(
                wire_watch(guild, channel, ranges),
            )
            &&& one_each(g.wanted) && g.wanted.contains(x) ==> link_pumped(g, w) == Ok::<
                StepView,
                Failure,
            >(StepView { event: None, send: None })
            &&& after_waiting(g, w, now).wanted.contains(x)
        },
{
    match w {
        WaitedView::Asked(RequestView::Members(guild, users)) => {
            lemma_members(guild, users);
        },
        WaitedView::Asked(RequestView::Watch(guild, channel, ranges)) => {
            let x = WatchedView { guild, channel, ranges };
            lemma_watch(guild, channel, ranges);
            lemma_index(g.wanted, guild, 0);
            let i = watch_index(g.wanted, guild, 0);
            if g.wanted.contains(x) {
                let k = g.wanted.index_of(x);
                assert(g.wanted[k] == x);
            }
            let next = after_waiting(g, w, now).wanted;
            if !watching(g.wanted, x) {
                assert(next == rewatched(g.wanted, x));
                assert(next[i] == x);
            } else {
                assert(next[i] == x);
            }
        },
        _ => {},
    }
}

proof fn lemma_index(w: Seq<WatchedView>, guild: GuildId, k: int)
    requires
        0 <= k <= w.len(),
    ensures
        k <= watch_index(w, guild, k) <= w.len(),
        watch_index(w, guild, k) < w.len() ==> w[watch_index(w, guild, k)].guild == guild,
        forall|i: int| k <= i < watch_index(w, guild, k) ==> (#[trigger] w[i]).guild != guild,
    decreases w.len() - k,
{
    if k < w.len() && w[k].guild != guild {
        lemma_index(w, guild, k + 1);
    }
}

/// Watching one guild leaves what is watched in the others as it was.
pub proof fn watching_leaves_other_guilds(w: Seq<WatchedView>, r: RequestView, other: WatchedView)
    requires
        one_each(w),
        r matches RequestView::Watch(guild, _, _) && other.guild != guild,
    ensures
        wanted_after(w, WaitedView::Asked(r)).contains(other) <==> w.contains(other),
{
    let (guild, x) = match r {
        RequestView::Watch(guild, channel, ranges) => (
            guild,
            WatchedView { guild, channel, ranges },
        ),
        RequestView::Members(guild, _) => (
            guild,
            WatchedView { guild, channel: other.channel, ranges: other.ranges },
        ),
    };
    lemma_index(w, guild, 0);
    let next = wanted_after(w, WaitedView::Asked(r));
    if w.contains(other) {
        let k = w.index_of(other);
        assert(next[k] == other);
    }
    if next.contains(other) {
        let k = next.index_of(other);
        assert(k < w.len() ==> w[k] == other);
        assert(k < w.len());
    }
}

// ── what goes over the wire ────────────────────────────────────────────────

/// A range of rows as it is sent: first and last.
pub open spec fn wire_range(r: MemberRange) -> Value {
    Value::Array(seq![number(r.first as int), number(r.last as int)])
}

/// The subscription as it goes over the wire.
pub open spec fn wire_watch(guild: GuildId, channel: ChannelId, ranges: Seq<MemberRange>) -> Value {
    Value::Object(
        seq![
            ("op"@, number(14)),
            (
                "d"@,
                Value::Object(
                    seq![
                        ("guild_id"@, Value::Text(text::dec(guild.0.0 as nat))),
                        ("typing"@, Value::Bool(true)),
                        ("threads"@, Value::Bool(false)),
                        ("activities"@, Value::Bool(true)),
                        (
                            "channels"@,
                            Value::Object(
                                seq![
                                    (
                                        text::dec(channel.0.0 as nat),
                                        Value::Array(
                                            Seq::new(ranges.len(), |i: int| wire_range(ranges[i])),
                                        ),
                                    ),
                                ],
                            ),
                        ),
                    ],
                ),
            ),
        ],
    )
}

/// The request for members as it goes over the wire.
pub open spec fn wire_members(guild: GuildId, users: Seq<UserId>) -> Value {
    Value::Object(
        seq![
            ("op"@, number(8)),
            (
                "d"@,
                Value::Object(
                    seq![
                        ("guild_id"@, Value::Text(text::dec(guild.0.0 as nat))),
                        (
                            "user_ids"@,
                            Value::Array(
                                Seq::new(
                                    users.len(),
                                    |i: int| Value::Text(text::dec(users[i].0.0 as nat)),
                                ),
                            ),
                        ),
                        ("presences"@, Value::Bool(false)),
                    ],
                ),
            ),
        ],
    )
}

/// What resumes a session as it goes over the wire.
pub open spec fn wire_resume(token: Seq<char>, s: SessionView) -> Value {
    Value::Object(
        seq![
            ("op"@, number(6)),
            (
                "d"@,
                Value::Object(
                    seq![
                        ("token"@, Value::Text(token)),
                        ("session_id"@, Value::Text(s.id)),
                        ("seq"@, sent_seq(s.seq)),
                    ],
                ),
            ),
        ],
    )
}

proof fn lemma_watch(guild: GuildId, channel: ChannelId, ranges: Seq<MemberRange>)
    ensures
        subscription(guild, channel, ranges) == wire_watch(guild, channel, ranges),
{
    let a = subscription(guild, channel, ranges)->Object_0;
    let b = wire_watch(guild, channel, ranges)->Object_0;
    let x = a[1].1->Object_0;
    let y = b[1].1->Object_0;
    let rows = y[4].1->Object_0[0].1->Array_0;
    assert(x[4].1->Object_0[0].1->Array_0 =~= rows) by {
        assert forall|i: int| 0 <= i < ranges.len() implies x[4].1->Object_0[0].1->Array_0[i]
            == rows[i] by {
            assert(x[4].1->Object_0[0].1->Array_0[i]->Array_0 =~= rows[i]->Array_0);
        }
    }
    assert(x[4].1->Object_0 =~= y[4].1->Object_0);
    assert(x =~= y);
    assert(a =~= b);
}

proof fn lemma_members(guild: GuildId, users: Seq<UserId>)
    ensures
        member_request(guild, users) == wire_members(guild, users),
{
    let a = member_request(guild, users)->Object_0;
    let b = wire_members(guild, users)->Object_0;
    let x = a[1].1->Object_0;
    let y = b[1].1->Object_0;
    assert(x[1].1->Array_0 =~= y[1].1->Array_0);
    assert(x =~= y);
    assert(a =~= b);
}

/// The first message of a connection: where a session is held it is resumed, at
/// its own host, by its id and its last number; otherwise the token identifies
/// at the first host, with the claim.
pub proof fn sessions_are_resumed_where_they_are(g: Link, claim: Claim)
    ensures
        match g.session {
            Some(s) => first_message(g, claim) == wire_resume(g.token, s) && link_url(g) == url_for(
                Some(s.url),
            ),
            None => link_url(g)
                == "wss://gateway.discord.gg/?v=10&encoding=json&compress=zstd-stream"@ && (
            first_message(g, claim) matches Value::Object(m) && m.len() == 2 && m[0] == (
                "op"@,
                number(2),
            ) && m[1].0 == "d"@ && (m[1].1 matches Value::Object(d) && d.len() == 6 && d[0] == (
                "token"@,
                Value::Text(g.token),
            ) && d[1] == ("capabilities"@, number(161_789)) && d[2] == (
                "properties"@,
                claim_json(claim),
            ) && d[3].0 == "presence"@ && d[4] == ("compress"@, Value::Bool(false)) && d[5].0
                == "client_state"@)),
        },
{
    match g.session {
        Some(s) => {
            let a = resumption(g.token, s)->Object_0;
            let b = wire_resume(g.token, s)->Object_0;
            assert(a[1].1->Object_0 =~= b[1].1->Object_0);
            assert(a =~= b);
        },
        None => {
            let m = identification(g.token, claim)->Object_0;
            assert(m.len() == 2);
        },
    }
}

/// What a client says of itself on identifying, besides the claim: nobody is
/// away, and nothing is held from before.
pub proof fn identifying_holds_nothing_from_before(token: Seq<char>, claim: Claim)
    ensures
        identification(token, claim) matches Value::Object(m) && (m[1].1 matches Value::Object(d)
            && d[3].1 == Value::Object(
            seq![
                ("status"@, Value::Text("unknown"@)),
                ("since"@, number(0)),
                ("activities"@, Value::Array(seq![])),
                ("afk"@, Value::Bool(false)),
            ],
        ) && d[5].1 == Value::Object(
            seq![
                ("guild_versions"@, Value::Object(seq![])),
                ("highest_last_message_id"@, Value::Text("0"@)),
                ("read_state_version"@, number(0)),
                ("user_guild_settings_version"@, Value::Number(Number::Negative((-1) as i64))),
                ("user_settings_version"@, Value::Number(Number::Negative((-1) as i64))),
                ("private_channels_version"@, Value::Text("0"@)),
                ("api_code_version"@, number(0)),
            ],
        )),
{
    let m = identification(token, claim)->Object_0;
    let d = m[1].1->Object_0;
    assert(d[3].1->Object_0 =~= seq![
        ("status"@, Value::Text("unknown"@)),
        ("since"@, number(0)),
        ("activities"@, Value::Array(seq![])),
        ("afk"@, Value::Bool(false)),
    ]);
    assert(d[5].1->Object_0 =~= seq![
        ("guild_versions"@, Value::Object(seq![])),
        ("highest_last_message_id"@, Value::Text("0"@)),
        ("read_state_version"@, number(0)),
        ("user_guild_settings_version"@, Value::Number(Number::Negative((-1) as i64))),
        ("user_settings_version"@, Value::Number(Number::Negative((-1) as i64))),
        ("private_channels_version"@, Value::Text("0"@)),
        ("api_code_version"@, number(0)),
    ]);
}

/// The host of a session and the query, with one slash between them however
/// many the host ends in.
pub proof fn resuming_goes_to_the_host(host: Seq<char>, slashes: nat)
    requires
        host.len() == 0 || host.last() != '/',
    ensures
        url_for(Some(host + Seq::new(slashes, |i: int| '/')))
            == host + "/"@ + "?v=10&encoding=json&compress=zstd-stream"@,
{
    lemma_slashes(host, slashes);
}

proof fn lemma_slashes(host: Seq<char>, slashes: nat)
    requires
        host.len() == 0 || host.last() != '/',
    ensures
        without_slashes(host + Seq::new(slashes, |i: int| '/')) == host,
    decreases slashes,
{
    let all = host + Seq::new(slashes, |i: int| '/');
    if slashes == 0 {
        assert(all =~= host);
    } else {
        lemma_slashes(host, (slashes - 1) as nat);
        assert(all.last() == '/');
        assert(all.drop_last() =~= host + Seq::new((slashes - 1) as nat, |i: int| '/'));
    }
}

/// A new connection is sent every subscription again, in the order they were
/// asked for; other events send nothing.
pub proof fn new_connections_hear_everything_again(g: Link, e: EventView, k: int)
    ensures
        e is Ready || e is Resumed ==> resent(g, e).len() == g.wanted.len() && (0 <= k
            < g.wanted.len() ==> resent(g, e)[k] == wire_watch(
            g.wanted[k].guild,
            g.wanted[k].channel,
            g.wanted[k].ranges,
        )),
        e is Dispatch || e is Reconnecting || e is Fatal ==> resent(g, e).len() == 0,
{
    if 0 <= k < g.wanted.len() {
        lemma_watch(g.wanted[k].guild, g.wanted[k].channel, g.wanted[k].ranges);
    }
}

// ── failures ───────────────────────────────────────────────────────────────

/// A rejected token ends everything, and so do the five codes for something we
/// sent wrong, each with its code and a reason; no other failure does.
pub proof fn six_codes_are_final(e: Failure)
    ensures
        e == Failure::Closed(4004) ==> fatal_in(e) == Some(FatalView::Unauthorized),
        e matches Failure::Closed(c) && 4010 <= c <= 4014 ==> (fatal_in(e) matches Some(
            FatalView::Rejected { code, reason },
        ) && e == Failure::Closed(code) && reason.len() > 0),
        fatal_in(e) is Some ==> (e matches Failure::Closed(c) && (c == 4004 || 4010 <= c <= 4014)),
{
    reveal_strlit("シャードの指定が誤っている");
    reveal_strlit("シャード分割が必要である");
    reveal_strlit("API の版が古い");
    reveal_strlit("intent の指定が誤っている");
    reveal_strlit("許可されていない intent を要求した");
}

/// After a failure that is not final the wait is what the backoff was, and the
/// next is twice that, a minute at most; the wait before the `n`-th try in a row
/// is a second doubled that often, a minute at most.
pub proof fn waits_double_up_to_a_minute(g: Link, e: Failure, n: nat)
    requires
        fatal_in(e) is None,
    ensures
        after_broken(g, e).pending_wait == Some(g.backoff_ms),
        after_broken(g, e).backoff_ms == (if 2 * g.backoff_ms < 60_000 {
            2 * g.backoff_ms
        } else {
            60_000
        }),
        after_open_failed(g, e).pending_wait == Some(g.backoff_ms),
        after_open_failed(g, e).backoff_ms == after_broken(g, e).backoff_ms,
        told(g, e) matches EventView::Reconnecting { wait_ms, .. } && wait_ms == g.backoff_ms,
        backoff_after(0) == 1_000,
        backoff_after(1) == 2_000,
        backoff_after(2) == 4_000,
        backoff_after(3) == 8_000,
        backoff_after(4) == 16_000,
        backoff_after(5) == 32_000,
        n >= 6 ==> backoff_after(n) == 60_000,
        waiting(g).token == g.token && waiting(g).wanted == g.wanted && waiting(g).session
            == g.session,
{
    reveal_with_fuel(backoff_after, 8);
    crate::gateway::gateway::the_backoff_grows_but_is_capped(n);
}

/// Which failures let go of the session: a bad sequence, a session that timed
/// out and the final codes do; everything else keeps it, and what is watched is
/// never let go.
pub proof fn sessions_outlive_most_failures(g: Link, e: Failure)
    ensures
        after_broken(g, e).conn is None,
        after_broken(g, e).wanted == g.wanted,
        after_broken(g, e).token == g.token,
        after_broken(g, e).session == (if e == Failure::Closed(4007) || e == Failure::Closed(4009)
            || (e matches Failure::Closed(c) && (c == 4004 || 4010 <= c <= 4014)) {
            None
        } else {
            g.session
        }),
        fatal_in(e) is None ==> after_open_failed(g, e).session is None,
        after_open_failed(g, e).wanted == g.wanted,
{
}

// ── members ────────────────────────────────────────────────────────────────

/// What the presence of a member says, by the names on the wire; an absent or an
/// unknown one is offline.
pub open spec fn shown_status(presence: Option<Value>) -> Status {
    match presence {
        Some(p) => match p.get("status"@) {
            Some(Value::Text(t)) => if t == "online"@ {
                Status::Online
            } else if t == "idle"@ {
                Status::Idle
            } else if t == "dnd"@ {
                Status::Dnd
            } else if t == "invisible"@ {
                Status::Invisible
            } else {
                Status::Offline
            },
            _ => Status::Offline,
        },
        None => Status::Offline,
    }
}

/// The row of a member holds the member that the item carries, and the status
/// that its presence names. A member without a user has no row.
pub proof fn members_show_their_status(data: Value, item: Value, raw: Value)
    requires
        item.get("group"@) is None,
        item.get("member"@) == Some(raw),
    ensures
        member_of(raw) matches Some(m) ==> m.user is Some ==> row_in(data, item) == Some(
            RowView::Member { member: m, status: shown_status(raw.get("presence"@)) },
        ),
        member_of(raw) is None || member_of(raw)->0.user is None ==> row_in(data, item) is None,
{
}

/// Each status has its own name on the wire, and a member whose presence carries
/// it is shown with that status: online, idle, do not disturb, invisible and
/// offline. Only where there is no presence, or its name means nothing, is that
/// offline too.
pub proof fn a_named_status_is_shown(data: Value, item: Value, m: MemberView, name: Seq<char>)
    requires
        item.get("group"@) is None,
        item.get("member"@) is Some,
        member_of(item.get("member"@)->0) == Some(m),
        m.user is Some,
        item.get("member"@)->0.get("presence"@) is Some,
        item.get("member"@)->0.get("presence"@)->0.get("status"@) == Some(Value::Text(name)),
    ensures
        row_in(data, item) matches Some(RowView::Member { member, status }) && {
            &&& member == m
            &&& status == Status::Online <==> name == "online"@
            &&& status == Status::Idle <==> name == "idle"@
            &&& status == Status::Dnd <==> name == "dnd"@
            &&& status == Status::Invisible <==> name == "invisible"@
            &&& name == "offline"@ ==> status == Status::Offline
        },
{
    reveal_strlit("online");
    reveal_strlit("idle");
    reveal_strlit("dnd");
    reveal_strlit("invisible");
    reveal_strlit("offline");
    assert("online"@.len() == 6 && "idle"@.len() == 4 && "dnd"@.len() == 3 && "invisible"@.len()
        == 9 && "offline"@.len() == 7);
    members_show_their_status(data, item, item.get("member"@)->0);
}

/// A heading is its id with a count: what the groups of the event say of that
/// id, and, where they do not name it, what the heading itself says.
pub proof fn headings_carry_their_count(
    data: Value,
    item: Value,
    group: Value,
    id: Seq<char>,
    groups: Seq<Value>,
    k: int,
    n: u32,
)
    requires
        item.get("group"@) == Some(group),
        group.get("id"@) == Some(Value::Text(id)),
    ensures
        row_in(data, item) matches Some(RowView::Group { id: shown, count }) && shown == id && (
        data.get("groups"@) is None ==> count == count_in(group, "count"@)),
        data.get("groups"@) == Some(Value::Array(groups)) && 0 <= k < groups.len()
            && groups[k].get("id"@) == Some(Value::Text(id)) && groups[k].get("count"@) == Some(
            number(n as int),
        ) && (forall|i: int|
            k < i < groups.len() ==> (#[trigger] groups[i]).get("id"@) != Some(Value::Text(id)))
            ==> row_in(data, item) == Some(RowView::Group { id, count: n }),
{
    if data.get("groups"@) == Some(Value::Array(groups)) && 0 <= k < groups.len() && groups[k].get(
        "id"@,
    ) == Some(Value::Text(id)) && (forall|i: int|
        k < i < groups.len() ==> (#[trigger] groups[i]).get("id"@) != Some(Value::Text(id))) {
        lemma_last_count(groups, id, k, groups.len());
    }
}

proof fn lemma_last_count(groups: Seq<Value>, id: Seq<char>, k: int, n: nat)
    requires
        0 <= k < n <= groups.len(),
        groups[k].get("id"@) == Some(Value::Text(id)),
        forall|i: int|
            k < i < groups.len() ==> (#[trigger] groups[i]).get("id"@) != Some(Value::Text(id)),
    ensures
        last_count(groups, id, n) == Some(count_in(groups[k], "count"@)),
    decreases n,
{
    if n > k + 1 {
        assert(groups[n - 1].get("id"@) != Some(Value::Text(id)));
        lemma_last_count(groups, id, k, (n - 1) as nat);
    }
}

/// A count is the number under its key, as far as 32 bits hold it, and zero
/// where there is none.
pub proof fn counts_are_read(v: Value, key: Seq<char>, n: u64)
    ensures
        v.get(key) == Some(Value::Number(Number::Unsigned(n))) && n <= 0xffff_ffff ==> count_in(
            v,
            key,
        ) == n,
        v.get(key) == Some(Value::Number(Number::Unsigned(n))) && n > 0xffff_ffff ==> count_in(
            v,
            key,
        ) == 0xffff_ffff,
        v.get(key) is None ==> count_in(v, key) == 0,
{
}

/// The diffs by their names: a replaced range with where it starts and its rows
/// in order, a row that appears, changes or goes at a position, and the list
/// that is no longer to be trusted. A name that means nothing is no diff.
pub proof fn diffs_are_read(
    data: Value,
    raw: Value,
    name: Seq<char>,
    n: u64,
    item: Value,
    row: RowView,
    range: Seq<Value>,
    items: Seq<Value>,
)
    requires
        raw.get("op"@) == Some(Value::Text(name)),
    ensures
        name == "INVALIDATE"@ ==> op_in(data, raw) == Some(OpView::Invalidate),
        raw.get("index"@) == Some(Value::Number(Number::Unsigned(n))) ==> {
            &&& name == "DELETE"@ ==> op_in(data, raw) == Some(OpView::Delete { at: n as usize })
            &&& raw.get("item"@) == Some(item) && row_in(data, item) == Some(row) ==> {
                &&& name == "INSERT"@ ==> op_in(data, raw) == Some(
                    OpView::Insert { at: n as usize, row },
                )
                &&& name == "UPDATE"@ ==> op_in(data, raw) == Some(
                    OpView::Update { at: n as usize, row },
                )
            }
        },
        name == "SYNC"@ && raw.get("range"@) == Some(Value::Array(range)) && range.len() > 0
            && range[0] == Value::Number(Number::Unsigned(n)) && raw.get("items"@) == Some(
            Value::Array(items),
        ) ==> op_in(data, raw) == Some(
            OpView::Sync { start: n as usize, rows: rows_in(data, items, 0) },
        ),
        name != "SYNC"@ && name != "INSERT"@ && name != "UPDATE"@ && name != "DELETE"@ && name
            != "INVALIDATE"@ ==> op_in(data, raw) is None,
{
    reveal_strlit("SYNC");
    reveal_strlit("INSERT");
    reveal_strlit("UPDATE");
    reveal_strlit("DELETE");
    reveal_strlit("INVALIDATE");
    assert("SYNC"@.len() == 4 && "INSERT"@.len() == 6 && "UPDATE"@.len() == 6 && "DELETE"@.len()
        == 6 && "INVALIDATE"@.len() == 10);
    assert("INSERT"@[0] == 'I' && "UPDATE"@[0] == 'U' && "DELETE"@[0] == 'D');
}

/// Rows come out one for one and in order, where every item is one.
pub proof fn rows_keep_their_order(data: Value, items: Seq<Value>, rows: Seq<RowView>)
    requires
        rows.len() == items.len(),
        forall|i: int| 0 <= i < items.len() ==> row_in(data, #[trigger] items[i]) == Some(rows[i]),
    ensures
        rows_in(data, items, 0) == rows,
{
    lemma_rows(data, items, rows, 0);
    assert(rows.skip(0) =~= rows);
}

proof fn lemma_rows(data: Value, items: Seq<Value>, rows: Seq<RowView>, k: int)
    requires
        rows.len() == items.len(),
        0 <= k <= items.len(),
        forall|i: int| 0 <= i < items.len() ==> row_in(data, #[trigger] items[i]) == Some(rows[i]),
    ensures
        rows_in(data, items, k) == rows.skip(k),
    decreases items.len() - k,
{
    if k < items.len() {
        lemma_rows(data, items, rows, k + 1);
        assert(row_in(data, items[k]) == Some(rows[k]));
        assert(seq![rows[k]] + rows.skip(k + 1) =~= rows.skip(k));
    } else {
        assert(rows.skip(k) =~= seq![]);
    }
}

/// So do the diffs.
pub proof fn diffs_keep_their_order(data: Value, raw: Seq<Value>, ops: Seq<OpView>)
    requires
        ops.len() == raw.len(),
        forall|i: int| 0 <= i < raw.len() ==> op_in(data, #[trigger] raw[i]) == Some(ops[i]),
    ensures
        ops_in(data, raw, 0) == ops,
{
    lemma_ops(data, raw, ops, 0);
    assert(ops.skip(0) =~= ops);
}

proof fn lemma_ops(data: Value, raw: Seq<Value>, ops: Seq<OpView>, k: int)
    requires
        ops.len() == raw.len(),
        0 <= k <= raw.len(),
        forall|i: int| 0 <= i < raw.len() ==> op_in(data, #[trigger] raw[i]) == Some(ops[i]),
    ensures
        ops_in(data, raw, k) == ops.skip(k),
    decreases raw.len() - k,
{
    if k < raw.len() {
        lemma_ops(data, raw, ops, k + 1);
        assert(op_in(data, raw[k]) == Some(ops[k]));
        assert(seq![ops[k]] + ops.skip(k + 1) =~= ops.skip(k));
    } else {
        assert(ops.skip(k) =~= seq![]);
    }
}

/// An update names its guild, counts who is online and who is there, and holds
/// its diffs in order.
pub proof fn updates_are_read(
    data: Value,
    guild: Seq<char>,
    id: u64,
    online: u32,
    total: u32,
    raw: Seq<Value>,
    ops: Seq<OpView>,
)
    requires
        data.get("guild_id"@) == Some(Value::Text(guild)),
        id_of(guild) == Some(id),
        data.get("online_count"@) == Some(number(online as int)),
        data.get("member_count"@) == Some(number(total as int)),
        data.get("ops"@) == Some(Value::Array(raw)),
        ops.len() == raw.len(),
        forall|i: int| 0 <= i < raw.len() ==> op_in(data, #[trigger] raw[i]) == Some(ops[i]),
    ensures
        update_in(data) matches Some(u) && u.guild.0.0 == id && u.online == online && u.total
            == total && u.ops == ops,
{
    diffs_keep_their_order(data, raw, ops);
}

/// What a diff does, row by row. An inserted row stands where it was put, what
/// stood there and behind it moves down by one, and the rest stays; a changed
/// row is replaced and no other is; with a deleted row everything behind it
/// moves up; a replaced range keeps what stands before it and ends with its
/// rows; a list that is not to be trusted is empty.
pub proof fn diffs_act_at_their_position(rows: Seq<RowView>, at: usize, row: RowView, k: int)
    requires
        at < rows.len(),
        0 <= k,
    ensures
        ({
            let n = applied(rows, OpView::Insert { at, row });
            &&& n.len() == rows.len() + 1
            &&& n[at as int] == row
            &&& k < at ==> n[k] == rows[k]
            &&& at <= k < rows.len() ==> n[k + 1] == rows[k]
        }),
        ({
            let n = applied(rows, OpView::Update { at, row });
            &&& n.len() == rows.len()
            &&& n[at as int] == row
            &&& k != at && k < rows.len() ==> n[k] == rows[k]
        }),
        ({
            let n = applied(rows, OpView::Delete { at });
            &&& n.len() == rows.len() - 1
            &&& k < at ==> n[k] == rows[k]
            &&& at < k < rows.len() ==> n[k - 1] == rows[k]
        }),
        applied(rows, OpView::Invalidate).len() == 0,
        applied(rows, OpView::Insert { at: rows.len() as usize, row }) == rows.push(row) || rows.len()
            > usize::MAX,
{
    if rows.len() <= usize::MAX {
        assert(rows.insert(rows.len() as int, row) =~= rows.push(row));
    }
}

/// A replaced range keeps what stands before it, row by row, and nothing of what
/// stood behind.
pub proof fn a_replaced_range_ends_the_list(
    rows: Seq<RowView>,
    start: usize,
    new: Seq<RowView>,
    k: int,
)
    requires
        start <= rows.len(),
        0 <= k,
    ensures
        ({
            let n = applied(rows, OpView::Sync { start, rows: new });
            &&& n.len() == start + new.len()
            &&& k < start ==> n[k] == rows[k]
            &&& k < new.len() ==> n[start + k] == new[k]
        }),
{
}

// ── remote login ───────────────────────────────────────────────────────────

/// What a login by QR sends and reports, message by message: our key after
/// `hello`, the proof that we hold it, the code once our own key comes back, who
/// scanned it, and the ticket once that was approved.
pub proof fn remote_login_goes_step_by_step(a: Auth, m: Letter)
    ensures
        m.op == "hello"@ ==> remote::handled(a, Ok(m)) == Ok::<ReplyView, AuthFault>(
            ReplyView {
                send: Some(
                    Value::Object(
                        seq![
                            ("op"@, Value::Text("init"@)),
                            (
                                "encoded_public_key"@,
                                Value::Text(base64_encoded(a.public_der)),
                            ),
                        ],
                    ),
                ),
                event: None,
            },
        ),
        m.op == "hello"@ && m.heartbeat_interval is Some ==> remote::after(a, Ok(m)).heartbeat_ms
            == m.heartbeat_interval->0,
        m.op != "hello"@ ==> remote::after(a, Ok(m)) == a,
        m.op == "nonce_proof"@ ==> (m.encrypted_nonce matches Some(n) ==> (remote::opened(a, n)
            matches Ok(plain) ==> remote::handled(a, Ok(m)) == Ok::<ReplyView, AuthFault>(
            ReplyView {
                send: Some(
                    Value::Object(
                        seq![
                            ("op"@, Value::Text("nonce_proof"@)),
                            ("proof"@, Value::Text(base64url_encoded(sha256_of(plain)))),
                        ],
                    ),
                ),
                event: None,
            },
        ))),
        m.op == "pending_remote_init"@ && m.fingerprint == Some(
            base64url_encoded(sha256_of(a.public_der)),
        ) ==> remote::handled(a, Ok(m)) == Ok::<ReplyView, AuthFault>(
            ReplyView {
                send: None,
                event: Some(
                    AuthEvent::Ready {
                        url: "https://discord.com/ra/"@ + m.fingerprint->0,
                        fingerprint: m.fingerprint->0,
                    },
                ),
            },
        ),
        m.op == "pending_remote_init"@ && m.fingerprint is Some && m.fingerprint != Some(
            base64url_encoded(sha256_of(a.public_der)),
        ) ==> remote::handled(a, Ok(m)) is Err,
        m.op == "pending_login"@ ==> (m.ticket matches Some(ticket) ==> remote::handled(a, Ok(m))
            == Ok::<ReplyView, AuthFault>(
            ReplyView { send: None, event: Some(AuthEvent::Approved { ticket }) },
        )),
        m.op == "pending_login"@ && m.ticket is None ==> remote::handled(a, Ok(m)) is Err,
        m.op == "cancel"@ ==> remote::handled(a, Ok(m)) == Ok::<ReplyView, AuthFault>(
            ReplyView { send: None, event: Some(AuthEvent::Cancelled) },
        ),
{
    reveal_strlit("hello");
    reveal_strlit("nonce_proof");
    reveal_strlit("pending_remote_init");
    reveal_strlit("pending_ticket");
    reveal_strlit("pending_login");
    reveal_strlit("cancel");
    assert("hello"@.len() == 5 && "nonce_proof"@.len() == 11 && "pending_remote_init"@.len() == 19
        && "pending_ticket"@.len() == 14 && "pending_login"@.len() == 13 && "cancel"@.len() == 6);
    if m.op == "hello"@ {
        assert(remote::init_message(a)->Object_0 =~= seq![
            ("op"@, Value::Text("init"@)),
            ("encoded_public_key"@, Value::Text(base64_encoded(a.public_der))),
        ]);
    }
    if m.op == "nonce_proof"@ && m.encrypted_nonce is Some {
        match remote::opened(a, m.encrypted_nonce->0) {
            Ok(plain) => {
                let v = remote::op_message("nonce_proof"@).with(
                    "proof"@,
                    Value::Text(base64url_encoded(sha256_of(plain))),
                );
                assert(v->Object_0 =~= seq![
                    ("op"@, Value::Text("nonce_proof"@)),
                    ("proof"@, Value::Text(base64url_encoded(sha256_of(plain)))),
                ]);
            },
            Err(_) => {},
        }
    }
}

} // verus!
