//! The member list and its diffs.

use gumicord::gateway::member_list::{parse, MemberList, MemberRow};
use gumicord::gateway::status::Status;
use gumicord::json::{Json, Number};

fn plain(v: &serde_json::Value) -> Json {
    match v {
        serde_json::Value::Null => Json::Null,
        serde_json::Value::Bool(b) => Json::Bool(*b),
        serde_json::Value::Number(n) => Json::Number(match (n.as_u64(), n.as_i64()) {
            (Some(u), _) => Number::Unsigned(u),
            (None, Some(i)) => Number::Negative(i),
            (None, None) => Number::Other,
        }),
        serde_json::Value::String(s) => Json::Text(s.clone()),
        serde_json::Value::Array(a) => Json::Array(a.iter().map(plain).collect()),
        serde_json::Value::Object(o) => {
            Json::Object(o.iter().map(|(k, v)| (k.clone(), plain(v))).collect())
        }
    }
}

fn json(s: &str) -> Json {
    plain(&serde_json::from_str(s).expect("malformed JSON"))
}

fn member(name: &str, status: Option<&str>) -> String {
    let presence = match status {
        Some(s) => format!(r#","presence":{{"status":"{s}"}}"#),
        None => String::new(),
    };
    format!(r#"{{"member":{{"user":{{"id":"1","username":"{name}"}},"roles":[]{presence}}}}}"#)
}

fn sync(items: &[String]) -> Json {
    update(&format!(r#"{{"op":"SYNC","range":[0,99],"items":[{}]}}"#, items.join(",")))
}

fn update(op: &str) -> Json {
    json(&format!(
        r#"{{"guild_id":"7","member_count":30,"online_count":5,"ops":[{op}]}}"#
    ))
}

fn names(list: &MemberList) -> Vec<String> {
    list.rows()
        .iter()
        .map(|r| match r {
            MemberRow::Group { id, count } => format!("[{id} {count}]"),
            MemberRow::Member(m) => m.member.user.as_ref().expect("居る").username.clone(),
        })
        .collect()
}

/// Headings and people share one list.
#[test]
fn headings_and_people_share_one_list() {
    let raw = sync(&[
        r#"{"group":{"id":"online","count":2}}"#.to_owned(),
        member("ねんねこ", Some("online")),
        member("すぴき", Some("dnd")),
    ]);

    let mut list = MemberList::default();
    assert!(list.apply(parse(&raw).expect("読める")));

    assert_eq!(names(&list), vec!["[online 2]", "ねんねこ", "すぴき"]);
    assert_eq!(list.online(), 5);
    assert_eq!(list.total(), 30);
}

/// No presence means offline, not unknown.
#[test]
fn a_member_without_a_presence_is_offline() {
    let raw = sync(&[member("ねんねこ", None)]);
    let mut list = MemberList::default();
    list.apply(parse(&raw).expect("読める"));

    let MemberRow::Member(m) = &list.rows()[0] else {
        panic!("人のはず");
    };
    assert_eq!(m.status, Status::Offline);
}

/// An insert shifts everything after it.
#[test]
fn an_insert_pushes_the_rest_down() {
    let mut list = MemberList::default();
    list.apply(parse(&sync(&[member("いち", None), member("さん", None)])).expect("読める"));

    let raw =
        update(&format!(r#"{{"op":"INSERT","index":1,"item":{}}}"#, member("に", None)));
    assert!(list.apply(parse(&raw).expect("読める")));
    assert_eq!(names(&list), vec!["いち", "に", "さん"]);
}

/// A delete closes the gap; an update replaces in place.
#[test]
fn delete_closes_the_gap_and_update_stays_put() {
    let mut list = MemberList::default();
    list.apply(
        parse(&sync(&[member("いち", None), member("に", None), member("さん", None)]))
            .expect("読める"),
    );

    let del = update(r#"{"op":"DELETE","index":0}"#);
    list.apply(parse(&del).expect("読める"));
    assert_eq!(names(&list), vec!["に", "さん"]);

    let upd =
        update(&format!(r#"{{"op":"UPDATE","index":1,"item":{}}}"#, member("さんかい", None)));
    list.apply(parse(&upd).expect("読める"));
    assert_eq!(names(&list), vec!["に", "さんかい"]);
}

/// Diffs outside what is held are dropped, or everything below shifts.
#[test]
fn an_op_beyond_what_we_hold_is_dropped() {
    let mut list = MemberList::default();
    list.apply(parse(&sync(&[member("いち", None)])).expect("読める"));

    for beyond in [
        format!(r#"{{"op":"INSERT","index":9,"item":{}}}"#, member("ゆうれい", None)),
        format!(r#"{{"op":"UPDATE","index":9,"item":{}}}"#, member("ゆうれい", None)),
        r#"{"op":"DELETE","index":9}"#.to_owned(),
    ] {
        list.apply(parse(&update(&beyond)).expect("読める"));
        assert_eq!(names(&list), vec!["いち"]);
    }
}

/// Counts come from the top-level groups; a heading inside a diff can arrive
/// as an id alone, and every heading then reads as empty.
#[test]
fn a_heading_without_a_count_borrows_it_from_the_summary() {
    let raw = json(&format!(
        r#"{{"guild_id":"7","member_count":30,"online_count":5,
            "groups":[{{"id":"55","count":2}},{{"id":"online","count":5}}],
            "ops":[{{"op":"SYNC","range":[0,99],"items":[
                {{"group":{{"id":"55"}}}},
                {},
                {{"group":{{"id":"online"}}}}
            ]}}]}}"#,
        member("ねんねこ", Some("online"))
    ));

    let mut list = MemberList::default();
    list.apply(parse(&raw).expect("読める"));
    assert_eq!(names(&list), vec!["[55 2]", "ねんねこ", "[online 5]"]);
}

/// A heading absent from the top-level list keeps its own count.
#[test]
fn a_heading_missing_from_the_summary_keeps_its_own_count() {
    let raw = json(
        r#"{"guild_id":"7","member_count":30,"online_count":5,
            "groups":[{"id":"online","count":5}],
            "ops":[{"op":"SYNC","range":[0,99],"items":[{"group":{"id":"55","count":3}}]}]}"#,
    );

    let mut list = MemberList::default();
    list.apply(parse(&raw).expect("読める"));
    assert_eq!(names(&list), vec!["[55 3]"]);
}

/// An invalidate clears the list rather than showing stale rows.
#[test]
fn invalidate_empties_the_list() {
    let mut list = MemberList::default();
    list.apply(parse(&sync(&[member("いち", None)])).expect("読める"));

    let raw = update(r#"{"op":"INVALIDATE","range":[0,99]}"#);
    assert!(list.apply(parse(&raw).expect("読める")));
    assert!(list.is_empty());
}

/// Unknown ops are never guessed at.
#[test]
fn an_unknown_op_is_skipped_not_guessed() {
    let raw = update(r#"{"op":"TELEPORT","index":0}"#);
    let update = parse(&raw).expect("読める");
    assert!(update.ops.is_empty());
}

/// Malformed input does not panic; this comes from elsewhere.
#[test]
fn member_list_rubbish_does_not_panic() {
    assert!(parse(&json("{}")).is_none());
    assert!(parse(&json(r#"{"guild_id":"いち","ops":[]}"#)).is_none());
    assert!(parse(&json(r#"{"guild_id":"7"}"#)).is_none());
}
