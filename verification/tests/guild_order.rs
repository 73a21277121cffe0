//! The order of the guilds, out of the settings blob.

use std::collections::HashSet;

use base64::Engine;
use gumicord::gateway::guild_order::{
    count_encodings, folders_from_settings_proto, from_settings_proto, F_FOLDERS, F_FOLDER_COLOR,
    F_FOLDER_ID, F_FOLDER_NAME, F_GUILD_FOLDERS, F_GUILD_IDS,
};
use gumicord::gateway::proto::{blocks, fixed64s, put_varint, varint, WRAPPED_VALUE};

fn b64(bytes: &[u8]) -> String {
    base64::engine::general_purpose::STANDARD.encode(bytes)
}

fn key(field: u32, wire: u8) -> u64 {
    u64::from(field) << 3 | u64::from(wire)
}

fn order(proto: &str, known: &HashSet<u64>) -> Vec<u64> {
    from_settings_proto(proto, known).iter().map(|g| g.get()).collect()
}

/// Finds packed ids inside a nesting, knowing no field numbers.
#[test]
fn packed_ids_inside_a_nested_message_are_found() {
    let ids = [900u64, 100, 500];

    let mut packed_body = Vec::new();
    for id in ids {
        put_varint(&mut packed_body, id);
    }

    let mut inner = Vec::new();
    put_varint(&mut inner, key(1, 2));
    put_varint(&mut inner, packed_body.len() as u64);
    inner.extend(&packed_body);

    // The field number is irrelevant here.
    let mut outer = Vec::new();
    put_varint(&mut outer, key(99, 2));
    put_varint(&mut outer, inner.len() as u64);
    outer.extend(&inner);

    let known: HashSet<u64> = ids.into_iter().collect();
    assert_eq!(order(&b64(&outer), &known), vec![900, 100, 500], "not in the order they appeared");
}

/// Unknown ids are ignored; picking up a coincidental match would order the
/// guilds by something unrelated.
#[test]
fn unknown_numbers_are_ignored() {
    let mut buf = Vec::new();
    put_varint(&mut buf, key(1, 0));
    put_varint(&mut buf, 12345); // unknown
    put_varint(&mut buf, key(2, 0));
    put_varint(&mut buf, 777); // known

    let known: HashSet<u64> = [777].into_iter().collect();
    let got = from_settings_proto(&b64(&buf), &known);
    assert_eq!(got.len(), 1);
    assert_eq!(got[0].get(), 777);
}

/// Foldered guilds come out flat, in order.
#[test]
fn guilds_inside_folders_come_out_flattened() {
    let mut folder_a = Vec::new();
    put_varint(&mut folder_a, key(1, 0));
    put_varint(&mut folder_a, 10);

    let mut folder_b = Vec::new();
    put_varint(&mut folder_b, key(1, 0));
    put_varint(&mut folder_b, 20);

    let mut buf = Vec::new();
    for folder in [&folder_a, &folder_b] {
        put_varint(&mut buf, key(1, 2));
        put_varint(&mut buf, folder.len() as u64);
        buf.extend(folder);
    }

    let known: HashSet<u64> = [10, 20].into_iter().collect();
    assert_eq!(order(&b64(&buf), &known), vec![10, 20]);
}

/// A repeat is taken once.
#[test]
fn duplicates_are_taken_once() {
    let mut buf = Vec::new();
    for _ in 0..3 {
        put_varint(&mut buf, key(1, 0));
        put_varint(&mut buf, 42);
    }
    let known: HashSet<u64> = [42].into_iter().collect();
    assert_eq!(from_settings_proto(&b64(&buf), &known).len(), 1);
}

/// Malformed input does not panic; this blob comes from elsewhere.
#[test]
fn guild_order_rubbish_does_not_panic() {
    let known: HashSet<u64> = [1, 2, 3].into_iter().collect();
    assert!(from_settings_proto("not base64", &known).is_empty());
    assert!(from_settings_proto(&b64(&[0xff; 64]), &known).is_empty());
    assert!(from_settings_proto(&b64(&[]), &known).is_empty());

    // A blob claiming to be longer than it is.
    let mut lying = Vec::new();
    put_varint(&mut lying, key(1, 2));
    put_varint(&mut lying, 9999);
    lying.push(0x01);
    assert!(from_settings_proto(&b64(&lying), &known).is_empty());
}

// ── the documented path ────────────────────────────────────────────────────

fn block(field: u64, body: &[u8]) -> Vec<u8> {
    let mut out = Vec::new();
    put_varint(&mut out, field << 3 | 2);
    put_varint(&mut out, body.len() as u64);
    out.extend(body);
    out
}

/// Writes a packed `repeated fixed64`.
fn packed_ids(ids: &[u64]) -> Vec<u8> {
    ids.iter().flat_map(|id| id.to_le_bytes()).collect()
}

fn settings(folders: &[&[u64]]) -> String {
    let mut inner = Vec::new();
    for ids in folders {
        let guild_ids = block(F_GUILD_IDS, &packed_ids(ids));
        inner.extend(block(F_FOLDERS, &guild_ids));
    }
    b64(&block(F_GUILD_FOLDERS, &inner))
}

/// Reading these as varints recovered four of eleven.
#[test]
fn packed_fixed64_guild_ids_are_read_in_order() {
    let known: HashSet<u64> = [10, 20, 30, 40].into_iter().collect();
    // One folder and two unfoldered guilds.
    let proto = settings(&[&[30, 10], &[40], &[20]]);
    assert_eq!(order(&proto, &known), vec![30, 10, 40, 20]);
}

/// A half-recovered order is rejected; it belongs to neither.
#[test]
fn a_partial_order_is_refused() {
    let known: HashSet<u64> = [10, 20, 30].into_iter().collect();
    let proto = settings(&[&[30, 10]]);
    assert!(from_settings_proto(&proto, &known).is_empty(), "accepted an incomplete order");
}

/// A guild left behind in the order is dropped.
#[test]
fn guilds_we_are_no_longer_in_are_dropped() {
    let known: HashSet<u64> = [10, 20].into_iter().collect();
    let proto = settings(&[&[10, 999, 20]]);
    assert_eq!(order(&proto, &known), vec![10, 20]);
}

// ── folders ────────────────────────────────────────────────────────────────

/// Writes one wrapper message.
fn wrapped_num(field: u64, v: u64) -> Vec<u8> {
    let mut inner = Vec::new();
    put_varint(&mut inner, WRAPPED_VALUE << 3);
    put_varint(&mut inner, v);
    block(field, &inner)
}

fn wrapped_str(field: u64, s: &str) -> Vec<u8> {
    let inner = block(WRAPPED_VALUE, s.as_bytes());
    block(field, &inner)
}

fn folder_settings(folders: &[(Option<u64>, Option<&str>, &[u64])]) -> String {
    let mut inner = Vec::new();
    for (id, name, ids) in folders {
        let mut body = block(F_GUILD_IDS, &packed_ids(ids));
        if let Some(id) = id {
            body.extend(wrapped_num(F_FOLDER_ID, *id));
        }
        if let Some(name) = name {
            body.extend(wrapped_str(F_FOLDER_NAME, name));
        }
        inner.extend(block(F_FOLDERS, &body));
    }
    b64(&block(F_GUILD_FOLDERS, &inner))
}

/// Unfoldered guilds arrive as folders of one; the id tells them apart.
#[test]
fn a_bare_guild_is_not_a_folder() {
    let known: HashSet<u64> = [10, 20, 30].into_iter().collect();
    let proto = folder_settings(&[(Some(1), Some("work"), &[20, 30]), (None, None, &[10])]);

    let got = folders_from_settings_proto(&proto, &known);
    assert_eq!(got.len(), 2);

    assert!(got[0].is_folder());
    assert_eq!(got[0].name.as_deref(), Some("work"));
    assert_eq!(got[0].guilds.len(), 2);

    assert!(!got[1].is_folder(), "treated a lone guild as a folder");
    assert!(got[1].name.is_none());
}

/// A folder can be unnamed but still has an id.
#[test]
fn a_folder_without_a_name_is_still_a_folder() {
    let known: HashSet<u64> = [10, 20].into_iter().collect();
    let proto = folder_settings(&[(Some(7), None, &[10, 20])]);

    let got = folders_from_settings_proto(&proto, &known);
    assert!(got[0].is_folder());
    assert!(got[0].name.is_none());
}

/// A folder whose contents all vanished is not emitted.
#[test]
fn a_folder_that_lost_all_its_guilds_is_dropped() {
    let known: HashSet<u64> = [10].into_iter().collect();
    let proto =
        folder_settings(&[(Some(1), Some("empty"), &[998, 999]), (None, None, &[10])]);

    let got = folders_from_settings_proto(&proto, &known);
    assert_eq!(got.len(), 1);
    assert!(!got[0].is_folder());
}

#[test]
fn a_folder_carries_its_colour() {
    let known: HashSet<u64> = [10].into_iter().collect();
    let mut body = block(F_GUILD_IDS, &packed_ids(&[10]));
    body.extend(wrapped_num(F_FOLDER_ID, 5));
    body.extend(wrapped_num(F_FOLDER_COLOR, 0x00ff_8800));
    let proto = b64(&block(F_GUILD_FOLDERS, &block(F_FOLDERS, &body)));
    let got = folders_from_settings_proto(&proto, &known);
    assert_eq!((got[0].id, got[0].color), (Some(5), Some(0x00ff_8800)));
}

// ── numbers ────────────────────────────────────────────────────────────────

#[test]
fn a_varint_reads_back() {
    for v in [0, 1, 127, 128, 300, u64::from(u32::MAX), u64::MAX] {
        let mut out = Vec::new();
        put_varint(&mut out, v);
        out.push(0x55);
        assert_eq!(varint(&out), Some((v, &[0x55u8][..])));
    }
    assert_eq!(varint(&[0x80, 0x80]), None, "cut short");
}

#[test]
fn the_three_encodings_are_told_apart() {
    let mut bytes = Vec::new();
    put_varint(&mut bytes, 123_456_789);
    bytes.extend(b"987654321");
    bytes.extend(555_555_555_555u64.to_le_bytes());
    assert_eq!(
        count_encodings(&bytes, &vec![123_456_789, 987_654_321, 555_555_555_555, 42_424_242]),
        (1, 1, 1)
    );
}

/// A documented path that found something is not overruled by the shape: what
/// it leaves out is not looked for elsewhere.
#[test]
fn the_shape_does_not_overrule_the_documented_path() {
    let known: HashSet<u64> = [10, 20, 30].into_iter().collect();
    let folders = block(F_FOLDERS, &block(F_GUILD_IDS, &packed_ids(&[30, 10])));
    let mut bytes = block(F_GUILD_FOLDERS, &folders);
    bytes.extend(block(2, &[10, 20, 30]));
    assert!(order(&b64(&bytes), &known).is_empty());

    // Nor where all that it finds was left.
    let left = block(F_FOLDERS, &block(F_GUILD_IDS, &packed_ids(&[99, 98])));
    let mut bytes = block(F_GUILD_FOLDERS, &left);
    bytes.extend(block(2, &[10, 20, 30]));
    assert!(order(&b64(&bytes), &known).is_empty());
    // Where it finds nothing, the shape is searched.
    assert_eq!(order(&b64(&block(2, &[10, 20, 30])), &known), vec![10, 20, 30]);
}

/// A complete message and what follows it are read independently.
#[test]
fn blocks_of_two_messages_stand_behind_one_another() {
    let (a, b) = (block(7, b"one"), block(7, b"two"));
    let mut both = a.clone();
    both.extend(&b);
    assert_eq!(blocks(&both, 7), vec![&b"one"[..], &b"two"[..]]);
    assert_eq!(fixed64s(&packed_ids(&[3, 1, 2])), vec![3, 1, 2]);
}
