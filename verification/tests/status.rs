//! The user's own status, out of the settings blob.

use base64::Engine;
use gumicord::gateway::proto::put_varint;
use gumicord::gateway::status::{
    by_shape, documented, from_settings_proto, Status, F_STATUS, F_STATUS_VALUE, MAX_DEPTH,
};

const WRAPPED: u64 = 1;

/// Builds protobuf by hand. Both the key and the length are varints; a field
/// number of 16 or more does not fit in one byte.
fn block(field: u64, body: &[u8]) -> Vec<u8> {
    let mut out = Vec::new();
    put_varint(&mut out, field << 3 | 2);
    put_varint(&mut out, body.len() as u64);
    out.extend_from_slice(body);
    out
}

fn settings(status: &str) -> String {
    let value = block(WRAPPED, status.as_bytes());
    let status_settings = block(F_STATUS_VALUE, &value);
    let root = block(F_STATUS, &status_settings);
    base64::engine::general_purpose::STANDARD.encode(root)
}

#[test]
fn the_documented_path_is_read() {
    for (wire, want) in [
        ("online", Status::Online),
        ("idle", Status::Idle),
        ("dnd", Status::Dnd),
        ("invisible", Status::Invisible),
    ] {
        assert_eq!(from_settings_proto(&settings(wire)), Some(want));
    }
}

/// Checks the documented path specifically: the shape-based search gives the
/// same answer, so testing only the entry point hides a broken path.
#[test]
fn the_documented_path_answers_on_its_own() {
    let bytes = base64::engine::general_purpose::STANDARD
        .decode(settings("dnd"))
        .expect("built here");
    assert_eq!(documented(&bytes), Some(Status::Dnd));
}

/// Found even after a renumbering, but only for a known name.
#[test]
fn a_moved_field_is_still_found() {
    let value = block(WRAPPED, b"dnd");
    let status_settings = block(F_STATUS_VALUE, &value);
    // At a different field number.
    let root = block(21, &status_settings);
    let proto = base64::engine::general_purpose::STANDARD.encode(root);

    assert_eq!(from_settings_proto(&proto), Some(Status::Dnd));
}

/// An unknown name stays unknown; showing nothing beats showing a lie.
#[test]
fn an_unknown_name_is_not_rounded_to_online() {
    assert_eq!(Status::from_wire("streaming"), None);
    assert_eq!(from_settings_proto(&settings("streaming")), None);
}

/// Malformed input does not panic.
#[test]
fn status_rubbish_does_not_panic() {
    assert_eq!(from_settings_proto("これは base64 ではない"), None);
    assert_eq!(from_settings_proto(""), None);
    assert_eq!(
        from_settings_proto(&base64::engine::general_purpose::STANDARD.encode([0xffu8; 32])),
        None
    );
}

#[test]
fn a_status_reads_back_from_the_wire() {
    for s in [Status::Online, Status::Idle, Status::Dnd, Status::Invisible, Status::Offline] {
        assert_eq!(Status::from_wire(s.as_wire()), Some(s));
        assert!(!s.label().is_empty());
    }
}

/// The search stops at its depth, and beyond it.
#[test]
fn the_search_by_shape_is_bounded() {
    let root = block(21, &block(F_STATUS_VALUE, &block(WRAPPED, b"dnd")));
    assert_eq!(by_shape(&root, 0), Some(Status::Dnd));
    assert_eq!(by_shape(&root, MAX_DEPTH - 1), Some(Status::Dnd));
    assert_eq!(by_shape(&root, MAX_DEPTH), None);
    assert_eq!(by_shape(&root, u32::MAX), None);
}
