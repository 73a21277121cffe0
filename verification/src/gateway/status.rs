//! Our own status.
//!
//! Being connected is not being online: showing "online" for someone set to
//! do not disturb is a lie, so the connection is never used as evidence. The
//! real value is in the settings, the same base64 protobuf the guild order
//! comes from. An unreadable value stays unknown.

use vstd::prelude::*;
use crate::encoding::{base64_decode, base64_decoded};
use crate::gateway::proto::{
    blocks, blocks_spec, slices, utf8_lossy, wrapped_bytes, wrapped_string,
};
use crate::text;

verus! {

/// Nesting depth cap, so malformed input cannot recurse forever.
pub const MAX_DEPTH: u32 = 4;

/// The last field number tried when searching by shape.
pub const MAX_FIELD: u64 = 32;

// The documented path:
//
//   PreloadedUserSettings.status = 5    (StatusSettings)
//   StatusSettings.status        = 1    (StringValue)
//
// A renumbering falls through to the shape-based search, which also only
// accepts a known name.
/// `PreloadedUserSettings.status`
pub const F_STATUS: u64 = 5;

/// `StatusSettings.status` (StringValue)
pub const F_STATUS_VALUE: u64 = 1;

/// Our status.
#[derive(Debug, Clone, Copy, PartialEq, Eq, Structural)]
pub enum Status {
    Online,
    /// Idle, whether chosen or reached by inactivity.
    Idle,
    /// Do not disturb.
    Dnd,
    /// Invisible; still connected.
    Invisible,
    /// Offline.
    Offline,
}

/// The wire name.
pub open spec fn wire_name(s: Status) -> Seq<char> {
    match s {
        Status::Online => "online"@,
        Status::Idle => "idle"@,
        Status::Dnd => "dnd"@,
        Status::Invisible => "invisible"@,
        Status::Offline => "offline"@,
    }
}

/// The status of a wire name; an unknown name has none.
pub open spec fn named(s: Seq<char>) -> Option<Status> {
    if s == "online"@ {
        Some(Status::Online)
    } else if s == "idle"@ {
        Some(Status::Idle)
    } else if s == "dnd"@ {
        Some(Status::Dnd)
    } else if s == "invisible"@ {
        Some(Status::Invisible)
    } else if s == "offline"@ {
        Some(Status::Offline)
    } else {
        None
    }
}

/// A status comes back from its wire name, and a name that means something is
/// the wire name of what it means.
pub proof fn wire_names_round_trip(s: Status, name: Seq<char>)
    ensures
        named(wire_name(s)) == Some(s),
        named(name) matches Some(t) ==> wire_name(t) == name,
{
    reveal_strlit("online");
    reveal_strlit("idle");
    reveal_strlit("dnd");
    reveal_strlit("invisible");
    reveal_strlit("offline");
    assert("online"@.len() == 6 && "idle"@.len() == 4 && "dnd"@.len() == 3 && "invisible"@.len() == 9
        && "offline"@.len() == 7);
}

pub open spec fn label_of(s: Status) -> Seq<char> {
    match s {
        Status::Online => "オンライン"@,
        Status::Idle => "退席中"@,
        Status::Dnd => "取り込み中"@,
        Status::Invisible => "オンライン表示にしない"@,
        Status::Offline => "オフライン"@,
    }
}

impl Status {
    /// From the wire name. An unknown one stays unknown rather than becoming
    /// online, which would display a lie the day one is added.
    pub fn from_wire(s: &str) -> (r: Option<Status>)
        ensures
            r == named(s@),
    {
        if text::same_text(s, "online") {
            Some(Status::Online)
        } else if text::same_text(s, "idle") {
            Some(Status::Idle)
        } else if text::same_text(s, "dnd") {
            Some(Status::Dnd)
        } else if text::same_text(s, "invisible") {
            Some(Status::Invisible)
        } else if text::same_text(s, "offline") {
            Some(Status::Offline)
        } else {
            None
        }
    }

    /// The wire name.
    pub fn as_wire(self) -> (r: &'static str)
        ensures
            r@ == wire_name(self),
    {
        match self {
            Status::Online => "online",
            Status::Idle => "idle",
            Status::Dnd => "dnd",
            Status::Invisible => "invisible",
            Status::Offline => "offline",
        }
    }

    /// The label shown on screen.
    pub fn label(self) -> (r: &'static str)
        ensures
            r@ == label_of(self),
    {
        match self {
            Status::Online => "オンライン",
            Status::Idle => "退席中",
            Status::Dnd => "取り込み中",
            Status::Invisible => "オンライン表示にしない",
            Status::Offline => "オフライン",
        }
    }
}

/// The status that a wrapped string names.
pub open spec fn wrapped_status(b: Seq<u8>) -> Option<Status> {
    match wrapped_bytes(b, F_STATUS_VALUE) {
        Some(raw) => named(utf8_lossy(raw)),
        None => None,
    }
}

/// The status along the documented field numbers: the first settings message,
/// and the wrapped string in it.
pub open spec fn documented_spec(b: Seq<u8>) -> Option<Status> {
    let found = blocks_spec(b, F_STATUS);
    if found.len() == 0 {
        None
    } else {
        wrapped_status(found[0])
    }
}

/// The blocks with the field numbers from `field` to the last that is tried,
/// by number and then in order.
pub open spec fn blocks_from(b: Seq<u8>, field: u64) -> Seq<Seq<u8>>
    decreases MAX_FIELD + 1 - field,
{
    if field > MAX_FIELD {
        seq![]
    } else {
        blocks_spec(b, field) + blocks_from(b, (field + 1) as u64)
    }
}

/// The first status in the list of blocks, from the `k`-th on: in a block
/// itself, else in what it holds, as deep as the cap allows.
pub open spec fn shape_in(list: Seq<Seq<u8>>, k: int, depth: u32) -> Option<Status>
    decreases MAX_DEPTH - depth, list.len() - k,
{
    if k < 0 || k >= list.len() {
        None
    } else {
        let inside = if depth + 1 < MAX_DEPTH {
            shape_in(blocks_from(list[k], 1), 0, (depth + 1) as u32)
        } else {
            None
        };
        match (wrapped_status(list[k]), inside) {
            (Some(s), _) => Some(s),
            (None, Some(s)) => Some(s),
            (None, None) => shape_in(list, k + 1, depth),
        }
    }
}

/// The first status that the shape gives away.
pub open spec fn by_shape_spec(b: Seq<u8>, depth: u32) -> Option<Status> {
    if depth < MAX_DEPTH {
        shape_in(blocks_from(b, 1), 0, depth)
    } else {
        None
    }
}

/// The status in decoded settings.
pub open spec fn status_in(b: Seq<u8>) -> Option<Status> {
    match documented_spec(b) {
        Some(s) => Some(s),
        None => by_shape_spec(b, 0),
    }
}

fn read_wrapped(b: &[u8]) -> (r: Option<Status>)
    ensures
        r == wrapped_status(b@),
{
    match wrapped_string(b, F_STATUS_VALUE) {
        Some(name) => Status::from_wire(name.as_str()),
        None => None,
    }
}

/// Follows the documented field numbers.
///
/// There are two layers: the outer field is a settings message, and the
/// wrapper is inside it.
pub fn documented(bytes: &[u8]) -> (r: Option<Status>)
    ensures
        r == documented_spec(bytes@),
{
    let found = blocks(bytes, F_STATUS);
    if found.len() == 0 {
        assert(slices(found@).len() == 0);
        return None;
    }
    assert(slices(found@)[0] == found[0]@);
    read_wrapped(found[0])
}

fn all_blocks<'a>(bytes: &'a [u8]) -> (r: Vec<&'a [u8]>)
    ensures
        slices(r@) == blocks_from(bytes@, 1),
{
    let mut out: Vec<&'a [u8]> = Vec::new();
    let mut field: u64 = 1;
    assert(slices(out@) + blocks_from(bytes@, 1) =~= blocks_from(bytes@, 1));
    while field <= MAX_FIELD
        invariant
            1 <= field <= MAX_FIELD + 1,
            slices(out@) + blocks_from(bytes@, field) == blocks_from(bytes@, 1),
        decreases MAX_FIELD + 1 - field,
    {
        let ghost was = slices(out@);
        let mut found = blocks(bytes, field);
        let ghost new = found@;
        out.append(&mut found);
        assert(slices(out@) =~= was + slices(new));
        assert(was + (blocks_spec(bytes@, field) + blocks_from(bytes@, (field + 1) as u64)) =~= (was
            + blocks_spec(bytes@, field)) + blocks_from(bytes@, (field + 1) as u64));
        field += 1;
    }
    assert(slices(out@) =~= blocks_from(bytes@, 1));
    out
}

/// Searches nested messages for a string that reads as a status.
pub fn by_shape(bytes: &[u8], depth: u32) -> (r: Option<Status>)
    ensures
        r == by_shape_spec(bytes@, depth),
    decreases MAX_DEPTH - depth,
{
    if depth >= MAX_DEPTH {
        return None;
    }
    // The field number is unknown, so every block is tried in turn.
    let list = all_blocks(bytes);
    let ghost all = slices(list@);
    let mut k: usize = 0;
    while k < list.len()
        invariant
            k <= list.len(),
            depth < MAX_DEPTH,
            all == slices(list@),
            by_shape_spec(bytes@, depth) == shape_in(all, k as int, depth),
        decreases list.len() - k,
    {
        let block = list[k];
        assert(all[k as int] == block@);
        if let Some(found) = read_wrapped(block) {
            return Some(found);
        }
        if let Some(found) = by_shape(block, depth + 1) {
            return Some(found);
        }
        k += 1;
    }
    None
}

/// The status in decoded settings. The documented path is authoritative where
/// it matches; otherwise the shape decides, and only a known name counts.
pub fn from_settings_bytes(bytes: &[u8]) -> (r: Option<Status>)
    ensures
        r == status_in(bytes@),
{
    match documented(bytes) {
        Some(found) => Some(found),
        None => by_shape(bytes, 0),
    }
}

/// Extracts the status. Unknown stays unknown.
pub fn from_settings_proto(proto_base64: &str) -> (r: Option<Status>)
    ensures
        r == (match base64_decoded(proto_base64@) {
            Some(b) => status_in(b),
            None => None,
        }),
{
    match base64_decode(proto_base64) {
        Some(bytes) => from_settings_bytes(bytes.as_slice()),
        None => None,
    }
}

} // verus!
